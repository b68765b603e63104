use vstd::prelude::*;

verus! {

/// The failure taxonomy of the instrument stack.
///
/// Every fallible operation of the crate reports one of these; the caller
/// that owns the socket maps its transport failures onto the same set.
#[derive(Clone, Copy, Debug, PartialEq, Eq, Structural)]
pub enum LabError {
    /// A host:port string resolved to no usable socket address.
    AddressResolution,
    /// The socket connect failed or timed out.
    Connection,
    /// A write or read failed, or a read timed out mid-operation.
    Transport,
    /// A reply could not be parsed as the expected type.
    Protocol,
    /// A requested or computed value fell outside a configured safe range.
    DomainLimit,
}

impl LabError {
    /// A short diagnostic name for the error, for callers that log.
    pub fn describe(&self) -> (r: &'static str)
        ensures
            r@ == self.describe_spec(),
    {
        match *self {
            LabError::AddressResolution => "address resolution failed",
            LabError::Connection => "connection failed",
            LabError::Transport => "transport failed",
            LabError::Protocol => "protocol error",
            LabError::DomainLimit => "domain limit exceeded",
        }
    }

    pub open spec fn describe_spec(&self) -> Seq<char> {
        match *self {
            LabError::AddressResolution => "address resolution failed"@,
            LabError::Connection => "connection failed"@,
            LabError::Transport => "transport failed"@,
            LabError::Protocol => "protocol error"@,
            LabError::DomainLimit => "domain limit exceeded"@,
        }
    }
}

} // verus!
