use vstd::prelude::*;

use crate::error::LabError;
use crate::scalar::Scalar;
use crate::scalar::wire_of;
use crate::text::str_eq;

verus! {

/// The two-valued state of a switchable instrument port.
///
/// On the wire it is written as the token `ON` or `OFF`; replies are read
/// leniently: `1`, `on` and `ON` mean on, every other reply means off.
#[derive(Clone, Copy, Debug, PartialEq, Eq, Structural)]
pub enum PortState {
    On,
    Off,
}

impl PortState {
    pub open spec fn token_spec(&self) -> Seq<char> {
        match *self {
            PortState::On => "ON"@,
            PortState::Off => "OFF"@,
        }
    }

    /// The token this state takes in a set command.
    pub fn token(&self) -> (r: &'static str)
        ensures
            r@ == self.token_spec(),
    {
        match *self {
            PortState::On => "ON",
            PortState::Off => "OFF",
        }
    }

    /// The state a reply line denotes under the lenient rule.
    pub open spec fn lenient_spec(s: Seq<char>) -> PortState {
        if s == "1"@ || s == "on"@ || s == "ON"@ {
            PortState::On
        } else {
            PortState::Off
        }
    }

    /// Reads a reply leniently: exactly `1`, `on` and `ON` are on; every
    /// other reply, malformed ones included, is off.
    pub fn parse_lenient(s: &str) -> (r: PortState)
        ensures
            r == PortState::lenient_spec(s@),
            r is On <==> (s@ == "1"@ || s@ == "on"@ || s@ == "ON"@),
    {
        if str_eq(s, "1") || str_eq(s, "on") || str_eq(s, "ON") {
            PortState::On
        } else {
            PortState::Off
        }
    }

    /// This state as a plain boolean, true when on.
    pub fn to_bool(&self) -> (r: bool)
        ensures
            r == (*self is On),
    {
        match *self {
            PortState::On => true,
            PortState::Off => false,
        }
    }
}

/// An instrument channel selector, written `CH1` .. `CH4` on the wire.
#[derive(Clone, Copy, Debug, PartialEq, Eq, Structural)]
pub enum Ch {
    Ch1,
    Ch2,
    Ch3,
    Ch4,
}

impl Ch {
    pub open spec fn token_spec(&self) -> Seq<char> {
        match *self {
            Ch::Ch1 => "CH1"@,
            Ch::Ch2 => "CH2"@,
            Ch::Ch3 => "CH3"@,
            Ch::Ch4 => "CH4"@,
        }
    }

    pub fn token(&self) -> (r: &'static str)
        ensures
            r@ == self.token_spec(),
    {
        match *self {
            Ch::Ch1 => "CH1",
            Ch::Ch2 => "CH2",
            Ch::Ch3 => "CH3",
            Ch::Ch4 => "CH4",
        }
    }
}

/// A measurement kind; not every instrument supports every kind, and the
/// unsupported combinations are rejected before any command is sent.
#[derive(Clone, Copy, Debug, PartialEq, Eq, Structural)]
pub enum Meas {
    Volt,
    Curr,
    Powr,
    Res,
    Ext,
    Dummy,
}

impl Meas {
    pub open spec fn token_spec(&self) -> Seq<char> {
        match *self {
            Meas::Volt => "VOLT"@,
            Meas::Curr => "CURR"@,
            Meas::Powr => "POWER"@,
            Meas::Res => "RES"@,
            Meas::Ext => "EXT"@,
            Meas::Dummy => "###DUMMY###"@,
        }
    }

    pub fn token(&self) -> (r: &'static str)
        ensures
            r@ == self.token_spec(),
    {
        match *self {
            Meas::Volt => "VOLT",
            Meas::Curr => "CURR",
            Meas::Powr => "POWER",
            Meas::Res => "RES",
            Meas::Ext => "EXT",
            Meas::Dummy => "###DUMMY###",
        }
    }
}

/// The text of a query command: the path followed by `?`.
pub fn query_text(path: &str) -> (r: String)
    ensures
        r@ == path@ + "?"@,
{
    let mut s = String::from_str(path);
    s.append("?");
    s
}

/// The text of a numeric set command: the path, a space, then the value in
/// its decimal wire form.  The value is not read back; the channel returns
/// it unchanged.
pub fn set_scalar_text(path: &str, v: Scalar) -> (r: String)
    requires
        v.wf(),
    ensures
        r@ == path@ + " "@ + wire_of(v@),
{
    let mut s = String::from_str(path);
    s.append(" ");
    s.append(v.to_wire().as_str());
    s
}

/// The text of a state set command: the path, a space, then `ON` or `OFF`.
pub fn set_state_text(path: &str, st: PortState) -> (r: String)
    ensures
        r@ == path@ + " "@ + st.token_spec(),
{
    let mut s = String::from_str(path);
    s.append(" ");
    s.append(st.token());
    s
}

} // verus!
