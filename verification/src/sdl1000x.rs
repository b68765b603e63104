use vstd::prelude::*;

use crate::error::LabError;
use crate::scalar::Scalar;
use crate::scalar::wire_of;
use crate::scpi::Meas;
use crate::text::str_eq;

verus! {

/// Load function selection for the programmable electronic load: which
/// quantity the load regulates at its input.
#[derive(Clone, Copy, Debug, PartialEq, Eq, Structural)]
pub enum Func {
    Curr,
    Volt,
    Powr,
    Res,
    Led,
}

impl Func {
    pub open spec fn token_spec(&self) -> Seq<char> {
        match *self {
            Func::Curr => "CURR"@,
            Func::Volt => "VOLT"@,
            Func::Powr => "POW"@,
            Func::Res => "RES"@,
            Func::Led => "LED"@,
        }
    }

    /// The token this function takes in a set command.
    pub fn token(&self) -> (r: &'static str)
        ensures
            r@ == self.token_spec(),
    {
        match *self {
            Func::Curr => "CURR",
            Func::Volt => "VOLT",
            Func::Powr => "POW",
            Func::Res => "RES",
            Func::Led => "LED",
        }
    }

    /// The function a query reply denotes; replies use the long names.
    pub open spec fn from_wire_spec(s: Seq<char>) -> Option<Func> {
        if s == "CURRENT"@ {
            Some(Func::Curr)
        } else if s == "VOLTAGE"@ {
            Some(Func::Volt)
        } else if s == "POWER"@ {
            Some(Func::Powr)
        } else if s == "RESISTANCE"@ {
            Some(Func::Res)
        } else if s == "LED"@ {
            Some(Func::Led)
        } else {
            None
        }
    }

    /// Reads a function query reply; any other text is a protocol error.
    pub fn from_wire(s: &str) -> (r: Result<Func, LabError>)
        ensures
            Func::from_wire_spec(s@) is Some ==> r == Ok::<Func, LabError>(
                Func::from_wire_spec(s@).unwrap(),
            ),
            Func::from_wire_spec(s@) is None ==> r == Err::<Func, LabError>(LabError::Protocol),
    {
        if str_eq(s, "CURRENT") {
            Ok(Func::Curr)
        } else if str_eq(s, "VOLTAGE") {
            Ok(Func::Volt)
        } else if str_eq(s, "POWER") {
            Ok(Func::Powr)
        } else if str_eq(s, "RESISTANCE") {
            Ok(Func::Res)
        } else if str_eq(s, "LED") {
            Ok(Func::Led)
        } else {
            Err(LabError::Protocol)
        }
    }
}

/// Load current range selection, written as a bare ampere count.
#[derive(Clone, Copy, Debug, PartialEq, Eq, Structural)]
pub enum IRange {
    I5A,
    I30A,
}

impl IRange {
    pub open spec fn token_spec(&self) -> Seq<char> {
        match *self {
            IRange::I5A => "5"@,
            IRange::I30A => "30"@,
        }
    }

    pub fn token(&self) -> (r: &'static str)
        ensures
            r@ == self.token_spec(),
    {
        match *self {
            IRange::I5A => "5",
            IRange::I30A => "30",
        }
    }

    /// The largest settable current of this range, in micro-amperes.
    pub open spec fn max_micro_spec(&self) -> int {
        match *self {
            IRange::I5A => 5_000_000int,
            IRange::I30A => 30_000_000int,
        }
    }

    pub fn max_micro(&self) -> (r: i64)
        ensures
            r as int == self.max_micro_spec(),
    {
        match *self {
            IRange::I5A => 5_000_000,
            IRange::I30A => 30_000_000,
        }
    }

    pub open spec fn from_wire_spec(s: Seq<char>) -> Option<IRange> {
        if s == "5"@ {
            Some(IRange::I5A)
        } else if s == "30"@ {
            Some(IRange::I30A)
        } else {
            None
        }
    }

    /// Reads a range query reply; any other text is a protocol error.
    pub fn from_wire(s: &str) -> (r: Result<IRange, LabError>)
        ensures
            IRange::from_wire_spec(s@) is Some ==> r == Ok::<IRange, LabError>(
                IRange::from_wire_spec(s@).unwrap(),
            ),
            IRange::from_wire_spec(s@) is None ==> r == Err::<IRange, LabError>(
                LabError::Protocol,
            ),
    {
        if str_eq(s, "5") {
            Ok(IRange::I5A)
        } else if str_eq(s, "30") {
            Ok(IRange::I30A)
        } else {
            Err(LabError::Protocol)
        }
    }
}

/// Load voltage range selection, written as a bare volt count.
#[derive(Clone, Copy, Debug, PartialEq, Eq, Structural)]
pub enum VRange {
    V36V,
    V150V,
}

impl VRange {
    pub open spec fn token_spec(&self) -> Seq<char> {
        match *self {
            VRange::V36V => "36"@,
            VRange::V150V => "150"@,
        }
    }

    pub fn token(&self) -> (r: &'static str)
        ensures
            r@ == self.token_spec(),
    {
        match *self {
            VRange::V36V => "36",
            VRange::V150V => "150",
        }
    }

    pub open spec fn from_wire_spec(s: Seq<char>) -> Option<VRange> {
        if s == "36"@ {
            Some(VRange::V36V)
        } else if s == "150"@ {
            Some(VRange::V150V)
        } else {
            None
        }
    }

    /// Reads a range query reply; any other text is a protocol error.
    pub fn from_wire(s: &str) -> (r: Result<VRange, LabError>)
        ensures
            VRange::from_wire_spec(s@) is Some ==> r == Ok::<VRange, LabError>(
                VRange::from_wire_spec(s@).unwrap(),
            ),
            VRange::from_wire_spec(s@) is None ==> r == Err::<VRange, LabError>(
                LabError::Protocol,
            ),
    {
        if str_eq(s, "36") {
            Ok(VRange::V36V)
        } else if str_eq(s, "150") {
            Ok(VRange::V150V)
        } else {
            Err(LabError::Protocol)
        }
    }
}

/// Load resistance range selection.
#[derive(Clone, Copy, Debug, PartialEq, Eq, Structural)]
pub enum RRange {
    Low,
    Middle,
    High,
    Upper,
}

impl RRange {
    pub open spec fn token_spec(&self) -> Seq<char> {
        match *self {
            RRange::Low => "LOW"@,
            RRange::Middle => "MIDDLE"@,
            RRange::High => "HIGH"@,
            RRange::Upper => "UPPER"@,
        }
    }

    pub fn token(&self) -> (r: &'static str)
        ensures
            r@ == self.token_spec(),
    {
        match *self {
            RRange::Low => "LOW",
            RRange::Middle => "MIDDLE",
            RRange::High => "HIGH",
            RRange::Upper => "UPPER",
        }
    }
}

/// Transient trigger mode of the load.
#[derive(Clone, Copy, Debug, PartialEq, Eq, Structural)]
pub enum Transient {
    Continuous,
    Pulse,
    Toggle,
}

impl Transient {
    pub open spec fn token_spec(&self) -> Seq<char> {
        match *self {
            Transient::Continuous => "CONT"@,
            Transient::Pulse => "PULS"@,
            Transient::Toggle => "TOGG"@,
        }
    }

    pub fn token(&self) -> (r: &'static str)
        ensures
            r@ == self.token_spec(),
    {
        match *self {
            Transient::Continuous => "CONT",
            Transient::Pulse => "PULS",
            Transient::Toggle => "TOGG",
        }
    }

    pub open spec fn from_wire_spec(s: Seq<char>) -> Option<Transient> {
        if s == "CONTINUOUS"@ {
            Some(Transient::Continuous)
        } else if s == "PULSE"@ {
            Some(Transient::Pulse)
        } else if s == "TOGGLE"@ {
            Some(Transient::Toggle)
        } else {
            None
        }
    }

    /// Reads a transient-mode query reply; other text is a protocol error.
    pub fn from_wire(s: &str) -> (r: Result<Transient, LabError>)
        ensures
            Transient::from_wire_spec(s@) is Some ==> r == Ok::<Transient, LabError>(
                Transient::from_wire_spec(s@).unwrap(),
            ),
            Transient::from_wire_spec(s@) is None ==> r == Err::<Transient, LabError>(
                LabError::Protocol,
            ),
    {
        if str_eq(s, "CONTINUOUS") {
            Ok(Transient::Continuous)
        } else if str_eq(s, "PULSE") {
            Ok(Transient::Pulse)
        } else if str_eq(s, "TOGGLE") {
            Ok(Transient::Toggle)
        } else {
            Err(LabError::Protocol)
        }
    }
}

/// A current set-point: one of the symbolic limits or an explicit value.
#[derive(Clone, Copy, Debug, PartialEq, Eq, Structural)]
pub enum Curr {
    Min,
    Max,
    Default,
    A(Scalar),
}

impl Curr {
    pub open spec fn wf(&self) -> bool {
        match *self {
            Curr::A(v) => v.wf(),
            _ => true,
        }
    }

    pub open spec fn wire_spec(&self) -> Seq<char> {
        match *self {
            Curr::Min => "MIN"@,
            Curr::Max => "MAX"@,
            Curr::Default => "DEF"@,
            Curr::A(v) => wire_of(v@),
        }
    }

    /// The text this set-point takes on the wire.
    pub fn to_wire(&self) -> (r: String)
        requires
            self.wf(),
        ensures
            r@ == self.wire_spec(),
    {
        match *self {
            Curr::Min => String::from_str("MIN"),
            Curr::Max => String::from_str("MAX"),
            Curr::Default => String::from_str("DEF"),
            Curr::A(v) => v.to_wire(),
        }
    }
}

/// A current slew-rate set-point, in amperes per microsecond.
#[derive(Clone, Copy, Debug, PartialEq, Eq, Structural)]
pub enum Slew {
    Min,
    Max,
    Default,
    APerUs(Scalar),
}

/// Smallest explicit slew rate the load accepts, in micro-units.
pub const SLEW_MIN_MICRO: i64 = 1_000;

/// Largest explicit slew rate the load accepts, in micro-units.
pub const SLEW_MAX_MICRO: i64 = 500_000;

impl Slew {
    pub open spec fn wf(&self) -> bool {
        match *self {
            Slew::APerUs(v) => v.wf(),
            _ => true,
        }
    }

    pub open spec fn wire_spec(&self) -> Seq<char> {
        match *self {
            Slew::Min => "MIN"@,
            Slew::Max => "MAX"@,
            Slew::Default => "DEF"@,
            Slew::APerUs(v) => wire_of(v@),
        }
    }

    /// The text this set-point takes on the wire.
    pub fn to_wire(&self) -> (r: String)
        requires
            self.wf(),
        ensures
            r@ == self.wire_spec(),
    {
        match *self {
            Slew::Min => String::from_str("MIN"),
            Slew::Max => String::from_str("MAX"),
            Slew::Default => String::from_str("DEF"),
            Slew::APerUs(v) => v.to_wire(),
        }
    }
}

/// Whether an explicit slew rate lies inside the load's accepted band;
/// symbolic set-points always pass.
pub fn slew_check(slew: Slew) -> (r: Result<(), LabError>)
    ensures
        r is Ok <==> match slew {
            Slew::APerUs(v) => SLEW_MIN_MICRO as int <= v@ <= SLEW_MAX_MICRO as int,
            _ => true,
        },
        r is Err ==> r == Err::<(), LabError>(LabError::DomainLimit),
{
    match slew {
        Slew::APerUs(v) => {
            if v.micro < SLEW_MIN_MICRO || v.micro > SLEW_MAX_MICRO {
                Err(LabError::DomainLimit)
            } else {
                Ok(())
            }
        },
        _ => Ok(()),
    }
}

/// Whether an explicit current set-point is non-negative and within the
/// selected current range; symbolic set-points always pass.
pub fn curr_check(curr: Curr, range: IRange) -> (r: Result<(), LabError>)
    ensures
        r is Ok <==> match curr {
            Curr::A(v) => 0 <= v@ <= range.max_micro_spec(),
            _ => true,
        },
        r is Err ==> r == Err::<(), LabError>(LabError::DomainLimit),
{
    match curr {
        Curr::A(v) => {
            if v.micro < 0 {
                Err(LabError::DomainLimit)
            } else if v.micro > range.max_micro() {
                Err(LabError::DomainLimit)
            } else {
                Ok(())
            }
        },
        _ => Ok(()),
    }
}

/// Whether the electronic load can measure this kind at all.
pub open spec fn load_supports(m: Meas) -> bool {
    match m {
        Meas::Volt | Meas::Curr | Meas::Powr | Meas::Res | Meas::Ext => true,
        Meas::Dummy => false,
    }
}

/// The text of a single-shot measurement query on the load, rejected
/// before anything is sent where the kind is unsupported.
pub fn load_meas_cmd(m: Meas) -> (r: Result<String, LabError>)
    ensures
        load_supports(m) ==> r is Ok && r.unwrap()@ == "MEAS:"@ + m.token_spec() + "?"@,
        !load_supports(m) ==> r == Err::<String, LabError>(LabError::DomainLimit),
{
    match m {
        Meas::Volt | Meas::Curr | Meas::Powr | Meas::Res | Meas::Ext => {
            let mut s = String::from_str("MEAS:");
            s.append(m.token());
            s.append("?");
            Ok(s)
        },
        Meas::Dummy => Err(LabError::DomainLimit),
    }
}

/// The text of a load function-select command.
pub fn func_cmd(f: Func) -> (r: String)
    ensures
        r@ == ":FUNC "@ + f.token_spec(),
{
    let mut s = String::from_str(":FUNC ");
    s.append(f.token());
    s
}

/// The text of a current-range select command.
pub fn irange_cmd(v: IRange) -> (r: String)
    ensures
        r@ == ":CURR:IRANG "@ + v.token_spec(),
{
    let mut s = String::from_str(":CURR:IRANG ");
    s.append(v.token());
    s
}

/// The text of a voltage-range select command.
pub fn vrange_cmd(v: VRange) -> (r: String)
    ensures
        r@ == ":CURR:VRANG "@ + v.token_spec(),
{
    let mut s = String::from_str(":CURR:VRANG ");
    s.append(v.token());
    s
}

/// The text of a current set command, rejected before anything is sent
/// where the set-point fails the range check.
pub fn curr_cmd(c: Curr, range: IRange) -> (r: Result<String, LabError>)
    requires
        c.wf(),
    ensures
        (match c {
            Curr::A(v) => 0 <= v@ <= range.max_micro_spec(),
            _ => true,
        }) ==> r is Ok && r.unwrap()@ == ":CURR "@ + c.wire_spec(),
        !(match c {
            Curr::A(v) => 0 <= v@ <= range.max_micro_spec(),
            _ => true,
        }) ==> r == Err::<String, LabError>(LabError::DomainLimit),
{
    match curr_check(c, range) {
        Ok(_) => {
            let mut s = String::from_str(":CURR ");
            s.append(c.to_wire().as_str());
            Ok(s)
        },
        Err(e) => Err(e),
    }
}

/// The text of a positive slew-rate set command, rejected where the rate
/// lies outside the accepted band.
pub fn curr_slew_p_cmd(slew: Slew) -> (r: Result<String, LabError>)
    requires
        slew.wf(),
    ensures
        (match slew {
            Slew::APerUs(v) => SLEW_MIN_MICRO as int <= v@ <= SLEW_MAX_MICRO as int,
            _ => true,
        }) ==> r is Ok && r.unwrap()@ == ":CURR:SLEW:POS "@ + slew.wire_spec(),
        !(match slew {
            Slew::APerUs(v) => SLEW_MIN_MICRO as int <= v@ <= SLEW_MAX_MICRO as int,
            _ => true,
        }) ==> r == Err::<String, LabError>(LabError::DomainLimit),
{
    match slew_check(slew) {
        Ok(_) => {
            let mut s = String::from_str(":CURR:SLEW:POS ");
            s.append(slew.to_wire().as_str());
            Ok(s)
        },
        Err(e) => Err(e),
    }
}

/// The text of a negative slew-rate set command, rejected where the rate
/// lies outside the accepted band.
pub fn curr_slew_n_cmd(slew: Slew) -> (r: Result<String, LabError>)
    requires
        slew.wf(),
    ensures
        (match slew {
            Slew::APerUs(v) => SLEW_MIN_MICRO as int <= v@ <= SLEW_MAX_MICRO as int,
            _ => true,
        }) ==> r is Ok && r.unwrap()@ == ":CURR:SLEW:NEG "@ + slew.wire_spec(),
        !(match slew {
            Slew::APerUs(v) => SLEW_MIN_MICRO as int <= v@ <= SLEW_MAX_MICRO as int,
            _ => true,
        }) ==> r == Err::<String, LabError>(LabError::DomainLimit),
{
    match slew_check(slew) {
        Ok(_) => {
            let mut s = String::from_str(":CURR:SLEW:NEG ");
            s.append(slew.to_wire().as_str());
            Ok(s)
        },
        Err(e) => Err(e),
    }
}

/// Every range selector reads back as itself: formatting a current range
/// and parsing the reply returns the same selector, and likewise for a
/// voltage range.
pub proof fn lemma_range_round_trip(ir: IRange, vr: VRange)
    ensures
        IRange::from_wire_spec(ir.token_spec()) == Some(ir),
        VRange::from_wire_spec(vr.token_spec()) == Some(vr),
{
    reveal_strlit("5");
    reveal_strlit("30");
    reveal_strlit("36");
    reveal_strlit("150");
    assert("5"@.len() == 1);
    assert("30"@.len() == 2);
    assert("36"@.len() == 2);
    assert("150"@.len() == 3);
    assert("30"@ != "5"@);
    assert("36"@[0] == '3' && "30"@[0] == '3' && "30"@[1] == '0' && "36"@[1] == '6');
    assert("150"@ != "36"@);
}


use crate::scalar::spec_parse;

/// First index at or after `i` that holds the comma separating waveform
/// samples.
pub open spec fn seg_end(s: Seq<char>, i: int) -> int
    decreases s.len() - i,
{
    if i < 0 || i >= s.len() {
        i
    } else if s[i] == ',' {
        i
    } else {
        seg_end(s, i + 1)
    }
}

/// The value of one comma-separated sample: its decimal reading, or zero
/// where the text is not a number, as the instrument's gap-filling rule
/// has it.
pub open spec fn sample_of(t: Seq<char>) -> int {
    match spec_parse(t) {
        Some(v) => v,
        None => 0,
    }
}

/// The samples of a waveform reply from position `i` on: one sample per
/// comma-separated segment.
pub open spec fn wave_from(s: Seq<char>, i: int) -> Seq<int>
    decreases s.len() + 1 - i,
    via wave_from_decreases
{
    if i < 0 || i > s.len() {
        Seq::empty()
    } else {
        let e = seg_end(s, i);
        let v = sample_of(s.subrange(i, e));
        if e >= s.len() {
            seq![v]
        } else {
            seq![v] + wave_from(s, e + 1)
        }
    }
}

#[via_fn]
proof fn wave_from_decreases(s: Seq<char>, i: int) {
    if 0 <= i <= s.len() {
        lemma_seg_end_bounds(s, i);
    }
}

/// The samples of a whole waveform reply.
pub open spec fn wave_values(s: Seq<char>) -> Seq<int> {
    wave_from(s, 0)
}

proof fn lemma_seg_end_skip(s: Seq<char>, i: int)
    requires
        0 <= i < s.len(),
        s[i] != ',',
    ensures
        seg_end(s, i) == seg_end(s, i + 1),
{
}

proof fn lemma_seg_end_bounds(s: Seq<char>, i: int)
    requires
        0 <= i <= s.len(),
    ensures
        i <= seg_end(s, i) <= s.len(),
    decreases s.len() - i,
{
    if i < s.len() && s[i] != ',' {
        lemma_seg_end_bounds(s, i + 1);
    }
}

/// Reads a waveform reply: comma-separated decimal samples, with any
/// segment that is not a plain in-range number standing in as zero.
pub fn parse_wave(s: &str) -> (r: Vec<Scalar>)
    ensures
        r@.len() == wave_values(s@).len(),
        forall|j: int| 0 <= j < r@.len() ==> r@[j]@ == wave_values(s@)[j] && r@[j].wf(),
{
    let len = s.unicode_len();
    let mut out: Vec<Scalar> = Vec::new();
    let mut pos: usize = 0;
    loop
        invariant_except_break
            wave_values(s@) =~= out@.map_values(|x: Scalar| x@) + wave_from(s@, pos as int),
        invariant
            pos <= len,
            len == s@.len(),
            forall|j: int| 0 <= j < out@.len() ==> (#[trigger] out@[j]).wf(),
        ensures
            wave_values(s@) =~= out@.map_values(|x: Scalar| x@),
            forall|j: int| 0 <= j < out@.len() ==> (#[trigger] out@[j]).wf(),
        decreases len - pos,
    {
        // find the end of the current segment
        let mut e: usize = pos;
        while e < len && !comma_at(s, e)
            invariant
                pos <= e <= len,
                len == s@.len(),
                seg_end(s@, pos as int) == seg_end(s@, e as int),
            decreases len - e,
        {
            proof {
                lemma_seg_end_skip(s@, e as int);
            }
            e += 1;
        }
        proof {
            assert(seg_end(s@, e as int) == e as int);
        }
        let seg = s.substring_char(pos, e);
        let v = match crate::scalar::parse_wire(seg) {
            Ok(v) => v,
            Err(_) => Scalar { micro: 0 },
        };
        proof {
            assert(v@ == sample_of(s@.subrange(pos as int, e as int)));
        }
        let ghost old_out = out@;
        out.push(v);
        proof {
            assert(out@.map_values(|x: Scalar| x@) =~= old_out.map_values(|x: Scalar| x@)
                + seq![v@]);
        }
        if e >= len {
            proof {
                assert(wave_from(s@, pos as int) =~= seq![v@]);
                assert(wave_values(s@) =~= out@.map_values(|x: Scalar| x@));
            }
            break;
        }
        pos = e + 1;
        proof {
            assert(wave_from(s@, (pos - 1) as int + 1) == wave_from(s@, pos as int));
        }
    }
    proof {
        assert(forall|j: int| 0 <= j < out@.len() ==> out@.map_values(|x: Scalar| x@)[j]
            == (#[trigger] out@[j])@);
    }
    out
}

fn comma_at(s: &str, i: usize) -> (r: bool)
    requires
        i < s@.len(),
    ensures
        r == (s@[i as int] == ','),
{
    s.get_char(i) == ','
}

} // verus!
