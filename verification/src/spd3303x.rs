use vstd::prelude::*;

use crate::error::LabError;
use crate::scalar::Scalar;
use crate::scalar::wire_of;
use crate::scpi::Ch;
use crate::scpi::Meas;
use crate::scpi::PortState;

verus! {

/// Regulation mode of one power-supply channel.
#[derive(Clone, Copy, Debug, PartialEq, Eq, Structural)]
pub enum PwrChannelMode {
    /// Constant voltage.
    CV,
    /// Constant current, i.e. the current limit has been reached.
    CC,
}

/// How the two output channels are coupled.
#[derive(Clone, Copy, Debug, PartialEq, Eq, Structural)]
pub enum PwrOutputMode {
    Invalid,
    Independent,
    Parallel,
    Series,
}

/// Front-panel display mode of one channel.
#[derive(Clone, Copy, Debug, PartialEq, Eq, Structural)]
pub enum PwrDisplayMode {
    Digital,
    Waveform,
}

/// The decoded fields of the power supply's packed status word.
#[derive(Clone, Copy, Debug, PartialEq, Eq, Structural)]
pub struct SPD3303XStatus {
    pub output_mode: PwrOutputMode,
    pub ch1: PortState,
    pub ch2: PortState,
    pub ch1_mode: PwrChannelMode,
    pub ch2_mode: PwrChannelMode,
    pub ch1_display: PwrDisplayMode,
    pub ch2_display: PwrDisplayMode,
    pub timer1: PortState,
    pub timer2: PortState,
}

/// The field values packed into a status word: bit 0 and bit 1 carry the
/// channel regulation modes, bits 2-3 the output coupling, bits 4-5 the
/// channel output states, bits 6-7 the timer states, and bits 8-9 the
/// display modes.
pub open spec fn status_of_word(st: u16) -> SPD3303XStatus {
    SPD3303XStatus {
        output_mode: if (st & 0b1100) >> 2 == 0b01 {
            PwrOutputMode::Independent
        } else if (st & 0b1100) >> 2 == 0b10 {
            PwrOutputMode::Parallel
        } else if (st & 0b1100) >> 2 == 0b11 {
            PwrOutputMode::Series
        } else {
            PwrOutputMode::Invalid
        },
        ch1: if st & 16 == 0 {
            PortState::Off
        } else {
            PortState::On
        },
        ch2: if st & 32 == 0 {
            PortState::Off
        } else {
            PortState::On
        },
        ch1_mode: if st & 1 == 0 {
            PwrChannelMode::CV
        } else {
            PwrChannelMode::CC
        },
        ch2_mode: if st & 2 == 0 {
            PwrChannelMode::CV
        } else {
            PwrChannelMode::CC
        },
        ch1_display: if st & 256 == 0 {
            PwrDisplayMode::Digital
        } else {
            PwrDisplayMode::Waveform
        },
        ch2_display: if st & 512 == 0 {
            PwrDisplayMode::Digital
        } else {
            PwrDisplayMode::Waveform
        },
        timer1: if st & 64 == 0 {
            PortState::Off
        } else {
            PortState::On
        },
        timer2: if st & 128 == 0 {
            PortState::Off
        } else {
            PortState::On
        },
    }
}

pub open spec fn is_hex_digit(c: char) -> bool {
    ('0' <= c && c <= '9') || ('a' <= c && c <= 'f') || ('A' <= c && c <= 'F')
}

pub open spec fn hex_val(c: char) -> int {
    if '0' <= c && c <= '9' {
        c as int - '0' as int
    } else if 'a' <= c && c <= 'f' {
        c as int - 'a' as int + 10
    } else {
        c as int - 'A' as int + 10
    }
}

/// The number written by a sequence of hex digits, most significant first.
pub open spec fn hex_digits_val(ds: Seq<char>) -> int
    decreases ds.len(),
{
    if ds.len() == 0 {
        0
    } else {
        hex_digits_val(ds.drop_last()) * 16 + hex_val(ds.last())
    }
}

/// The status word a reply line denotes: a `0x` prefix, then one or more
/// hex digits whose value fits sixteen bits; anything else is rejected.
pub open spec fn spec_parse_status(s: Seq<char>) -> Option<u16> {
    if s.len() >= 3 && s[0] == '0' && s[1] == 'x' && (forall|j: int|
        2 <= j < s.len() ==> is_hex_digit(s[j])) {
        let v = hex_digits_val(s.subrange(2, s.len() as int));
        if v <= 0xffff {
            Some(v as u16)
        } else {
            None
        }
    } else {
        None
    }
}

impl SPD3303XStatus {
    /// Decodes a packed status word into its independent fields.
    pub fn from_u16(st: u16) -> (r: SPD3303XStatus)
        ensures
            r == status_of_word(st),
    {
        SPD3303XStatus {
            output_mode: {
                let track = (st & 0b1100) >> 2;
                if track == 0b01 {
                    PwrOutputMode::Independent
                } else if track == 0b10 {
                    PwrOutputMode::Parallel
                } else if track == 0b11 {
                    PwrOutputMode::Series
                } else {
                    PwrOutputMode::Invalid
                }
            },
            ch1: if st & 16 == 0 {
                PortState::Off
            } else {
                PortState::On
            },
            ch2: if st & 32 == 0 {
                PortState::Off
            } else {
                PortState::On
            },
            ch1_mode: if st & 1 == 0 {
                PwrChannelMode::CV
            } else {
                PwrChannelMode::CC
            },
            ch2_mode: if st & 2 == 0 {
                PwrChannelMode::CV
            } else {
                PwrChannelMode::CC
            },
            ch1_display: if st & 256 == 0 {
                PwrDisplayMode::Digital
            } else {
                PwrDisplayMode::Waveform
            },
            ch2_display: if st & 512 == 0 {
                PwrDisplayMode::Digital
            } else {
                PwrDisplayMode::Waveform
            },
            timer1: if st & 64 == 0 {
                PortState::Off
            } else {
                PortState::On
            },
            timer2: if st & 128 == 0 {
                PortState::Off
            } else {
                PortState::On
            },
        }
    }

    /// Reads a status reply: a missing `0x` prefix, a non-hex digit, an
    /// empty digit run or a value over sixteen bits is a protocol error.
    pub fn from_wire(s: &str) -> (r: Result<SPD3303XStatus, LabError>)
        ensures
            spec_parse_status(s@) is Some ==> r == Ok::<SPD3303XStatus, LabError>(
                status_of_word(spec_parse_status(s@).unwrap()),
            ),
            spec_parse_status(s@) is None ==> r == Err::<SPD3303XStatus, LabError>(
                LabError::Protocol,
            ),
    {
        let len = s.unicode_len();
        if len < 3 {
            return Err(LabError::Protocol);
        }
        if s.get_char(0) != '0' || s.get_char(1) != 'x' {
            return Err(LabError::Protocol);
        }
        let mut i: usize = 2;
        let mut acc: u32 = 0;
        let mut over = false;
        while i < len
            invariant
                2 <= i <= len,
                len == s@.len(),
                forall|j: int| 2 <= j < i ==> is_hex_digit(s@[j]),
                !over ==> acc as int == hex_digits_val(s@.subrange(2, i as int)) && acc <= 0xffff,
                over ==> hex_digits_val(s@.subrange(2, i as int)) > 0xffff,
            decreases len - i,
        {
            let c = s.get_char(i);
            let u = c as u32;
            let d: u32 = if 48 <= u && u <= 57 {
                u - 48
            } else if 97 <= u && u <= 102 {
                u - 97 + 10
            } else if 65 <= u && u <= 70 {
                u - 65 + 10
            } else {
                return Err(LabError::Protocol);
            };
            proof {
                assert(is_hex_digit(s@[i as int]));
                assert(d as int == hex_val(s@[i as int]));
                let pre = s@.subrange(2, i as int);
                let post = s@.subrange(2, i as int + 1);
                assert(post.drop_last() =~= pre);
                assert(post.last() == s@[i as int]);
                if over {
                    assert(hex_digits_val(pre) * 16 + hex_val(s@[i as int]) > 0xffff)
                        by (nonlinear_arith)
                        requires
                            hex_digits_val(pre) > 0xffff,
                            0 <= hex_val(s@[i as int]),
                    ;
                }
            }
            if over || acc > 0xfff {
                proof {
                    let pre = s@.subrange(2, i as int);
                    if !over {
                        assert(hex_digits_val(pre) * 16 + hex_val(s@[i as int]) > 0xffff);
                    }
                }
                over = true;
            } else {
                acc = acc * 16 + d;
            }
            i += 1;
        }
        proof {
            assert(s@.subrange(2, len as int) =~= s@.subrange(2, i as int));
        }
        if over {
            return Err(LabError::Protocol);
        }
        Ok(SPD3303XStatus::from_u16(acc as u16))
    }
}

/// Whether the power supply can measure this kind on this channel: only
/// voltage, current and power, and only on the first two channels.
pub open spec fn pwr_supports(c: Ch, m: Meas) -> bool {
    (c is Ch1 || c is Ch2) && (m is Volt || m is Curr || m is Powr)
}

/// The text of a single-shot measurement query on the power supply,
/// rejected before anything is sent where the combination is unsupported.
pub fn pwr_meas_cmd(c: Ch, m: Meas) -> (r: Result<String, LabError>)
    ensures
        pwr_supports(c, m) ==> r is Ok && r.unwrap()@ == "MEAS:"@ + m.token_spec() + "? "@
            + c.token_spec(),
        !pwr_supports(c, m) ==> r == Err::<String, LabError>(LabError::DomainLimit),
{
    match c {
        Ch::Ch1 | Ch::Ch2 => {},
        _ => {
            return Err(LabError::DomainLimit);
        },
    }
    match m {
        Meas::Volt | Meas::Curr | Meas::Powr => {},
        _ => {
            return Err(LabError::DomainLimit);
        },
    }
    let mut s = String::from_str("MEAS:");
    s.append(m.token());
    s.append("? ");
    s.append(c.token());
    Ok(s)
}

/// The text of a channel voltage set command.
pub fn pwr_volt_cmd(c: Ch, v: Scalar) -> (r: String)
    requires
        v.wf(),
    ensures
        r@ == c.token_spec() + ":VOLT "@ + wire_of(v@),
{
    let mut s = String::from_str(c.token());
    s.append(":VOLT ");
    s.append(v.to_wire().as_str());
    s
}

/// The text of a channel current set command.
pub fn pwr_curr_cmd(c: Ch, v: Scalar) -> (r: String)
    requires
        v.wf(),
    ensures
        r@ == c.token_spec() + ":CURR "@ + wire_of(v@),
{
    let mut s = String::from_str(c.token());
    s.append(":CURR ");
    s.append(v.to_wire().as_str());
    s
}

/// The text of a channel set-point query, rejected on channels the supply
/// cannot report.
pub fn pwr_param_q_cmd(c: Ch, param: &str) -> (r: Result<String, LabError>)
    ensures
        (c is Ch1 || c is Ch2) ==> r is Ok && r.unwrap()@ == c.token_spec() + ":"@ + param@
            + "?"@,
        !(c is Ch1 || c is Ch2) ==> r == Err::<String, LabError>(LabError::DomainLimit),
{
    match c {
        Ch::Ch1 | Ch::Ch2 => {},
        _ => {
            return Err(LabError::DomainLimit);
        },
    }
    let mut s = String::from_str(c.token());
    s.append(":");
    s.append(param);
    s.append("?");
    Ok(s)
}

/// The text of an output-coupling select command; the invalid coupling
/// cannot be requested.
pub fn pwr_track_cmd(mode: PwrOutputMode) -> (r: Result<String, LabError>)
    ensures
        mode is Independent ==> r is Ok && r.unwrap()@ == "OUTPUT:TRACK 0"@,
        mode is Series ==> r is Ok && r.unwrap()@ == "OUTPUT:TRACK 1"@,
        mode is Parallel ==> r is Ok && r.unwrap()@ == "OUTPUT:TRACK 2"@,
        mode is Invalid ==> r == Err::<String, LabError>(LabError::DomainLimit),
{
    match mode {
        PwrOutputMode::Independent => Ok(String::from_str("OUTPUT:TRACK 0")),
        PwrOutputMode::Series => Ok(String::from_str("OUTPUT:TRACK 1")),
        PwrOutputMode::Parallel => Ok(String::from_str("OUTPUT:TRACK 2")),
        PwrOutputMode::Invalid => Err(LabError::DomainLimit),
    }
}

/// The text of a waveform-display toggle command.
pub fn pwr_wave_display_cmd(c: Ch, state: PortState) -> (r: String)
    ensures
        r@ == "OUTPUT:WAVE "@ + c.token_spec() + ","@ + state.token_spec(),
{
    let mut s = String::from_str("OUTPUT:WAVE ");
    s.append(c.token());
    s.append(",");
    s.append(state.token());
    s
}

/// The text of an output on/off command, rejected on the channel the
/// supply does not have.
pub fn pwr_output_cmd(c: Ch, state: PortState) -> (r: Result<String, LabError>)
    ensures
        !(c is Ch4) ==> r is Ok && r.unwrap()@ == "OUTPUT "@ + c.token_spec() + ","@
            + state.token_spec(),
        c is Ch4 ==> r == Err::<String, LabError>(LabError::DomainLimit),
{
    match c {
        Ch::Ch1 | Ch::Ch2 | Ch::Ch3 => {},
        _ => {
            return Err(LabError::DomainLimit);
        },
    }
    let mut s = String::from_str("OUTPUT ");
    s.append(c.token());
    s.append(",");
    s.append(state.token());
    Ok(s)
}

} // verus!
