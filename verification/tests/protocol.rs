use my_hacklab::scalar::{parse_wire, Scalar};
use my_hacklab::scpi::{query_text, set_scalar_text, set_state_text, PortState};
use my_hacklab::LabError;

fn micro(m: i64) -> Scalar {
    Scalar::from_micro(m).expect("in range")
}

#[test]
fn scalar_formats_plain_decimals() {
    assert_eq!(micro(0).to_wire(), "0.000000");
    assert_eq!(micro(1).to_wire(), "0.000001");
    assert_eq!(micro(10_000).to_wire(), "0.010000");
    assert_eq!(micro(1_500_000).to_wire(), "1.500000");
    assert_eq!(micro(-2_250_000).to_wire(), "-2.250000");
    assert_eq!(micro(1_000_000_000_000).to_wire(), "1000000.000000");
    assert_eq!(micro(-1_000_000_000_000).to_wire(), "-1000000.000000");
}

#[test]
fn scalar_parses_plain_decimals() {
    assert_eq!(parse_wire("0.5"), Ok(micro(500_000)));
    assert_eq!(parse_wire(".5"), Ok(micro(500_000)));
    assert_eq!(parse_wire("5."), Ok(micro(5_000_000)));
    assert_eq!(parse_wire("5"), Ok(micro(5_000_000)));
    assert_eq!(parse_wire("+2.25"), Ok(micro(2_250_000)));
    assert_eq!(parse_wire("-0.5"), Ok(micro(-500_000)));
    assert_eq!(parse_wire("3.141592"), Ok(micro(3_141_592)));
    // digits past the sixth fraction place are truncated away
    assert_eq!(parse_wire("1.2345678"), Ok(micro(1_234_567)));
    assert_eq!(parse_wire("0.0000009"), Ok(micro(0)));
}

#[test]
fn scalar_parse_rejects_malformed_text() {
    assert_eq!(parse_wire(""), Err(LabError::Protocol));
    assert_eq!(parse_wire("abc"), Err(LabError::Protocol));
    assert_eq!(parse_wire("-"), Err(LabError::Protocol));
    assert_eq!(parse_wire("."), Err(LabError::Protocol));
    assert_eq!(parse_wire("1.2.3"), Err(LabError::Protocol));
    assert_eq!(parse_wire("1e3"), Err(LabError::Protocol));
    assert_eq!(parse_wire(" 1"), Err(LabError::Protocol));
    assert_eq!(parse_wire("1 "), Err(LabError::Protocol));
}

#[test]
fn scalar_parse_enforces_range() {
    assert_eq!(
        parse_wire("1000000.000000"),
        Ok(micro(1_000_000_000_000))
    );
    assert_eq!(parse_wire("1000000.000001"), Err(LabError::Protocol));
    assert_eq!(parse_wire("9999999999"), Err(LabError::Protocol));
    assert_eq!(Scalar::from_micro(1_000_000_000_001), Err(LabError::DomainLimit));
    assert_eq!(Scalar::from_micro(-1_000_000_000_001), Err(LabError::DomainLimit));
}

/// A power supply that simply stores what was set and echoes it back on a
/// query, as the round-trip property asks.
struct EchoInstrument {
    stored: String,
}

impl EchoInstrument {
    fn set_scalar(&mut self, path: &str, v: Scalar) -> Scalar {
        let cmd = set_scalar_text(path, v);
        let (sent_path, value_text) = cmd.split_once(' ').expect("set command has a space");
        assert_eq!(sent_path, path);
        self.stored = value_text.to_string();
        v
    }

    fn get_scalar(&mut self, path: &str) -> Result<Scalar, LabError> {
        let q = query_text(path);
        assert_eq!(q, format!("{path}?"));
        parse_wire(&self.stored)
    }
}

#[test]
fn scalar_set_then_get_round_trips() {
    let mut dev = EchoInstrument { stored: String::new() };
    for m in [
        0i64,
        1,
        -1,
        10_000,
        123_456_789,
        -987_654_321,
        1_000_000_000_000,
        -1_000_000_000_000,
    ] {
        let v = micro(m);
        let sent = dev.set_scalar("CH1:VOLT", v);
        assert_eq!(dev.get_scalar("CH1:VOLT"), Ok(sent));
    }
}

#[test]
fn scalar_round_trips_against_float_reference() {
    // the fixed-point wire text agrees with an f64 rendering of the same
    // value to within one micro-unit
    for m in [250_000i64, 4_250_000, -123_456, 5_000_000] {
        let v = micro(m);
        let as_float: f64 = m as f64 / 1e6;
        let parsed: f64 = v.to_wire().parse().expect("wire text is a float");
        assert!((parsed - as_float).abs() < 1e-6);
    }
}

#[test]
fn state_parse_is_lenient() {
    assert_eq!(PortState::parse_lenient("1"), PortState::On);
    assert_eq!(PortState::parse_lenient("on"), PortState::On);
    assert_eq!(PortState::parse_lenient("ON"), PortState::On);
    assert_eq!(PortState::parse_lenient("0"), PortState::Off);
    assert_eq!(PortState::parse_lenient("OFF"), PortState::Off);
    assert_eq!(PortState::parse_lenient("garbage"), PortState::Off);
    assert_eq!(PortState::parse_lenient(""), PortState::Off);
    assert_eq!(PortState::parse_lenient("On"), PortState::Off);
    assert_eq!(PortState::parse_lenient("2"), PortState::Off);
}

#[test]
fn state_tokens_and_bool() {
    assert_eq!(PortState::On.token(), "ON");
    assert_eq!(PortState::Off.token(), "OFF");
    assert!(PortState::On.to_bool());
    assert!(!PortState::Off.to_bool());
}

#[test]
fn command_text_is_exact() {
    assert_eq!(query_text("*IDN"), "*IDN?");
    assert_eq!(query_text("SYST:SENS"), "SYST:SENS?");
    assert_eq!(
        set_scalar_text("CH1:VOLT", micro(4_250_000)),
        "CH1:VOLT 4.250000"
    );
    assert_eq!(set_state_text(":INP:STAT", PortState::On), ":INP:STAT ON");
    assert_eq!(set_state_text("SYST:SENS", PortState::Off), "SYST:SENS OFF");
}

#[test]
fn error_descriptions_are_stable() {
    assert_eq!(LabError::AddressResolution.describe(), "address resolution failed");
    assert_eq!(LabError::Connection.describe(), "connection failed");
    assert_eq!(LabError::Transport.describe(), "transport failed");
    assert_eq!(LabError::Protocol.describe(), "protocol error");
    assert_eq!(LabError::DomainLimit.describe(), "domain limit exceeded");
}
