use my_hacklab::sdl1000x::{
    curr_check, curr_cmd, curr_slew_n_cmd, curr_slew_p_cmd, func_cmd, irange_cmd, load_meas_cmd,
    slew_check, vrange_cmd, Curr, Func, IRange, RRange, Slew, Transient, VRange,
};
use my_hacklab::scalar::Scalar;
use my_hacklab::scpi::Meas;
use my_hacklab::LabError;

fn amps(m: i64) -> Scalar {
    Scalar::from_micro(m).unwrap()
}

#[test]
fn func_tokens_and_parse() {
    assert_eq!(Func::Curr.token(), "CURR");
    assert_eq!(Func::Powr.token(), "POW");
    assert_eq!(Func::from_wire("CURRENT"), Ok(Func::Curr));
    assert_eq!(Func::from_wire("VOLTAGE"), Ok(Func::Volt));
    assert_eq!(Func::from_wire("POWER"), Ok(Func::Powr));
    assert_eq!(Func::from_wire("RESISTANCE"), Ok(Func::Res));
    assert_eq!(Func::from_wire("LED"), Ok(Func::Led));
    assert_eq!(Func::from_wire("CURR"), Err(LabError::Protocol));
    assert_eq!(func_cmd(Func::Curr), ":FUNC CURR");
}

#[test]
fn range_selectors_round_trip() {
    assert_eq!(IRange::from_wire(IRange::I5A.token()), Ok(IRange::I5A));
    assert_eq!(IRange::from_wire(IRange::I30A.token()), Ok(IRange::I30A));
    assert_eq!(VRange::from_wire(VRange::V36V.token()), Ok(VRange::V36V));
    assert_eq!(VRange::from_wire(VRange::V150V.token()), Ok(VRange::V150V));
    assert_eq!(IRange::from_wire("7"), Err(LabError::Protocol));
    assert_eq!(VRange::from_wire(""), Err(LabError::Protocol));
    assert_eq!(irange_cmd(IRange::I5A), ":CURR:IRANG 5");
    assert_eq!(vrange_cmd(VRange::V36V), ":CURR:VRANG 36");
    assert_eq!(RRange::Middle.token(), "MIDDLE");
    assert_eq!(Transient::from_wire("CONTINUOUS"), Ok(Transient::Continuous));
    assert_eq!(Transient::from_wire("PULSE"), Ok(Transient::Pulse));
    assert_eq!(Transient::from_wire("TOGGLE"), Ok(Transient::Toggle));
    assert_eq!(Transient::from_wire("PULS"), Err(LabError::Protocol));
    assert_eq!(Transient::Toggle.token(), "TOGG");
}

#[test]
fn load_meas_cmd_checks_kind() {
    assert_eq!(load_meas_cmd(Meas::Volt), Ok("MEAS:VOLT?".to_string()));
    assert_eq!(load_meas_cmd(Meas::Curr), Ok("MEAS:CURR?".to_string()));
    assert_eq!(load_meas_cmd(Meas::Powr), Ok("MEAS:POWER?".to_string()));
    assert_eq!(load_meas_cmd(Meas::Res), Ok("MEAS:RES?".to_string()));
    assert_eq!(load_meas_cmd(Meas::Ext), Ok("MEAS:EXT?".to_string()));
    assert_eq!(load_meas_cmd(Meas::Dummy), Err(LabError::DomainLimit));
}

#[test]
fn current_set_points_check_the_range() {
    assert_eq!(curr_check(Curr::A(amps(0)), IRange::I5A), Ok(()));
    assert_eq!(curr_check(Curr::A(amps(5_000_000)), IRange::I5A), Ok(()));
    assert_eq!(
        curr_check(Curr::A(amps(5_000_001)), IRange::I5A),
        Err(LabError::DomainLimit)
    );
    assert_eq!(curr_check(Curr::A(amps(5_000_001)), IRange::I30A), Ok(()));
    assert_eq!(
        curr_check(Curr::A(amps(-1)), IRange::I30A),
        Err(LabError::DomainLimit)
    );
    assert_eq!(curr_check(Curr::Min, IRange::I5A), Ok(()));
    assert_eq!(curr_check(Curr::Max, IRange::I5A), Ok(()));

    assert_eq!(
        curr_cmd(Curr::A(amps(120_000)), IRange::I5A),
        Ok(":CURR 0.120000".to_string())
    );
    assert_eq!(curr_cmd(Curr::Default, IRange::I5A), Ok(":CURR DEF".to_string()));
    assert_eq!(
        curr_cmd(Curr::A(amps(6_000_000)), IRange::I5A),
        Err(LabError::DomainLimit)
    );
}

#[test]
fn slew_set_points_check_the_band() {
    assert_eq!(slew_check(Slew::APerUs(amps(1_000))), Ok(()));
    assert_eq!(slew_check(Slew::APerUs(amps(500_000))), Ok(()));
    assert_eq!(
        slew_check(Slew::APerUs(amps(999))),
        Err(LabError::DomainLimit)
    );
    assert_eq!(
        slew_check(Slew::APerUs(amps(500_001))),
        Err(LabError::DomainLimit)
    );
    assert_eq!(slew_check(Slew::Min), Ok(()));
    assert_eq!(slew_check(Slew::Default), Ok(()));

    assert_eq!(
        curr_slew_p_cmd(Slew::APerUs(amps(2_000))),
        Ok(":CURR:SLEW:POS 0.002000".to_string())
    );
    assert_eq!(
        curr_slew_n_cmd(Slew::Max),
        Ok(":CURR:SLEW:NEG MAX".to_string())
    );
    assert_eq!(
        curr_slew_n_cmd(Slew::APerUs(amps(600_000))),
        Err(LabError::DomainLimit)
    );
}

#[test]
fn wave_reply_parses_with_zero_gaps() {
    let w = my_hacklab::sdl1000x::parse_wave("1.5,0.25,,x,3");
    let micros: Vec<i64> = w.iter().map(|v| v.micro).collect();
    assert_eq!(micros, vec![1_500_000, 250_000, 0, 0, 3_000_000]);
    let single = my_hacklab::sdl1000x::parse_wave("");
    assert_eq!(single.len(), 1);
    assert_eq!(single[0].micro, 0);
    let plain = my_hacklab::sdl1000x::parse_wave("0.5");
    assert_eq!(plain.len(), 1);
    assert_eq!(plain[0].micro, 500_000);
}
