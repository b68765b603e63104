use my_hacklab::spd3303x::{
    pwr_meas_cmd, pwr_output_cmd, pwr_param_q_cmd, pwr_track_cmd, pwr_volt_cmd, pwr_curr_cmd,
    pwr_wave_display_cmd, PwrChannelMode, PwrDisplayMode, PwrOutputMode, SPD3303XStatus,
};
use my_hacklab::scalar::Scalar;
use my_hacklab::scpi::{Ch, Meas, PortState};
use my_hacklab::LabError;

#[test]
fn status_word_0x0032_decodes_by_the_bit_table() {
    let st = SPD3303XStatus::from_wire("0x0032").expect("valid status");
    // 0x0032 = 0b00_0000_0011_0010: bits 1, 4 and 5 are set
    assert_eq!(st.ch1_mode, PwrChannelMode::CV); // bit 0 clear
    assert_eq!(st.ch2_mode, PwrChannelMode::CC); // bit 1 set
    assert_eq!(st.output_mode, PwrOutputMode::Invalid); // bits 2-3 = 00
    assert_eq!(st.ch1, PortState::On); // bit 4 set
    assert_eq!(st.ch2, PortState::On); // bit 5 set
    assert_eq!(st.timer1, PortState::Off); // bit 6 clear
    assert_eq!(st.timer2, PortState::Off); // bit 7 clear
    assert_eq!(st.ch1_display, PwrDisplayMode::Digital); // bit 8 clear
    assert_eq!(st.ch2_display, PwrDisplayMode::Digital); // bit 9 clear
}

#[test]
fn status_word_field_positions() {
    let st = SPD3303XStatus::from_u16(0b11_1100_1101);
    assert_eq!(st.ch1_mode, PwrChannelMode::CC); // bit 0
    assert_eq!(st.ch2_mode, PwrChannelMode::CV); // bit 1
    assert_eq!(st.output_mode, PwrOutputMode::Series); // bits 2-3 = 11
    assert_eq!(st.ch1, PortState::Off); // bit 4
    assert_eq!(st.ch2, PortState::Off); // bit 5
    assert_eq!(st.timer1, PortState::On); // bit 6
    assert_eq!(st.timer2, PortState::On); // bit 7
    assert_eq!(st.ch1_display, PwrDisplayMode::Waveform); // bit 8
    assert_eq!(st.ch2_display, PwrDisplayMode::Waveform); // bit 9

    assert_eq!(SPD3303XStatus::from_u16(0b0100).output_mode, PwrOutputMode::Independent);
    assert_eq!(SPD3303XStatus::from_u16(0b1000).output_mode, PwrOutputMode::Parallel);
}

#[test]
fn status_parse_requires_hex_prefix() {
    assert_eq!(SPD3303XStatus::from_wire("32"), Err(LabError::Protocol));
    assert_eq!(SPD3303XStatus::from_wire("0X0032"), Err(LabError::Protocol));
    assert_eq!(SPD3303XStatus::from_wire("0x"), Err(LabError::Protocol));
    assert_eq!(SPD3303XStatus::from_wire("0xzz"), Err(LabError::Protocol));
    assert_eq!(SPD3303XStatus::from_wire(""), Err(LabError::Protocol));
    assert_eq!(SPD3303XStatus::from_wire("0x10000"), Err(LabError::Protocol));
    assert!(SPD3303XStatus::from_wire("0x0000ffff").is_ok());
    assert!(SPD3303XStatus::from_wire("0xAbCd").is_ok());
}

#[test]
fn pwr_meas_cmd_checks_channel_and_kind() {
    assert_eq!(pwr_meas_cmd(Ch::Ch1, Meas::Volt), Ok("MEAS:VOLT? CH1".to_string()));
    assert_eq!(pwr_meas_cmd(Ch::Ch2, Meas::Powr), Ok("MEAS:POWER? CH2".to_string()));
    assert_eq!(pwr_meas_cmd(Ch::Ch2, Meas::Curr), Ok("MEAS:CURR? CH2".to_string()));
    assert_eq!(pwr_meas_cmd(Ch::Ch3, Meas::Volt), Err(LabError::DomainLimit));
    assert_eq!(pwr_meas_cmd(Ch::Ch1, Meas::Res), Err(LabError::DomainLimit));
    assert_eq!(pwr_meas_cmd(Ch::Ch1, Meas::Dummy), Err(LabError::DomainLimit));
}

#[test]
fn pwr_set_and_query_commands() {
    let v = Scalar::from_micro(4_250_000).unwrap();
    assert_eq!(pwr_volt_cmd(Ch::Ch1, v), "CH1:VOLT 4.250000");
    let c = Scalar::from_micro(250_000).unwrap();
    assert_eq!(pwr_curr_cmd(Ch::Ch1, c), "CH1:CURR 0.250000");
    assert_eq!(pwr_param_q_cmd(Ch::Ch2, "VOLT"), Ok("CH2:VOLT?".to_string()));
    assert_eq!(pwr_param_q_cmd(Ch::Ch3, "VOLT"), Err(LabError::DomainLimit));
}

#[test]
fn pwr_output_commands() {
    assert_eq!(pwr_track_cmd(PwrOutputMode::Independent), Ok("OUTPUT:TRACK 0".to_string()));
    assert_eq!(pwr_track_cmd(PwrOutputMode::Series), Ok("OUTPUT:TRACK 1".to_string()));
    assert_eq!(pwr_track_cmd(PwrOutputMode::Parallel), Ok("OUTPUT:TRACK 2".to_string()));
    assert_eq!(pwr_track_cmd(PwrOutputMode::Invalid), Err(LabError::DomainLimit));
    assert_eq!(
        pwr_wave_display_cmd(Ch::Ch1, PortState::Off),
        "OUTPUT:WAVE CH1,OFF"
    );
    assert_eq!(pwr_output_cmd(Ch::Ch1, PortState::On), Ok("OUTPUT CH1,ON".to_string()));
    assert_eq!(pwr_output_cmd(Ch::Ch3, PortState::Off), Ok("OUTPUT CH3,OFF".to_string()));
    assert_eq!(pwr_output_cmd(Ch::Ch4, PortState::On), Err(LabError::DomainLimit));
}
