use servo4257::canopen::od::Params;
use servo4257::motion::commutation::{
    advance_setpoint, circ_err, clamp_lead, field_amplitude, field_angle, i16le, mean_angle,
    signed, theta, theta_e, theta_e_rev, tripped,
};
use servo4257::motion::drive::{
    duty_percent, en_drive_high, mt6816_angle_from_frame, mt6816_angle_from_regs, scale_duty,
    split_duty_antiphase, split_duty_sign_magnitude,
};
use servo4257::motion::encoder::{electrical_angle, offset_from_alignment};

#[test]
fn electrical_angle_values() {
    assert_eq!(electrical_angle(1, 0), 50);
    assert_eq!(electrical_angle(1311, 0), (1311u32 * 50 % 65536) as u16);
    assert_eq!(electrical_angle(0, 10), 65526);
    assert_eq!(offset_from_alignment(2000), (2000u32 * 50 % 65536) as u16);
}

#[test]
fn theta_directions() {
    assert_eq!(theta(10, 50, 100, false), 400);
    assert_eq!(theta(10, 50, 100, true), 65136);
    assert_eq!(theta_e_rev(10, 100), 65136);
    let mut p = Params {
        enable: true,
        mode: 1,
        amplitude: 0,
        lead_angle: 0,
        direction: 0,
        offset: 100,
        pole_pairs: 50,
        ol_angle: 0,
        ol_rate: 0,
        shape: 0,
    };
    assert_eq!(theta_e(10, &p), 400);
    p.direction = 1;
    assert_eq!(theta_e(10, &p), 65136);
}

#[test]
fn circular_error_and_bytes() {
    assert_eq!(circ_err(10, 65530), 16);
    assert_eq!(circ_err(65530, 10), -16);
    assert_eq!(circ_err(32768, 0), -32768);
    assert_eq!(i16le(0x01, 0x80), -32767);
    assert_eq!(i16le(0x34, 0x12), 0x1234);
    assert_eq!(signed(2100, 2043), 57);
    assert_eq!(signed(-32768, 1), 32767);
    assert!(tripped(2500, 2043));
    assert!(tripped(1500, 2043));
    assert!(!tripped(2493, 2043));
}

#[test]
fn mean_angle_across_wrap() {
    assert_eq!(mean_angle(65534, &[65534, 2, 65530]), 65534);
    assert_eq!(mean_angle(100, &[100, 104, 106]), 103);
    assert_eq!(mean_angle(100, &[99, 98]), 99);
}

#[test]
fn servo_lead_and_amplitude() {
    assert_eq!(clamp_lead(1000), 327);
    assert_eq!(clamp_lead(-1000), -327);
    assert_eq!(clamp_lead(5), 5);
    assert_eq!(field_amplitude(0, 1200, 14000), 1200);
    assert_eq!(field_amplitude(327, 1200, 14000), 14000);
    assert_eq!(field_amplitude(-100, 1200, 14000), 100 * 12800 / 327 + 1200);
    assert_eq!(field_amplitude(100, 5000, 1000), 1000);
    assert_eq!(field_angle(65530, 10), (4u32 * 50) as u16);
    assert_eq!(advance_setpoint(65535, 1), 0);
    assert_eq!(advance_setpoint(0, -1), 65535);
}

#[test]
fn bridge_duties() {
    assert_eq!(split_duty_antiphase(0, 1600), (800, 800));
    assert_eq!(split_duty_antiphase(32767, 1600), (1600, 0));
    assert_eq!(split_duty_antiphase(-16384, 1600), (400, 1200));
    assert_eq!(split_duty_sign_magnitude(0, 1600), (0, 0));
    assert_eq!(split_duty_sign_magnitude(32767, 1600), (1600, 0));
    assert_eq!(split_duty_sign_magnitude(-12000, 1600), (0, 585));
    assert_eq!(scale_duty(255, 1600), 1600);
    assert_eq!(scale_duty(128, 1600), 803);
    assert_eq!(duty_percent(1600, 35), 560);
    assert!(!en_drive_high(true));
    assert!(en_drive_high(false));
}

#[test]
fn encoder_frames() {
    assert_eq!(mt6816_angle_from_frame(0xAB, 0xCF), 0xABCC);
    assert_eq!(mt6816_angle_from_regs(0xFF, 0xFC), 0xFFFC);
    assert_eq!(mt6816_angle_from_regs(0x01, 0x07), 0x0104);
}
