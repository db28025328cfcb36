use noise_gen::config::{parse_noise_color, parse_u32, Config, ConfigError};
use noise_gen::noise::NoiseColor;

fn b(s: &str) -> Vec<u8> {
    s.as_bytes().to_vec()
}

#[test]
fn color_names_parse_case_insensitively() {
    assert_eq!(parse_noise_color(&b("white")), Some(NoiseColor::White));
    assert_eq!(parse_noise_color(&b("WHITE")), Some(NoiseColor::White));
    assert_eq!(parse_noise_color(&b("pink")), Some(NoiseColor::Pink));
    assert_eq!(parse_noise_color(&b("Pink")), Some(NoiseColor::Pink));
    assert_eq!(parse_noise_color(&b("brown")), Some(NoiseColor::Brown));
    assert_eq!(parse_noise_color(&b("bRoWn")), Some(NoiseColor::Brown));
}

#[test]
fn unknown_color_names_are_rejected() {
    assert_eq!(parse_noise_color(&b("red")), None);
    assert_eq!(parse_noise_color(&b("")), None);
    assert_eq!(parse_noise_color(&b("whitee")), None);
    assert_eq!(parse_noise_color(&b("whit")), None);
    assert_eq!(parse_noise_color(&b("white ")), None);
}

#[test]
fn durations_parse_as_decimal_u32() {
    assert_eq!(parse_u32(&b("10")), Some(10));
    assert_eq!(parse_u32(&b("0")), Some(0));
    assert_eq!(parse_u32(&b("+7")), Some(7));
    assert_eq!(parse_u32(&b("007")), Some(7));
    assert_eq!(parse_u32(&b("4294967295")), Some(u32::MAX));
}

#[test]
fn malformed_durations_are_rejected() {
    assert_eq!(parse_u32(&b("")), None);
    assert_eq!(parse_u32(&b("+")), None);
    assert_eq!(parse_u32(&b("-1")), None);
    assert_eq!(parse_u32(&b("1.5")), None);
    assert_eq!(parse_u32(&b("ten")), None);
    assert_eq!(parse_u32(&b("10 ")), None);
    assert_eq!(parse_u32(&b("4294967296")), None);
    assert_eq!(parse_u32(&b("99999999999999999999")), None);
}

#[test]
fn config_accepts_valid_arguments() {
    let args = vec![b("noise_gen"), b("brown"), b("10"), b("out.wav")];
    let cfg = Config::new(&args).unwrap();
    assert_eq!(cfg.noise_type, NoiseColor::Brown);
    assert_eq!(cfg.duration_sec, 10);
    assert_eq!(cfg.filename, b("out.wav"));
}

#[test]
fn config_rejects_missing_arguments() {
    let args = vec![b("noise_gen"), b("white"), b("10")];
    assert_eq!(Config::new(&args).unwrap_err(), ConfigError::NotEnoughArgs);
    let args = vec![b("noise_gen")];
    assert_eq!(Config::new(&args).unwrap_err(), ConfigError::NotEnoughArgs);
}

#[test]
fn config_rejects_unknown_color() {
    let args = vec![b("noise_gen"), b("purple"), b("10"), b("out.wav")];
    assert_eq!(Config::new(&args).unwrap_err(), ConfigError::InvalidNoiseType);
}

#[test]
fn config_rejects_bad_duration() {
    let args = vec![b("noise_gen"), b("pink"), b("soon"), b("out.wav")];
    assert_eq!(Config::new(&args).unwrap_err(), ConfigError::InvalidDuration);
}
