use genpi::config::{parse_port, Config, ConfigError, EnvValue, DEFAULT_PORT};

fn present(text: &str) -> EnvValue {
    EnvValue::Present(text.to_owned())
}

#[test]
fn test_empty() {
    let config = Config::from_env(EnvValue::Unset, EnvValue::Unset).unwrap();
    assert_eq!(
        config,
        Config {
            base_path: "".to_owned(),
            port: 3000
        }
    );
}

#[test]
fn test_all() {
    let config = Config::from_env(present("/lab/genpi"), present("3000")).unwrap();
    assert_eq!(
        config,
        Config {
            base_path: "/lab/genpi".to_owned(),
            port: 3000
        }
    );
}

#[test]
fn test_base_path_is_not_unicode() {
    assert_eq!(
        Config::from_env(EnvValue::NotUnicode, present("3000"))
            .unwrap_err()
            .message(),
        "BASE_PATH is not unicode"
    );
}

#[test]
fn test_port_is_not_unicode() {
    assert_eq!(
        Config::from_env(present("/lab/genpi"), EnvValue::NotUnicode)
            .unwrap_err()
            .message(),
        "PORT is not unicode"
    );
}

#[test]
fn test_port_is_not_number() {
    assert_eq!(
        Config::from_env(present("/lab/genpi"), present("a"))
            .unwrap_err()
            .message(),
        "PORT range is (0..=65535)"
    );
}

#[test]
fn base_path_is_looked_at_before_port() {
    assert_eq!(
        Config::from_env(EnvValue::NotUnicode, EnvValue::NotUnicode),
        Err(ConfigError::BasePathNotUnicode)
    );
    assert_eq!(
        Config::from_env(EnvValue::NotUnicode, present("a")),
        Err(ConfigError::BasePathNotUnicode)
    );
}

#[test]
fn default_port_is_3000() {
    assert_eq!(DEFAULT_PORT, 3000);
    let config = Config::from_env(present("/x"), EnvValue::Unset).unwrap();
    assert_eq!(config.port, 3000);
    assert_eq!(config.base_path, "/x");
}

#[test]
fn ports_are_read_as_the_standard_library_reads_them() {
    let cases = [
        "", "+", "-", "0", "00", "+0", "-0", "1", "80", "+80", "0080", "65535", "65536", "065535",
        "99999", "4294967296", "18446744073709551616", "8 0", " 80", "80 ", "++80", "8+0", "0x50",
        "８０", "3000",
    ];
    for case in cases {
        assert_eq!(parse_port(case), case.parse::<u16>().ok(), "{:?}", case);
    }
}

#[test]
fn port_limits() {
    assert_eq!(parse_port("0"), Some(0));
    assert_eq!(parse_port("65535"), Some(65535));
    assert_eq!(parse_port("65536"), None);
    assert_eq!(parse_port("+65535"), Some(65535));
    assert_eq!(
        Config::from_env(EnvValue::Unset, present("65536")),
        Err(ConfigError::PortNotNumber)
    );
}
