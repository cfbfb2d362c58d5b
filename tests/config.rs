use tcp_relay::config::{Config, ConfigError, CONFIG_EXIT_CODE};
use tcp_relay::text::{parse_ipv4, parse_port};

fn args(list: &[&str]) -> Vec<String> {
    list.iter().map(|a| a.to_string()).collect()
}

#[test]
fn two_arguments_select_connect_mode() {
    let c = Config::new(&args(&["nc", "127.0.0.1", "9000"])).unwrap();
    assert_eq!(c.address, [127, 0, 0, 1]);
    assert_eq!(c.port, 9000);
    assert!(!c.listen);
}

#[test]
fn three_arguments_select_listen_mode_whatever_the_third() {
    for third in ["-l", "anything", "", "0"] {
        let c = Config::new(&args(&["nc", "0.0.0.0", "9000", third])).unwrap();
        assert_eq!(c.address, [0, 0, 0, 0]);
        assert_eq!(c.port, 9000);
        assert!(c.listen);
    }
}

#[test]
fn too_few_arguments_are_refused() {
    for list in [&[][..], &["nc"][..], &["nc", "1.2.3.4"][..]] {
        let e = Config::new(&args(list)).unwrap_err();
        assert_eq!(e, ConfigError::TooFewArgs);
        assert_eq!(e.message(), "Too few args");
        assert_eq!(e.exit_code(), 1);
    }
}

#[test]
fn too_many_arguments_are_refused() {
    let e = Config::new(&args(&["nc", "1.2.3.4", "80", "-l", "x"])).unwrap_err();
    assert_eq!(e, ConfigError::TooManyArgs);
    assert_eq!(e.message(), "Too many args");
    // The count is judged before the address and port are read.
    let e = Config::new(&args(&["nc", "bad", "bad", "x", "y", "z"])).unwrap_err();
    assert_eq!(e, ConfigError::TooManyArgs);
}

#[test]
fn malformed_address_is_a_configuration_error() {
    let e = Config::new(&args(&["nc", "999.1.1.1", "9000"])).unwrap_err();
    assert_eq!(e, ConfigError::InvalidAddress);
    assert_eq!(e.message(), "Invalid ipv4 address");
    assert_eq!(e.exit_code(), 1);
    assert_eq!(CONFIG_EXIT_CODE, 1);
}

#[test]
fn address_is_checked_before_port() {
    let e = Config::new(&args(&["nc", "1.2.3", "port"])).unwrap_err();
    assert_eq!(e, ConfigError::InvalidAddress);
}

#[test]
fn malformed_port_is_a_configuration_error() {
    for port in ["65536", "-1", "", "+", "80a", " 80", "99999999999999999999"] {
        let e = Config::new(&args(&["nc", "10.0.0.1", port])).unwrap_err();
        assert_eq!(e, ConfigError::InvalidPort);
        assert_eq!(e.message(), "Invalid port number");
    }
}

#[test]
fn dotted_quads_that_are_accepted() {
    assert_eq!(parse_ipv4("255.255.255.255"), Some([255, 255, 255, 255]));
    assert_eq!(parse_ipv4("0.0.0.0"), Some([0, 0, 0, 0]));
    assert_eq!(parse_ipv4("10.20.30.40"), Some([10, 20, 30, 40]));
    assert_eq!(parse_ipv4("192.168.0.100"), Some([192, 168, 0, 100]));
}

#[test]
fn dotted_quads_that_are_refused() {
    for s in [
        "", "1.2.3", "1.2.3.4.5", "01.2.3.4", "1.2.3.", ".1.2.3", "1..2.3", "a.b.c.d",
        "256.0.0.1", "1.2.3.4 ", "1.2.3.0004", "+1.2.3.4", "1.2.3.-4", "1,2,3,4",
    ] {
        assert_eq!(parse_ipv4(s), None, "{s:?}");
    }
}

#[test]
fn ports_that_are_accepted() {
    assert_eq!(parse_port("0"), Some(0));
    assert_eq!(parse_port("65535"), Some(65535));
    assert_eq!(parse_port("+80"), Some(80));
    assert_eq!(parse_port("0080"), Some(80));
    assert_eq!(parse_port("9000"), Some(9000));
}
