use webserver::cli::{start_cli, valid_ip, valid_port, valid_threads, valid_type};
use webserver::penetrator::cli::{valid_num, valid_url};

#[test]
fn lib_valid_port_test() {
    assert_ne!(valid_port("".to_string()), Ok(()));
    assert_ne!(valid_port("test".to_string()), Ok(()));
    assert_ne!(valid_port("-1".to_string()), Ok(()));
    assert_ne!(valid_port("80".to_string()), Ok(()));
    assert_ne!(valid_port("1024".to_string()), Ok(()));
    assert_eq!(valid_port("1025".to_string()), Ok(()));
    assert_eq!(valid_port("9000".to_string()), Ok(()));
    assert_eq!(valid_port("65535".to_string()), Ok(()));
    assert_ne!(valid_port("65536".to_string()), Ok(()));
    assert_ne!(valid_port("1000000".to_string()), Ok(()));
}

#[test]
fn lib_valid_thread_test() {
    assert_ne!(valid_threads("".to_string()), Ok(()));
    assert_ne!(valid_threads("test".to_string()), Ok(()));
    assert_ne!(valid_threads("0".to_string()), Ok(()));
    assert_ne!(valid_threads("1".to_string()), Ok(()));
    assert_ne!(valid_threads("2".to_string()), Ok(()));
    assert_eq!(valid_threads("3".to_string()), Ok(()));
    assert_eq!(valid_threads("8".to_string()), Ok(()));
    assert_eq!(valid_threads("1000".to_string()), Ok(()));
}

#[test]
fn lib_valid_ip_test() {
    assert_ne!(valid_ip("".to_string()), Ok(()));
    assert_ne!(valid_ip("test".to_string()), Ok(()));
    assert_ne!(valid_ip("-10".to_string()), Ok(()));
    assert_ne!(valid_ip("0.2.3.4.4".to_string()), Ok(()));
    assert_ne!(valid_ip("256.4.4.3".to_string()), Ok(()));
    assert_eq!(valid_ip("127.0.0.1".to_string()), Ok(()));
    assert_eq!(valid_ip("192.178.168.17".to_string()), Ok(()));
    assert_ne!(valid_ip("1000000000".to_string()), Ok(()));
}

#[test]
fn cli_valid_port_test() {
    assert_ne!(valid_port("".to_string()), Ok(()));
    assert_ne!(valid_port("test".to_string()), Ok(()));
    assert_ne!(valid_port("-1".to_string()), Ok(()));
    assert_ne!(valid_port("80".to_string()), Ok(()));
    assert_ne!(valid_port("1024".to_string()), Ok(()));
    assert_eq!(valid_port("1025".to_string()), Ok(()));
    assert_eq!(valid_port("9000".to_string()), Ok(()));
    assert_eq!(valid_port("65535".to_string()), Ok(()));
    assert_ne!(valid_port("65536".to_string()), Ok(()));
    assert_ne!(valid_port("1000000".to_string()), Ok(()));
}

#[test]
fn cli_valid_thread_test() {
    assert_ne!(valid_threads("".to_string()), Ok(()));
    assert_ne!(valid_threads("test".to_string()), Ok(()));
    assert_ne!(valid_threads("0".to_string()), Ok(()));
    assert_ne!(valid_threads("1".to_string()), Ok(()));
    assert_ne!(valid_threads("2".to_string()), Ok(()));
    assert_eq!(valid_threads("3".to_string()), Ok(()));
    assert_eq!(valid_threads("8".to_string()), Ok(()));
    assert_eq!(valid_threads("1000".to_string()), Ok(()));
}

#[test]
fn cli_valid_ip_test() {
    assert_ne!(valid_ip("".to_string()), Ok(()));
    assert_ne!(valid_ip("test".to_string()), Ok(()));
    assert_ne!(valid_ip("-10".to_string()), Ok(()));
    assert_ne!(valid_ip("0.2.3.4.4".to_string()), Ok(()));
    assert_ne!(valid_ip("256.4.4.3".to_string()), Ok(()));
    assert_eq!(valid_ip("127.0.0.1".to_string()), Ok(()));
    assert_eq!(valid_ip("192.178.168.17".to_string()), Ok(()));
    assert_ne!(valid_ip("1000000000".to_string()), Ok(()));
}

#[test]
fn valid_url_test() {
    assert_eq!(valid_url("https://google.com".to_string()), Ok(()));
    assert_eq!(valid_url("test".to_string()), Err("Please provide a valid url".to_string()));
    assert_eq!(valid_url("http://127.0.0.1:9117/".to_string()), Ok(()));
}

#[test]
fn valid_num_test() {
    assert_eq!(valid_num("".to_string()), Err("Please provide a valid number".to_string()));
    assert_eq!(valid_num("test".to_string()), Err("Please provide a valid number".to_string()));
    assert_eq!(valid_num("0".to_string()), Ok(()));
    assert_eq!(valid_num("1".to_string()), Ok(()));
    assert_eq!(valid_num("2".to_string()), Ok(()));
    assert_eq!(valid_num("3".to_string()), Ok(()));
    assert_eq!(valid_num("8".to_string()), Ok(()));
    assert_eq!(valid_num("1000".to_string()), Ok(()));
}

#[test]
fn port_accepts_a_plus_sign_and_leading_zeros() {
    assert_eq!(valid_port("+9000".to_string()), Ok(()));
    assert_eq!(valid_port("009000".to_string()), Ok(()));
    assert_ne!(valid_port("+".to_string()), Ok(()));
    assert_ne!(valid_port("90 00".to_string()), Ok(()));
    assert_ne!(valid_port("99999999999999999999999".to_string()), Ok(()));
    assert_eq!(
        valid_port("80".to_string()),
        Err("Please provide a valid port (>1024)".to_string())
    );
}

#[test]
fn ip_counts_the_pieces_that_are_octets() {
    assert_eq!(valid_ip("1.2.3.4.x".to_string()), Ok(()));
    assert_ne!(valid_ip("1.2.3".to_string()), Ok(()));
    assert_ne!(valid_ip("1..2.3".to_string()), Ok(()));
    assert_eq!(valid_ip("255.255.255.255".to_string()), Ok(()));
    assert_eq!(
        valid_ip("localhost".to_string()),
        Err("Please provide a valid IPv4. e.g. 127.0.0.1".to_string())
    );
}

#[test]
fn server_type_depends_on_the_operating_system() {
    assert_eq!(valid_type("threaded".to_string(), "windows"), Ok(()));
    assert_eq!(valid_type("rouille".to_string(), "windows"), Ok(()));
    assert_eq!(valid_type("event_loop".to_string(), "linux"), Ok(()));
    assert_eq!(valid_type("all".to_string(), "macos"), Ok(()));
    assert_eq!(valid_type("all".to_string(), "freebsd"), Ok(()));
    assert_eq!(
        valid_type("event_loop".to_string(), "windows"),
        Err("Event loop is only supported on BSD systems, and eventually linux.".to_string())
    );
    assert_eq!(
        valid_type("hyper".to_string(), "linux"),
        Err("Please select a server type [threaded|event_loop|rouille]".to_string())
    );
}

#[test]
fn start_cli_hands_the_settings_on() {
    assert_eq!(
        start_cli("127.0.0.1", "9000", "_dist", "8", "all", "linux"),
        Ok(("127.0.0.1".to_string(), 9000, "_dist".to_string(), 8, "all".to_string()))
    );
    assert_eq!(
        start_cli("127.0.0.1", "80", "_dist", "8", "all", "linux"),
        Err("Please provide a valid port (>1024)".to_string())
    );
    assert_eq!(
        start_cli("127.0.0.1", "9000", "_dist", "2", "all", "linux"),
        Err("Please provide a valid amount of threads (>2)".to_string())
    );
    assert_eq!(
        start_cli("nowhere", "9000", "_dist", "8", "all", "linux"),
        Err("Please provide a valid IPv4. e.g. 127.0.0.1".to_string())
    );
}

#[test]
fn penetrator_start_cli_hands_the_settings_on() {
    assert_eq!(
        webserver::penetrator::cli::start_cli("http://127.0.0.1:9117/", "10"),
        Ok(("http://127.0.0.1:9117/".to_string(), 10))
    );
    assert_eq!(
        webserver::penetrator::cli::start_cli("test", "10"),
        Err("Please provide a valid url".to_string())
    );
    assert_eq!(
        webserver::penetrator::cli::start_cli("http://127.0.0.1:9117/", "ten"),
        Err("Please provide a valid number".to_string())
    );
}
