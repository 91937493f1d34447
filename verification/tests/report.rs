use nel::error::Error;
use nel::report::NELReport;

#[test]
fn server_ip_strips_ports() {
    let mut r = NELReport::new("https://example.com/".to_string(), 0);
    r.set_server_ip(Some("[2001:db8::1]:443"));
    assert_eq!(r.server_ip, "2001:db8::1");
    r.set_server_ip(Some("10.0.0.1:80"));
    assert_eq!(r.server_ip, "10.0.0.1");
    r.set_server_ip(Some("10.0.0.1"));
    assert_eq!(r.server_ip, "10.0.0.1");
    r.set_server_ip(None::<&str>);
    assert_eq!(r.server_ip, "");
}

#[test]
fn wireguard_substitution() {
    let mut r = NELReport::new("https://example.com/".to_string(), 0);
    r.set_protocol(Some("wireguard"));
    r.set_error(&Error::new("tcp", "timed_out"));
    assert_eq!(r.error_type, "udp.timed_out");
    assert_eq!(r.phase, "connection");

    // Without the wireguard protocol the class is kept.
    let mut r2 = NELReport::new("https://example.com/".to_string(), 0);
    r2.set_protocol(Some("h2"));
    r2.set_error(&Error::new("tcp", "timed_out"));
    assert_eq!(r2.error_type, "tcp.timed_out");
}

#[test]
fn success_report_serializes_ok() {
    let r = NELReport::new("http://example.com/x".to_string(), 1000);
    let payload = r.serialize(1500);
    assert_eq!(
        payload,
        "[{\"age\":500,\"type\":\"network-error\",\"url\":\"http://example.com/x\",\
         \"body\":{\"referrer\":\"\",\"sampling_fraction\":1.0,\"server_ip\":\"\",\
         \"protocol\":\"\",\"method\":\"\",\"status_code\":0,\"elapsed_time\":0,\
         \"phase\":\"application\",\"type\":\"ok\"}}]"
    );
}

#[test]
fn error_report_serializes_fields() {
    let mut r = NELReport::new("https://site.test/a".to_string(), 2000);
    r.set_referer(Some("https://ref.test/"));
    r.set_server_ip(Some("192.0.2.7:443"));
    r.set_protocol(Some("h2"));
    r.set_method(Some("GET"));
    r.set_status_code(502);
    r.set_elapsed_time(345);
    r.set_error(&Error::new("http", "response.invalid"));
    let payload = r.serialize(2750);
    assert_eq!(
        payload,
        "[{\"age\":750,\"type\":\"network-error\",\"url\":\"https://site.test/a\",\
         \"body\":{\"referrer\":\"https://ref.test/\",\"sampling_fraction\":1.0,\
         \"server_ip\":\"192.0.2.7\",\"protocol\":\"h2\",\"method\":\"GET\",\
         \"status_code\":502,\"elapsed_time\":345,\"phase\":\"application\",\
         \"type\":\"http.response.invalid\"}}]"
    );
}

#[test]
fn age_is_monotone_and_clamped() {
    let r = NELReport::new("http://e/".to_string(), 5000);
    // Serializing before the capture time reports age zero.
    let early = r.serialize(4000);
    assert!(early.starts_with("[{\"age\":0,"));
    let a1 = r.serialize(6000);
    let a2 = r.serialize(9000);
    assert!(a1.starts_with("[{\"age\":1000,"));
    assert!(a2.starts_with("[{\"age\":4000,"));
}

#[test]
fn serialization_escapes_strings() {
    let mut r = NELReport::new("http://e/\"x\"\\y".to_string(), 0);
    r.set_method(Some("G\nT"));
    let payload = r.serialize(0);
    assert!(payload.contains("\"url\":\"http://e/\\\"x\\\"\\\\y\""));
    assert!(payload.contains("\"method\":\"G\\nT\""));
}

#[test]
fn is_success_follows_set_error() {
    let mut r = NELReport::new("http://e/".to_string(), 0);
    assert!(r.is_success());
    r.set_error(&Error::new("dns", "name_not_resolved"));
    assert!(!r.is_success());
    assert_eq!(r.phase, "dns");
    assert_eq!(r.error_type, "dns.name_not_resolved");
}
