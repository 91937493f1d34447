use nel::client::NelClient;
use nel::error::Error;
use nel::report::NELReport;

fn error_report(url: &str, now: u64) -> NELReport {
    let mut r = NELReport::new(url.to_string(), now);
    r.set_error(&Error::new("tcp", "timed_out"));
    r
}

fn cache_both(client: &mut NelClient, now: u64) {
    client.nel_header("h", "{\"report_to\":\"g\",\"max_age\":60,\"failure_fraction\":1.0}", now);
    client.report_to_header(
        "h",
        "{\"group\":\"g\",\"max_age\":60,\"endpoints\":[{\"url\":\"https://c/r\"}]}",
        now,
    );
}

#[test]
fn end_to_end_scenario() {
    let mut client = NelClient::new();
    cache_both(&mut client, 0);
    let r = error_report("https://h/path", 10);
    let endpoint = client.choose_endpoint(&r, true, 10);
    assert_eq!(endpoint, Some("https://c/r".to_string()));
    let payload = r.serialize(10);
    assert!(payload.contains("\"type\":\"tcp.timed_out\""));
    assert!(payload.contains("\"phase\":\"connection\""));
}

#[test]
fn selector_uses_url_host() {
    let mut client = NelClient::new();
    cache_both(&mut client, 0);
    // A URL under another host finds no policy.
    let other = error_report("https://elsewhere/path", 10);
    assert_eq!(client.choose_endpoint(&other, true, 10), None);
    // An unparsable URL finds no host at all.
    let bad = error_report("not a url", 10);
    assert_eq!(client.choose_endpoint(&bad, true, 10), None);
    // A host override wins over the URL.
    let mut forced = error_report("https://elsewhere/path", 10);
    forced.host_override = Some("h".to_string());
    assert_eq!(client.choose_endpoint(&forced, true, 10), Some("https://c/r".to_string()));
}

#[test]
fn selector_sampling_fractions() {
    let mut client = NelClient::new();
    // success_fraction defaults to 0: success reports are always dropped.
    cache_both(&mut client, 0);
    let success = NELReport::new("https://h/ok".to_string(), 5);
    assert_eq!(client.choose_endpoint(&success, true, 5), None);
    // Retries bypass sampling.
    assert_eq!(client.choose_endpoint(&success, false, 5), Some("https://c/r".to_string()));
    // With success_fraction 1.0 the success report is always sent.
    client.nel_header(
        "h",
        "{\"report_to\":\"g\",\"max_age\":60,\"success_fraction\":1.0}",
        6,
    );
    assert_eq!(client.choose_endpoint(&success, true, 6), Some("https://c/r".to_string()));
    // With failure_fraction 0 error reports are always dropped.
    client.nel_header(
        "h",
        "{\"report_to\":\"g\",\"max_age\":60,\"failure_fraction\":0}",
        7,
    );
    let failure = error_report("https://h/x", 7);
    assert_eq!(client.choose_endpoint(&failure, true, 7), None);
}

#[test]
fn select_endpoint_is_deterministic_given_draws() {
    let mut client = NelClient::new();
    client.nel_header("h", "{\"report_to\":\"g\",\"max_age\":60,\"failure_fraction\":0.5}", 0);
    client.report_to_header(
        "h",
        "{\"group\":\"g\",\"max_age\":60,\"endpoints\":[{\"url\":\"https://c/a\"},{\"url\":\"https://c/b\"}]}",
        0,
    );
    let r = error_report("https://h/x", 1);
    // A draw below half a million falls inside failure_fraction 0.5.
    assert_eq!(client.select_endpoint(&r, true, 1, 0, 0), Some("https://c/a".to_string()));
    assert_eq!(client.select_endpoint(&r, true, 1, 0, 1), Some("https://c/b".to_string()));
    assert_eq!(client.select_endpoint(&r, true, 1, 499999, 2), Some("https://c/a".to_string()));
    // A draw at or above the threshold drops the report.
    assert_eq!(client.select_endpoint(&r, true, 1, 500000, 0), None);
    // Without sampling the draw does not matter.
    assert_eq!(client.select_endpoint(&r, false, 1, 999999, 1), Some("https://c/b".to_string()));
}

#[test]
fn nel_header_removal_and_malformed() {
    let mut client = NelClient::new();
    cache_both(&mut client, 0);
    let r = error_report("https://h/x", 1);
    assert!(client.choose_endpoint(&r, true, 1).is_some());
    // Malformed JSON never disturbs the cached policy.
    client.nel_header("h", "{\"report_to\":", 2);
    client.nel_header("h", "not json", 2);
    assert!(client.choose_endpoint(&r, true, 2).is_some());
    // A max_age of zero removes the policy.
    client.nel_header("h", "{\"report_to\":\"g\",\"max_age\":0}", 3);
    assert_eq!(client.choose_endpoint(&r, true, 3), None);
}

#[test]
fn nel_header_rejects_invalid_directives() {
    let mut client = NelClient::new();
    cache_both(&mut client, 0);
    let r = error_report("https://h/x", 1);
    // Empty report_to, out-of-range fractions and duplicate members are
    // ignored outright: the earlier policy stays.
    client.nel_header("h", "{\"report_to\":\"\",\"max_age\":0}", 1);
    client.nel_header("h", "{\"report_to\":\"g\",\"max_age\":0,\"failure_fraction\":1.5}", 1);
    client.nel_header("h", "{\"report_to\":\"g\",\"max_age\":0,\"success_fraction\":-0.1}", 1);
    client.nel_header("h", "{\"report_to\":\"g\",\"max_age\":0,\"max_age\":0}", 1);
    assert!(client.choose_endpoint(&r, true, 1).is_some());
}

#[test]
fn report_to_header_removal_and_validation() {
    let mut client = NelClient::new();
    cache_both(&mut client, 0);
    let r = error_report("https://h/x", 1);
    // Invalid group lists are ignored.
    client.report_to_header("h", "{\"group\":\"\",\"max_age\":0}", 1);
    client.report_to_header("h", "{\"group\":\"g\",\"max_age\":0,\"endpoints\":[]}", 1);
    client.report_to_header(
        "h",
        "{\"group\":\"g\",\"max_age\":0,\"endpoints\":[{\"url\":\"\"}]}",
        1,
    );
    assert!(client.choose_endpoint(&r, true, 1).is_some());
    // A max_age of zero removes the group.
    client.report_to_header(
        "h",
        "{\"group\":\"g\",\"max_age\":0,\"endpoints\":[{\"url\":\"https://c/r\"}]}",
        2,
    );
    assert_eq!(client.choose_endpoint(&r, true, 2), None);
}

#[test]
fn policies_expire_after_max_age() {
    let mut client = NelClient::new();
    cache_both(&mut client, 0);
    let r = error_report("https://h/x", 1);
    // max_age is 60 seconds: live just before, gone at the boundary.
    assert!(client.choose_endpoint(&r, true, 59999).is_some());
    assert_eq!(client.choose_endpoint(&r, true, 60000), None);
}

#[test]
fn group_key_separates_hosts_and_groups() {
    let mut client = NelClient::new();
    client.nel_header("h", "{\"report_to\":\"g\",\"max_age\":60,\"failure_fraction\":1.0}", 0);
    // The same group name cached for another host does not serve `h`.
    client.report_to_header(
        "other",
        "{\"group\":\"g\",\"max_age\":60,\"endpoints\":[{\"url\":\"https://c/r\"}]}",
        0,
    );
    let r = error_report("https://h/x", 1);
    assert_eq!(client.choose_endpoint(&r, true, 1), None);
    // A different group name under `h` does not serve the policy either.
    client.report_to_header(
        "h",
        "{\"group\":\"g2\",\"max_age\":60,\"endpoints\":[{\"url\":\"https://c/r\"}]}",
        1,
    );
    assert_eq!(client.choose_endpoint(&r, true, 1), None);
}

#[test]
fn header_parsing_accepts_whitespace_and_order() {
    let mut client = NelClient::new();
    client.nel_header(
        "h",
        " { \"failure_fraction\" : 1.0 , \"max_age\" : 60 , \"report_to\" : \"g\" } ",
        0,
    );
    client.report_to_header(
        "h",
        "{\"endpoints\":[{\"url\":\"https://c/r\"}],\"group\":\"g\",\"max_age\":60}",
        0,
    );
    let r = error_report("https://h/x", 1);
    assert_eq!(client.choose_endpoint(&r, true, 1), Some("https://c/r".to_string()));
}

#[test]
fn intake_queue_is_bounded_fifo() {
    let mut client = NelClient::new();
    for i in 0..300u64 {
        client.submit_report(NELReport::new(format!("https://h/{}", i), i));
    }
    // The queue holds 256 reports; the overflow was dropped silently.
    let mut count = 0;
    let mut expected: u64 = 0;
    while let Some(r) = client.pop_report() {
        assert_eq!(r.url, format!("https://h/{}", expected));
        expected += 1;
        count += 1;
    }
    assert_eq!(count, 256);
    assert!(client.pop_report().is_none());
}

#[test]
fn nel_header_accepts_optional_members() {
    let mut client = NelClient::new();
    client.nel_header(
        "h",
        "{\"report_to\":\"g\",\"max_age\":60,\"include_subdomains\":true,\"failure_fraction\":1.0}",
        0,
    );
    client.report_to_header(
        "h",
        "{\"group\":\"g\",\"max_age\":60,\"endpoints\":[{\"url\":\"https://c/r\"}]}",
        0,
    );
    let r = error_report("https://h/x", 1);
    assert_eq!(client.choose_endpoint(&r, true, 1), Some("https://c/r".to_string()));
    // include_subdomains must still be a well-formed boolean.
    client.nel_header("h", "{\"report_to\":\"g\",\"max_age\":0,\"include_subdomains\":maybe}", 2);
    assert!(client.choose_endpoint(&r, true, 2).is_some());
}

#[test]
fn escaped_strings_in_headers_are_decoded() {
    let mut client = NelClient::new();
    // Short escapes in recognized members are decoded: a group key
    // written with an escaped backslash matches the same group name.
    client.nel_header("h", "{\"report_to\":\"g\\\\x\",\"max_age\":60,\"failure_fraction\":1.0}", 0);
    client.report_to_header(
        "h",
        "{\"group\":\"g\\\\x\",\"max_age\":60,\"endpoints\":[{\"url\":\"https://c/r\"}]}",
        0,
    );
    let r = error_report("https://h/x", 1);
    assert_eq!(client.choose_endpoint(&r, true, 1), Some("https://c/r".to_string()));
    // A \uXXXX escape inside a recognized member is not decoded: such a
    // header is rejected whole and changes nothing.
    client.nel_header("h", "{\"report_to\":\"g\\u0041\",\"max_age\":0}", 2);
    assert!(client.choose_endpoint(&r, true, 2).is_some());
}

#[test]
fn unknown_members_are_skipped() {
    let mut client = NelClient::new();
    // Extra members of any value shape — nested objects and arrays,
    // signed and exponent numbers, null, strings with \uXXXX escapes,
    // even repeated — do not disturb the recognized directives.
    client.nel_header(
        "h",
        "{\"report_to\":\"g\",\"max_age\":60,\"failure_fraction\":1.0,\
         \"request_headers\":[\"User-Agent\"],\"extra\":{\"a\":[1,-2.5e3,null,true]},\
         \"note\":\"\\u00e9\",\"note\":\"twice\"}",
        0,
    );
    client.report_to_header(
        "h",
        "{\"group\":\"g\",\"max_age\":60,\"include_subdomains\":true,\
         \"endpoints\":[{\"priority\":1,\"url\":\"https://c/r\",\"weight\":10}]}",
        0,
    );
    let r = error_report("https://h/x", 1);
    assert_eq!(client.choose_endpoint(&r, true, 1), Some("https://c/r".to_string()));
    // A recognized member repeated is still rejected outright.
    client.nel_header("h", "{\"report_to\":\"g\",\"max_age\":0,\"max_age\":0}", 2);
    assert!(client.choose_endpoint(&r, true, 2).is_some());
    // A malformed value inside an unknown member still rejects the header.
    client.nel_header("h", "{\"report_to\":\"g\",\"max_age\":0,\"extra\":[1,]}", 2);
    assert!(client.choose_endpoint(&r, true, 2).is_some());
}
