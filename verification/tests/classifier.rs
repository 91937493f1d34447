use nel::error::{Category, Error, IoKind, TransportError};

fn msg_error(message: &str) -> TransportError {
    TransportError { io_kind: None, message: message.to_string(), category: None, tls_inner: false }
}

// DNS and TLS failures as rustls-style and native-TLS-style clients
// render them: the two families produce disjoint messages, and both must
// classify to the same NEL tokens.

#[test]
fn no_dns() {
    let messages = [
        "error trying to connect: dns error: failed to lookup address information: Name or service not known",
        "dns error: no address associated with hostname",
    ];
    for m in messages {
        let nel_err = Error::from_transport(&msg_error(m));
        assert_eq!(nel_err.to_string(), "dns.name_not_resolved");
        assert_eq!(nel_err.phase(), "dns");
    }
}

#[test]
fn expired_cert() {
    let messages = [
        "invalid peer certificate: Expired",
        "error trying to connect: certificate has expired",
    ];
    for m in messages {
        let nel_err = Error::from_transport(&msg_error(m));
        assert_eq!(nel_err.to_string(), "tls.cert.date_invalid");
        assert_eq!(nel_err.phase(), "connection");
    }
}

#[test]
fn untrusted_cert() {
    let messages = [
        "invalid peer certificate: UnknownIssuer",
        "error trying to connect: self signed certificate in certificate chain",
    ];
    for m in messages {
        let nel_err = Error::from_transport(&msg_error(m));
        assert_eq!(nel_err.to_string(), "tls.cert.authority_invalid");
        assert_eq!(nel_err.phase(), "connection");
    }
}

#[test]
fn invalid_name() {
    let messages = [
        "invalid peer certificate: CertNotValidForName",
        "error trying to connect: Hostname mismatch",
    ];
    for m in messages {
        let nel_err = Error::from_transport(&msg_error(m));
        assert_eq!(nel_err.to_string(), "tls.cert.name_invalid");
        assert_eq!(nel_err.phase(), "connection");
    }
}

#[test]
fn io_kinds_classify_as_tcp() {
    let cases = [
        (IoKind::TimedOut, "tcp.timed_out"),
        (IoKind::ConnectionReset, "tcp.reset"),
        (IoKind::ConnectionRefused, "tcp.refused"),
        (IoKind::ConnectionAborted, "tcp.aborted"),
    ];
    for (kind, wire) in cases {
        let t = TransportError {
            io_kind: Some(kind),
            message: String::new(),
            category: None,
            tls_inner: false,
        };
        let e = Error::from_transport(&t);
        assert_eq!(e.to_string(), wire);
        assert_eq!(e.phase(), "connection");
    }
}

#[test]
fn unreachable_routes() {
    for m in ["No route to host", "network unreachable"] {
        let e = Error::from_transport(&msg_error(m));
        assert_eq!(e.to_string(), "tcp.address_unreachable");
    }
}

#[test]
fn categories_classify() {
    let cases = [
        (Category::ConnectError, "tcp.failed", "connection"),
        (Category::ParseError, "http.response.invalid", "application"),
        (Category::UserError, "http.protocol.error", "application"),
        (Category::IncompleteMessage, "tcp.closed", "connection"),
        (Category::BodyWriteAborted, "abandoned", "application"),
        (Category::Timeout, "tcp.timed_out", "connection"),
        (Category::Closed, "tcp.reset", "connection"),
        (Category::Canceled, "tcp.aborted", "connection"),
    ];
    for (cat, wire, phase) in cases {
        let t = TransportError {
            io_kind: None,
            message: "something else".to_string(),
            category: Some(cat),
            tls_inner: false,
        };
        let e = Error::from_transport(&t);
        assert_eq!(e.to_string(), wire);
        assert_eq!(e.phase(), phase);
    }
}

#[test]
fn tls_inner_and_unknown_fallbacks() {
    let t = TransportError {
        io_kind: None,
        message: "opaque failure".to_string(),
        category: None,
        tls_inner: true,
    };
    let e = Error::from_transport(&t);
    assert_eq!(e.to_string(), "tls.protocol.error");
    assert_eq!(e.phase(), "connection");

    let u = TransportError {
        io_kind: None,
        message: "opaque failure".to_string(),
        category: None,
        tls_inner: false,
    };
    let e = Error::from_transport(&u);
    assert_eq!(e.class, "unknown");
    assert_eq!(e.subclass, "opaque failure");
    assert_eq!(e.to_string(), "unknown");
    assert_eq!(e.phase(), "unknown");
}

#[test]
fn message_match_is_case_insensitive() {
    let e = Error::from_transport(&msg_error("CERTIFICATE HAS EXPIRED"));
    assert_eq!(e.to_string(), "tls.cert.date_invalid");
}
