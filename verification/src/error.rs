use vstd::prelude::*;

use crate::strutil::{chars_of, contains_sub, is_substring, lower_chars, str_eq, to_lower};

verus! {

/// Recognized kinds of I/O failure, as reported by the transport.
#[derive(Debug, Clone, Copy, PartialEq, Eq, Structural)]
pub enum IoKind {
    TimedOut,
    ConnectionReset,
    ConnectionRefused,
    ConnectionAborted,
}

/// High-level failure categories that a richer HTTP client can report.
#[derive(Debug, Clone, Copy, PartialEq, Eq, Structural)]
pub enum Category {
    ConnectError,
    ParseError,
    UserError,
    IncompleteMessage,
    BodyWriteAborted,
    Timeout,
    Closed,
    Canceled,
}

/// What the classifier reads of a transport failure: a recognized I/O error
/// kind if there is one, the rendered error message, the high-level category
/// if a richer HTTP-client error is available, and whether a wrapped
/// TLS-library error is present.  The embedder converts its transport's
/// error type into this record.
#[derive(Debug, Clone)]
pub struct TransportError {
    pub io_kind: Option<IoKind>,
    pub message: String,
    pub category: Option<Category>,
    pub tls_inner: bool,
}

/// A NEL error classification: a class such as `tcp` or `tls` together
/// with a free-form subclass token such as `cert.date_invalid`.
#[derive(Debug, Clone, PartialEq, Eq, Hash)]
pub struct Error {
    pub class: String,
    pub subclass: String,
}

/// The class assigned to a transport failure, by the ordered classification
/// rules: recognized I/O kind first, then case-insensitive message
/// patterns, then the reported category, then a wrapped TLS error, and
/// `unknown` last.
pub open spec fn spec_class_of(
    io_kind: Option<IoKind>,
    msg: Seq<char>,
    category: Option<Category>,
    tls_inner: bool,
) -> Seq<char> {
    spec_classify(io_kind, msg, category, tls_inner).0
}

/// The subclass assigned to a transport failure; see [`spec_class_of`].
pub open spec fn spec_subclass_of(
    io_kind: Option<IoKind>,
    msg: Seq<char>,
    category: Option<Category>,
    tls_inner: bool,
) -> Seq<char> {
    spec_classify(io_kind, msg, category, tls_inner).1
}

/// The full `(class, subclass)` classification of a transport failure.
pub open spec fn spec_classify(
    io_kind: Option<IoKind>,
    msg: Seq<char>,
    category: Option<Category>,
    tls_inner: bool,
) -> (Seq<char>, Seq<char>) {
    match io_kind {
        Some(IoKind::TimedOut) => ("tcp"@, "timed_out"@),
        Some(IoKind::ConnectionReset) => ("tcp"@, "reset"@),
        Some(IoKind::ConnectionRefused) => ("tcp"@, "refused"@),
        Some(IoKind::ConnectionAborted) => ("tcp"@, "aborted"@),
        None => spec_classify_by_message(msg, category, tls_inner),
    }
}

/// Classification once no recognized I/O kind applies: case-insensitive
/// substring patterns over the rendered message, in order.
pub open spec fn spec_classify_by_message(
    msg: Seq<char>,
    category: Option<Category>,
    tls_inner: bool,
) -> (Seq<char>, Seq<char>) {
    let l = to_lower(msg);
    if is_substring(l, "no address"@) || is_substring(l, "name or service not known"@) {
        ("dns"@, "name_not_resolved"@)
    } else if is_substring(l, "no route to host"@) || is_substring(l, "unreachable"@) {
        ("tcp"@, "address_unreachable"@)
    } else if is_substring(l, "expired"@) {
        ("tls"@, "cert.date_invalid"@)
    } else if is_substring(l, "unknownissuer"@) {
        ("tls"@, "cert.authority_invalid"@)
    } else if is_substring(l, "certnotvalidforname"@) {
        ("tls"@, "cert.name_invalid"@)
    } else if is_substring(l, "hostname mismatch"@) {
        ("tls"@, "cert.name_invalid"@)
    } else if is_substring(l, "certificate has expired"@) {
        ("tls"@, "cert.date_invalid"@)
    } else if is_substring(l, "self signed certificate in certificate chain"@) {
        ("tls"@, "cert.authority_invalid"@)
    } else {
        spec_classify_by_category(msg, category, tls_inner)
    }
}

/// Classification once no message pattern applies: the high-level category
/// reported by a richer HTTP client, then a wrapped TLS error, then
/// `unknown` carrying the rendered message.
pub open spec fn spec_classify_by_category(
    msg: Seq<char>,
    category: Option<Category>,
    tls_inner: bool,
) -> (Seq<char>, Seq<char>) {
    match category {
        Some(Category::ConnectError) => ("tcp"@, "failed"@),
        Some(Category::ParseError) => ("http"@, "response.invalid"@),
        Some(Category::UserError) => ("http"@, "protocol.error"@),
        Some(Category::IncompleteMessage) => ("tcp"@, "closed"@),
        Some(Category::BodyWriteAborted) => ("abandoned"@, ""@),
        Some(Category::Timeout) => ("tcp"@, "timed_out"@),
        Some(Category::Closed) => ("tcp"@, "reset"@),
        Some(Category::Canceled) => ("tcp"@, "aborted"@),
        None => if tls_inner {
            ("tls"@, "protocol.error"@)
        } else {
            ("unknown"@, msg)
        },
    }
}

/// The NEL phase derived from an error class.
pub open spec fn spec_phase(class: Seq<char>) -> Seq<char> {
    if class == "dns"@ {
        "dns"@
    } else if class == "tcp"@ || class == "udp"@ || class == "tls"@ {
        "connection"@
    } else if class == "http"@ || class == "abandoned"@ {
        "application"@
    } else {
        "unknown"@
    }
}

/// The wire `type` token of an error: `class.subclass`, except that the
/// classes `unknown` and `abandoned` stand alone.
pub open spec fn spec_wire_type(class: Seq<char>, subclass: Seq<char>) -> Seq<char> {
    if class == "unknown"@ {
        "unknown"@
    } else if class == "abandoned"@ {
        "abandoned"@
    } else {
        class + "."@ + subclass
    }
}

impl Error {
    pub fn new(class: &str, subclass: &str) -> (r: Error)
        ensures
            r.class@ == class@,
            r.subclass@ == subclass@,
    {
        Error { class: class.to_owned(), subclass: subclass.to_owned() }
    }

    /// Classifies a transport failure into its NEL `(class, subclass)` pair.
    pub fn from_transport(t: &TransportError) -> (r: Error)
        ensures
            r.class@ == spec_class_of(t.io_kind, t.message@, t.category, t.tls_inner),
            r.subclass@ == spec_subclass_of(t.io_kind, t.message@, t.category, t.tls_inner),
    {
        match t.io_kind {
            Some(IoKind::TimedOut) => Error::new("tcp", "timed_out"),
            Some(IoKind::ConnectionReset) => Error::new("tcp", "reset"),
            Some(IoKind::ConnectionRefused) => Error::new("tcp", "refused"),
            Some(IoKind::ConnectionAborted) => Error::new("tcp", "aborted"),
            None => {
                let msg = chars_of(t.message.as_str());
                let l = lower_chars(&msg);
                if contains_sub(&l, "no address") || contains_sub(&l, "name or service not known") {
                    Error::new("dns", "name_not_resolved")
                } else if contains_sub(&l, "no route to host") || contains_sub(&l, "unreachable") {
                    Error::new("tcp", "address_unreachable")
                } else if contains_sub(&l, "expired") {
                    Error::new("tls", "cert.date_invalid")
                } else if contains_sub(&l, "unknownissuer") {
                    Error::new("tls", "cert.authority_invalid")
                } else if contains_sub(&l, "certnotvalidforname") {
                    Error::new("tls", "cert.name_invalid")
                } else if contains_sub(&l, "hostname mismatch") {
                    Error::new("tls", "cert.name_invalid")
                } else if contains_sub(&l, "certificate has expired") {
                    Error::new("tls", "cert.date_invalid")
                } else if contains_sub(&l, "self signed certificate in certificate chain") {
                    Error::new("tls", "cert.authority_invalid")
                } else {
                    match t.category {
                        Some(Category::ConnectError) => Error::new("tcp", "failed"),
                        Some(Category::ParseError) => Error::new("http", "response.invalid"),
                        Some(Category::UserError) => Error::new("http", "protocol.error"),
                        Some(Category::IncompleteMessage) => Error::new("tcp", "closed"),
                        Some(Category::BodyWriteAborted) => Error::new("abandoned", ""),
                        Some(Category::Timeout) => Error::new("tcp", "timed_out"),
                        Some(Category::Closed) => Error::new("tcp", "reset"),
                        Some(Category::Canceled) => Error::new("tcp", "aborted"),
                        None => {
                            if t.tls_inner {
                                Error::new("tls", "protocol.error")
                            } else {
                                Error::new("unknown", t.message.as_str())
                            }
                        },
                    }
                }
            },
        }
    }

    /// The NEL phase of this error: where in the request lifecycle the
    /// failure occurred.
    pub fn phase(&self) -> (r: String)
        ensures
            r@ == spec_phase(self.class@),
    {
        let c = self.class.as_str();
        if str_eq(c, "dns") {
            String::from_str("dns")
        } else if str_eq(c, "tcp") || str_eq(c, "udp") || str_eq(c, "tls") {
            String::from_str("connection")
        } else if str_eq(c, "http") || str_eq(c, "abandoned") {
            String::from_str("application")
        } else {
            String::from_str("unknown")
        }
    }

    /// The wire `type` token of this error.
    pub fn to_string(&self) -> (r: String)
        ensures
            r@ == spec_wire_type(self.class@, self.subclass@),
    {
        let c = self.class.as_str();
        if str_eq(c, "unknown") {
            String::from_str("unknown")
        } else if str_eq(c, "abandoned") {
            String::from_str("abandoned")
        } else {
            let mut r = self.class.clone();
            r.append(".");
            r.append(self.subclass.as_str());
            r
        }
    }
}

} // verus!
