use vstd::prelude::*;

use crate::error::{spec_phase, spec_wire_type, Error};
use crate::strutil::str_eq;
use crate::wire::{chars_to_string, dec_str, escape_str, push_dec, push_escaped, push_lit};

verus! {

/// NELReport captures everything recorded about one network event.  Times
/// are milliseconds on the host's clock; a report with no error attached
/// is a success report.
#[derive(Debug, Clone, PartialEq, Eq, Hash)]
pub struct NELReport {
    /// When the event was captured, in milliseconds.
    pub captured: u64,
    pub url: String,
    pub referer: String,
    pub server_ip: String,
    pub protocol: String,
    pub method: String,
    pub status_code: usize,
    /// How long the request took, in milliseconds.
    pub elapsed_time: u64,
    /// Overrides the host parsed from `url` when choosing a policy.
    pub host_override: Option<String>,
    pub phase: String,
    pub error_type: String,
}

/// The string a present optional value renders to; an absent one renders
/// to the empty string.
pub open spec fn spec_opt_str(input: Option<&str>) -> Seq<char> {
    match input {
        None => Seq::empty(),
        Some(v) => v@,
    }
}

pub fn opt_to_string(input: Option<&str>) -> (r: String)
    ensures
        r@ == spec_opt_str(input),
{
    match input {
        None => String::new(),
        Some(v) => v.to_owned(),
    }
}

/// The characters of `s` strictly before the first occurrence of `stop`;
/// all of `s` if `stop` does not occur.
pub open spec fn prefix_until(s: Seq<char>, stop: char) -> Seq<char>
    decreases s.len(),
{
    if s.len() == 0 {
        s
    } else if s[0] == stop {
        Seq::empty()
    } else {
        seq![s[0]] + prefix_until(s.drop_first(), stop)
    }
}

/// A server IP with any port suffix stripped: `[v6]:port` keeps what the
/// brackets enclose, and `host:port` keeps what stands before the colon.
pub open spec fn strip_port(s: Seq<char>) -> Seq<char> {
    if s.len() > 0 && s[0] == '[' {
        prefix_until(s.drop_first(), ']')
    } else {
        prefix_until(s, ':')
    }
}

proof fn lemma_prefix_until_found(s: Seq<char>, stop: char, idx: int)
    requires
        0 <= idx <= s.len(),
        forall|k: int| 0 <= k < idx ==> s[k] != stop,
        idx < s.len() ==> s[idx] == stop,
    ensures
        prefix_until(s, stop) == s.subrange(0, idx),
    decreases s.len(),
{
    if s.len() == 0 {
        assert(prefix_until(s, stop) =~= s.subrange(0, idx));
    } else if s[0] == stop {
        assert(idx == 0);
        assert(prefix_until(s, stop) =~= s.subrange(0, 0));
    } else {
        lemma_prefix_until_found(s.drop_first(), stop, idx - 1);
        assert(s.drop_first().subrange(0, idx - 1) =~= s.subrange(1, idx));
        assert(seq![s[0]] + s.subrange(1, idx) =~= s.subrange(0, idx));
    }
}

/// The age a report has at serialization time `now`: how long after its
/// capture the report is being written, never negative.
pub open spec fn spec_age(captured: u64, now: u64) -> int {
    if now >= captured {
        now - captured
    } else {
        0
    }
}

/// The phase written on the wire: `application` for a success report,
/// otherwise the stored phase.
pub open spec fn spec_body_phase(r: NELReport) -> Seq<char> {
    if r.phase@.len() == 0 {
        "application"@
    } else {
        r.phase@
    }
}

/// The `type` written on the wire: `ok` for a success report, otherwise
/// the stored error type.
pub open spec fn spec_body_type(r: NELReport) -> Seq<char> {
    if r.phase@.len() == 0 {
        "ok"@
    } else {
        r.error_type@
    }
}

/// The full wire form of a report serialized at time `now`: a one-element
/// JSON list holding the report envelope and its body.
pub open spec fn spec_serialize(r: NELReport, now: u64) -> Seq<char> {
    "[{\"age\":"@ + dec_str(spec_age(r.captured, now)) + ",\"type\":\"network-error\",\"url\":\""@
        + escape_str(r.url@) + "\",\"body\":{\"referrer\":\""@ + escape_str(r.referer@)
        + "\",\"sampling_fraction\":1.0,\"server_ip\":\""@ + escape_str(r.server_ip@)
        + "\",\"protocol\":\""@ + escape_str(r.protocol@) + "\",\"method\":\""@ + escape_str(
        r.method@,
    ) + "\",\"status_code\":"@ + dec_str(r.status_code as int) + ",\"elapsed_time\":"@ + dec_str(
        r.elapsed_time as int,
    ) + ",\"phase\":\""@ + escape_str(spec_body_phase(r)) + "\",\"type\":\""@ + escape_str(
        spec_body_type(r),
    ) + "\"}}]"@
}

impl NELReport {
    /// A fresh report for the given URL, captured at time `captured` (in
    /// milliseconds), with every other field still empty.
    pub fn new(url: String, captured: u64) -> (r: NELReport)
        ensures
            r.captured == captured,
            r.url == url,
            r.referer@ == Seq::<char>::empty(),
            r.server_ip@ == Seq::<char>::empty(),
            r.protocol@ == Seq::<char>::empty(),
            r.method@ == Seq::<char>::empty(),
            r.status_code == 0,
            r.elapsed_time == 0,
            r.host_override is None,
            r.phase@ == Seq::<char>::empty(),
            r.error_type@ == Seq::<char>::empty(),
    {
        NELReport {
            captured,
            url,
            referer: String::new(),
            server_ip: String::new(),
            protocol: String::new(),
            method: String::new(),
            status_code: 0,
            elapsed_time: 0,
            host_override: None,
            phase: String::new(),
            error_type: String::new(),
        }
    }

    /// Whether no error has been attached to the report.
    pub fn is_success(&self) -> (r: bool)
        ensures
            r == (self.phase@.len() == 0),
    {
        self.phase.as_str().is_empty()
    }

    pub fn set_referer(&mut self, val: Option<&str>)
        ensures
            final(self).referer@ == spec_opt_str(val),
            *final(self) == (NELReport { referer: final(self).referer, ..*old(self) }),
    {
        self.referer = opt_to_string(val);
    }

    /// Stores the server IP, stripping any `:port` suffix, including the
    /// bracketed `[v6]:port` form.
    pub fn set_server_ip(&mut self, val: Option<&str>)
        ensures
            final(self).server_ip@ == strip_port(spec_opt_str(val)),
            *final(self) == (NELReport { server_ip: final(self).server_ip, ..*old(self) }),
    {
        let s = opt_to_string(val);
        let cs = crate::strutil::chars_of(s.as_str());
        let n = cs.len();
        let bracketed = n > 0 && cs[0] == '[';
        let start: usize = if bracketed {
            1
        } else {
            0
        };
        let stop: char = if bracketed {
            ']'
        } else {
            ':'
        };
        let mut i: usize = start;
        while i < n && cs[i] != stop
            invariant
                n == cs@.len(),
                start <= i <= n,
                forall|k: int| start <= k < i ==> cs@[k] != stop,
            decreases n - i,
        {
            i = i + 1;
        }
        let mut out: Vec<char> = Vec::new();
        let mut j: usize = start;
        while j < i
            invariant
                n == cs@.len(),
                start <= j <= i <= n,
                out@ == cs@.subrange(start as int, j as int),
            decreases i - j,
        {
            out.push(cs[j]);
            proof {
                assert(cs@.subrange(start as int, j as int).push(cs@[j as int]) =~= cs@.subrange(
                    start as int,
                    j + 1,
                ));
            }
            j = j + 1;
        }
        proof {
            if bracketed {
                lemma_prefix_until_found(cs@.drop_first(), ']', i - 1);
                assert(cs@.drop_first().subrange(0, i - 1) =~= cs@.subrange(1, i as int));
            } else {
                lemma_prefix_until_found(cs@, ':', i as int);
            }
        }
        self.server_ip = chars_to_string(&out);
    }

    pub fn set_protocol(&mut self, val: Option<&str>)
        ensures
            final(self).protocol@ == spec_opt_str(val),
            *final(self) == (NELReport { protocol: final(self).protocol, ..*old(self) }),
    {
        self.protocol = opt_to_string(val);
    }

    pub fn set_method(&mut self, val: Option<&str>)
        ensures
            final(self).method@ == spec_opt_str(val),
            *final(self) == (NELReport { method: final(self).method, ..*old(self) }),
    {
        self.method = opt_to_string(val);
    }

    pub fn set_status_code(&mut self, code: usize)
        ensures
            *final(self) == (NELReport { status_code: code, ..*old(self) }),
    {
        self.status_code = code;
    }

    pub fn set_elapsed_time(&mut self, elapsed: u64)
        ensures
            *final(self) == (NELReport { elapsed_time: elapsed, ..*old(self) }),
    {
        self.elapsed_time = elapsed;
    }

    /// Attaches a classified error.  When the report's protocol is
    /// `wireguard` and the class is `tcp`, the class becomes `udp` with the
    /// subclass preserved; the stored phase and wire type follow the
    /// (possibly substituted) class.
    pub fn set_error(&mut self, err: &Error)
        ensures
            final(self).phase@ == spec_phase(
                spec_wireguard_class(old(self).protocol@, err.class@),
            ),
            final(self).error_type@ == spec_wire_type(
                spec_wireguard_class(old(self).protocol@, err.class@),
                err.subclass@,
            ),
            *final(self) == (NELReport {
                phase: final(self).phase,
                error_type: final(self).error_type,
                ..*old(self)
            }),
    {
        let adjusted: Error = if str_eq(self.protocol.as_str(), "wireguard") && str_eq(
            err.class.as_str(),
            "tcp",
        ) {
            Error::new("udp", err.subclass.as_str())
        } else {
            Error::new(err.class.as_str(), err.subclass.as_str())
        };
        self.phase = adjusted.phase();
        self.error_type = adjusted.to_string();
    }

    /// Serializes the report as it stands at time `now` (milliseconds on
    /// the same clock as `captured`).
    pub fn serialize(&self, now: u64) -> (r: String)
        ensures
            r@ == spec_serialize(*self, now),
    {
        let mut out: Vec<char> = Vec::new();
        push_lit(&mut out, "[{\"age\":");
        let age: u64 = if now >= self.captured {
            now - self.captured
        } else {
            0
        };
        push_dec(&mut out, age);
        push_lit(&mut out, ",\"type\":\"network-error\",\"url\":\"");
        push_escaped(&mut out, self.url.as_str());
        push_lit(&mut out, "\",\"body\":{\"referrer\":\"");
        push_escaped(&mut out, self.referer.as_str());
        push_lit(&mut out, "\",\"sampling_fraction\":1.0,\"server_ip\":\"");
        push_escaped(&mut out, self.server_ip.as_str());
        push_lit(&mut out, "\",\"protocol\":\"");
        push_escaped(&mut out, self.protocol.as_str());
        push_lit(&mut out, "\",\"method\":\"");
        push_escaped(&mut out, self.method.as_str());
        push_lit(&mut out, "\",\"status_code\":");
        push_dec(&mut out, self.status_code as u64);
        push_lit(&mut out, ",\"elapsed_time\":");
        push_dec(&mut out, self.elapsed_time);
        push_lit(&mut out, ",\"phase\":\"");
        let body_phase: &str = if self.is_success() {
            "application"
        } else {
            self.phase.as_str()
        };
        push_escaped(&mut out, body_phase);
        push_lit(&mut out, "\",\"type\":\"");
        let body_type: &str = if self.is_success() {
            "ok"
        } else {
            self.error_type.as_str()
        };
        push_escaped(&mut out, body_type);
        push_lit(&mut out, "\"}}]");
        proof {
            assert(out@ =~= spec_serialize(*self, now));
        }
        chars_to_string(&out)
    }
}

/// The class after the wireguard substitution: a `tcp` classification on a
/// report whose protocol is `wireguard` is stored as `udp`.
pub open spec fn spec_wireguard_class(protocol: Seq<char>, class: Seq<char>) -> Seq<char> {
    if protocol == "wireguard"@ && class == "tcp"@ {
        "udp"@
    } else {
        class
    }
}

/// FailedReport wraps a report with the time of the delivery attempt that
/// failed, in milliseconds.
#[derive(Debug, Clone)]
pub struct FailedReport {
    pub last_try: u64,
    pub original: NELReport,
}

} // verus!
