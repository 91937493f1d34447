use vstd::prelude::*;

use crate::json::{
    parse_bool, parse_fraction, parse_string, parse_u64, skip_value, skip_ws, spec_parse_bool,
    spec_parse_fraction, spec_parse_string, spec_parse_u64, spec_skip_value, spec_skip_ws,
};
use crate::strutil::chars_eq_str;
use crate::wire::chars_to_string;

verus! {

/// The directives carried by a well-formed `NEL` header value.  Sampling
/// fractions are held in parts per million.
pub ghost struct NelSpec {
    pub report_to: Seq<char>,
    pub max_age: int,
    pub include_subdomains: bool,
    pub success_ppm: int,
    pub failure_ppm: int,
}

/// The fields seen so far while reading the members of a `NEL` header
/// object.
pub ghost struct NelAcc {
    pub report_to: Option<Seq<char>>,
    pub max_age: Option<int>,
    pub include_subdomains: Option<bool>,
    pub success_ppm: Option<int>,
    pub failure_ppm: Option<int>,
}

/// The empty accumulator: no field seen yet.
pub open spec fn nel_acc0() -> NelAcc {
    NelAcc {
        report_to: None,
        max_age: None,
        include_subdomains: None,
        success_ppm: None,
        failure_ppm: None,
    }
}

/// One `NEL` member value at position `i`, dispatched on the member name.
/// A recognized name seen twice rejects the header; an unrecognized
/// member is skipped, whatever value it carries.
pub open spec fn spec_nel_field(s: Seq<char>, i: int, acc: NelAcc, key: Seq<char>) -> Option<
    (NelAcc, int),
> {
    if key == "report_to"@ {
        if acc.report_to is Some {
            None
        } else {
            match spec_parse_string(s, i) {
                None => None,
                Some((v, j)) => Some((NelAcc { report_to: Some(v), ..acc }, j)),
            }
        }
    } else if key == "max_age"@ {
        if acc.max_age is Some {
            None
        } else {
            match spec_parse_u64(s, i) {
                None => None,
                Some((v, j)) => Some((NelAcc { max_age: Some(v), ..acc }, j)),
            }
        }
    } else if key == "include_subdomains"@ {
        if acc.include_subdomains is Some {
            None
        } else {
            match spec_parse_bool(s, i) {
                None => None,
                Some((v, j)) => Some((NelAcc { include_subdomains: Some(v), ..acc }, j)),
            }
        }
    } else if key == "success_fraction"@ {
        if acc.success_ppm is Some {
            None
        } else {
            match spec_parse_fraction(s, i) {
                None => None,
                Some((v, j)) => Some((NelAcc { success_ppm: Some(v), ..acc }, j)),
            }
        }
    } else if key == "failure_fraction"@ {
        if acc.failure_ppm is Some {
            None
        } else {
            match spec_parse_fraction(s, i) {
                None => None,
                Some((v, j)) => Some((NelAcc { failure_ppm: Some(v), ..acc }, j)),
            }
        }
    } else {
        match spec_skip_value(s, i) {
            None => None,
            Some(j) => Some((acc, j)),
        }
    }
}

/// The members of a `NEL` header object from position `i` (at the first
/// member name or at the closing brace), and the position after the
/// closing brace.
pub open spec fn spec_nel_members(s: Seq<char>, i: int, acc: NelAcc) -> Option<(NelAcc, int)>
    decreases s.len() - i,
{
    if i < 0 || i >= s.len() {
        None
    } else if s[i] == '}' {
        Some((acc, i + 1))
    } else {
        match spec_parse_string(s, i) {
            None => None,
            Some((key, j1)) => {
                if j1 <= i {
                    None
                } else {
                    let j2 = spec_skip_ws(s, j1);
                    if j2 < j1 {
                        None
                    } else if j2 < s.len() && s[j2] == ':' {
                        let j3 = spec_skip_ws(s, j2 + 1);
                        if j3 <= j2 {
                            None
                        } else {
                            match spec_nel_field(s, j3, acc, key) {
                                None => None,
                                Some((acc2, j4)) => {
                                    if j4 <= j3 {
                                        None
                                    } else {
                                        let j5 = spec_skip_ws(s, j4);
                                        if j5 < j4 {
                                            None
                                        } else if j5 < s.len() && s[j5] == ',' {
                                            let j6 = spec_skip_ws(s, j5 + 1);
                                            if j6 <= j5 || j6 > s.len() {
                                                None
                                            } else {
                                                spec_nel_members(s, j6, acc2)
                                            }
                                        } else if j5 < s.len() && s[j5] == '}' {
                                            Some((acc2, j5 + 1))
                                        } else {
                                            None
                                        }
                                    }
                                },
                            }
                        }
                    } else {
                        None
                    }
                }
            },
        }
    }
}

/// A complete `NEL` header value: one object whose members are read by
/// [`spec_nel_members`], with nothing but whitespace around it.  The
/// required members are `report_to` and `max_age`; `include_subdomains`
/// defaults to false, `success_fraction` to 0 and `failure_fraction` to 1.
pub open spec fn spec_parse_nel(s: Seq<char>) -> Option<NelSpec> {
    let i0 = spec_skip_ws(s, 0);
    if 0 <= i0 < s.len() && s[i0] == '{' {
        let i1 = spec_skip_ws(s, i0 + 1);
        if i1 <= i0 || i1 > s.len() {
            None
        } else {
            match spec_nel_members(s, i1, nel_acc0()) {
                None => None,
                Some((acc, j)) => {
                    if 0 <= j <= s.len() && spec_skip_ws(s, j) == s.len() {
                        match acc.report_to {
                            None => None,
                            Some(rt) => match acc.max_age {
                                None => None,
                                Some(ma) => Some(
                                    NelSpec {
                                        report_to: rt,
                                        max_age: ma,
                                        include_subdomains: match acc.include_subdomains {
                                            Some(b) => b,
                                            None => false,
                                        },
                                        success_ppm: match acc.success_ppm {
                                            Some(v) => v,
                                            None => 0,
                                        },
                                        failure_ppm: match acc.failure_ppm {
                                            Some(v) => v,
                                            None => 1000000,
                                        },
                                    },
                                ),
                            },
                        }
                    } else {
                        None
                    }
                },
            }
        }
    } else {
        None
    }
}

/// The plain-value form of a parsed `NEL` header.
pub struct NelHeaderData {
    pub report_to: String,
    pub max_age: u64,
    pub include_subdomains: bool,
    pub success_ppm: u32,
    pub failure_ppm: u32,
}

struct NelAccData {
    report_to: Option<String>,
    max_age: Option<u64>,
    include_subdomains: Option<bool>,
    success_ppm: Option<u32>,
    failure_ppm: Option<u32>,
}

spec fn nel_acc_view(a: NelAccData) -> NelAcc {
    NelAcc {
        report_to: match a.report_to {
            None => None,
            Some(v) => Some(v@),
        },
        max_age: match a.max_age {
            None => None,
            Some(v) => Some(v as int),
        },
        include_subdomains: a.include_subdomains,
        success_ppm: match a.success_ppm {
            None => None,
            Some(v) => Some(v as int),
        },
        failure_ppm: match a.failure_ppm {
            None => None,
            Some(v) => Some(v as int),
        },
    }
}

fn nel_members(s: &Vec<char>, i: usize, acc: NelAccData) -> (r: Option<(NelAccData, usize)>)
    requires
        i <= s@.len(),
    ensures
        match r {
            Some((a2, j)) => spec_nel_members(s@, i as int, nel_acc_view(acc)) == Some(
                (nel_acc_view(a2), j as int),
            ) && j <= s@.len(),
            None => spec_nel_members(s@, i as int, nel_acc_view(acc)) is None,
        },
    decreases s@.len() - i,
{
    if i >= s.len() {
        return None;
    }
    if s[i] == '}' {
        return Some((acc, i + 1));
    }
    let (key, j1) = match parse_string(s, i) {
        None => {
            return None;
        },
        Some(kv) => kv,
    };
    let j2 = skip_ws(s, j1);
    if !(j2 < s.len() && s[j2] == ':') {
        return None;
    }
    let j3 = skip_ws(s, j2 + 1);
    // Dispatch on the member name.
    let stepped: Option<(NelAccData, usize)> = if chars_eq_str(&key, "report_to") {
        if acc.report_to.is_some() {
            None
        } else {
            match parse_string(s, j3) {
                None => None,
                Some((v, j4)) => Some(
                    (NelAccData { report_to: Some(chars_to_string(&v)), ..acc }, j4),
                ),
            }
        }
    } else if chars_eq_str(&key, "max_age") {
        if acc.max_age.is_some() {
            None
        } else {
            match parse_u64(s, j3) {
                None => None,
                Some((v, j4)) => Some((NelAccData { max_age: Some(v), ..acc }, j4)),
            }
        }
    } else if chars_eq_str(&key, "include_subdomains") {
        if acc.include_subdomains.is_some() {
            None
        } else {
            match parse_bool(s, j3) {
                None => None,
                Some((v, j4)) => Some((NelAccData { include_subdomains: Some(v), ..acc }, j4)),
            }
        }
    } else if chars_eq_str(&key, "success_fraction") {
        if acc.success_ppm.is_some() {
            None
        } else {
            match parse_fraction(s, j3) {
                None => None,
                Some((v, j4)) => Some((NelAccData { success_ppm: Some(v), ..acc }, j4)),
            }
        }
    } else if chars_eq_str(&key, "failure_fraction") {
        if acc.failure_ppm.is_some() {
            None
        } else {
            match parse_fraction(s, j3) {
                None => None,
                Some((v, j4)) => Some((NelAccData { failure_ppm: Some(v), ..acc }, j4)),
            }
        }
    } else {
        match skip_value(s, j3) {
            None => None,
            Some(j4) => Some((acc, j4)),
        }
    };
    let (acc2, j4) = match stepped {
        None => {
            return None;
        },
        Some(x) => x,
    };
    let j5 = skip_ws(s, j4);
    if j5 < s.len() && s[j5] == ',' {
        let j6 = skip_ws(s, j5 + 1);
        return nel_members(s, j6, acc2);
    }
    if j5 < s.len() && s[j5] == '}' {
        return Some((acc2, j5 + 1));
    }
    None
}

/// Parses a complete `NEL` header value.
pub fn parse_nel(s: &Vec<char>) -> (r: Option<NelHeaderData>)
    ensures
        match r {
            Some(d) => spec_parse_nel(s@) == Some(
                NelSpec {
                    report_to: d.report_to@,
                    max_age: d.max_age as int,
                    include_subdomains: d.include_subdomains,
                    success_ppm: d.success_ppm as int,
                    failure_ppm: d.failure_ppm as int,
                },
            ),
            None => spec_parse_nel(s@) is None,
        },
{
    let i0 = skip_ws(s, 0);
    if !(i0 < s.len() && s[i0] == '{') {
        return None;
    }
    let i1 = skip_ws(s, i0 + 1);
    let acc0 = NelAccData {
        report_to: None,
        max_age: None,
        include_subdomains: None,
        success_ppm: None,
        failure_ppm: None,
    };
    let (acc, j) = match nel_members(s, i1, acc0) {
        None => {
            return None;
        },
        Some(x) => x,
    };
    if skip_ws(s, j) != s.len() {
        return None;
    }
    let ma = match acc.max_age {
        None => {
            return None;
        },
        Some(v) => v,
    };
    let rt = match acc.report_to {
        None => {
            return None;
        },
        Some(v) => v,
    };
    Some(
        NelHeaderData {
            report_to: rt,
            max_age: ma,
            include_subdomains: match acc.include_subdomains {
                Some(b) => b,
                None => false,
            },
            success_ppm: match acc.success_ppm {
                Some(v) => v,
                None => 0,
            },
            failure_ppm: match acc.failure_ppm {
                Some(v) => v,
                None => 1000000,
            },
        },
    )
}

/// The directives carried by a well-formed `Report-To` header value.
pub ghost struct ReportToSpec {
    pub group: Seq<char>,
    pub max_age: int,
    pub endpoints: Seq<Seq<char>>,
}

/// The fields seen so far while reading the members of a `Report-To`
/// header object.
pub ghost struct RtAcc {
    pub group: Option<Seq<char>>,
    pub max_age: Option<int>,
    pub endpoints: Option<Seq<Seq<char>>>,
}

/// The empty accumulator: no field seen yet.
pub open spec fn rt_acc0() -> RtAcc {
    RtAcc { group: None, max_age: None, endpoints: None }
}

/// The members of one endpoint object from position `i` (at a member
/// name or the closing brace): the `url` member's value once seen, and
/// the position after the closing brace.  `url` seen twice rejects the
/// object; unrecognized members are skipped.
pub open spec fn spec_ep_members(s: Seq<char>, i: int, url: Option<Seq<char>>) -> Option<
    (Option<Seq<char>>, int),
>
    decreases s.len() - i,
{
    if i < 0 || i >= s.len() {
        None
    } else if s[i] == '}' {
        Some((url, i + 1))
    } else {
        match spec_parse_string(s, i) {
            None => None,
            Some((key, j1)) => {
                if j1 <= i {
                    None
                } else {
                    let j2 = spec_skip_ws(s, j1);
                    if j2 < j1 {
                        None
                    } else if j2 < s.len() && s[j2] == ':' {
                        let j3 = spec_skip_ws(s, j2 + 1);
                        if j3 <= j2 {
                            None
                        } else {
                            let step: Option<(Option<Seq<char>>, int)> = if key == "url"@ {
                                if url is Some {
                                    None
                                } else {
                                    match spec_parse_string(s, j3) {
                                        None => None,
                                        Some((v, j4)) => Some((Some(v), j4)),
                                    }
                                }
                            } else {
                                match spec_skip_value(s, j3) {
                                    None => None,
                                    Some(j4) => Some((url, j4)),
                                }
                            };
                            match step {
                                None => None,
                                Some((url2, j4)) => {
                                    if j4 <= j3 {
                                        None
                                    } else {
                                        let j5 = spec_skip_ws(s, j4);
                                        if j5 < j4 {
                                            None
                                        } else if j5 < s.len() && s[j5] == ',' {
                                            let j6 = spec_skip_ws(s, j5 + 1);
                                            if j6 <= j5 || j6 > s.len() {
                                                None
                                            } else {
                                                spec_ep_members(s, j6, url2)
                                            }
                                        } else if j5 < s.len() && s[j5] == '}' {
                                            Some((url2, j5 + 1))
                                        } else {
                                            None
                                        }
                                    }
                                },
                            }
                        }
                    } else {
                        None
                    }
                }
            },
        }
    }
}

/// One endpoint object at position `i`: its required `url` member and
/// the position after the closing brace.
pub open spec fn spec_endpoint_obj(s: Seq<char>, i: int) -> Option<(Seq<char>, int)> {
    if 0 <= i < s.len() && s[i] == '{' {
        let j1 = spec_skip_ws(s, i + 1);
        if j1 <= i || j1 > s.len() {
            None
        } else {
            match spec_ep_members(s, j1, None) {
                None => None,
                Some((url, j)) => match url {
                    None => None,
                    Some(u) => Some((u, j)),
                },
            }
        }
    } else {
        None
    }
}

/// The endpoint objects of an endpoints array from position `i` (at an
/// object), appended to `acc`, and the position after the closing
/// bracket.
pub open spec fn spec_endpoints_rest(s: Seq<char>, i: int, acc: Seq<Seq<char>>) -> Option<
    (Seq<Seq<char>>, int),
>
    decreases s.len() - i,
{
    if i < 0 {
        None
    } else {
        match spec_endpoint_obj(s, i) {
            None => None,
            Some((u, j)) => {
                if j <= i || j > s.len() {
                    None
                } else {
                    let j2 = spec_skip_ws(s, j);
                    if j2 < j {
                        None
                    } else if j2 < s.len() && s[j2] == ',' {
                        let j3 = spec_skip_ws(s, j2 + 1);
                        if j3 <= j2 || j3 > s.len() {
                            None
                        } else {
                            spec_endpoints_rest(s, j3, acc.push(u))
                        }
                    } else if j2 < s.len() && s[j2] == ']' {
                        Some((acc.push(u), j2 + 1))
                    } else {
                        None
                    }
                }
            },
        }
    }
}

/// A JSON array of endpoint objects at position `i`.
pub open spec fn spec_parse_endpoints(s: Seq<char>, i: int) -> Option<(Seq<Seq<char>>, int)> {
    if 0 <= i < s.len() && s[i] == '[' {
        let j = spec_skip_ws(s, i + 1);
        if j < s.len() && s[j] == ']' {
            Some((Seq::empty(), j + 1))
        } else {
            spec_endpoints_rest(s, j, Seq::empty())
        }
    } else {
        None
    }
}

/// One `Report-To` member value at position `i`, dispatched on the member
/// name.  A recognized name seen twice rejects the header; an
/// unrecognized member is skipped, whatever value it carries.
pub open spec fn spec_rt_field(s: Seq<char>, i: int, acc: RtAcc, key: Seq<char>) -> Option<
    (RtAcc, int),
> {
    if key == "group"@ {
        if acc.group is Some {
            None
        } else {
            match spec_parse_string(s, i) {
                None => None,
                Some((v, j)) => Some((RtAcc { group: Some(v), ..acc }, j)),
            }
        }
    } else if key == "max_age"@ {
        if acc.max_age is Some {
            None
        } else {
            match spec_parse_u64(s, i) {
                None => None,
                Some((v, j)) => Some((RtAcc { max_age: Some(v), ..acc }, j)),
            }
        }
    } else if key == "endpoints"@ {
        if acc.endpoints is Some {
            None
        } else {
            match spec_parse_endpoints(s, i) {
                None => None,
                Some((v, j)) => Some((RtAcc { endpoints: Some(v), ..acc }, j)),
            }
        }
    } else {
        match spec_skip_value(s, i) {
            None => None,
            Some(j) => Some((acc, j)),
        }
    }
}

/// The members of a `Report-To` header object from position `i`, and the
/// position after the closing brace.
pub open spec fn spec_rt_members(s: Seq<char>, i: int, acc: RtAcc) -> Option<(RtAcc, int)>
    decreases s.len() - i,
{
    if i < 0 || i >= s.len() {
        None
    } else if s[i] == '}' {
        Some((acc, i + 1))
    } else {
        match spec_parse_string(s, i) {
            None => None,
            Some((key, j1)) => {
                if j1 <= i {
                    None
                } else {
                    let j2 = spec_skip_ws(s, j1);
                    if j2 < j1 {
                        None
                    } else if j2 < s.len() && s[j2] == ':' {
                        let j3 = spec_skip_ws(s, j2 + 1);
                        if j3 <= j2 {
                            None
                        } else {
                            match spec_rt_field(s, j3, acc, key) {
                                None => None,
                                Some((acc2, j4)) => {
                                    if j4 <= j3 {
                                        None
                                    } else {
                                        let j5 = spec_skip_ws(s, j4);
                                        if j5 < j4 {
                                            None
                                        } else if j5 < s.len() && s[j5] == ',' {
                                            let j6 = spec_skip_ws(s, j5 + 1);
                                            if j6 <= j5 || j6 > s.len() {
                                                None
                                            } else {
                                                spec_rt_members(s, j6, acc2)
                                            }
                                        } else if j5 < s.len() && s[j5] == '}' {
                                            Some((acc2, j5 + 1))
                                        } else {
                                            None
                                        }
                                    }
                                },
                            }
                        }
                    } else {
                        None
                    }
                }
            },
        }
    }
}

/// A complete `Report-To` header value: one object with the required
/// members `group`, `max_age` and `endpoints`, and nothing but whitespace
/// around it.
pub open spec fn spec_parse_report_to(s: Seq<char>) -> Option<ReportToSpec> {
    let i0 = spec_skip_ws(s, 0);
    if 0 <= i0 < s.len() && s[i0] == '{' {
        let i1 = spec_skip_ws(s, i0 + 1);
        if i1 <= i0 || i1 > s.len() {
            None
        } else {
            match spec_rt_members(s, i1, rt_acc0()) {
                None => None,
                Some((acc, j)) => {
                    if 0 <= j <= s.len() && spec_skip_ws(s, j) == s.len() {
                        match acc.group {
                            None => None,
                            Some(g) => match acc.max_age {
                                None => None,
                                Some(ma) => match acc.endpoints {
                                    None => None,
                                    Some(eps) => Some(
                                        ReportToSpec { group: g, max_age: ma, endpoints: eps },
                                    ),
                                },
                            },
                        }
                    } else {
                        None
                    }
                },
            }
        }
    } else {
        None
    }
}

/// The character sequences of a sequence of strings.
pub open spec fn strs_view(v: Seq<String>) -> Seq<Seq<char>> {
    v.map_values(|x: String| x@)
}

/// The character sequence of an optional string.
pub open spec fn opt_str_view(v: Option<String>) -> Option<Seq<char>> {
    match v {
        None => None,
        Some(x) => Some(x@),
    }
}

/// The plain-value form of a parsed `Report-To` header.
pub struct ReportToHeaderData {
    pub group: String,
    pub max_age: u64,
    pub endpoints: Vec<String>,
}

struct RtAccData {
    group: Option<String>,
    max_age: Option<u64>,
    endpoints: Option<Vec<String>>,
}

spec fn rt_acc_view(a: RtAccData) -> RtAcc {
    RtAcc {
        group: match a.group {
            None => None,
            Some(v) => Some(v@),
        },
        max_age: match a.max_age {
            None => None,
            Some(v) => Some(v as int),
        },
        endpoints: match a.endpoints {
            None => None,
            Some(v) => Some(strs_view(v@)),
        },
    }
}

fn ep_members(s: &Vec<char>, i: usize, url: Option<String>) -> (r: Option<
    (Option<String>, usize),
>)
    requires
        i <= s@.len(),
    ensures
        match r {
            Some((u2, j)) => spec_ep_members(s@, i as int, opt_str_view(url)) == Some(
                (opt_str_view(u2), j as int),
            ) && i < j <= s@.len(),
            None => spec_ep_members(s@, i as int, opt_str_view(url)) is None,
        },
    decreases s@.len() - i,
{
    let n = s.len();
    if i >= n {
        return None;
    }
    if s[i] == '}' {
        return Some((url, i + 1));
    }
    let (key, j1) = match parse_string(s, i) {
        None => {
            return None;
        },
        Some(kv) => kv,
    };
    let j2 = skip_ws(s, j1);
    if !(j2 < n && s[j2] == ':') {
        return None;
    }
    let j3 = skip_ws(s, j2 + 1);
    let stepped: Option<(Option<String>, usize)> = if chars_eq_str(&key, "url") {
        if url.is_some() {
            None
        } else {
            match parse_string(s, j3) {
                None => None,
                Some((v, j4)) => Some((Some(chars_to_string(&v)), j4)),
            }
        }
    } else {
        match skip_value(s, j3) {
            None => None,
            Some(j4) => Some((url, j4)),
        }
    };
    let (url2, j4) = match stepped {
        None => {
            return None;
        },
        Some(x) => x,
    };
    let j5 = skip_ws(s, j4);
    if j5 < n && s[j5] == ',' {
        let j6 = skip_ws(s, j5 + 1);
        return ep_members(s, j6, url2);
    }
    if j5 < n && s[j5] == '}' {
        return Some((url2, j5 + 1));
    }
    None
}

fn endpoint_obj(s: &Vec<char>, i: usize) -> (r: Option<(String, usize)>)
    requires
        i <= s@.len(),
    ensures
        match r {
            Some((u, j)) => spec_endpoint_obj(s@, i as int) == Some((u@, j as int)) && i < j
                <= s@.len(),
            None => spec_endpoint_obj(s@, i as int) is None,
        },
{
    if !(i < s.len() && s[i] == '{') {
        return None;
    }
    let j1 = skip_ws(s, i + 1);
    let (url, j) = match ep_members(s, j1, None) {
        None => {
            return None;
        },
        Some(x) => x,
    };
    match url {
        None => None,
        Some(u) => Some((u, j)),
    }
}

fn endpoints_rest(s: &Vec<char>, i: usize, acc: Vec<String>) -> (r: Option<(Vec<String>, usize)>)
    requires
        i <= s@.len(),
    ensures
        match r {
            Some((v, j)) => spec_endpoints_rest(s@, i as int, strs_view(acc@)) == Some(
                (strs_view(v@), j as int),
            ) && i < j <= s@.len(),
            None => spec_endpoints_rest(s@, i as int, strs_view(acc@)) is None,
        },
    decreases s@.len() - i,
{
    let (u, j) = match endpoint_obj(s, i) {
        None => {
            return None;
        },
        Some(x) => x,
    };
    let j2 = skip_ws(s, j);
    if j2 < s.len() && s[j2] == ',' {
        let j3 = skip_ws(s, j2 + 1);
        let ghost accv = acc@;
        let ghost uv = u@;
        let mut acc2 = acc;
        acc2.push(u);
        proof {
            assert(strs_view(acc2@) =~= strs_view(accv).push(uv));
        }
        return endpoints_rest(s, j3, acc2);
    }
    if j2 < s.len() && s[j2] == ']' {
        let ghost accv = acc@;
        let ghost uv = u@;
        let mut acc2 = acc;
        acc2.push(u);
        proof {
            assert(strs_view(acc2@) =~= strs_view(accv).push(uv));
        }
        return Some((acc2, j2 + 1));
    }
    None
}

fn parse_endpoints(s: &Vec<char>, i: usize) -> (r: Option<(Vec<String>, usize)>)
    requires
        i <= s@.len(),
    ensures
        match r {
            Some((v, j)) => spec_parse_endpoints(s@, i as int) == Some((strs_view(v@), j as int))
                && i < j <= s@.len(),
            None => spec_parse_endpoints(s@, i as int) is None,
        },
{
    if !(i < s.len() && s[i] == '[') {
        return None;
    }
    let j = skip_ws(s, i + 1);
    if j < s.len() && s[j] == ']' {
        let v: Vec<String> = Vec::new();
        proof {
            assert(strs_view(v@) =~= Seq::<Seq<char>>::empty());
        }
        return Some((v, j + 1));
    }
    let e: Vec<String> = Vec::new();
    proof {
        assert(strs_view(e@) =~= Seq::<Seq<char>>::empty());
    }
    endpoints_rest(s, j, e)
}

fn rt_members(s: &Vec<char>, i: usize, acc: RtAccData) -> (r: Option<(RtAccData, usize)>)
    requires
        i <= s@.len(),
    ensures
        match r {
            Some((a2, j)) => spec_rt_members(s@, i as int, rt_acc_view(acc)) == Some(
                (rt_acc_view(a2), j as int),
            ) && j <= s@.len(),
            None => spec_rt_members(s@, i as int, rt_acc_view(acc)) is None,
        },
    decreases s@.len() - i,
{
    if i >= s.len() {
        return None;
    }
    if s[i] == '}' {
        return Some((acc, i + 1));
    }
    let (key, j1) = match parse_string(s, i) {
        None => {
            return None;
        },
        Some(kv) => kv,
    };
    let j2 = skip_ws(s, j1);
    if !(j2 < s.len() && s[j2] == ':') {
        return None;
    }
    let j3 = skip_ws(s, j2 + 1);
    let stepped: Option<(RtAccData, usize)> = if chars_eq_str(&key, "group") {
        if acc.group.is_some() {
            None
        } else {
            match parse_string(s, j3) {
                None => None,
                Some((v, j4)) => Some((RtAccData { group: Some(chars_to_string(&v)), ..acc }, j4)),
            }
        }
    } else if chars_eq_str(&key, "max_age") {
        if acc.max_age.is_some() {
            None
        } else {
            match parse_u64(s, j3) {
                None => None,
                Some((v, j4)) => Some((RtAccData { max_age: Some(v), ..acc }, j4)),
            }
        }
    } else if chars_eq_str(&key, "endpoints") {
        if acc.endpoints.is_some() {
            None
        } else {
            match parse_endpoints(s, j3) {
                None => None,
                Some((v, j4)) => Some((RtAccData { endpoints: Some(v), ..acc }, j4)),
            }
        }
    } else {
        match skip_value(s, j3) {
            None => None,
            Some(j4) => Some((acc, j4)),
        }
    };
    let (acc2, j4) = match stepped {
        None => {
            return None;
        },
        Some(x) => x,
    };
    let j5 = skip_ws(s, j4);
    if j5 < s.len() && s[j5] == ',' {
        let j6 = skip_ws(s, j5 + 1);
        return rt_members(s, j6, acc2);
    }
    if j5 < s.len() && s[j5] == '}' {
        return Some((acc2, j5 + 1));
    }
    None
}

/// Parses a complete `Report-To` header value.
pub fn parse_report_to(s: &Vec<char>) -> (r: Option<ReportToHeaderData>)
    ensures
        match r {
            Some(d) => spec_parse_report_to(s@) == Some(
                ReportToSpec {
                    group: d.group@,
                    max_age: d.max_age as int,
                    endpoints: strs_view(d.endpoints@),
                },
            ),
            None => spec_parse_report_to(s@) is None,
        },
{
    let i0 = skip_ws(s, 0);
    if !(i0 < s.len() && s[i0] == '{') {
        return None;
    }
    let i1 = skip_ws(s, i0 + 1);
    let acc0 = RtAccData { group: None, max_age: None, endpoints: None };
    let (acc, j) = match rt_members(s, i1, acc0) {
        None => {
            return None;
        },
        Some(x) => x,
    };
    if skip_ws(s, j) != s.len() {
        return None;
    }
    let g = match acc.group {
        None => {
            return None;
        },
        Some(v) => v,
    };
    let ma = match acc.max_age {
        None => {
            return None;
        },
        Some(v) => v,
    };
    let eps = match acc.endpoints {
        None => {
            return None;
        },
        Some(v) => v,
    };
    Some(ReportToHeaderData { group: g, max_age: ma, endpoints: eps })
}

} // verus!
