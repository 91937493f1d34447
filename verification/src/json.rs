use vstd::prelude::*;

verus! {

/// JSON insignificant whitespace.
pub open spec fn is_ws(c: char) -> bool {
    c == ' ' || c == '\t' || c == '\n' || c == '\r'
}

/// The first position at or after `i` holding a non-whitespace character,
/// or the end of the input.
pub open spec fn spec_skip_ws(s: Seq<char>, i: int) -> int
    decreases s.len() - i,
{
    if 0 <= i < s.len() && is_ws(s[i]) {
        spec_skip_ws(s, i + 1)
    } else {
        i
    }
}

pub fn skip_ws(s: &Vec<char>, i: usize) -> (r: usize)
    requires
        i <= s@.len(),
    ensures
        r == spec_skip_ws(s@, i as int),
        i <= r <= s@.len(),
{
    let n = s.len();
    let mut j: usize = i;
    while j < n && (s[j] == ' ' || s[j] == '\t' || s[j] == '\n' || s[j] == '\r')
        invariant
            n == s@.len(),
            i <= j <= n,
            spec_skip_ws(s@, i as int) == spec_skip_ws(s@, j as int),
        decreases n - j,
    {
        j = j + 1;
    }
    j
}

/// What a backslash escape in a JSON string stands for; `None` for an
/// escape this parser does not accept.
pub open spec fn spec_unescape(c: char) -> Option<char> {
    if c == '"' {
        Some('"')
    } else if c == '\\' {
        Some('\\')
    } else if c == '/' {
        Some('/')
    } else if c == 'b' {
        Some((8u8) as char)
    } else if c == 'f' {
        Some((12u8) as char)
    } else if c == 'n' {
        Some('\n')
    } else if c == 'r' {
        Some('\r')
    } else if c == 't' {
        Some('\t')
    } else {
        None
    }
}

/// The body of a JSON string from position `i` (just after the opening
/// quote): the decoded content and the position after the closing quote.
pub open spec fn spec_string_body(s: Seq<char>, i: int) -> Option<(Seq<char>, int)>
    decreases s.len() - i,
{
    if i < 0 || i >= s.len() {
        None
    } else if s[i] == '"' {
        Some((Seq::empty(), i + 1))
    } else if s[i] == '\\' {
        if i + 1 >= s.len() {
            None
        } else {
            match spec_unescape(s[i + 1]) {
                None => None,
                Some(c) => match spec_string_body(s, i + 2) {
                    None => None,
                    Some((t, j)) => Some((seq![c] + t, j)),
                },
            }
        }
    } else if (s[i] as u32) < 32 {
        None
    } else {
        match spec_string_body(s, i + 1) {
            None => None,
            Some((t, j)) => Some((seq![s[i]] + t, j)),
        }
    }
}

/// A JSON string at position `i` (at the opening quote).
pub open spec fn spec_parse_string(s: Seq<char>, i: int) -> Option<(Seq<char>, int)> {
    if 0 <= i < s.len() && s[i] == '"' {
        spec_string_body(s, i + 1)
    } else {
        None
    }
}

fn string_body(s: &Vec<char>, i: usize) -> (r: Option<(Vec<char>, usize)>)
    requires
        i <= s@.len(),
    ensures
        match r {
            Some((t, j)) => spec_string_body(s@, i as int) == Some((t@, j as int)) && i < j
                <= s@.len(),
            None => spec_string_body(s@, i as int) is None,
        },
    decreases s@.len() - i,
{
    if i >= s.len() {
        return None;
    }
    let c = s[i];
    if c == '"' {
        let t: Vec<char> = Vec::new();
        proof {
            assert(t@ =~= Seq::<char>::empty());
        }
        return Some((t, i + 1));
    }
    if c == '\\' {
        if s.len() - i <= 1 {
            return None;
        }
        let e = s[i + 1];
        let dec: Option<char> = if e == '"' {
            Some('"')
        } else if e == '\\' {
            Some('\\')
        } else if e == '/' {
            Some('/')
        } else if e == 'b' {
            Some((8u8) as char)
        } else if e == 'f' {
            Some((12u8) as char)
        } else if e == 'n' {
            Some('\n')
        } else if e == 'r' {
            Some('\r')
        } else if e == 't' {
            Some('\t')
        } else {
            None
        };
        match dec {
            None => {
                return None;
            },
            Some(d) => {
                match string_body(s, i + 2) {
                    None => {
                        return None;
                    },
                    Some((mut t, j)) => {
                        let ghost before = t@;
                        t.insert(0, d);
                        proof {
                            assert(t@ =~= seq![d] + before);
                        }
                        return Some((t, j));
                    },
                }
            },
        }
    }
    if (c as u32) < 32 {
        return None;
    }
    match string_body(s, i + 1) {
        None => None,
        Some((mut t, j)) => {
            let ghost before = t@;
            t.insert(0, c);
            proof {
                assert(t@ =~= seq![c] + before);
            }
            Some((t, j))
        },
    }
}

pub fn parse_string(s: &Vec<char>, i: usize) -> (r: Option<(Vec<char>, usize)>)
    requires
        i <= s@.len(),
    ensures
        match r {
            Some((t, j)) => spec_parse_string(s@, i as int) == Some((t@, j as int)) && i < j
                <= s@.len(),
            None => spec_parse_string(s@, i as int) is None,
        },
{
    if i < s.len() && s[i] == '"' {
        string_body(s, i + 1)
    } else {
        None
    }
}

/// Whether `c` is a decimal digit.
pub open spec fn is_digit(c: char) -> bool {
    48 <= c as u32 && c as u32 <= 57
}

/// The first position at or after `i` holding a non-digit.
pub open spec fn spec_digits_end(s: Seq<char>, i: int) -> int
    decreases s.len() - i,
{
    if 0 <= i < s.len() && is_digit(s[i]) {
        spec_digits_end(s, i + 1)
    } else {
        i
    }
}

/// The value of the digit run `s[i..j)`.
pub open spec fn spec_digits_val(s: Seq<char>, i: int, j: int) -> int
    decreases j - i,
{
    if i >= j {
        0
    } else {
        spec_digits_val(s, i, j - 1) * 10 + (s[j - 1] as u32 - 48)
    }
}

/// An unsigned decimal integer at position `i`: at least one digit, no
/// leading zero, value within `u64`.  Yields the value and the position
/// after the digits.
pub open spec fn spec_parse_u64(s: Seq<char>, i: int) -> Option<(int, int)> {
    let j = spec_digits_end(s, i);
    if j == i {
        None
    } else if s[i] == '0' && j > i + 1 {
        None
    } else if spec_digits_val(s, i, j) > 0xffff_ffff_ffff_ffff {
        None
    } else {
        Some((spec_digits_val(s, i, j), j))
    }
}

proof fn lemma_digits_end_bounds(s: Seq<char>, i: int)
    requires
        0 <= i <= s.len(),
    ensures
        i <= spec_digits_end(s, i) <= s.len(),
        forall|k: int| i <= k < spec_digits_end(s, i) ==> is_digit(s[k]),
    decreases s.len() - i,
{
    if i < s.len() && is_digit(s[i]) {
        lemma_digits_end_bounds(s, i + 1);
    }
}

proof fn lemma_digits_val_nonneg(s: Seq<char>, i: int, j: int)
    requires
        forall|k: int| i <= k < j ==> is_digit(s[k]),
        0 <= i,
        j <= s.len(),
    ensures
        spec_digits_val(s, i, j) >= 0,
    decreases j - i,
{
    if i < j {
        lemma_digits_val_nonneg(s, i, j - 1);
    }
}

proof fn lemma_digits_val_grows(s: Seq<char>, i: int, k: int, j: int)
    requires
        0 <= i <= k <= j <= s.len(),
        forall|m: int| i <= m < j ==> is_digit(s[m]),
    ensures
        spec_digits_val(s, i, j) >= spec_digits_val(s, i, k),
    decreases j - k,
{
    if k < j {
        lemma_digits_val_grows(s, i, k, j - 1);
        lemma_digits_val_nonneg(s, i, j - 1);
    }
}

pub fn parse_u64(s: &Vec<char>, i: usize) -> (r: Option<(u64, usize)>)
    requires
        i <= s@.len(),
    ensures
        match r {
            Some((v, j)) => spec_parse_u64(s@, i as int) == Some((v as int, j as int)) && i < j
                <= s@.len(),
            None => spec_parse_u64(s@, i as int) is None,
        },
{
    let n = s.len();
    proof {
        lemma_digits_end_bounds(s@, i as int);
    }
    // Find the end of the digit run.
    let mut j: usize = i;
    while j < n && 48 <= s[j] as u32 && s[j] as u32 <= 57
        invariant
            n == s@.len(),
            i <= j <= n,
            spec_digits_end(s@, i as int) == spec_digits_end(s@, j as int),
            forall|k: int| i <= k < j ==> is_digit(s@[k]),
        decreases n - j,
    {
        j = j + 1;
    }
    proof {
        assert(spec_digits_end(s@, j as int) == j);
    }
    if j == i {
        return None;
    }
    if s[i] == '0' && j > i + 1 {
        return None;
    }
    // Accumulate the value, rejecting overflow.
    let mut v: u64 = 0;
    let mut k: usize = i;
    while k < j
        invariant
            n == s@.len(),
            i <= k <= j <= n,
            i < j,
            spec_digits_end(s@, i as int) == j,
            !(s@[i as int] == '0' && j > i + 1),
            forall|m: int| i <= m < j ==> is_digit(s@[m]),
            v as int == spec_digits_val(s@, i as int, k as int),
        decreases j - k,
    {
        let d: u64 = (s[k] as u32 as u64) - 48;
        if v > (0xffff_ffff_ffff_ffffu64 - d) / 10 {
            proof {
                let m: int = 0xffff_ffff_ffff_ffff;
                assert((m - d) / 10 * 10 + (m - d) % 10 == m - d);
                assert(v * 10 + d > m);
                assert(spec_digits_val(s@, i as int, k + 1) == v * 10 + d);
                lemma_digits_val_grows(s@, i as int, k + 1, j as int);
            }
            return None;
        }
        proof {
            let m: int = 0xffff_ffff_ffff_ffff;
            assert((m - d) / 10 * 10 + (m - d) % 10 == m - d);
            assert(v * 10 + d <= m);
        }
        v = v * 10 + d;
        k = k + 1;
    }
    Some((v, j))
}

/// `true` or `false` at position `i`.
pub open spec fn spec_parse_bool(s: Seq<char>, i: int) -> Option<(bool, int)> {
    if 0 <= i && i + 4 <= s.len() && s.subrange(i, i + 4) == "true"@ {
        Some((true, i + 4))
    } else if 0 <= i && i + 5 <= s.len() && s.subrange(i, i + 5) == "false"@ {
        Some((false, i + 5))
    } else {
        None
    }
}

pub fn parse_bool(s: &Vec<char>, i: usize) -> (r: Option<(bool, usize)>)
    requires
        i <= s@.len(),
    ensures
        match r {
            Some((v, j)) => spec_parse_bool(s@, i as int) == Some((v, j as int)) && i < j
                <= s@.len(),
            None => spec_parse_bool(s@, i as int) is None,
        },
{
    proof {
        reveal_strlit("true");
        reveal_strlit("false");
    }
    let n = s.len();
    if n - i >= 4 && s[i] == 't' && s[i + 1] == 'r' && s[i + 2] == 'u' && s[i + 3] == 'e' {
        proof {
            assert(s@.subrange(i as int, i + 4) =~= "true"@);
        }
        return Some((true, i + 4));
    }
    if n - i >= 5 && s[i] == 'f' && s[i + 1] == 'a' && s[i + 2] == 'l' && s[i + 3] == 's' && s[i
        + 4] == 'e' {
        proof {
            assert(s@.subrange(i as int, i + 4)[0] == s@[i as int]);
            assert("true"@[0] == 't');
            assert(s@.subrange(i as int, i + 5) =~= "false"@);
        }
        return Some((false, i + 5));
    }
    proof {
        if i + 4 <= s@.len() && s@.subrange(i as int, i + 4) == "true"@ {
            assert(s@[i as int] == s@.subrange(i as int, i + 4)[0]);
            assert(s@[i + 1] == s@.subrange(i as int, i + 4)[1]);
            assert(s@[i + 2] == s@.subrange(i as int, i + 4)[2]);
            assert(s@[i + 3] == s@.subrange(i as int, i + 4)[3]);
            assert(false);
        }
        if i + 5 <= s@.len() && s@.subrange(i as int, i + 5) == "false"@ {
            assert(s@[i as int] == s@.subrange(i as int, i + 5)[0]);
            assert(s@[i + 1] == s@.subrange(i as int, i + 5)[1]);
            assert(s@[i + 2] == s@.subrange(i as int, i + 5)[2]);
            assert(s@[i + 3] == s@.subrange(i as int, i + 5)[3]);
            assert(s@[i + 4] == s@.subrange(i as int, i + 5)[4]);
            assert(false);
        }
    }
    None
}

/// The value of a run of fractional digits in parts per million: the
/// first six digits carry weight, later digits are truncated away.
pub open spec fn spec_frac_ppm(ds: Seq<char>, pow: int) -> int
    decreases ds.len(),
{
    if ds.len() == 0 || pow == 0 {
        0
    } else {
        (ds[0] as u32 - 48) * pow + spec_frac_ppm(ds.drop_first(), pow / 10)
    }
}

/// A sampling fraction at position `i`: an integer part with an optional
/// decimal part, valued in parts per million, accepted only within
/// `[0, 1]`.  Yields the value and the position after the number.
pub open spec fn spec_parse_fraction(s: Seq<char>, i: int) -> Option<(int, int)> {
    let j = spec_digits_end(s, i);
    if j == i {
        None
    } else if s[i] == '0' && j > i + 1 {
        None
    } else {
        let ip = spec_digits_val(s, i, j);
        if j < s.len() && s[j] == '.' {
            let k = spec_digits_end(s, j + 1);
            if k == j + 1 {
                None
            } else {
                let ppm = ip * 1000000 + spec_frac_ppm(s.subrange(j + 1, k), 100000);
                if ppm > 1000000 {
                    None
                } else {
                    Some((ppm, k))
                }
            }
        } else {
            if ip > 1 {
                None
            } else {
                Some((ip * 1000000, j))
            }
        }
    }
}

pub open spec fn is_frac_pow(pow: int) -> bool {
    pow == 100000 || pow == 10000 || pow == 1000 || pow == 100 || pow == 10 || pow == 1 || pow
        == 0
}

proof fn lemma_frac_ppm_bounds(ds: Seq<char>, pow: int)
    requires
        forall|k: int| 0 <= k < ds.len() ==> is_digit(ds[k]),
        is_frac_pow(pow),
    ensures
        0 <= spec_frac_ppm(ds, pow),
        pow == 0 ==> spec_frac_ppm(ds, pow) == 0,
        pow >= 1 ==> spec_frac_ppm(ds, pow) <= 10 * pow - 1,
    decreases ds.len(),
{
    if ds.len() == 0 || pow == 0 {
    } else {
        lemma_frac_ppm_bounds(ds.drop_first(), pow / 10);
        assert(ds[0] as u32 - 48 <= 9);
        assert((ds[0] as u32 - 48) * pow <= 9 * pow) by (nonlinear_arith)
            requires
                0 <= pow,
                0 <= ds[0] as u32 - 48 <= 9,
        ;
        assert((ds[0] as u32 - 48) * pow >= 0) by (nonlinear_arith)
            requires
                0 <= pow,
                0 <= ds[0] as u32 - 48,
        ;
    }
}

fn frac_ppm_exec(s: &Vec<char>, i: usize, j: usize) -> (r: u32)
    requires
        i <= j <= s@.len(),
        forall|k: int| i <= k < j ==> is_digit(s@[k]),
    ensures
        r as int == spec_frac_ppm(s@.subrange(i as int, j as int), 100000),
        r <= 999999,
{
    let mut acc: u32 = 0;
    let mut pow: u32 = 100000;
    let mut k: usize = i;
    proof {
        lemma_frac_ppm_bounds(s@.subrange(i as int, j as int), 100000);
    }
    while k < j && pow > 0
        invariant
            i <= k <= j <= s@.len(),
            forall|m: int| i <= m < j ==> is_digit(s@[m]),
            is_frac_pow(pow as int),
            acc <= 999999,
            acc + spec_frac_ppm(s@.subrange(k as int, j as int), pow as int) == spec_frac_ppm(
                s@.subrange(i as int, j as int),
                100000,
            ),
            acc + 10 * pow <= 1000000 || pow == 100000 && acc == 0,
        decreases j - k,
    {
        let d: u32 = s[k] as u32 - 48;
        proof {
            assert(s@.subrange(k as int, j as int).drop_first() =~= s@.subrange(
                k + 1,
                j as int,
            ));
            lemma_frac_ppm_bounds(s@.subrange(k + 1, j as int), pow as int / 10);
        }
        acc = acc + d * pow;
        pow = pow / 10;
        k = k + 1;
    }
    proof {
        if k >= j {
            assert(s@.subrange(k as int, j as int).len() == 0);
        }
    }
    acc
}

pub fn parse_fraction(s: &Vec<char>, i: usize) -> (r: Option<(u32, usize)>)
    requires
        i <= s@.len(),
    ensures
        match r {
            Some((v, j)) => spec_parse_fraction(s@, i as int) == Some((v as int, j as int)) && i
                < j <= s@.len() && v <= 1000000,
            None => spec_parse_fraction(s@, i as int) is None,
        },
{
    let n = s.len();
    proof {
        lemma_digits_end_bounds(s@, i as int);
    }
    let mut j: usize = i;
    while j < n && 48 <= s[j] as u32 && s[j] as u32 <= 57
        invariant
            n == s@.len(),
            i <= j <= n,
            spec_digits_end(s@, i as int) == spec_digits_end(s@, j as int),
            forall|k: int| i <= k < j ==> is_digit(s@[k]),
        decreases n - j,
    {
        j = j + 1;
    }
    proof {
        assert(spec_digits_end(s@, j as int) == j);
    }
    if j == i {
        return None;
    }
    if s[i] == '0' && j > i + 1 {
        return None;
    }
    // The integer part only matters up to 2: anything larger is out of
    // range whatever follows.
    let mut ip_big: bool = false;
    let mut ip: u32 = 0;
    let mut k: usize = i;
    while k < j
        invariant
            n == s@.len(),
            i <= k <= j <= n,
            forall|m: int| i <= m < j ==> is_digit(s@[m]),
            ip_big ==> spec_digits_val(s@, i as int, k as int) > 1,
            !ip_big ==> ip as int == spec_digits_val(s@, i as int, k as int) && ip <= 1,
        decreases j - k,
    {
        let d: u32 = s[k] as u32 - 48;
        if ip_big || ip >= 1 || d > 1 {
            proof {
                lemma_digits_val_nonneg(s@, i as int, k as int);
            }
            ip_big = true;
        } else {
            ip = ip * 10 + d;
        }
        k = k + 1;
    }
    if j < n && s[j] == '.' {
        proof {
            lemma_digits_end_bounds(s@, j + 1);
        }
        let mut kk: usize = j + 1;
        while kk < n && 48 <= s[kk] as u32 && s[kk] as u32 <= 57
            invariant
                n == s@.len(),
                j + 1 <= kk <= n,
                spec_digits_end(s@, j + 1) == spec_digits_end(s@, kk as int),
                forall|m: int| j + 1 <= m < kk ==> is_digit(s@[m]),
            decreases n - kk,
        {
            kk = kk + 1;
        }
        proof {
            assert(spec_digits_end(s@, kk as int) == kk);
        }
        if kk == j + 1 {
            return None;
        }
        let fr = frac_ppm_exec(s, j + 1, kk);
        proof {
            lemma_frac_ppm_bounds(s@.subrange(j + 1, kk as int), 100000);
        }
        if ip_big {
            proof {
                assert(spec_digits_val(s@, i as int, j as int) * 1000000 + spec_frac_ppm(
                    s@.subrange(j + 1, kk as int),
                    100000,
                ) > 1000000) by (nonlinear_arith)
                    requires
                        spec_digits_val(s@, i as int, j as int) > 1,
                        spec_frac_ppm(s@.subrange(j + 1, kk as int), 100000) >= 0,
                ;
            }
            return None;
        }
        let ppm: u32 = ip * 1000000 + fr;
        if ppm > 1000000 {
            return None;
        }
        return Some((ppm, kk));
    }
    if ip_big {
        return None;
    }
    Some((ip * 1000000, j))
}


/// Whether `c` is a hexadecimal digit.
pub open spec fn is_hex_digit(c: char) -> bool {
    48 <= c as u32 && c as u32 <= 57 || 97 <= c as u32 && c as u32 <= 102 || 65 <= c as u32
        && c as u32 <= 70
}

/// The body of a JSON string from position `i` (just after the opening
/// quote), scanned without decoding it: the position after the closing
/// quote.  All JSON escapes are accepted here, `\uXXXX` included.
pub open spec fn spec_skip_string_body(s: Seq<char>, i: int) -> Option<int>
    decreases s.len() - i,
{
    if i < 0 || i >= s.len() {
        None
    } else if s[i] == '"' {
        Some(i + 1)
    } else if s[i] == '\\' {
        if i + 1 >= s.len() {
            None
        } else if s[i + 1] == 'u' {
            if i + 6 <= s.len() && is_hex_digit(s[i + 2]) && is_hex_digit(s[i + 3])
                && is_hex_digit(s[i + 4]) && is_hex_digit(s[i + 5]) {
                spec_skip_string_body(s, i + 6)
            } else {
                None
            }
        } else if spec_unescape(s[i + 1]) is Some {
            spec_skip_string_body(s, i + 2)
        } else {
            None
        }
    } else if (s[i] as u32) < 32 {
        None
    } else {
        spec_skip_string_body(s, i + 1)
    }
}

/// A JSON string at position `i`, scanned without decoding it.
pub open spec fn spec_skip_string(s: Seq<char>, i: int) -> Option<int> {
    if 0 <= i < s.len() && s[i] == '"' {
        spec_skip_string_body(s, i + 1)
    } else {
        None
    }
}

/// `null` at position `i`.
pub open spec fn spec_skip_null(s: Seq<char>, i: int) -> Option<int> {
    if 0 <= i && i + 4 <= s.len() && s.subrange(i, i + 4) == "null"@ {
        Some(i + 4)
    } else {
        None
    }
}

/// The optional decimal part of a skipped number at position `j`.
pub open spec fn spec_skip_frac(s: Seq<char>, j: int) -> Option<int> {
    if 0 <= j < s.len() && s[j] == '.' {
        let k = spec_digits_end(s, j + 1);
        if k == j + 1 {
            None
        } else {
            Some(k)
        }
    } else {
        Some(j)
    }
}

/// The optional exponent of a skipped number at position `k`.
pub open spec fn spec_skip_exp(s: Seq<char>, k: int) -> Option<int> {
    if 0 <= k < s.len() && (s[k] == 'e' || s[k] == 'E') {
        let es = if k + 1 < s.len() && (s[k + 1] == '+' || s[k + 1] == '-') {
            k + 2
        } else {
            k + 1
        };
        let e2 = spec_digits_end(s, es);
        if e2 == es {
            None
        } else {
            Some(e2)
        }
    } else {
        Some(k)
    }
}

/// A JSON number at position `i`, skipped without interpreting it:
/// optional minus, integer part without leading zeros, optional decimal
/// part, optional exponent.
pub open spec fn spec_skip_number(s: Seq<char>, i: int) -> Option<int> {
    if i < 0 {
        None
    } else {
        let st = if i < s.len() && s[i] == '-' {
            i + 1
        } else {
            i
        };
        let j = spec_digits_end(s, st);
        if j == st {
            None
        } else if s[st] == '0' && j > st + 1 {
            None
        } else {
            match spec_skip_frac(s, j) {
                None => None,
                Some(k) => spec_skip_exp(s, k),
            }
        }
    }
}

/// Any JSON value at position `i`, skipped: the position after it.
pub open spec fn spec_skip_value(s: Seq<char>, i: int) -> Option<int>
    decreases s.len() - i, 1int,
{
    if i < 0 || i >= s.len() {
        None
    } else if s[i] == '"' {
        spec_skip_string(s, i)
    } else if s[i] == 't' || s[i] == 'f' {
        match spec_parse_bool(s, i) {
            None => None,
            Some((v, j)) => Some(j),
        }
    } else if s[i] == 'n' {
        spec_skip_null(s, i)
    } else if s[i] == '{' {
        let j = spec_skip_ws(s, i + 1);
        if j <= i || j > s.len() {
            None
        } else {
            spec_skip_members(s, j)
        }
    } else if s[i] == '[' {
        let j = spec_skip_ws(s, i + 1);
        if j <= i || j > s.len() {
            None
        } else if j < s.len() && s[j] == ']' {
            Some(j + 1)
        } else {
            spec_skip_elements(s, j)
        }
    } else {
        spec_skip_number(s, i)
    }
}

/// The members of a skipped object from position `i` (at a member name
/// or the closing brace): the position after the closing brace.
pub open spec fn spec_skip_members(s: Seq<char>, i: int) -> Option<int>
    decreases s.len() - i, 0int,
{
    if i < 0 || i >= s.len() {
        None
    } else if s[i] == '}' {
        Some(i + 1)
    } else {
        match spec_skip_string(s, i) {
            None => None,
            Some(j1) => {
                if j1 <= i {
                    None
                } else {
                    let j2 = spec_skip_ws(s, j1);
                    if j2 < j1 {
                        None
                    } else if j2 < s.len() && s[j2] == ':' {
                        let j3 = spec_skip_ws(s, j2 + 1);
                        if j3 <= j2 || j3 > s.len() {
                            None
                        } else {
                            match spec_skip_value(s, j3) {
                                None => None,
                                Some(j4) => {
                                    if j4 <= j3 {
                                        None
                                    } else {
                                        let j5 = spec_skip_ws(s, j4);
                                        if j5 < j4 {
                                            None
                                        } else if j5 < s.len() && s[j5] == ',' {
                                            let j6 = spec_skip_ws(s, j5 + 1);
                                            if j6 <= j5 || j6 > s.len() {
                                                None
                                            } else {
                                                spec_skip_members(s, j6)
                                            }
                                        } else if j5 < s.len() && s[j5] == '}' {
                                            Some(j5 + 1)
                                        } else {
                                            None
                                        }
                                    }
                                },
                            }
                        }
                    } else {
                        None
                    }
                }
            },
        }
    }
}

/// The elements of a skipped array from position `i` (at an element):
/// the position after the closing bracket.
pub open spec fn spec_skip_elements(s: Seq<char>, i: int) -> Option<int>
    decreases s.len() - i, 2int,
{
    if i < 0 || i > s.len() {
        None
    } else {
        match spec_skip_value(s, i) {
            None => None,
            Some(j) => {
                if j <= i || j > s.len() {
                    None
                } else {
                    let j2 = spec_skip_ws(s, j);
                    if j2 < j {
                        None
                    } else if j2 < s.len() && s[j2] == ',' {
                        let j3 = spec_skip_ws(s, j2 + 1);
                        if j3 <= j2 || j3 > s.len() {
                            None
                        } else {
                            spec_skip_elements(s, j3)
                        }
                    } else if j2 < s.len() && s[j2] == ']' {
                        Some(j2 + 1)
                    } else {
                        None
                    }
                }
            },
        }
    }
}

/// The end of the digit run starting at `i`.
fn digits_end_exec(s: &Vec<char>, i: usize) -> (r: usize)
    requires
        i <= s@.len(),
    ensures
        r == spec_digits_end(s@, i as int),
        i <= r <= s@.len(),
{
    let n = s.len();
    let mut j: usize = i;
    while j < n && 48 <= s[j] as u32 && s[j] as u32 <= 57
        invariant
            n == s@.len(),
            i <= j <= n,
            spec_digits_end(s@, i as int) == spec_digits_end(s@, j as int),
        decreases n - j,
    {
        j = j + 1;
    }
    j
}

fn skip_string_body(s: &Vec<char>, i: usize) -> (r: Option<usize>)
    requires
        i <= s@.len(),
    ensures
        match r {
            Some(j) => spec_skip_string_body(s@, i as int) == Some(j as int) && i < j <= s@.len(),
            None => spec_skip_string_body(s@, i as int) is None,
        },
    decreases s@.len() - i,
{
    let n = s.len();
    if i >= n {
        return None;
    }
    let c = s[i];
    if c == '"' {
        return Some(i + 1);
    }
    if c == '\\' {
        if n - i <= 1 {
            return None;
        }
        let e = s[i + 1];
        if e == 'u' {
            if n - i >= 6 && hex_digit_exec(s[i + 2]) && hex_digit_exec(s[i + 3]) && hex_digit_exec(
                s[i + 4],
            ) && hex_digit_exec(s[i + 5]) {
                return skip_string_body(s, i + 6);
            }
            return None;
        }
        let known = e == '"' || e == '\\' || e == '/' || e == 'b' || e == 'f' || e == 'n' || e
            == 'r' || e == 't';
        if known {
            return skip_string_body(s, i + 2);
        }
        return None;
    }
    if (c as u32) < 32 {
        return None;
    }
    skip_string_body(s, i + 1)
}

fn hex_digit_exec(c: char) -> (r: bool)
    ensures
        r == is_hex_digit(c),
{
    let u = c as u32;
    48 <= u && u <= 57 || 97 <= u && u <= 102 || 65 <= u && u <= 70
}

fn skip_string(s: &Vec<char>, i: usize) -> (r: Option<usize>)
    requires
        i <= s@.len(),
    ensures
        match r {
            Some(j) => spec_skip_string(s@, i as int) == Some(j as int) && i < j <= s@.len(),
            None => spec_skip_string(s@, i as int) is None,
        },
{
    if i < s.len() && s[i] == '"' {
        skip_string_body(s, i + 1)
    } else {
        None
    }
}

fn skip_null(s: &Vec<char>, i: usize) -> (r: Option<usize>)
    requires
        i <= s@.len(),
    ensures
        match r {
            Some(j) => spec_skip_null(s@, i as int) == Some(j as int) && i < j <= s@.len(),
            None => spec_skip_null(s@, i as int) is None,
        },
{
    proof {
        reveal_strlit("null");
    }
    let n = s.len();
    if n - i >= 4 && s[i] == 'n' && s[i + 1] == 'u' && s[i + 2] == 'l' && s[i + 3] == 'l' {
        proof {
            assert(s@.subrange(i as int, i + 4) =~= "null"@);
        }
        return Some((i + 4));
    }
    proof {
        if i + 4 <= s@.len() && s@.subrange(i as int, i + 4) == "null"@ {
            assert(s@[i as int] == s@.subrange(i as int, i + 4)[0]);
            assert(s@[i + 1] == s@.subrange(i as int, i + 4)[1]);
            assert(s@[i + 2] == s@.subrange(i as int, i + 4)[2]);
            assert(s@[i + 3] == s@.subrange(i as int, i + 4)[3]);
            assert(false);
        }
    }
    None
}

fn skip_number(s: &Vec<char>, i: usize) -> (r: Option<usize>)
    requires
        i <= s@.len(),
    ensures
        match r {
            Some(j) => spec_skip_number(s@, i as int) == Some(j as int) && i < j <= s@.len(),
            None => spec_skip_number(s@, i as int) is None,
        },
{
    let n = s.len();
    let st: usize = if i < n && s[i] == '-' {
        i + 1
    } else {
        i
    };
    let j = digits_end_exec(s, st);
    if j == st {
        return None;
    }
    if s[st] == '0' && j > st + 1 {
        return None;
    }
    let k: usize = if j < n && s[j] == '.' {
        let k2 = digits_end_exec(s, j + 1);
        if k2 == j + 1 {
            return None;
        }
        k2
    } else {
        j
    };
    if k < n && (s[k] == 'e' || s[k] == 'E') {
        let es: usize = if k + 1 < n && (s[k + 1] == '+' || s[k + 1] == '-') {
            k + 2
        } else {
            k + 1
        };
        let e2 = digits_end_exec(s, es);
        if e2 == es {
            return None;
        }
        Some(e2)
    } else {
        Some(k)
    }
}

/// Skips one JSON value of any kind.
pub fn skip_value(s: &Vec<char>, i: usize) -> (r: Option<usize>)
    requires
        i <= s@.len(),
    ensures
        match r {
            Some(j) => spec_skip_value(s@, i as int) == Some(j as int) && i < j <= s@.len(),
            None => spec_skip_value(s@, i as int) is None,
        },
    decreases s@.len() - i, 1int,
{
    let n = s.len();
    if i >= n {
        return None;
    }
    let c = s[i];
    if c == '"' {
        return skip_string(s, i);
    }
    if c == 't' || c == 'f' {
        return match parse_bool(s, i) {
            None => None,
            Some((v, j)) => Some(j),
        };
    }
    if c == 'n' {
        return skip_null(s, i);
    }
    if c == '{' {
        let j = skip_ws(s, i + 1);
        return skip_members(s, j);
    }
    if c == '[' {
        let j = skip_ws(s, i + 1);
        if j < n && s[j] == ']' {
            return Some(j + 1);
        }
        return skip_elements(s, j);
    }
    skip_number(s, i)
}

fn skip_members(s: &Vec<char>, i: usize) -> (r: Option<usize>)
    requires
        i <= s@.len(),
    ensures
        match r {
            Some(j) => spec_skip_members(s@, i as int) == Some(j as int) && i < j <= s@.len(),
            None => spec_skip_members(s@, i as int) is None,
        },
    decreases s@.len() - i, 0int,
{
    let n = s.len();
    if i >= n {
        return None;
    }
    if s[i] == '}' {
        return Some(i + 1);
    }
    let j1 = match skip_string(s, i) {
        None => {
            return None;
        },
        Some(j) => j,
    };
    let j2 = skip_ws(s, j1);
    if !(j2 < n && s[j2] == ':') {
        return None;
    }
    let j3 = skip_ws(s, j2 + 1);
    let j4 = match skip_value(s, j3) {
        None => {
            return None;
        },
        Some(j) => j,
    };
    let j5 = skip_ws(s, j4);
    if j5 < n && s[j5] == ',' {
        let j6 = skip_ws(s, j5 + 1);
        return skip_members(s, j6);
    }
    if j5 < n && s[j5] == '}' {
        return Some(j5 + 1);
    }
    None
}

fn skip_elements(s: &Vec<char>, i: usize) -> (r: Option<usize>)
    requires
        i <= s@.len(),
    ensures
        match r {
            Some(j) => spec_skip_elements(s@, i as int) == Some(j as int) && i < j <= s@.len(),
            None => spec_skip_elements(s@, i as int) is None,
        },
    decreases s@.len() - i, 2int,
{
    let n = s.len();
    let j = match skip_value(s, i) {
        None => {
            return None;
        },
        Some(j) => j,
    };
    let j2 = skip_ws(s, j);
    if j2 < n && s[j2] == ',' {
        let j3 = skip_ws(s, j2 + 1);
        return skip_elements(s, j3);
    }
    if j2 < n && s[j2] == ']' {
        return Some(j2 + 1);
    }
    None
}

} // verus!
