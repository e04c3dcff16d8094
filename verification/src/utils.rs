//! Small shared helpers: the short display/key form of an address, duration
//! strings for logs and error messages, RFC3339 rendering of timestamps,
//! and the classification of upstream submission errors by their prose.

use vstd::prelude::*;
use vstd::arithmetic::div_mod::lemma_fundamental_div_mod;
use crate::codec::spec_dec;
use crate::codec::u64_to_dec;
use crate::codec::dec_seq_value;
use crate::codec::is_dec_digit;
use crate::codec::hex_char;
use crate::codec::hex_digit_value;
use crate::codec::all_dec_digits;

verus! {

/// The short form of an address: the address itself when at most 24
/// characters, else the first 10 characters, an ellipsis of three dots,
/// and the last 5.
pub open spec fn spec_short_address(a: Seq<char>) -> Seq<char> {
    if a.len() <= 24 {
        a
    } else {
        a.subrange(0, 10) + seq!['.', '.', '.'] + a.subrange(a.len() - 5, a.len() as int)
    }
}

/// Shorten an address to its display/key form.
pub fn shorten_address(addr: &String) -> (r: String)
    ensures
        r@ == spec_short_address(addr@),
{
    let n = addr.as_str().unicode_len();
    if n <= 24 {
        return addr.clone();
    }
    let start = addr.as_str().substring_char(0, 10);
    let end = addr.as_str().substring_char(n - 5, n);
    let mut out = String::new();
    out.append(start);
    out.append("...");
    out.append(end);
    proof {
        reveal_strlit("...");
        assert(out@ =~= spec_short_address(addr@));
    }
    out
}

/// A duration in seconds written as hours, minutes and seconds: an `h`
/// part when there are hours, an `m` part when there are minutes, and an
/// `s` part when there are seconds or nothing else was written.
pub open spec fn spec_format_duration(n: int) -> Seq<char>
    recommends
        n >= 0,
{
    let h = n / 3600;
    let m = (n % 3600) / 60;
    let s = (n % 3600) % 60;
    (if h > 0 { spec_dec(h) + seq!['h'] } else { Seq::<char>::empty() })
    + (if m > 0 { spec_dec(m) + seq!['m'] } else { Seq::<char>::empty() })
    + (if s > 0 || (h <= 0 && m <= 0) { spec_dec(s) + seq!['s'] } else { Seq::<char>::empty() })
}

/// Write a duration in seconds as an `XhYmZs` string, omitting zero parts
/// but never producing an empty string.
pub fn format_duration(seconds: i32) -> (r: String)
    requires
        seconds >= 0,
    ensures
        r@ == spec_format_duration(seconds as int),
{
    let hours = seconds / 3600;
    let rem = seconds % 3600;
    let minutes = rem / 60;
    let secs = rem % 60;

    let mut result = String::new();
    if hours > 0 {
        let d = u64_to_dec(hours as u64);
        result.append(d.as_str());
        result.append("h");
    }
    if minutes > 0 {
        let d = u64_to_dec(minutes as u64);
        result.append(d.as_str());
        result.append("m");
    }
    if secs > 0 || (hours <= 0 && minutes <= 0) {
        let d = u64_to_dec(secs as u64);
        result.append(d.as_str());
        result.append("s");
    }
    proof {
        reveal_strlit("h");
        reveal_strlit("m");
        reveal_strlit("s");
        assert(result@ =~= spec_format_duration(seconds as int));
    }
    result
}

/// Whether `needle` occurs as a contiguous run of characters in `hay`.
pub open spec fn spec_contains(hay: Seq<char>, needle: Seq<char>) -> bool {
    exists|i: int|
        0 <= i <= hay.len() - needle.len() && #[trigger] hay.subrange(i, i + needle.len())
            == needle
}

/// Whether `needle` stands at position `i` of `hay`.
fn match_at(hay: &str, needle: &str, i: usize) -> (r: bool)
    requires
        i + needle@.len() <= hay@.len(),
    ensures
        r == (hay@.subrange(i as int, i + needle@.len()) == needle@),
{
    let hn = hay.unicode_len();
    let nn = needle.unicode_len();
    let mut j: usize = 0;
    while j < nn
        invariant
            0 <= j <= nn,
            nn == needle@.len(),
            hn == hay@.len(),
            i + nn <= hay@.len(),
            forall|l: int| 0 <= l < j ==> hay@[i + l] == needle@[l],
        decreases nn - j,
    {
        if hay.get_char(i + j) != needle.get_char(j) {
            proof {
                if hay@.subrange(i as int, i + needle@.len()) == needle@ {
                    assert(hay@.subrange(i as int, i + needle@.len())[j as int]
                        == hay@[i + j]);
                }
            }
            return false;
        }
        j += 1;
    }
    proof {
        assert(hay@.subrange(i as int, i + needle@.len()) =~= needle@);
    }
    true
}

/// Character-for-character string equality.
pub fn str_eq(a: &str, b: &str) -> (r: bool)
    ensures
        r == (a@ == b@),
{
    let an = a.unicode_len();
    let bn = b.unicode_len();
    if an != bn {
        return false;
    }
    let mut i: usize = 0;
    while i < an
        invariant
            0 <= i <= an,
            an == a@.len(),
            an == b@.len(),
            forall|j: int| 0 <= j < i ==> a@[j] == b@[j],
        decreases an - i,
    {
        if a.get_char(i) != b.get_char(i) {
            return false;
        }
        i += 1;
    }
    proof {
        assert(a@ =~= b@);
    }
    true
}

/// Substring search over characters.
pub fn contains_sub(hay: &str, needle: &str) -> (r: bool)
    ensures
        r == spec_contains(hay@, needle@),
{
    let hn = hay.unicode_len();
    let nn = needle.unicode_len();
    if nn > hn {
        return false;
    }
    if nn == 0 {
        proof {
            assert(hay@.subrange(0, 0 + needle@.len() as int) =~= needle@);
        }
        return true;
    }
    let mut i: usize = 0;
    while i <= hn - nn
        invariant
            0 <= i <= hn - nn + 1,
            0 < nn <= hn,
            hn == hay@.len(),
            nn == needle@.len(),
            forall|k: int|
                0 <= k < i ==> #[trigger] hay@.subrange(k, k + needle@.len()) != needle@,
        decreases hn - nn - i + 1,
    {
        if match_at(hay, needle, i) {
            return true;
        }
        i += 1;
    }
    false
}

/// The persisted status for a failed submission, classified by substrings
/// of the upstream error text.
pub open spec fn spec_classify_submit_error(m: Seq<char>) -> Seq<char> {
    if spec_contains(m, "deadline has elapsed"@) {
        "failed_to_submit_deadline_exceeded"@
    } else if spec_contains(m, "timed out"@) || spec_contains(m, "timeout"@) {
        "failed_to_submit_timeout"@
    } else if spec_contains(m, "Solution already exists"@) {
        "failed_to_submit_solution_exists"@
    } else if spec_contains(m, "Challenge window closed"@) {
        "failed_to_submit_submission_window_closed"@
    } else {
        "failed_to_submit_general"@
    }
}

/// Classify an upstream submission error into the terminal status that is
/// persisted on the solution row.
pub fn handle_submit_error(msg: &str) -> (r: String)
    ensures
        r@ == spec_classify_submit_error(msg@),
{
    let r = if contains_sub(msg, "deadline has elapsed") {
        "failed_to_submit_deadline_exceeded"
    } else if contains_sub(msg, "timed out") || contains_sub(msg, "timeout") {
        "failed_to_submit_timeout"
    } else if contains_sub(msg, "Solution already exists") {
        "failed_to_submit_solution_exists"
    } else if contains_sub(msg, "Challenge window closed") {
        "failed_to_submit_submission_window_closed"
    } else {
        "failed_to_submit_general"
    };
    let mut out = String::new();
    out.append(r);
    proof {
        assert(out@ =~= r@);
    }
    out
}

/// The number of leading decimal digits of a string.
pub open spec fn leading_digits(s: Seq<char>) -> nat
    decreases s.len(),
{
    if s.len() == 0 || !is_dec_digit(s[0]) {
        0
    } else {
        1 + leading_digits(s.skip(1))
    }
}

/// The seconds each duration unit letter stands for; 0 marks a letter that
/// is no unit.
pub open spec fn unit_seconds(c: char) -> int {
    if c == 'h' {
        3600
    } else if c == 'm' {
        60
    } else if c == 's' {
        1
    } else {
        0
    }
}

/// A duration string read back as a sum of components: each component is a
/// nonempty digit run followed by a unit letter, and contributes its value
/// times the unit's seconds.
pub open spec fn spec_parse_components(s: Seq<char>) -> Option<int>
    decreases s.len(),
{
    if s.len() == 0 {
        Some(0int)
    } else {
        let k = leading_digits(s) as int;
        if k == 0 || k >= s.len() || unit_seconds(s[k]) == 0 {
            None
        } else {
            match spec_parse_components(s.skip(k + 1)) {
                Some(r) => Some(dec_seq_value(s.take(k)) * unit_seconds(s[k]) + r),
                None => None,
            }
        }
    }
}

/// A duration string's value in seconds; the empty string is no duration.
pub open spec fn spec_parse_duration(s: Seq<char>) -> Option<int> {
    if s.len() == 0 {
        None
    } else {
        spec_parse_components(s)
    }
}

proof fn lemma_dec_digits(n: int)
    requires
        n >= 0,
    ensures
        spec_dec(n).len() >= 1,
        all_dec_digits(spec_dec(n)),
    decreases n,
{
    if n >= 10 {
        lemma_dec_digits(n / 10);
        assert forall|i: int| 0 <= i < spec_dec(n).len() implies is_dec_digit(
            #[trigger] spec_dec(n)[i],
        ) by {
            if i < spec_dec(n / 10).len() {
                assert(spec_dec(n)[i] == spec_dec(n / 10)[i]);
            } else {
                assert(spec_dec(n)[i] == hex_char(n % 10));
            }
        }
    }
}

proof fn lemma_dec_value_round(n: int)
    requires
        n >= 0,
    ensures
        dec_seq_value(spec_dec(n)) == n,
    decreases n,
{
    assert(dec_seq_value(Seq::<char>::empty()) == 0);
    if n < 10 {
        assert(spec_dec(n).drop_last() =~= Seq::<char>::empty());
        assert(spec_dec(n).last() == hex_char(n));
        assert(hex_digit_value(hex_char(n)) == n);
    } else {
        lemma_dec_value_round(n / 10);
        assert(spec_dec(n).drop_last() =~= spec_dec(n / 10));
        assert(spec_dec(n).last() == hex_char(n % 10));
        assert(hex_digit_value(hex_char(n % 10)) == n % 10);
        lemma_fundamental_div_mod(n, 10);
    }
}

proof fn lemma_leading_digits_concat(a: Seq<char>, b: Seq<char>)
    requires
        all_dec_digits(a),
        b.len() == 0 || !is_dec_digit(b[0]),
    ensures
        leading_digits(a + b) == a.len(),
    decreases a.len(),
{
    if a.len() == 0 {
        assert(a + b =~= b);
    } else {
        assert(is_dec_digit((a + b)[0]));
        assert(all_dec_digits(a.skip(1)));
        lemma_leading_digits_concat(a.skip(1), b);
        assert((a + b).skip(1) =~= a.skip(1) + b);
    }
}

/// One component prepended to a parsed rest.
proof fn lemma_parse_component(v: int, u: char, rest: Seq<char>, rv: int)
    requires
        v >= 0,
        unit_seconds(u) != 0,
        !is_dec_digit(u),
        spec_parse_components(rest) == Some(rv),
    ensures
        spec_parse_components(spec_dec(v) + seq![u] + rest)
            == Some(v * unit_seconds(u) + rv),
{
    let d = spec_dec(v);
    let s = d + seq![u] + rest;
    lemma_dec_digits(v);
    lemma_dec_value_round(v);
    assert(d + seq![u] + rest =~= d + (seq![u] + rest));
    assert((seq![u] + rest).len() > 0 && (seq![u] + rest)[0] == u);
    lemma_leading_digits_concat(d, seq![u] + rest);
    let k = leading_digits(s) as int;
    assert(k == d.len());
    assert(s.len() == d.len() + 1 + rest.len());
    assert(s[k] == u);
    assert(s.take(k) =~= d);
    assert(s.skip(k + 1) =~= rest);
}

proof fn lemma_leading_digits_exact(t: Seq<char>, k: int)
    requires
        0 <= k <= t.len(),
        forall|j: int| 0 <= j < k ==> is_dec_digit(#[trigger] t[j]),
        k == t.len() || !is_dec_digit(t[k]),
    ensures
        leading_digits(t) == k,
    decreases k,
{
    if k == 0 {
    } else {
        assert(is_dec_digit(t[0]));
        assert(forall|j: int| 0 <= j < k - 1 ==> is_dec_digit(#[trigger] t.skip(1)[j]));
        assert(k - 1 == t.skip(1).len() || !is_dec_digit(t.skip(1)[k - 1]));
        lemma_leading_digits_exact(t.skip(1), k - 1);
    }
}

proof fn lemma_dec_seq_value_nonneg(s: Seq<char>)
    requires
        all_dec_digits(s),
    ensures
        dec_seq_value(s) >= 0,
    decreases s.len(),
{
    if s.len() > 0 {
        assert(all_dec_digits(s.drop_last()));
        lemma_dec_seq_value_nonneg(s.drop_last());
    }
}

proof fn lemma_parse_components_nonneg(s: Seq<char>)
    ensures
        spec_parse_components(s) matches Some(v) ==> v >= 0,
    decreases s.len(),
{
    if s.len() > 0 {
        let k = leading_digits(s) as int;
        if !(k == 0 || k >= s.len() || unit_seconds(s[k]) == 0) {
            lemma_parse_components_nonneg(s.skip(k + 1));
            lemma_leading_digits_are_digits(s);
            assert(all_dec_digits(s.take(k)));
            lemma_dec_seq_value_nonneg(s.take(k));
            assert(unit_seconds(s[k]) >= 1);
        }
    }
}

proof fn lemma_leading_digits_are_digits(s: Seq<char>)
    ensures
        leading_digits(s) <= s.len(),
        forall|j: int| 0 <= j < leading_digits(s) ==> is_dec_digit(#[trigger] s[j]),
    decreases s.len(),
{
    if s.len() > 0 && is_dec_digit(s[0]) {
        lemma_leading_digits_are_digits(s.skip(1));
        assert forall|j: int| 0 <= j < leading_digits(s) implies is_dec_digit(
            #[trigger] s[j],
        ) by {
            if j > 0 {
                assert(is_dec_digit(s.skip(1)[j - 1]));
            }
        }
    }
}

/// Scan the decimal digit run of `s` that starts at `start`: its end, its
/// value, and whether the value exceeds `i64::MAX`.
fn scan_digits(s: &str, start: usize) -> (r: (usize, u64, bool))
    requires
        start <= s@.len(),
    ensures
        start <= r.0 <= s@.len(),
        r.0 - start == leading_digits(s@.skip(start as int)),
        !r.2 ==> r.1 <= i64::MAX
            && r.1 == dec_seq_value(s@.skip(start as int).take(r.0 - start)),
        r.2 ==> dec_seq_value(s@.skip(start as int).take(r.0 - start)) > i64::MAX,
{
    let n = s.unicode_len();
    let mut i = start;
    let mut val: u64 = 0;
    let mut big = false;
    loop
        invariant
            start <= i <= n,
            n == s@.len(),
            forall|j: int| start <= j < i ==> is_dec_digit(#[trigger] s@[j]),
            !big ==> val <= i64::MAX
                && val == dec_seq_value(s@.skip(start as int).take(i - start)),
            big ==> dec_seq_value(s@.skip(start as int).take(i - start)) > i64::MAX,
        ensures
            start <= i <= n,
            forall|j: int| start <= j < i ==> is_dec_digit(#[trigger] s@[j]),
            i == n || !is_dec_digit(s@[i as int]),
            !big ==> val <= i64::MAX
                && val == dec_seq_value(s@.skip(start as int).take(i - start)),
            big ==> dec_seq_value(s@.skip(start as int).take(i - start)) > i64::MAX,
        decreases n - i,
    {
        if i >= n {
            break;
        }
        let c = s.get_char(i);
        let d = match crate::codec::dec_digit_of(c) {
            Some(d) => d,
            None => {
                break;
            },
        };
        proof {
            let t = s@.skip(start as int);
            assert(t.take(i + 1 - start).drop_last() =~= t.take(i - start));
            assert(t.take(i + 1 - start).last() == s@[i as int]);
            assert(dec_seq_value(t.take(i + 1 - start))
                == dec_seq_value(t.take(i - start)) * 10 + hex_digit_value(s@[i as int]));
        }
        if big {
        } else if val > (0x7fff_ffff_ffff_ffffu64 - d as u64) / 10 {
            big = true;
            proof {
                lemma_fundamental_div_mod((0x7fff_ffff_ffff_ffffu64 - d as u64) as int, 10);
            }
        } else {
            proof {
                lemma_fundamental_div_mod((0x7fff_ffff_ffff_ffffu64 - d as u64) as int, 10);
            }
            val = val * 10 + (d as u64);
        }
        i += 1;
    }
    proof {
        let t = s@.skip(start as int);
        assert(forall|j: int| 0 <= j < i - start ==> is_dec_digit(#[trigger] t[j]));
        assert(i - start == t.len() || !is_dec_digit(t[i - start]));
        lemma_leading_digits_exact(t, i - start);
    }
    (i, val, big)
}

/// Read a duration string back into seconds: a sum of `digits`+`unit`
/// components with units `h`, `m` and `s`. `None` when the string is empty
/// or malformed, or when the value exceeds `i64::MAX`.
pub fn parse_duration(s: &str) -> (r: Option<i64>)
    ensures
        r matches Some(v) ==> spec_parse_duration(s@) == Some(v as int),
        r is None ==> spec_parse_duration(s@) is None
            || spec_parse_duration(s@)->0 > i64::MAX,
{
    let n = s.unicode_len();
    if n == 0 {
        return None;
    }
    let mut i: usize = 0;
    let mut acc: i64 = 0;
    proof {
        assert(s@.skip(0) =~= s@);
    }
    while i < n
        invariant
            0 <= i <= n,
            n == s@.len(),
            0 <= acc,
            spec_parse_components(s@) == (match spec_parse_components(s@.skip(i as int)) {
                Some(r) => Some(acc + r),
                None => None::<int>,
            }),
        decreases n - i,
    {
        let ghost t = s@.skip(i as int);
        let (end, val, big) = scan_digits(s, i);
        let ghost k = end - i;
        if end == i || end == n {
            proof {
                lemma_parse_components_nonneg(t);
                assert(spec_parse_components(t) is None);
            }
            return None;
        }
        let u = s.get_char(end);
        proof {
            assert(t[k] == s@[end as int]);
        }
        let mult: i64 = if u == 'h' {
            3600
        } else if u == 'm' {
            60
        } else if u == 's' {
            1
        } else {
            proof {
                assert(unit_seconds(t[k as int]) == 0);
                assert(spec_parse_components(t) is None);
            }
            return None;
        };
        proof {
            assert(t.take(k) =~= s@.skip(i as int).take(k));
            assert(t.skip(k + 1) =~= s@.skip(end + 1));
            lemma_parse_components_nonneg(t.skip(k + 1));
            lemma_leading_digits_are_digits(t);
            assert(all_dec_digits(t.take(k)));
            lemma_dec_seq_value_nonneg(t.take(k));
        }
        if big {
            proof {
                let dv = dec_seq_value(t.take(k));
                assert(dv * unit_seconds(t[k]) >= dv * 1) by (nonlinear_arith)
                    requires dv >= 0 && unit_seconds(t[k]) >= 1;
            }
            return None;
        }
        let comp = match val.checked_mul(mult as u64) {
            Some(c) => c,
            None => {
                proof {
                    lemma_mult_escapes(dec_seq_value(t.take(k)), unit_seconds(t[k]));
                }
                return None;
            },
        };
        if comp > 0x7fff_ffff_ffff_ffff as u64 || acc > 0x7fff_ffff_ffff_ffff - (comp as i64) {
            proof {
                let dv = dec_seq_value(t.take(k));
                assert(dv * unit_seconds(t[k]) == comp);
            }
            return None;
        }
        acc = acc + (comp as i64);
        i = end + 1;
    }
    proof {
        assert(s@.skip(n as int) =~= Seq::<char>::empty());
        assert(spec_parse_components(Seq::<char>::empty()) == Some(0int));
    }
    Some(acc)
}

proof fn lemma_mult_escapes(dv: int, us: int)
    requires
        dv >= 0,
        us >= 1,
    ensures
        dv * us >= dv,
{
    assert(dv * us >= dv * 1) by (nonlinear_arith)
        requires dv >= 0 && us >= 1;
}

/// The zero duration renders as exactly `0s`.
pub proof fn lemma_format_duration_zero()
    ensures
        spec_format_duration(0) == "0s"@,
{
    reveal_strlit("0s");
    assert(spec_format_duration(0) =~= "0s"@);
}

/// The round trip of duration rendering: reading a rendered duration back
/// yields exactly the seconds that were rendered.
#[verifier::rlimit(50)]
pub proof fn lemma_format_duration_round_trip(n: int)
    requires
        0 <= n,
    ensures
        spec_parse_duration(spec_format_duration(n)) == Some(n),
{
    let h = n / 3600;
    let m = (n % 3600) / 60;
    let s = (n % 3600) % 60;
    lemma_fundamental_div_mod(n, 3600);
    lemma_fundamental_div_mod(n % 3600, 60);
    assert(h >= 0 && m >= 0 && s >= 0);
    assert(n == h * 3600 + m * 60 + s);
    let hp = if h > 0 { spec_dec(h) + seq!['h'] } else { Seq::<char>::empty() };
    let mp = if m > 0 { spec_dec(m) + seq!['m'] } else { Seq::<char>::empty() };
    let sp = if s > 0 || (h <= 0 && m <= 0) { spec_dec(s) + seq!['s'] } else {
        Seq::<char>::empty()
    };
    let whole = spec_format_duration(n);
    assert(spec_parse_components(Seq::<char>::empty()) == Some(0int));
    if s > 0 || (h <= 0 && m <= 0) {
        lemma_parse_component(s, 's', Seq::<char>::empty(), 0);
        assert(sp =~= spec_dec(s) + seq!['s'] + Seq::<char>::empty());
        assert(spec_parse_components(sp) == Some(s * 1 + 0));
    }
    let s_val = if s > 0 || (h <= 0 && m <= 0) { s } else { 0int };
    assert(spec_parse_components(sp) == Some(s_val) && s_val == s);
    if m > 0 {
        lemma_parse_component(m, 'm', sp, s);
        assert(mp + sp =~= spec_dec(m) + seq!['m'] + sp);
    }
    assert(spec_parse_components(mp + sp) == Some(m * 60 + s));
    if h > 0 {
        lemma_parse_component(h, 'h', mp + sp, m * 60 + s);
        assert(hp + (mp + sp) =~= spec_dec(h) + seq!['h'] + (mp + sp));
    }
    assert(hp + (mp + sp) =~= whole);
    assert(spec_parse_components(whole) == Some(h * 3600 + (m * 60 + s)));
    if s <= 0 && (h > 0 || m > 0) {
        lemma_dec_digits(if h > 0 { h } else { m });
    }
    assert(whole.len() > 0);
}

/// What chrono renders for an epoch second: the RFC3339 form with
/// microsecond precision and a `Z` suffix.
pub uninterp spec fn rfc3339_micros_of(t: i64) -> Seq<char>;

/// Relies on chrono's DateTime::from_timestamp and to_rfc3339_opts: the
/// rendering is a function of the timestamp alone; timestamps up to the
/// year 9999 are in range.
#[verifier::external_body]
pub fn time_to_string(t: i64) -> (r: String)
    requires
        0 <= t < 253_402_300_800,
    ensures
        r@ == rfc3339_micros_of(t),
{
    match chrono::DateTime::from_timestamp(t, 0) {
        Some(dt) => dt.to_rfc3339_opts(chrono::SecondsFormat::Micros, true),
        None => String::new(),
    }
}

/// Render any epoch second: the RFC3339 form for timestamps from 1970 up
/// to the year 9999, `None` outside that range.
pub fn epoch_rfc3339(t: i64) -> (r: Option<String>)
    ensures
        r is Some <==> 0 <= t < 253_402_300_800,
        r matches Some(s) ==> s@ == rfc3339_micros_of(t),
{
    if 0 <= t && t < 253_402_300_800 {
        Some(time_to_string(t))
    } else {
        None
    }
}

} // verus!
