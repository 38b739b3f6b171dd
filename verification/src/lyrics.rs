//! LRC lyrics: timestamp tags such as `[01:02.345]`, the lines they start,
//! the merge of a lyric with its translation, and which lines are playing at a
//! given time.
//!
//! A timestamp tag is `[`, one or more digits (minutes), `:`, one or two digits
//! (seconds), optionally `.` or `:` followed by one to three digits (the
//! fraction), and `]`. A digit is what the `regex` crate's `\d` class accepts,
//! that is any Unicode decimal digit; only ASCII digits give a number.
use vstd::prelude::*;
use crate::text;
use crate::text::{all_ascii_digits, digits_value, spec_parse_u64};

verus! {

/// What the `regex` crate's `\d` class (Unicode general category `Nd`)
/// accepts.
pub uninterp spec fn regex_digit_class(c: char) -> bool;

/// Whether `regex::Regex::new(r"^\d$")` matches the one-character string
/// made of `c`: the contract names that result and says nothing more of it.
#[verifier::external_body]
fn regex_matches_digit(c: char) -> (r: bool)
    ensures
        r == regex_digit_class(c),
{
    let mut buf = [0u8; 4];
    let s: &str = c.encode_utf8(&mut buf);
    match regex::Regex::new(r"^\d$") {
        Ok(re) => re.is_match(s),
        Err(_) => false,
    }
}

/// A digit of a timestamp tag: '0' to '9' among the ASCII characters (where
/// `\d` accepts exactly those), and what `\d` accepts beyond ASCII.
pub open spec fn is_tag_digit(c: char) -> bool {
    if (c as u32) < 0x80 {
        '0' <= c && c <= '9'
    } else {
        regex_digit_class(c)
    }
}

/// Whether a character is a digit of a timestamp tag.
pub fn tag_digit(c: char) -> (r: bool)
    ensures
        r == is_tag_digit(c),
{
    let code: u32 = c as u32;
    if code < 0x80 {
        '0' <= c && c <= '9'
    } else {
        regex_matches_digit(c)
    }
}

/// Length of the run of tag digits that starts at `i`.
pub open spec fn digit_run(s: Seq<char>, i: int) -> nat
    decreases s.len() - i,
{
    if 0 <= i < s.len() && is_tag_digit(s[i]) {
        1 + digit_run(s, i + 1)
    } else {
        0
    }
}

/// The timestamp tag that starts at `i`, if one does: the lengths of its
/// minutes, seconds and fraction (0 when it has none) and the position just
/// past its closing bracket.
pub open spec fn tag_at(s: Seq<char>, i: int) -> Option<(nat, nat, nat, int)> {
    if !(0 <= i < s.len() && s[i] == '[') {
        None
    } else {
        let ml = digit_run(s, i + 1);
        let c = i + 1 + ml;
        if ml == 0 || c >= s.len() || s[c] != ':' {
            None
        } else {
            let sl = digit_run(s, c + 1);
            let q = c + 1 + sl;
            if sl == 0 || sl > 2 || q >= s.len() {
                None
            } else if s[q] == ']' {
                Some((ml, sl, 0nat, q + 1))
            } else if s[q] == '.' || s[q] == ':' {
                let fl = digit_run(s, q + 1);
                let r = q + 1 + fl;
                if 1 <= fl <= 3 && r < s.len() && s[r] == ']' {
                    Some((ml, sl, fl, r + 1))
                } else {
                    None
                }
            } else {
                None
            }
        }
    }
}

/// The start of the first timestamp tag at or after `k`.
pub open spec fn first_tag_from(s: Seq<char>, k: int) -> Option<int>
    decreases s.len() - k,
{
    if k < 0 || k >= s.len() {
        None
    } else if tag_at(s, k) is Some {
        Some(k)
    } else {
        first_tag_from(s, k + 1)
    }
}

/// The text from `k` on with every timestamp tag removed (tags are taken
/// from left to right and do not overlap).
pub open spec fn strip_tags(s: Seq<char>, k: int) -> Seq<char>
    decreases s.len() - k,
{
    if k < 0 || k >= s.len() {
        Seq::empty()
    } else {
        match tag_at(s, k) {
            Some(t) => if t.3 > k { strip_tags(s, t.3) } else { Seq::empty() },
            None => seq![s[k]] + strip_tags(s, k + 1),
        }
    }
}

proof fn lemma_first_tag_from(s: Seq<char>, k: int)
    ensures
        first_tag_from(s, k) matches Some(i) ==> k <= i < s.len() && tag_at(s, i) is Some,
    decreases s.len() - k,
{
    if 0 <= k < s.len() && !(tag_at(s, k) is Some) {
        lemma_first_tag_from(s, k + 1);
    }
}

proof fn lemma_tag_end(s: Seq<char>, i: int)
    requires
        tag_at(s, i) is Some,
    ensures
        i + 4 <= (tag_at(s, i)->0).3 <= s.len(),
{
}

proof fn lemma_digit_run_bound(s: Seq<char>, i: int)
    requires
        0 <= i,
    ensures
        i + digit_run(s, i) <= s.len() || digit_run(s, i) == 0,
        forall|j: int| i <= j < i + digit_run(s, i) ==> is_tag_digit(#[trigger] s[j]),
        i + digit_run(s, i) < s.len() ==> !is_tag_digit(s[i + digit_run(s, i)]),
    decreases s.len() - i,
{
    if 0 <= i < s.len() && is_tag_digit(s[i]) {
        lemma_digit_run_bound(s, i + 1);
    }
}

/// Length of the run of tag digits that starts at `i`.
fn digit_run_len(s: &[char], i: usize) -> (n: usize)
    requires
        i <= s.len(),
    ensures
        n == digit_run(s@, i as int),
        i + n <= s.len(),
{
    let mut j: usize = i;
    while j < s.len() && tag_digit(s[j])
        invariant
            i <= j <= s.len(),
            digit_run(s@, i as int) == (j - i) + digit_run(s@, j as int),
        decreases s.len() - j,
    {
        j += 1;
    }
    j - i
}

/// The timestamp tag that starts at `i`, if one does.
fn tag_at_exec(s: &[char], i: usize) -> (r: Option<(usize, usize, usize, usize)>)
    requires
        i <= s.len(),
    ensures
        match r {
            Some(t) => tag_at(s@, i as int) == Some((t.0 as nat, t.1 as nat, t.2 as nat, t.3 as int)),
            None => tag_at(s@, i as int) is None,
        },
{
    if i >= s.len() || s[i] != '[' {
        return None;
    }
    let ml = digit_run_len(s, i + 1);
    let c = i + 1 + ml;
    if ml == 0 || c >= s.len() || s[c] != ':' {
        return None;
    }
    let sl = digit_run_len(s, c + 1);
    let q = c + 1 + sl;
    if sl == 0 || sl > 2 || q >= s.len() {
        return None;
    }
    if s[q] == ']' {
        Some((ml, sl, 0, q + 1))
    } else if s[q] == '.' || s[q] == ':' {
        let fl = digit_run_len(s, q + 1);
        let r = q + 1 + fl;
        if 1 <= fl && fl <= 3 && r < s.len() && s[r] == ']' {
            Some((ml, sl, fl, r + 1))
        } else {
            None
        }
    } else {
        None
    }
}

/// The text of a line without its timestamp tags.
fn strip_tags_exec(s: &[char]) -> (r: Vec<char>)
    ensures
        r@ == strip_tags(s@, 0),
{
    let mut out: Vec<char> = Vec::new();
    let mut k: usize = 0;
    while k < s.len()
        invariant
            k <= s.len(),
            out@ + strip_tags(s@, k as int) == strip_tags(s@, 0),
        decreases s.len() - k,
    {
        match tag_at_exec(s, k) {
            Some(t) => {
                proof { lemma_tag_end(s@, k as int); }
                assert(strip_tags(s@, k as int) == strip_tags(s@, t.3 as int));
                k = t.3;
            },
            None => {
                let ghost before = out@;
                out.push(s[k]);
                assert(strip_tags(s@, k as int) == seq![s@[k as int]] + strip_tags(s@, k + 1));
                assert(out@ + strip_tags(s@, k + 1) =~= before + strip_tags(s@, k as int));
                k += 1;
            },
        }
    }
    assert(out@ + strip_tags(s@, k as int) =~= out@);
    out
}

/// The start of the first timestamp tag of a line.
fn first_tag(s: &[char]) -> (r: Option<usize>)
    ensures
        match r {
            Some(i) => first_tag_from(s@, 0) == Some(i as int),
            None => first_tag_from(s@, 0) is None,
        },
{
    let mut k: usize = 0;
    while k < s.len()
        invariant
            k <= s.len(),
            first_tag_from(s@, 0) == first_tag_from(s@, k as int),
        decreases s.len() - k,
    {
        if tag_at_exec(s, k).is_some() {
            return Some(k);
        }
        k += 1;
    }
    None
}

/// The characters `s[a..b]`.
fn chars_range(s: &[char], a: usize, b: usize) -> (r: Vec<char>)
    requires
        a <= b <= s.len(),
    ensures
        r@ == s@.subrange(a as int, b as int),
{
    let mut out: Vec<char> = Vec::new();
    let mut k: usize = a;
    while k < b
        invariant
            a <= k <= b <= s.len(),
            out@ == s@.subrange(a as int, k as int),
        decreases b - k,
    {
        out.push(s[k]);
        k += 1;
        assert(out@ =~= s@.subrange(a as int, k as int));
    }
    out
}

/// The fraction of a timestamp in milliseconds: its first three characters,
/// padded with '0' to three, read as a number; 0 when they do not read as one.
pub open spec fn fraction_millis(f: Seq<char>) -> u64 {
    let t = if f.len() <= 3 { f } else { f.take(3) };
    let padded = t + Seq::new((3 - t.len()) as nat, |i: int| '0');
    match spec_parse_u64(padded) {
        Some(v) => v,
        None => 0,
    }
}

/// The time of a timestamp, in milliseconds, with 64-bit wrapping
/// arithmetic: `(minutes * 60 + seconds) * 1000 + fraction`.
pub open spec fn lrc_millis(minutes: u64, seconds: u64, fraction: u64) -> u64 {
    (((minutes * 60 + seconds) * 1000 + fraction) % 0x1_0000_0000_0000_0000int) as u64
}

/// The time of the first timestamp tag of a line, when its minutes and
/// seconds read as numbers.
pub open spec fn spec_lrc_timestamp(s: Seq<char>) -> Option<u64> {
    match first_tag_from(s, 0) {
        None => None,
        Some(i) => {
            let t = tag_at(s, i)->0;
            let ms = i + 1;
            let ss = i + 2 + t.0;
            let fs = ss + t.1 + 1;
            match (spec_parse_u64(s.subrange(ms, ms + t.0)), spec_parse_u64(s.subrange(ss, ss + t.1))) {
                (Some(m), Some(sec)) => Some(lrc_millis(
                    m,
                    sec,
                    if t.2 > 0 { fraction_millis(s.subrange(fs, fs + t.2)) } else { 0 },
                )),
                _ => None,
            }
        },
    }
}

/// Ten to the power `k`.
pub open spec fn pow10(k: nat) -> nat
    decreases k,
{
    if k == 0 { 1 } else { 10 * pow10((k - 1) as nat) }
}

proof fn lemma_digits_value_bound(d: Seq<char>)
    requires
        all_ascii_digits(d),
    ensures
        digits_value(d) < pow10(d.len()),
    decreases d.len(),
{
    if d.len() > 0 {
        lemma_digits_value_bound(d.drop_last());
        assert(text::is_ascii_digit(d[d.len() - 1]));
    }
}

proof fn lemma_digits_value_trailing_zeros(d: Seq<char>, k: nat)
    ensures
        digits_value(d + Seq::new(k, |i: int| '0')) == digits_value(d) * pow10(k),
    decreases k,
{
    let z = Seq::new(k, |i: int| '0');
    if k == 0 {
        assert(d + z =~= d);
        assert(pow10(0) == 1);
        assert(digits_value(d) * 1 == digits_value(d));
    } else {
        assert((d + z).drop_last() =~= d + Seq::new((k - 1) as nat, |i: int| '0'));
        lemma_digits_value_trailing_zeros(d, (k - 1) as nat);
        assert((d + z).last() == '0');
        assert(text::digit_value('0') == 0);
        assert(digits_value(d + z) == digits_value(d + Seq::new((k - 1) as nat, |i: int| '0')) * 10);
        assert(digits_value(d) * pow10(k) == digits_value(d) * pow10((k - 1) as nat) * 10) by (nonlinear_arith)
            requires
                pow10(k) == 10 * pow10((k - 1) as nat);
        assert(digits_value(d + z) == digits_value(d) * pow10(k));
    }
}

/// A run of ASCII digits ended by a character that is no digit.
proof fn lemma_ascii_digit_run(s: Seq<char>, i: int, k: int)
    requires
        0 <= i,
        0 <= k,
        i + k < s.len(),
        forall|j: int| i <= j < i + k ==> text::is_ascii_digit(#[trigger] s[j]),
        !text::is_ascii_digit(s[i + k]),
        (s[i + k] as u32) < 0x80,
    ensures
        digit_run(s, i) == k,
    decreases k,
{
    if k > 0 {
        assert(text::is_ascii_digit(s[i]));
        lemma_ascii_digit_run(s, i + 1, k - 1);
    }
}

/// A number written in ASCII digits reads as its value.
proof fn lemma_parse_digits(d: Seq<char>)
    requires
        d.len() > 0,
        all_ascii_digits(d),
        digits_value(d) <= u64::MAX,
    ensures
        spec_parse_u64(d) == Some(digits_value(d) as u64),
{
    assert(text::is_ascii_digit(d[0]));
}

/// The milliseconds a fraction of one to three ASCII digits stands for: it is
/// read as hundredths, tenths of hundredths and so on, `.5` being 500.
proof fn lemma_fraction_value(f: Seq<char>)
    requires
        1 <= f.len() <= 3,
        all_ascii_digits(f),
    ensures
        fraction_millis(f) == digits_value(f) * pow10((3 - f.len()) as nat),
        fraction_millis(f) < 1000,
{
    let k = (3 - f.len()) as nat;
    let padded = f + Seq::new(k, |i: int| '0');
    lemma_digits_value_trailing_zeros(f, k);
    assert(all_ascii_digits(padded)) by {
        assert forall|j: int| 0 <= j < padded.len() implies text::is_ascii_digit(#[trigger] padded[j]) by {
            if j >= f.len() {
                assert(padded[j] == '0');
            }
        }
    }
    lemma_digits_value_bound(padded);
    assert(pow10(3) == 1000) by {
        assert(pow10(0) == 1);
        assert(pow10(1) == 10);
        assert(pow10(2) == 100);
    }
    lemma_parse_digits(padded);
}

/// The time of a line that starts with a tag `[m:s.f]` or `[m:s:f]` (minutes, one or two
/// digits of seconds, one to three digits of fraction, all ASCII digits) is
/// the minutes and seconds read as whole numbers, in milliseconds, plus the
/// fraction: `(m * 60 + s) * 1000 + f`, the fraction counted in thousandths
/// of a second once padded to three digits (`.5` is 500 ms). For example
/// `[01:42.30]` is at 102300 ms.
pub proof fn law_timestamp_value(m: Seq<char>, sec: Seq<char>, sep: char, f: Seq<char>, rest: Seq<char>)
    requires
        m.len() > 0,
        all_ascii_digits(m),
        digits_value(m) <= 1_000_000_000,
        1 <= sec.len() <= 2,
        all_ascii_digits(sec),
        sep == '.' || sep == ':',
        1 <= f.len() <= 3,
        all_ascii_digits(f),
    ensures
        spec_lrc_timestamp(seq!['['] + m + seq![':'] + sec + seq![sep] + f + seq![']'] + rest)
            == Some(((digits_value(m) * 60 + digits_value(sec)) * 1000 + digits_value(f) * pow10((3 - f.len()) as nat)) as u64),
{
    let l = seq!['['] + m + seq![':'] + sec + seq![sep] + f + seq![']'] + rest;
    let ml = m.len() as int;
    let sl = sec.len() as int;
    let fl = f.len() as int;
    let c = 1 + ml;
    let q = c + 1 + sl;
    let r = q + 1 + fl;
    assert(l.subrange(1, c) =~= m);
    assert(l.subrange(c + 1, q) =~= sec);
    assert(l.subrange(q + 1, r) =~= f);
    assert(l[0] == '[' && l[c] == ':' && l[q] == sep && l[r] == ']');
    assert forall|j: int| 1 <= j < c implies text::is_ascii_digit(#[trigger] l[j]) by {
        assert(l[j] == l.subrange(1, c)[j - 1]);
    }
    assert forall|j: int| c + 1 <= j < q implies text::is_ascii_digit(#[trigger] l[j]) by {
        assert(l[j] == l.subrange(c + 1, q)[j - c - 1]);
    }
    assert forall|j: int| q + 1 <= j < r implies text::is_ascii_digit(#[trigger] l[j]) by {
        assert(l[j] == l.subrange(q + 1, r)[j - q - 1]);
    }
    lemma_ascii_digit_run(l, 1, ml);
    lemma_ascii_digit_run(l, c + 1, sl);
    lemma_ascii_digit_run(l, q + 1, fl);
    assert(tag_at(l, 0) == Some((ml as nat, sl as nat, fl as nat, r + 1)));
    assert(first_tag_from(l, 0) == Some(0int));
    lemma_digits_value_bound(sec);
    assert(pow10(2) == 100) by {
        assert(pow10(0) == 1);
        assert(pow10(1) == 10);
    }
    assert(pow10(1) == 10) by {
        assert(pow10(0) == 1);
    }
    assert(digits_value(sec) < 100);
    lemma_parse_digits(m);
    lemma_parse_digits(sec);
    lemma_fraction_value(f);
    let total: int = (digits_value(m) * 60 + digits_value(sec)) * 1000 + fraction_millis(f);
    assert(0 <= total < 0x1_0000_0000_0000_0000int);
    vstd::arithmetic::div_mod::lemma_small_mod(total as nat, 0x1_0000_0000_0000_0000nat);
}

/// The time of a line that starts with a tag `[m:s]` without a fraction
/// (minutes, one or two digits of seconds, ASCII digits) is `(m * 60 + s) *
/// 1000` milliseconds: `[01:42]` is at 102000 ms.
pub proof fn law_timestamp_value_whole_seconds(m: Seq<char>, sec: Seq<char>, rest: Seq<char>)
    requires
        m.len() > 0,
        all_ascii_digits(m),
        digits_value(m) <= 1_000_000_000,
        1 <= sec.len() <= 2,
        all_ascii_digits(sec),
    ensures
        spec_lrc_timestamp(seq!['['] + m + seq![':'] + sec + seq![']'] + rest)
            == Some(((digits_value(m) * 60 + digits_value(sec)) * 1000) as u64),
{
    let l = seq!['['] + m + seq![':'] + sec + seq![']'] + rest;
    let ml = m.len() as int;
    let sl = sec.len() as int;
    let c = 1 + ml;
    let q = c + 1 + sl;
    assert(l.subrange(1, c) =~= m);
    assert(l.subrange(c + 1, q) =~= sec);
    assert(l[0] == '[' && l[c] == ':' && l[q] == ']');
    assert forall|j: int| 1 <= j < c implies text::is_ascii_digit(#[trigger] l[j]) by {
        assert(l[j] == l.subrange(1, c)[j - 1]);
    }
    assert forall|j: int| c + 1 <= j < q implies text::is_ascii_digit(#[trigger] l[j]) by {
        assert(l[j] == l.subrange(c + 1, q)[j - c - 1]);
    }
    lemma_ascii_digit_run(l, 1, ml);
    lemma_ascii_digit_run(l, c + 1, sl);
    assert(tag_at(l, 0) == Some((ml as nat, sl as nat, 0nat, q + 1)));
    assert(first_tag_from(l, 0) == Some(0int));
    lemma_digits_value_bound(sec);
    assert(pow10(2) == 100) by {
        assert(pow10(0) == 1);
        assert(pow10(1) == 10);
    }
    lemma_parse_digits(m);
    lemma_parse_digits(sec);
    let total: nat = (digits_value(m) * 60 + digits_value(sec)) * 1000;
    assert(0 <= total < 0x1_0000_0000_0000_0000int);
    vstd::arithmetic::div_mod::lemma_small_mod(total as nat, 0x1_0000_0000_0000_0000nat);
}

/// A lyric line: the time of its first tag and its text without tags,
/// ended by a line break.
pub open spec fn spec_lrc_line(s: Seq<char>) -> Option<(u64, Seq<char>)> {
    match spec_lrc_timestamp(s) {
        Some(t) => Some((t, strip_tags(s, 0).push('\n'))),
        None => None,
    }
}

/// The fraction of a timestamp in milliseconds.
pub fn lrc_fraction_to_millis(fraction: &str) -> (r: u64)
    ensures
        r == fraction_millis(fraction@),
{
    let f = text::str_chars(fraction);
    let n: usize = if f.len() <= 3 { f.len() } else { 3 };
    let mut digits = chars_range(f.as_slice(), 0, n);
    assert(digits@ =~= (if f@.len() <= 3 { f@ } else { f@.take(3) }));
    let ghost t = digits@;
    while digits.len() < 3
        invariant
            t.len() <= 3,
            t.len() <= digits.len() <= 3,
            digits@ =~= t + Seq::new((digits.len() - t.len()) as nat, |i: int| '0'),
        decreases 3 - digits.len(),
    {
        digits.push('0');
    }
    match text::parse_u64(digits.as_slice()) {
        Some(v) => v,
        None => 0,
    }
}

proof fn lemma_lrc_millis(m: u64, s: u64, f: u64)
    ensures
        vstd::wrapping::u64_specs::wrapping_add(
            vstd::wrapping::u64_specs::wrapping_mul(
                vstd::wrapping::u64_specs::wrapping_add(vstd::wrapping::u64_specs::wrapping_mul(m, 60), s),
                1000,
            ),
            f,
        ) == lrc_millis(m, s, f),
{
    let md: int = 0x1_0000_0000_0000_0000int;
    let a = vstd::wrapping::u64_specs::wrapping_mul(m, 60);
    let b = vstd::wrapping::u64_specs::wrapping_add(a, s);
    let c = vstd::wrapping::u64_specs::wrapping_mul(b, 1000);
    let d = vstd::wrapping::u64_specs::wrapping_add(c, f);
    assert(a as int == (m * 60) % md);
    assert(b as int == (a + s) % md);
    vstd::arithmetic::div_mod::lemma_add_mod_noop(m * 60, s as int, md);
    vstd::arithmetic::div_mod::lemma_small_mod(s as nat, md as nat);
    vstd::arithmetic::div_mod::lemma_mod_twice(m * 60, md);
    assert(b as int == (m * 60 + s) % md);
    assert(c as int == (b * 1000) % md);
    vstd::arithmetic::div_mod::lemma_mul_mod_noop_left(m * 60 + s, 1000, md);
    assert(c as int == ((m * 60 + s) * 1000) % md);
    assert(d as int == (c + f) % md);
    vstd::arithmetic::div_mod::lemma_add_mod_noop((m * 60 + s) * 1000, f as int, md);
    vstd::arithmetic::div_mod::lemma_small_mod(f as nat, md as nat);
    vstd::arithmetic::div_mod::lemma_mod_twice((m * 60 + s) * 1000, md);
}

/// The time of the first timestamp tag of a line, in milliseconds.
pub fn parse_lrc_timestamp(line: &str) -> (r: Option<u64>)
    ensures
        r == spec_lrc_timestamp(line@),
{
    let s = text::str_chars(line);
    timestamp_of_chars(s.as_slice())
}

fn timestamp_of_chars(s: &[char]) -> (r: Option<u64>)
    ensures
        r == spec_lrc_timestamp(s@),
{
    let i = match first_tag(s) {
        Some(i) => i,
        None => return None,
    };
    proof { lemma_first_tag_from(s@, 0); }
    let t = match tag_at_exec(s, i) {
        Some(t) => t,
        None => return None,
    };
    proof { lemma_tag_end(s@, i as int); }
    let ms = i + 1;
    let ss = i + 2 + t.0;
    let fs = ss + t.1 + 1;
    let mv = chars_range(s, ms, ms + t.0);
    let minutes = match text::parse_u64(mv.as_slice()) {
        Some(m) => m,
        None => return None,
    };
    let sv = chars_range(s, ss, ss + t.1);
    let seconds = match text::parse_u64(sv.as_slice()) {
        Some(v) => v,
        None => return None,
    };
    let fraction: u64 = if t.2 > 0 {
        let fv = chars_range(s, fs, fs + t.2);
        let fstr = text::string_from_chars(fv.as_slice());
        lrc_fraction_to_millis(fstr.as_str())
    } else {
        0
    };
    proof { lemma_lrc_millis(minutes, seconds, fraction); }
    Some(minutes.wrapping_mul(60).wrapping_add(seconds).wrapping_mul(1000).wrapping_add(fraction))
}

/// The characters of each string.
pub open spec fn strings_view(v: Seq<String>) -> Seq<Seq<char>> {
    v.map_values(|x: String| x@)
}

/// Timed lines with each text taken by its characters.
pub open spec fn timed_view(v: Seq<(u64, String)>) -> Seq<(u64, Seq<char>)> {
    v.map_values(|p: (u64, String)| (p.0, p.1@))
}

/// A line's time and text, when the line starts with a readable timestamp.
pub fn parse_lrc_line(line: &str) -> (r: Option<(u64, String)>)
    ensures
        match r {
            Some(p) => spec_lrc_line(line@) == Some((p.0, p.1@)),
            None => spec_lrc_line(line@) is None,
        },
{
    let s = text::str_chars(line);
    line_of_chars(s.as_slice())
}

fn line_of_chars(s: &[char]) -> (r: Option<(u64, String)>)
    ensures
        match r {
            Some(p) => spec_lrc_line(s@) == Some((p.0, p.1@)),
            None => spec_lrc_line(s@) is None,
        },
{
    let time = match timestamp_of_chars(s) {
        Some(t) => t,
        None => return None,
    };
    let mut stripped = strip_tags_exec(s);
    stripped.push('\n');
    Some((time, text::string_from_chars(stripped.as_slice())))
}

/// The translation lines whose first timestamp is `t`, as timed lines, in
/// order.
pub open spec fn translations_at(t: u64, trs: Seq<Seq<char>>) -> Seq<(u64, Seq<char>)>
    decreases trs.len(),
{
    if trs.len() == 0 {
        Seq::empty()
    } else {
        let prev = translations_at(t, trs.drop_last());
        if spec_lrc_timestamp(trs.last()) == Some(t) {
            prev.push((t, strip_tags(trs.last(), 0).push('\n')))
        } else {
            prev
        }
    }
}

/// Each lyric line that has a timestamp, followed by the translation lines
/// with the same time; lines without a timestamp are left out.
pub open spec fn spec_merge_lyrics(ls: Seq<Seq<char>>, trs: Seq<Seq<char>>) -> Seq<(u64, Seq<char>)>
    decreases ls.len(),
{
    if ls.len() == 0 {
        Seq::empty()
    } else {
        spec_merge_lyrics(ls.drop_last(), trs) + match spec_lrc_line(ls.last()) {
            Some(p) => seq![p] + translations_at(p.0, trs),
            None => Seq::empty(),
        }
    }
}

/// Merges a lyric with its translation: every timed lyric line, each followed
/// by the translation lines that carry the same time.
pub fn merge_lyrics_with_translation(lyrics: &Vec<String>, translations: &Vec<String>) -> (r: Vec<(u64, String)>)
    ensures
        timed_view(r@) == spec_merge_lyrics(strings_view(lyrics@), strings_view(translations@)),
{
    let ghost trs = strings_view(translations@);
    let mut merged: Vec<(u64, String)> = Vec::new();
    let mut i: usize = 0;
    while i < lyrics.len()
        invariant
            i <= lyrics.len(),
            trs == strings_view(translations@),
            timed_view(merged@) == spec_merge_lyrics(strings_view(lyrics@).take(i as int), trs),
        decreases lyrics.len() - i,
    {
        let ghost before = merged@;
        let ghost ls = strings_view(lyrics@).take(i + 1);
        assert(ls.drop_last() =~= strings_view(lyrics@).take(i as int));
        assert(ls.last() == lyrics@[i as int]@);
        match parse_lrc_line(lyrics[i].as_str()) {
            None => {
                assert(timed_view(merged@) =~= spec_merge_lyrics(ls, trs));
            },
            Some(p) => {
                let time = p.0;
                let ghost pv = (p.0, p.1@);
                merged.push(p);
                assert(timed_view(merged@) =~= timed_view(before).push(pv));
                assert(translations_at(time, trs.take(0)) =~= Seq::<(u64, Seq<char>)>::empty());
                let mut j: usize = 0;
                while j < translations.len()
                    invariant
                        j <= translations.len(),
                        i < lyrics.len(),
                        trs == strings_view(translations@),
                        spec_lrc_line(lyrics@[i as int]@) matches Some(q) && q.0 == time,
                        timed_view(merged@) =~= timed_view(before) + seq![spec_lrc_line(lyrics@[i as int]@)->0]
                            + translations_at(time, trs.take(j as int)),
                    decreases translations.len() - j,
                {
                    let ghost tj = trs.take(j + 1);
                    assert(tj.drop_last() =~= trs.take(j as int));
                    assert(tj.last() == translations@[j as int]@);
                    let ghost mv = merged@;
                    let tt = parse_lrc_timestamp(translations[j].as_str());
                    if tt == Some(time) {
                        match parse_lrc_line(translations[j].as_str()) {
                            Some(q) => {
                                merged.push((time, q.1));
                                assert(timed_view(merged@) =~= timed_view(mv).push((time, q.1@)));
                            },
                            None => {},
                        }
                    } else {
                        assert(translations_at(time, tj) == translations_at(time, trs.take(j as int)));
                    }
                    j += 1;
                }
                assert(trs.take(translations.len() as int) =~= trs);
                assert(timed_view(merged@) =~= spec_merge_lyrics(ls, trs));
            },
        }
        i += 1;
    }
    assert(strings_view(lyrics@).take(lyrics.len() as int) =~= strings_view(lyrics@));
    merged
}

/// A malformed tag `[m:s:f]` at the very start of a line (three runs of
/// digits separated by ':'): the lengths of the three runs.
pub open spec fn abnormal_tag(s: Seq<char>) -> Option<(nat, nat, nat)> {
    if s.len() == 0 || s[0] != '[' {
        None
    } else {
        let r1 = digit_run(s, 1);
        let p1: int = 1 + r1 as int;
        let r2 = digit_run(s, p1 + 1);
        let p2: int = p1 + 1 + r2;
        let r3 = digit_run(s, p2 + 1);
        let p3: int = p2 + 1 + r3;
        if r1 >= 1 && p1 < s.len() && s[p1] == ':' && r2 >= 1 && p2 < s.len() && s[p2] == ':'
            && r3 >= 1 && p3 < s.len() && s[p3] == ']' {
            Some((r1, r2, r3))
        } else {
            None
        }
    }
}

/// A line whose leading tag `[m:s:f]` is rewritten as `[m:s.f]`; any other
/// line unchanged.
pub open spec fn spec_fix_abnormal(s: Seq<char>) -> Seq<char> {
    match abnormal_tag(s) {
        Some(r) => {
            let p1: int = 1 + r.0 as int;
            let p2: int = p1 + 1 + r.1;
            let p3: int = p2 + 1 + r.2;
            seq!['['] + s.subrange(1, p1) + seq![':'] + s.subrange(p1 + 1, p2) + seq!['.']
                + s.subrange(p2 + 1, p3) + seq![']'] + s.subrange(p3 + 1, s.len() as int)
        },
        None => s,
    }
}

/// Rewrites a leading `[m:s:f]` tag as `[m:s.f]`.
pub fn fix_abnormal_timestamp(line: &str) -> (r: String)
    ensures
        r@ == spec_fix_abnormal(line@),
{
    let s = text::str_chars(line);
    let n = s.len();
    if n == 0 || s[0] != '[' {
        return text::string_from_chars(s.as_slice());
    }
    let r1 = digit_run_len(s.as_slice(), 1);
    let p1 = 1 + r1;
    if !(r1 >= 1 && p1 < n && s[p1] == ':') {
        return text::string_from_chars(s.as_slice());
    }
    let r2 = digit_run_len(s.as_slice(), p1 + 1);
    let p2 = p1 + 1 + r2;
    if !(r2 >= 1 && p2 < n && s[p2] == ':') {
        return text::string_from_chars(s.as_slice());
    }
    let r3 = digit_run_len(s.as_slice(), p2 + 1);
    let p3 = p2 + 1 + r3;
    if !(r3 >= 1 && p3 < n && s[p3] == ']') {
        return text::string_from_chars(s.as_slice());
    }
    let mut out: Vec<char> = Vec::new();
    out.push('[');
    let a = chars_range(s.as_slice(), 1, p1);
    append_chars(&mut out, a.as_slice());
    out.push(':');
    let b = chars_range(s.as_slice(), p1 + 1, p2);
    append_chars(&mut out, b.as_slice());
    out.push('.');
    let c = chars_range(s.as_slice(), p2 + 1, p3);
    append_chars(&mut out, c.as_slice());
    out.push(']');
    let d = chars_range(s.as_slice(), p3 + 1, n);
    append_chars(&mut out, d.as_slice());
    assert(out@ =~= spec_fix_abnormal(s@));
    text::string_from_chars(out.as_slice())
}

/// Appends characters at the end of a vector.
pub fn append_chars(out: &mut Vec<char>, more: &[char])
    ensures
        final(out)@ == old(out)@ + more@,
{
    let mut k: usize = 0;
    while k < more.len()
        invariant
            k <= more.len(),
            out@ == old(out)@ + more@.take(k as int),
        decreases more.len() - k,
    {
        out.push(more[k]);
        k += 1;
        assert(more@.take(k as int) =~= more@.take(k - 1).push(more@[k - 1]));
    }
    assert(more@.take(more.len() as int) =~= more@);
}

/// Lines joined with '\n' between them.
pub open spec fn join_lines(lines: Seq<Seq<char>>) -> Seq<char>
    decreases lines.len(),
{
    if lines.len() == 0 {
        Seq::empty()
    } else if lines.len() == 1 {
        lines[0]
    } else {
        join_lines(lines.drop_last()) + seq!['\n'] + lines.last()
    }
}

/// A text cut at every '\n' (`str::split('\n')`): at least one piece, and
/// one more than there are line breaks.
pub open spec fn split_lines(t: Seq<char>) -> Seq<Seq<char>>
    decreases t.len(),
{
    if t.len() == 0 {
        seq![Seq::empty()]
    } else {
        let p = split_lines(t.drop_last());
        if t.last() == '\n' {
            p.push(Seq::empty())
        } else {
            p.update(p.len() - 1, p.last().push(t.last()))
        }
    }
}

proof fn lemma_split_lines_nonempty(t: Seq<char>)
    ensures
        split_lines(t).len() >= 1,
    decreases t.len(),
{
    if t.len() > 0 {
        lemma_split_lines_nonempty(t.drop_last());
    }
}

/// Cutting a text at its line breaks and joining the pieces with '\n' gives
/// the text back.
pub proof fn law_join_split_lines(t: Seq<char>)
    ensures
        join_lines(split_lines(t)) == t,
    decreases t.len(),
{
    if t.len() > 0 {
        let u = t.drop_last();
        law_join_split_lines(u);
        lemma_split_lines_nonempty(u);
        let p = split_lines(u);
        if t.last() == '\n' {
            assert(split_lines(t) == p.push(Seq::<char>::empty()));
            assert(split_lines(t).drop_last() =~= p);
            assert(join_lines(split_lines(t)) =~= t);
        } else {
            let q = p.update(p.len() - 1, p.last().push(t.last()));
            assert(split_lines(t) == q);
            if p.len() == 1 {
                assert(join_lines(p) == p[0]);
                assert(join_lines(q) =~= t);
            } else {
                assert(q.drop_last() =~= p.drop_last());
                assert(join_lines(q) == join_lines(q.drop_last()) + seq!['\n'] + q.last());
                assert(join_lines(p) == join_lines(p.drop_last()) + seq!['\n'] + p.last());
                assert(q.last() == p.last().push(t.last()));
                assert(t =~= u.push(t.last()));
                assert(join_lines(q) =~= t);
            }
        }
    }
}

/// Cuts a text at every '\n'.
pub fn split_text_lines(text: &str) -> (r: Vec<String>)
    ensures
        strings_view(r@) == split_lines(text@),
{
    let t = text::str_chars(text);
    let mut lines: Vec<String> = Vec::new();
    let mut cur: Vec<char> = Vec::new();
    let mut k: usize = 0;
    while k < t.len()
        invariant
            k <= t.len(),
            strings_view(lines@).push(cur@) == split_lines(t@.take(k as int)),
        decreases t.len() - k,
    {
        let ghost before = strings_view(lines@);
        let ghost cur_before = cur@;
        assert(t@.take(k + 1).drop_last() =~= t@.take(k as int));
        if t[k] == '\n' {
            let piece = text::string_from_chars(cur.as_slice());
            lines.push(piece);
            cur = Vec::new();
            assert(strings_view(lines@) =~= before.push(cur_before));
            assert(strings_view(lines@).push(cur@) =~= split_lines(t@.take(k + 1)));
        } else {
            cur.push(t[k]);
            assert(strings_view(lines@).push(cur@) =~= split_lines(t@.take(k + 1)));
        }
        k += 1;
    }
    let last = text::string_from_chars(cur.as_slice());
    let ghost before = strings_view(lines@);
    lines.push(last);
    assert(strings_view(lines@) =~= before.push(cur@));
    assert(t@.take(t.len() as int) =~= t@);
    lines
}

/// Every line with its leading `[m:s:f]` tag rewritten.
pub open spec fn fixed_lines(lines: Seq<Seq<char>>) -> Seq<Seq<char>> {
    lines.map_values(|l: Seq<char>| spec_fix_abnormal(l))
}

/// Whether rewriting a line's leading `[m:s:f]` tag keeps what the line
/// reads as: it does unless that tag's seconds or fraction are too long for
/// a timestamp and a timestamp follows in the line.
pub open spec fn fix_keeps_line(s: Seq<char>) -> bool {
    match abnormal_tag(s) {
        Some(r) => (r.1 <= 2 && r.2 <= 3) || first_tag_from(s, 0) is None,
        None => true,
    }
}

/// The position of the second ':' of a leading `[m:s:f]` tag.
pub open spec fn abnormal_colon(r: (nat, nat, nat)) -> int {
    1 + r.0 as int + 1 + r.1 as int
}

proof fn lemma_fix_is_update(s: Seq<char>)
    requires
        abnormal_tag(s) is Some,
    ensures
        ({
            let p = abnormal_colon(abnormal_tag(s)->0);
            &&& 0 < p < s.len()
            &&& s[p] == ':'
            &&& s[1 + (abnormal_tag(s)->0).0 as int] == ':'
            &&& spec_fix_abnormal(s) == s.update(p, '.')
        }),
{
    let r = abnormal_tag(s)->0;
    let p1: int = 1 + r.0 as int;
    let p2: int = p1 + 1 + r.1;
    let p3: int = p2 + 1 + r.2;
    let t = spec_fix_abnormal(s);
    assert(t =~= s.update(p2, '.'));
}

proof fn lemma_digit_run_same(s: Seq<char>, t: Seq<char>, p: int, i: int)
    requires
        0 <= p < s.len(),
        s[p] == ':',
        t == s.update(p, '.'),
    ensures
        digit_run(t, i) == digit_run(s, i),
    decreases s.len() - i,
{
    assert(!is_tag_digit(':') && !is_tag_digit('.'));
    if 0 <= i < s.len() {
        lemma_digit_run_same(s, t, p, i + 1);
    }
}

proof fn lemma_tag_at_same(s: Seq<char>, t: Seq<char>, p: int, j: int, k: int)
    requires
        0 <= j,
        j + 1 < p < s.len(),
        s[j] == ':',
        s[p] == ':',
        forall|x: int| j < x < p ==> is_tag_digit(#[trigger] s[x]),
        t == s.update(p, '.'),
    ensures
        tag_at(t, k) == tag_at(s, k),
{
    assert(!is_tag_digit(':') && !is_tag_digit('.'));
    if 0 <= k < s.len() && s[k] == '[' {
        assert(k != p);
        lemma_digit_run_same(s, t, p, k + 1);
        lemma_digit_run_bound(s, k + 1);
        let ml = digit_run(s, k + 1);
        let c = k + 1 + ml;
        if ml > 0 && c == p {
            // the run from k + 1 reaches p, so it covers j, which is no digit
            if k < j {
                assert(is_tag_digit(s[j]));
            } else if k == j {
                assert(s[k] == ':');
            } else {
                assert(is_tag_digit(s[k]));
            }
        }
        if ml > 0 && c < s.len() && s[c] == ':' {
            lemma_digit_run_same(s, t, p, c + 1);
            let sl = digit_run(s, c + 1);
            let q = c + 1 + sl;
            if q < s.len() {
                lemma_digit_run_same(s, t, p, q + 1);
            }
        }
    }
}

proof fn lemma_first_tag_same(s: Seq<char>, t: Seq<char>, p: int, j: int, k: int)
    requires
        0 <= j,
        j + 1 < p < s.len(),
        s[j] == ':',
        s[p] == ':',
        forall|x: int| j < x < p ==> is_tag_digit(#[trigger] s[x]),
        t == s.update(p, '.'),
    ensures
        first_tag_from(t, k) == first_tag_from(s, k),
    decreases s.len() - k,
{
    if 0 <= k < s.len() {
        lemma_tag_at_same(s, t, p, j, k);
        lemma_first_tag_same(s, t, p, j, k + 1);
    }
}

proof fn lemma_strip_same_after(s: Seq<char>, t: Seq<char>, p: int, j: int, k: int)
    requires
        0 <= j,
        j + 1 < p < s.len(),
        s[j] == ':',
        s[p] == ':',
        forall|x: int| j < x < p ==> is_tag_digit(#[trigger] s[x]),
        t == s.update(p, '.'),
        k > p,
    ensures
        strip_tags(t, k) == strip_tags(s, k),
    decreases s.len() - k,
{
    if 0 <= k < s.len() {
        lemma_tag_at_same(s, t, p, j, k);
        match tag_at(s, k) {
            Some(x) => {
                if x.3 > k {
                    lemma_strip_same_after(s, t, p, j, x.3);
                }
            },
            None => {
                lemma_strip_same_after(s, t, p, j, k + 1);
            },
        }
    }
}

/// Rewriting a line's leading `[m:s:f]` tag keeps the line's time.
#[verifier::spinoff_prover]
#[verifier::rlimit(40)]
pub proof fn law_fix_keeps_timestamp(s: Seq<char>)
    ensures
        spec_lrc_timestamp(spec_fix_abnormal(s)) == spec_lrc_timestamp(s),
{
    if abnormal_tag(s) is Some {
        lemma_fix_is_update(s);
        let r = abnormal_tag(s)->0;
        let j: int = 1 + r.0 as int;
        let p = abnormal_colon(r);
        let t = spec_fix_abnormal(s);
        lemma_digit_run_bound(s, j + 1);
        lemma_first_tag_same(s, t, p, j, 0);
        match first_tag_from(s, 0) {
            Some(i) => {
                lemma_first_tag_from(s, 0);
                lemma_tag_at_same(s, t, p, j, i);
                let x = tag_at(s, i)->0;
                let ms = i + 1;
                let ss = i + 2 + x.0;
                let fs = ss + x.1 + 1;
                lemma_digit_run_bound(s, ms);
                lemma_digit_run_bound(s, ss);
                lemma_digit_run_bound(s, fs);
                assert(t.subrange(ms, ms + x.0) =~= s.subrange(ms, ms + x.0));
                assert(t.subrange(ss, ss + x.1) =~= s.subrange(ss, ss + x.1));
                if x.2 > 0 {
                    assert(t.subrange(fs, fs + x.2) =~= s.subrange(fs, fs + x.2));
                }
            },
            None => {},
        }
    }
}

/// Rewriting a line's leading `[m:s:f]` tag keeps what the line reads as
/// (its time and text), unless that tag is too long for a timestamp and a
/// timestamp follows.
pub proof fn law_fix_keeps_line(s: Seq<char>)
    requires
        fix_keeps_line(s),
    ensures
        spec_lrc_line(spec_fix_abnormal(s)) == spec_lrc_line(s),
{
    law_fix_keeps_timestamp(s);
    if abnormal_tag(s) is Some && spec_lrc_timestamp(s) is Some {
        lemma_fix_is_update(s);
        let r = abnormal_tag(s)->0;
        let j: int = 1 + r.0 as int;
        let p = abnormal_colon(r);
        let t = spec_fix_abnormal(s);
        lemma_digit_run_bound(s, j + 1);
        lemma_tag_at_same(s, t, p, j, 0);
        let x = tag_at(s, 0)->0;
        assert(x.3 == p + r.2 + 2);
        lemma_strip_same_after(s, t, p, j, x.3);
    }
}

proof fn lemma_no_break_drop_last(t: Seq<char>)
    requires
        t.len() > 0,
        !t.contains('\n'),
    ensures
        !t.drop_last().contains('\n'),
        t.last() != '\n',
{
    if t.drop_last().contains('\n') {
        let i = choose|i: int| 0 <= i < t.drop_last().len() && t.drop_last()[i] == '\n';
        assert(t[i] == '\n');
    }
    if t.last() == '\n' {
        assert(t[t.len() - 1] == '\n');
    }
}

proof fn lemma_split_no_break(t: Seq<char>)
    requires
        !t.contains('\n'),
    ensures
        split_lines(t) == seq![t],
    decreases t.len(),
{
    if t.len() == 0 {
        assert(t =~= Seq::<char>::empty());
    } else {
        lemma_no_break_drop_last(t);
        lemma_split_no_break(t.drop_last());
        let p = split_lines(t.drop_last());
        assert(p == seq![t.drop_last()]);
        assert(split_lines(t) == p.update(p.len() - 1, p.last().push(t.last())));
        assert(t.drop_last().push(t.last()) =~= t);
        assert(split_lines(t) =~= seq![t]);
    }
}

proof fn lemma_split_after_break(a: Seq<char>, b: Seq<char>)
    requires
        !b.contains('\n'),
    ensures
        split_lines(a + seq!['\n'] + b) == split_lines(a).push(b),
    decreases b.len(),
{
    let u = a + seq!['\n'] + b;
    if b.len() == 0 {
        assert(u =~= a.push('\n'));
        assert(u.drop_last() =~= a);
        assert(u.last() == '\n');
        assert(split_lines(u) == split_lines(u.drop_last()).push(Seq::<char>::empty()));
        assert(b =~= Seq::<char>::empty());
    } else {
        let c = b.drop_last();
        lemma_no_break_drop_last(b);
        lemma_split_after_break(a, c);
        assert(u.drop_last() =~= a + seq!['\n'] + c);
        assert(u.last() == b.last());
        let p = split_lines(u.drop_last());
        assert(p == split_lines(a).push(c));
        assert(split_lines(u) == p.update(p.len() - 1, p.last().push(u.last())));
        assert(c.push(b.last()) =~= b);
        assert(split_lines(u) =~= split_lines(a).push(b));
    }
}

/// Joining lines without line breaks with '\n' and cutting the text at its
/// line breaks gives the lines back.
pub proof fn law_split_join_lines(ls: Seq<Seq<char>>)
    requires
        ls.len() > 0,
        forall|i: int| 0 <= i < ls.len() ==> !(#[trigger] ls[i]).contains('\n'),
    ensures
        split_lines(join_lines(ls)) == ls,
    decreases ls.len(),
{
    if ls.len() == 1 {
        lemma_split_no_break(ls[0]);
        assert(seq![ls[0]] =~= ls);
    } else {
        let p = ls.drop_last();
        law_split_join_lines(p);
        assert(ls[ls.len() - 1] == ls.last());
        lemma_split_after_break(join_lines(p), ls.last());
        assert(p.push(ls.last()) =~= ls);
    }
}

proof fn lemma_fixed_no_break(s: Seq<char>)
    requires
        !s.contains('\n'),
    ensures
        !spec_fix_abnormal(s).contains('\n'),
{
    if abnormal_tag(s) is Some {
        lemma_fix_is_update(s);
        let t = spec_fix_abnormal(s);
        if t.contains('\n') {
            let i = choose|i: int| 0 <= i < t.len() && t[i] == '\n';
            assert(s[i] == '\n');
        }
    }
}

proof fn lemma_translations_fixed(x: u64, ts: Seq<Seq<char>>)
    requires
        forall|i: int| 0 <= i < ts.len() ==> fix_keeps_line(#[trigger] ts[i]),
    ensures
        translations_at(x, fixed_lines(ts)) == translations_at(x, ts),
    decreases ts.len(),
{
    if ts.len() > 0 {
        let p = ts.drop_last();
        assert(fixed_lines(ts).drop_last() =~= fixed_lines(p));
        assert(ts[ts.len() - 1] == ts.last());
        lemma_translations_fixed(x, p);
        let l = ts.last();
        assert(fixed_lines(ts).last() == spec_fix_abnormal(l));
        law_fix_keeps_line(l);
        law_fix_keeps_timestamp(l);
    }
}

proof fn lemma_merge_fixed(ls: Seq<Seq<char>>, ts: Seq<Seq<char>>)
    requires
        forall|i: int| 0 <= i < ls.len() ==> fix_keeps_line(#[trigger] ls[i]),
        forall|i: int| 0 <= i < ts.len() ==> fix_keeps_line(#[trigger] ts[i]),
    ensures
        spec_merge_lyrics(fixed_lines(ls), fixed_lines(ts)) == spec_merge_lyrics(ls, ts),
    decreases ls.len(),
{
    if ls.len() > 0 {
        let p = ls.drop_last();
        assert(fixed_lines(ls).drop_last() =~= fixed_lines(p));
        assert(ls[ls.len() - 1] == ls.last());
        lemma_merge_fixed(p, ts);
        assert(fixed_lines(ls).last() == spec_fix_abnormal(ls.last()));
        law_fix_keeps_line(ls.last());
        match spec_lrc_line(ls.last()) {
            Some(x) => lemma_translations_fixed(x.0, ts),
            None => {},
        }
    }
}

/// What the lyric cache gives back is the lyric that was first shown: a
/// fetched lyric and translation (lines without line breaks) are shown
/// merged; they are cached with their `[m:s:f]` tags rewritten, the
/// translation only when it has lines; reading the cache back and merging
/// gives the same timed lines, unless a line starts with an `[m:s:f]` tag too
/// long for a timestamp and holds a timestamp after it.
pub proof fn law_lyric_cache_round_trip(ls: Seq<Seq<char>>, ts: Seq<Seq<char>>)
    requires
        forall|i: int| 0 <= i < ls.len() ==> !(#[trigger] ls[i]).contains('\n') && fix_keeps_line(ls[i]),
        forall|i: int| 0 <= i < ts.len() ==> !(#[trigger] ts[i]).contains('\n') && fix_keeps_line(ts[i]),
    ensures
        spec_merge_lyrics(
            split_lines(join_lines(fixed_lines(ls))),
            if ts.len() > 0 { split_lines(join_lines(fixed_lines(ts))) } else { Seq::empty() },
        ) == spec_merge_lyrics(ls, ts),
{
    let fl = fixed_lines(ls);
    let ft = fixed_lines(ts);
    assert forall|i: int| 0 <= i < fl.len() implies !(#[trigger] fl[i]).contains('\n') by {
        lemma_fixed_no_break(ls[i]);
    }
    assert forall|i: int| 0 <= i < ft.len() implies !(#[trigger] ft[i]).contains('\n') by {
        lemma_fixed_no_break(ts[i]);
    }
    let tr: Seq<Seq<char>> = if ts.len() > 0 { split_lines(join_lines(ft)) } else { Seq::empty() };
    if ts.len() > 0 {
        law_split_join_lines(ft);
    } else {
        assert(ft =~= Seq::<Seq<char>>::empty());
    }
    assert(tr == ft);
    lemma_merge_fixed(ls, ts);
    if ls.len() > 0 {
        law_split_join_lines(fl);
    } else {
        assert(fl =~= Seq::<Seq<char>>::empty());
        assert(join_lines(fl) =~= Seq::<char>::empty());
        lemma_split_no_break(Seq::<char>::empty());
        let e = split_lines(join_lines(fl));
        assert(e == seq![Seq::<char>::empty()]);
        assert(e.drop_last() =~= Seq::<Seq<char>>::empty());
        assert(spec_lrc_line(e.last()) is None);
        assert(spec_merge_lyrics(e, tr) =~= Seq::<(u64, Seq<char>)>::empty());
    }
}

/// The text a lyric is cached as: its lines, each with a leading `[m:s:f]`
/// tag rewritten as `[m:s.f]`, joined with '\n'.
pub fn lyric_cache_text(lines: &Vec<String>) -> (r: String)
    ensures
        r@ == join_lines(fixed_lines(strings_view(lines@))),
{
    let ghost ls = fixed_lines(strings_view(lines@));
    let mut out: Vec<char> = Vec::new();
    let mut i: usize = 0;
    while i < lines.len()
        invariant
            i <= lines.len(),
            ls == fixed_lines(strings_view(lines@)),
            out@ == join_lines(ls.take(i as int)),
        decreases lines.len() - i,
    {
        let fixed = fix_abnormal_timestamp(lines[i].as_str());
        let fc = text::str_chars(fixed.as_str());
        let ghost before = out@;
        assert(ls.take(i + 1).drop_last() =~= ls.take(i as int));
        assert(ls.take(i + 1).last() == fc@);
        if i > 0 {
            out.push('\n');
        }
        append_chars(&mut out, fc.as_slice());
        if i == 0 {
            assert(join_lines(ls.take(1)) == ls.take(1)[0]);
            assert(out@ =~= join_lines(ls.take(1)));
        } else {
            assert(out@ =~= join_lines(ls.take(i + 1)));
        }
        i += 1;
    }
    assert(ls.take(lines.len() as int) =~= ls);
    text::string_from_chars(out.as_slice())
}

/// A song name with every '/' replaced by the full-width '／'.
pub open spec fn replace_slashes(s: Seq<char>) -> Seq<char> {
    s.map_values(|c: char| if c == '/' { '／' } else { c })
}

/// `name-singer-album.lrc`, the name with '/' replaced by '／'.
pub open spec fn spec_lyric_file_name(name: Seq<char>, singer: Seq<char>, album: Seq<char>) -> Seq<char> {
    replace_slashes(name) + seq!['-'] + singer + seq!['-'] + album + seq!['.', 'l', 'r', 'c']
}

/// The file name a song's lyric is cached under.
pub fn lyric_cache_file_name(name: &str, singer: &str, album: &str) -> (r: String)
    ensures
        r@ == spec_lyric_file_name(name@, singer@, album@),
{
    let n = text::str_chars(name);
    let mut out: Vec<char> = Vec::new();
    let mut i: usize = 0;
    while i < n.len()
        invariant
            i <= n.len(),
            out@ == replace_slashes(n@.take(i as int)),
        decreases n.len() - i,
    {
        let c = n[i];
        out.push(if c == '/' { '／' } else { c });
        i += 1;
        assert(out@ =~= replace_slashes(n@.take(i as int)));
    }
    assert(n@.take(n.len() as int) =~= n@);
    out.push('-');
    let sg = text::str_chars(singer);
    append_chars(&mut out, sg.as_slice());
    out.push('-');
    let al = text::str_chars(album);
    append_chars(&mut out, al.as_slice());
    out.push('.');
    out.push('l');
    out.push('r');
    out.push('c');
    assert(out@ =~= spec_lyric_file_name(name@, singer@, album@));
    text::string_from_chars(out.as_slice())
}

/// `<song id>.tlrc`, the file a song's translation is cached under.
pub fn translation_cache_file_name(song_id: u64) -> (r: String)
    ensures
        r@ == text::decimal(song_id as nat) + seq!['.', 't', 'l', 'r', 'c'],
{
    let mut out = text::u64_decimal_chars(song_id);
    out.push('.');
    out.push('t');
    out.push('l');
    out.push('r');
    out.push('c');
    assert(out@ =~= text::decimal(song_id as nat) + seq!['.', 't', 'l', 'r', 'c']);
    text::string_from_chars(out.as_slice())
}

/// The timed lines of a cached lyric and, where one was cached, its
/// translation: both texts are cut at '\n' and merged.
pub fn lyrics_from_cache(lyric: &str, translation: Option<&str>) -> (r: Vec<(u64, String)>)
    ensures
        timed_view(r@) == spec_merge_lyrics(
            split_lines(lyric@),
            match translation {
                Some(t) => split_lines(t@),
                None => Seq::empty(),
            },
        ),
{
    let lines = split_text_lines(lyric);
    let tlines: Vec<String> = match translation {
        Some(t) => split_text_lines(t),
        None => Vec::new(),
    };
    assert(strings_view(tlines@) =~= match translation {
        Some(t) => split_lines(t@),
        None => Seq::<Seq<char>>::empty(),
    });
    merge_lyrics_with_translation(&lines, &tlines)
}

/// The time of line `i`, or the largest time past the last line.
pub open spec fn time_or_max(ts: Seq<u64>, i: int) -> u64 {
    if 0 <= i < ts.len() { ts[i] } else { u64::MAX }
}

/// Whether line `i` is playing at `time`: from its time until the next
/// line's, or until the line after when the next one shares its time.
pub open spec fn line_playing(ts: Seq<u64>, i: int, time: u64) -> bool {
    let cur = ts[i];
    let next = time_or_max(ts, i + 1);
    (time >= cur && time < next) || (cur == next && time >= cur && time < time_or_max(ts, i + 2))
}

/// The lines to highlight at `time`: the first playing line, together with
/// the next one when both share a time.
pub open spec fn playing_from(ts: Seq<u64>, time: u64, k: int) -> Option<(int, int)>
    decreases ts.len() - k,
{
    if k < 0 || k >= ts.len() {
        None
    } else if line_playing(ts, k, time) {
        if ts[k] == time_or_max(ts, k + 1) { Some((k, k + 1)) } else { Some((k, k)) }
    } else {
        playing_from(ts, time, k + 1)
    }
}

/// The highlighted lines are lines whose time has come and whose follower's
/// has not yet: one line, or two lines sharing a time.
pub proof fn law_playing_range(ts: Seq<u64>, time: u64, k: int)
    requires
        0 <= k,
    ensures
        playing_from(ts, time, k) matches Some(r) ==> {
            &&& k <= r.0 < ts.len()
            &&& r.1 < ts.len()
            &&& (r.1 == r.0 || r.1 == r.0 + 1)
            &&& ts[r.0] <= time
            &&& ts[r.1] == ts[r.0]
            &&& time < time_or_max(ts, r.1 + 1)
        },
    decreases ts.len() - k,
{
    if k < ts.len() && !line_playing(ts, k, time) {
        law_playing_range(ts, time, k + 1);
    }
}

/// The times of timed lines.
pub open spec fn line_times(v: Seq<(u64, String)>) -> Seq<u64> {
    v.map_values(|p: (u64, String)| p.0)
}

/// The range of lines to highlight at a playback time.
pub fn get_playing_indexes(lyrics: &Vec<(u64, String)>, time: u64) -> (r: Option<(usize, usize)>)
    ensures
        match r {
            Some(p) => playing_from(line_times(lyrics@), time, 0) == Some((p.0 as int, p.1 as int)),
            None => playing_from(line_times(lyrics@), time, 0) is None,
        },
{
    let ghost ts = line_times(lyrics@);
    let n = lyrics.len();
    let mut i: usize = 0;
    while i < n
        invariant
            i <= n == lyrics.len(),
            ts == line_times(lyrics@),
            playing_from(ts, time, 0) == playing_from(ts, time, i as int),
        decreases n - i,
    {
        let current = lyrics[i].0;
        let next: u64 = if i + 1 < n { lyrics[i + 1].0 } else { u64::MAX };
        let after_next: u64 = if i + 1 < n && i + 2 < n { lyrics[i + 2].0 } else { u64::MAX };
        assert(current == ts[i as int]);
        assert(next == time_or_max(ts, i + 1));
        assert(after_next == time_or_max(ts, i + 2));
        if (time >= current && time < next) || (current == next && time >= current && time < after_next) {
            if current == next {
                return Some((i, i + 1));
            } else {
                return Some((i, i));
            }
        }
        i += 1;
    }
    None
}

} // verus!
