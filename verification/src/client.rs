//! What the music client derives from its session and settings: the cookie
//! header of a web API request, the bit rate of a quality setting, the
//! parameters and addresses of the comment requests, and the order a
//! playlist's songs are completed in.
use vstd::prelude::*;
use crate::text;
use crate::lyrics::append_chars;

verus! {

/// The names of the comment page size and of the reply page size.
pub const SONG_COMMENT_LIMIT: u16 = 20;
/// How many replies a replies request asks for.
pub const SONG_COMMENT_REPLY_LIMIT: u16 = 100;
/// How many songs one song detail request asks for.
pub const SONG_DETAIL_BATCH_SIZE: usize = 500;

/// The bit rate of a quality setting.
pub open spec fn spec_api_rate(item: u32) -> u32 {
    if item == 0 {
        128000
    } else if item == 1 {
        192000
    } else if item == 2 {
        320000
    } else if item == 3 {
        999000
    } else if item == 4 {
        1900000
    } else {
        320000
    }
}


/// Whether `a` comes strictly before `b` in code point order (the order of
/// `String`'s `Ord`).
pub open spec fn chars_lt(a: Seq<char>, b: Seq<char>) -> bool
    decreases a.len(),
{
    if a.len() == 0 {
        b.len() > 0
    } else if b.len() == 0 {
        false
    } else if a[0] != b[0] {
        a[0] < b[0]
    } else {
        chars_lt(a.drop_first(), b.drop_first())
    }
}

/// Compares two character sequences in code point order.
pub fn chars_less(a: &[char], b: &[char]) -> (r: bool)
    ensures
        r == chars_lt(a@, b@),
{
    let mut i: usize = 0;
    assert(a@.skip(0) =~= a@ && b@.skip(0) =~= b@);
    while i < a.len() && i < b.len()
        invariant
            i <= a.len(),
            i <= b.len(),
            chars_lt(a@, b@) == chars_lt(a@.skip(i as int), b@.skip(i as int)),
        decreases a.len() - i,
    {
        let ghost sa = a@.skip(i as int);
        let ghost sb = b@.skip(i as int);
        assert(sa[0] == a@[i as int] && sb[0] == b@[i as int]);
        if a[i] != b[i] {
            return a[i] < b[i];
        }
        assert(sa.drop_first() =~= a@.skip(i + 1));
        assert(sb.drop_first() =~= b@.skip(i + 1));
        i += 1;
    }
    let ghost sa = a@.skip(i as int);
    let ghost sb = b@.skip(i as int);
    assert(sa.len() == 0 || sb.len() == 0);
    i >= a.len() && i < b.len()
}

/// A cookie or parameter pair taken by its characters.
pub type Pair = (Seq<char>, Seq<char>);

/// The pairs of strings taken by their characters.
pub open spec fn pairs_of(v: Seq<(String, String)>) -> Seq<Pair> {
    v.map_values(|p: (String, String)| (p.0@, p.1@))
}

/// The cookies the header always sets itself.
pub open spec fn is_fixed_cookie(name: Seq<char>) -> bool {
    name == "os"@ || name == "appver"@ || name == "__remember_me"@
}

/// The position of the first pair named `name`.
pub open spec fn name_index(ps: Seq<Pair>, name: Seq<char>) -> Option<int>
    decreases ps.len(),
{
    if ps.len() == 0 {
        None
    } else {
        match name_index(ps.drop_last(), name) {
            Some(i) => Some(i),
            None => if ps.last().0 == name { Some(ps.len() - 1) } else { None },
        }
    }
}

/// The cookies of the session with one value per name (the first one met)
/// and without those the header sets itself, in the order first met.
pub open spec fn first_values(cs: Seq<Pair>) -> Seq<Pair>
    decreases cs.len(),
{
    if cs.len() == 0 {
        Seq::empty()
    } else {
        let p = first_values(cs.drop_last());
        let c = cs.last();
        if is_fixed_cookie(c.0) || name_index(p, c.0) is Some { p } else { p.push(c) }
    }
}

/// The cookies that lead the header, in this order, when the session has
/// them.
pub open spec fn priority_cookie_names() -> Seq<Seq<char>> {
    seq!["MUSIC_U"@, "MUSIC_A_T"@, "MUSIC_R_T"@, "__csrf"@, "NMTID"@]
}

/// `name=value`.
pub open spec fn cookie_part(p: Pair) -> Seq<char> {
    p.0 + seq!['='] + p.1
}

/// The parts of the cookies named in `names`, in that order, for those the
/// session has.
pub open spec fn priority_parts(d: Seq<Pair>, names: Seq<Seq<char>>) -> Seq<Seq<char>>
    decreases names.len(),
{
    if names.len() == 0 {
        Seq::empty()
    } else {
        let prev = priority_parts(d, names.drop_last());
        match name_index(d, names.last()) {
            Some(i) => prev.push(cookie_part(d[i])),
            None => prev,
        }
    }
}

/// The cookies not named in the priority list, in order.
pub open spec fn non_priority(d: Seq<Pair>) -> Seq<Pair>
    decreases d.len(),
{
    if d.len() == 0 {
        Seq::empty()
    } else {
        let prev = non_priority(d.drop_last());
        if priority_cookie_names().contains(d.last().0) { prev } else { prev.push(d.last()) }
    }
}

/// A pair put into a list sorted by name: before the first pair whose name
/// comes after its own.
pub open spec fn insert_by_name(sorted: Seq<Pair>, x: Pair) -> Seq<Pair>
    decreases sorted.len(),
{
    if sorted.len() == 0 {
        seq![x]
    } else if chars_lt(x.0, sorted[0].0) {
        seq![x] + sorted
    } else {
        seq![sorted[0]] + insert_by_name(sorted.drop_first(), x)
    }
}

/// Pairs sorted by name (pairs with equal names keep their order).
pub open spec fn sort_by_name(s: Seq<Pair>) -> Seq<Pair>
    decreases s.len(),
{
    if s.len() == 0 {
        s
    } else {
        insert_by_name(sort_by_name(s.drop_last()), s.last())
    }
}

/// Parts joined with "; ".
pub open spec fn join_parts(parts: Seq<Seq<char>>) -> Seq<char>
    decreases parts.len(),
{
    if parts.len() == 0 {
        Seq::empty()
    } else if parts.len() == 1 {
        parts[0]
    } else {
        join_parts(parts.drop_last()) + seq![';', ' '] + parts.last()
    }
}

/// The parts of the cookie header: the client's own settings, the priority
/// cookies, then the other cookies by name.
pub open spec fn cookie_header_parts(os: Seq<char>, cookies: Seq<Pair>) -> Seq<Seq<char>> {
    let d = first_values(cookies);
    seq!["os="@ + os, "appver=2.7.1.198277"@, "__remember_me=true"@]
        + priority_parts(d, priority_cookie_names())
        + sort_by_name(non_priority(d)).map_values(|p: Pair| cookie_part(p))
}

/// The position of the first pair with a name.
fn find_name(ps: &Vec<(String, String)>, name: &[char]) -> (r: Option<usize>)
    ensures
        match r {
            Some(i) => name_index(pairs_of(ps@), name@) == Some(i as int) && i < ps.len(),
            None => name_index(pairs_of(ps@), name@) is None,
        },
{
    let ghost pv = pairs_of(ps@);
    let mut i: usize = 0;
    while i < ps.len()
        invariant
            i <= ps.len(),
            pv == pairs_of(ps@),
            name_index(pv.take(i as int), name@) is None,
        decreases ps.len() - i,
    {
        assert(pv.take(i + 1).drop_last() =~= pv.take(i as int));
        let n = text::str_chars(ps[i].0.as_str());
        if text::chars_eq(n.as_slice(), name) {
            proof { lemma_name_index_prefix(pv, name@, i + 1); }
            return Some(i);
        }
        i += 1;
    }
    assert(pv.take(ps.len() as int) =~= pv);
    None
}

proof fn lemma_name_index_prefix(ps: Seq<Pair>, name: Seq<char>, k: int)
    requires
        0 <= k <= ps.len(),
        name_index(ps.take(k), name) is Some,
    ensures
        name_index(ps, name) == name_index(ps.take(k), name),
    decreases ps.len() - k,
{
    if k < ps.len() {
        assert(ps.take(k + 1).drop_last() =~= ps.take(k));
        lemma_name_index_prefix(ps, name, k + 1);
    } else {
        assert(ps.take(k) =~= ps);
    }
}

/// The value of the first cookie named `name`, or nothing without one.
pub open spec fn cookie_value(cs: Seq<Pair>, name: Seq<char>) -> Seq<char> {
    match name_index(cs, name) {
        Some(i) => cs[i].1,
        None => Seq::empty(),
    }
}

/// The value of the first `__csrf` cookie, or an empty string without one.
fn csrf_of(cookies: &Vec<(String, String)>) -> (r: String)
    ensures
        r@ == cookie_value(pairs_of(cookies@), "__csrf"@),
{
    let name = text::str_chars("__csrf");
    match find_name(cookies, name.as_slice()) {
        Some(i) => text::str_to_string(cookies[i].1.as_str()),
        None => String::new(),
    }
}

/// Copies a pair of strings.
fn copy_pair(p: &(String, String)) -> (r: (String, String))
    ensures
        r.0@ == p.0@,
        r.1@ == p.1@,
{
    (text::str_to_string(p.0.as_str()), text::str_to_string(p.1.as_str()))
}

/// Whether a cookie name is one the header sets itself.
fn fixed_cookie(name: &[char]) -> (r: bool)
    ensures
        r == is_fixed_cookie(name@),
{
    let a = text::str_chars("os");
    let b = text::str_chars("appver");
    let c = text::str_chars("__remember_me");
    text::chars_eq(name, a.as_slice()) || text::chars_eq(name, b.as_slice()) || text::chars_eq(name, c.as_slice())
}

/// The session's cookies with one value per name (the first met) and
/// without the fixed ones.
pub fn first_cookie_values(cookies: &Vec<(String, String)>) -> (r: Vec<(String, String)>)
    ensures
        pairs_of(r@) == first_values(pairs_of(cookies@)),
        names_unique(pairs_of(r@)),
{
    let ghost cv = pairs_of(cookies@);
    proof { lemma_first_values(cv); }
    let mut out: Vec<(String, String)> = Vec::new();
    let mut i: usize = 0;
    while i < cookies.len()
        invariant
            i <= cookies.len(),
            cv == pairs_of(cookies@),
            pairs_of(out@) == first_values(cv.take(i as int)),
        decreases cookies.len() - i,
    {
        assert(cv.take(i + 1).drop_last() =~= cv.take(i as int));
        assert(cv.take(i + 1).last() == cv[i as int]);
        let name = text::str_chars(cookies[i].0.as_str());
        if !fixed_cookie(name.as_slice()) && find_name(&out, name.as_slice()).is_none() {
            let ghost prev = pairs_of(out@);
            out.push(copy_pair(&cookies[i]));
            assert(pairs_of(out@) =~= prev.push(cv[i as int]));
        }
        i += 1;
    }
    assert(cv.take(cookies.len() as int) =~= cv);
    out
}

/// `name=value` as characters.
fn cookie_part_chars(p: &(String, String)) -> (r: Vec<char>)
    ensures
        r@ == cookie_part((p.0@, p.1@)),
{
    let mut out = text::str_chars(p.0.as_str());
    out.push('=');
    let v = text::str_chars(p.1.as_str());
    append_chars(&mut out, v.as_slice());
    out
}

/// The names of the priority cookies.
fn priority_names() -> (r: Vec<&'static str>)
    ensures
        r@.map_values(|k: &str| k@) == priority_cookie_names(),
{
    let v: Vec<&'static str> = vec!["MUSIC_U", "MUSIC_A_T", "MUSIC_R_T", "__csrf", "NMTID"];
    assert(v@.map_values(|k: &str| k@) =~= priority_cookie_names());
    v
}

/// Sorts pairs by name, keeping the order of equal names.
pub fn sort_pairs_by_name(v: Vec<(String, String)>) -> (r: Vec<(String, String)>)
    ensures
        pairs_of(r@) == sort_by_name(pairs_of(v@)),
{
    let ghost pv = pairs_of(v@);
    let mut sorted: Vec<(String, String)> = Vec::new();
    let mut i: usize = 0;
    while i < v.len()
        invariant
            i <= v.len(),
            pv == pairs_of(v@),
            pairs_of(sorted@) == sort_by_name(pv.take(i as int)),
        decreases v.len() - i,
    {
        assert(pv.take(i + 1).drop_last() =~= pv.take(i as int));
        assert(pv.take(i + 1).last() == pv[i as int]);
        let x = copy_pair(&v[i]);
        let xn = text::str_chars(x.0.as_str());
        let ghost s0 = pairs_of(sorted@);
        let mut p: usize = 0;
        assert(s0.take(0) =~= Seq::<Pair>::empty() && s0.skip(0) =~= s0);
        while p < sorted.len()
            invariant
                p <= sorted.len(),
                s0 == pairs_of(sorted@),
                xn@ == x.0@,
                insert_by_name(s0, (x.0@, x.1@)) == s0.take(p as int) + insert_by_name(s0.skip(p as int), (x.0@, x.1@)),
            ensures
                p == sorted.len() || chars_lt(x.0@, s0[p as int].0),
            decreases sorted.len() - p,
        {
            let sn = text::str_chars(sorted[p].0.as_str());
            assert(s0.skip(p as int)[0] == s0[p as int]);
            if chars_less(xn.as_slice(), sn.as_slice()) {
                break;
            }
            assert(s0.skip(p as int).drop_first() =~= s0.skip(p + 1));
            assert(s0.take(p + 1) =~= s0.take(p as int).push(s0[p as int]));
            assert(s0.take(p as int) + insert_by_name(s0.skip(p as int), (x.0@, x.1@))
                =~= s0.take(p + 1) + insert_by_name(s0.skip(p + 1), (x.0@, x.1@)));
            p += 1;
        }
        let ghost xv = (x.0@, x.1@);
        assert(insert_by_name(s0.skip(p as int), xv) =~= seq![xv] + s0.skip(p as int));
        sorted.insert(p, x);
        assert(pairs_of(sorted@) =~= s0.take(p as int) + (seq![xv] + s0.skip(p as int)));
        i += 1;
    }
    assert(pv.take(v.len() as int) =~= pv);
    sorted
}

/// The `Cookie` header of a web API request for a client OS and the
/// session's cookies (those of every web API address, in order).
fn header_of_cookies(os: &str, cookies: &Vec<(String, String)>) -> (r: String)
    ensures
        r@ == join_parts(cookie_header_parts(os@, pairs_of(cookies@))),
{
    let d = first_cookie_values(cookies);
    let ghost dv = pairs_of(d@);
    let mut parts: Vec<Vec<char>> = Vec::new();
    let mut os_part = text::str_chars("os=");
    let osc = text::str_chars(os);
    append_chars(&mut os_part, osc.as_slice());
    parts.push(os_part);
    parts.push(text::str_chars("appver=2.7.1.198277"));
    parts.push(text::str_chars("__remember_me=true"));
    let ghost fixed = seq!["os="@ + os@, "appver=2.7.1.198277"@, "__remember_me=true"@];
    assert(parts@.map_values(|c: Vec<char>| c@) =~= fixed);
    let names = priority_names();
    let ghost pn = priority_cookie_names();
    assert(names@.map_values(|n: &str| n@).len() == names@.len());
    let mut k: usize = 0;
    while k < names.len()
        invariant
            k <= names.len() == 5,
            names@.map_values(|n: &str| n@) == pn,
            pn == priority_cookie_names(),
            dv == pairs_of(d@),
            parts@.map_values(|c: Vec<char>| c@) == fixed + priority_parts(dv, pn.take(k as int)),
        decreases names.len() - k,
    {
        assert(pn.take(k + 1).drop_last() =~= pn.take(k as int));
        assert(pn.take(k + 1).last() == names@[k as int]@);
        let nc = text::str_chars(names[k]);
        let ghost prev = parts@.map_values(|c: Vec<char>| c@);
        match find_name(&d, nc.as_slice()) {
            Some(i) => {
                let part = cookie_part_chars(&d[i]);
                parts.push(part);
                assert(parts@.map_values(|c: Vec<char>| c@) =~= prev.push(cookie_part(dv[i as int])));
            },
            None => {},
        }
        k += 1;
    }
    assert(pn.take(5) =~= pn);
    let mut rest: Vec<(String, String)> = Vec::new();
    let mut j: usize = 0;
    while j < d.len()
        invariant
            j <= d.len(),
            dv == pairs_of(d@),
            names@.map_values(|n: &str| n@) == priority_cookie_names(),
            names.len() == 5,
            pairs_of(rest@) == non_priority(dv.take(j as int)),
        decreases d.len() - j,
    {
        assert(dv.take(j + 1).drop_last() =~= dv.take(j as int));
        assert(dv.take(j + 1).last() == dv[j as int]);
        let nc = text::str_chars(d[j].0.as_str());
        let mut is_priority = false;
        let mut q: usize = 0;
        while q < names.len()
            invariant
                q <= names.len() == 5,
                names@.map_values(|n: &str| n@) == priority_cookie_names(),
                j < d.len(),
                dv == pairs_of(d@),
                nc@ == dv[j as int].0,
                is_priority <==> exists|x: int| 0 <= x < q && priority_cookie_names()[x] == nc@,
            decreases names.len() - q,
        {
            let pc = text::str_chars(names[q]);
            assert(priority_cookie_names()[q as int] == names@[q as int]@);
            if text::chars_eq(pc.as_slice(), nc.as_slice()) {
                is_priority = true;
            }
            q += 1;
        }
        assert(is_priority == priority_cookie_names().contains(dv[j as int].0));
        if !is_priority {
            let ghost prev = pairs_of(rest@);
            rest.push(copy_pair(&d[j]));
            assert(pairs_of(rest@) =~= prev.push(dv[j as int]));
        }
        j += 1;
    }
    assert(dv.take(d.len() as int) =~= dv);
    let sorted = sort_pairs_by_name(rest);
    let ghost sv = pairs_of(sorted@);
    let ghost head = parts@.map_values(|c: Vec<char>| c@);
    let mut m: usize = 0;
    while m < sorted.len()
        invariant
            m <= sorted.len(),
            sv == pairs_of(sorted@),
            parts@.map_values(|c: Vec<char>| c@) == head + sv.take(m as int).map_values(|p: Pair| cookie_part(p)),
        decreases sorted.len() - m,
    {
        let ghost prev = parts@.map_values(|c: Vec<char>| c@);
        parts.push(cookie_part_chars(&sorted[m]));
        assert(parts@.map_values(|c: Vec<char>| c@) =~= prev.push(cookie_part(sv[m as int])));
        assert(sv.take(m + 1).map_values(|p: Pair| cookie_part(p)) =~= sv.take(m as int).map_values(|p: Pair| cookie_part(p)).push(cookie_part(sv[m as int])));
        m += 1;
    }
    assert(sv.take(sorted.len() as int) =~= sv);
    assert(parts@.map_values(|c: Vec<char>| c@) =~= cookie_header_parts(os@, pairs_of(cookies@)));
    join_with_semicolons(&parts)
}

/// The client's session as its request logic reads it: for each of the
/// service's addresses, the cookies the session's jar sends there, in the
/// jar's order. The first address is the site's root,
/// `https://music.163.com/`.
pub struct NcmClient {
    pub cookies_by_url: Vec<Vec<(String, String)>>,
}

/// The cookies of every address, one list after the other.
pub open spec fn all_cookies(lists: Seq<Vec<(String, String)>>) -> Seq<Pair>
    decreases lists.len(),
{
    if lists.len() == 0 {
        Seq::empty()
    } else {
        all_cookies(lists.drop_last()) + pairs_of(lists.last()@)
    }
}

/// The cookies the session sends to the site's root.
pub open spec fn root_cookies(lists: Seq<Vec<(String, String)>>) -> Seq<Pair> {
    if lists.len() > 0 { pairs_of(lists[0]@) } else { Seq::empty() }
}

impl NcmClient {
    /// A client without a session.
    pub fn new() -> (r: Self)
        ensures
            r.cookies_by_url@.len() == 0,
    {
        NcmClient { cookies_by_url: Vec::new() }
    }

    /// The bit rate a quality setting asks for (320 kbit/s for unknown ones).
    pub fn get_api_rate(item: u32) -> (r: u32)
        ensures
            r == spec_api_rate(item),
    {
        match item {
            0 => 128000,
            1 => 192000,
            2 => 320000,
            3 => 999000,
            4 => 1900000,
            _ => 320000,
        }
    }

    /// The `Cookie` header of a web API request made as the client `os`.
    pub fn cookie_header(&self, os: &str) -> (r: String)
        ensures
            r@ == join_parts(cookie_header_parts(os@, all_cookies(self.cookies_by_url@))),
    {
        let ghost lists = self.cookies_by_url@;
        let mut all: Vec<(String, String)> = Vec::new();
        let mut i: usize = 0;
        while i < self.cookies_by_url.len()
            invariant
                i <= self.cookies_by_url.len(),
                lists == self.cookies_by_url@,
                pairs_of(all@) == all_cookies(lists.take(i as int)),
            decreases self.cookies_by_url.len() - i,
        {
            let list = &self.cookies_by_url[i];
            let ghost before = pairs_of(all@);
            assert(lists.take(i + 1).drop_last() =~= lists.take(i as int));
            let mut j: usize = 0;
            assert(pairs_of(list@.take(0)) =~= Seq::<Pair>::empty());
            while j < list.len()
                invariant
                    j <= list.len(),
                    pairs_of(all@) == before + pairs_of(list@.take(j as int)),
                decreases list.len() - j,
            {
                let ghost prev = all@;
                all.push(copy_pair(&list[j]));
                assert(pairs_of(all@) =~= pairs_of(prev).push((list@[j as int].0@, list@[j as int].1@)));
                assert(pairs_of(list@.take(j + 1)) =~= pairs_of(list@.take(j as int)).push((list@[j as int].0@, list@[j as int].1@)));
                j += 1;
            }
            assert(list@.take(list.len() as int) =~= list@);
            i += 1;
        }
        assert(lists.take(lists.len() as int) =~= lists);
        header_of_cookies(os, &all)
    }

    /// The session's `__csrf` cookie for the site's root (the first one
    /// met), or an empty string without one.
    pub fn csrf_token(&self) -> (r: String)
        ensures
            r@ == cookie_value(root_cookies(self.cookies_by_url@), "__csrf"@),
    {
        if self.cookies_by_url.len() == 0 {
            return String::new();
        }
        csrf_of(&self.cookies_by_url[0])
    }
}

/// Parts joined with "; ".
fn join_with_semicolons(parts: &Vec<Vec<char>>) -> (r: String)
    ensures
        r@ == join_parts(parts@.map_values(|c: Vec<char>| c@)),
{
    let ghost pv = parts@.map_values(|c: Vec<char>| c@);
    let mut out: Vec<char> = Vec::new();
    let mut i: usize = 0;
    while i < parts.len()
        invariant
            i <= parts.len(),
            pv == parts@.map_values(|c: Vec<char>| c@),
            out@ == join_parts(pv.take(i as int)),
        decreases parts.len() - i,
    {
        assert(pv.take(i + 1).drop_last() =~= pv.take(i as int));
        assert(pv.take(i + 1).last() == parts@[i as int]@);
        if i > 0 {
            out.push(';');
            out.push(' ');
        }
        append_chars(&mut out, parts[i].as_slice());
        if i == 0 {
            assert(out@ =~= join_parts(pv.take(1)));
        } else {
            assert(out@ =~= join_parts(pv.take(i + 1)));
        }
        i += 1;
    }
    assert(pv.take(parts.len() as int) =~= pv);
    text::string_from_chars(out.as_slice())
}

/// Whether pairs are in ascending name order (no name comes before the name
/// of a pair ahead of it).
pub open spec fn sorted_by_name(s: Seq<Pair>) -> bool {
    forall|i: int, j: int| 0 <= i < j < s.len() ==> !chars_lt(#[trigger] s[j].0, #[trigger] s[i].0)
}

proof fn lemma_lt_total(a: Seq<char>, b: Seq<char>)
    ensures
        chars_lt(a, b) || chars_lt(b, a) || a == b,
    decreases a.len(),
{
    if a.len() > 0 && b.len() > 0 && a[0] == b[0] {
        lemma_lt_total(a.drop_first(), b.drop_first());
        if a.drop_first() == b.drop_first() {
            assert(a =~= seq![a[0]] + a.drop_first());
            assert(b =~= seq![b[0]] + b.drop_first());
        }
    } else if a.len() == 0 && b.len() == 0 {
        assert(a =~= b);
    } else if a.len() > 0 && b.len() > 0 {
        assert(a[0] != b[0]);
    }
}

proof fn lemma_lt_trans(a: Seq<char>, b: Seq<char>, c: Seq<char>)
    requires
        chars_lt(a, b),
        chars_lt(b, c),
    ensures
        chars_lt(a, c),
    decreases a.len(),
{
    if a.len() > 0 && b.len() > 0 && c.len() > 0 && a[0] == b[0] && b[0] == c[0] {
        lemma_lt_trans(a.drop_first(), b.drop_first(), c.drop_first());
    }
}

proof fn lemma_lt_asym(a: Seq<char>, b: Seq<char>)
    ensures
        !(chars_lt(a, b) && chars_lt(b, a)),
    decreases a.len(),
{
    if a.len() > 0 && b.len() > 0 && a[0] == b[0] {
        lemma_lt_asym(a.drop_first(), b.drop_first());
    }
}

proof fn lemma_insert_sorted(s: Seq<Pair>, x: Pair)
    requires
        sorted_by_name(s),
    ensures
        sorted_by_name(insert_by_name(s, x)),
        insert_by_name(s, x).len() == s.len() + 1,
        forall|k: int| 0 <= k < insert_by_name(s, x).len() ==> (#[trigger] insert_by_name(s, x)[k] == x || s.contains(insert_by_name(s, x)[k])),
    decreases s.len(),
{
    let r = insert_by_name(s, x);
    if s.len() == 0 {
    } else if chars_lt(x.0, s[0].0) {
        assert forall|i: int, j: int| 0 <= i < j < r.len() implies !chars_lt(#[trigger] r[j].0, #[trigger] r[i].0) by {
            if i == 0 {
                assert(r[j] == s[j - 1]);
                if j - 1 > 0 {
                    assert(!chars_lt(s[j - 1].0, s[0].0));
                    lemma_lt_total(s[j - 1].0, s[0].0);
                    if chars_lt(s[j - 1].0, x.0) {
                        if s[0].0 == s[j - 1].0 {
                            lemma_lt_asym(x.0, s[0].0);
                        } else {
                            lemma_lt_trans(s[0].0, s[j - 1].0, x.0);
                            lemma_lt_asym(x.0, s[0].0);
                        }
                    }
                } else {
                    lemma_lt_asym(x.0, s[0].0);
                }
            } else {
                assert(r[i] == s[i - 1] && r[j] == s[j - 1]);
            }
        }
        assert forall|k: int| 0 <= k < r.len() implies (#[trigger] r[k] == x || s.contains(r[k])) by {
            if k > 0 { assert(r[k] == s[k - 1]); }
        }
    } else {
        let t = s.drop_first();
        assert(sorted_by_name(t)) by {
            assert forall|i: int, j: int| 0 <= i < j < t.len() implies !chars_lt(#[trigger] t[j].0, #[trigger] t[i].0) by {
                assert(t[i] == s[i + 1] && t[j] == s[j + 1]);
            }
        }
        lemma_insert_sorted(t, x);
        let u = insert_by_name(t, x);
        assert(r == seq![s[0]] + u);
        assert forall|k: int| 0 <= k < r.len() implies (#[trigger] r[k] == x || s.contains(r[k])) by {
            if k == 0 {
                assert(s[0] == r[0]);
            } else {
                assert(r[k] == u[k - 1]);
                if u[k - 1] != x {
                    assert(t.contains(u[k - 1]));
                    let w = choose|w: int| 0 <= w < t.len() && t[w] == u[k - 1];
                    assert(s[w + 1] == t[w]);
                }
            }
        }
        assert forall|i: int, j: int| 0 <= i < j < r.len() implies !chars_lt(#[trigger] r[j].0, #[trigger] r[i].0) by {
            if i == 0 {
                assert(r[j] == u[j - 1]);
                if u[j - 1] == x {
                    assert(!chars_lt(x.0, s[0].0));
                } else {
                    assert(t.contains(u[j - 1]));
                    let w = choose|w: int| 0 <= w < t.len() && t[w] == u[j - 1];
                    assert(s[w + 1] == t[w]);
                    assert(!chars_lt(s[w + 1].0, s[0].0));
                }
            } else {
                assert(r[i] == u[i - 1] && r[j] == u[j - 1]);
            }
        }
    }
}

/// The cookies after the priority ones are written in ascending name order:
/// sorting by name leaves no name before one it comes after.
pub proof fn law_sort_by_name_sorted(s: Seq<Pair>)
    ensures
        sorted_by_name(sort_by_name(s)),
        sort_by_name(s).len() == s.len(),
    decreases s.len(),
{
    if s.len() > 0 {
        law_sort_by_name_sorted(s.drop_last());
        lemma_insert_sorted(sort_by_name(s.drop_last()), s.last());
    }
}

/// Whether no two pairs share a name.
pub open spec fn names_unique(s: Seq<Pair>) -> bool {
    forall|i: int, j: int| 0 <= i < j < s.len() ==> (#[trigger] s[i]).0 != (#[trigger] s[j]).0
}

/// Whether a pair of that name is among the pairs.
pub open spec fn has_name(s: Seq<Pair>, name: Seq<char>) -> bool {
    exists|i: int| 0 <= i < s.len() && (#[trigger] s[i]).0 == name
}

/// Whether a pair is the first of its name among the pairs.
pub open spec fn is_first_of_name(ps: Seq<Pair>, c: Pair) -> bool {
    match name_index(ps, c.0) {
        Some(k) => ps[k] == c,
        None => false,
    }
}

proof fn lemma_name_index(ps: Seq<Pair>, name: Seq<char>)
    ensures
        name_index(ps, name) matches Some(i) ==> 0 <= i < ps.len() && ps[i].0 == name
            && forall|j: int| 0 <= j < i ==> (#[trigger] ps[j]).0 != name,
        name_index(ps, name) is None <==> !has_name(ps, name),
    decreases ps.len(),
{
    if ps.len() > 0 {
        let p = ps.drop_last();
        lemma_name_index(p, name);
        if has_name(p, name) {
            let i = choose|i: int| 0 <= i < p.len() && (#[trigger] p[i]).0 == name;
            assert(ps[i].0 == name);
        }
        if has_name(ps, name) && !has_name(p, name) {
            let i = choose|i: int| 0 <= i < ps.len() && (#[trigger] ps[i]).0 == name;
            if i < p.len() {
                assert(p[i].0 == name);
            }
        }
        match name_index(p, name) {
            Some(i) => {
                assert forall|j: int| 0 <= j < i implies (#[trigger] ps[j]).0 != name by {
                    assert(ps[j] == p[j]);
                }
            },
            None => {
                if ps.last().0 == name {
                    assert forall|j: int| 0 <= j < ps.len() - 1 implies (#[trigger] ps[j]).0 != name by {
                        assert(ps[j] == p[j]);
                    }
                }
            },
        }
    }
}

proof fn lemma_first_values(cs: Seq<Pair>)
    ensures
        names_unique(first_values(cs)),
        forall|i: int| 0 <= i < first_values(cs).len() ==> {
            let c = #[trigger] first_values(cs)[i];
            !is_fixed_cookie(c.0) && is_first_of_name(cs, c)
        },
        forall|k: int| 0 <= k < cs.len() && !is_fixed_cookie(cs[k].0) ==> has_name(first_values(cs), #[trigger] cs[k].0),
    decreases cs.len(),
{
    if cs.len() > 0 {
        let p = cs.drop_last();
        let c = cs.last();
        lemma_first_values(p);
        let d = first_values(cs);
        let q = first_values(p);
        lemma_name_index(q, c.0);
        assert(cs[cs.len() - 1] == c);
        assert forall|n: Seq<char>| has_name(p, n) implies name_index(cs, n) == name_index(p, n) by {
            lemma_name_index(p, n);
        }
        assert forall|i: int| 0 <= i < q.len() implies {
            let e = #[trigger] q[i];
            !is_fixed_cookie(e.0) && is_first_of_name(cs, e)
        } by {
            let e = q[i];
            let k = name_index(p, e.0)->0;
            lemma_name_index(p, e.0);
            assert(p[k] == cs[k]);
            assert(has_name(p, e.0));
        }
        if !is_fixed_cookie(c.0) && name_index(q, c.0) is None {
            assert(d == q.push(c));
            // c's name is new: it is not among the earlier cookies either
            assert(!has_name(p, c.0)) by {
                if has_name(p, c.0) {
                    let k = choose|k: int| 0 <= k < p.len() && (#[trigger] p[k]).0 == c.0;
                    assert(has_name(q, p[k].0));
                }
            }
            lemma_name_index(p, c.0);
            lemma_name_index(cs, c.0);
            assert(name_index(cs, c.0) == Some(cs.len() - 1));
            assert forall|i: int, j: int| 0 <= i < j < d.len() implies (#[trigger] d[i]).0 != (#[trigger] d[j]).0 by {
                if j == d.len() - 1 {
                    assert(d[i] == q[i]);
                    assert(has_name(q, q[i].0));
                } else {
                    assert(d[i] == q[i] && d[j] == q[j]);
                }
            }
            assert forall|i: int| 0 <= i < d.len() implies {
                let e = #[trigger] d[i];
                !is_fixed_cookie(e.0) && is_first_of_name(cs, e)
            } by {
                if i < q.len() {
                    assert(d[i] == q[i]);
                }
            }
            assert forall|k: int| 0 <= k < cs.len() && !is_fixed_cookie(cs[k].0) implies has_name(d, #[trigger] cs[k].0) by {
                if k < p.len() {
                    assert(p[k] == cs[k]);
                    assert(has_name(q, p[k].0));
                    let i = choose|i: int| 0 <= i < q.len() && (#[trigger] q[i]).0 == cs[k].0;
                    assert(d[i] == q[i]);
                } else {
                    assert(d[q.len() as int] == c);
                }
            }
        } else {
            assert(d == q);
            assert forall|k: int| 0 <= k < cs.len() && !is_fixed_cookie(cs[k].0) implies has_name(d, #[trigger] cs[k].0) by {
                if k < p.len() {
                    assert(p[k] == cs[k]);
                    assert(has_name(q, p[k].0));
                }
            }
        }
    }
}

/// The cookies named in `names`, in that order, for those the session has.
pub open spec fn priority_pairs(d: Seq<Pair>, names: Seq<Seq<char>>) -> Seq<Pair>
    decreases names.len(),
{
    if names.len() == 0 {
        Seq::empty()
    } else {
        let prev = priority_pairs(d, names.drop_last());
        match name_index(d, names.last()) {
            Some(i) => prev.push(d[i]),
            None => prev,
        }
    }
}

/// The cookies of the header after the client's own settings, in order:
/// the priority cookies the session has, then the others by name.
pub open spec fn header_cookies(cookies: Seq<Pair>) -> Seq<Pair> {
    let d = first_values(cookies);
    priority_pairs(d, priority_cookie_names()) + sort_by_name(non_priority(d))
}

proof fn lemma_priority_pairs(d: Seq<Pair>, names: Seq<Seq<char>>)
    requires
        forall|a: int, b: int| 0 <= a < b < names.len() ==> names[a] != names[b],
    ensures
        priority_parts(d, names) == priority_pairs(d, names).map_values(|p: Pair| cookie_part(p)),
        names_unique(priority_pairs(d, names)),
        forall|i: int| 0 <= i < priority_pairs(d, names).len() ==> names.contains((#[trigger] priority_pairs(d, names)[i]).0)
            && d.contains(priority_pairs(d, names)[i]),
        forall|m: int| 0 <= m < d.len() && names.contains(d[m].0) && names_unique(d) ==> priority_pairs(d, names).contains(#[trigger] d[m]),
    decreases names.len(),
{
    if names.len() > 0 {
        let ns = names.drop_last();
        let n = names.last();
        lemma_priority_pairs(d, ns);
        lemma_name_index(d, n);
        let q = priority_pairs(d, ns);
        let r = priority_pairs(d, names);
        assert(names[names.len() - 1] == n);
        assert forall|x: Seq<char>| ns.contains(x) implies names.contains(x) by {
            let i = choose|i: int| 0 <= i < ns.len() && ns[i] == x;
            assert(names[i] == x);
        }
        match name_index(d, n) {
            Some(i) => {
                assert(r == q.push(d[i]));
                assert(priority_parts(d, names) =~= r.map_values(|p: Pair| cookie_part(p)));
                assert forall|a: int, b: int| 0 <= a < b < r.len() implies (#[trigger] r[a]).0 != (#[trigger] r[b]).0 by {
                    assert(r[a] == q[a]);
                    if b == r.len() - 1 {
                        let w = choose|w: int| 0 <= w < ns.len() && ns[w] == q[a].0;
                        assert(names[w] == q[a].0);
                    } else {
                        assert(r[b] == q[b]);
                    }
                }
                assert forall|k: int| 0 <= k < r.len() implies names.contains((#[trigger] r[k]).0) && d.contains(r[k]) by {
                    if k < q.len() {
                        assert(r[k] == q[k]);
                    } else {
                        assert(names[names.len() - 1] == r[k].0);
                        assert(d[i] == r[k]);
                    }
                }
                assert forall|m: int| 0 <= m < d.len() && names.contains(d[m].0) && names_unique(d) implies r.contains(#[trigger] d[m]) by {
                    let w = choose|w: int| 0 <= w < names.len() && names[w] == d[m].0;
                    if w < ns.len() {
                        assert(ns[w] == d[m].0);
                        assert(q.contains(d[m]));
                        let z = choose|z: int| 0 <= z < q.len() && q[z] == d[m];
                        assert(r[z] == d[m]);
                    } else {
                        assert(d[m].0 == n);
                        if m != i {
                            assert(d[i].0 == d[m].0);
                        }
                        assert(r[q.len() as int] == d[m]);
                    }
                }
            },
            None => {
                assert(r == q);
                assert(priority_parts(d, names) == priority_parts(d, ns));
                assert forall|m: int| 0 <= m < d.len() && names.contains(d[m].0) && names_unique(d) implies r.contains(#[trigger] d[m]) by {
                    let w = choose|w: int| 0 <= w < names.len() && names[w] == d[m].0;
                    if w < ns.len() {
                        assert(ns[w] == d[m].0);
                    } else {
                        assert(has_name(d, n));
                    }
                }
            },
        }
    }
}

proof fn lemma_non_priority(d: Seq<Pair>)
    requires
        names_unique(d),
    ensures
        names_unique(non_priority(d)),
        forall|i: int| 0 <= i < non_priority(d).len() ==> !priority_cookie_names().contains((#[trigger] non_priority(d)[i]).0)
            && d.contains(non_priority(d)[i]),
        forall|m: int| 0 <= m < d.len() && !priority_cookie_names().contains(d[m].0) ==> non_priority(d).contains(#[trigger] d[m]),
    decreases d.len(),
{
    if d.len() > 0 {
        let p = d.drop_last();
        let c = d.last();
        assert(names_unique(p)) by {
            assert forall|i: int, j: int| 0 <= i < j < p.len() implies (#[trigger] p[i]).0 != (#[trigger] p[j]).0 by {
                assert(p[i] == d[i] && p[j] == d[j]);
            }
        }
        lemma_non_priority(p);
        let q = non_priority(p);
        let r = non_priority(d);
        assert(d[d.len() - 1] == c);
        assert forall|x: Pair| p.contains(x) implies d.contains(x) by {
            let i = choose|i: int| 0 <= i < p.len() && p[i] == x;
            assert(d[i] == x);
        }
        if !priority_cookie_names().contains(c.0) {
            assert(r == q.push(c));
            assert forall|a: int, b: int| 0 <= a < b < r.len() implies (#[trigger] r[a]).0 != (#[trigger] r[b]).0 by {
                assert(r[a] == q[a]);
                if b == r.len() - 1 {
                    let w = choose|w: int| 0 <= w < p.len() && p[w] == q[a];
                    assert(d[w] == q[a]);
                } else {
                    assert(r[b] == q[b]);
                }
            }
            assert forall|k: int| 0 <= k < r.len() implies !priority_cookie_names().contains((#[trigger] r[k]).0) && d.contains(r[k]) by {
                if k < q.len() {
                    assert(r[k] == q[k]);
                } else {
                    assert(d[d.len() - 1] == r[k]);
                }
            }
            assert forall|m: int| 0 <= m < d.len() && !priority_cookie_names().contains(d[m].0) implies r.contains(#[trigger] d[m]) by {
                if m < p.len() {
                    assert(p[m] == d[m]);
                    assert(q.contains(p[m]));
                    let z = choose|z: int| 0 <= z < q.len() && q[z] == d[m];
                    assert(r[z] == d[m]);
                } else {
                    assert(r[q.len() as int] == d[m]);
                }
            }
        } else {
            assert(r == q);
            assert forall|m: int| 0 <= m < d.len() && !priority_cookie_names().contains(d[m].0) implies r.contains(#[trigger] d[m]) by {
                if m < p.len() {
                    assert(p[m] == d[m]);
                }
            }
        }
    }
}

proof fn lemma_insert_split(s: Seq<Pair>, x: Pair) -> (k: int)
    ensures
        0 <= k <= s.len(),
        insert_by_name(s, x) == s.take(k) + seq![x] + s.skip(k),
    decreases s.len(),
{
    if s.len() == 0 {
        assert(insert_by_name(s, x) =~= s.take(0) + seq![x] + s.skip(0));
        0
    } else if chars_lt(x.0, s[0].0) {
        assert(insert_by_name(s, x) =~= s.take(0) + seq![x] + s.skip(0));
        0
    } else {
        let t = s.drop_first();
        let k1 = lemma_insert_split(t, x);
        assert(insert_by_name(s, x) =~= s.take(k1 + 1) + seq![x] + s.skip(k1 + 1));
        k1 + 1
    }
}

proof fn lemma_sort_same_pairs(s: Seq<Pair>)
    requires
        names_unique(s),
    ensures
        names_unique(sort_by_name(s)),
        forall|x: Pair| sort_by_name(s).contains(x) <==> s.contains(x),
    decreases s.len(),
{
    if s.len() > 0 {
        let p = s.drop_last();
        let c = s.last();
        assert(names_unique(p)) by {
            assert forall|i: int, j: int| 0 <= i < j < p.len() implies (#[trigger] p[i]).0 != (#[trigger] p[j]).0 by {
                assert(p[i] == s[i] && p[j] == s[j]);
            }
        }
        lemma_sort_same_pairs(p);
        let q = sort_by_name(p);
        let r = sort_by_name(s);
        assert(s[s.len() - 1] == c);
        let k = lemma_insert_split(q, c);
        assert(r == q.take(k) + seq![c] + q.skip(k));
        assert(r.len() == q.len() + 1);
        assert forall|i: int| 0 <= i < r.len() implies (#[trigger] r[i]) == (if i < k { q[i] } else if i == k { c } else { q[i - 1] }) by {
        }
        assert forall|x: Pair| q.contains(x) implies x.0 != c.0 by {
            let i = choose|i: int| 0 <= i < q.len() && q[i] == x;
            assert(p.contains(x));
            let w = choose|w: int| 0 <= w < p.len() && p[w] == x;
            assert(s[w] == x);
        }
        assert forall|a: int, b: int| 0 <= a < b < r.len() implies (#[trigger] r[a]).0 != (#[trigger] r[b]).0 by {
            if a == k {
                assert(q.contains(r[b]));
            } else if b == k {
                assert(q.contains(r[a]));
            } else {
                let a2 = if a < k { a } else { a - 1 };
                let b2 = if b < k { b } else { b - 1 };
                assert(r[a] == q[a2] && r[b] == q[b2]);
            }
        }
        assert forall|x: Pair| r.contains(x) <==> s.contains(x) by {
            if r.contains(x) {
                let i = choose|i: int| 0 <= i < r.len() && r[i] == x;
                if i != k {
                    let i2 = if i < k { i } else { i - 1 };
                    assert(q[i2] == x);
                    assert(p.contains(x));
                    let w = choose|w: int| 0 <= w < p.len() && p[w] == x;
                    assert(s[w] == x);
                }
            }
            if s.contains(x) {
                let w = choose|w: int| 0 <= w < s.len() && s[w] == x;
                if w == s.len() - 1 {
                    assert(r[k] == x);
                } else {
                    assert(p[w] == x);
                    assert(p.contains(x));
                    assert(q.contains(x));
                    let i = choose|i: int| 0 <= i < q.len() && q[i] == x;
                    let i2 = if i < k { i } else { i + 1 };
                    assert(r[i2] == x);
                }
            }
        }
    }
}

proof fn lemma_priority_names_distinct()
    ensures
        forall|a: int, b: int| 0 <= a < b < priority_cookie_names().len() ==> priority_cookie_names()[a] != priority_cookie_names()[b],
{
    reveal_strlit("MUSIC_U");
    reveal_strlit("MUSIC_A_T");
    reveal_strlit("MUSIC_R_T");
    reveal_strlit("__csrf");
    reveal_strlit("NMTID");
    let n = priority_cookie_names();
    assert(n[0].len() == 7 && n[1].len() == 9 && n[2].len() == 9 && n[3].len() == 6 && n[4].len() == 5);
    assert(n[1][6] != n[2][6]);
}

/// The cookie header names each cookie of the session once, with the first
/// value met, and never one of the three settings the client writes itself:
/// after those settings come the priority cookies the session has, in their
/// fixed order, then every other cookie of the session, by name.
pub proof fn law_cookie_header_names(os: Seq<char>, cookies: Seq<Pair>)
    ensures
        cookie_header_parts(os, cookies) == seq!["os="@ + os, "appver=2.7.1.198277"@, "__remember_me=true"@]
            + header_cookies(cookies).map_values(|p: Pair| cookie_part(p)),
        names_unique(header_cookies(cookies)),
        forall|i: int| 0 <= i < header_cookies(cookies).len() ==> !is_fixed_cookie((#[trigger] header_cookies(cookies)[i]).0)
            && is_first_of_name(cookies, header_cookies(cookies)[i]),
        forall|k: int| 0 <= k < cookies.len() && !is_fixed_cookie(cookies[k].0) ==> has_name(header_cookies(cookies), #[trigger] cookies[k].0),
{
    let d = first_values(cookies);
    let names = priority_cookie_names();
    lemma_first_values(cookies);
    lemma_priority_names_distinct();
    lemma_priority_pairs(d, names);
    lemma_non_priority(d);
    lemma_sort_same_pairs(non_priority(d));
    let pp = priority_pairs(d, names);
    let sp = sort_by_name(non_priority(d));
    let h = header_cookies(cookies);
    assert(h == pp + sp);
    assert(pp.map_values(|p: Pair| cookie_part(p)) + sp.map_values(|p: Pair| cookie_part(p))
        =~= h.map_values(|p: Pair| cookie_part(p)));
    assert forall|i: int| 0 <= i < h.len() implies d.contains(#[trigger] h[i]) by {
        if i < pp.len() {
            assert(h[i] == pp[i]);
        } else {
            let x = sp[i - pp.len()];
            assert(h[i] == x);
            assert(sp.contains(x));
            assert(non_priority(d).contains(x));
            let m = choose|m: int| 0 <= m < non_priority(d).len() && non_priority(d)[m] == x;
            assert(d.contains(non_priority(d)[m]));
        }
    }
    assert forall|a: int, b: int| 0 <= a < b < h.len() implies (#[trigger] h[a]).0 != (#[trigger] h[b]).0 by {
        if b < pp.len() {
            assert(h[a] == pp[a] && h[b] == pp[b]);
        } else if a >= pp.len() {
            assert(h[a] == sp[a - pp.len()] && h[b] == sp[b - pp.len()]);
        } else {
            assert(h[a] == pp[a] && h[b] == sp[b - pp.len()]);
            assert(sp.contains(h[b]));
            assert(non_priority(d).contains(h[b]));
            let m = choose|m: int| 0 <= m < non_priority(d).len() && non_priority(d)[m] == h[b];
            assert(!names.contains(non_priority(d)[m].0));
        }
    }
    assert forall|i: int| 0 <= i < h.len() implies !is_fixed_cookie((#[trigger] h[i]).0) && is_first_of_name(cookies, h[i]) by {
        assert(d.contains(h[i]));
        let m = choose|m: int| 0 <= m < d.len() && d[m] == h[i];
    }
    assert forall|k: int| 0 <= k < cookies.len() && !is_fixed_cookie(cookies[k].0) implies has_name(h, #[trigger] cookies[k].0) by {
        let name = cookies[k].0;
        assert(has_name(d, name));
        let m = choose|m: int| 0 <= m < d.len() && (#[trigger] d[m]).0 == name;
        if names.contains(name) {
            assert(pp.contains(d[m]));
            let i = choose|i: int| 0 <= i < pp.len() && pp[i] == d[m];
            assert(h[i] == d[m]);
        } else {
            assert(non_priority(d).contains(d[m]));
            assert(sp.contains(d[m]));
            let i = choose|i: int| 0 <= i < sp.len() && sp[i] == d[m];
            assert(h[i + pp.len()] == d[m]);
        }
    }
}

/// `text` followed by the decimal digits of `n`.
fn text_with_number(text: &str, n: u64) -> (r: String)
    ensures
        r@ == text@ + text::decimal(n as nat),
{
    let mut out = String::from_str(text);
    let digits = text::u64_to_string(n);
    out.append(digits.as_str());
    out
}

/// A parameter pair of a literal name and a value.
fn param(name: &str, value: String) -> (r: (String, String))
    ensures
        r.0@ == name@,
        r.1@ == value@,
{
    (String::from_str(name), value)
}

/// The thread identifier of a song's comments.
pub open spec fn thread_id(song_id: u64) -> Seq<char> {
    "R_SO_4_"@ + text::decimal(song_id as nat)
}

/// "true" or "false".
pub open spec fn bool_text(b: bool) -> Seq<char> {
    if b { "true"@ } else { "false"@ }
}

/// The parameters of a comment page request.
pub open spec fn spec_song_comments_params(song_id: u64, offset: u32) -> Seq<Pair> {
    seq![
        ("rid"@, thread_id(song_id)),
        ("threadId"@, thread_id(song_id)),
        ("limit"@, text::decimal(SONG_COMMENT_LIMIT as nat)),
        ("offset"@, text::decimal(offset as nat)),
        ("beforeTime"@, "0"@),
        ("commentId"@, "0"@),
        ("showInner"@, "true"@),
        ("markReplied"@, "true"@),
        ("forceFlatComment"@, "false"@),
        ("compareUserLocation"@, "false"@),
        ("total"@, bool_text(offset == 0)),
    ]
}

fn thread_id_string(song_id: u64) -> (r: String)
    ensures
        r@ == thread_id(song_id),
{
    text_with_number("R_SO_4_", song_id)
}

/// The parameters of a request for a page of a song's comments (the total is
/// asked for with the first page only).
pub fn song_comments_params(song_id: u64, offset: u32) -> (r: Vec<(String, String)>)
    ensures
        pairs_of(r@) == spec_song_comments_params(song_id, offset),
{
    let mut v: Vec<(String, String)> = Vec::new();
    v.push(param("rid", thread_id_string(song_id)));
    v.push(param("threadId", thread_id_string(song_id)));
    v.push(param("limit", text::u64_to_string(SONG_COMMENT_LIMIT as u64)));
    v.push(param("offset", text::u64_to_string(offset as u64)));
    v.push(param("beforeTime", String::from_str("0")));
    v.push(param("commentId", String::from_str("0")));
    v.push(param("showInner", String::from_str("true")));
    v.push(param("markReplied", String::from_str("true")));
    v.push(param("forceFlatComment", String::from_str("false")));
    v.push(param("compareUserLocation", String::from_str("false")));
    let total = if offset == 0 { String::from_str("true") } else { String::from_str("false") };
    v.push(param("total", total));
    assert(pairs_of(v@) =~= spec_song_comments_params(song_id, offset));
    v
}

/// The path of a comment page request.
pub fn song_comments_path(song_id: u64) -> (r: String)
    ensures
        r@ == "/weapi/v1/resource/comments/"@ + thread_id(song_id),
{
    let mut out = String::from_str("/weapi/v1/resource/comments/");
    let t = thread_id_string(song_id);
    out.append(t.as_str());
    out
}

/// The parameters naming one comment of a song (liking, unliking and
/// deleting it).
pub fn comment_target_params(song_id: u64, comment_id: u64) -> (r: Vec<(String, String)>)
    ensures
        pairs_of(r@) == seq![("threadId"@, thread_id(song_id)), ("commentId"@, text::decimal(comment_id as nat))],
{
    let mut v: Vec<(String, String)> = Vec::new();
    v.push(param("threadId", thread_id_string(song_id)));
    v.push(param("commentId", text::u64_to_string(comment_id)));
    assert(pairs_of(v@) =~= seq![("threadId"@, thread_id(song_id)), ("commentId"@, text::decimal(comment_id as nat))]);
    v
}

/// The path of a like or unlike request.
pub fn comment_like_path(like: bool) -> (r: &'static str)
    ensures
        r@ == (if like { "/weapi/v1/comment/like"@ } else { "/weapi/v1/comment/unlike"@ }),
{
    if like { "/weapi/v1/comment/like" } else { "/weapi/v1/comment/unlike" }
}

/// The parameters of a reply to a comment.
pub fn reply_comment_params(song_id: u64, comment_id: u64, content: &str) -> (r: Vec<(String, String)>)
    ensures
        pairs_of(r@) == seq![
            ("threadId"@, thread_id(song_id)),
            ("commentId"@, text::decimal(comment_id as nat)),
            ("content"@, content@),
        ],
{
    let mut v = comment_target_params(song_id, comment_id);
    let ghost prev = pairs_of(v@);
    v.push(param("content", text::str_to_string(content)));
    assert(pairs_of(v@) =~= prev.push(("content"@, content@)));
    v
}

/// The parameters of a request for the replies under a comment.
pub fn comment_replies_params(song_id: u64, comment_id: u64, limit: u16) -> (r: Vec<(String, String)>)
    ensures
        pairs_of(r@) == seq![
            ("parentCommentId"@, text::decimal(comment_id as nat)),
            ("threadId"@, thread_id(song_id)),
            ("time"@, "-1"@),
            ("limit"@, text::decimal(limit as nat)),
        ],
{
    let mut v: Vec<(String, String)> = Vec::new();
    v.push(param("parentCommentId", text::u64_to_string(comment_id)));
    v.push(param("threadId", thread_id_string(song_id)));
    v.push(param("time", String::from_str("-1")));
    v.push(param("limit", text::u64_to_string(limit as u64)));
    assert(pairs_of(v@) =~= seq![
        ("parentCommentId"@, text::decimal(comment_id as nat)),
        ("threadId"@, thread_id(song_id)),
        ("time"@, "-1"@),
        ("limit"@, text::decimal(limit as nat)),
    ]);
    v
}

/// The address of a web API request: the path on the service's host, with
/// the session's CSRF token.
pub fn weapi_url(path: &str, csrf: &str) -> (r: String)
    ensures
        r@ == "https://music.163.com"@ + path@ + "?csrf_token="@ + csrf@,
{
    let mut out = String::from_str("https://music.163.com");
    out.append(path);
    out.append("?csrf_token=");
    out.append(csrf);
    out
}

/// The address of the older comment page interface.
pub fn legacy_comments_url(song_id: u64, offset: u32) -> (r: String)
    ensures
        r@ == "https://music.163.com/api/v1/resource/comments/R_SO_4_"@ + text::decimal(song_id as nat)
            + "?limit=20&offset="@ + text::decimal(offset as nat),
{
    let mut out = text_with_number("https://music.163.com/api/v1/resource/comments/R_SO_4_", song_id);
    out.append("?limit=20&offset=");
    let o = text::u64_to_string(offset as u64);
    out.append(o.as_str());
    out
}

/// The address of the playlist detail request that asks for every track.
pub fn playlist_detail_url(songlist_id: u64) -> (r: String)
    ensures
        r@ == "https://music.163.com/api/v6/playlist/detail?id="@ + text::decimal(songlist_id as nat)
            + "&offset=0&total=true&limit=100000&n=100000&s=8"@,
{
    let mut out = text_with_number("https://music.163.com/api/v6/playlist/detail?id=", songlist_id);
    out.append("&offset=0&total=true&limit=100000&n=100000&s=8");
    out
}

/// The last position of a number.
pub open spec fn last_index_of(s: Seq<u64>, x: u64) -> Option<int>
    decreases s.len(),
{
    if s.len() == 0 {
        None
    } else if s.last() == x {
        Some(s.len() - 1)
    } else {
        last_index_of(s.drop_last(), x)
    }
}

/// For each track of a playlist, at its first occurrence, the position of
/// the last fetched song with its identifier; tracks with no such song are
/// left out.
pub open spec fn spec_track_order(track_ids: Seq<u64>, song_ids: Seq<u64>) -> Seq<int>
    decreases track_ids.len(),
{
    if track_ids.len() == 0 {
        Seq::empty()
    } else {
        let prev = spec_track_order(track_ids.drop_last(), song_ids);
        let t = track_ids.last();
        match last_index_of(song_ids, t) {
            Some(j) => if track_ids.drop_last().contains(t) { prev } else { prev.push(j) },
            None => prev,
        }
    }
}

/// The order of a completed playlist, as positions in the fetched songs:
/// the fetched order when the playlist names no tracks, the track order
/// otherwise.
pub open spec fn spec_completed_order(track_ids: Seq<u64>, song_ids: Seq<u64>) -> Seq<int> {
    if track_ids.len() == 0 {
        Seq::new(song_ids.len(), |i: int| i)
    } else {
        spec_track_order(track_ids, song_ids)
    }
}

proof fn lemma_last_index_of(s: Seq<u64>, x: u64)
    ensures
        last_index_of(s, x) matches Some(j) ==> 0 <= j < s.len() && s[j] == x,
    decreases s.len(),
{
    if s.len() > 0 && s.last() != x {
        lemma_last_index_of(s.drop_last(), x);
    }
}

proof fn lemma_last_index_none(s: Seq<u64>, x: u64)
    ensures
        last_index_of(s, x) is None <==> !s.contains(x),
    decreases s.len(),
{
    lemma_last_index_of(s, x);
    if s.len() > 0 && s.last() != x {
        lemma_last_index_none(s.drop_last(), x);
        if s.contains(x) {
            let i = choose|i: int| 0 <= i < s.len() && s[i] == x;
            assert(i != s.len() - 1);
            assert(s.drop_last()[i] == x);
        }
        if s.drop_last().contains(x) {
            let i = choose|i: int| 0 <= i < s.drop_last().len() && s.drop_last()[i] == x;
            assert(s[i] == x);
        }
    } else if s.len() > 0 {
        assert(s[s.len() - 1] == x);
    }
}

/// A completed playlist lists, in track order, one fetched song for each of
/// its tracks that was fetched: every position is a fetched song whose
/// identifier is a track, no song identifier comes twice, and every track
/// that was fetched is listed.
pub proof fn law_track_order(track_ids: Seq<u64>, song_ids: Seq<u64>)
    ensures
        forall|k: int| 0 <= k < spec_track_order(track_ids, song_ids).len() ==> {
            let j = #[trigger] spec_track_order(track_ids, song_ids)[k];
            0 <= j < song_ids.len() && track_ids.contains(song_ids[j])
        },
        forall|a: int, b: int| 0 <= a < b < spec_track_order(track_ids, song_ids).len() ==>
            song_ids[#[trigger] spec_track_order(track_ids, song_ids)[a]]
                != song_ids[#[trigger] spec_track_order(track_ids, song_ids)[b]],
        forall|t: u64| track_ids.contains(t) && song_ids.contains(t) ==> exists|k: int|
            0 <= k < spec_track_order(track_ids, song_ids).len()
            && song_ids[#[trigger] spec_track_order(track_ids, song_ids)[k]] == t,
    decreases track_ids.len(),
{
    if track_ids.len() > 0 {
        let p = track_ids.drop_last();
        let t = track_ids.last();
        law_track_order(p, song_ids);
        let q = spec_track_order(p, song_ids);
        let r = spec_track_order(track_ids, song_ids);
        lemma_last_index_of(song_ids, t);
        lemma_last_index_none(song_ids, t);
        assert(track_ids[track_ids.len() - 1] == t);
        assert forall|x: u64| p.contains(x) implies track_ids.contains(x) by {
            let i = choose|i: int| 0 <= i < p.len() && p[i] == x;
            assert(track_ids[i] == x);
        }
        assert forall|x: u64| track_ids.contains(x) && x != t implies p.contains(x) by {
            let i = choose|i: int| 0 <= i < track_ids.len() && track_ids[i] == x;
            assert(p[i] == x);
        }
        let pushed = last_index_of(song_ids, t) is Some && !p.contains(t);
        if pushed {
            let j = last_index_of(song_ids, t)->0;
            assert(r == q.push(j));
            assert forall|k: int| 0 <= k < r.len() implies {
                let jj = #[trigger] r[k];
                0 <= jj < song_ids.len() && track_ids.contains(song_ids[jj])
            } by {
                if k < q.len() {
                    assert(r[k] == q[k]);
                }
            }
            assert forall|a: int, b: int| 0 <= a < b < r.len() implies
                song_ids[#[trigger] r[a]] != song_ids[#[trigger] r[b]] by {
                assert(r[a] == q[a]);
                if b < q.len() {
                    assert(r[b] == q[b]);
                } else {
                    assert(p.contains(song_ids[q[a]]));
                }
            }
            assert forall|x: u64| track_ids.contains(x) && song_ids.contains(x) implies exists|k: int|
                0 <= k < r.len() && song_ids[#[trigger] r[k]] == x by {
                if x == t {
                    assert(song_ids[r[q.len() as int]] == x);
                } else {
                    assert(p.contains(x));
                    let k = choose|k: int| 0 <= k < q.len() && song_ids[#[trigger] q[k]] == x;
                    assert(r[k] == q[k]);
                }
            }
        } else {
            assert(r == q);
            assert forall|x: u64| track_ids.contains(x) && song_ids.contains(x) implies exists|k: int|
                0 <= k < r.len() && song_ids[#[trigger] r[k]] == x by {
                if x == t {
                    assert(p.contains(x));
                }
                assert(p.contains(x));
            }
        }
    }
}

/// The tracks still to be fetched are exactly the playlist's tracks whose
/// songs its detail did not bring.
pub proof fn law_missing_tracks(track_ids: Seq<u64>, have: Seq<u64>, x: u64)
    ensures
        spec_missing_tracks(track_ids, have).contains(x) <==> (track_ids.contains(x) && !have.contains(x)),
    decreases track_ids.len(),
{
    if track_ids.len() > 0 {
        let p = track_ids.drop_last();
        law_missing_tracks(p, have, x);
        let r = spec_missing_tracks(track_ids, have);
        let q = spec_missing_tracks(p, have);
        if track_ids.contains(x) && !p.contains(x) {
            let i = choose|i: int| 0 <= i < track_ids.len() && track_ids[i] == x;
            if i < p.len() {
                assert(p[i] == x);
            }
        }
        if p.contains(x) {
            let i = choose|i: int| 0 <= i < p.len() && p[i] == x;
            assert(track_ids[i] == x);
        }
        assert(track_ids[track_ids.len() - 1] == track_ids.last());
        if !have.contains(track_ids.last()) {
            assert(r == q.push(track_ids.last()));
            if q.contains(x) {
                let i = choose|i: int| 0 <= i < q.len() && q[i] == x;
                assert(r[i] == x);
            }
            if r.contains(x) && x != track_ids.last() {
                let i = choose|i: int| 0 <= i < r.len() && r[i] == x;
                assert(q[i] == x);
            }
            if x == track_ids.last() {
                assert(r[q.len() as int] == x);
            }
        }
    }
}

fn last_position(s: &Vec<u64>, x: u64) -> (r: Option<usize>)
    ensures
        match r {
            Some(j) => last_index_of(s@, x) == Some(j as int),
            None => last_index_of(s@, x) is None,
        },
{
    let mut k: usize = s.len();
    assert(s@.take(k as int) =~= s@);
    while k > 0
        invariant
            k <= s.len(),
            last_index_of(s@, x) == last_index_of(s@.take(k as int), x),
        decreases k,
    {
        assert(s@.take(k as int).drop_last() =~= s@.take(k - 1));
        if s[k - 1] == x {
            return Some(k - 1);
        }
        k -= 1;
    }
    None
}

fn contains_before(v: &Vec<u64>, end: usize, x: u64) -> (r: bool)
    requires
        end <= v.len(),
    ensures
        r == v@.take(end as int).contains(x),
{
    let mut i: usize = 0;
    while i < end
        invariant
            i <= end <= v.len(),
            forall|j: int| 0 <= j < i ==> v@[j] != x,
        decreases end - i,
    {
        if v[i] == x {
            assert(v@.take(end as int)[i as int] == x);
            return true;
        }
        i += 1;
    }
    false
}

/// The order the songs of a playlist take once it is completed, given the
/// playlist's track identifiers and the identifiers of the songs fetched for
/// it (its detail's songs first, then those fetched in batches).
pub fn completed_playlist_order(track_ids: &Vec<u64>, song_ids: &Vec<u64>) -> (r: Vec<usize>)
    ensures
        r@.map_values(|i: usize| i as int) == spec_completed_order(track_ids@, song_ids@),
{
    let mut out: Vec<usize> = Vec::new();
    if track_ids.len() == 0 {
        let mut i: usize = 0;
        while i < song_ids.len()
            invariant
                i <= song_ids.len(),
                out@.map_values(|k: usize| k as int) == Seq::new(i as nat, |k: int| k),
            decreases song_ids.len() - i,
        {
            let ghost prev = out@.map_values(|k: usize| k as int);
            out.push(i);
            assert(out@.map_values(|k: usize| k as int) =~= prev.push(i as int));
            i += 1;
            assert(out@.map_values(|k: usize| k as int) =~= Seq::new(i as nat, |k: int| k));
        }
        return out;
    }
    let mut i: usize = 0;
    while i < track_ids.len()
        invariant
            i <= track_ids.len(),
            out@.map_values(|k: usize| k as int) == spec_track_order(track_ids@.take(i as int), song_ids@),
        decreases track_ids.len() - i,
    {
        assert(track_ids@.take(i + 1).drop_last() =~= track_ids@.take(i as int));
        let t = track_ids[i];
        let ghost prev = out@.map_values(|k: usize| k as int);
        match last_position(song_ids, t) {
            Some(j) => {
                if !contains_before(track_ids, i, t) {
                    out.push(j);
                    assert(out@.map_values(|k: usize| k as int) =~= prev.push(j as int));
                }
            },
            None => {},
        }
        i += 1;
    }
    assert(track_ids@.take(track_ids.len() as int) =~= track_ids@);
    out
}

/// Identifiers cut into song detail requests of at most 500, in order (the
/// last one may be shorter; none for no identifier).
pub open spec fn spec_detail_batches(ids: Seq<u64>) -> Seq<Seq<u64>>
    decreases ids.len(),
{
    if ids.len() == 0 {
        Seq::empty()
    } else if ids.len() <= 500 {
        seq![ids]
    } else {
        seq![ids.take(500)] + spec_detail_batches(ids.skip(500))
    }
}

/// Batches one after the other.
pub open spec fn concat_batches(bs: Seq<Seq<u64>>) -> Seq<u64>
    decreases bs.len(),
{
    if bs.len() == 0 { Seq::empty() } else { bs[0] + concat_batches(bs.drop_first()) }
}

/// The song detail requests for these identifiers.
pub fn detail_batches(ids: &Vec<u64>) -> (r: Vec<Vec<u64>>)
    ensures
        r@.map_values(|b: Vec<u64>| b@) == spec_detail_batches(ids@),
{
    let mut out: Vec<Vec<u64>> = Vec::new();
    let mut start: usize = 0;
    assert(ids@.skip(0) =~= ids@);
    while start < ids.len()
        invariant
            start <= ids.len(),
            out@.map_values(|b: Vec<u64>| b@) + spec_detail_batches(ids@.skip(start as int)) == spec_detail_batches(ids@),
        decreases ids.len() - start,
    {
        let ghost rest = ids@.skip(start as int);
        let end: usize = if ids.len() - start <= SONG_DETAIL_BATCH_SIZE { ids.len() } else { start + SONG_DETAIL_BATCH_SIZE };
        let mut batch: Vec<u64> = Vec::new();
        let mut k: usize = start;
        while k < end
            invariant
                start <= k <= end <= ids.len(),
                batch@ == ids@.subrange(start as int, k as int),
            decreases end - k,
        {
            batch.push(ids[k]);
            k += 1;
            assert(batch@ =~= ids@.subrange(start as int, k as int));
        }
        let ghost prev = out@.map_values(|b: Vec<u64>| b@);
        out.push(batch);
        assert(out@.map_values(|b: Vec<u64>| b@) =~= prev.push(ids@.subrange(start as int, end as int)));
        if end == ids.len() {
            assert(ids@.subrange(start as int, end as int) =~= rest);
            assert(spec_detail_batches(rest) == seq![rest]);
            assert(ids@.skip(end as int) =~= Seq::<u64>::empty());
            assert(prev + seq![rest] =~= prev.push(rest));
        } else {
            assert(ids@.subrange(start as int, end as int) =~= rest.take(500));
            assert(rest.skip(500) =~= ids@.skip(end as int));
            assert(spec_detail_batches(rest) == seq![rest.take(500)] + spec_detail_batches(rest.skip(500)));
            assert(prev + (seq![rest.take(500)] + spec_detail_batches(rest.skip(500)))
                =~= prev.push(rest.take(500)) + spec_detail_batches(ids@.skip(end as int)));
        }
        start = end;
    }
    assert(ids@.skip(ids.len() as int) =~= Seq::<u64>::empty());
    assert(out@.map_values(|b: Vec<u64>| b@) + Seq::<Seq<u64>>::empty() =~= out@.map_values(|b: Vec<u64>| b@));
    out
}

/// The song detail requests ask for every identifier once, in order, at most
/// 500 at a time and none empty.
pub proof fn law_detail_batches(ids: Seq<u64>)
    ensures
        concat_batches(spec_detail_batches(ids)) == ids,
        forall|i: int| 0 <= i < spec_detail_batches(ids).len() ==> 0 < (#[trigger] spec_detail_batches(ids)[i]).len() <= 500,
    decreases ids.len(),
{
    if ids.len() > 500 {
        let rest = ids.skip(500);
        law_detail_batches(rest);
        let b = spec_detail_batches(ids);
        assert(b.drop_first() =~= spec_detail_batches(rest));
        assert(b[0] == ids.take(500));
        assert(concat_batches(b) == b[0] + concat_batches(b.drop_first()));
        assert(ids.take(500) + rest =~= ids);
        assert forall|i: int| 0 <= i < b.len() implies 0 < (#[trigger] b[i]).len() <= 500 by {
            if i > 0 {
                assert(b[i] == spec_detail_batches(rest)[i - 1]);
            }
        }
    } else if ids.len() > 0 {
        let b = spec_detail_batches(ids);
        assert(b.drop_first() =~= Seq::<Seq<u64>>::empty());
        assert(concat_batches(b) == b[0] + concat_batches(b.drop_first()));
        assert(ids + Seq::<u64>::empty() =~= ids);
    } else {
        assert(ids =~= Seq::<u64>::empty());
    }
}

/// The tracks of a playlist that its detail did not bring, in order.
pub open spec fn spec_missing_tracks(track_ids: Seq<u64>, have: Seq<u64>) -> Seq<u64>
    decreases track_ids.len(),
{
    if track_ids.len() == 0 {
        Seq::empty()
    } else {
        let prev = spec_missing_tracks(track_ids.drop_last(), have);
        if have.contains(track_ids.last()) { prev } else { prev.push(track_ids.last()) }
    }
}

/// The tracks of a playlist whose songs still have to be fetched.
pub fn missing_track_ids(track_ids: &Vec<u64>, have: &Vec<u64>) -> (r: Vec<u64>)
    ensures
        r@ == spec_missing_tracks(track_ids@, have@),
{
    let mut out: Vec<u64> = Vec::new();
    let mut i: usize = 0;
    while i < track_ids.len()
        invariant
            i <= track_ids.len(),
            out@ == spec_missing_tracks(track_ids@.take(i as int), have@),
        decreases track_ids.len() - i,
    {
        assert(track_ids@.take(i + 1).drop_last() =~= track_ids@.take(i as int));
        if !crate::comments::u64_vec_contains(have, track_ids[i]) {
            out.push(track_ids[i]);
        }
        i += 1;
    }
    assert(track_ids@.take(track_ids.len() as int) =~= track_ids@);
    out
}

} // verus!
