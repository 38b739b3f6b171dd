//! The application's decisions around its requests: the order the liked
//! songs are listed in, paging through a radio's programs, the steps of the
//! QR code login, the cache clearing schedule, and where a song is played
//! from.
use vstd::prelude::*;

verus! {

/// How many programs one radio request asks for.
pub const RADIO_PROGRAM_BATCH_SIZE: u32 = 500;
/// How many leading positions are compared when the order of the liked
/// songs is guessed.
pub const ORDER_SCORE_WINDOW: usize = 64;

/// How many of the first 64 positions hold the same song in both lists.
pub open spec fn order_score(a: Seq<u64>, b: Seq<u64>) -> nat
    decreases a.len(),
{
    if a.len() == 0 || b.len() == 0 {
        0
    } else {
        let k = if a.len() <= b.len() { a.len() } else { b.len() };
        let n: int = if k <= 64 { k as int } else { 64 };
        order_score_upto(a, b, n)
    }
}

/// How many of the first `n` positions hold the same song in both lists.
pub open spec fn order_score_upto(a: Seq<u64>, b: Seq<u64>, n: int) -> nat
    decreases n,
{
    if n <= 0 {
        0
    } else {
        order_score_upto(a, b, n - 1) + if a[n - 1] == b[n - 1] { 1nat } else { 0nat }
    }
}

/// How many of the first 64 positions hold the same song in `ids` (read
/// forwards or backwards) and in the playlist's songs.
pub fn song_id_order_score(ids: &Vec<u64>, reversed: bool, playlist_ids: &Vec<u64>) -> (r: usize)
    ensures
        r == order_score(if reversed { ids@.reverse() } else { ids@ }, playlist_ids@),
{
    let ghost a = if reversed { ids@.reverse() } else { ids@ };
    let len = if ids.len() <= playlist_ids.len() { ids.len() } else { playlist_ids.len() };
    let n: usize = if len <= ORDER_SCORE_WINDOW { len } else { ORDER_SCORE_WINDOW };
    let mut count: usize = 0;
    let mut k: usize = 0;
    while k < n
        invariant
            k <= n <= 64,
            n <= ids.len(),
            n <= playlist_ids.len(),
            a == (if reversed { ids@.reverse() } else { ids@ }),
            count == order_score_upto(a, playlist_ids@, k as int),
            count <= k,
        decreases n - k,
    {
        let id = if reversed { ids[ids.len() - 1 - k] } else { ids[k] };
        assert(id == a[k as int]);
        if id == playlist_ids[k] {
            count += 1;
        }
        k += 1;
    }
    count
}

/// Whether the liked songs are to be listed backwards: they match the first
/// playlist's order better when read backwards.
pub open spec fn spec_should_reverse(ids: Seq<u64>, playlist_ids: Seq<u64>) -> bool {
    playlist_ids.len() > 0 && order_score(ids.reverse(), playlist_ids) > order_score(ids, playlist_ids)
}

/// Whether the liked songs are to be listed backwards.
pub fn should_reverse_song_id_order(ids: &Vec<u64>, playlist_ids: &Vec<u64>) -> (r: bool)
    ensures
        r == spec_should_reverse(ids@, playlist_ids@),
{
    if playlist_ids.len() == 0 {
        return false;
    }
    let forward = song_id_order_score(ids, false, playlist_ids);
    let reverse = song_id_order_score(ids, true, playlist_ids);
    reverse > forward
}

/// The liked songs still to be fetched, in listing order: those not already
/// shown from the first playlist.
pub open spec fn spec_remaining_liked(ids: Seq<u64>, loaded: Seq<u64>) -> Seq<u64>
    decreases ids.len(),
{
    if ids.len() == 0 {
        Seq::empty()
    } else {
        let prev = spec_remaining_liked(ids.drop_last(), loaded);
        if loaded.contains(ids.last()) { prev } else { prev.push(ids.last()) }
    }
}

/// The liked songs still to be fetched after the first playlist was shown:
/// in the order that matches the playlist, without those it brought.
pub fn heartbeat_remaining_ids(ids: &Vec<u64>, loaded_playlist_ids: &Vec<u64>) -> (r: Vec<u64>)
    ensures
        r@ == spec_remaining_liked(
            if spec_should_reverse(ids@, loaded_playlist_ids@) { ids@.reverse() } else { ids@ },
            loaded_playlist_ids@,
        ),
{
    let reverse = should_reverse_song_id_order(ids, loaded_playlist_ids);
    let ghost ordered = if reverse { ids@.reverse() } else { ids@ };
    let mut out: Vec<u64> = Vec::new();
    let mut k: usize = 0;
    while k < ids.len()
        invariant
            k <= ids.len(),
            ordered == (if reverse { ids@.reverse() } else { ids@ }),
            out@ == spec_remaining_liked(ordered.take(k as int), loaded_playlist_ids@),
        decreases ids.len() - k,
    {
        assert(ordered.take(k + 1).drop_last() =~= ordered.take(k as int));
        let id = if reverse { ids[ids.len() - 1 - k] } else { ids[k] };
        assert(id == ordered[k as int]);
        if !crate::comments::u64_vec_contains(loaded_playlist_ids, id) {
            out.push(id);
        }
        k += 1;
    }
    assert(ordered.take(ids.len() as int) =~= ordered);
    out
}

proof fn lemma_remaining_contains(s: Seq<u64>, loaded: Seq<u64>, x: u64)
    ensures
        spec_remaining_liked(s, loaded).contains(x) <==> (s.contains(x) && !loaded.contains(x)),
    decreases s.len(),
{
    if s.len() > 0 {
        let p = s.drop_last();
        lemma_remaining_contains(p, loaded, x);
        let r = spec_remaining_liked(s, loaded);
        let q = spec_remaining_liked(p, loaded);
        assert(s =~= p.push(s.last()));
        if s.contains(x) && !p.contains(x) {
            let i = choose|i: int| 0 <= i < s.len() && s[i] == x;
            if i < p.len() {
                assert(p[i] == x);
            }
        }
        if p.contains(x) {
            let i = choose|i: int| 0 <= i < p.len() && p[i] == x;
            assert(s[i] == x);
        }
        if !loaded.contains(s.last()) {
            assert(r == q.push(s.last()));
            if q.contains(x) {
                let i = choose|i: int| 0 <= i < q.len() && q[i] == x;
                assert(r[i] == x);
            }
            if r.contains(x) && x != s.last() {
                let i = choose|i: int| 0 <= i < r.len() && r[i] == x;
                assert(q[i] == x);
            }
            if x == s.last() {
                assert(r[q.len() as int] == x);
            }
        }
    }
}

proof fn lemma_reverse_contains(s: Seq<u64>, x: u64)
    ensures
        s.reverse().contains(x) <==> s.contains(x),
{
    if s.contains(x) {
        let i = choose|i: int| 0 <= i < s.len() && s[i] == x;
        assert(s.reverse()[s.len() - 1 - i] == x);
    }
    if s.reverse().contains(x) {
        let i = choose|i: int| 0 <= i < s.reverse().len() && s.reverse()[i] == x;
        assert(s[s.len() - 1 - i] == x);
    }
}

/// The liked songs still to be fetched are exactly the liked songs that the
/// first playlist did not bring, whichever way they are listed.
pub proof fn law_remaining_liked(ids: Seq<u64>, loaded: Seq<u64>, x: u64)
    ensures
        spec_remaining_liked(if spec_should_reverse(ids, loaded) { ids.reverse() } else { ids }, loaded).contains(x)
            <==> (ids.contains(x) && !loaded.contains(x)),
{
    lemma_remaining_contains(ids, loaded, x);
    lemma_remaining_contains(ids.reverse(), loaded, x);
    lemma_reverse_contains(ids, x);
}

/// The next offset of a radio's programs: none once a short page came back
/// or the offset would pass what a request can carry.
pub open spec fn spec_next_radio_offset(offset: u32, chunk_len: nat) -> Option<u32> {
    if chunk_len < 500 {
        None
    } else if offset + 500 > u16::MAX {
        None
    } else {
        Some((offset + 500) as u32)
    }
}

/// The offset of the next page of a radio's programs, if one is to be
/// asked for.
pub fn next_radio_offset(offset: u32, chunk_len: usize) -> (r: Option<u32>)
    requires
        offset <= u16::MAX,
    ensures
        r == spec_next_radio_offset(offset, chunk_len as nat),
{
    if chunk_len < RADIO_PROGRAM_BATCH_SIZE as usize {
        return None;
    }
    let next = offset + RADIO_PROGRAM_BATCH_SIZE;
    if next > u16::MAX as u32 {
        None
    } else {
        Some(next)
    }
}

/// A state of a QR code login.
#[derive(Clone, Copy, Debug, PartialEq, Eq, Structural)]
pub enum QrStep {
    /// The code expired (800): show it as such and stop.
    Expired,
    /// Waiting for a scan (801): check again.
    Waiting,
    /// Scanned, waiting for confirmation (802): check again, telling the user
    /// once.
    Scanned { notify: bool },
    /// Confirmed (803): log in with the session's cookies and stop.
    LoggedIn,
    /// Any other answer: stop.
    Stop,
}

/// What a QR login status answer means, given whether the user was already
/// told that the code was scanned.
pub fn qr_check_step(code: i32, notified: bool) -> (r: QrStep)
    ensures
        r == (if code == 800 {
            QrStep::Expired
        } else if code == 801 {
            QrStep::Waiting
        } else if code == 802 {
            QrStep::Scanned { notify: !notified }
        } else if code == 803 {
            QrStep::LoggedIn
        } else {
            QrStep::Stop
        }),
{
    match code {
        800 => QrStep::Expired,
        801 => QrStep::Waiting,
        802 => QrStep::Scanned { notify: !notified },
        803 => QrStep::LoggedIn,
        _ => QrStep::Stop,
    }
}

/// What the cache setting asks for at start-up: whether to clear the cache
/// and what to set the "cleared" flag to (none to leave it). Mode 1 clears
/// every time; mode 2 on Mondays and mode 3 on the first of the month, once
/// (the flag remembers it and is reset on the other days); other modes reset
/// the flag. Without the local date, nothing happens in modes 2 and 3.
pub open spec fn spec_cache_clear(mode: u32, flag: bool, date: Option<(i32, i32)>) -> (bool, Option<bool>) {
    if mode == 1 {
        (true, None)
    } else if mode == 2 || mode == 3 {
        match date {
            None => (false, None),
            Some(d) => {
                let day = if mode == 2 { d.0 } else { d.1 };
                if day == 1 && !flag {
                    (true, Some(true))
                } else if day != 1 {
                    (false, Some(false))
                } else {
                    (false, None)
                }
            },
        }
    } else {
        (false, Some(false))
    }
}

/// The cache clearing decision for the setting, the flag and the local date
/// (day of the week, Monday being 1, and day of the month).
pub fn cache_clear_action(mode: u32, flag: bool, date: Option<(i32, i32)>) -> (r: (bool, Option<bool>))
    ensures
        r == spec_cache_clear(mode, flag, date),
{
    if mode == 1 {
        (true, None)
    } else if mode == 2 || mode == 3 {
        match date {
            None => (false, None),
            Some((day_of_week, day_of_month)) => {
                let day = if mode == 2 { day_of_week } else { day_of_month };
                if day == 1 && !flag {
                    (true, Some(true))
                } else if day != 1 {
                    (false, Some(false))
                } else {
                    (false, None)
                }
            },
        }
    } else {
        (false, Some(false))
    }
}

/// Where a song is played from.
#[derive(Clone, Debug)]
pub enum PlaySource {
    /// The cached file, by this `file://` address.
    File(String),
    /// The address the song already has.
    Url,
    /// Its address is to be fetched first.
    FetchUrl,
}

/// Where a song is played from: its cached file when there is one, else its
/// address, which is fetched when it has none yet.
pub fn play_source(cached: bool, cache_path: &str, song_url: &str) -> (r: PlaySource)
    ensures
        cached ==> (r matches PlaySource::File(u) && u@ == "file://"@ + cache_path@),
        !cached && song_url@.len() == 0 ==> r is FetchUrl,
        !cached && song_url@.len() > 0 ==> r is Url,
{
    if cached {
        let mut u = String::from_str("file://");
        u.append(cache_path);
        PlaySource::File(u)
    } else if song_url.unicode_len() == 0 {
        PlaySource::FetchUrl
    } else {
        PlaySource::Url
    }
}

/// The pauses around the reply count requests after a comment page is shown:
/// a short one before every request but the first, a longer one after every
/// fourth.
pub fn reply_count_pauses(index: usize) -> (r: (bool, bool))
    ensures
        r == (index > 0, index % 4 == 3),
{
    (index > 0, index % 4 == 3)
}

/// Whether a song's lyric is loaded when it starts playing: with the desktop
/// lyric on, or when the "Now Playing" page asks for it.
pub fn should_load_lyrics_on_play(desktop_lyrics: bool, page_wants_lyrics: bool) -> (r: bool)
    ensures
        r == (desktop_lyrics || page_wants_lyrics),
{
    desktop_lyrics || page_wants_lyrics
}

/// What opening the "Now Playing" page leads to: when it opened for a song
/// (not the empty one) whose lyric is wanted, that song's lyric is loaded.
pub fn load_lyrics_after_opening(song_id: u64, should_update_lyrics: bool) -> (r: bool)
    ensures
        r == (song_id != 0 && should_update_lyrics),
{
    song_id != 0 && should_update_lyrics
}

/// The key a fetched song is ordered by within its batch: the last position
/// of its identifier in the batch, or the largest position when it is not in
/// it.
pub open spec fn batch_key(chunk: Seq<u64>, id: u64) -> int {
    match crate::client::last_index_of(chunk, id) {
        Some(i) => i,
        None => usize::MAX as int,
    }
}

/// A position put into positions sorted by key: after those with a key not
/// greater than its own.
pub open spec fn insert_by_key(sorted: Seq<int>, x: int, key: spec_fn(int) -> int) -> Seq<int>
    decreases sorted.len(),
{
    if sorted.len() == 0 {
        seq![x]
    } else if key(x) < key(sorted[0]) {
        seq![x] + sorted
    } else {
        seq![sorted[0]] + insert_by_key(sorted.drop_first(), x, key)
    }
}

/// Positions `0 .. n` sorted by key, equal keys keeping their order.
pub open spec fn sort_positions(n: nat, key: spec_fn(int) -> int) -> Seq<int>
    decreases n,
{
    if n == 0 {
        Seq::empty()
    } else {
        insert_by_key(sort_positions((n - 1) as nat, key), n - 1, key)
    }
}

/// Whether positions come in key order.
pub open spec fn sorted_by_key(s: Seq<int>, key: spec_fn(int) -> int) -> bool {
    forall|a: int, b: int| 0 <= a < b < s.len() ==> key(#[trigger] s[a]) <= key(#[trigger] s[b])
}

proof fn lemma_insert_by_key(s: Seq<int>, x: int, key: spec_fn(int) -> int)
    requires
        sorted_by_key(s, key),
    ensures
        sorted_by_key(insert_by_key(s, x, key), key),
        insert_by_key(s, x, key).len() == s.len() + 1,
        insert_by_key(s, x, key).contains(x),
        forall|y: int| s.contains(y) ==> insert_by_key(s, x, key).contains(y),
        forall|k: int| 0 <= k < insert_by_key(s, x, key).len() ==> (#[trigger] insert_by_key(s, x, key)[k] == x
            || s.contains(insert_by_key(s, x, key)[k])),
    decreases s.len(),
{
    let r = insert_by_key(s, x, key);
    if s.len() == 0 {
        assert(r[0] == x);
    } else if key(x) < key(s[0]) {
        assert(r[0] == x);
        assert forall|a: int, b: int| 0 <= a < b < r.len() implies key(#[trigger] r[a]) <= key(#[trigger] r[b]) by {
            if a == 0 {
                assert(r[b] == s[b - 1]);
                if b - 1 > 0 {
                    assert(key(s[0]) <= key(s[b - 1]));
                }
            } else {
                assert(r[a] == s[a - 1] && r[b] == s[b - 1]);
            }
        }
        assert forall|y: int| s.contains(y) implies r.contains(y) by {
            let i = choose|i: int| 0 <= i < s.len() && s[i] == y;
            assert(r[i + 1] == y);
        }
        assert forall|k: int| 0 <= k < r.len() implies (#[trigger] r[k] == x || s.contains(r[k])) by {
            if k > 0 {
                assert(r[k] == s[k - 1]);
            }
        }
    } else {
        let t = s.drop_first();
        assert(sorted_by_key(t, key)) by {
            assert forall|a: int, b: int| 0 <= a < b < t.len() implies key(#[trigger] t[a]) <= key(#[trigger] t[b]) by {
                assert(t[a] == s[a + 1] && t[b] == s[b + 1]);
            }
        }
        lemma_insert_by_key(t, x, key);
        let u = insert_by_key(t, x, key);
        assert(r == seq![s[0]] + u);
        assert forall|a: int, b: int| 0 <= a < b < r.len() implies key(#[trigger] r[a]) <= key(#[trigger] r[b]) by {
            if a == 0 {
                assert(r[b] == u[b - 1]);
                if u[b - 1] == x {
                } else {
                    let i = choose|i: int| 0 <= i < t.len() && t[i] == u[b - 1];
                    assert(t[i] == s[i + 1]);
                    assert(key(s[0]) <= key(s[i + 1]));
                }
            } else {
                assert(r[a] == u[a - 1] && r[b] == u[b - 1]);
            }
        }
        let j = choose|j: int| 0 <= j < u.len() && u[j] == x;
        assert(r[j + 1] == x);
        assert forall|y: int| s.contains(y) implies r.contains(y) by {
            let i = choose|i: int| 0 <= i < s.len() && s[i] == y;
            if i == 0 {
                assert(r[0] == y);
            } else {
                assert(t[i - 1] == y);
                assert(t.contains(y));
                let m = choose|m: int| 0 <= m < u.len() && u[m] == y;
                assert(r[m + 1] == y);
            }
        }
        assert forall|k: int| 0 <= k < r.len() implies (#[trigger] r[k] == x || s.contains(r[k])) by {
            if k == 0 {
                assert(s[0] == r[0]);
            } else {
                assert(r[k] == u[k - 1]);
                if u[k - 1] != x {
                    let i = choose|i: int| 0 <= i < t.len() && t[i] == u[k - 1];
                    assert(s[i + 1] == r[k]);
                }
            }
        }
    }
}

/// A fetched batch is shown in key order, and every song fetched is shown
/// exactly once: the order is a sorted arrangement of the positions
/// `0 .. n`.
pub proof fn law_sort_positions(n: nat, key: spec_fn(int) -> int)
    ensures
        sorted_by_key(sort_positions(n, key), key),
        sort_positions(n, key).len() == n,
        forall|i: int| 0 <= i < n ==> sort_positions(n, key).contains(i),
        forall|k: int| 0 <= k < n ==> 0 <= #[trigger] sort_positions(n, key)[k] < n,
    decreases n,
{
    if n > 0 {
        let m = (n - 1) as nat;
        law_sort_positions(m, key);
        let p = sort_positions(m, key);
        lemma_insert_by_key(p, m as int, key);
        let r = sort_positions(n, key);
        assert forall|i: int| 0 <= i < n implies r.contains(i) by {
            if i < m {
                assert(p.contains(i));
            }
        }
        assert forall|k: int| 0 <= k < n implies 0 <= #[trigger] r[k] < n by {
            if r[k] != m as int {
                let i = choose|i: int| 0 <= i < p.len() && p[i] == r[k];
            }
        }
    }
}

fn batch_key_exec(chunk: &Vec<u64>, id: u64) -> (r: usize)
    ensures
        r as int == batch_key(chunk@, id),
{
    let mut k: usize = chunk.len();
    assert(chunk@.take(k as int) =~= chunk@);
    while k > 0
        invariant
            k <= chunk.len(),
            crate::client::last_index_of(chunk@, id) == crate::client::last_index_of(chunk@.take(k as int), id),
        decreases k,
    {
        assert(chunk@.take(k as int).drop_last() =~= chunk@.take(k - 1));
        if chunk[k - 1] == id {
            return k - 1;
        }
        k -= 1;
    }
    usize::MAX
}

/// The order the songs of a fetched batch are shown in, as positions in the
/// fetched list: by their place in the batch asked for (a stable sort).
pub fn batch_song_order(chunk: &Vec<u64>, song_ids: &Vec<u64>) -> (r: Vec<usize>)
    ensures
        r@.map_values(|i: usize| i as int) == sort_positions(song_ids@.len(), |i: int| batch_key(chunk@, song_ids@[i])),
{
    let ghost key = |i: int| batch_key(chunk@, song_ids@[i]);
    let mut sorted: Vec<usize> = Vec::new();
    let mut i: usize = 0;
    while i < song_ids.len()
        invariant
            i <= song_ids.len(),
            key == (|i: int| batch_key(chunk@, song_ids@[i])),
            sorted@.map_values(|x: usize| x as int) == sort_positions(i as nat, key),
            forall|q: int| 0 <= q < sorted@.len() ==> (#[trigger] sorted@[q]) < i,
        decreases song_ids.len() - i,
    {
        let ki = batch_key_exec(chunk, song_ids[i]);
        let ghost s0 = sorted@.map_values(|x: usize| x as int);
        let mut p: usize = 0;
        assert(s0.take(0) =~= Seq::<int>::empty() && s0.skip(0) =~= s0);
        while p < sorted.len()
            invariant
                p <= sorted.len(),
                s0 == sorted@.map_values(|x: usize| x as int),
                ki as int == key(i as int),
                forall|q: int| 0 <= q < sorted@.len() ==> (#[trigger] sorted@[q]) < song_ids@.len(),
                key == (|i: int| batch_key(chunk@, song_ids@[i])),
                insert_by_key(s0, i as int, key) == s0.take(p as int) + insert_by_key(s0.skip(p as int), i as int, key),
            ensures
                p == sorted.len() || key(i as int) < key(s0[p as int]),
            decreases sorted.len() - p,
        {
            let kp = batch_key_exec(chunk, song_ids[sorted[p]]);
            assert(s0.skip(p as int)[0] == s0[p as int]);
            if ki < kp {
                break;
            }
            assert(s0.skip(p as int).drop_first() =~= s0.skip(p + 1));
            assert(s0.take(p + 1) =~= s0.take(p as int).push(s0[p as int]));
            assert(s0.take(p as int) + insert_by_key(s0.skip(p as int), i as int, key)
                =~= s0.take(p + 1) + insert_by_key(s0.skip(p + 1), i as int, key));
            p += 1;
        }
        assert(insert_by_key(s0.skip(p as int), i as int, key) =~= seq![i as int] + s0.skip(p as int));
        sorted.insert(p, i);
        assert(sorted@.map_values(|x: usize| x as int) =~= s0.take(p as int) + (seq![i as int] + s0.skip(p as int)));
        i += 1;
    }
    sorted
}

} // verus!
