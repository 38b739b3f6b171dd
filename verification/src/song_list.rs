//! The state of a song list: its rows (song and like), the rows already
//! rendered and those still waiting to be rendered in chunks, and which row
//! is playing.
use vstd::prelude::*;

verus! {

/// Lists up to this length are rendered at once.
pub const SYNC_RENDER_LIMIT: usize = 80;
/// How many waiting rows one render step adds.
pub const RENDER_CHUNK_SIZE: usize = 96;

/// A rendered row.
#[derive(Clone, Copy, Debug, PartialEq, Eq, Structural)]
pub struct SongItem {
    pub song_id: u64,
    pub like: bool,
    pub playing: bool,
}

/// The song list's state.
pub struct SongListView {
    /// The songs of all rows, rendered or not.
    pub row_ids: Vec<u64>,
    /// Whether each row's song is liked.
    pub row_likes: Vec<bool>,
    /// The rows waiting to be rendered, in order.
    pub pending: Vec<(u64, bool)>,
    /// The rendered rows.
    pub items: Vec<SongItem>,
    /// The row marked active, -1 for none.
    pub active_row_index: i32,
    /// The row that plays, -1 for none.
    pub playing_index: i32,
    /// Whether the loading indicator shows.
    pub loading: bool,
    /// Whether chunked rendering is under way.
    pub rendering: bool,
}

/// The like of row `i` in a like list that may be shorter than the rows.
pub open spec fn like_at(likes: Seq<bool>, i: int) -> bool {
    if 0 <= i < likes.len() { likes[i] } else { false }
}

impl SongListView {
    /// What the list keeps true: one like per row; the rendered rows come
    /// first and are the rows' songs in order; the waiting rows are the
    /// rest, in order.
    pub open spec fn wf(&self) -> bool {
        &&& self.row_likes@.len() == self.row_ids@.len()
        &&& self.items@.len() + self.pending@.len() == self.row_ids@.len()
        &&& forall|i: int| 0 <= i < self.items@.len() ==> (#[trigger] self.items@[i]).song_id == self.row_ids@[i]
        &&& forall|k: int| 0 <= k < self.pending@.len() ==> (#[trigger] self.pending@[k]).0 == self.row_ids@[self.items@.len() + k]
        &&& forall|i: int| 0 <= i < self.items@.len() ==> (#[trigger] self.items@[i]).like == self.row_likes@[i]
        &&& forall|i: int| 0 <= i < self.items@.len() ==> (#[trigger] self.items@[i]).playing == (i == self.playing_index as int)
        &&& self.active_row_index == self.playing_index
        &&& self.playing_index >= -1
        &&& self.row_ids@.len() < i32::MAX
    }

    /// An empty list.
    pub fn new() -> (r: Self)
        ensures
            r.wf(),
            r.row_ids@.len() == 0,
            r.items@.len() == 0,
            r.pending@.len() == 0,
            r.active_row_index == -1,
            r.playing_index == -1,
            !r.loading,
            !r.rendering,
    {
        SongListView {
            row_ids: Vec::new(),
            row_likes: Vec::new(),
            pending: Vec::new(),
            items: Vec::new(),
            active_row_index: -1,
            playing_index: -1,
            loading: false,
            rendering: false,
        }
    }

    /// The number of rows rendered.
    pub fn loaded_rows(&self) -> (r: usize)
        ensures
            r == self.items@.len(),
    {
        self.items.len()
    }

    /// Renders one more row: its like is the row's own, and it plays when it
    /// is the playing row.
    fn append_song_item(&mut self, song_id: u64, like: bool)
        requires
            old(self).items@.len() < old(self).row_ids@.len(),
            old(self).row_likes@.len() == old(self).row_ids@.len(),
            old(self).row_ids@.len() < i32::MAX,
        ensures
            final(self).items@ == old(self).items@.push(SongItem {
                song_id,
                like: like_at(old(self).row_likes@, old(self).items@.len() as int),
                playing: old(self).items@.len() as int == old(self).playing_index as int,
            }),
            final(self).active_row_index == (if old(self).items@.len() as int == old(self).playing_index as int {
                old(self).items@.len() as i32
            } else {
                old(self).active_row_index
            }),
            final(self).row_ids == old(self).row_ids,
            final(self).row_likes == old(self).row_likes,
            final(self).pending == old(self).pending,
            final(self).playing_index == old(self).playing_index,
            final(self).loading == old(self).loading,
            final(self).rendering == old(self).rendering,
    {
        let row_index = self.items.len();
        let like = if row_index < self.row_likes.len() { self.row_likes[row_index] } else { like };
        let playing = (row_index as i32) == self.playing_index;
        self.items.push(SongItem { song_id, like, playing });
        if playing {
            self.active_row_index = row_index as i32;
        }
    }
}

/// Rendered rows `from .. from + n`: each row's song and like, playing when
/// it is the playing row.
pub open spec fn rendered(row_ids: Seq<u64>, row_likes: Seq<bool>, from: int, n: int, playing_index: i32) -> Seq<SongItem> {
    Seq::new(n as nat, |k: int| SongItem {
        song_id: row_ids[from + k],
        like: like_at(row_likes, from + k),
        playing: from + k == playing_index as int,
    })
}

/// The likes of `n` rows taken from a like list (false past its end).
pub open spec fn likes_for(likes: Seq<bool>, n: nat) -> Seq<bool> {
    Seq::new(n, |i: int| like_at(likes, i))
}

impl SongListView {
    /// Renders `n` waiting rows.
    fn render_pending(&mut self, n: usize)
        requires
            old(self).wf(),
            n <= old(self).pending@.len(),
        ensures
            final(self).wf(),
            final(self).items@ == old(self).items@ + rendered(old(self).row_ids@, old(self).row_likes@, old(self).items@.len() as int, n as int, old(self).playing_index),
            final(self).pending@ == old(self).pending@.skip(n as int),
            final(self).row_ids == old(self).row_ids,
            final(self).row_likes == old(self).row_likes,
            final(self).playing_index == old(self).playing_index,
            final(self).loading == old(self).loading,
            final(self).rendering == old(self).rendering,
    {
        let ghost start = old(self).items@.len() as int;
        let mut k: usize = 0;
        while k < n
            invariant
                k <= n <= old(self).pending@.len(),
                self.wf(),
                self.items@ == old(self).items@ + rendered(old(self).row_ids@, old(self).row_likes@, start, k as int, old(self).playing_index),
                self.pending@ == old(self).pending@.skip(k as int),
                start == old(self).items@.len(),
                self.row_ids == old(self).row_ids,
                self.row_likes == old(self).row_likes,
                self.playing_index == old(self).playing_index,
                self.loading == old(self).loading,
                self.rendering == old(self).rendering,
            decreases n - k,
        {
            let (song_id, like) = self.pending.remove(0);
            let ghost before = self.items@;
            assert(song_id == self.row_ids@[self.items@.len() as int]);
            self.append_song_item(song_id, like);
            k += 1;
            assert(self.pending@ =~= old(self).pending@.skip(k as int));
            assert(self.items@ =~= old(self).items@ + rendered(old(self).row_ids@, old(self).row_likes@, start, k as int, old(self).playing_index));
            assert forall|j: int| 0 <= j < self.pending@.len() implies (#[trigger] self.pending@[j]).0 == self.row_ids@[self.items@.len() + j] by {
                assert(self.pending@[j] == old(self).pending@[k + j]);
            }
        }
    }

    /// Adds rows to the list: short lists (on a list with nothing waiting)
    /// render at once, longer ones wait and render in chunks.
    pub fn init_new_list(&mut self, ids: &Vec<u64>, likes: &Vec<bool>)
        requires
            old(self).wf(),
            old(self).row_ids@.len() + ids@.len() < i32::MAX,
        ensures
            final(self).wf(),
            ids@.len() == 0 ==> final(self).row_ids == old(self).row_ids && final(self).items == old(self).items
                && final(self).pending == old(self).pending && final(self).rendering == old(self).rendering
                && final(self).loading == (if old(self).pending@.len() == 0 { false } else { old(self).loading }),
            ids@.len() > 0 ==> final(self).row_ids@ == old(self).row_ids@ + ids@,
            ids@.len() > 0 ==> final(self).row_likes@ == old(self).row_likes@ + likes_for(likes@, ids@.len()),
            ids@.len() > 0 && ids@.len() <= SYNC_RENDER_LIMIT && old(self).pending@.len() == 0 ==> {
                &&& final(self).items@ == old(self).items@ + rendered(final(self).row_ids@, final(self).row_likes@,
                    old(self).items@.len() as int, ids@.len() as int, old(self).playing_index)
                &&& final(self).pending@.len() == 0
                &&& !final(self).loading
                &&& final(self).rendering == old(self).rendering
            },
            ids@.len() > 0 && !(ids@.len() <= SYNC_RENDER_LIMIT && old(self).pending@.len() == 0) ==> {
                &&& final(self).items == old(self).items
                &&& final(self).pending@ == old(self).pending@ + Seq::new(ids@.len(), |i: int| (ids@[i], like_at(likes@, i)))
                &&& final(self).loading
                &&& final(self).rendering
            },
            final(self).playing_index == old(self).playing_index,
    {
        if ids.len() == 0 {
            if self.pending.len() == 0 {
                self.loading = false;
            }
            return;
        }
        let n = ids.len();
        let sync = n <= SYNC_RENDER_LIMIT && self.pending.len() == 0;
        let ghost before = self.items@;
        let ghost p0 = self.pending@;
        if sync {
            let mut k: usize = 0;
            while k < n
                invariant
                    k <= n == ids.len(),
                    self.wf(),
                    self.pending@.len() == 0,
                    before == old(self).items@,
                    before.len() == old(self).row_ids@.len(),
                    old(self).row_ids@.len() + n < i32::MAX,
                    self.row_ids@ == old(self).row_ids@ + ids@.take(k as int),
                    self.row_likes@ == old(self).row_likes@ + likes_for(likes@, k as nat),
                    self.items@ == before + rendered(self.row_ids@, self.row_likes@, before.len() as int, k as int, old(self).playing_index),
                    self.playing_index == old(self).playing_index,
                    self.rendering == old(self).rendering,
                decreases n - k,
            {
                let like = if k < likes.len() { likes[k] } else { false };
                let ghost pre = self.items@;
                let ghost pre_ids = self.row_ids@;
                let ghost pre_likes = self.row_likes@;
                self.row_ids.push(ids[k]);
                self.row_likes.push(like);
                self.append_song_item(ids[k], like);
                k += 1;
                assert(self.row_ids@ =~= old(self).row_ids@ + ids@.take(k as int));
                assert(self.row_likes@ =~= old(self).row_likes@ + likes_for(likes@, k as nat));
                assert(self.items@ =~= before + rendered(self.row_ids@, self.row_likes@, before.len() as int, k as int, old(self).playing_index)) by {
                    assert forall|j: int| 0 <= j < self.items@.len() implies self.items@[j] == (before + rendered(self.row_ids@, self.row_likes@, before.len() as int, k as int, old(self).playing_index))[j] by {
                        if j < pre.len() {
                            assert(self.items@[j] == pre[j]);
                            if j >= before.len() {
                                assert(self.row_ids@[j] == pre_ids[j]);
                                assert(like_at(self.row_likes@, j) == like_at(pre_likes, j));
                            }
                        }
                    }
                }
                assert(self.wf()) by {
                    assert forall|j: int| 0 <= j < self.items@.len() implies (#[trigger] self.items@[j]).like == self.row_likes@[j] by {
                        if j < pre.len() { assert(self.items@[j] == pre[j]); assert(self.row_likes@[j] == pre_likes[j]); }
                    }
                    assert forall|j: int| 0 <= j < self.items@.len() implies (#[trigger] self.items@[j]).song_id == self.row_ids@[j] by {
                        if j < pre.len() { assert(self.items@[j] == pre[j]); assert(self.row_ids@[j] == pre_ids[j]); }
                    }
                    assert forall|j: int| 0 <= j < self.items@.len() implies (#[trigger] self.items@[j]).playing == (j == self.playing_index as int) by {
                        if j < pre.len() { assert(self.items@[j] == pre[j]); }
                    }
                }
            }
            assert(ids@.take(n as int) =~= ids@);
            self.loading = false;
            return;
        }
        let mut k: usize = 0;
        while k < n
            invariant
                k <= n == ids.len(),
                self.wf(),
                p0 == old(self).pending@,
                old(self).row_ids@.len() + n < i32::MAX,
                self.pending@ == p0 + Seq::new(k as nat, |i: int| (ids@[i], like_at(likes@, i))),
                self.items == old(self).items,
                self.row_ids@ == old(self).row_ids@ + ids@.take(k as int),
                self.row_likes@ == old(self).row_likes@ + likes_for(likes@, k as nat),
                self.playing_index == old(self).playing_index,
                self.rendering == old(self).rendering,
            decreases n - k,
        {
            let like = if k < likes.len() { likes[k] } else { false };
            let ghost pre_ids = self.row_ids@;
            let ghost pre_likes = self.row_likes@;
            let ghost pre_pending = self.pending@;
            self.row_ids.push(ids[k]);
            self.row_likes.push(like);
            self.pending.push((ids[k], like));
            k += 1;
            assert(self.row_ids@ =~= old(self).row_ids@ + ids@.take(k as int));
            assert(self.row_likes@ =~= old(self).row_likes@ + likes_for(likes@, k as nat));
            assert(self.pending@ =~= p0 + Seq::new(k as nat, |i: int| (ids@[i], like_at(likes@, i))));
            assert(self.wf()) by {
                assert forall|q: int| 0 <= q < self.pending@.len() implies (#[trigger] self.pending@[q]).0 == self.row_ids@[self.items@.len() + q] by {
                    if q < pre_pending.len() {
                        assert(self.pending@[q] == pre_pending[q]);
                        assert(self.row_ids@[self.items@.len() + q] == pre_ids[self.items@.len() + q]);
                    }
                }
                assert forall|j: int| 0 <= j < self.items@.len() implies (#[trigger] self.items@[j]).like == self.row_likes@[j] by {
                    assert(self.row_likes@[j] == pre_likes[j]);
                }
                assert forall|j: int| 0 <= j < self.items@.len() implies (#[trigger] self.items@[j]).song_id == self.row_ids@[j] by {
                    assert(self.row_ids@[j] == pre_ids[j]);
                }
            }
        }
        assert(ids@.take(n as int) =~= ids@);
        self.loading = true;
        self.rendering = true;
    }
}

impl SongListView {
    /// One render step: up to a chunk of waiting rows is rendered; when the
    /// waiting rows ran out before the chunk was full, rendering stops (the
    /// result is false) and the loading indicator goes.
    pub fn render_chunk(&mut self) -> (r: bool)
        requires
            old(self).wf(),
        ensures
            final(self).wf(),
            ({
                let n = if old(self).pending@.len() < RENDER_CHUNK_SIZE { old(self).pending@.len() } else { RENDER_CHUNK_SIZE as nat };
                &&& final(self).items@ == old(self).items@ + rendered(old(self).row_ids@, old(self).row_likes@,
                    old(self).items@.len() as int, n as int, old(self).playing_index)
                &&& final(self).pending@ == old(self).pending@.skip(n as int)
            }),
            r == (old(self).pending@.len() >= RENDER_CHUNK_SIZE),
            !r ==> !final(self).rendering && !final(self).loading,
            r ==> final(self).rendering == old(self).rendering && final(self).loading == old(self).loading,
            final(self).row_ids == old(self).row_ids,
            final(self).row_likes == old(self).row_likes,
            final(self).playing_index == old(self).playing_index,
    {
        if self.pending.len() < RENDER_CHUNK_SIZE {
            let n = self.pending.len();
            self.render_pending(n);
            self.rendering = false;
            self.loading = false;
            false
        } else {
            self.render_pending(RENDER_CHUNK_SIZE);
            true
        }
    }

    /// Whether the list shows exactly these songs, in this order.
    pub fn has_same_song_ids(&self, ids: &Vec<u64>) -> (r: bool)
        ensures
            r == (self.row_ids@ == ids@),
    {
        if self.row_ids.len() != ids.len() {
            return false;
        }
        let mut i: usize = 0;
        while i < ids.len()
            invariant
                i <= ids.len() == self.row_ids.len(),
                forall|j: int| 0 <= j < i ==> self.row_ids@[j] == ids@[j],
            decreases ids.len() - i,
        {
            if self.row_ids[i] != ids[i] {
                return false;
            }
            i += 1;
        }
        assert(self.row_ids@ =~= ids@);
        true
    }

    /// Takes new likes for the rows (false past the end of the list given);
    /// returns the rows whose like changed, in order.
    pub fn sync_likes(&mut self, likes: &Vec<bool>) -> (r: Vec<usize>)
        requires
            old(self).wf(),
        ensures
            final(self).wf(),
            final(self).row_likes@ == likes_for(likes@, old(self).row_ids@.len()),
            final(self).items@.len() == old(self).items@.len(),
            forall|i: int| 0 <= i < final(self).items@.len() ==> #[trigger] final(self).items@[i]
                == (SongItem { like: like_at(likes@, i), ..old(self).items@[i] }),
            forall|k: int| 0 <= k < r@.len() ==> old(self).row_likes@[#[trigger] r@[k] as int] != like_at(likes@, r@[k] as int),
            forall|i: int| 0 <= i < old(self).row_likes@.len() && old(self).row_likes@[i] != like_at(likes@, i) ==> r@.contains(i as usize),
            forall|a: int, b: int| 0 <= a < b < r@.len() ==> r@[a] < r@[b],
            final(self).row_ids == old(self).row_ids,
            final(self).pending == old(self).pending,
            final(self).playing_index == old(self).playing_index,
            final(self).active_row_index == old(self).active_row_index,
            final(self).loading == old(self).loading,
            final(self).rendering == old(self).rendering,
    {
        let mut changed: Vec<usize> = Vec::new();
        let n = self.row_likes.len();
        let mut i: usize = 0;
        while i < n
            invariant
                i <= n == self.row_likes.len() == old(self).row_likes@.len(),
                self.row_ids == old(self).row_ids,
                self.items == old(self).items,
                self.pending == old(self).pending,
                self.playing_index == old(self).playing_index,
                self.active_row_index == old(self).active_row_index,
                self.loading == old(self).loading,
                self.rendering == old(self).rendering,
                old(self).wf(),
                forall|j: int| 0 <= j < i ==> self.row_likes@[j] == like_at(likes@, j),
                forall|j: int| i <= j < n ==> self.row_likes@[j] == old(self).row_likes@[j],
                forall|k: int| 0 <= k < changed@.len() ==> (#[trigger] changed@[k]) < i
                    && old(self).row_likes@[changed@[k] as int] != like_at(likes@, changed@[k] as int),
                forall|j: int| 0 <= j < i && old(self).row_likes@[j] != like_at(likes@, j) ==> changed@.contains(j as usize),
                forall|a: int, b: int| 0 <= a < b < changed@.len() ==> changed@[a] < changed@[b],
            decreases n - i,
        {
            let like = if i < likes.len() { likes[i] } else { false };
            if self.row_likes[i] != like {
                self.row_likes.set(i, like);
                let ghost prev = changed@;
                changed.push(i);
                assert(changed@[changed@.len() - 1] == i);
                assert forall|j: int| 0 <= j < i + 1 && old(self).row_likes@[j] != like_at(likes@, j) implies changed@.contains(j as usize) by {
                    if j < i {
                        let w = choose|w: int| 0 <= w < prev.len() && prev[w] == j as usize;
                        assert(changed@[w] == prev[w]);
                    } else {
                        assert(changed@[changed@.len() - 1] == j as usize);
                    }
                }
            }
            i += 1;
        }
        let ghost likes_now = self.row_likes@;
        let mut j: usize = 0;
        while j < self.items.len()
            invariant
                j <= self.items.len() == old(self).items@.len(),
                self.row_likes@ == likes_now,
                forall|x: int| 0 <= x < n ==> likes_now[x] == like_at(likes@, x),
                n == old(self).row_ids@.len(),
                old(self).wf(),
                forall|x: int| 0 <= x < j ==> #[trigger] self.items@[x] == (SongItem { like: like_at(likes@, x), ..old(self).items@[x] }),
                forall|x: int| j <= x < self.items@.len() ==> #[trigger] self.items@[x] == old(self).items@[x],
                self.row_ids == old(self).row_ids,
                self.pending == old(self).pending,
                self.playing_index == old(self).playing_index,
                self.active_row_index == old(self).active_row_index,
                self.loading == old(self).loading,
                self.rendering == old(self).rendering,
            decreases old(self).items@.len() - j,
        {
            let it = self.items[j];
            let like = if j < likes.len() { likes[j] } else { false };
            self.items.set(j, SongItem { like, ..it });
            j += 1;
        }
        assert(self.row_likes@ =~= likes_for(likes@, old(self).row_ids@.len()));
        changed
    }

    /// Empties the list and stops rendering.
    pub fn clear_list(&mut self)
        ensures
            final(self).wf(),
            final(self).row_ids@.len() == 0,
            final(self).items@.len() == 0,
            final(self).pending@.len() == 0,
            final(self).active_row_index == -1,
            final(self).playing_index == -1,
            !final(self).loading,
            !final(self).rendering,
    {
        self.pending = Vec::new();
        self.rendering = false;
        self.row_ids = Vec::new();
        self.row_likes = Vec::new();
        self.items = Vec::new();
        self.active_row_index = -1;
        self.playing_index = -1;
        self.loading = false;
    }

    /// Shows these songs: an unchanged list only takes the new likes (false
    /// is returned); another list replaces it (true).
    pub fn replace_list_if_changed(&mut self, ids: &Vec<u64>, likes: &Vec<bool>) -> (r: bool)
        requires
            old(self).wf(),
            ids@.len() < i32::MAX,
        ensures
            final(self).wf(),
            r == (old(self).row_ids@ != ids@),
            final(self).row_ids@ == ids@,
            final(self).row_likes@ == likes_for(likes@, ids@.len()),
            !r ==> final(self).playing_index == old(self).playing_index && final(self).pending == old(self).pending,
            r ==> final(self).playing_index == -1,
    {
        if self.has_same_song_ids(ids) {
            self.sync_likes(likes);
            return false;
        }
        self.clear_list();
        self.init_new_list(ids, likes);
        assert(ids@.len() > 0 ==> self.row_ids@ =~= ids@);
        assert(ids@.len() > 0 ==> self.row_likes@ =~= likes_for(likes@, ids@.len()));
        assert(ids@.len() == 0 ==> self.row_ids@ =~= ids@);
        assert(ids@.len() == 0 ==> self.row_likes@ =~= likes_for(likes@, ids@.len()));
        true
    }

    /// Marks a row as the active and playing one (a negative index changes
    /// nothing): it alone of the rendered rows plays.
    pub fn set_active_row_index(&mut self, index: i32)
        requires
            old(self).wf(),
        ensures
            final(self).wf(),
            index < 0 ==> final(self).items == old(self).items && final(self).playing_index == old(self).playing_index,
            index >= 0 ==> {
                &&& final(self).playing_index == index
                &&& final(self).active_row_index == index
                &&& final(self).items@.len() == old(self).items@.len()
                &&& forall|i: int| 0 <= i < final(self).items@.len() ==> #[trigger] final(self).items@[i]
                    == (SongItem { playing: i == index as int, ..old(self).items@[i] })
            },
            final(self).row_ids == old(self).row_ids,
            final(self).row_likes == old(self).row_likes,
            final(self).pending == old(self).pending,
            final(self).loading == old(self).loading,
            final(self).rendering == old(self).rendering,
    {
        if index < 0 {
            return;
        }
        let old_index = self.active_row_index;
        self.active_row_index = index;
        self.playing_index = index;
        if old_index != index {
            self.set_item_playing(old_index, false);
        }
        self.set_item_playing(index, true);
        assert(self.wf());
    }

    fn set_item_playing(&mut self, index: i32, playing: bool)
        ensures
            final(self).items@.len() == old(self).items@.len(),
            forall|i: int| 0 <= i < final(self).items@.len() ==> #[trigger] final(self).items@[i]
                == (if i == index as int { SongItem { playing, ..old(self).items@[i] } } else { old(self).items@[i] }),
            final(self).row_ids == old(self).row_ids,
            final(self).row_likes == old(self).row_likes,
            final(self).pending == old(self).pending,
            final(self).playing_index == old(self).playing_index,
            final(self).active_row_index == old(self).active_row_index,
            final(self).loading == old(self).loading,
            final(self).rendering == old(self).rendering,
    {
        if index < 0 || (index as usize) >= self.items.len() {
            return;
        }
        let i = index as usize;
        let it = self.items[i];
        if it.playing == playing {
            return;
        }
        self.items.set(i, SongItem { playing, ..it });
    }

    /// Marks a row as playing; when it is to start playing too, returns the
    /// song of the rendered row to play.
    pub fn mark_new_row_playing(&mut self, index: i32, do_active: bool) -> (r: Option<u64>)
        requires
            old(self).wf(),
        ensures
            final(self).wf(),
            r == (if do_active && 0 <= index < old(self).items@.len() {
                Some(old(self).items@[index as int].song_id)
            } else {
                None::<u64>
            }),
            index < 0 ==> final(self).items == old(self).items && final(self).playing_index == old(self).playing_index,
            index >= 0 ==> {
                &&& final(self).playing_index == index
                &&& final(self).active_row_index == index
                &&& final(self).items@.len() == old(self).items@.len()
                &&& forall|i: int| 0 <= i < final(self).items@.len() ==> #[trigger] final(self).items@[i]
                    == (SongItem { playing: i == index as int, ..old(self).items@[i] })
            },
            final(self).row_ids == old(self).row_ids,
            final(self).row_likes == old(self).row_likes,
            final(self).pending == old(self).pending,
    {
        self.set_active_row_index(index);
        if do_active && index >= 0 && (index as usize) < self.items.len() {
            Some(self.items[index as usize].song_id)
        } else {
            None
        }
    }

    /// Shows or hides the loading indicator.
    pub fn set_loading(&mut self, loading: bool)
        ensures
            final(self).loading == loading,
            final(self).row_ids == old(self).row_ids,
            final(self).row_likes == old(self).row_likes,
            final(self).pending == old(self).pending,
            final(self).items == old(self).items,
            final(self).active_row_index == old(self).active_row_index,
            final(self).playing_index == old(self).playing_index,
            final(self).rendering == old(self).rendering,
    {
        self.loading = loading;
    }

    /// The songs of the list (by identifier), in order.
    pub fn get_songinfo_list(&self) -> (r: Vec<u64>)
        ensures
            r@ == self.row_ids@,
    {
        let mut out: Vec<u64> = Vec::new();
        let mut i: usize = 0;
        while i < self.row_ids.len()
            invariant
                i <= self.row_ids.len(),
                out@ == self.row_ids@.take(i as int),
            decreases self.row_ids.len() - i,
        {
            out.push(self.row_ids[i]);
            i += 1;
            assert(out@ =~= self.row_ids@.take(i as int));
        }
        assert(self.row_ids@.take(self.row_ids.len() as int) =~= self.row_ids@);
        out
    }
}

/// Chunked rendering loses nothing: once no row is waiting, every row of the
/// list is rendered, in order, with its song and its like, and only the
/// playing row plays.
pub proof fn law_rendering_complete(v: SongListView)
    requires
        v.wf(),
        v.pending@.len() == 0,
    ensures
        v.items@.len() == v.row_ids@.len(),
        forall|i: int| 0 <= i < v.row_ids@.len() ==> (#[trigger] v.items@[i]) == (SongItem {
            song_id: v.row_ids@[i],
            like: v.row_likes@[i],
            playing: i == v.playing_index as int,
        }),
{
}

/// Whether activating a row plays its song: rows of playable songs do, and
/// rows of unplayable ("grey") songs when the setting lets them.
pub fn should_activate_row(activatable: bool, not_ignore_grey: bool) -> (r: bool)
    ensures
        r == (activatable || not_ignore_grey),
{
    activatable || not_ignore_grey
}

} // verus!
