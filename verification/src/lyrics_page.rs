//! The state of the "Now Playing" page: the queue it shows, the lyric of the
//! playing song and its highlighted lines, and the comment feed of the song
//! (paged loading, the rows shown, each comment's like and reply state).
use vstd::prelude::*;
use crate::text;
use crate::lyrics;
use crate::comments::{CommentReply, CommentReplyView, SongComment, SongCommentView, SongComments,
    SongCommentReplies, comments_view, replies_view};
use std::collections::{HashMap, HashSet};

verus! {

broadcast use vstd::std_specs::hash::group_hash_axioms;

/// How long after a comment load started no other one is asked for, in
/// milliseconds.
pub const COMMENTS_LOAD_COOLDOWN_MS: u64 = 900;
/// How many hot comments the first page shows at most.
pub const HOT_COMMENTS_SHOWN: usize = 8;

/// A row of the comment list.
#[derive(Clone, Copy, Debug, PartialEq, Eq, Structural)]
pub enum FeedRow {
    /// The "Hot Comments" heading.
    HotHeader,
    /// The "Latest Comments" heading.
    LatestHeader,
    /// A top-level comment.
    Comment(u64),
}

/// What the comment count label shows.
#[derive(Clone, Copy, Debug, PartialEq, Eq, Structural)]
pub enum CountLabel {
    NotLoaded,
    Loading,
    Unavailable,
    /// The total number of comments, in brackets.
    Total(u64),
}

/// What the status line under the comments shows.
#[derive(Clone, Copy, Debug, PartialEq, Eq, Structural)]
pub enum CommentsStatus {
    /// Nothing: comments are shown.
    Hidden,
    /// "Scroll down to view comments".
    ScrollToView,
    /// "Loading comments...".
    Loading,
    /// "Loading more comments...".
    LoadingMore,
    /// "Failed to load comments".
    Failed,
    /// "Failed to load more comments. Scroll down to retry".
    FailedRetry,
    /// "No comments".
    NoComments,
}

/// The like state of a comment or reply shown with a like button.
#[derive(Clone, Copy, Debug, PartialEq, Eq, Structural)]
pub struct LikeState {
    pub liked: bool,
    pub like_count: u64,
    /// The comment it replies to, 0 for a top-level comment.
    pub parent_id: u64,
}

/// The reply drawer of a top-level comment.
#[derive(Clone, Copy, Debug, PartialEq, Eq, Structural)]
pub struct ReplyThread {
    pub reply_count: u64,
    /// Whether its replies have been loaded.
    pub loaded: bool,
    /// Whether the replies are shown.
    pub revealed: bool,
    /// Whether the reply entry is shown.
    pub input_revealed: bool,
}

/// The label of a comment's replies button.
#[derive(Clone, Copy, Debug, PartialEq, Eq, Structural)]
pub enum ReplyLabel {
    /// "Collapse replies".
    Collapse,
    /// "View replies".
    View,
    /// "Collapse replies(<count>)".
    CollapseCount(u64),
    /// "More replies(<count>)".
    MoreCount(u64),
}

/// The label of a replies button for a reply count and whether the replies
/// are shown.
pub open spec fn spec_reply_label(count: u64, revealed: bool) -> ReplyLabel {
    if count == 0 {
        if revealed { ReplyLabel::Collapse } else { ReplyLabel::View }
    } else {
        if revealed { ReplyLabel::CollapseCount(count) } else { ReplyLabel::MoreCount(count) }
    }
}

/// The label of a replies button.
pub fn format_reply_button_label(count: u64, revealed: bool) -> (r: ReplyLabel)
    ensures
        r == spec_reply_label(count, revealed),
{
    if count == 0 {
        if revealed { ReplyLabel::Collapse } else { ReplyLabel::View }
    } else {
        if revealed { ReplyLabel::CollapseCount(count) } else { ReplyLabel::MoreCount(count) }
    }
}

/// The name a reply is shown under.
#[derive(Clone, Debug)]
pub enum DisplayName {
    /// A nickname.
    Name(String),
    /// "Me": the user's own reply, when no nickname is known.
    Me,
    /// "User": another user without a nickname.
    User,
}

/// The page's state.
pub struct PlayListLyricsPage {
    /// The song identifiers of the queue shown.
    pub playlist: Vec<u64>,
    /// The queue row marked as playing, -1 for none.
    pub playing_row: i32,
    pub current_song_id: u64,
    /// The song whose lyric is shown (0 while none is).
    pub lyrics_song_id: u64,
    pub lyrics: Vec<(u64, String)>,
    /// The lines highlighted last.
    pub highlighted: Option<(i32, i32)>,
    /// The song whose comments are shown (0 for none).
    pub comments_song_id: u64,
    /// The offset of the next comment page.
    pub next_offset: u32,
    pub loaded: bool,
    pub loading: bool,
    /// The offset of a page asked for and not begun yet.
    pub pending_offset: Option<u32>,
    /// When the last page load began, in milliseconds of the caller's clock.
    pub load_started_at: Option<u64>,
    pub exhausted: bool,
    pub hot_header_added: bool,
    pub latest_header_added: bool,
    /// The comments shown so far (never 0).
    pub seen_ids: HashSet<u64>,
    pub rows: Vec<FeedRow>,
    pub count_label: CountLabel,
    pub status: CommentsStatus,
    /// The like state of every comment and reply shown with its controls.
    pub likes: HashMap<u64, LikeState>,
    /// The reply drawer of every top-level comment shown with its controls.
    pub threads: HashMap<u64, ReplyThread>,
    /// The replies registered under each comment, in order.
    pub reply_ids: HashMap<u64, Vec<u64>>,
    pub user_id: u64,
    pub user_nickname: String,
    pub user_avatar_url: String,
}

/// The page's state as plain values.
#[verifier::ext_equal]
pub struct PageView {
    pub playlist: Seq<u64>,
    pub playing_row: i32,
    pub current_song_id: u64,
    pub lyrics_song_id: u64,
    pub lyrics: Seq<(u64, Seq<char>)>,
    pub highlighted: Option<(i32, i32)>,
    pub comments_song_id: u64,
    pub next_offset: u32,
    pub loaded: bool,
    pub loading: bool,
    pub pending_offset: Option<u32>,
    pub load_started_at: Option<u64>,
    pub exhausted: bool,
    pub hot_header_added: bool,
    pub latest_header_added: bool,
    pub seen_ids: Set<u64>,
    pub rows: Seq<FeedRow>,
    pub count_label: CountLabel,
    pub status: CommentsStatus,
    pub likes: Map<u64, LikeState>,
    pub threads: Map<u64, ReplyThread>,
    pub reply_ids: Map<u64, Seq<u64>>,
    pub user_id: u64,
    pub user_nickname: Seq<char>,
    pub user_avatar_url: Seq<char>,
}

/// The identifier lists of a map, taken by their contents.
pub open spec fn id_lists_view(m: Map<u64, Vec<u64>>) -> Map<u64, Seq<u64>> {
    Map::new(|k: u64| m.dom().contains(k), |k: u64| m[k]@)
}

impl View for PlayListLyricsPage {
    type V = PageView;

    open spec fn view(&self) -> PageView {
        PageView {
            playlist: self.playlist@,
            playing_row: self.playing_row,
            current_song_id: self.current_song_id,
            lyrics_song_id: self.lyrics_song_id,
            lyrics: lyrics::timed_view(self.lyrics@),
            highlighted: self.highlighted,
            comments_song_id: self.comments_song_id,
            next_offset: self.next_offset,
            loaded: self.loaded,
            loading: self.loading,
            pending_offset: self.pending_offset,
            load_started_at: self.load_started_at,
            exhausted: self.exhausted,
            hot_header_added: self.hot_header_added,
            latest_header_added: self.latest_header_added,
            seen_ids: self.seen_ids@,
            rows: self.rows@,
            count_label: self.count_label,
            status: self.status,
            likes: self.likes@,
            threads: self.threads@,
            reply_ids: id_lists_view(self.reply_ids@),
            user_id: self.user_id,
            user_nickname: self.user_nickname@,
            user_avatar_url: self.user_avatar_url@,
        }
    }
}

/// What the page keeps true: no comment is shown under identifier 0, every
/// comment row is a comment seen, and no comment is shown twice.
pub open spec fn page_wf(v: PageView) -> bool {
    &&& !v.seen_ids.contains(0)
    &&& forall|i: int| 0 <= i < v.rows.len() ==> (#[trigger] v.rows[i] matches FeedRow::Comment(id) ==> v.seen_ids.contains(id))
    &&& forall|i: int, j: int| 0 <= i < j < v.rows.len() ==> (#[trigger] v.rows[i] matches FeedRow::Comment(a)
        ==> (#[trigger] v.rows[j] matches FeedRow::Comment(b) ==> a != b))
}

impl PlayListLyricsPage {
    /// An empty page: no queue, no lyric, no comments.
    pub fn new() -> (r: Self)
        ensures
            r@.playlist.len() == 0,
            r@.playing_row == -1,
            r@.current_song_id == 0,
            r@.lyrics_song_id == 0,
            r@.lyrics.len() == 0,
            r@.highlighted is None,
            r@.comments_song_id == 0,
            r@.next_offset == 0,
            !r@.loaded && !r@.loading && !r@.exhausted,
            r@.pending_offset is None,
            r@.load_started_at is None,
            !r@.hot_header_added && !r@.latest_header_added,
            r@.seen_ids.is_empty(),
            r@.rows.len() == 0,
            r@.count_label == CountLabel::NotLoaded,
            r@.status == CommentsStatus::ScrollToView,
            r@.likes.is_empty(),
            r@.threads.is_empty(),
            r@.reply_ids.is_empty(),
            r@.user_id == 0,
            r@.user_nickname.len() == 0,
            r@.user_avatar_url.len() == 0,
            page_wf(r@),
    {
        let r = PlayListLyricsPage {
            playlist: Vec::new(),
            playing_row: -1,
            current_song_id: 0,
            lyrics_song_id: 0,
            lyrics: Vec::new(),
            highlighted: None,
            comments_song_id: 0,
            next_offset: 0,
            loaded: false,
            loading: false,
            pending_offset: None,
            load_started_at: None,
            exhausted: false,
            hot_header_added: false,
            latest_header_added: false,
            seen_ids: HashSet::new(),
            rows: Vec::new(),
            count_label: CountLabel::NotLoaded,
            status: CommentsStatus::ScrollToView,
            likes: HashMap::new(),
            threads: HashMap::new(),
            reply_ids: HashMap::new(),
            user_id: 0,
            user_nickname: String::new(),
            user_avatar_url: String::new(),
        };
        assert(r@.lyrics =~= Seq::<(u64, Seq<char>)>::empty());
        assert(r@.reply_ids =~= Map::<u64, Seq<u64>>::empty());
        r
    }
}

/// The page with its comment list emptied (rows and per-comment state).
pub open spec fn spec_clear_comments(v: PageView) -> PageView {
    PageView {
        rows: Seq::empty(),
        likes: Map::empty(),
        threads: Map::empty(),
        reply_ids: Map::empty(),
        ..v
    }
}

/// The page set up for the comments of a song: nothing changes for the song
/// already shown; for another one the feed starts over, unloaded.
pub open spec fn spec_prepare(v: PageView, song_id: u64) -> PageView {
    if v.comments_song_id == song_id {
        v
    } else {
        spec_clear_comments(PageView {
            comments_song_id: song_id,
            next_offset: 0,
            loaded: false,
            loading: false,
            pending_offset: None,
            load_started_at: None,
            exhausted: false,
            seen_ids: Set::empty(),
            latest_header_added: false,
            hot_header_added: false,
            count_label: CountLabel::NotLoaded,
            status: CommentsStatus::ScrollToView,
            ..v
        })
    }
}

/// Whether a page of comments may begin to load now (after the page was set
/// up for the song): a song is set, no load is running, more comments
/// remain, and the offset is the next one.
pub open spec fn can_begin(v: PageView, song_id: u64, offset: u32) -> bool {
    let w = spec_prepare(v, song_id);
    !(song_id == 0 || w.loading || w.exhausted || offset != w.next_offset)
}

/// The page after a request to begin loading the comments at `offset`.
pub open spec fn spec_begin_comments(v: PageView, song_id: u64, offset: u32, now_ms: u64) -> PageView {
    let w = spec_prepare(v, song_id);
    let w2 = if w.pending_offset == Some(offset) { PageView { pending_offset: None, ..w } } else { w };
    if !can_begin(v, song_id, offset) {
        w2
    } else {
        PageView {
            loading: true,
            load_started_at: Some(now_ms),
            status: if offset == 0 { CommentsStatus::Loading } else { CommentsStatus::LoadingMore },
            count_label: if offset == 0 { CountLabel::Loading } else { w2.count_label },
            ..w2
        }
    }
}

/// The page after a failed load of the comments at `offset`.
pub open spec fn spec_comments_failed(v: PageView, song_id: u64, offset: u32) -> PageView {
    if v.comments_song_id != song_id || offset != v.next_offset {
        v
    } else {
        PageView {
            loading: false,
            pending_offset: None,
            status: if offset == 0 { CommentsStatus::Failed } else { CommentsStatus::FailedRetry },
            count_label: if offset == 0 { CountLabel::Unavailable } else { v.count_label },
            ..v
        }
    }
}

/// The page once the next page of comments was asked for: that offset is
/// pending.
pub open spec fn spec_request(v: PageView) -> PageView {
    PageView { pending_offset: Some(v.next_offset), ..v }
}

/// Whether another page may be asked for at `now_ms`: none is loading or
/// pending, more remain, and the last load began at least the cool-down
/// earlier.
pub open spec fn may_request(v: PageView, now_ms: u64) -> bool {
    !v.loading && !v.exhausted && v.pending_offset is None && match v.load_started_at {
        Some(t) => !(now_ms < t + COMMENTS_LOAD_COOLDOWN_MS),
        None => true,
    }
}

impl PlayListLyricsPage {
    fn clear_comments(&mut self)
        ensures
            final(self)@ == spec_clear_comments(old(self)@),
    {
        self.rows = Vec::new();
        self.likes.clear();
        self.threads.clear();
        self.reply_ids.clear();
        assert(self@.reply_ids =~= Map::<u64, Seq<u64>>::empty());
        assert(self@.rows =~= Seq::<FeedRow>::empty());
    }

    /// Sets the page up for the comments of a song: for another song than
    /// the one shown, the feed starts over.
    pub fn prepare_comments_for_song(&mut self, song_id: u64)
        requires
            page_wf(old(self)@),
        ensures
            final(self)@ == spec_prepare(old(self)@, song_id),
            page_wf(final(self)@),
    {
        if self.comments_song_id == song_id {
            return;
        }
        self.comments_song_id = song_id;
        self.next_offset = 0;
        self.loaded = false;
        self.loading = false;
        self.pending_offset = None;
        self.load_started_at = None;
        self.exhausted = false;
        self.seen_ids.clear();
        self.latest_header_added = false;
        self.hot_header_added = false;
        self.count_label = CountLabel::NotLoaded;
        self.status = CommentsStatus::ScrollToView;
        self.clear_comments();
        assert(self@ =~= spec_prepare(old(self)@, song_id));
    }

    /// Begins loading the comments of a song at an offset, when that may
    /// happen now; says whether it did.
    pub fn begin_comments_update(&mut self, song_id: u64, offset: u32, now_ms: u64) -> (r: bool)
        requires
            page_wf(old(self)@),
        ensures
            r == can_begin(old(self)@, song_id, offset),
            final(self)@ == spec_begin_comments(old(self)@, song_id, offset, now_ms),
            page_wf(final(self)@),
    {
        if self.comments_song_id != song_id {
            self.prepare_comments_for_song(song_id);
        }
        if self.pending_offset == Some(offset) {
            self.pending_offset = None;
        }
        if song_id == 0 || self.loading || self.exhausted || offset != self.next_offset {
            return false;
        }
        self.loading = true;
        self.load_started_at = Some(now_ms);
        if offset == 0 {
            self.count_label = CountLabel::Loading;
            self.status = CommentsStatus::Loading;
        } else {
            self.status = CommentsStatus::LoadingMore;
        }
        true
    }

    /// Records that loading the comments at an offset failed.
    pub fn comments_update_failed(&mut self, song_id: u64, offset: u32)
        requires
            page_wf(old(self)@),
        ensures
            final(self)@ == spec_comments_failed(old(self)@, song_id, offset),
            page_wf(final(self)@),
    {
        if self.comments_song_id != song_id || offset != self.next_offset {
            return;
        }
        self.loading = false;
        self.pending_offset = None;
        if offset == 0 {
            self.count_label = CountLabel::Unavailable;
            self.status = CommentsStatus::Failed;
        } else {
            self.status = CommentsStatus::FailedRetry;
        }
    }

    /// Asks for the next page of comments when that may happen at `now_ms`:
    /// the request (song and offset) is returned and marked pending.
    pub fn request_more_comments(&mut self, now_ms: u64) -> (r: Option<(u64, u32)>)
        requires
            page_wf(old(self)@),
        ensures
            if may_request(old(self)@, now_ms) {
                &&& r == Some((old(self)@.comments_song_id, old(self)@.next_offset))
                &&& final(self)@ == spec_request(old(self)@)
            } else {
                r is None && final(self)@ == old(self)@
            },
            page_wf(final(self)@),
    {
        if self.loading || self.exhausted || self.pending_offset.is_some() {
            return None;
        }
        match self.load_started_at {
            Some(t) => {
                if (now_ms as u128) < (t as u128) + (COMMENTS_LOAD_COOLDOWN_MS as u128) {
                    return None;
                }
            },
            None => {},
        }
        let offset = self.next_offset;
        self.pending_offset = Some(offset);
        Some((self.comments_song_id, offset))
    }

    /// Asks for comments as the page scrolls: the first page once the
    /// comment section comes near the viewport, later pages once the bottom
    /// comes near.
    pub fn maybe_load_comments_for_scroll(&mut self, section_near: bool, bottom_near: bool, now_ms: u64) -> (r: Option<(u64, u32)>)
        requires
            page_wf(old(self)@),
        ensures
            if old(self)@.comments_song_id != 0 && (if old(self)@.loaded { bottom_near } else { section_near })
                && may_request(old(self)@, now_ms) {
                &&& r == Some((old(self)@.comments_song_id, old(self)@.next_offset))
                &&& final(self)@ == spec_request(old(self)@)
            } else {
                r is None && final(self)@ == old(self)@
            },
            page_wf(final(self)@),
    {
        if self.comments_song_id == 0 {
            return None;
        }
        let near = if self.loaded { bottom_near } else { section_near };
        if near {
            self.request_more_comments(now_ms)
        } else {
            None
        }
    }
}

/// The page with a top-level comment appended to the list: a comment with
/// an identifier on a song's page also gets its like state and its reply
/// drawer.
pub open spec fn spec_append_comment(v: PageView, c: SongCommentView) -> PageView {
    let w = PageView { rows: v.rows.push(FeedRow::Comment(c.comment_id)), ..v };
    if c.comment_id != 0 && v.comments_song_id != 0 {
        PageView {
            likes: w.likes.insert(c.comment_id, LikeState { liked: c.liked, like_count: c.liked_count, parent_id: 0 }),
            threads: w.threads.insert(
                c.comment_id,
                ReplyThread { reply_count: c.reply_count, loaded: false, revealed: false, input_revealed: false },
            ),
            ..w
        }
    } else {
        w
    }
}

/// The page with comments shown in order, each at most once: a comment is
/// skipped when its identifier is 0 or it is already shown.
pub open spec fn spec_show_comments(v: PageView, cs: Seq<SongCommentView>) -> PageView
    decreases cs.len(),
{
    if cs.len() == 0 {
        v
    } else {
        let w = spec_show_comments(v, cs.drop_last());
        let c = cs.last();
        if c.comment_id != 0 && !w.seen_ids.contains(c.comment_id) {
            spec_append_comment(PageView { seen_ids: w.seen_ids.insert(c.comment_id), ..w }, c)
        } else {
            w
        }
    }
}

/// `offset + n`, or the largest `u32` when that overflows.
pub open spec fn saturating_add_u32(a: u32, b: u32) -> u32 {
    if a + b > u32::MAX { u32::MAX } else { (a + b) as u32 }
}

/// The page after a page of comments arrived for `song_id` at `offset`: on
/// the first page the list starts over and up to eight hot comments come
/// under their heading; the latest comments follow under theirs; the next
/// offset moves past them, and the feed is exhausted when the page was
/// empty or short, or reached the total.
pub open spec fn spec_update_comments(
    v: PageView,
    song_id: u64,
    offset: u32,
    total: u64,
    hot: Seq<SongCommentView>,
    latest: Seq<SongCommentView>,
) -> PageView {
    if v.comments_song_id != song_id {
        v
    } else {
        let b = spec_page_start(v, offset, total);
        let c = spec_show_hot(b, offset, hot);
        let d = spec_show_latest(c, latest);
        spec_page_end(d, offset, total, latest.len())
    }
}

/// After a page of `n` latest comments arrives for the song shown at
/// `offset`, the next page is asked for at `offset + n` (the largest `u32`
/// when that does not fit), so the feed moves on past every comment it got:
/// pages of 20 are asked for at 0, 20, 40, ... The feed ends with a short
/// page or once the total is reached, and not before. A page for another
/// song changes nothing.
pub proof fn law_next_offset(
    v: PageView,
    song_id: u64,
    offset: u32,
    total: u64,
    hot: Seq<SongCommentView>,
    latest: Seq<SongCommentView>,
)
    requires
        latest.len() <= u32::MAX,
    ensures
        v.comments_song_id == song_id ==> spec_update_comments(v, song_id, offset, total, hot, latest).next_offset as int
            == (if offset + latest.len() > u32::MAX { u32::MAX as int } else { offset + latest.len() }),
        v.comments_song_id == song_id ==> spec_update_comments(v, song_id, offset, total, hot, latest).next_offset >= offset,
        v.comments_song_id != song_id ==> spec_update_comments(v, song_id, offset, total, hot, latest) == v,
        v.comments_song_id == song_id && latest.len() < 20 ==> spec_update_comments(v, song_id, offset, total, hot, latest).exhausted,
        v.comments_song_id == song_id && latest.len() >= 20 && offset + latest.len() <= u32::MAX
            && (total == 0 || offset + latest.len() < total)
            ==> !spec_update_comments(v, song_id, offset, total, hot, latest).exhausted,
        v.comments_song_id == song_id && total != 0 && total <= offset + latest.len() <= u32::MAX
            ==> spec_update_comments(v, song_id, offset, total, hot, latest).exhausted,
{
}

/// A page arrived: loading ends, the total is shown, and on the first page
/// the list starts over.
pub open spec fn spec_page_start(v: PageView, offset: u32, total: u64) -> PageView {
    let a = PageView { loading: false, pending_offset: None, count_label: CountLabel::Total(total), ..v };
    if offset == 0 {
        spec_clear_comments(PageView { seen_ids: Set::empty(), latest_header_added: false, hot_header_added: false, ..a })
    } else {
        a
    }
}

/// The hot comments of a first page (up to eight) under their heading, once.
pub open spec fn spec_show_hot(b: PageView, offset: u32, hot: Seq<SongCommentView>) -> PageView {
    if offset == 0 && hot.len() > 0 && !b.hot_header_added {
        spec_show_comments(
            PageView { hot_header_added: true, rows: b.rows.push(FeedRow::HotHeader), ..b },
            if hot.len() <= 8 { hot } else { hot.take(8) },
        )
    } else {
        b
    }
}

/// The latest comments of a page, under their heading (added once).
pub open spec fn spec_show_latest(c: PageView, latest: Seq<SongCommentView>) -> PageView {
    if latest.len() > 0 {
        let d0 = if !c.latest_header_added {
            PageView { latest_header_added: true, rows: c.rows.push(FeedRow::LatestHeader), ..c }
        } else {
            c
        };
        spec_show_comments(d0, latest)
    } else {
        c
    }
}

/// The next offset, whether the feed is exhausted, and the status line.
pub open spec fn spec_page_end(d: PageView, offset: u32, total: u64, n: nat) -> PageView {
    let next = saturating_add_u32(offset, n as u32);
    PageView {
        next_offset: next,
        loaded: true,
        exhausted: n == 0 || n < 20 || (total != 0 && next as u64 >= total),
        status: if d.seen_ids.is_empty() { CommentsStatus::NoComments } else { CommentsStatus::Hidden },
        ..d
    }
}

proof fn lemma_push_header_wf(v: PageView, w: PageView, row: FeedRow)
    requires
        page_wf(v),
        !(row is Comment),
        w.rows == v.rows.push(row),
        w.seen_ids == v.seen_ids,
    ensures
        page_wf(w),
{
    assert forall|i: int| 0 <= i < w.rows.len() implies (#[trigger] w.rows[i] matches FeedRow::Comment(id) ==> w.seen_ids.contains(id)) by {
        if i < v.rows.len() { assert(w.rows[i] == v.rows[i]); }
    }
    assert forall|i: int, j: int| 0 <= i < j < w.rows.len() implies (#[trigger] w.rows[i] matches FeedRow::Comment(x)
        ==> (#[trigger] w.rows[j] matches FeedRow::Comment(y) ==> x != y)) by {
        if j < v.rows.len() { assert(w.rows[i] == v.rows[i] && w.rows[j] == v.rows[j]); }
    }
}

proof fn lemma_append_comment_wf(v: PageView, c: SongCommentView)
    requires
        page_wf(v),
        c.comment_id != 0,
        !v.seen_ids.contains(c.comment_id),
    ensures
        page_wf(spec_append_comment(PageView { seen_ids: v.seen_ids.insert(c.comment_id), ..v }, c)),
{
    let w = spec_append_comment(PageView { seen_ids: v.seen_ids.insert(c.comment_id), ..v }, c);
    assert(w.rows == v.rows.push(FeedRow::Comment(c.comment_id)));
    assert forall|i: int, j: int| 0 <= i < j < w.rows.len() implies (#[trigger] w.rows[i] matches FeedRow::Comment(a)
        ==> (#[trigger] w.rows[j] matches FeedRow::Comment(b) ==> a != b)) by {
        if j == w.rows.len() - 1 {
            if let FeedRow::Comment(a) = w.rows[i] {
                assert(v.rows[i] == w.rows[i]);
                assert(v.seen_ids.contains(a));
            }
        } else {
            assert(v.rows[i] == w.rows[i] && v.rows[j] == w.rows[j]);
        }
    }
    assert forall|i: int| 0 <= i < w.rows.len() implies (#[trigger] w.rows[i] matches FeedRow::Comment(id) ==> w.seen_ids.contains(id)) by {
        if i < v.rows.len() {
            assert(v.rows[i] == w.rows[i]);
        }
    }
}

proof fn lemma_show_comments_wf(v: PageView, cs: Seq<SongCommentView>)
    requires
        page_wf(v),
    ensures
        page_wf(spec_show_comments(v, cs)),
        spec_show_comments(v, cs).comments_song_id == v.comments_song_id,
    decreases cs.len(),
{
    if cs.len() > 0 {
        lemma_show_comments_wf(v, cs.drop_last());
        let w = spec_show_comments(v, cs.drop_last());
        let c = cs.last();
        if c.comment_id != 0 && !w.seen_ids.contains(c.comment_id) {
            lemma_append_comment_wf(w, c);
        }
    }
}

impl PlayListLyricsPage {
    /// Appends a top-level comment to the list (registering its controls
    /// when it can be acted on).
    fn append_comment(&mut self, c: &SongComment)
        ensures
            final(self)@ == spec_append_comment(old(self)@, c@),
    {
        self.rows.push(FeedRow::Comment(c.comment_id));
        if c.comment_id != 0 && self.comments_song_id != 0 {
            self.likes.insert(c.comment_id, LikeState { liked: c.liked, like_count: c.liked_count, parent_id: 0 });
            self.threads.insert(
                c.comment_id,
                ReplyThread { reply_count: c.reply_count, loaded: false, revealed: false, input_revealed: false },
            );
        }
        assert(self@ =~= spec_append_comment(old(self)@, c@));
    }

    /// Shows the first `count` comments of a list, each at most once.
    fn show_comments(&mut self, cs: &Vec<SongComment>, count: usize)
        requires
            count <= cs.len(),
            page_wf(old(self)@),
        ensures
            final(self)@ == spec_show_comments(old(self)@, comments_view(cs@).take(count as int)),
            page_wf(final(self)@),
    {
        let ghost start = self@;
        let ghost cv = comments_view(cs@);
        let mut i: usize = 0;
        assert(cv.take(0) =~= Seq::<SongCommentView>::empty());
        while i < count
            invariant
                i <= count <= cs.len(),
                cv == comments_view(cs@),
                self@ == spec_show_comments(start, cv.take(i as int)),
                page_wf(start),
            decreases count - i,
        {
            proof { lemma_show_comments_wf(start, cv.take(i as int)); }
            assert(cv.take(i + 1).drop_last() =~= cv.take(i as int));
            assert(cv.take(i + 1).last() == cs@[i as int]@);
            let c = &cs[i];
            let ghost w = self@;
            if c.comment_id != 0 {
                if self.seen_ids.insert(c.comment_id) {
                    assert(self@ =~= PageView { seen_ids: w.seen_ids.insert(c.comment_id), ..w });
                    self.append_comment(c);
                } else {
                    assert(self@ =~= w);
                }
            }
            i += 1;
        }
        proof { lemma_show_comments_wf(start, cv.take(count as int)); }
    }

    fn page_start(&mut self, offset: u32, total: u64)
        requires
            page_wf(old(self)@),
        ensures
            final(self)@ == spec_page_start(old(self)@, offset, total),
            page_wf(final(self)@),
    {
        self.loading = false;
        self.pending_offset = None;
        self.count_label = CountLabel::Total(total);
        if offset == 0 {
            self.seen_ids.clear();
            self.latest_header_added = false;
            self.hot_header_added = false;
            self.clear_comments();
        }
        assert(self@ =~= spec_page_start(old(self)@, offset, total));
    }

    fn show_hot(&mut self, offset: u32, hot: &Vec<SongComment>)
        requires
            page_wf(old(self)@),
        ensures
            final(self)@ == spec_show_hot(old(self)@, offset, comments_view(hot@)),
            page_wf(final(self)@),
    {
        let ghost hv = comments_view(hot@);
        if offset == 0 && hot.len() > 0 && !self.hot_header_added {
            let ghost b = self@;
            self.hot_header_added = true;
            self.rows.push(FeedRow::HotHeader);
            assert(self@ =~= PageView { hot_header_added: true, rows: b.rows.push(FeedRow::HotHeader), ..b });
            proof { lemma_push_header_wf(b, self@, FeedRow::HotHeader); }
            let n = if hot.len() <= HOT_COMMENTS_SHOWN { hot.len() } else { HOT_COMMENTS_SHOWN };
            assert(hv.take(n as int) =~= (if hv.len() <= 8 { hv } else { hv.take(8) }));
            self.show_comments(hot, n);
        }
    }

    fn show_latest(&mut self, latest: &Vec<SongComment>)
        requires
            page_wf(old(self)@),
        ensures
            final(self)@ == spec_show_latest(old(self)@, comments_view(latest@)),
            page_wf(final(self)@),
    {
        let ghost lv = comments_view(latest@);
        if latest.len() > 0 {
            if !self.latest_header_added {
                let ghost c = self@;
                self.latest_header_added = true;
                self.rows.push(FeedRow::LatestHeader);
                assert(self@ =~= PageView { latest_header_added: true, rows: c.rows.push(FeedRow::LatestHeader), ..c });
                proof { lemma_push_header_wf(c, self@, FeedRow::LatestHeader); }
            }
            assert(lv.take(lv.len() as int) =~= lv);
            self.show_comments(latest, latest.len());
        }
    }

    /// Shows a page of comments that arrived for a song at an offset.
    pub fn update_comments(&mut self, song_id: u64, offset: u32, comments: &SongComments)
        requires
            page_wf(old(self)@),
        ensures
            final(self)@ == spec_update_comments(
                old(self)@,
                song_id,
                offset,
                comments.total,
                comments_view(comments.hot_comments@),
                comments_view(comments.comments@),
            ),
            page_wf(final(self)@),
    {
        if self.comments_song_id != song_id {
            return;
        }
        self.page_start(offset, comments.total);
        self.show_hot(offset, &comments.hot_comments);
        self.show_latest(&comments.comments);
        let ghost d = self@;
        let n: u32 = comments.comments.len() as u32;
        let next = offset.saturating_add(n);
        self.next_offset = next;
        self.loaded = true;
        self.exhausted = comments.comments.len() == 0 || comments.comments.len() < 20
            || (comments.total != 0 && (next as u64) >= comments.total);
        self.status = if self.seen_ids.is_empty() { CommentsStatus::NoComments } else { CommentsStatus::Hidden };
        assert(self@ =~= spec_page_end(d, offset, comments.total, comments.comments@.len()));
    }
}

/// `a - 1`, or 0.
pub open spec fn dec_sat(a: u64) -> u64 {
    if a == 0 { 0 } else { (a - 1) as u64 }
}

/// `a + 1`, or the largest `u64`.
pub open spec fn inc_sat(a: u64) -> u64 {
    if a == u64::MAX { u64::MAX } else { (a + 1) as u64 }
}

/// The page after a like or unlike of a comment went through: the comment's
/// state takes the new value, and its count moves by one when the value
/// changed.
pub open spec fn spec_update_like(v: PageView, song_id: u64, comment_id: u64, liked: bool) -> PageView {
    if v.comments_song_id != song_id || !v.likes.contains_key(comment_id) {
        v
    } else {
        let st = v.likes[comment_id];
        let count = if st.liked == liked {
            st.like_count
        } else if liked {
            inc_sat(st.like_count)
        } else {
            dec_sat(st.like_count)
        };
        PageView {
            likes: v.likes.insert(comment_id, LikeState { liked, like_count: count, parent_id: st.parent_id }),
            ..v
        }
    }
}

/// The reply identifiers registered under a comment (none when it has no
/// entry).
pub open spec fn replies_of(v: PageView, parent: u64) -> Seq<u64> {
    if v.reply_ids.contains_key(parent) { v.reply_ids[parent] } else { Seq::empty() }
}

/// The page with a reply shown under `parent`: a reply with an identifier on
/// a song's page gets its like state and is registered under the parent.
pub open spec fn spec_register_reply(v: PageView, parent: u64, r: CommentReplyView) -> PageView {
    if v.comments_song_id != 0 && r.comment_id != 0 {
        PageView {
            likes: v.likes.insert(r.comment_id, LikeState { liked: r.liked, like_count: r.liked_count, parent_id: parent }),
            reply_ids: v.reply_ids.insert(parent, replies_of(v, parent).push(r.comment_id)),
            ..v
        }
    } else {
        v
    }
}

/// The page with replies shown under `parent`, in order.
pub open spec fn spec_register_replies(v: PageView, parent: u64, rs: Seq<CommentReplyView>) -> PageView
    decreases rs.len(),
{
    if rs.len() == 0 {
        v
    } else {
        spec_register_reply(spec_register_replies(v, parent, rs.drop_last()), parent, rs.last())
    }
}

/// A map without the given keys.
pub open spec fn remove_all(m: Map<u64, LikeState>, ids: Seq<u64>) -> Map<u64, LikeState>
    decreases ids.len(),
{
    if ids.len() == 0 {
        m
    } else {
        remove_all(m, ids.drop_last()).remove(ids.last())
    }
}

/// The page without the replies registered under `parent`.
pub open spec fn spec_unregister_replies(v: PageView, parent: u64) -> PageView {
    if v.reply_ids.contains_key(parent) {
        PageView { likes: remove_all(v.likes, v.reply_ids[parent]), reply_ids: v.reply_ids.remove(parent), ..v }
    } else {
        v
    }
}

/// A thread changed by `f` when the comment has one.
pub open spec fn with_thread(v: PageView, id: u64, t: ReplyThread) -> PageView {
    PageView { threads: v.threads.insert(id, t), ..v }
}

/// The page after the replies under a comment arrived: its count becomes the
/// larger of the total and the number of replies, its earlier replies are
/// replaced by these, and the drawer is loaded and opened.
pub open spec fn spec_update_replies(v: PageView, song_id: u64, comment_id: u64, total: u64, rs: Seq<CommentReplyView>) -> PageView {
    if v.comments_song_id != song_id || !v.threads.contains_key(comment_id) {
        v
    } else {
        let t = v.threads[comment_id];
        let count = if total >= rs.len() { total } else { rs.len() as u64 };
        let a = with_thread(v, comment_id, ReplyThread { reply_count: count, ..t });
        let b = spec_unregister_replies(a, comment_id);
        let c = spec_register_replies(b, comment_id, rs);
        with_thread(c, comment_id, ReplyThread { reply_count: count, loaded: true, revealed: true, ..t })
    }
}

impl PlayListLyricsPage {
    /// Records that a like or unlike of a comment went through.
    pub fn update_comment_like(&mut self, song_id: u64, comment_id: u64, liked: bool)
        requires
            page_wf(old(self)@),
        ensures
            final(self)@ == spec_update_like(old(self)@, song_id, comment_id, liked),
            page_wf(final(self)@),
    {
        if self.comments_song_id != song_id {
            return;
        }
        let st = match self.likes.get(&comment_id) {
            Some(st) => *st,
            None => return,
        };
        let count: u64 = if st.liked == liked {
            st.like_count
        } else if liked {
            st.like_count.saturating_add(1)
        } else {
            st.like_count.saturating_sub(1)
        };
        self.likes.insert(comment_id, LikeState { liked, like_count: count, parent_id: st.parent_id });
        assert(self@ =~= spec_update_like(old(self)@, song_id, comment_id, liked));
    }

    /// Shows a reply under a comment, registering it when it can be acted on.
    fn register_reply(&mut self, parent: u64, r: &CommentReply)
        requires
            page_wf(old(self)@),
        ensures
            final(self)@ == spec_register_reply(old(self)@, parent, r@),
            page_wf(final(self)@),
    {
        if self.comments_song_id != 0 && r.comment_id != 0 {
            self.likes.insert(r.comment_id, LikeState { liked: r.liked, like_count: r.liked_count, parent_id: parent });
            let mut ids: Vec<u64> = match self.reply_ids.remove(&parent) {
                Some(ids) => ids,
                None => Vec::new(),
            };
            ids.push(r.comment_id);
            self.reply_ids.insert(parent, ids);
            assert(self@.reply_ids =~= spec_register_reply(old(self)@, parent, r@).reply_ids);
            assert(self@ =~= spec_register_reply(old(self)@, parent, r@));
        }
    }

    /// Drops the replies registered under a comment.
    fn unregister_reply_rows(&mut self, parent: u64)
        requires
            page_wf(old(self)@),
        ensures
            final(self)@ == spec_unregister_replies(old(self)@, parent),
            page_wf(final(self)@),
    {
        let ids = match self.reply_ids.remove(&parent) {
            Some(ids) => ids,
            None => {
                assert(self@ =~= old(self)@);
                return;
            },
        };
        let ghost start = self@.likes;
        let mut i: usize = 0;
        while i < ids.len()
            invariant
                i <= ids.len(),
                self@.likes == remove_all(start, ids@.take(i as int)),
                self@.rows == old(self)@.rows,
                self@.seen_ids == old(self)@.seen_ids,
                self@.reply_ids == old(self)@.reply_ids.remove(parent),
                self@.threads == old(self)@.threads,
                old(self)@.reply_ids.contains_key(parent),
                old(self)@.reply_ids[parent] == ids@,
                start == old(self)@.likes,
                self@.comments_song_id == old(self)@.comments_song_id,
                (PageView { likes: old(self)@.likes, reply_ids: old(self)@.reply_ids, ..self@ }) == old(self)@,
            decreases ids.len() - i,
        {
            assert(ids@.take(i + 1).drop_last() =~= ids@.take(i as int));
            self.likes.remove(&ids[i]);
            i += 1;
        }
        assert(ids@.take(ids.len() as int) =~= ids@);
        assert(self@ =~= spec_unregister_replies(old(self)@, parent));
    }

    /// Shows the replies that arrived for a comment.
    pub fn update_comment_replies(&mut self, song_id: u64, comment_id: u64, replies: &SongCommentReplies)
        requires
            page_wf(old(self)@),
        ensures
            final(self)@ == spec_update_replies(old(self)@, song_id, comment_id, replies.total, replies_view(replies.replies@)),
            page_wf(final(self)@),
    {
        if self.comments_song_id != song_id {
            return;
        }
        let t = match self.threads.get(&comment_id) {
            Some(t) => *t,
            None => return,
        };
        let n: u64 = replies.replies.len() as u64;
        let count: u64 = if replies.total >= n { replies.total } else { n };
        self.threads.insert(comment_id, ReplyThread { reply_count: count, ..t });
        let ghost a = self@;
        self.unregister_reply_rows(comment_id);
        let ghost b = self@;
        let ghost rv = replies_view(replies.replies@);
        let mut i: usize = 0;
        assert(rv.take(0) =~= Seq::<CommentReplyView>::empty());
        while i < replies.replies.len()
            invariant
                i <= replies.replies.len(),
                rv == replies_view(replies.replies@),
                self@ == spec_register_replies(b, comment_id, rv.take(i as int)),
                page_wf(self@),
            decreases replies.replies.len() - i,
        {
            assert(rv.take(i + 1).drop_last() =~= rv.take(i as int));
            assert(rv.take(i + 1).last() == replies.replies@[i as int]@);
            self.register_reply(comment_id, &replies.replies[i]);
            i += 1;
        }
        assert(rv.take(replies.replies.len() as int) =~= rv);
        self.threads.insert(comment_id, ReplyThread { reply_count: count, loaded: true, revealed: true, ..t });
        assert(self@ =~= spec_update_replies(old(self)@, song_id, comment_id, replies.total, rv));
    }

    /// Sets the reply count of a comment.
    pub fn update_comment_reply_count(&mut self, song_id: u64, comment_id: u64, count: u64)
        requires
            page_wf(old(self)@),
        ensures
            final(self)@ == (if old(self)@.comments_song_id == song_id && old(self)@.threads.contains_key(comment_id) {
                with_thread(old(self)@, comment_id, ReplyThread { reply_count: count, ..old(self)@.threads[comment_id] })
            } else {
                old(self)@
            }),
            page_wf(final(self)@),
    {
        if self.comments_song_id != song_id {
            return;
        }
        match self.threads.get(&comment_id) {
            Some(t) => {
                let t2 = ReplyThread { reply_count: count, ..*t };
                self.threads.insert(comment_id, t2);
                assert(self@ =~= with_thread(old(self)@, comment_id, t2));
            },
            None => {},
        }
    }
}

/// The page with a comment's thread changed, when it has one.
pub open spec fn map_thread(v: PageView, id: u64, count: u64, loaded: bool, revealed: bool, input_revealed: bool) -> PageView {
    if v.threads.contains_key(id) {
        with_thread(v, id, ReplyThread { reply_count: count, loaded, revealed, input_revealed })
    } else {
        v
    }
}

/// The page after a reply to a comment was sent: the entry closes; a reply
/// the service returned is shown (when not shown yet, adding one to the
/// count) and the drawer opens; without one the drawer closes, the count
/// grows by one and the replies are to be loaded again.
pub open spec fn spec_reply_sent(v: PageView, song_id: u64, comment_id: u64, reply: Option<CommentReplyView>) -> PageView {
    if v.comments_song_id != song_id {
        v
    } else {
        let t = v.threads[comment_id];
        let has = v.threads.contains_key(comment_id);
        match reply {
            Some(r) => {
                if !v.likes.contains_key(r.comment_id) {
                    let b = if has { spec_register_reply(v, comment_id, r) } else { v };
                    map_thread(b, comment_id, inc_sat(t.reply_count), true, true, false)
                } else {
                    map_thread(v, comment_id, t.reply_count, true, true, false)
                }
            },
            None => map_thread(v, comment_id, inc_sat(t.reply_count), false, false, false),
        }
    }
}

/// The rows without the row of a comment.
pub open spec fn remove_comment_row(rows: Seq<FeedRow>, id: u64) -> Seq<FeedRow>
    decreases rows.len(),
{
    if rows.len() == 0 {
        rows
    } else {
        let prev = remove_comment_row(rows.drop_last(), id);
        if rows.last() == FeedRow::Comment(id) { prev } else { prev.push(rows.last()) }
    }
}

/// A list of identifiers without one of them.
pub open spec fn without_id(ids: Seq<u64>, id: u64) -> Seq<u64>
    decreases ids.len(),
{
    if ids.len() == 0 {
        ids
    } else {
        let prev = without_id(ids.drop_last(), id);
        if ids.last() == id { prev } else { prev.push(ids.last()) }
    }
}

/// The page after a comment (`parent == 0`) or a reply was deleted: its row
/// and controls go; a comment's replies go with it; a reply leaves its
/// parent's list and the parent's count drops by one.
pub open spec fn spec_comment_deleted(v: PageView, song_id: u64, parent: u64, comment_id: u64) -> PageView {
    if v.comments_song_id != song_id {
        v
    } else {
        let a = if v.likes.contains_key(comment_id) && v.likes[comment_id].parent_id == 0 {
            PageView { rows: remove_comment_row(v.rows, comment_id), ..v }
        } else {
            v
        };
        let b = PageView { likes: a.likes.remove(comment_id), ..a };
        if parent == 0 {
            spec_unregister_replies(b, comment_id)
        } else {
            let c = if b.reply_ids.contains_key(parent) {
                PageView { reply_ids: b.reply_ids.insert(parent, without_id(b.reply_ids[parent], comment_id)), ..b }
            } else {
                b
            };
            let t = c.threads[parent];
            map_thread(c, parent, dec_sat(t.reply_count), t.loaded, t.revealed, t.input_revealed)
        }
    }
}

proof fn lemma_remove_row(rows: Seq<FeedRow>, id: u64)
    ensures
        forall|i: int| 0 <= i < remove_comment_row(rows, id).len() ==> exists|j: int| 0 <= j < rows.len()
            && rows[j] == #[trigger] remove_comment_row(rows, id)[i],
        forall|i: int, j: int| 0 <= i < j < remove_comment_row(rows, id).len() ==> exists|a: int, b: int|
            0 <= a < b < rows.len() && rows[a] == #[trigger] remove_comment_row(rows, id)[i]
            && rows[b] == #[trigger] remove_comment_row(rows, id)[j],
    decreases rows.len(),
{
    if rows.len() > 0 {
        let p = rows.drop_last();
        lemma_remove_row(p, id);
        let r = remove_comment_row(rows, id);
        let q = remove_comment_row(p, id);
        assert forall|i: int| 0 <= i < r.len() implies exists|j: int| 0 <= j < rows.len() && rows[j] == #[trigger] r[i] by {
            if i < q.len() {
                assert(r[i] == q[i]);
                let j = choose|j: int| 0 <= j < p.len() && p[j] == q[i];
                assert(rows[j] == p[j]);
            } else {
                assert(r[i] == rows.last());
                assert(rows[rows.len() - 1] == r[i]);
            }
        }
        assert forall|i: int, j: int| 0 <= i < j < r.len() implies exists|a: int, b: int|
            0 <= a < b < rows.len() && rows[a] == #[trigger] r[i] && rows[b] == #[trigger] r[j] by {
            if j < q.len() {
                assert(r[i] == q[i] && r[j] == q[j]);
                let (a, b) = choose|a: int, b: int| 0 <= a < b < p.len() && p[a] == q[i] && p[b] == q[j];
                assert(rows[a] == p[a] && rows[b] == p[b]);
            } else {
                assert(r[i] == q[i]);
                let a = choose|a: int| 0 <= a < p.len() && p[a] == q[i];
                assert(rows[a] == p[a]);
                assert(r[j] == rows.last());
                assert(rows[rows.len() - 1] == r[j]);
            }
        }
    }
}

proof fn lemma_remove_row_wf(v: PageView, id: u64)
    requires
        page_wf(v),
    ensures
        page_wf(PageView { rows: remove_comment_row(v.rows, id), ..v }),
{
    lemma_remove_row(v.rows, id);
    let w = PageView { rows: remove_comment_row(v.rows, id), ..v };
    assert forall|i: int| 0 <= i < w.rows.len() implies (#[trigger] w.rows[i] matches FeedRow::Comment(x) ==> w.seen_ids.contains(x)) by {
        let j = choose|j: int| 0 <= j < v.rows.len() && v.rows[j] == w.rows[i];
    }
    assert forall|i: int, j: int| 0 <= i < j < w.rows.len() implies (#[trigger] w.rows[i] matches FeedRow::Comment(x)
        ==> (#[trigger] w.rows[j] matches FeedRow::Comment(y) ==> x != y)) by {
        let (a, b) = choose|a: int, b: int| 0 <= a < b < v.rows.len() && v.rows[a] == w.rows[i] && v.rows[b] == w.rows[j];
    }
}

impl PlayListLyricsPage {
    /// Records that a reply to a comment was sent, with the reply the
    /// service returned if it returned one.
    pub fn comment_reply_sent(&mut self, song_id: u64, comment_id: u64, reply: Option<CommentReply>)
        requires
            page_wf(old(self)@),
        ensures
            final(self)@ == spec_reply_sent(old(self)@, song_id, comment_id, match reply {
                Some(r) => Some(r@),
                None => None,
            }),
            page_wf(final(self)@),
    {
        if self.comments_song_id != song_id {
            return;
        }
        let ghost v = self@;
        let t_opt: Option<ReplyThread> = match self.threads.get(&comment_id) {
            Some(t) => Some(*t),
            None => None,
        };
        match reply {
            Some(r) => {
                if !self.likes.contains_key(&r.comment_id) {
                    if t_opt.is_some() {
                        self.register_reply(comment_id, &r);
                    }
                    match t_opt {
                        Some(t) => {
                            let t2 = ReplyThread { reply_count: t.reply_count.saturating_add(1), loaded: true, revealed: true, input_revealed: false };
                            self.threads.insert(comment_id, t2);
                        },
                        None => {},
                    }
                } else {
                    match t_opt {
                        Some(t) => {
                            let t2 = ReplyThread { reply_count: t.reply_count, loaded: true, revealed: true, input_revealed: false };
                            self.threads.insert(comment_id, t2);
                        },
                        None => {},
                    }
                }
                assert(self@ =~= spec_reply_sent(v, song_id, comment_id, Some(r@)));
            },
            None => {
                match t_opt {
                    Some(t) => {
                        let t2 = ReplyThread { reply_count: t.reply_count.saturating_add(1), loaded: false, revealed: false, input_revealed: false };
                        self.threads.insert(comment_id, t2);
                    },
                    None => {},
                }
                assert(self@ =~= spec_reply_sent(v, song_id, comment_id, None));
            },
        }
    }

    fn remove_row_of(&mut self, comment_id: u64)
        requires
            page_wf(old(self)@),
        ensures
            final(self)@ == (PageView { rows: remove_comment_row(old(self)@.rows, comment_id), ..old(self)@ }),
            page_wf(final(self)@),
    {
        let ghost v = self@;
        let mut kept: Vec<FeedRow> = Vec::new();
        let mut i: usize = 0;
        while i < self.rows.len()
            invariant
                i <= self.rows.len(),
                self@ == v,
                kept@ == remove_comment_row(v.rows.take(i as int), comment_id),
            decreases self.rows.len() - i,
        {
            assert(v.rows.take(i + 1).drop_last() =~= v.rows.take(i as int));
            let row = self.rows[i];
            let is_target = match row {
                FeedRow::Comment(id) => id == comment_id,
                _ => false,
            };
            if !is_target {
                kept.push(row);
            }
            i += 1;
        }
        assert(v.rows.take(v.rows.len() as int) =~= v.rows);
        self.rows = kept;
        proof { lemma_remove_row_wf(v, comment_id); }
        assert(self@ =~= PageView { rows: remove_comment_row(v.rows, comment_id), ..v });
    }

    fn drop_reply_id(&mut self, parent: u64, comment_id: u64)
        ensures
            final(self)@ == (if old(self)@.reply_ids.contains_key(parent) {
                PageView { reply_ids: old(self)@.reply_ids.insert(parent, without_id(old(self)@.reply_ids[parent], comment_id)), ..old(self)@ }
            } else {
                old(self)@
            }),
    {
        match self.reply_ids.remove(&parent) {
            Some(ids) => {
                let mut kept: Vec<u64> = Vec::new();
                let mut j: usize = 0;
                while j < ids.len()
                    invariant
                        j <= ids.len(),
                        kept@ == without_id(ids@.take(j as int), comment_id),
                    decreases ids.len() - j,
                {
                    assert(ids@.take(j + 1).drop_last() =~= ids@.take(j as int));
                    if ids[j] != comment_id {
                        kept.push(ids[j]);
                    }
                    j += 1;
                }
                assert(ids@.take(ids.len() as int) =~= ids@);
                self.reply_ids.insert(parent, kept);
                assert(self@ =~= PageView { reply_ids: old(self)@.reply_ids.insert(parent, without_id(old(self)@.reply_ids[parent], comment_id)), ..old(self)@ });
            },
            None => {
                assert(self@ =~= old(self)@);
            },
        }
    }

    /// Records that a comment (`parent_comment_id == 0`) or a reply was
    /// deleted.
    pub fn comment_deleted(&mut self, song_id: u64, parent_comment_id: u64, comment_id: u64)
        requires
            page_wf(old(self)@),
        ensures
            final(self)@ == spec_comment_deleted(old(self)@, song_id, parent_comment_id, comment_id),
            page_wf(final(self)@),
    {
        if self.comments_song_id != song_id {
            return;
        }
        let ghost v = self@;
        let top_level = match self.likes.get(&comment_id) {
            Some(st) => st.parent_id == 0,
            None => false,
        };
        if top_level {
            self.remove_row_of(comment_id);
        }
        let ghost a = self@;
        self.likes.remove(&comment_id);
        let ghost b = self@;
        assert(b =~= PageView { likes: a.likes.remove(comment_id), ..a });
        if parent_comment_id == 0 {
            self.unregister_reply_rows(comment_id);
            return;
        }
        self.drop_reply_id(parent_comment_id, comment_id);
        let ghost c = self@;
        match self.threads.get(&parent_comment_id) {
            Some(t) => {
                let t2 = ReplyThread { reply_count: t.reply_count.saturating_sub(1), ..*t };
                self.threads.insert(parent_comment_id, t2);
                assert(self@ =~= with_thread(c, parent_comment_id, t2));
            },
            None => {},
        }
    }
}

/// What a click on a comment's replies button does.
#[derive(Clone, Copy, Debug, PartialEq, Eq, Structural)]
pub enum RepliesClick {
    /// The replies were shown and are now hidden; the button takes this label.
    Collapsed(ReplyLabel),
    /// The loaded replies are now shown; the button takes this label.
    Expanded(ReplyLabel),
    /// The replies are to be loaded for this song and comment.
    Load(u64, u64),
}

/// What the replies button of a comment shows: whether it is visible and its
/// label.
pub open spec fn spec_reply_button(v: PageView, comment_id: u64) -> Option<(bool, ReplyLabel)> {
    if v.threads.contains_key(comment_id) {
        let t = v.threads[comment_id];
        Some((t.reply_count > 0, spec_reply_label(t.reply_count, t.revealed)))
    } else {
        None
    }
}

/// Whether a user is the one signed in: by identifier, or by a nickname both
/// sides have.
pub open spec fn is_current_user(v: PageView, user_id: u64, nickname: Seq<char>) -> bool {
    (user_id != 0 && user_id == v.user_id)
        || (nickname.len() > 0 && v.user_nickname.len() > 0 && nickname == v.user_nickname)
}

/// Whether a comment can be offered for deletion: it is the signed-in
/// user's, and song, comment and user are all known.
pub open spec fn spec_can_delete(v: PageView, song_id: u64, comment_id: u64, user_id: u64, nickname: Seq<char>) -> bool {
    song_id != 0 && comment_id != 0 && user_id != 0 && is_current_user(v, user_id, nickname)
}

/// The characters of a display name, with "Me" and "User" standing for
/// themselves.
pub open spec fn display_name_view(d: DisplayName) -> Option<Seq<char>> {
    match d {
        DisplayName::Name(s) => Some(s@),
        _ => None,
    }
}

impl PlayListLyricsPage {
    /// Handles a click on a comment's replies button.
    pub fn toggle_replies(&mut self, comment_id: u64) -> (r: Option<RepliesClick>)
        requires
            page_wf(old(self)@),
        ensures
            match spec_reply_button(old(self)@, comment_id) {
                None => r is None && final(self)@ == old(self)@,
                Some(_) => {
                    let t = old(self)@.threads[comment_id];
                    if t.revealed {
                        &&& r == Some(RepliesClick::Collapsed(spec_reply_label(t.reply_count, false)))
                        &&& final(self)@ == with_thread(old(self)@, comment_id, ReplyThread { revealed: false, ..t })
                    } else if t.loaded {
                        &&& r == Some(RepliesClick::Expanded(spec_reply_label(t.reply_count, true)))
                        &&& final(self)@ == with_thread(old(self)@, comment_id, ReplyThread { revealed: true, ..t })
                    } else {
                        &&& r == Some(RepliesClick::Load(old(self)@.comments_song_id, comment_id))
                        &&& final(self)@ == old(self)@
                    }
                },
            },
            page_wf(final(self)@),
    {
        let t = match self.threads.get(&comment_id) {
            Some(t) => *t,
            None => return None,
        };
        if t.revealed {
            let t2 = ReplyThread { revealed: false, ..t };
            self.threads.insert(comment_id, t2);
            assert(self@ =~= with_thread(old(self)@, comment_id, t2));
            Some(RepliesClick::Collapsed(format_reply_button_label(t.reply_count, false)))
        } else if t.loaded {
            let t2 = ReplyThread { revealed: true, ..t };
            self.threads.insert(comment_id, t2);
            assert(self@ =~= with_thread(old(self)@, comment_id, t2));
            Some(RepliesClick::Expanded(format_reply_button_label(t.reply_count, true)))
        } else {
            Some(RepliesClick::Load(self.comments_song_id, comment_id))
        }
    }

    /// Opens or closes the reply entry of a comment; says whether it is now
    /// open.
    pub fn toggle_reply_input(&mut self, comment_id: u64) -> (r: Option<bool>)
        requires
            page_wf(old(self)@),
        ensures
            if old(self)@.threads.contains_key(comment_id) {
                let t = old(self)@.threads[comment_id];
                &&& r == Some(!t.input_revealed)
                &&& final(self)@ == with_thread(old(self)@, comment_id, ReplyThread { input_revealed: !t.input_revealed, ..t })
            } else {
                r is None && final(self)@ == old(self)@
            },
            page_wf(final(self)@),
    {
        let t = match self.threads.get(&comment_id) {
            Some(t) => *t,
            None => return None,
        };
        let t2 = ReplyThread { input_revealed: !t.input_revealed, ..t };
        self.threads.insert(comment_id, t2);
        assert(self@ =~= with_thread(old(self)@, comment_id, t2));
        Some(t2.input_revealed)
    }

    /// The request a click on a comment's like button makes: the song, the
    /// comment, and the opposite of its current like.
    pub fn like_click(&self, comment_id: u64) -> (r: Option<(u64, u64, bool)>)
        ensures
            r == (if self@.likes.contains_key(comment_id) {
                Some((self@.comments_song_id, comment_id, !self@.likes[comment_id].liked))
            } else {
                None::<(u64, u64, bool)>
            }),
    {
        match self.likes.get(&comment_id) {
            Some(st) => Some((self.comments_song_id, comment_id, !st.liked)),
            None => None,
        }
    }

    /// Whether a comment's replies button shows, and its label.
    pub fn reply_button_state(&self, comment_id: u64) -> (r: Option<(bool, ReplyLabel)>)
        ensures
            r == spec_reply_button(self@, comment_id),
    {
        match self.threads.get(&comment_id) {
            Some(t) => Some((t.reply_count > 0, format_reply_button_label(t.reply_count, t.revealed))),
            None => None,
        }
    }

    /// Remembers who is signed in (0 and empty strings when nobody is).
    pub fn set_comment_user_info(&mut self, uid: u64, nickname: String, avatar_url: String)
        ensures
            final(self)@ == (PageView { user_id: uid, user_nickname: nickname@, user_avatar_url: avatar_url@, ..old(self)@ }),
    {
        self.user_id = uid;
        self.user_nickname = nickname;
        self.user_avatar_url = avatar_url;
    }

    /// The name a reply is shown under: the signed-in user's own replies
    /// fall back on the user's nickname and then on "Me"; other users
    /// without a nickname show as "User".
    pub fn comment_display_name(&self, user_id: u64, nickname: &str) -> (r: DisplayName)
        ensures
            display_name_view(r) == (if user_id != 0 && user_id == self@.user_id {
                if nickname@.len() == 0 {
                    if self@.user_nickname.len() == 0 { None } else { Some(self@.user_nickname) }
                } else {
                    Some(nickname@)
                }
            } else if nickname@.len() == 0 && user_id != 0 {
                None
            } else {
                Some(nickname@)
            }),
            r is Me <==> (user_id != 0 && user_id == self@.user_id && nickname@.len() == 0 && self@.user_nickname.len() == 0),
            r is User <==> (!(user_id != 0 && user_id == self@.user_id) && nickname@.len() == 0 && user_id != 0),
    {
        let own = user_id != 0 && user_id == self.user_id;
        let empty = nickname.unicode_len() == 0;
        if own {
            if empty {
                if self.user_nickname.as_str().unicode_len() == 0 {
                    DisplayName::Me
                } else {
                    DisplayName::Name(text::str_to_string(self.user_nickname.as_str()))
                }
            } else {
                DisplayName::Name(text::str_to_string(nickname))
            }
        } else if empty && user_id != 0 {
            DisplayName::User
        } else {
            DisplayName::Name(text::str_to_string(nickname))
        }
    }

    /// Whether a comment or reply gets a "Delete" context menu.
    pub fn can_delete_comment(&self, song_id: u64, comment_id: u64, user_id: u64, nickname: &str) -> (r: bool)
        ensures
            r == spec_can_delete(self@, song_id, comment_id, user_id, nickname@),
    {
        let same_nick = nickname.unicode_len() > 0 && self.user_nickname.as_str().unicode_len() > 0
            && text::str_eq(nickname, self.user_nickname.as_str());
        let current = (user_id != 0 && user_id == self.user_id) || same_nick;
        !(song_id == 0 || comment_id == 0 || user_id == 0 || !current)
    }
}

/// The reply a reply entry sends: its text without surrounding whitespace,
/// when song and comment are known and the text is not blank.
pub fn submit_comment_reply(song_id: u64, comment_id: u64, entry_text: &str) -> (r: Option<String>)
    ensures
        match r {
            Some(c) => song_id != 0 && comment_id != 0 && c@ == text::spec_trim(entry_text@) && c@.len() > 0,
            None => song_id == 0 || comment_id == 0 || text::spec_trim(entry_text@).len() == 0,
        },
{
    let chars = text::str_chars(entry_text);
    let trimmed = text::trim(chars.as_slice());
    if song_id == 0 || comment_id == 0 || trimmed.len() == 0 {
        return None;
    }
    Some(text::string_from_chars(trimmed.as_slice()))
}

/// The first position of a song in a queue.
pub open spec fn first_index(s: Seq<u64>, x: u64) -> Option<int>
    decreases s.len(),
{
    if s.len() == 0 {
        None
    } else {
        match first_index(s.drop_last(), x) {
            Some(i) => Some(i),
            None => if s.last() == x { Some(s.len() - 1) } else { None },
        }
    }
}

/// The queue row marked playing after moving to a row (-1 marks nothing and
/// keeps the row marked before).
pub open spec fn spec_switch_row(v: PageView, index: int) -> PageView {
    if index >= 0 { PageView { playing_row: index as i32, ..v } } else { v }
}

/// The row of a song in the queue, or -1.
pub open spec fn row_of(queue: Seq<u64>, song_id: u64) -> int {
    match first_index(queue, song_id) {
        Some(i) => i,
        None => -1,
    }
}

/// The page showing the queue `ids`, with the row of `song_id` marked
/// playing (the row marked before stays when the song is not queued).
pub open spec fn spec_update_playlist(v: PageView, ids: Seq<u64>, song_id: u64) -> PageView {
    spec_switch_row(PageView { playlist: ids, ..v }, row_of(ids, song_id))
}

/// The page after it is opened or refreshed for the queue `ids` playing
/// `song_id`: a changed queue is replaced, otherwise a new song moves the
/// playing row; comments are set up for the song when it changed or they
/// belong to another one.
pub open spec fn spec_init_page(v: PageView, ids: Seq<u64>, song_id: u64, changed: bool) -> PageView {
    let a = if changed {
        spec_update_playlist(v, ids, song_id)
    } else if v.current_song_id != song_id {
        spec_switch_row(v, row_of(v.playlist, song_id))
    } else {
        v
    };
    let b = if v.current_song_id != song_id || a.comments_song_id != song_id { spec_prepare(a, song_id) } else { a };
    PageView { current_song_id: song_id, ..b }
}

/// Whether the lyric of a song may start loading: not when it is the one
/// shown already.
pub open spec fn can_begin_lyrics(v: PageView, song_id: u64) -> bool {
    !(song_id != 0 && v.lyrics_song_id == song_id)
}

/// The page once the lyric of a song started loading: no lines yet.
pub open spec fn spec_begin_lyrics(v: PageView, song_id: u64) -> PageView {
    if can_begin_lyrics(v, song_id) {
        PageView { lyrics_song_id: song_id, lyrics: Seq::empty(), highlighted: None, ..v }
    } else {
        v
    }
}

/// The page once the lyric of a song failed to load: when it was the one
/// awaited, no lyric is shown and none is awaited.
pub open spec fn spec_lyrics_failed(v: PageView, song_id: u64) -> PageView {
    if v.lyrics_song_id == song_id {
        PageView { lyrics_song_id: 0, lyrics: Seq::empty(), highlighted: None, ..v }
    } else {
        v
    }
}

/// The concatenated texts of timed lines.
pub open spec fn lyrics_text_of(ls: Seq<(u64, Seq<char>)>) -> Seq<char>
    decreases ls.len(),
{
    if ls.len() == 0 { Seq::empty() } else { lyrics_text_of(ls.drop_last()) + ls.last().1 }
}

impl PlayListLyricsPage {
    /// Whether a queue differs from the one shown.
    pub fn playlist_changed(&self, ids: &Vec<u64>) -> (r: bool)
        ensures
            r == (self@.playlist != ids@),
    {
        if self.playlist.len() != ids.len() {
            return true;
        }
        let mut i: usize = 0;
        while i < ids.len()
            invariant
                i <= ids.len() == self.playlist.len(),
                forall|j: int| 0 <= j < i ==> self.playlist@[j] == ids@[j],
            decreases ids.len() - i,
        {
            if self.playlist[i] != ids[i] {
                return true;
            }
            i += 1;
        }
        assert(self.playlist@ =~= ids@);
        false
    }

    fn position_of(queue: &Vec<u64>, song_id: u64) -> (r: i32)
        requires
            queue@.len() < i32::MAX,
        ensures
            r as int == row_of(queue@, song_id),
    {
        let mut i: usize = 0;
        while i < queue.len()
            invariant
                i <= queue.len() < i32::MAX,
                first_index(queue@.take(i as int), song_id) is None,
            decreases queue.len() - i,
        {
            assert(queue@.take(i + 1).drop_last() =~= queue@.take(i as int));
            if queue[i] == song_id {
                proof { lemma_first_index_prefix(queue@, song_id, i + 1); }
                return i as i32;
            }
            i += 1;
        }
        assert(queue@.take(queue.len() as int) =~= queue@);
        -1
    }

    /// Marks a queue row as playing (a negative index changes nothing).
    pub fn switch_row(&mut self, index: i32)
        ensures
            final(self)@ == spec_switch_row(old(self)@, index as int),
    {
        if index >= 0 {
            self.playing_row = index;
        }
    }

    /// Shows a queue and marks the row of its playing song.
    pub fn update_playlist(&mut self, ids: Vec<u64>, current_song_id: u64)
        requires
            ids@.len() < i32::MAX,
        ensures
            final(self)@ == spec_update_playlist(old(self)@, ids@, current_song_id),
    {
        let row = Self::position_of(&ids, current_song_id);
        self.playlist = ids;
        self.switch_row(row);
    }

    /// Opens or refreshes the page for a queue and its playing song; says
    /// whether the song's lyric is to be loaded (a new song, or a lyric of
    /// another one shown).
    pub fn init_page(&mut self, ids: Vec<u64>, song_id: u64, playlist_changed: bool) -> (r: bool)
        requires
            page_wf(old(self)@),
            ids@.len() < i32::MAX,
            playlist_changed || old(self)@.playlist.len() < i32::MAX,
        ensures
            final(self)@ == spec_init_page(old(self)@, ids@, song_id, playlist_changed),
            r == (old(self)@.current_song_id != song_id || old(self)@.lyrics_song_id != song_id),
            page_wf(final(self)@),
    {
        let old_song_id = self.current_song_id;
        if playlist_changed {
            self.update_playlist(ids, song_id);
        } else if old_song_id != song_id {
            let row = Self::position_of(&self.playlist, song_id);
            self.switch_row(row);
        }
        let song_changed = old_song_id != song_id;
        if song_changed || self.comments_song_id != song_id {
            self.prepare_comments_for_song(song_id);
        }
        self.current_song_id = song_id;
        song_changed || self.lyrics_song_id != song_id
    }

    /// Starts showing the lyric of a song (with a loading text in place);
    /// refused when that song's lyric is already the one shown.
    pub fn begin_lyrics_update(&mut self, song_id: u64) -> (r: bool)
        ensures
            r == can_begin_lyrics(old(self)@, song_id),
            final(self)@ == spec_begin_lyrics(old(self)@, song_id),
    {
        if song_id != 0 && self.lyrics_song_id == song_id {
            return false;
        }
        self.lyrics_song_id = song_id;
        self.update_lyrics_text();
        true
    }

    /// Clears the lyric lines (the caller shows a message in their place).
    pub fn update_lyrics_text(&mut self)
        ensures
            final(self)@ == (PageView { lyrics: Seq::empty(), highlighted: None, ..old(self)@ }),
    {
        self.lyrics = Vec::new();
        self.highlighted = None;
        assert(self@ =~= PageView { lyrics: Seq::empty(), highlighted: None, ..old(self)@ });
    }

    /// Records that the lyric of a song could not be loaded, so that it is
    /// tried again next time.
    pub fn lyrics_update_failed(&mut self, song_id: u64)
        ensures
            final(self)@ == spec_lyrics_failed(old(self)@, song_id),
    {
        if self.lyrics_song_id == song_id {
            self.lyrics_song_id = 0;
            self.update_lyrics_text();
        }
    }

    /// Shows the lyric that arrived for a song, if it is still the one
    /// awaited.
    pub fn update_lyrics(&mut self, song_id: u64, lyrics: Vec<(u64, String)>)
        ensures
            final(self)@ == (if old(self)@.lyrics_song_id == song_id {
                PageView { lyrics: lyrics::timed_view(lyrics@), highlighted: None, ..old(self)@ }
            } else {
                old(self)@
            }),
    {
        if self.lyrics_song_id != song_id {
            return;
        }
        self.lyrics = lyrics;
        self.highlighted = None;
    }

    /// The text of the lyric shown: its lines one after the other.
    pub fn lyrics_text(&self) -> (r: String)
        ensures
            r@ == lyrics_text_of(self@.lyrics),
    {
        let ghost lv = self@.lyrics;
        let mut out: Vec<char> = Vec::new();
        let mut i: usize = 0;
        while i < self.lyrics.len()
            invariant
                i <= self.lyrics.len(),
                lv == lyrics::timed_view(self.lyrics@),
                out@ == lyrics_text_of(lv.take(i as int)),
            decreases self.lyrics.len() - i,
        {
            assert(lv.take(i + 1).drop_last() =~= lv.take(i as int));
            assert(lv.take(i + 1).last().1 == self.lyrics@[i as int].1@);
            let cs = text::str_chars(self.lyrics[i].1.as_str());
            lyrics::append_chars(&mut out, cs.as_slice());
            i += 1;
        }
        assert(lv.take(self.lyrics.len() as int) =~= lv);
        text::string_from_chars(out.as_slice())
    }

    /// Highlights the lines playing at a time; returns the new range when it
    /// differs from the one highlighted (the view then scrolls to it).
    pub fn update_lyrics_highlight(&mut self, time: u64) -> (r: Option<(i32, i32)>)
        ensures
            match lyrics::playing_from(lyrics::line_times(old(self).lyrics@), time, 0) {
                None => r is None && final(self)@ == old(self)@,
                Some(p) => {
                    let range = (p.0 as i32, p.1 as i32);
                    &&& final(self)@ == (PageView { highlighted: Some(range), ..old(self)@ })
                    &&& r == (if old(self)@.highlighted == Some(range) { None } else { Some(range) })
                },
            },
    {
        match lyrics::get_playing_indexes(&self.lyrics, time) {
            None => None,
            Some((start, end)) => {
                let range: (i32, i32) = (start as i32, end as i32);
                let previous = self.highlighted;
                self.highlighted = Some(range);
                if previous == Some(range) { None } else { Some(range) }
            },
        }
    }
}

proof fn lemma_first_index_prefix(s: Seq<u64>, x: u64, k: int)
    requires
        0 <= k <= s.len(),
        first_index(s.take(k), x) is Some,
    ensures
        first_index(s, x) == first_index(s.take(k), x),
    decreases s.len() - k,
{
    if k < s.len() {
        assert(s.take(k + 1).drop_last() =~= s.take(k));
        lemma_first_index_prefix(s, x, k + 1);
    } else {
        assert(s.take(k) =~= s);
    }
}

/// A page load that began is not begun a second time: right after a begin
/// succeeds, the same begin is refused.
pub proof fn law_begin_comments_once(v: PageView, song_id: u64, offset: u32, t1: u64)
    requires
        can_begin(v, song_id, offset),
    ensures
        !can_begin(spec_begin_comments(v, song_id, offset, t1), song_id, offset),
{
}

/// A page is asked for at most once: right after a request, no other one
/// may be made, whatever the time.
pub proof fn law_request_once(v: PageView, t1: u64, t2: u64)
    requires
        may_request(v, t1),
    ensures
        !may_request(spec_request(v), t2),
{
}

/// Reporting the same like state twice counts it once.
pub proof fn law_like_idempotent(v: PageView, song_id: u64, comment_id: u64, liked: bool)
    ensures
        spec_update_like(spec_update_like(v, song_id, comment_id, liked), song_id, comment_id, liked)
            == spec_update_like(v, song_id, comment_id, liked),
{
    let w = spec_update_like(v, song_id, comment_id, liked);
    if v.comments_song_id == song_id && v.likes.contains_key(comment_id) {
        assert(w.likes[comment_id].liked == liked);
        assert(w.likes.insert(comment_id, w.likes[comment_id]) =~= w.likes);
    }
}

/// Liking a comment and then unliking it gives back its like state.
pub proof fn law_like_unlike(v: PageView, song_id: u64, comment_id: u64)
    requires
        v.comments_song_id == song_id,
        v.likes.contains_key(comment_id),
        !v.likes[comment_id].liked,
        v.likes[comment_id].like_count < u64::MAX,
    ensures
        spec_update_like(spec_update_like(v, song_id, comment_id, true), song_id, comment_id, false).likes
            == v.likes,
{
    let w = spec_update_like(spec_update_like(v, song_id, comment_id, true), song_id, comment_id, false);
    assert(w.likes =~= v.likes);
}

/// A reply that is sent and then deleted leaves its comment's reply count
/// as it was.
pub proof fn law_reply_sent_then_deleted(v: PageView, song_id: u64, comment_id: u64, r: CommentReplyView)
    requires
        v.comments_song_id == song_id,
        song_id != 0,
        comment_id != 0,
        v.threads.contains_key(comment_id),
        v.threads[comment_id].reply_count < u64::MAX,
        r.comment_id != 0,
        !v.likes.contains_key(r.comment_id),
    ensures
        spec_comment_deleted(spec_reply_sent(v, song_id, comment_id, Some(r)), song_id, comment_id, r.comment_id)
            .threads[comment_id].reply_count == v.threads[comment_id].reply_count,
{
    let w = spec_reply_sent(v, song_id, comment_id, Some(r));
    assert(w.threads.contains_key(comment_id));
    assert(w.threads[comment_id].reply_count == v.threads[comment_id].reply_count + 1);
}

/// After the lyric of a song failed to load, asking for it again is let
/// through, and it starts loading afresh.
pub proof fn law_lyrics_retry_after_failure(v: PageView, song_id: u64)
    requires
        v.lyrics_song_id == song_id,
    ensures
        can_begin_lyrics(spec_lyrics_failed(v, song_id), song_id),
        spec_begin_lyrics(spec_lyrics_failed(v, song_id), song_id).lyrics_song_id == song_id,
{
}

} // verus!
