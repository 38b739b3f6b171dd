//! The application's reaction to what happens: each event (a request asked
//! for, an answer or a failure coming back) changes the window's state and
//! leads to the outside work to do next, in order.
use vstd::prelude::*;
use crate::comments::{comments_view, spec_missing_reply_count_ids, CommentReply, SongCommentReplies, SongComments};
use crate::lyrics;
use crate::lyrics_page::{
    can_begin, can_begin_lyrics, page_wf, spec_begin_comments, spec_begin_lyrics, spec_comment_deleted,
    spec_comments_failed, spec_init_page, spec_lyrics_failed, spec_reply_sent, spec_update_comments, spec_update_like,
    spec_update_replies, with_thread, PageView, PlayListLyricsPage, ReplyThread,
};
use crate::comments::replies_view;
use crate::navigation::{empty_search_result, search_endpoint, SearchPageKind, SearchType, UserInfo};

verus! {

/// A message shown as a toast.
#[derive(Clone, Copy, Debug, PartialEq, Eq, Structural)]
pub enum Toast {
    /// "Comment like failed!"
    CommentLikeFailed,
    /// "Comment unlike failed!"
    CommentUnlikeFailed,
    /// "Failed to load comment replies!"
    RepliesFailed,
    /// "Comment sent!"
    CommentSent,
    /// "发送评论失败：" and the error.
    CommentSendFailed,
    /// "Comment deleted!"
    CommentDeleted,
    /// "删除评论失败：" and the error.
    CommentDeleteFailed,
    /// "Request for interface failed, please try again!"
    RequestFailed,
}

/// Something that happened.
pub enum Event {
    /// A song is to be added to the queue and played.
    AddPlay(u64),
    /// The playback of a song reached `time` (0 when it starts).
    UpdateLyrics { song_id: u64, time: u64 },
    /// The lyric of a song arrived.
    LyricsLoaded { song_id: u64, lyrics: Vec<(u64, String)> },
    /// The lyric of a song could not be had.
    LyricsFailed { song_id: u64 },
    /// A page of a song's comments is asked for at `now_ms`.
    LoadSongComments { song_id: u64, offset: u32, now_ms: u64 },
    /// A page of comments arrived.
    CommentsLoaded { song_id: u64, offset: u32, comments: SongComments },
    /// A page of comments could not be had.
    CommentsFailed { song_id: u64, offset: u32 },
    /// The reply count of a comment arrived.
    ReplyCountLoaded { song_id: u64, comment_id: u64, count: u64 },
    /// A like (or unlike) of a comment went through or failed.
    CommentLikeDone { song_id: u64, comment_id: u64, like: bool, ok: bool },
    /// The replies under a comment arrived (`None`: they could not be had).
    RepliesLoaded { song_id: u64, comment_id: u64, replies: Option<SongCommentReplies> },
    /// A reply was sent (with the reply the service returned, if any), or
    /// sending it failed (`Err`).
    ReplySent { song_id: u64, comment_id: u64, result: Result<Option<CommentReply>, ()> },
    /// A comment (`parent_comment_id == 0`) or reply was deleted, or the
    /// deletion failed.
    CommentDeleteDone { song_id: u64, parent_comment_id: u64, comment_id: u64, ok: bool },
    /// A search was answered with these songs (their identifiers, for the
    /// types that list songs), or failed (`None`).
    SearchAnswered { search_type: SearchType, song_ids: Option<Vec<u64>> },
    /// "Now Playing" was asked for; `queue` is the player's queue (song
    /// identifiers) with the song it plays (0 when none), or `None` when the
    /// player has no queue.
    ToLyricsPage { queue: Option<(Vec<u64>, u64)> },
    /// The page shown was left for the one before it.
    PageBack,
}

/// Outside work to do.
pub enum Effect {
    /// Add the song to the queue.
    AddToQueue(u64),
    /// Play the song.
    Play(u64),
    /// Fetch the lyric of the song.
    FetchLyrics(u64),
    /// Scroll the lyric to these lines.
    ScrollLyrics(i32, i32),
    /// Fetch a page of comments.
    FetchComments { song_id: u64, offset: u32 },
    /// Fetch the reply counts of these comments, one by one.
    FetchReplyCounts { song_id: u64, ids: Vec<u64> },
    /// Let the user act on the comment again (its request failed).
    ReenableCommentControls { song_id: u64, comment_id: u64 },
    /// Show a toast.
    ShowToast(Toast),
    /// Show a search result of this kind; for songs, whether the user likes
    /// each one.
    ShowSearchResult { kind: SearchPageKind, likes: Vec<bool> },
    /// Go back to the page before the one shown.
    PageBack,
    /// Fold away both queue drawers.
    HideQueues,
    /// Ask for the lyric of the song from its start (the `UpdateLyrics`
    /// event with time 0).
    UpdateLyrics(u64),
}

/// The window's state as the events change it.
pub struct AppState {
    pub page: PlayListLyricsPage,
    pub user: UserInfo,
    /// Whether the "Now Playing" page is the one shown.
    pub lyrics_page_open: bool,
}

/// The times of the lines of the lyric shown.
pub open spec fn view_times(v: PageView) -> Seq<u64> {
    v.lyrics.map_values(|p: (u64, Seq<char>)| p.0)
}

/// The page with the lines playing at `time` highlighted, and the range to
/// scroll to when it changed.
pub open spec fn spec_highlight(v: PageView, time: u64) -> (PageView, Option<(i32, i32)>) {
    match lyrics::playing_from(view_times(v), time, 0) {
        None => (v, None),
        Some(p) => {
            let range = (p.0 as i32, p.1 as i32);
            (PageView { highlighted: Some(range), ..v }, if v.highlighted == Some(range) { None } else { Some(range) })
        },
    }
}

/// The playback time reaching `time`: the page follows it while it is shown.
pub open spec fn spec_timestamp(v: PageView, open: bool, time: u64) -> (PageView, Option<(i32, i32)>) {
    if open { spec_highlight(v, time) } else { (v, None) }
}

/// Whether the effects are the scroll (if any) that a highlight asks for.
pub open spec fn scroll_effects(effects: Seq<Effect>, scroll: Option<(i32, i32)>) -> bool {
    match scroll {
        None => effects.len() == 0,
        Some(r) => effects.len() == 1 && (effects[0] matches Effect::ScrollLyrics(a, b) && a == r.0 && b == r.1),
    }
}

/// The page kind a search is shown on: that of its answer, or the empty
/// result of its type when it failed or its type is not searched.
pub open spec fn search_kind(t: SearchType, answered: bool) -> SearchPageKind {
    if answered && search_endpoint_spec(t) is Some {
        (search_endpoint_spec(t)->0).1
    } else {
        empty_result_spec(t)
    }
}

/// The kind of page a search type's answer is shown on, with its endpoint.
pub open spec fn search_endpoint_spec(t: SearchType) -> Option<(crate::navigation::SearchEndpoint, SearchPageKind)> {
    match t {
        SearchType::Song => Some((crate::navigation::SearchEndpoint::SearchSong, SearchPageKind::Songs)),
        SearchType::Singer => Some((crate::navigation::SearchEndpoint::SearchSinger, SearchPageKind::Singers)),
        SearchType::Album => Some((crate::navigation::SearchEndpoint::SearchAlbum, SearchPageKind::SongLists)),
        SearchType::Lyrics => Some((crate::navigation::SearchEndpoint::SearchLyrics, SearchPageKind::Songs)),
        SearchType::SongList => Some((crate::navigation::SearchEndpoint::SearchSongList, SearchPageKind::SongLists)),
        SearchType::TopPicks => Some((crate::navigation::SearchEndpoint::TopSongList, SearchPageKind::SongLists)),
        SearchType::AllAlbums => Some((crate::navigation::SearchEndpoint::NewAlbums, SearchPageKind::SongLists)),
        SearchType::Radio => Some((crate::navigation::SearchEndpoint::UserRadioSublist, SearchPageKind::SongLists)),
        SearchType::LikeAlbums => Some((crate::navigation::SearchEndpoint::AlbumSublist, SearchPageKind::SongLists)),
        SearchType::LikeSongList => Some((crate::navigation::SearchEndpoint::UserSongList, SearchPageKind::SongLists)),
        _ => None,
    }
}

/// The empty result a failed search of a type is answered with.
pub open spec fn empty_result_spec(t: SearchType) -> SearchPageKind {
    match t {
        SearchType::Singer => SearchPageKind::Singers,
        SearchType::Album | SearchType::SongList | SearchType::TopPicks | SearchType::AllAlbums
        | SearchType::Radio | SearchType::LikeAlbums | SearchType::LikeSongList => SearchPageKind::SongLists,
        _ => SearchPageKind::Songs,
    }
}

/// Opening "Now Playing" for a song (not the empty one) whose lyric is not
/// the one shown asks for the song's lyric from its start, and that request
/// fetches it: the page keeps the lyric it showed while it opens.
pub proof fn law_now_playing_fetches_lyric(v: PageView, ids: Seq<u64>, song_id: u64, changed: bool)
    requires
        song_id != 0,
        v.lyrics_song_id != song_id,
    ensures
        spec_init_page(v, ids, song_id, changed).lyrics_song_id == v.lyrics_song_id,
        can_begin_lyrics(spec_init_page(v, ids, song_id, changed), song_id),
{
}

impl AppState {
    /// The state of a window that just opened.
    pub fn new() -> (r: Self)
        ensures
            page_wf(r.page@),
            !r.lyrics_page_open,
            r.user.uid == 0,
            r.page@.lyrics_song_id == 0,
            r.page@.comments_song_id == 0,
    {
        AppState { page: PlayListLyricsPage::new(), user: UserInfo::new(), lyrics_page_open: false }
    }

    /// Highlights the lines playing at `time` when the page is shown; the
    /// scroll it asks for, if any.
    fn lyrics_timestamp(&mut self, time: u64) -> (effects: Vec<Effect>)
        ensures
            final(self).page@ == spec_timestamp(old(self).page@, old(self).lyrics_page_open, time).0,
            scroll_effects(effects@, spec_timestamp(old(self).page@, old(self).lyrics_page_open, time).1),
            final(self).user == old(self).user,
            final(self).lyrics_page_open == old(self).lyrics_page_open,
    {
        let mut effects: Vec<Effect> = Vec::new();
        if self.lyrics_page_open {
            assert(view_times(self.page@) =~= lyrics::line_times(self.page.lyrics@));
            match self.page.update_lyrics_highlight(time) {
                Some((a, b)) => effects.push(Effect::ScrollLyrics(a, b)),
                None => {},
            }
        }
        effects
    }

    fn on_add_play(&mut self, id: u64) -> (effects: Vec<Effect>)
        requires
            page_wf(old(self).page@),
        ensures
            page_wf(final(self).page@),
            final(self).user == old(self).user,
            final(self).lyrics_page_open == old(self).lyrics_page_open,
            ({
                &&& final(self).page@ == old(self).page@
                &&& effects@.len() == 2
                &&& effects@[0] matches Effect::AddToQueue(a) && a == id
                &&& effects@[1] matches Effect::Play(b) && b == id
            }),
    {
        let mut effects: Vec<Effect> = Vec::new();
        effects.push(Effect::AddToQueue(id));
        effects.push(Effect::Play(id));
        effects
    }

    fn on_update_lyrics(&mut self, song_id: u64, time: u64) -> (effects: Vec<Effect>)
        requires
            page_wf(old(self).page@),
        ensures
            page_wf(final(self).page@),
            final(self).user == old(self).user,
            final(self).lyrics_page_open == old(self).lyrics_page_open,
            (if time == 0 && can_begin_lyrics(old(self).page@, song_id) {
                &&& final(self).page@ == spec_begin_lyrics(old(self).page@, song_id)
                &&& effects@.len() == 1
                &&& effects@[0] matches Effect::FetchLyrics(s) && s == song_id
            } else {
                let t = spec_timestamp(old(self).page@, old(self).lyrics_page_open, time);
                &&& final(self).page@ == t.0
                &&& scroll_effects(effects@, t.1)
            }),
    {
        let mut effects: Vec<Effect> = Vec::new();
        if time == 0 {
            if self.page.begin_lyrics_update(song_id) {
                effects.push(Effect::FetchLyrics(song_id));
                return effects;
            }
        }
        effects = self.lyrics_timestamp(time);
        effects
    }

    fn on_lyrics_loaded(&mut self, song_id: u64, lyrics: Vec<(u64, String)>) -> (effects: Vec<Effect>)
        requires
            page_wf(old(self).page@),
        ensures
            page_wf(final(self).page@),
            final(self).user == old(self).user,
            final(self).lyrics_page_open == old(self).lyrics_page_open,
            ({
                let shown = if old(self).page@.lyrics_song_id == song_id {
                    PageView { lyrics: lyrics::timed_view(lyrics@), highlighted: None, ..old(self).page@ }
                } else {
                    old(self).page@
                };
                let t = spec_timestamp(shown, old(self).lyrics_page_open, 0);
                &&& final(self).page@ == t.0
                &&& scroll_effects(effects@, t.1)
            }),
    {
        let mut effects: Vec<Effect> = Vec::new();
        self.page.update_lyrics(song_id, lyrics);
        effects = self.lyrics_timestamp(0);
        effects
    }

    fn on_lyrics_failed(&mut self, song_id: u64) -> (effects: Vec<Effect>)
        requires
            page_wf(old(self).page@),
        ensures
            page_wf(final(self).page@),
            final(self).user == old(self).user,
            final(self).lyrics_page_open == old(self).lyrics_page_open,
            ({
                let t = spec_timestamp(spec_lyrics_failed(old(self).page@, song_id), old(self).lyrics_page_open, 0);
                &&& final(self).page@ == t.0
                &&& scroll_effects(effects@, t.1)
            }),
    {
        let mut effects: Vec<Effect> = Vec::new();
        self.page.lyrics_update_failed(song_id);
        effects = self.lyrics_timestamp(0);
        effects
    }

    fn on_load_song_comments(&mut self, song_id: u64, offset: u32, now_ms: u64) -> (effects: Vec<Effect>)
        requires
            page_wf(old(self).page@),
        ensures
            page_wf(final(self).page@),
            final(self).user == old(self).user,
            final(self).lyrics_page_open == old(self).lyrics_page_open,
            (if song_id == 0 {
                final(self).page@ == old(self).page@ && effects@.len() == 0
            } else {
                &&& final(self).page@ == spec_begin_comments(old(self).page@, song_id, offset, now_ms)
                &&& if can_begin(old(self).page@, song_id, offset) {
                    effects@.len() == 1 && (effects@[0] matches Effect::FetchComments { song_id: s, offset: o }
                        && s == song_id && o == offset)
                } else {
                    effects@.len() == 0
                }
            }),
    {
        let mut effects: Vec<Effect> = Vec::new();
        if song_id != 0 && self.page.begin_comments_update(song_id, offset, now_ms) {
            effects.push(Effect::FetchComments { song_id, offset });
        }
        effects
    }

    fn on_comments_loaded(&mut self, song_id: u64, offset: u32, comments: SongComments) -> (effects: Vec<Effect>)
        requires
            page_wf(old(self).page@),
        ensures
            page_wf(final(self).page@),
            final(self).user == old(self).user,
            final(self).lyrics_page_open == old(self).lyrics_page_open,
            ({
                &&& final(self).page@ == spec_update_comments(old(self).page@, song_id, offset, comments.total,
                    comments_view(comments.hot_comments@), comments_view(comments.comments@))
                &&& effects@.len() == 1
                &&& effects@[0] matches Effect::FetchReplyCounts { song_id: s, ids } && s == song_id
                    && ids@ == spec_missing_reply_count_ids(comments_view(comments.hot_comments@) + comments_view(comments.comments@))
            }),
    {
        let mut effects: Vec<Effect> = Vec::new();
        let ids = crate::comments::missing_comment_reply_count_ids(&comments);
        self.page.update_comments(song_id, offset, &comments);
        effects.push(Effect::FetchReplyCounts { song_id, ids });
        effects
    }

    fn on_comments_failed(&mut self, song_id: u64, offset: u32) -> (effects: Vec<Effect>)
        requires
            page_wf(old(self).page@),
        ensures
            page_wf(final(self).page@),
            final(self).user == old(self).user,
            final(self).lyrics_page_open == old(self).lyrics_page_open,
            ({
                final(self).page@ == spec_comments_failed(old(self).page@, song_id, offset) && effects@.len() == 0
            }),
    {
        let mut effects: Vec<Effect> = Vec::new();
        self.page.comments_update_failed(song_id, offset);
        effects
    }

    fn on_reply_count_loaded(&mut self, song_id: u64, comment_id: u64, count: u64) -> (effects: Vec<Effect>)
        requires
            page_wf(old(self).page@),
        ensures
            page_wf(final(self).page@),
            final(self).user == old(self).user,
            final(self).lyrics_page_open == old(self).lyrics_page_open,
            ({
                &&& effects@.len() == 0
                &&& final(self).page@ == (if count > 0 && old(self).page@.comments_song_id == song_id
                    && old(self).page@.threads.contains_key(comment_id) {
                    with_thread(old(self).page@, comment_id, ReplyThread { reply_count: count, ..old(self).page@.threads[comment_id] })
                } else {
                    old(self).page@
                })
            }),
    {
        let mut effects: Vec<Effect> = Vec::new();
        if count > 0 {
            self.page.update_comment_reply_count(song_id, comment_id, count);
        }
        effects
    }

    fn on_comment_like_done(&mut self, song_id: u64, comment_id: u64, like: bool, ok: bool) -> (effects: Vec<Effect>)
        requires
            page_wf(old(self).page@),
        ensures
            page_wf(final(self).page@),
            final(self).user == old(self).user,
            final(self).lyrics_page_open == old(self).lyrics_page_open,
            (if ok {
                final(self).page@ == spec_update_like(old(self).page@, song_id, comment_id, like) && effects@.len() == 0
            } else {
                &&& final(self).page@ == old(self).page@
                &&& effects@.len() == 2
                &&& effects@[0] matches Effect::ReenableCommentControls { song_id: s, comment_id: c } && s == song_id && c == comment_id
                &&& effects@[1] matches Effect::ShowToast(t)
                    && t == (if like { Toast::CommentLikeFailed } else { Toast::CommentUnlikeFailed })
            }),
    {
        let mut effects: Vec<Effect> = Vec::new();
        if ok {
            self.page.update_comment_like(song_id, comment_id, like);
        } else {
            effects.push(Effect::ReenableCommentControls { song_id, comment_id });
            effects.push(Effect::ShowToast(if like { Toast::CommentLikeFailed } else { Toast::CommentUnlikeFailed }));
        }
        effects
    }

    fn on_replies_loaded(&mut self, song_id: u64, comment_id: u64, replies: Option<SongCommentReplies>) -> (effects: Vec<Effect>)
        requires
            page_wf(old(self).page@),
        ensures
            page_wf(final(self).page@),
            final(self).user == old(self).user,
            final(self).lyrics_page_open == old(self).lyrics_page_open,
            (match replies {
                Some(rs) => final(self).page@ == spec_update_replies(old(self).page@, song_id, comment_id, rs.total,
                    replies_view(rs.replies@)) && effects@.len() == 0,
                None => {
                    &&& final(self).page@ == old(self).page@
                    &&& effects@.len() == 2
                    &&& effects@[0] matches Effect::ReenableCommentControls { song_id: s, comment_id: c } && s == song_id && c == comment_id
                    &&& effects@[1] matches Effect::ShowToast(t) && t == Toast::RepliesFailed
                },
            }),
    {
        let mut effects: Vec<Effect> = Vec::new();
        match replies {
            Some(rs) => self.page.update_comment_replies(song_id, comment_id, &rs),
            None => {
                effects.push(Effect::ReenableCommentControls { song_id, comment_id });
                effects.push(Effect::ShowToast(Toast::RepliesFailed));
            },
        }
        effects
    }

    fn on_reply_sent(&mut self, song_id: u64, comment_id: u64, result: Result<Option<CommentReply>, ()>) -> (effects: Vec<Effect>)
        requires
            page_wf(old(self).page@),
        ensures
            page_wf(final(self).page@),
            final(self).user == old(self).user,
            final(self).lyrics_page_open == old(self).lyrics_page_open,
            (match result {
                Ok(reply) => {
                    &&& final(self).page@ == spec_reply_sent(old(self).page@, song_id, comment_id, match reply {
                        Some(r) => Some(r@),
                        None => None,
                    })
                    &&& effects@.len() == 1
                    &&& effects@[0] matches Effect::ShowToast(t) && t == Toast::CommentSent
                },
                Err(_) => {
                    &&& final(self).page@ == old(self).page@
                    &&& effects@.len() == 2
                    &&& effects@[0] matches Effect::ReenableCommentControls { song_id: s, comment_id: c } && s == song_id && c == comment_id
                    &&& effects@[1] matches Effect::ShowToast(t) && t == Toast::CommentSendFailed
                },
            }),
    {
        let mut effects: Vec<Effect> = Vec::new();
        match result {
            Ok(reply) => {
                self.page.comment_reply_sent(song_id, comment_id, reply);
                effects.push(Effect::ShowToast(Toast::CommentSent));
            },
            Err(_) => {
                effects.push(Effect::ReenableCommentControls { song_id, comment_id });
                effects.push(Effect::ShowToast(Toast::CommentSendFailed));
            },
        }
        effects
    }

    fn on_comment_delete_done(&mut self, song_id: u64, parent_comment_id: u64, comment_id: u64, ok: bool) -> (effects: Vec<Effect>)
        requires
            page_wf(old(self).page@),
        ensures
            page_wf(final(self).page@),
            final(self).user == old(self).user,
            final(self).lyrics_page_open == old(self).lyrics_page_open,
            (if ok {
                &&& final(self).page@ == spec_comment_deleted(old(self).page@, song_id, parent_comment_id, comment_id)
                &&& effects@.len() == 1
                &&& effects@[0] matches Effect::ShowToast(t) && t == Toast::CommentDeleted
            } else {
                &&& final(self).page@ == old(self).page@
                &&& effects@.len() == 2
                &&& effects@[0] matches Effect::ReenableCommentControls { song_id: s, comment_id: c } && s == song_id && c == comment_id
                &&& effects@[1] matches Effect::ShowToast(t) && t == Toast::CommentDeleteFailed
            }),
    {
        let mut effects: Vec<Effect> = Vec::new();
        if ok {
            self.page.comment_deleted(song_id, parent_comment_id, comment_id);
            effects.push(Effect::ShowToast(Toast::CommentDeleted));
        } else {
            effects.push(Effect::ReenableCommentControls { song_id, comment_id });
            effects.push(Effect::ShowToast(Toast::CommentDeleteFailed));
        }
        effects
    }

    fn on_search_answered(&mut self, search_type: SearchType, song_ids: Option<Vec<u64>>) -> (effects: Vec<Effect>)
        requires
            page_wf(old(self).page@),
        ensures
            page_wf(final(self).page@),
            final(self).user == old(self).user,
            final(self).lyrics_page_open == old(self).lyrics_page_open,
            ({
                let answered = song_ids is Some && search_endpoint_spec(search_type) is Some;
                let kind = search_kind(search_type, song_ids is Some);
                &&& final(self).page@ == old(self).page@
                &&& if answered {
                    &&& effects@.len() == 1
                    &&& effects@[0] matches Effect::ShowSearchResult { kind: k, likes } && k == kind
                        && (if kind == SearchPageKind::Songs {
                            likes@.len() == (song_ids->0)@.len() && forall|i: int| 0 <= i < likes@.len()
                                ==> #[trigger] likes@[i] == old(self).user.like_songs@.contains((song_ids->0)@[i])
                        } else {
                            likes@.len() == 0
                        })
                } else {
                    &&& effects@.len() == 2
                    &&& effects@[0] matches Effect::ShowToast(t) && t == Toast::RequestFailed
                    &&& effects@[1] matches Effect::ShowSearchResult { kind: k, likes } && k == kind && likes@.len() == 0
                }
            }),
    {
        let mut effects: Vec<Effect> = Vec::new();
        let endpoint = search_endpoint(search_type);
        match (song_ids, endpoint) {
            (Some(ids), Some((_, kind))) => {
                let likes = if kind == SearchPageKind::Songs { self.user.get_song_likes(&ids) } else { Vec::new() };
                effects.push(Effect::ShowSearchResult { kind, likes });
            },
            _ => {
                effects.push(Effect::ShowToast(Toast::RequestFailed));
                effects.push(Effect::ShowSearchResult { kind: empty_search_result(search_type), likes: Vec::new() });
            },
        }
        effects
    }

    fn on_to_lyrics_page(&mut self, queue: Option<(Vec<u64>, u64)>) -> (effects: Vec<Effect>)
        requires
            page_wf(old(self).page@),
            queue matches Some(q) ==> q.0@.len() < i32::MAX,
        ensures
            page_wf(final(self).page@),
            final(self).user == old(self).user,
            (if old(self).lyrics_page_open {
                &&& final(self).page@ == old(self).page@
                &&& final(self).lyrics_page_open
                &&& effects@.len() == 1
                &&& effects@[0] is PageBack
            } else {
                match queue {
                    None => {
                        &&& final(self).page@ == old(self).page@
                        &&& !final(self).lyrics_page_open
                        &&& effects@.len() == 0
                    },
                    Some(q) => {
                        let song = q.1;
                        let wants = old(self).page@.current_song_id != song || old(self).page@.lyrics_song_id != song;
                        &&& final(self).page@ == spec_init_page(old(self).page@, q.0@, song, old(self).page@.playlist != q.0@)
                        &&& final(self).lyrics_page_open
                        &&& effects@.len() == (if song != 0 && wants { 2int } else { 1int })
                        &&& effects@[0] is HideQueues
                        &&& (song != 0 && wants ==> (effects@[1] matches Effect::UpdateLyrics(s) && s == song))
                    },
                }
            }),
    {
        let mut effects: Vec<Effect> = Vec::new();
        if self.lyrics_page_open {
            effects.push(Effect::PageBack);
            return effects;
        }
        match queue {
            None => {},
            Some((ids, song)) => {
                let changed = self.page.playlist_changed(&ids);
                let wants = self.page.init_page(ids, song, changed);
                self.lyrics_page_open = true;
                effects.push(Effect::HideQueues);
                if crate::app_logic::load_lyrics_after_opening(song, wants) {
                    effects.push(Effect::UpdateLyrics(song));
                }
            },
        }
        effects
    }

    fn on_page_back(&mut self) -> (effects: Vec<Effect>)
        ensures
            final(self).page@ == old(self).page@,
            final(self).user == old(self).user,
            !final(self).lyrics_page_open,
            effects@.len() == 0,
    {
        self.lyrics_page_open = false;
        Vec::new()
    }

    /// Reacts to an event: the state changes and the outside work to do next,
    /// in order.
    #[verifier::spinoff_prover]
    #[verifier::rlimit(100)]
    pub fn step(&mut self, event: Event) -> (effects: Vec<Effect>)
        requires
            page_wf(old(self).page@),
            event matches Event::ToLyricsPage { queue: Some(q) } ==> q.0@.len() < i32::MAX,
        ensures
            page_wf(final(self).page@),
            final(self).user == old(self).user,
            !(event is ToLyricsPage || event is PageBack) ==> final(self).lyrics_page_open == old(self).lyrics_page_open,
            match event {
                Event::AddPlay(id) => {
                    &&& final(self).page@ == old(self).page@
                    &&& effects@.len() == 2
                    &&& effects@[0] matches Effect::AddToQueue(a) && a == id
                    &&& effects@[1] matches Effect::Play(b) && b == id
                },
                Event::UpdateLyrics { song_id, time } => if time == 0 && can_begin_lyrics(old(self).page@, song_id) {
                    &&& final(self).page@ == spec_begin_lyrics(old(self).page@, song_id)
                    &&& effects@.len() == 1
                    &&& effects@[0] matches Effect::FetchLyrics(s) && s == song_id
                } else {
                    let t = spec_timestamp(old(self).page@, old(self).lyrics_page_open, time);
                    &&& final(self).page@ == t.0
                    &&& scroll_effects(effects@, t.1)
                },
                Event::LyricsLoaded { song_id, lyrics } => {
                    let shown = if old(self).page@.lyrics_song_id == song_id {
                        PageView { lyrics: lyrics::timed_view(lyrics@), highlighted: None, ..old(self).page@ }
                    } else {
                        old(self).page@
                    };
                    let t = spec_timestamp(shown, old(self).lyrics_page_open, 0);
                    &&& final(self).page@ == t.0
                    &&& scroll_effects(effects@, t.1)
                },
                Event::LyricsFailed { song_id } => {
                    let t = spec_timestamp(spec_lyrics_failed(old(self).page@, song_id), old(self).lyrics_page_open, 0);
                    &&& final(self).page@ == t.0
                    &&& scroll_effects(effects@, t.1)
                },
                Event::LoadSongComments { song_id, offset, now_ms } => if song_id == 0 {
                    final(self).page@ == old(self).page@ && effects@.len() == 0
                } else {
                    &&& final(self).page@ == spec_begin_comments(old(self).page@, song_id, offset, now_ms)
                    &&& if can_begin(old(self).page@, song_id, offset) {
                        effects@.len() == 1 && (effects@[0] matches Effect::FetchComments { song_id: s, offset: o }
                            && s == song_id && o == offset)
                    } else {
                        effects@.len() == 0
                    }
                },
                Event::CommentsLoaded { song_id, offset, comments } => {
                    &&& final(self).page@ == spec_update_comments(old(self).page@, song_id, offset, comments.total,
                        comments_view(comments.hot_comments@), comments_view(comments.comments@))
                    &&& effects@.len() == 1
                    &&& effects@[0] matches Effect::FetchReplyCounts { song_id: s, ids } && s == song_id
                        && ids@ == spec_missing_reply_count_ids(comments_view(comments.hot_comments@) + comments_view(comments.comments@))
                },
                Event::CommentsFailed { song_id, offset } => {
                    final(self).page@ == spec_comments_failed(old(self).page@, song_id, offset) && effects@.len() == 0
                },
                Event::ReplyCountLoaded { song_id, comment_id, count } => {
                    &&& effects@.len() == 0
                    &&& final(self).page@ == (if count > 0 && old(self).page@.comments_song_id == song_id
                        && old(self).page@.threads.contains_key(comment_id) {
                        with_thread(old(self).page@, comment_id, ReplyThread { reply_count: count, ..old(self).page@.threads[comment_id] })
                    } else {
                        old(self).page@
                    })
                },
                Event::CommentLikeDone { song_id, comment_id, like, ok } => if ok {
                    final(self).page@ == spec_update_like(old(self).page@, song_id, comment_id, like) && effects@.len() == 0
                } else {
                    &&& final(self).page@ == old(self).page@
                    &&& effects@.len() == 2
                    &&& effects@[0] matches Effect::ReenableCommentControls { song_id: s, comment_id: c } && s == song_id && c == comment_id
                    &&& effects@[1] matches Effect::ShowToast(t)
                        && t == (if like { Toast::CommentLikeFailed } else { Toast::CommentUnlikeFailed })
                },
                Event::RepliesLoaded { song_id, comment_id, replies } => match replies {
                    Some(rs) => final(self).page@ == spec_update_replies(old(self).page@, song_id, comment_id, rs.total,
                        replies_view(rs.replies@)) && effects@.len() == 0,
                    None => {
                        &&& final(self).page@ == old(self).page@
                        &&& effects@.len() == 2
                        &&& effects@[0] matches Effect::ReenableCommentControls { song_id: s, comment_id: c } && s == song_id && c == comment_id
                        &&& effects@[1] matches Effect::ShowToast(t) && t == Toast::RepliesFailed
                    },
                },
                Event::ReplySent { song_id, comment_id, result } => match result {
                    Ok(reply) => {
                        &&& final(self).page@ == spec_reply_sent(old(self).page@, song_id, comment_id, match reply {
                            Some(r) => Some(r@),
                            None => None,
                        })
                        &&& effects@.len() == 1
                        &&& effects@[0] matches Effect::ShowToast(t) && t == Toast::CommentSent
                    },
                    Err(_) => {
                        &&& final(self).page@ == old(self).page@
                        &&& effects@.len() == 2
                        &&& effects@[0] matches Effect::ReenableCommentControls { song_id: s, comment_id: c } && s == song_id && c == comment_id
                        &&& effects@[1] matches Effect::ShowToast(t) && t == Toast::CommentSendFailed
                    },
                },
                Event::CommentDeleteDone { song_id, parent_comment_id, comment_id, ok } => if ok {
                    &&& final(self).page@ == spec_comment_deleted(old(self).page@, song_id, parent_comment_id, comment_id)
                    &&& effects@.len() == 1
                    &&& effects@[0] matches Effect::ShowToast(t) && t == Toast::CommentDeleted
                } else {
                    &&& final(self).page@ == old(self).page@
                    &&& effects@.len() == 2
                    &&& effects@[0] matches Effect::ReenableCommentControls { song_id: s, comment_id: c } && s == song_id && c == comment_id
                    &&& effects@[1] matches Effect::ShowToast(t) && t == Toast::CommentDeleteFailed
                },
                Event::SearchAnswered { search_type, song_ids } => {
                    let answered = song_ids is Some && search_endpoint_spec(search_type) is Some;
                    let kind = search_kind(search_type, song_ids is Some);
                    &&& final(self).page@ == old(self).page@
                    &&& if answered {
                        &&& effects@.len() == 1
                        &&& effects@[0] matches Effect::ShowSearchResult { kind: k, likes } && k == kind
                            && (if kind == SearchPageKind::Songs {
                                likes@.len() == (song_ids->0)@.len() && forall|i: int| 0 <= i < likes@.len()
                                    ==> #[trigger] likes@[i] == old(self).user.like_songs@.contains((song_ids->0)@[i])
                            } else {
                                likes@.len() == 0
                            })
                    } else {
                        &&& effects@.len() == 2
                        &&& effects@[0] matches Effect::ShowToast(t) && t == Toast::RequestFailed
                        &&& effects@[1] matches Effect::ShowSearchResult { kind: k, likes } && k == kind && likes@.len() == 0
                    }
                },
                Event::ToLyricsPage { queue } => if old(self).lyrics_page_open {
                    &&& final(self).page@ == old(self).page@
                    &&& final(self).lyrics_page_open
                    &&& effects@.len() == 1
                    &&& effects@[0] is PageBack
                } else {
                    match queue {
                        None => {
                            &&& final(self).page@ == old(self).page@
                            &&& !final(self).lyrics_page_open
                            &&& effects@.len() == 0
                        },
                        Some(q) => {
                            let song = q.1;
                            let wants = old(self).page@.current_song_id != song || old(self).page@.lyrics_song_id != song;
                            &&& final(self).page@ == spec_init_page(old(self).page@, q.0@, song, old(self).page@.playlist != q.0@)
                            &&& final(self).lyrics_page_open
                            &&& effects@.len() == (if song != 0 && wants { 2int } else { 1int })
                            &&& effects@[0] is HideQueues
                            &&& (song != 0 && wants ==> (effects@[1] matches Effect::UpdateLyrics(s) && s == song))
                        },
                    }
                },
                Event::PageBack => {
                    &&& final(self).page@ == old(self).page@
                    &&& !final(self).lyrics_page_open
                    &&& effects@.len() == 0
                },
            },
    {
        match event {
            Event::AddPlay(id) => self.on_add_play(id),
            Event::UpdateLyrics { song_id, time } => self.on_update_lyrics(song_id, time),
            Event::LyricsLoaded { song_id, lyrics } => self.on_lyrics_loaded(song_id, lyrics),
            Event::LyricsFailed { song_id } => self.on_lyrics_failed(song_id),
            Event::LoadSongComments { song_id, offset, now_ms } => self.on_load_song_comments(song_id, offset, now_ms),
            Event::CommentsLoaded { song_id, offset, comments } => self.on_comments_loaded(song_id, offset, comments),
            Event::CommentsFailed { song_id, offset } => self.on_comments_failed(song_id, offset),
            Event::ReplyCountLoaded { song_id, comment_id, count } => self.on_reply_count_loaded(song_id, comment_id, count),
            Event::CommentLikeDone { song_id, comment_id, like, ok } => self.on_comment_like_done(song_id, comment_id, like, ok),
            Event::RepliesLoaded { song_id, comment_id, replies } => self.on_replies_loaded(song_id, comment_id, replies),
            Event::ReplySent { song_id, comment_id, result } => self.on_reply_sent(song_id, comment_id, result),
            Event::CommentDeleteDone { song_id, parent_comment_id, comment_id, ok } =>
                self.on_comment_delete_done(song_id, parent_comment_id, comment_id, ok),
            Event::SearchAnswered { search_type, song_ids } => self.on_search_answered(search_type, song_ids),
            Event::ToLyricsPage { queue } => self.on_to_lyrics_page(queue),
            Event::PageBack => self.on_page_back(),
        }
    }
}

} // verus!
