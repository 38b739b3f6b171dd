use netease_cloud_music_linux::client::detail_batches;
use netease_cloud_music_linux::comments::{
    delete_comment_step, song_comments_step, CommentWriteStep, CommentsStep, SongComment, SongComments,
};
use netease_cloud_music_linux::dispatch::{AppState, Effect, Event, Toast};
use netease_cloud_music_linux::lyrics_page::CountLabel;
use netease_cloud_music_linux::menu::{anchor_menu_position, point_menu_position};
use netease_cloud_music_linux::navigation::{SearchPageKind, SearchType};
use netease_cloud_music_linux::text::str_to_string;

fn comment(id: u64, reply_count: u64) -> SongComment {
    SongComment {
        comment_id: id,
        user_id: 1,
        nickname: String::new(),
        avatar_url: String::new(),
        content: "c".to_string(),
        time: String::new(),
        liked: false,
        liked_count: 0,
        reply_count,
        replied: vec![],
    }
}

fn toasts(effects: &[Effect]) -> Vec<Toast> {
    effects.iter().filter_map(|e| if let Effect::ShowToast(t) = e { Some(*t) } else { None }).collect()
}

#[test]
fn add_play_queues_then_plays() {
    let mut s = AppState::new();
    let e = s.step(Event::AddPlay(42));
    assert!(matches!(e.as_slice(), [Effect::AddToQueue(42), Effect::Play(42)]));
}

#[test]
fn a_new_song_fetches_its_lyric_before_the_timestamp() {
    let mut s = AppState::new();
    s.lyrics_page_open = true;
    let e = s.step(Event::UpdateLyrics { song_id: 5, time: 0 });
    assert!(matches!(e.as_slice(), [Effect::FetchLyrics(5)]));
    // the same song again only moves the highlight
    let e = s.step(Event::UpdateLyrics { song_id: 5, time: 0 });
    assert!(e.is_empty());
    let e = s.step(Event::LyricsLoaded { song_id: 5, lyrics: vec![(0, "a\n".to_string()), (1_000, "b\n".to_string())] });
    assert!(matches!(e.as_slice(), [Effect::ScrollLyrics(0, 0)]));
    let e = s.step(Event::UpdateLyrics { song_id: 5, time: 1_500 });
    assert!(matches!(e.as_slice(), [Effect::ScrollLyrics(1, 1)]));
    // a closed page is not scrolled
    s.lyrics_page_open = false;
    let e = s.step(Event::UpdateLyrics { song_id: 5, time: 10 });
    assert!(e.is_empty());
    let e = s.step(Event::LyricsFailed { song_id: 5 });
    assert!(e.is_empty());
    assert_eq!(s.page.lyrics_song_id, 0);
}

#[test]
fn comment_pages_are_fetched_then_shown_with_reply_counts() {
    let mut s = AppState::new();
    assert!(s.step(Event::LoadSongComments { song_id: 0, offset: 0, now_ms: 0 }).is_empty());
    assert_eq!(s.page.comments_song_id, 0);
    let e = s.step(Event::LoadSongComments { song_id: 9, offset: 0, now_ms: 0 });
    assert!(matches!(e.as_slice(), [Effect::FetchComments { song_id: 9, offset: 0 }]));
    assert!(s.step(Event::LoadSongComments { song_id: 9, offset: 0, now_ms: 0 }).is_empty());
    let comments = SongComments { total: 2, hot_comments: vec![], comments: vec![comment(1, 0), comment(2, 3)] };
    let e = s.step(Event::CommentsLoaded { song_id: 9, offset: 0, comments });
    assert!(matches!(e.as_slice(), [Effect::FetchReplyCounts { song_id: 9, ids }] if ids == &vec![1]));
    assert_eq!(s.page.count_label, CountLabel::Total(2));
    assert!(s.step(Event::ReplyCountLoaded { song_id: 9, comment_id: 1, count: 4 }).is_empty());
    assert_eq!(s.page.threads[&1].reply_count, 4);
    s.step(Event::ReplyCountLoaded { song_id: 9, comment_id: 1, count: 0 });
    assert_eq!(s.page.threads[&1].reply_count, 4);
}

#[test]
fn failed_comment_actions_reenable_and_toast() {
    let mut s = AppState::new();
    let e = s.step(Event::CommentLikeDone { song_id: 9, comment_id: 1, like: true, ok: false });
    assert!(matches!(e[0], Effect::ReenableCommentControls { song_id: 9, comment_id: 1 }));
    assert_eq!(toasts(&e), vec![Toast::CommentLikeFailed]);
    let e = s.step(Event::CommentLikeDone { song_id: 9, comment_id: 1, like: false, ok: false });
    assert_eq!(toasts(&e), vec![Toast::CommentUnlikeFailed]);
    let e = s.step(Event::RepliesLoaded { song_id: 9, comment_id: 1, replies: None });
    assert_eq!(toasts(&e), vec![Toast::RepliesFailed]);
    let e = s.step(Event::ReplySent { song_id: 9, comment_id: 1, result: Err(()) });
    assert_eq!(toasts(&e), vec![Toast::CommentSendFailed]);
    let e = s.step(Event::CommentDeleteDone { song_id: 9, parent_comment_id: 0, comment_id: 1, ok: false });
    assert_eq!(toasts(&e), vec![Toast::CommentDeleteFailed]);
    let e = s.step(Event::ReplySent { song_id: 9, comment_id: 1, result: Ok(None) });
    assert_eq!(toasts(&e), vec![Toast::CommentSent]);
    let e = s.step(Event::CommentDeleteDone { song_id: 9, parent_comment_id: 0, comment_id: 1, ok: true });
    assert_eq!(toasts(&e), vec![Toast::CommentDeleted]);
    assert!(s.step(Event::CommentLikeDone { song_id: 9, comment_id: 1, like: true, ok: true }).is_empty());
}

#[test]
fn searches_are_answered_or_emptied() {
    let mut s = AppState::new();
    s.user.set_user_like_songs(&vec![2]);
    let e = s.step(Event::SearchAnswered { search_type: SearchType::Song, song_ids: Some(vec![1, 2]) });
    assert!(matches!(e.as_slice(), [Effect::ShowSearchResult { kind: SearchPageKind::Songs, likes }] if likes == &vec![false, true]));
    let e = s.step(Event::SearchAnswered { search_type: SearchType::Album, song_ids: Some(vec![]) });
    assert!(matches!(e.as_slice(), [Effect::ShowSearchResult { kind: SearchPageKind::SongLists, likes }] if likes.is_empty()));
    let e = s.step(Event::SearchAnswered { search_type: SearchType::Singer, song_ids: None });
    assert!(matches!(e.as_slice(), [Effect::ShowToast(Toast::RequestFailed), Effect::ShowSearchResult { kind: SearchPageKind::Singers, .. }]));
    let e = s.step(Event::SearchAnswered { search_type: SearchType::DailyRec, song_ids: Some(vec![1]) });
    assert!(matches!(e.as_slice(), [Effect::ShowToast(Toast::RequestFailed), Effect::ShowSearchResult { kind: SearchPageKind::Songs, .. }]));
}

#[test]
fn comment_request_fallbacks() {
    assert_eq!(song_comments_step(true), CommentsStep::Show);
    assert_eq!(song_comments_step(false), CommentsStep::AskLegacy);
    assert_eq!(delete_comment_step(None), CommentWriteStep::Done);
    assert_eq!(delete_comment_step(Some("网易云接口返回 code 250: 操作过于频繁")), CommentWriteStep::Fail);
    assert_eq!(delete_comment_step(Some("为了您的安全，请切换设备")), CommentWriteStep::Fail);
    assert_eq!(delete_comment_step(Some("timeout")), CommentWriteStep::RetryAsAndroid);
}

#[test]
fn detail_requests_take_500_ids_at_a_time() {
    let ids: Vec<u64> = (0..1_201).collect();
    let b = detail_batches(&ids);
    assert_eq!(b.iter().map(|x| x.len()).collect::<Vec<_>>(), vec![500, 500, 201]);
    assert_eq!(b.concat(), ids);
    assert_eq!(detail_batches(&(0..500).collect()).len(), 1);
    assert!(detail_batches(&vec![]).is_empty());
}

#[test]
fn menus_place_far_beyond_small_sizes() {
    assert_eq!(point_menu_position(0, 0, 0, 0, 1_000_000_000, 0), (8, 8));
    assert_eq!(point_menu_position(2_000_000_000, 5, 2_100_000_000, 100, 100, 10), (2_000_000_000, 8));
    assert_eq!(
        anchor_menu_position(Some((1_500_000_000, 0)), 10, 10, 2_000_000_000, 600, 200, 150, false, 12),
        (1_499_999_810, 18)
    );
}

#[test]
fn owned_copies_keep_the_text() {
    assert_eq!(str_to_string("héllo"), "héllo");
    assert_eq!(str_to_string(""), "");
}

#[test]
fn now_playing_opens_the_page_and_asks_for_the_lyric() {
    let mut s = AppState::new();
    let e = s.step(Event::ToLyricsPage { queue: Some((vec![3, 7, 9], 7)) });
    assert!(matches!(e.as_slice(), [Effect::HideQueues, Effect::UpdateLyrics(7)]));
    assert!(s.lyrics_page_open);
    assert_eq!(s.page.playlist, vec![3, 7, 9]);
    assert_eq!(s.page.playing_row, 1);
    assert_eq!(s.page.current_song_id, 7);
    // the lyric request that follows fetches the song's lyric
    let e = s.step(Event::UpdateLyrics { song_id: 7, time: 0 });
    assert!(matches!(e.as_slice(), [Effect::FetchLyrics(7)]));
    // asked again while shown: only goes back
    let e = s.step(Event::ToLyricsPage { queue: Some((vec![1], 1)) });
    assert!(matches!(e.as_slice(), [Effect::PageBack]));
    assert_eq!(s.page.current_song_id, 7);
    assert!(s.lyrics_page_open);
    let e = s.step(Event::PageBack);
    assert!(e.is_empty());
    assert!(!s.lyrics_page_open);
}

#[test]
fn now_playing_with_the_lyric_shown_asks_for_nothing_more() {
    let mut s = AppState::new();
    let _ = s.step(Event::UpdateLyrics { song_id: 7, time: 0 });
    let _ = s.step(Event::ToLyricsPage { queue: Some((vec![7], 7)) });
    let _ = s.step(Event::PageBack);
    // same queue, same song, its lyric shown: the page opens without a reload
    let e = s.step(Event::ToLyricsPage { queue: Some((vec![7], 7)) });
    assert!(matches!(e.as_slice(), [Effect::HideQueues]));
    assert!(s.lyrics_page_open);
}

#[test]
fn now_playing_without_a_queue_or_song() {
    let mut s = AppState::new();
    let e = s.step(Event::ToLyricsPage { queue: None });
    assert!(e.is_empty());
    assert!(!s.lyrics_page_open);
    // a queue with no song playing opens the page but loads no lyric
    let e = s.step(Event::ToLyricsPage { queue: Some((vec![], 0)) });
    assert!(matches!(e.as_slice(), [Effect::HideQueues]));
    assert!(s.lyrics_page_open);
}
