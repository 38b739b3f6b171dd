use netease_cloud_music_linux::comments::{CommentReply, SongComment, SongCommentReplies, SongComments};
use netease_cloud_music_linux::lyrics_page::{
    format_reply_button_label, submit_comment_reply, CommentsStatus, CountLabel, DisplayName, FeedRow,
    PlayListLyricsPage, RepliesClick, ReplyLabel,
};
use netease_cloud_music_linux::song_list::{should_activate_row, SongItem, SongListView};

fn comment(id: u64, liked: bool, liked_count: u64, reply_count: u64) -> SongComment {
    SongComment {
        comment_id: id,
        user_id: id * 10,
        nickname: format!("user{id}"),
        avatar_url: String::new(),
        content: format!("comment {id}"),
        time: String::new(),
        liked,
        liked_count,
        reply_count,
        replied: vec![],
    }
}

fn reply(id: u64) -> CommentReply {
    CommentReply {
        comment_id: id,
        user_id: 7,
        nickname: "me".to_string(),
        avatar_url: String::new(),
        replied_to_nickname: String::new(),
        replied_to_content: String::new(),
        content: format!("reply {id}"),
        time: String::new(),
        liked: false,
        liked_count: 0,
    }
}

fn page_with_comments(song: u64) -> PlayListLyricsPage {
    let mut p = PlayListLyricsPage::new();
    assert!(p.begin_comments_update(song, 0, 1_000));
    let mut latest: Vec<SongComment> = (1..=20).map(|i| comment(i, false, i, 0)).collect();
    latest[0].reply_count = 2;
    let hot = vec![comment(100, true, 50, 1), comment(1, false, 1, 0)];
    p.update_comments(song, 0, &SongComments { total: 45, hot_comments: hot, comments: latest });
    p
}

#[test]
fn reply_button_labels() {
    assert_eq!(format_reply_button_label(0, false), ReplyLabel::View);
    assert_eq!(format_reply_button_label(0, true), ReplyLabel::Collapse);
    assert_eq!(format_reply_button_label(3, false), ReplyLabel::MoreCount(3));
    assert_eq!(format_reply_button_label(3, true), ReplyLabel::CollapseCount(3));
}

#[test]
fn new_page_waits_for_scrolling() {
    let p = PlayListLyricsPage::new();
    assert_eq!(p.count_label, CountLabel::NotLoaded);
    assert_eq!(p.status, CommentsStatus::ScrollToView);
    assert!(p.rows.is_empty());
    assert_eq!(p.playing_row, -1);
}

#[test]
fn first_page_of_comments_is_shown_without_duplicates() {
    let p = page_with_comments(9);
    // hot heading, two hot comments, latest heading, 19 new latest comments
    assert_eq!(p.rows.len(), 1 + 2 + 1 + 19);
    assert_eq!(p.rows[0], FeedRow::HotHeader);
    assert_eq!(p.rows[1], FeedRow::Comment(100));
    assert_eq!(p.rows[2], FeedRow::Comment(1));
    assert_eq!(p.rows[3], FeedRow::LatestHeader);
    assert_eq!(p.rows[4], FeedRow::Comment(2));
    assert_eq!(p.count_label, CountLabel::Total(45));
    assert_eq!(p.status, CommentsStatus::Hidden);
    assert_eq!(p.next_offset, 20);
    assert!(p.loaded && !p.loading && !p.exhausted);
    assert_eq!(p.reply_button_state(100), Some((true, ReplyLabel::MoreCount(1))));
    assert_eq!(p.reply_button_state(2), Some((false, ReplyLabel::View)));
}

#[test]
fn only_eight_hot_comments_are_shown() {
    let mut p = PlayListLyricsPage::new();
    assert!(p.begin_comments_update(3, 0, 0));
    let hot: Vec<SongComment> = (1..=10).map(|i| comment(i, false, 0, 0)).collect();
    p.update_comments(3, 0, &SongComments { total: 0, hot_comments: hot, comments: vec![] });
    assert_eq!(p.rows.len(), 9);
    assert!(p.exhausted);
    assert_eq!(p.status, CommentsStatus::Hidden);
}

#[test]
fn empty_page_says_no_comments() {
    let mut p = PlayListLyricsPage::new();
    assert!(p.begin_comments_update(3, 0, 0));
    assert_eq!(p.status, CommentsStatus::Loading);
    assert_eq!(p.count_label, CountLabel::Loading);
    p.update_comments(3, 0, &SongComments { total: 0, hot_comments: vec![], comments: vec![] });
    assert_eq!(p.status, CommentsStatus::NoComments);
    assert!(p.exhausted);
}

#[test]
fn comments_load_once_and_wait_for_the_cooldown() {
    let mut p = PlayListLyricsPage::new();
    assert!(p.begin_comments_update(5, 0, 1_000));
    // the same load is not begun twice
    assert!(!p.begin_comments_update(5, 0, 1_000));
    p.update_comments(5, 0, &SongComments { total: 100, hot_comments: vec![], comments: (1..=20).map(|i| comment(i, false, 0, 0)).collect() });
    // within 900 ms of the last start nothing is asked for
    assert_eq!(p.request_more_comments(1_500), None);
    assert_eq!(p.request_more_comments(1_900), Some((5, 20)));
    // a pending request blocks another
    assert_eq!(p.request_more_comments(5_000), None);
    assert_eq!(p.pending_offset, Some(20));
    // a begin at another offset is refused
    assert!(!p.begin_comments_update(5, 40, 5_000));
    assert!(p.begin_comments_update(5, 20, 5_000));
    assert_eq!(p.pending_offset, None);
    assert_eq!(p.status, CommentsStatus::LoadingMore);
}

#[test]
fn failures_are_reported_and_retried() {
    let mut p = PlayListLyricsPage::new();
    assert!(p.begin_comments_update(5, 0, 0));
    p.comments_update_failed(5, 0);
    assert_eq!(p.status, CommentsStatus::Failed);
    assert_eq!(p.count_label, CountLabel::Unavailable);
    assert!(p.begin_comments_update(5, 0, 10_000));
    p.update_comments(5, 0, &SongComments { total: 100, hot_comments: vec![], comments: (1..=20).map(|i| comment(i, false, 0, 0)).collect() });
    assert!(p.begin_comments_update(5, 20, 20_000));
    p.comments_update_failed(5, 20);
    assert_eq!(p.status, CommentsStatus::FailedRetry);
    assert_eq!(p.count_label, CountLabel::Total(100));
    // a failure for another song changes nothing
    p.comments_update_failed(6, 20);
    assert_eq!(p.status, CommentsStatus::FailedRetry);
}

#[test]
fn scrolling_asks_for_pages() {
    let mut p = PlayListLyricsPage::new();
    assert_eq!(p.maybe_load_comments_for_scroll(true, true, 0), None);
    p.prepare_comments_for_song(8);
    assert_eq!(p.maybe_load_comments_for_scroll(false, true, 0), None);
    assert_eq!(p.maybe_load_comments_for_scroll(true, false, 0), Some((8, 0)));
}

#[test]
fn another_song_starts_the_feed_over() {
    let mut p = page_with_comments(9);
    p.prepare_comments_for_song(9);
    assert_eq!(p.rows.len(), 23);
    p.prepare_comments_for_song(10);
    assert!(p.rows.is_empty());
    assert!(p.seen_ids.is_empty());
    assert_eq!(p.next_offset, 0);
    assert_eq!(p.count_label, CountLabel::NotLoaded);
    assert!(p.likes.is_empty());
}

#[test]
fn likes_move_the_count_once() {
    let mut p = page_with_comments(9);
    assert_eq!(p.like_click(3), Some((9, 3, true)));
    p.update_comment_like(9, 3, true);
    p.update_comment_like(9, 3, true);
    assert_eq!(p.likes[&3].like_count, 4);
    assert!(p.likes[&3].liked);
    assert_eq!(p.like_click(3), Some((9, 3, false)));
    p.update_comment_like(9, 3, false);
    assert_eq!(p.likes[&3].like_count, 3);
    // other songs and unknown comments change nothing
    p.update_comment_like(8, 3, true);
    p.update_comment_like(9, 999, true);
    assert!(!p.likes[&3].liked);
    assert!(!p.likes.contains_key(&999));
    assert_eq!(p.like_click(999), None);
}

#[test]
fn unlike_at_zero_stays_at_zero() {
    let mut p = PlayListLyricsPage::new();
    assert!(p.begin_comments_update(4, 0, 0));
    p.update_comments(4, 0, &SongComments { total: 1, hot_comments: vec![], comments: vec![comment(1, true, 0, 0)] });
    p.update_comment_like(4, 1, false);
    assert_eq!(p.likes[&1].like_count, 0);
    assert!(!p.likes[&1].liked);
}

#[test]
fn replies_load_then_toggle() {
    let mut p = page_with_comments(9);
    assert_eq!(p.toggle_replies(1), Some(RepliesClick::Load(9, 1)));
    p.update_comment_replies(9, 1, &SongCommentReplies { total: 1, replies: vec![reply(501), reply(502)] });
    assert_eq!(p.threads[&1].reply_count, 2);
    assert!(p.threads[&1].loaded && p.threads[&1].revealed);
    assert_eq!(p.reply_ids[&1], vec![501, 502]);
    assert_eq!(p.likes[&501].parent_id, 1);
    assert_eq!(p.toggle_replies(1), Some(RepliesClick::Collapsed(ReplyLabel::MoreCount(2))));
    assert_eq!(p.toggle_replies(1), Some(RepliesClick::Expanded(ReplyLabel::CollapseCount(2))));
    assert_eq!(p.toggle_replies(12345), None);
    // loading again replaces the earlier replies
    p.update_comment_replies(9, 1, &SongCommentReplies { total: 5, replies: vec![reply(503)] });
    assert_eq!(p.reply_ids[&1], vec![503]);
    assert!(!p.likes.contains_key(&501));
    assert_eq!(p.threads[&1].reply_count, 5);
}

#[test]
fn reply_input_toggles() {
    let mut p = page_with_comments(9);
    assert_eq!(p.toggle_reply_input(2), Some(true));
    assert_eq!(p.toggle_reply_input(2), Some(false));
    assert_eq!(p.toggle_reply_input(424242), None);
}

#[test]
fn reply_count_is_set() {
    let mut p = page_with_comments(9);
    p.update_comment_reply_count(9, 3, 6);
    assert_eq!(p.reply_button_state(3), Some((true, ReplyLabel::MoreCount(6))));
    p.update_comment_reply_count(1, 3, 1);
    assert_eq!(p.threads[&3].reply_count, 6);
}

#[test]
fn sent_reply_then_deleted_restores_the_count() {
    let mut p = page_with_comments(9);
    let before = p.threads[&1].reply_count;
    p.comment_reply_sent(9, 1, Some(reply(900)));
    assert_eq!(p.threads[&1].reply_count, before + 1);
    assert!(p.threads[&1].revealed && !p.threads[&1].input_revealed);
    assert_eq!(p.reply_ids[&1], vec![900]);
    p.comment_deleted(9, 1, 900);
    assert_eq!(p.threads[&1].reply_count, before);
    assert!(!p.likes.contains_key(&900));
    assert_eq!(p.reply_ids[&1], Vec::<u64>::new());
}

#[test]
fn sent_reply_without_answer_closes_the_drawer() {
    let mut p = page_with_comments(9);
    p.comment_reply_sent(9, 2, None);
    assert_eq!(p.threads[&2].reply_count, 1);
    assert!(!p.threads[&2].loaded && !p.threads[&2].revealed);
}

#[test]
fn deleting_a_comment_removes_its_row_and_replies() {
    let mut p = page_with_comments(9);
    p.update_comment_replies(9, 1, &SongCommentReplies { total: 1, replies: vec![reply(501)] });
    let rows = p.rows.len();
    p.comment_deleted(9, 0, 1);
    assert_eq!(p.rows.len(), rows - 1);
    assert!(!p.rows.contains(&FeedRow::Comment(1)));
    assert!(!p.likes.contains_key(&1));
    assert!(!p.likes.contains_key(&501));
    assert!(!p.reply_ids.contains_key(&1));
}

#[test]
fn names_and_deletion_rights() {
    let mut p = PlayListLyricsPage::new();
    p.set_comment_user_info(7, String::new(), String::new());
    assert!(matches!(p.comment_display_name(7, ""), DisplayName::Me));
    assert!(matches!(p.comment_display_name(8, ""), DisplayName::User));
    assert!(matches!(p.comment_display_name(0, ""), DisplayName::Name(ref n) if n.is_empty()));
    assert!(matches!(p.comment_display_name(8, "Bob"), DisplayName::Name(ref n) if n == "Bob"));
    p.set_comment_user_info(7, "Ann".to_string(), String::new());
    assert!(matches!(p.comment_display_name(7, ""), DisplayName::Name(ref n) if n == "Ann"));
    assert!(p.can_delete_comment(9, 1, 7, ""));
    assert!(p.can_delete_comment(9, 1, 8, "Ann"));
    assert!(!p.can_delete_comment(9, 1, 8, "Bob"));
    assert!(!p.can_delete_comment(0, 1, 7, ""));
    assert!(!p.can_delete_comment(9, 0, 7, ""));
    assert!(!p.can_delete_comment(9, 1, 0, "Ann"));
}

#[test]
fn reply_text_is_trimmed() {
    assert_eq!(submit_comment_reply(1, 2, "  hello \n"), Some("hello".to_string()));
    assert_eq!(submit_comment_reply(1, 2, " \t "), None);
    assert_eq!(submit_comment_reply(0, 2, "x"), None);
    assert_eq!(submit_comment_reply(1, 0, "x"), None);
}

#[test]
fn page_opens_on_the_playing_song() {
    let mut p = PlayListLyricsPage::new();
    assert!(p.playlist_changed(&vec![1, 2, 3]));
    assert!(p.init_page(vec![1, 2, 3], 2, true));
    assert_eq!(p.playing_row, 1);
    assert_eq!(p.current_song_id, 2);
    assert_eq!(p.comments_song_id, 2);
    assert!(!p.playlist_changed(&vec![1, 2, 3]));
    // the lyric of song 2 is not loaded yet, so it is still wanted
    assert!(p.init_page(vec![1, 2, 3], 2, false));
    assert!(p.begin_lyrics_update(2));
    assert!(!p.init_page(vec![1, 2, 3], 2, false));
    assert!(p.init_page(vec![1, 2, 3], 3, false));
    assert_eq!(p.playing_row, 2);
    // a song missing from the queue keeps the row
    assert!(p.init_page(vec![1, 2, 3], 9, false));
    assert_eq!(p.playing_row, 2);
    p.switch_row(0);
    assert_eq!(p.playing_row, 0);
    p.switch_row(-1);
    assert_eq!(p.playing_row, 0);
}

#[test]
fn lyrics_follow_the_awaited_song() {
    let mut p = PlayListLyricsPage::new();
    assert!(p.begin_lyrics_update(4));
    assert!(!p.begin_lyrics_update(4));
    p.update_lyrics(5, vec![(0, "other\n".to_string())]);
    assert!(p.lyrics.is_empty());
    p.update_lyrics(4, vec![(0, "a\n".to_string()), (1_000, "b\n".to_string()), (1_000, "B\n".to_string())]);
    assert_eq!(p.lyrics_text(), "a\nb\nB\n");
    assert_eq!(p.update_lyrics_highlight(500), Some((0, 0)));
    assert_eq!(p.update_lyrics_highlight(600), None);
    assert_eq!(p.update_lyrics_highlight(1_500), Some((1, 2)));
    assert_eq!(p.highlighted, Some((1, 2)));
}

#[test]
fn failed_lyric_is_tried_again() {
    let mut p = PlayListLyricsPage::new();
    assert!(p.begin_lyrics_update(4));
    p.lyrics_update_failed(4);
    assert_eq!(p.lyrics_song_id, 0);
    assert!(p.begin_lyrics_update(4));
    p.lyrics_update_failed(5);
    assert_eq!(p.lyrics_song_id, 4);
}

#[test]
fn short_lists_render_at_once() {
    let mut v = SongListView::new();
    v.init_new_list(&vec![1, 2, 3], &vec![true]);
    assert_eq!(v.loaded_rows(), 3);
    assert_eq!(v.row_likes, vec![true, false, false]);
    assert_eq!(v.items[0], SongItem { song_id: 1, like: true, playing: false });
    assert!(v.pending.is_empty());
    assert!(!v.loading);
    assert_eq!(v.get_songinfo_list(), vec![1, 2, 3]);
}

#[test]
fn long_lists_render_in_chunks() {
    let ids: Vec<u64> = (1..=200).collect();
    let mut v = SongListView::new();
    v.init_new_list(&ids, &vec![]);
    assert_eq!(v.loaded_rows(), 0);
    assert_eq!(v.pending.len(), 200);
    assert!(v.loading && v.rendering);
    assert!(v.render_chunk());
    assert_eq!(v.loaded_rows(), 96);
    assert!(v.render_chunk());
    assert_eq!(v.loaded_rows(), 192);
    assert!(!v.render_chunk());
    assert_eq!(v.loaded_rows(), 200);
    assert!(!v.loading && !v.rendering);
    assert_eq!(v.items[199].song_id, 200);
}

#[test]
fn likes_are_synced_and_changes_reported() {
    let mut v = SongListView::new();
    v.init_new_list(&vec![1, 2, 3], &vec![false, true, false]);
    let changed = v.sync_likes(&vec![true, true]);
    assert_eq!(changed, vec![0]);
    assert_eq!(v.row_likes, vec![true, true, false]);
    assert!(v.items[0].like);
    let changed = v.sync_likes(&vec![]);
    assert_eq!(changed, vec![0, 1]);
}

#[test]
fn list_is_replaced_only_when_it_changed() {
    let mut v = SongListView::new();
    v.init_new_list(&vec![1, 2], &vec![]);
    v.set_active_row_index(1);
    assert!(!v.replace_list_if_changed(&vec![1, 2], &vec![true, true]));
    assert_eq!(v.playing_index, 1);
    assert_eq!(v.row_likes, vec![true, true]);
    assert!(v.has_same_song_ids(&vec![1, 2]));
    assert!(v.replace_list_if_changed(&vec![2, 1], &vec![]));
    assert_eq!(v.playing_index, -1);
    assert_eq!(v.get_songinfo_list(), vec![2, 1]);
    v.clear_list();
    assert_eq!(v.loaded_rows(), 0);
    assert!(v.get_songinfo_list().is_empty());
}

#[test]
fn one_row_plays_at_a_time() {
    let mut v = SongListView::new();
    v.init_new_list(&vec![10, 20, 30], &vec![]);
    assert_eq!(v.mark_new_row_playing(1, true), Some(20));
    assert!(v.items[1].playing);
    assert_eq!(v.mark_new_row_playing(2, false), None);
    assert!(!v.items[1].playing && v.items[2].playing);
    assert_eq!(v.active_row_index, 2);
    assert_eq!(v.mark_new_row_playing(7, true), None);
    assert_eq!(v.playing_index, 7);
    assert!(v.items.iter().all(|it| !it.playing));
    v.set_active_row_index(-1);
    assert_eq!(v.playing_index, 7);
    assert!(should_activate_row(true, false));
    assert!(should_activate_row(false, true));
    assert!(!should_activate_row(false, false));
}

#[test]
fn queue_is_shown_with_its_playing_row() {
    let mut p = PlayListLyricsPage::new();
    p.update_playlist(vec![7, 8, 9], 9);
    assert_eq!(p.playlist, vec![7, 8, 9]);
    assert_eq!(p.playing_row, 2);
    p.update_playlist(vec![1, 2], 5);
    assert_eq!(p.playlist, vec![1, 2]);
    assert_eq!(p.playing_row, 2);
}

#[test]
fn loading_indicator_follows_the_flag() {
    let mut v = SongListView::new();
    v.set_loading(true);
    assert!(v.loading);
    v.set_loading(false);
    assert!(!v.loading);
}
