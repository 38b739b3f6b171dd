use netease_cloud_music_linux::app_logic::{
    batch_song_order, cache_clear_action, heartbeat_remaining_ids, load_lyrics_after_opening, next_radio_offset,
    play_source, qr_check_step, reply_count_pauses, should_load_lyrics_on_play, should_reverse_song_id_order,
    song_id_order_score, PlaySource, QrStep,
};
use netease_cloud_music_linux::css;
use netease_cloud_music_linux::menu::{anchor_menu_position, point_menu_position};
use netease_cloud_music_linux::navigation::{
    copy_text, editable_selected_text, empty_search_result, entry_menu_sensitivity, fullscreen_page_push,
    page_new_transition, search_endpoint, search_menu_choices, search_page_kind, update_sidebar_selection,
    PageTransition, SearchEndpoint, SearchPageKind, SearchType, SidebarButton, StackHistory, UserInfo,
};
use netease_cloud_music_linux::text::{
    contains, eq_ignore_ascii_case, i64_to_string, parse_u64, str_eq, trim, u64_to_string,
};
use netease_cloud_music_linux::theme::{color_scheme_for_variant, theme_is_dark, ColorScheme, DARK_CSS, LIGHT_CSS};

fn chars(s: &str) -> Vec<char> {
    s.chars().collect()
}

#[test]
fn order_score_counts_matching_positions() {
    let playlist = vec![5, 4, 3, 2, 1];
    assert_eq!(song_id_order_score(&vec![1, 2, 3, 4, 5], false, &playlist), 1);
    assert_eq!(song_id_order_score(&vec![1, 2, 3, 4, 5], true, &playlist), 5);
    assert_eq!(song_id_order_score(&vec![], true, &playlist), 0);
    // only the first 64 positions count
    let long: Vec<u64> = (0..100).collect();
    assert_eq!(song_id_order_score(&long, false, &long), 64);
}

#[test]
fn liked_songs_are_reversed_when_that_matches_better() {
    assert!(should_reverse_song_id_order(&vec![1, 2, 3], &vec![3, 2, 1]));
    assert!(!should_reverse_song_id_order(&vec![1, 2, 3], &vec![1, 2, 3]));
    assert!(!should_reverse_song_id_order(&vec![1, 2, 3], &vec![]));
    // a tie keeps the order
    assert!(!should_reverse_song_id_order(&vec![1, 2, 1], &vec![1, 9, 9]));
}

#[test]
fn remaining_liked_songs_skip_the_loaded_ones() {
    assert_eq!(heartbeat_remaining_ids(&vec![1, 2, 3, 4], &vec![4, 3]), vec![2, 1]);
    assert_eq!(heartbeat_remaining_ids(&vec![1, 2, 3, 4], &vec![1, 7]), vec![2, 3, 4]);
    assert_eq!(heartbeat_remaining_ids(&vec![1, 2], &vec![]), vec![1, 2]);
}

#[test]
fn radio_paging() {
    assert_eq!(next_radio_offset(0, 500), Some(500));
    assert_eq!(next_radio_offset(0, 499), None);
    assert_eq!(next_radio_offset(65_036, 500), None);
    assert_eq!(next_radio_offset(65_035, 500), Some(65_535));
}

#[test]
fn qr_login_steps() {
    assert_eq!(qr_check_step(800, false), QrStep::Expired);
    assert_eq!(qr_check_step(801, true), QrStep::Waiting);
    assert_eq!(qr_check_step(802, false), QrStep::Scanned { notify: true });
    assert_eq!(qr_check_step(802, true), QrStep::Scanned { notify: false });
    assert_eq!(qr_check_step(803, true), QrStep::LoggedIn);
    assert_eq!(qr_check_step(-1, false), QrStep::Stop);
}

#[test]
fn cache_clear_schedule() {
    assert_eq!(cache_clear_action(1, true, None), (true, None));
    assert_eq!(cache_clear_action(2, false, Some((1, 15))), (true, Some(true)));
    assert_eq!(cache_clear_action(2, true, Some((1, 15))), (false, None));
    assert_eq!(cache_clear_action(2, true, Some((3, 1))), (false, Some(false)));
    assert_eq!(cache_clear_action(3, false, Some((3, 1))), (true, Some(true)));
    assert_eq!(cache_clear_action(3, false, None), (false, None));
    assert_eq!(cache_clear_action(0, true, Some((1, 1))), (false, Some(false)));
}

#[test]
fn where_songs_play_from() {
    assert!(matches!(play_source(true, "/c/1.mp3", ""), PlaySource::File(ref u) if u == "file:///c/1.mp3"));
    assert!(matches!(play_source(false, "/c/1.mp3", ""), PlaySource::FetchUrl));
    assert!(matches!(play_source(false, "/c/1.mp3", "http://x"), PlaySource::Url));
}

#[test]
fn small_decisions() {
    assert_eq!(reply_count_pauses(0), (false, false));
    assert_eq!(reply_count_pauses(3), (true, true));
    assert_eq!(reply_count_pauses(4), (true, false));
    assert!(should_load_lyrics_on_play(true, false));
    assert!(!should_load_lyrics_on_play(false, false));
    assert!(load_lyrics_after_opening(5, true));
    assert!(!load_lyrics_after_opening(0, true));
    assert!(!load_lyrics_after_opening(5, false));
}

#[test]
fn batch_songs_follow_the_batch_order() {
    // the batch asked for 30, 10, 20; the songs came back as 10, 20, 99, 30
    assert_eq!(batch_song_order(&vec![30, 10, 20], &vec![10, 20, 99, 30]), vec![3, 0, 1, 2]);
    assert_eq!(batch_song_order(&vec![1], &vec![]), Vec::<usize>::new());
    // equal keys keep their order
    assert_eq!(batch_song_order(&vec![1, 2], &vec![2, 2, 1]), vec![2, 0, 1]);
}

#[test]
fn liked_songs_of_the_user() {
    let mut u = UserInfo::new();
    assert!(!u.is_logined());
    u.set_user_uid(9);
    assert!(u.is_logined());
    assert_eq!(u.get_uid(), 9);
    u.set_user_like_songs(&vec![1, 2, 3]);
    assert_eq!(u.get_song_likes(&vec![3, 4, 1]), vec![true, false, true]);
    assert!(u.set_like_song(4, true, Some(4)));
    assert!(!u.set_like_song(1, false, Some(4)));
    assert!(!u.set_like_song(2, false, None));
    assert_eq!(u.get_song_likes(&vec![1, 2, 3, 4]), vec![false, false, true, true]);
    assert!(u.user_like_song_contains(4));
    u.user_like_song_remove(4);
    assert!(!u.user_like_song_contains(4));
    u.set_user_profile(9, "Ann".to_string(), "http://a".to_string());
    assert_eq!(u.nickname, "Ann");
    u.clear_user_info();
    assert!(!u.is_logined());
    assert!(u.nickname.is_empty());
}

#[test]
fn pages_are_not_pushed_twice() {
    assert_eq!(page_new_transition(1, "Discover", None, "Discover", "discover"), Some(PageTransition::Crossfade));
    assert_eq!(page_new_transition(2, "Album", Some("album"), "Album", "album"), None);
    assert_eq!(page_new_transition(2, "Album", None, "Album", "other"), None);
    assert_eq!(page_new_transition(2, "Album", Some("album"), "Album", "other"), Some(PageTransition::Crossfade));
    assert_eq!(page_new_transition(2, "x", None, "Now", "Lyrics & Queue"), Some(PageTransition::OverUp));
    assert!(fullscreen_page_push(1, "A", None, "A", "a"));
    assert!(!fullscreen_page_push(3, "A", Some("a"), "A", "a"));
}

#[test]
fn sidebar_follows_the_page() {
    assert_eq!(update_sidebar_selection("discover"), Some(SidebarButton::Discover));
    assert_eq!(update_sidebar_selection("ToMyPageRadio"), Some(SidebarButton::Radio));
    assert_eq!(update_sidebar_selection("ToMyPageSonglist"), Some(SidebarButton::Songlist));
    assert_eq!(update_sidebar_selection("album"), None);
}

#[test]
fn stack_history_of_pages() {
    let mut h = StackHistory::new();
    assert_eq!(h.entries, vec![("discover".to_string(), String::new())]);
    h.visible_child_changed("discover", "ignored");
    assert_eq!(h.entries.len(), 1);
    h.visible_child_changed("album", "Album");
    h.visible_child_changed("artist", "Artist");
    assert_eq!(h.entries.len(), 3);
    h.visible_child_changed("my", "My");
    assert_eq!(h.entries, vec![("my".to_string(), String::new())]);
    h.visible_child_changed("toplist", "");
    assert_eq!(h.entries, vec![("toplist".to_string(), String::new())]);
}

#[test]
fn search_types() {
    assert_eq!(search_page_kind(SearchType::Lyrics), Some(SearchPageKind::Songs));
    assert_eq!(search_page_kind(SearchType::Album), Some(SearchPageKind::SongLists));
    assert_eq!(search_page_kind(SearchType::Radio), None);
    assert_eq!(empty_search_result(SearchType::Singer), SearchPageKind::Singers);
    assert_eq!(empty_search_result(SearchType::LikeAlbums), SearchPageKind::SongLists);
    assert_eq!(empty_search_result(SearchType::DailyRec), SearchPageKind::Songs);
    assert_eq!(search_endpoint(SearchType::TopPicks), Some((SearchEndpoint::TopSongList, SearchPageKind::SongLists)));
    assert_eq!(search_endpoint(SearchType::Heartbeat), None);
    let choices = search_menu_choices(SearchType::Album);
    assert_eq!(choices.len(), 5);
    assert_eq!(choices[2], (SearchType::Album, true));
    assert!(choices.iter().filter(|c| c.1).count() == 1);
}

#[test]
fn text_field_menus() {
    assert_eq!(entry_menu_sensitivity(true, true, false), (false, true, false, true));
    assert_eq!(entry_menu_sensitivity(false, false, true), (false, false, true, false));
    assert_eq!(editable_selected_text("héllo", Some((4, 1))), Some("éll".to_string()));
    assert_eq!(editable_selected_text("hello", Some((2, 2))), None);
    assert_eq!(editable_selected_text("hello", None), None);
}

#[test]
fn copy_takes_the_selection_or_the_whole_text() {
    assert_eq!(copy_text("héllo", Some((4, 1))), "éll");
    assert_eq!(copy_text("héllo", Some((1, 4))), "éll");
    assert_eq!(copy_text("héllo", Some((2, 2))), "héllo");
    assert_eq!(copy_text("héllo", None), "héllo");
    assert_eq!(copy_text("", None), "");
}

#[test]
fn menus_stay_inside_the_overlay() {
    assert_eq!(point_menu_position(500, 500, 600, 600, 200, 150), (392, 442));
    assert_eq!(point_menu_position(0, -5, 600, 600, 200, 150), (8, 8));
    // an overlay smaller than the menu counts as just large enough
    assert_eq!(point_menu_position(50, 50, 100, 100, 200, 150), (16, 16));
    assert_eq!(anchor_menu_position(Some((300, 100)), 40, 30, 800, 600, 200, 150, false, 12), (140, 138));
    assert_eq!(anchor_menu_position(Some((300, 100)), 40, 30, 800, 600, 200, 150, true, 12), (140, 12));
    assert_eq!(anchor_menu_position(None, 0, 0, 800, 600, 200, 150, true, 20), (580, 432));
    assert_eq!(anchor_menu_position(None, 0, 0, 800, 600, 200, 150, false, 20), (580, 12));
}

#[test]
fn theme_choice() {
    assert_eq!(color_scheme_for_variant("light"), ColorScheme::ForceLight);
    assert_eq!(color_scheme_for_variant("dark"), ColorScheme::ForceDark);
    assert_eq!(color_scheme_for_variant("system"), ColorScheme::Default);
    assert!(!theme_is_dark("light", true));
    assert!(theme_is_dark("dark", false));
    assert!(theme_is_dark("system", true));
    assert!(!theme_is_dark("", false));
    assert_eq!(css(true), DARK_CSS);
    assert_eq!(css(false), LIGHT_CSS);
    assert_ne!(DARK_CSS, LIGHT_CSS);
}

fn defined_colors(sheet: &str) -> Vec<String> {
    let mut names: Vec<String> = sheet
        .lines()
        .filter_map(|l| l.trim().strip_prefix("@define-color "))
        .map(|rest| rest.split_whitespace().next().unwrap().to_string())
        .collect();
    names.sort();
    names
}

fn used_colors(sheet: &str) -> Vec<String> {
    let mut used = Vec::new();
    for (i, _) in sheet.match_indices("@app_") {
        let name: String = sheet[i + 1..].chars().take_while(|c| c.is_ascii_alphanumeric() || *c == '_').collect();
        used.push(name);
    }
    used
}

#[test]
fn both_stylesheets_define_the_same_colors_and_fonts() {
    let dark = defined_colors(css(true));
    let light = defined_colors(css(false));
    assert_eq!(dark.len(), 24);
    assert_eq!(dark, light);
    for sheet in [css(true), css(false)] {
        let defined = defined_colors(sheet);
        for name in used_colors(sheet) {
            assert!(defined.contains(&name), "{name} is not defined");
        }
        let start = sheet.find(".app-window, .app-root, .app-shell").unwrap();
        let rule = &sheet[start..start + sheet[start..].find('}').unwrap()];
        let font = rule.lines().find_map(|l| l.trim().strip_prefix("font-family: ")).unwrap();
        assert!(font.starts_with("\"Noto Sans CJK SC\""));
    }
}

#[test]
fn text_helpers() {
    assert_eq!(parse_u64(&chars("0012")), Some(12));
    assert_eq!(parse_u64(&chars("+7")), Some(7));
    assert_eq!(parse_u64(&chars("18446744073709551615")), Some(u64::MAX));
    assert_eq!(parse_u64(&chars("18446744073709551616")), None);
    assert_eq!(parse_u64(&chars("")), None);
    assert_eq!(parse_u64(&chars("+")), None);
    assert_eq!(parse_u64(&chars("-1")), None);
    assert_eq!(u64_to_string(0), "0");
    assert_eq!(u64_to_string(u64::MAX), "18446744073709551615");
    assert_eq!(i64_to_string(i64::MIN), "-9223372036854775808");
    assert_eq!(i64_to_string(-5), "-5");
    assert!(eq_ignore_ascii_case(&chars("TrUe"), &chars("true")));
    assert!(!eq_ignore_ascii_case(&chars("É"), &chars("é")));
    assert!(contains(&chars("abc code 250"), &chars("code 250")));
    assert!(contains(&chars("abc"), &chars("")));
    assert!(!contains(&chars("ab"), &chars("abc")));
    assert_eq!(trim(&chars("\u{3000} x y \t")), chars("x y"));
    assert!(str_eq("a", "a"));
    assert!(!str_eq("a", "b"));
}
