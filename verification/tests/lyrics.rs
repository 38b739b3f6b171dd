use netease_cloud_music_linux::lyrics::{
    fix_abnormal_timestamp, get_playing_indexes, lrc_fraction_to_millis, lyric_cache_file_name,
    lyric_cache_text, lyrics_from_cache, merge_lyrics_with_translation, parse_lrc_line,
    parse_lrc_timestamp, split_text_lines, tag_digit, translation_cache_file_name,
};

fn strings(v: &[&str]) -> Vec<String> {
    v.iter().map(|s| s.to_string()).collect()
}

fn timed(v: &[(u64, &str)]) -> Vec<(u64, String)> {
    v.iter().map(|(t, s)| (*t, s.to_string())).collect()
}

#[test]
fn fraction_is_padded_to_milliseconds() {
    assert_eq!(lrc_fraction_to_millis("5"), 500);
    assert_eq!(lrc_fraction_to_millis("12"), 120);
    assert_eq!(lrc_fraction_to_millis("123"), 123);
    assert_eq!(lrc_fraction_to_millis("1234"), 123);
    assert_eq!(lrc_fraction_to_millis(""), 0);
}

#[test]
fn timestamp_of_first_tag() {
    assert_eq!(parse_lrc_timestamp("[01:02.5]hello"), Some(62_500));
    assert_eq!(parse_lrc_timestamp("[00:01.123]x"), Some(1_123));
    assert_eq!(parse_lrc_timestamp("[00:01:50]x"), Some(1_500));
    assert_eq!(parse_lrc_timestamp("[1:2]x"), Some(62_000));
    assert_eq!(parse_lrc_timestamp("intro [00:03.00]late tag"), Some(3_000));
    assert_eq!(parse_lrc_timestamp("[00:01.00][00:09.00]two tags"), Some(1_000));
}

#[test]
fn lines_without_timestamp_have_none() {
    assert_eq!(parse_lrc_timestamp("[ar:Someone]"), None);
    assert_eq!(parse_lrc_timestamp("plain text"), None);
    assert_eq!(parse_lrc_timestamp(""), None);
    assert_eq!(parse_lrc_timestamp("[00:123]"), None);
    assert_eq!(parse_lrc_timestamp("[00:01.1234]"), None);
}

#[test]
fn minutes_too_large_for_u64_give_none() {
    assert_eq!(parse_lrc_timestamp("[99999999999999999999:00]x"), None);
}

#[test]
fn digits_beyond_ascii_match_but_do_not_parse() {
    // U+0661 and U+0662 are Arabic-Indic digits: the tag matches `\d`, so it
    // is the first tag, but its minutes do not read as a number.
    assert!(tag_digit('\u{0661}'));
    assert!(tag_digit('7'));
    assert!(!tag_digit('a'));
    assert_eq!(parse_lrc_timestamp("[\u{0661}:\u{0662}][00:03]x"), None);
    // a fraction that does not read as a number counts as 0
    assert_eq!(parse_lrc_timestamp("[00:01.\u{0661}]x"), Some(1_000));
}

#[test]
fn line_text_loses_every_tag_and_ends_with_break() {
    assert_eq!(parse_lrc_line("[00:01.00]hello"), Some((1_000, "hello\n".to_string())));
    assert_eq!(
        parse_lrc_line("[00:01.00][00:02.00]hi [00:03]there"),
        Some((1_000, "hi there\n".to_string()))
    );
    assert_eq!(parse_lrc_line("[00:05]"), Some((5_000, "\n".to_string())));
    assert_eq!(parse_lrc_line("no time"), None);
}

#[test]
fn translation_follows_its_line() {
    let lyrics = strings(&["[ti:Song]", "[00:01.00]a", "[00:02.00]b", "[00:03.00]c"]);
    let translations = strings(&["[00:02.00]B", "[00:01.00]A", "[00:01.00]A2", "junk"]);
    let merged = merge_lyrics_with_translation(&lyrics, &translations);
    assert_eq!(
        merged,
        timed(&[(1_000, "a\n"), (1_000, "A\n"), (1_000, "A2\n"), (2_000, "b\n"), (2_000, "B\n"), (3_000, "c\n")])
    );
}

#[test]
fn merge_without_translation_keeps_timed_lines() {
    let lyrics = strings(&["[00:01.00]a", "x", "[00:00.50]b"]);
    let merged = merge_lyrics_with_translation(&lyrics, &Vec::new());
    assert_eq!(merged, timed(&[(1_000, "a\n"), (500, "b\n")]));
}

#[test]
fn abnormal_timestamp_is_rewritten() {
    assert_eq!(fix_abnormal_timestamp("[00:11:22]abc"), "[00:11.22]abc");
    assert_eq!(fix_abnormal_timestamp("[00:11.22]abc"), "[00:11.22]abc");
    assert_eq!(fix_abnormal_timestamp("x[00:11:22]"), "x[00:11:22]");
    assert_eq!(fix_abnormal_timestamp("[1:2:3][4:5:6]"), "[1:2.3][4:5:6]");
    assert_eq!(fix_abnormal_timestamp(""), "");
}

#[test]
fn cache_text_joins_fixed_lines() {
    let lines = strings(&["[00:11:22]x", "y", ""]);
    assert_eq!(lyric_cache_text(&lines), "[00:11.22]x\ny\n");
    assert_eq!(lyric_cache_text(&Vec::new()), "");
}

#[test]
fn split_then_cache_gives_the_text_back() {
    let text = "[00:01.00]a\n\n[00:02.00]b\n";
    let lines = split_text_lines(text);
    assert_eq!(lines, strings(&["[00:01.00]a", "", "[00:02.00]b", ""]));
    assert_eq!(lyric_cache_text(&lines), text);
    assert_eq!(split_text_lines(""), strings(&[""]));
}

#[test]
fn cache_file_names() {
    assert_eq!(lyric_cache_file_name("AC/DC Song", "Singer", "Album"), "AC／DC Song-Singer-Album.lrc");
    assert_eq!(translation_cache_file_name(42), "42.tlrc");
    assert_eq!(translation_cache_file_name(0), "0.tlrc");
}

#[test]
fn cached_lyric_is_merged_with_cached_translation() {
    let r = lyrics_from_cache("[00:01.00]a\n[00:02.00]b", Some("[00:02.00]B"));
    assert_eq!(r, timed(&[(1_000, "a\n"), (2_000, "b\n"), (2_000, "B\n")]));
    let r = lyrics_from_cache("[00:01.00]a\n[00:02.00]b", None);
    assert_eq!(r, timed(&[(1_000, "a\n"), (2_000, "b\n")]));
}

#[test]
fn playing_range_covers_a_line_and_its_translation() {
    let ls = timed(&[(0, "a"), (1_000, "b"), (1_000, "B"), (3_000, "c")]);
    assert_eq!(get_playing_indexes(&ls, 500), Some((0, 0)));
    assert_eq!(get_playing_indexes(&ls, 1_000), Some((1, 2)));
    assert_eq!(get_playing_indexes(&ls, 2_999), Some((1, 2)));
    assert_eq!(get_playing_indexes(&ls, 3_000), Some((3, 3)));
    assert_eq!(get_playing_indexes(&ls, u64::MAX), None);
}

#[test]
fn nothing_plays_before_the_first_line() {
    let ls = timed(&[(100, "a"), (200, "b")]);
    assert_eq!(get_playing_indexes(&ls, 50), None);
    assert_eq!(get_playing_indexes(&Vec::new(), 50), None);
}

#[test]
fn cached_lyric_reads_back_as_first_shown() {
    let lyrics = strings(&["[ti:x]", "[00:01:50]a", "[00:02.00]b [00:03:1]", "[1:2:3]c"]);
    let translations = strings(&["[00:01:50]A", "[1:2:3]C"]);
    let shown = merge_lyrics_with_translation(&lyrics, &translations);
    let cached = lyrics_from_cache(&lyric_cache_text(&lyrics), Some(&lyric_cache_text(&translations)));
    assert_eq!(cached, shown);
    assert_eq!(shown[0], (1_500, "a\n".to_string()));
    assert_eq!(shown[1], (1_500, "A\n".to_string()));
    assert_eq!(shown[3], (62_300, "c\n".to_string()));
    // without a translation none is cached
    let shown = merge_lyrics_with_translation(&lyrics, &Vec::new());
    assert_eq!(lyrics_from_cache(&lyric_cache_text(&lyrics), None), shown);
}

#[test]
fn an_overlong_leading_tag_changes_the_cached_text() {
    // the leading [m:s:f] is no timestamp (three digits of seconds), but the
    // line holds one after it: its text keeps ':' when shown and '.' when cached
    let lyrics = strings(&["[00:123:45][00:01]x"]);
    let shown = merge_lyrics_with_translation(&lyrics, &Vec::new());
    assert_eq!(shown, timed(&[(1_000, "[00:123:45]x\n")]));
    let cached = lyrics_from_cache(&lyric_cache_text(&lyrics), None);
    assert_eq!(cached, timed(&[(1_000, "[00:123.45]x\n")]));
}
