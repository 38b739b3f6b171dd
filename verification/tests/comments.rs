use netease_cloud_music_linux::comments::{
    first_u64_child, missing_comment_reply_count_ids, parse_comment, parse_comment_replies,
    parse_comment_reply, parse_comment_reply_count, parse_comments, parse_sent_comment_reply,
    parse_song_comments, playlist_track_ids, should_skip_comment_write_fallback,
    song_comment_thread_id, u64_vec_contains, SongComments,
};
use netease_cloud_music_linux::json::{
    child_bool, child_u64, json_get, string_object_to_json, value_as_bool, value_as_string,
    value_as_u64, value_child_string, Json, JsonNumber,
};

fn obj(v: Vec<(&str, Json)>) -> Json {
    Json::Object(v.into_iter().map(|(k, x)| (k.to_string(), x)).collect())
}

fn num(n: u64) -> Json {
    Json::Number(JsonNumber::from_u64(n))
}

fn s(t: &str) -> Json {
    Json::Str(t.to_string())
}

fn user(id: u64, nickname: &str) -> Json {
    obj(vec![("userId", num(id)), ("nickname", s(nickname)), ("avatarUrl", s("http://a/b.jpg"))])
}

#[test]
fn lenient_numbers_strings_and_booleans() {
    assert_eq!(value_as_u64(&num(7)), Some(7));
    assert_eq!(value_as_u64(&s("42")), Some(42));
    assert_eq!(value_as_u64(&s("+42")), Some(42));
    assert_eq!(value_as_u64(&s(" 42")), None);
    assert_eq!(value_as_u64(&Json::Number(JsonNumber::from_i64(-3))), None);
    assert_eq!(value_as_u64(&Json::Number(JsonNumber::fractional())), None);
    assert_eq!(value_as_string(&s("x")), "x");
    assert_eq!(value_as_string(&num(12)), "12");
    assert_eq!(value_as_string(&Json::Number(JsonNumber::from_i64(-12))), "-12");
    assert_eq!(value_as_string(&Json::Null), "");
    assert!(value_as_bool(&Json::Bool(true)));
    assert!(value_as_bool(&num(1)));
    assert!(!value_as_bool(&num(0)));
    assert!(value_as_bool(&s("TRUE")));
    assert!(value_as_bool(&s("1")));
    assert!(value_as_bool(&s("like")));
    assert!(!value_as_bool(&s("yes")));
    assert!(!value_as_bool(&Json::Null));
}

#[test]
fn object_members_are_found_at_their_first_occurrence() {
    let v = obj(vec![("a", num(1)), ("a", num(2)), ("b", s("3"))]);
    assert_eq!(child_u64(&v, "a"), Some(1));
    assert_eq!(child_u64(&v, "b"), Some(3));
    assert_eq!(child_u64(&v, "c"), None);
    assert!(json_get(&num(1), "a").is_none());
    assert_eq!(value_child_string(&v, "b"), "3");
    assert_eq!(value_child_string(&v, "c"), "");
    assert!(child_bool(&v, "a"));
    assert!(!child_bool(&v, "c"));
}

#[test]
fn string_objects_are_written_as_json() {
    let p = vec![("k".to_string(), "v".to_string()), ("tab".to_string(), "\t".to_string())];
    assert_eq!(string_object_to_json(&p), "{\"k\":\"v\",\"tab\":\"\\t\"}");
    assert_eq!(string_object_to_json(&Vec::new()), "{}");
}

#[test]
fn reply_is_read_from_its_object() {
    let v = obj(vec![
        ("commentId", num(11)),
        ("user", user(5, "Ann")),
        ("beReplied", Json::Array(vec![obj(vec![("content", s("first")), ("user", user(6, "Bob"))])])),
        ("content", s("hi")),
        ("timeStr", s("10:00")),
        ("liked", s("true")),
        ("likedCount", s("3")),
    ]);
    let r = parse_comment_reply(&v);
    assert_eq!(r.comment_id, 11);
    assert_eq!(r.user_id, 5);
    assert_eq!(r.nickname, "Ann");
    assert_eq!(r.avatar_url, "http://a/b.jpg");
    assert_eq!(r.replied_to_nickname, "Bob");
    assert_eq!(r.replied_to_content, "first");
    assert_eq!(r.content, "hi");
    assert_eq!(r.time, "10:00");
    assert!(r.liked);
    assert_eq!(r.liked_count, 3);
}

#[test]
fn reply_identifier_falls_back_on_replied_identifier() {
    let r = parse_comment_reply(&obj(vec![("beRepliedCommentId", num(9))]));
    assert_eq!(r.comment_id, 9);
    // a present but unreadable commentId does not fall back
    let r = parse_comment_reply(&obj(vec![("commentId", s("x")), ("beRepliedCommentId", num(9))]));
    assert_eq!(r.comment_id, 0);
    let r = parse_comment_reply(&Json::Null);
    assert_eq!(r.comment_id, 0);
    assert_eq!(r.nickname, "");
    assert!(!r.liked);
}

#[test]
fn sent_reply_is_read_from_comment_or_data() {
    let c = obj(vec![("commentId", num(3)), ("content", s("ok"))]);
    let r = parse_sent_comment_reply(&obj(vec![("comment", c)])).unwrap();
    assert_eq!((r.comment_id, r.content.as_str()), (3, "ok"));
    let c = obj(vec![("commentId", num(4)), ("content", s("ok"))]);
    let r = parse_sent_comment_reply(&obj(vec![("data", obj(vec![("comment", c)]))])).unwrap();
    assert_eq!(r.comment_id, 4);
    let empty = obj(vec![("commentId", num(4)), ("content", s(""))]);
    assert!(parse_sent_comment_reply(&obj(vec![("comment", empty)])).is_none());
    let no_id = obj(vec![("content", s("x"))]);
    assert!(parse_sent_comment_reply(&obj(vec![("comment", no_id)])).is_none());
    assert!(parse_sent_comment_reply(&obj(vec![("code", num(200))])).is_none());
}

#[test]
fn reply_count_members_in_order() {
    let keys = ["a", "b"];
    assert_eq!(first_u64_child(&obj(vec![("b", num(2)), ("a", s("x"))]), &keys), Some(2));
    assert_eq!(first_u64_child(&obj(vec![("a", num(1)), ("b", num(2))]), &keys), Some(1));
    assert_eq!(first_u64_child(&Json::Null, &keys), None);

    assert_eq!(parse_comment_reply_count(&obj(vec![("replyCount", num(4))]), 0), 4);
    assert_eq!(parse_comment_reply_count(&obj(vec![("totalCount", s("6")), ("replyCount", s("?"))]), 0), 6);
    let floor = obj(vec![("showFloorComment", obj(vec![("replyCount", num(8))]))]);
    assert_eq!(parse_comment_reply_count(&floor, 0), 8);
    let floor = obj(vec![("showFloorComment", obj(vec![("comments", Json::Array(vec![Json::Null, Json::Null]))]))]);
    assert_eq!(parse_comment_reply_count(&floor, 0), 2);
    let floor = obj(vec![("showFloorComment", obj(vec![]))]);
    assert_eq!(parse_comment_reply_count(&floor, 0), 1);
    assert_eq!(parse_comment_reply_count(&obj(vec![]), 0), 0);
    // never below the fallback
    assert_eq!(parse_comment_reply_count(&obj(vec![("replyCount", num(1))]), 5), 5);
    assert_eq!(parse_comment_reply_count(&obj(vec![]), 3), 3);
}

fn comment(id: u64, content: &str) -> Json {
    obj(vec![
        ("commentId", num(id)),
        ("user", user(id * 10, "U")),
        ("content", s(content)),
        ("likedCount", num(id)),
        ("liked", Json::Bool(id % 2 == 0)),
        ("beReplied", Json::Array(vec![obj(vec![("beRepliedCommentId", num(1)), ("content", s("orig"))])])),
    ])
}

#[test]
fn comment_is_read_with_its_replies() {
    let c = parse_comment(&comment(2, "nice"));
    assert_eq!(c.comment_id, 2);
    assert_eq!(c.user_id, 20);
    assert_eq!(c.content, "nice");
    assert_eq!(c.liked_count, 2);
    assert!(c.liked);
    assert_eq!(c.reply_count, 0);
    assert_eq!(c.replied.len(), 1);
    assert_eq!(c.replied[0].comment_id, 1);
    assert_eq!(c.replied[0].content, "orig");
}

#[test]
fn comment_pages_are_read() {
    let page = obj(vec![
        ("total", num(100)),
        ("hotComments", Json::Array(vec![comment(1, "h")])),
        ("comments", Json::Array(vec![comment(2, "a"), comment(3, "b")])),
    ]);
    let p = parse_song_comments(&page);
    assert_eq!(p.total, 100);
    assert_eq!(p.hot_comments.len(), 1);
    assert_eq!(p.comments.iter().map(|c| c.comment_id).collect::<Vec<_>>(), vec![2, 3]);
    let p = parse_song_comments(&obj(vec![("comments", s("not a list"))]));
    assert_eq!((p.total, p.hot_comments.len(), p.comments.len()), (0, 0, 0));
    assert!(parse_comments(&Json::Null, "comments").is_empty());
}

#[test]
fn replies_without_content_are_dropped() {
    let replies = Json::Array(vec![
        obj(vec![("commentId", num(1)), ("content", s("a"))]),
        obj(vec![("commentId", num(2)), ("content", s(""))]),
        obj(vec![("commentId", num(3)), ("content", s("c"))]),
    ]);
    let r = parse_comment_replies(&obj(vec![("data", obj(vec![("comments", replies), ("totalCount", num(9))]))]));
    assert_eq!(r.total, 9);
    assert_eq!(r.replies.iter().map(|x| x.comment_id).collect::<Vec<_>>(), vec![1, 3]);

    let replies = Json::Array(vec![obj(vec![("commentId", num(1)), ("content", s("a"))])]);
    let r = parse_comment_replies(&obj(vec![("comments", replies), ("total", s("x"))]));
    assert_eq!(r.total, 1);
    let r = parse_comment_replies(&Json::Null);
    assert_eq!((r.total, r.replies.len()), (0, 0));
}

#[test]
fn playlist_track_identifiers() {
    let v = obj(vec![(
        "playlist",
        obj(vec![(
            "trackIds",
            Json::Array(vec![obj(vec![("id", num(5))]), obj(vec![("x", num(1))]), obj(vec![("id", s("7"))])]),
        )]),
    )]);
    assert_eq!(playlist_track_ids(&v), vec![5, 7]);
    assert_eq!(playlist_track_ids(&Json::Null), Vec::<u64>::new());
}

#[test]
fn comments_without_reply_count_are_listed_once() {
    let page = parse_song_comments(&obj(vec![
        (
            "hotComments",
            Json::Array(vec![
                obj(vec![("commentId", num(1))]),
                obj(vec![("commentId", num(2)), ("replyCount", num(3))]),
            ]),
        ),
        (
            "comments",
            Json::Array(vec![obj(vec![("commentId", num(1))]), obj(vec![("commentId", num(0))]), obj(vec![("commentId", num(4))])]),
        ),
    ]));
    assert_eq!(missing_comment_reply_count_ids(&page), vec![1, 4]);
    let empty = SongComments { total: 0, hot_comments: vec![], comments: vec![] };
    assert!(missing_comment_reply_count_ids(&empty).is_empty());
}

#[test]
fn small_helpers() {
    assert!(u64_vec_contains(&vec![1, 2, 3], 2));
    assert!(!u64_vec_contains(&vec![], 2));
    assert_eq!(song_comment_thread_id(123), "R_SO_4_123");
    assert!(should_skip_comment_write_fallback("网易云接口返回 code 250: 操作频繁"));
    assert!(!should_skip_comment_write_fallback("network error"));
}
