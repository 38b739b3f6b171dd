use netease_cloud_music_linux::client::{
    chars_less, comment_like_path, comment_replies_params, comment_target_params, completed_playlist_order,
    first_cookie_values, legacy_comments_url, missing_track_ids, playlist_detail_url, reply_comment_params,
    song_comments_params, song_comments_path, sort_pairs_by_name, weapi_url, NcmClient,
};

fn pairs(v: &[(&str, &str)]) -> Vec<(String, String)> {
    v.iter().map(|(a, b)| (a.to_string(), b.to_string())).collect()
}

fn chars(s: &str) -> Vec<char> {
    s.chars().collect()
}

#[test]
fn api_rates() {
    assert_eq!(NcmClient::get_api_rate(0), 128_000);
    assert_eq!(NcmClient::get_api_rate(1), 192_000);
    assert_eq!(NcmClient::get_api_rate(2), 320_000);
    assert_eq!(NcmClient::get_api_rate(3), 999_000);
    assert_eq!(NcmClient::get_api_rate(4), 1_900_000);
    assert_eq!(NcmClient::get_api_rate(5), 320_000);
    assert_eq!(NcmClient::get_api_rate(u32::MAX), 320_000);
}

#[test]
fn code_point_order() {
    assert!(chars_less(&chars("Beta"), &chars("alpha")));
    assert!(chars_less(&chars("a"), &chars("ab")));
    assert!(!chars_less(&chars("ab"), &chars("ab")));
    assert!(!chars_less(&chars("b"), &chars("ab")));
    assert!(chars_less(&chars(""), &chars("x")));
}

#[test]
fn cookies_keep_their_first_value_without_fixed_ones() {
    let c = pairs(&[("MUSIC_U", "u1"), ("os", "x"), ("a", "1"), ("MUSIC_U", "u2"), ("appver", "y"), ("__remember_me", "z")]);
    assert_eq!(first_cookie_values(&c), pairs(&[("MUSIC_U", "u1"), ("a", "1")]));
}

#[test]
fn pairs_sort_by_name_stably() {
    let p = sort_pairs_by_name(pairs(&[("zeta", "1"), ("alpha", "2"), ("Beta", "3"), ("alpha", "4")]));
    assert_eq!(p, pairs(&[("Beta", "3"), ("alpha", "2"), ("alpha", "4"), ("zeta", "1")]));
}

#[test]
fn cookie_header_orders_priority_cookies_then_names() {
    let root = pairs(&[("MUSIC_U", "u1"), ("zeta", "z"), ("os", "ignored"), ("__csrf", "c")]);
    let other = pairs(&[("alpha", "a"), ("MUSIC_U", "u2"), ("Beta", "b"), ("NMTID", "n")]);
    let client = NcmClient { cookies_by_url: vec![root, other] };
    assert_eq!(
        client.cookie_header("pc"),
        "os=pc; appver=2.7.1.198277; __remember_me=true; MUSIC_U=u1; __csrf=c; NMTID=n; Beta=b; alpha=a; zeta=z"
    );
    assert_eq!(NcmClient::new().cookie_header("android"), "os=android; appver=2.7.1.198277; __remember_me=true");
}

#[test]
fn csrf_token_is_the_first_csrf_cookie_of_the_root() {
    let client = NcmClient {
        cookies_by_url: vec![pairs(&[("a", "1"), ("__csrf", "t1"), ("__csrf", "t2")]), pairs(&[("__csrf", "t3")])],
    };
    assert_eq!(client.csrf_token(), "t1");
    let client = NcmClient { cookies_by_url: vec![pairs(&[("a", "1")]), pairs(&[("__csrf", "t3")])] };
    assert_eq!(client.csrf_token(), "");
    assert_eq!(NcmClient::new().csrf_token(), "");
}

#[test]
fn comment_request_parameters() {
    let p = song_comments_params(5, 0);
    assert_eq!(
        p,
        pairs(&[
            ("rid", "R_SO_4_5"),
            ("threadId", "R_SO_4_5"),
            ("limit", "20"),
            ("offset", "0"),
            ("beforeTime", "0"),
            ("commentId", "0"),
            ("showInner", "true"),
            ("markReplied", "true"),
            ("forceFlatComment", "false"),
            ("compareUserLocation", "false"),
            ("total", "true"),
        ])
    );
    let p = song_comments_params(5, 40);
    assert_eq!(p[3], ("offset".to_string(), "40".to_string()));
    assert_eq!(p[10], ("total".to_string(), "false".to_string()));
    assert_eq!(song_comments_path(77), "/weapi/v1/resource/comments/R_SO_4_77");
    assert_eq!(comment_target_params(5, 9), pairs(&[("threadId", "R_SO_4_5"), ("commentId", "9")]));
    assert_eq!(comment_like_path(true), "/weapi/v1/comment/like");
    assert_eq!(comment_like_path(false), "/weapi/v1/comment/unlike");
    assert_eq!(
        reply_comment_params(5, 9, "hi"),
        pairs(&[("threadId", "R_SO_4_5"), ("commentId", "9"), ("content", "hi")])
    );
    assert_eq!(
        comment_replies_params(5, 9, 100),
        pairs(&[("parentCommentId", "9"), ("threadId", "R_SO_4_5"), ("time", "-1"), ("limit", "100")])
    );
}

#[test]
fn request_addresses() {
    assert_eq!(weapi_url("/weapi/x", "tok"), "https://music.163.com/weapi/x?csrf_token=tok");
    assert_eq!(
        legacy_comments_url(12, 40),
        "https://music.163.com/api/v1/resource/comments/R_SO_4_12?limit=20&offset=40"
    );
    assert_eq!(
        playlist_detail_url(3),
        "https://music.163.com/api/v6/playlist/detail?id=3&offset=0&total=true&limit=100000&n=100000&s=8"
    );
}

#[test]
fn completed_playlist_follows_its_tracks() {
    // fetched: detail songs 3, 1 then batch songs 2, 1 (a later copy of 1 wins)
    let songs = vec![3, 1, 2, 1];
    assert_eq!(completed_playlist_order(&vec![1, 2, 9, 3, 1], &songs), vec![3, 2, 0]);
    assert_eq!(completed_playlist_order(&vec![], &songs), vec![0, 1, 2, 3]);
    assert_eq!(missing_track_ids(&vec![1, 2, 9, 3], &vec![3, 1]), vec![2, 9]);
    assert_eq!(missing_track_ids(&vec![], &vec![3, 1]), Vec::<u64>::new());
}
