//! Song comments as the web API returns them: the comment records, how they
//! are read out of a JSON response, and the identifiers and parameters the
//! comment requests are made with.
use vstd::prelude::*;
use crate::json::{Json, spec_get, spec_get_or_null, spec_value_as_u64, spec_value_as_bool, spec_value_child_string, spec_as_array, is_null, json_get, json_is_null, value_as_u64, child_u64, child_bool, value_child_string};
use crate::text;

verus! {

/// A reply to a comment (or a comment shown as a reply).
#[derive(Debug, Clone)]
pub struct CommentReply {
    pub comment_id: u64,
    pub user_id: u64,
    pub nickname: String,
    pub avatar_url: String,
    pub replied_to_nickname: String,
    pub replied_to_content: String,
    pub content: String,
    pub time: String,
    pub liked: bool,
    pub liked_count: u64,
}

/// The plain value of a reply.
pub struct CommentReplyView {
    pub comment_id: u64,
    pub user_id: u64,
    pub nickname: Seq<char>,
    pub avatar_url: Seq<char>,
    pub replied_to_nickname: Seq<char>,
    pub replied_to_content: Seq<char>,
    pub content: Seq<char>,
    pub time: Seq<char>,
    pub liked: bool,
    pub liked_count: u64,
}

impl View for CommentReply {
    type V = CommentReplyView;

    open spec fn view(&self) -> CommentReplyView {
        CommentReplyView {
            comment_id: self.comment_id,
            user_id: self.user_id,
            nickname: self.nickname@,
            avatar_url: self.avatar_url@,
            replied_to_nickname: self.replied_to_nickname@,
            replied_to_content: self.replied_to_content@,
            content: self.content@,
            time: self.time@,
            liked: self.liked,
            liked_count: self.liked_count,
        }
    }
}

/// A top-level comment of a song.
#[derive(Debug, Clone)]
pub struct SongComment {
    pub comment_id: u64,
    pub user_id: u64,
    pub nickname: String,
    pub avatar_url: String,
    pub content: String,
    pub time: String,
    pub liked: bool,
    pub liked_count: u64,
    pub reply_count: u64,
    pub replied: Vec<CommentReply>,
}

/// The plain value of a comment.
pub struct SongCommentView {
    pub comment_id: u64,
    pub user_id: u64,
    pub nickname: Seq<char>,
    pub avatar_url: Seq<char>,
    pub content: Seq<char>,
    pub time: Seq<char>,
    pub liked: bool,
    pub liked_count: u64,
    pub reply_count: u64,
    pub replied: Seq<CommentReplyView>,
}

/// The plain values of replies.
pub open spec fn replies_view(v: Seq<CommentReply>) -> Seq<CommentReplyView> {
    v.map_values(|r: CommentReply| r@)
}

impl View for SongComment {
    type V = SongCommentView;

    open spec fn view(&self) -> SongCommentView {
        SongCommentView {
            comment_id: self.comment_id,
            user_id: self.user_id,
            nickname: self.nickname@,
            avatar_url: self.avatar_url@,
            content: self.content@,
            time: self.time@,
            liked: self.liked,
            liked_count: self.liked_count,
            reply_count: self.reply_count,
            replied: replies_view(self.replied@),
        }
    }
}

/// The plain values of comments.
pub open spec fn comments_view(v: Seq<SongComment>) -> Seq<SongCommentView> {
    v.map_values(|c: SongComment| c@)
}

/// A page of a song's comments.
#[derive(Debug, Clone)]
pub struct SongComments {
    pub total: u64,
    pub hot_comments: Vec<SongComment>,
    pub comments: Vec<SongComment>,
}

/// The replies under a comment.
#[derive(Debug, Clone)]
pub struct SongCommentReplies {
    pub total: u64,
    pub replies: Vec<CommentReply>,
}

/// The number of a member that reads as an unsigned number (directly or
/// from a string).
pub open spec fn spec_child_u64(v: Json, key: Seq<char>) -> Option<u64> {
    match spec_get(v, key) {
        Some(x) => spec_value_as_u64(x),
        None => None,
    }
}

/// A number or 0 when there is none.
pub open spec fn or_zero(n: Option<u64>) -> u64 {
    match n {
        Some(v) => v,
        None => 0,
    }
}

/// The lenient boolean of a member; false when it is missing.
pub open spec fn spec_child_bool(v: Json, key: Seq<char>) -> bool {
    match spec_get(v, key) {
        Some(x) => spec_value_as_bool(x),
        None => false,
    }
}

/// The first element of an array member, or null.
pub open spec fn spec_first_of_array(v: Json, key: Seq<char>) -> Json {
    match spec_get(v, key) {
        Some(Json::Array(items)) => if items@.len() > 0 { items@[0] } else { Json::Null },
        _ => Json::Null,
    }
}

/// The identifier of a reply: `commentId` when present, otherwise
/// `beRepliedCommentId`; 0 when the member present does not read as a number.
pub open spec fn spec_reply_comment_id(v: Json) -> u64 {
    match spec_get(v, "commentId"@) {
        Some(x) => or_zero(spec_value_as_u64(x)),
        None => or_zero(spec_child_u64(v, "beRepliedCommentId"@)),
    }
}

/// A reply read from its JSON object.
pub open spec fn spec_parse_comment_reply(v: Json) -> CommentReplyView {
    let user = spec_get_or_null(v, "user"@);
    let replied_to = spec_first_of_array(v, "beReplied"@);
    let replied_to_user = spec_get_or_null(replied_to, "user"@);
    CommentReplyView {
        comment_id: spec_reply_comment_id(v),
        user_id: or_zero(spec_child_u64(user, "userId"@)),
        nickname: spec_value_child_string(user, "nickname"@),
        avatar_url: spec_value_child_string(user, "avatarUrl"@),
        replied_to_nickname: spec_value_child_string(replied_to_user, "nickname"@),
        replied_to_content: spec_value_child_string(replied_to, "content"@),
        content: spec_value_child_string(v, "content"@),
        time: spec_value_child_string(v, "timeStr"@),
        liked: spec_child_bool(v, "liked"@),
        liked_count: or_zero(spec_child_u64(v, "likedCount"@)),
    }
}

/// The member under a key, or null.
pub fn json_get_or_null<'a>(v: &'a Json, key: &str, null: &'a Json) -> (r: &'a Json)
    requires
        *null == Json::Null,
    ensures
        *r == spec_get_or_null(*v, key@),
{
    match json_get(v, key) {
        Some(x) => x,
        None => null,
    }
}

/// The first element of an array member, or null.
fn first_of_array<'a>(v: &'a Json, key: &str, null: &'a Json) -> (r: &'a Json)
    requires
        *null == Json::Null,
    ensures
        *r == spec_first_of_array(*v, key@),
{
    match json_get(v, key) {
        Some(Json::Array(items)) => {
            if items.len() > 0 {
                &items[0]
            } else {
                null
            }
        },
        _ => null,
    }
}

/// Reads a reply out of its JSON object.
pub fn parse_comment_reply(value: &Json) -> (r: CommentReply)
    ensures
        r@ == spec_parse_comment_reply(*value),
{
    let null = Json::Null;
    let user = json_get_or_null(value, "user", &null);
    let replied_to = first_of_array(value, "beReplied", &null);
    let replied_to_user = json_get_or_null(replied_to, "user", &null);
    let comment_id: u64 = match json_get(value, "commentId") {
        Some(x) => match value_as_u64(x) {
            Some(n) => n,
            None => 0,
        },
        None => match child_u64(value, "beRepliedCommentId") {
            Some(n) => n,
            None => 0,
        },
    };
    let user_id: u64 = match child_u64(user, "userId") {
        Some(n) => n,
        None => 0,
    };
    let liked_count: u64 = match child_u64(value, "likedCount") {
        Some(n) => n,
        None => 0,
    };
    CommentReply {
        comment_id,
        user_id,
        nickname: value_child_string(user, "nickname"),
        avatar_url: value_child_string(user, "avatarUrl"),
        replied_to_nickname: value_child_string(replied_to_user, "nickname"),
        replied_to_content: value_child_string(replied_to, "content"),
        content: value_child_string(value, "content"),
        time: value_child_string(value, "timeStr"),
        liked: child_bool(value, "liked"),
        liked_count,
    }
}

/// The comment of a reply-sent response: `comment`, or `data.comment`.
pub open spec fn spec_sent_comment(v: Json) -> Option<Json> {
    match spec_get(v, "comment"@) {
        Some(c) => Some(c),
        None => match spec_get(v, "data"@) {
            Some(d) => spec_get(d, "comment"@),
            None => None,
        },
    }
}

/// The reply a reply-sent response carries, when it has content and an
/// identifier.
pub open spec fn spec_parse_sent_comment_reply(v: Json) -> Option<CommentReplyView> {
    match spec_sent_comment(v) {
        Some(c) => {
            let r = spec_parse_comment_reply(c);
            if r.content.len() > 0 && r.comment_id != 0 { Some(r) } else { None }
        },
        None => None,
    }
}

/// Reads the reply out of the response to sending one.
pub fn parse_sent_comment_reply(value: &Json) -> (r: Option<CommentReply>)
    ensures
        match r {
            Some(x) => spec_parse_sent_comment_reply(*value) == Some(x@),
            None => spec_parse_sent_comment_reply(*value) is None,
        },
{
    let comment = match json_get(value, "comment") {
        Some(c) => c,
        None => match json_get(value, "data") {
            Some(d) => match json_get(d, "comment") {
                Some(c) => c,
                None => return None,
            },
            None => return None,
        },
    };
    let reply = parse_comment_reply(comment);
    if reply.content.as_str().unicode_len() > 0 && reply.comment_id != 0 {
        Some(reply)
    } else {
        None
    }
}

/// The members a reply count is looked up under, in order.
pub open spec fn reply_count_keys() -> Seq<Seq<char>> {
    seq!["replyCount"@, "totalCount"@, "commentCount"@, "showReplyCount"@, "floorCommentCount"@]
}

/// The number under the first of the keys whose member reads as one.
pub open spec fn spec_first_u64_child(v: Json, keys: Seq<Seq<char>>) -> Option<u64>
    decreases keys.len(),
{
    if keys.len() == 0 {
        None
    } else {
        match spec_child_u64(v, keys[0]) {
            Some(n) => Some(n),
            None => spec_first_u64_child(v, keys.drop_first()),
        }
    }
}

/// The number under the first of the keys whose member reads as one.
pub fn first_u64_child(value: &Json, keys: &[&str]) -> (r: Option<u64>)
    ensures
        r == spec_first_u64_child(*value, keys@.map_values(|k: &str| k@)),
{
    let ghost ks = keys@.map_values(|k: &str| k@);
    assert(ks.skip(0) =~= ks);
    let mut i: usize = 0;
    while i < keys.len()
        invariant
            i <= keys.len(),
            ks == keys@.map_values(|k: &str| k@),
            spec_first_u64_child(*value, ks) == spec_first_u64_child(*value, ks.skip(i as int)),
        decreases keys.len() - i,
    {
        let ghost rest = ks.skip(i as int);
        assert(rest[0] == keys@[i as int]@);
        assert(rest.drop_first() =~= ks.skip(i + 1));
        match child_u64(value, keys[i]) {
            Some(n) => return Some(n),
            None => {},
        }
        i += 1;
    }
    assert(ks.skip(i as int) =~= Seq::<Seq<char>>::empty());
    None
}

/// The reply count of a comment: the first of its count members that reads
/// as a number, else that of its `showFloorComment` object (or the length of
/// that object's `comments`), else 1 when it has such an object and the
/// fallback when not; never less than the fallback.
pub open spec fn spec_reply_count(v: Json, fallback: u64) -> u64 {
    let direct = spec_first_u64_child(v, reply_count_keys());
    let floor = spec_get_or_null(v, "showFloorComment"@);
    let floor_count = match spec_first_u64_child(floor, reply_count_keys()) {
        Some(n) => Some(n),
        None => match spec_get(floor, "comments"@) {
            Some(Json::Array(items)) => Some(items@.len() as u64),
            _ => None,
        },
    };
    let n = match direct {
        Some(n) => n,
        None => match floor_count {
            Some(n) => n,
            None => if !is_null(floor) { 1 } else { fallback },
        },
    };
    if n >= fallback { n } else { fallback }
}

/// The member names a reply count is read from.
fn reply_count_key_list() -> (r: Vec<&'static str>)
    ensures
        r@.map_values(|k: &str| k@) == reply_count_keys(),
{
    let v: Vec<&'static str> = vec!["replyCount", "totalCount", "commentCount", "showReplyCount", "floorCommentCount"];
    assert(v@.map_values(|k: &str| k@) =~= reply_count_keys());
    v
}

/// Reads the reply count of a comment object.
pub fn parse_comment_reply_count(value: &Json, fallback: u64) -> (r: u64)
    ensures
        r == spec_reply_count(*value, fallback),
{
    let keys = reply_count_key_list();
    let direct = first_u64_child(value, keys.as_slice());
    let null = Json::Null;
    let floor = json_get_or_null(value, "showFloorComment", &null);
    let floor_count: Option<u64> = match first_u64_child(floor, keys.as_slice()) {
        Some(n) => Some(n),
        None => match json_get(floor, "comments") {
            Some(Json::Array(items)) => Some(items.len() as u64),
            _ => None,
        },
    };
    let n: u64 = match direct {
        Some(n) => n,
        None => match floor_count {
            Some(n) => n,
            None => if !json_is_null(floor) { 1 } else { fallback },
        },
    };
    if n >= fallback { n } else { fallback }
}

/// The elements of an array member (none when the member is missing or is
/// not an array).
pub open spec fn spec_array_member(v: Json, key: Seq<char>) -> Seq<Json> {
    match spec_get(v, key) {
        Some(Json::Array(items)) => items@,
        _ => Seq::empty(),
    }
}

/// A comment read from its JSON object.
pub open spec fn spec_parse_comment(v: Json) -> SongCommentView {
    let user = spec_get_or_null(v, "user"@);
    SongCommentView {
        comment_id: or_zero(spec_child_u64(v, "commentId"@)),
        user_id: or_zero(spec_child_u64(user, "userId"@)),
        nickname: spec_value_child_string(user, "nickname"@),
        avatar_url: spec_value_child_string(user, "avatarUrl"@),
        content: spec_value_child_string(v, "content"@),
        time: spec_value_child_string(v, "timeStr"@),
        liked: spec_child_bool(v, "liked"@),
        liked_count: or_zero(spec_child_u64(v, "likedCount"@)),
        reply_count: spec_reply_count(v, 0),
        replied: spec_array_member(v, "beReplied"@).map_values(|x: Json| spec_parse_comment_reply(x)),
    }
}

/// A comment and a reply read from the same object have the same author
/// (user id, name and avatar, all read from its `user` member) and the same
/// text, time and likes.
pub proof fn law_comment_author_as_reply(v: Json)
    ensures
        spec_parse_comment(v).user_id == spec_parse_comment_reply(v).user_id,
        spec_parse_comment(v).nickname == spec_parse_comment_reply(v).nickname,
        spec_parse_comment(v).avatar_url == spec_parse_comment_reply(v).avatar_url,
        spec_parse_comment(v).content == spec_parse_comment_reply(v).content,
        spec_parse_comment(v).time == spec_parse_comment_reply(v).time,
        spec_parse_comment(v).liked == spec_parse_comment_reply(v).liked,
        spec_parse_comment(v).liked_count == spec_parse_comment_reply(v).liked_count,
{
}

/// A comment's author name is the string `nickname` of its `user` member:
/// a comment whose `user` has the nickname `name` shows `name`, and one
/// without a `user` member shows no name, whatever else it holds.
pub proof fn law_comment_nickname(v: Json, user: Json, name: String)
    ensures
        (spec_get(v, "user"@) == Some(user) && spec_get(user, "nickname"@) == Some(Json::Str(name)))
            ==> spec_parse_comment(v).nickname == name@,
        spec_get(v, "user"@) is None ==> spec_parse_comment(v).nickname == Seq::<char>::empty(),
        spec_get(v, "user"@) is None ==> spec_parse_comment(v).user_id == 0,
{
}

/// Reads every element of an array as a reply.
fn parse_reply_list(items: &Vec<Json>) -> (r: Vec<CommentReply>)
    ensures
        replies_view(r@) == items@.map_values(|x: Json| spec_parse_comment_reply(x)),
{
    let mut out: Vec<CommentReply> = Vec::new();
    let mut i: usize = 0;
    while i < items.len()
        invariant
            i <= items.len(),
            replies_view(out@) == items@.take(i as int).map_values(|x: Json| spec_parse_comment_reply(x)),
        decreases items.len() - i,
    {
        let r = parse_comment_reply(&items[i]);
        let ghost prev = out@;
        out.push(r);
        assert(replies_view(out@) =~= replies_view(prev).push(out@[i as int]@));
        assert(items@.take(i + 1) =~= items@.take(i as int).push(items@[i as int]));
        i += 1;
        assert(replies_view(out@) =~= items@.take(i as int).map_values(|x: Json| spec_parse_comment_reply(x)));
    }
    assert(items@.take(items.len() as int) =~= items@);
    out
}

/// Reads a comment out of its JSON object.
pub fn parse_comment(value: &Json) -> (r: SongComment)
    ensures
        r@ == spec_parse_comment(*value),
{
    let null = Json::Null;
    let user = json_get_or_null(value, "user", &null);
    let replied: Vec<CommentReply> = match json_get(value, "beReplied") {
        Some(Json::Array(items)) => parse_reply_list(items),
        _ => Vec::new(),
    };
    assert(replies_view(replied@) =~= spec_array_member(*value, "beReplied"@).map_values(|x: Json| spec_parse_comment_reply(x)));
    let reply_count = parse_comment_reply_count(value, 0);
    let comment_id: u64 = match child_u64(value, "commentId") {
        Some(n) => n,
        None => 0,
    };
    let user_id: u64 = match child_u64(user, "userId") {
        Some(n) => n,
        None => 0,
    };
    let liked_count: u64 = match child_u64(value, "likedCount") {
        Some(n) => n,
        None => 0,
    };
    SongComment {
        comment_id,
        user_id,
        nickname: value_child_string(user, "nickname"),
        avatar_url: value_child_string(user, "avatarUrl"),
        content: value_child_string(value, "content"),
        time: value_child_string(value, "timeStr"),
        liked: child_bool(value, "liked"),
        liked_count,
        reply_count,
        replied,
    }
}

/// The comments of an array member, read one by one.
pub open spec fn spec_parse_comments(v: Json, key: Seq<char>) -> Seq<SongCommentView> {
    spec_array_member(v, key).map_values(|x: Json| spec_parse_comment(x))
}

/// Reads the comments of an array member (none when it is missing).
pub fn parse_comments(value: &Json, key: &str) -> (r: Vec<SongComment>)
    ensures
        comments_view(r@) == spec_parse_comments(*value, key@),
{
    let items: &Vec<Json> = match json_get(value, key) {
        Some(Json::Array(items)) => items,
        _ => {
            let r: Vec<SongComment> = Vec::new();
            assert(comments_view(r@) =~= spec_parse_comments(*value, key@));
            return r;
        },
    };
    let mut out: Vec<SongComment> = Vec::new();
    let mut i: usize = 0;
    while i < items.len()
        invariant
            i <= items.len(),
            items@ == spec_array_member(*value, key@),
            comments_view(out@) == items@.take(i as int).map_values(|x: Json| spec_parse_comment(x)),
        decreases items.len() - i,
    {
        let c = parse_comment(&items[i]);
        let ghost prev = out@;
        out.push(c);
        assert(comments_view(out@) =~= comments_view(prev).push(out@[i as int]@));
        assert(items@.take(i + 1) =~= items@.take(i as int).push(items@[i as int]));
        i += 1;
        assert(comments_view(out@) =~= items@.take(i as int).map_values(|x: Json| spec_parse_comment(x)));
    }
    assert(items@.take(items.len() as int) =~= items@);
    out
}

/// A page of comments: the total, the hot comments and the latest ones.
pub open spec fn spec_parse_song_comments(v: Json) -> (u64, Seq<SongCommentView>, Seq<SongCommentView>) {
    (
        or_zero(spec_child_u64(v, "total"@)),
        spec_parse_comments(v, "hotComments"@),
        spec_parse_comments(v, "comments"@),
    )
}

/// Reads a page of a song's comments.
pub fn parse_song_comments(value: &Json) -> (r: SongComments)
    ensures
        (r.total, comments_view(r.hot_comments@), comments_view(r.comments@)) == spec_parse_song_comments(*value),
{
    let total: u64 = match child_u64(value, "total") {
        Some(n) => n,
        None => 0,
    };
    SongComments {
        total,
        hot_comments: parse_comments(value, "hotComments"),
        comments: parse_comments(value, "comments"),
    }
}

/// The replies with content, in order.
pub open spec fn with_content(rs: Seq<CommentReplyView>) -> Seq<CommentReplyView>
    decreases rs.len(),
{
    if rs.len() == 0 {
        Seq::empty()
    } else {
        let kept = with_content(rs.drop_last());
        if rs.last().content.len() > 0 { kept.push(rs.last()) } else { kept }
    }
}

/// The object a replies response keeps its data in: `data`, or the response
/// itself.
pub open spec fn spec_replies_data(v: Json) -> Json {
    match spec_get(v, "data"@) {
        Some(d) => d,
        None => v,
    }
}

/// The replies of a replies response: those with content, and the total
/// (`totalCount`, else `total`, else the number of replies kept).
pub open spec fn spec_parse_comment_replies(v: Json) -> (u64, Seq<CommentReplyView>) {
    let data = spec_replies_data(v);
    let replies = with_content(spec_array_member(data, "comments"@).map_values(|x: Json| spec_parse_comment_reply(x)));
    let total_member = match spec_get(data, "totalCount"@) {
        Some(x) => Some(x),
        None => spec_get(data, "total"@),
    };
    let total = match total_member {
        Some(x) => match spec_value_as_u64(x) {
            Some(n) => n,
            None => replies.len() as u64,
        },
        None => replies.len() as u64,
    };
    (total, replies)
}

/// Reads the replies under a comment out of a replies response.
pub fn parse_comment_replies(value: &Json) -> (r: SongCommentReplies)
    ensures
        (r.total, replies_view(r.replies@)) == spec_parse_comment_replies(*value),
{
    let data: &Json = match json_get(value, "data") {
        Some(d) => d,
        None => value,
    };
    let ghost parsed = spec_array_member(*data, "comments"@).map_values(|x: Json| spec_parse_comment_reply(x));
    let mut replies: Vec<CommentReply> = Vec::new();
    match json_get(data, "comments") {
        Some(Json::Array(items)) => {
            let mut i: usize = 0;
            while i < items.len()
                invariant
                    i <= items.len(),
                    parsed == items@.map_values(|x: Json| spec_parse_comment_reply(x)),
                    replies_view(replies@) == with_content(parsed.take(i as int)),
                decreases items.len() - i,
            {
                assert(parsed.take(i + 1).drop_last() =~= parsed.take(i as int));
                let r = parse_comment_reply(&items[i]);
                assert(parsed.take(i + 1).last() == r@);
                let ghost prev = replies@;
                if r.content.as_str().unicode_len() > 0 {
                    replies.push(r);
                    assert(replies_view(replies@) =~= replies_view(prev).push(r@));
                }
                assert(replies_view(replies@) =~= with_content(parsed.take(i + 1)));
                i += 1;
            }
            assert(parsed.take(items.len() as int) =~= parsed);
        },
        _ => {
            assert(with_content(parsed) =~= Seq::<CommentReplyView>::empty());
            assert(replies_view(replies@) =~= Seq::<CommentReplyView>::empty());
        },
    }
    let total_member: Option<&Json> = match json_get(data, "totalCount") {
        Some(x) => Some(x),
        None => json_get(data, "total"),
    };
    let total: u64 = match total_member {
        Some(x) => match value_as_u64(x) {
            Some(n) => n,
            None => replies.len() as u64,
        },
        None => replies.len() as u64,
    };
    SongCommentReplies { total, replies }
}

/// The numeric `id` members of track objects, in order, skipping those
/// without one.
pub open spec fn track_ids_of(items: Seq<Json>) -> Seq<u64>
    decreases items.len(),
{
    if items.len() == 0 {
        Seq::empty()
    } else {
        let prev = track_ids_of(items.drop_last());
        match spec_child_u64(items.last(), "id"@) {
            Some(n) => prev.push(n),
            None => prev,
        }
    }
}

/// The track identifiers of a playlist detail response
/// (`playlist.trackIds[].id`).
pub open spec fn spec_playlist_track_ids(v: Json) -> Seq<u64> {
    match spec_get(v, "playlist"@) {
        Some(pl) => match spec_get(pl, "trackIds"@) {
            Some(Json::Array(items)) => track_ids_of(items@),
            _ => Seq::empty(),
        },
        None => Seq::empty(),
    }
}

/// Reads the track identifiers of a playlist detail response.
pub fn playlist_track_ids(value: &Json) -> (r: Vec<u64>)
    ensures
        r@ == spec_playlist_track_ids(*value),
{
    let mut out: Vec<u64> = Vec::new();
    let items: &Vec<Json> = match json_get(value, "playlist") {
        Some(pl) => match json_get(pl, "trackIds") {
            Some(Json::Array(items)) => items,
            _ => return out,
        },
        None => return out,
    };
    let mut i: usize = 0;
    while i < items.len()
        invariant
            i <= items.len(),
            track_ids_of(items@) == spec_playlist_track_ids(*value),
            out@ == track_ids_of(items@.take(i as int)),
        decreases items.len() - i,
    {
        assert(items@.take(i + 1).drop_last() =~= items@.take(i as int));
        match child_u64(&items[i], "id") {
            Some(n) => out.push(n),
            None => {},
        }
        i += 1;
    }
    assert(items@.take(items.len() as int) =~= items@);
    out
}

/// The comments, in order, whose reply count is still 0 and whose identifier
/// is set, each identifier once (at its first occurrence).
pub open spec fn spec_missing_reply_count_ids(cs: Seq<SongCommentView>) -> Seq<u64>
    decreases cs.len(),
{
    if cs.len() == 0 {
        Seq::empty()
    } else {
        let prev = spec_missing_reply_count_ids(cs.drop_last());
        let c = cs.last();
        if c.comment_id != 0 && c.reply_count == 0 && !prev.contains(c.comment_id) {
            prev.push(c.comment_id)
        } else {
            prev
        }
    }
}

/// The comments of a page (hot ones first) whose reply counts still have to
/// be asked for.
pub fn missing_comment_reply_count_ids(comments: &SongComments) -> (r: Vec<u64>)
    ensures
        r@ == spec_missing_reply_count_ids(comments_view(comments.hot_comments@) + comments_view(comments.comments@)),
{
    let mut out: Vec<u64> = Vec::new();
    assert(comments_view(comments.hot_comments@) =~= Seq::<SongCommentView>::empty() + comments_view(comments.hot_comments@));
    collect_missing_ids(&mut out, &comments.hot_comments, Ghost(Seq::empty()));
    collect_missing_ids(&mut out, &comments.comments, Ghost(comments_view(comments.hot_comments@)));
    out
}

fn collect_missing_ids(out: &mut Vec<u64>, cs: &Vec<SongComment>, Ghost(prefix): Ghost<Seq<SongCommentView>>)
    requires
        old(out)@ == spec_missing_reply_count_ids(prefix),
    ensures
        final(out)@ == spec_missing_reply_count_ids(prefix + comments_view(cs@)),
{
    let ghost all = prefix + comments_view(cs@);
    let mut i: usize = 0;
    assert(all.take(prefix.len() as int) =~= prefix);
    while i < cs.len()
        invariant
            i <= cs.len(),
            all == prefix + comments_view(cs@),
            out@ == spec_missing_reply_count_ids(all.take(prefix.len() + i)),
        decreases cs.len() - i,
    {
        assert(all.take(prefix.len() + i + 1).drop_last() =~= all.take(prefix.len() + i));
        assert(all.take(prefix.len() + i + 1).last() == cs@[i as int]@);
        let c = &cs[i];
        if c.comment_id != 0 && c.reply_count == 0 {
            let id = c.comment_id;
            if !u64_vec_contains(out, id) {
                out.push(id);
            }
        }
        i += 1;
    }
    assert(all.take(prefix.len() + cs.len()) =~= all);
}

/// Whether a vector holds a number.
pub fn u64_vec_contains(v: &Vec<u64>, x: u64) -> (r: bool)
    ensures
        r == v@.contains(x),
{
    let mut i: usize = 0;
    while i < v.len()
        invariant
            i <= v.len(),
            forall|j: int| 0 <= j < i ==> v@[j] != x,
        decreases v.len() - i,
    {
        if v[i] == x {
            assert(v@[i as int] == x);
            return true;
        }
        i += 1;
    }
    false
}

/// The thread identifier of a song's comments: `R_SO_4_<song id>`.
pub fn song_comment_thread_id(song_id: u64) -> (r: String)
    ensures
        r@ == seq!['R', '_', 'S', 'O', '_', '4', '_'] + text::decimal(song_id as nat),
{
    let digits = text::u64_decimal_chars(song_id);
    let mut out: Vec<char> = vec!['R', '_', 'S', 'O', '_', '4', '_'];
    crate::lyrics::append_chars(&mut out, digits.as_slice());
    text::string_from_chars(out.as_slice())
}

/// The messages of a refused comment write that a retry from another client
/// would not get past: rate limiting and the account checks.
pub open spec fn spec_skip_write_fallback(message: Seq<char>) -> bool {
    text::spec_contains(message, "code 250"@)
        || text::spec_contains(message, "操作过于频繁"@)
        || text::spec_contains(message, "为了您的安全"@)
        || text::spec_contains(message, "切换设备"@)
}

/// Whether the error message of a refused comment deletion rules out the
/// retry with the Android client.
pub fn should_skip_comment_write_fallback(message: &str) -> (r: bool)
    ensures
        r == spec_skip_write_fallback(message@),
{
    let m = text::str_chars(message);
    let p1 = text::str_chars("code 250");
    let p2 = text::str_chars("操作过于频繁");
    let p3 = text::str_chars("为了您的安全");
    let p4 = text::str_chars("切换设备");
    text::contains(m.as_slice(), p1.as_slice()) || text::contains(m.as_slice(), p2.as_slice())
        || text::contains(m.as_slice(), p3.as_slice()) || text::contains(m.as_slice(), p4.as_slice())
}

/// What follows a request for a comment page through the web API.
#[derive(Clone, Copy, Debug, PartialEq, Eq, Structural)]
pub enum CommentsStep {
    /// Show the page it brought.
    Show,
    /// It failed: ask the older interface for the page.
    AskLegacy,
}

/// What follows a comment page request through the web API, by whether it
/// went through.
pub fn song_comments_step(weapi_ok: bool) -> (r: CommentsStep)
    ensures
        r == (if weapi_ok { CommentsStep::Show } else { CommentsStep::AskLegacy }),
{
    if weapi_ok { CommentsStep::Show } else { CommentsStep::AskLegacy }
}

/// What follows a refused or accepted comment deletion.
#[derive(Clone, Copy, Debug, PartialEq, Eq, Structural)]
pub enum CommentWriteStep {
    /// It went through.
    Done,
    /// It failed, and a retry would not get past the refusal.
    Fail,
    /// It failed: ask again as the Android client.
    RetryAsAndroid,
}

/// What follows the first request to delete a comment: `None` when it went
/// through, otherwise its error text.
pub fn delete_comment_step(first_error: Option<&str>) -> (r: CommentWriteStep)
    ensures
        r == (match first_error {
            None => CommentWriteStep::Done,
            Some(m) => if spec_skip_write_fallback(m@) { CommentWriteStep::Fail } else { CommentWriteStep::RetryAsAndroid },
        }),
{
    match first_error {
        None => CommentWriteStep::Done,
        Some(m) => if should_skip_comment_write_fallback(m) { CommentWriteStep::Fail } else { CommentWriteStep::RetryAsAndroid },
    }
}

} // verus!
