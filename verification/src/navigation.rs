//! The main window's rules: the signed-in user and the songs they like, the
//! page stack and the sidebar, the history of root pages, where a search
//! goes, and what the text context menus offer.
use vstd::prelude::*;
use crate::text;
use std::collections::HashSet;

verus! {

broadcast use vstd::std_specs::hash::group_hash_axioms;

/// The signed-in user.
pub struct UserInfo {
    pub uid: u64,
    pub nickname: String,
    pub avatar_url: String,
    /// The songs the user likes.
    pub like_songs: HashSet<u64>,
}

impl UserInfo {
    /// Nobody signed in.
    pub fn new() -> (r: Self)
        ensures
            r.uid == 0,
            r.nickname@.len() == 0,
            r.avatar_url@.len() == 0,
            r.like_songs@.is_empty(),
    {
        UserInfo { uid: 0, nickname: String::new(), avatar_url: String::new(), like_songs: HashSet::new() }
    }

    /// Whether the user likes a song.
    pub fn user_like_song_contains(&self, id: u64) -> (r: bool)
        ensures
            r == self.like_songs@.contains(id),
    {
        self.like_songs.contains(&id)
    }

    /// Records that the user likes a song.
    pub fn user_like_song_add(&mut self, id: u64)
        ensures
            final(self).like_songs@ == old(self).like_songs@.insert(id),
            final(self).uid == old(self).uid,
            final(self).nickname == old(self).nickname,
            final(self).avatar_url == old(self).avatar_url,
    {
        self.like_songs.insert(id);
    }

    /// Records that the user no longer likes a song.
    pub fn user_like_song_remove(&mut self, id: u64)
        ensures
            final(self).like_songs@ == old(self).like_songs@.remove(id),
            final(self).uid == old(self).uid,
            final(self).nickname == old(self).nickname,
            final(self).avatar_url == old(self).avatar_url,
    {
        self.like_songs.remove(&id);
    }

    /// Sets the user's identifier.
    pub fn set_user_uid(&mut self, uid: u64)
        ensures
            final(self).uid == uid,
            final(self).like_songs@ == old(self).like_songs@,
            final(self).nickname == old(self).nickname,
            final(self).avatar_url == old(self).avatar_url,
    {
        self.uid = uid;
    }

    /// Sets the user's identifier, nickname and avatar address.
    pub fn set_user_profile(&mut self, uid: u64, nickname: String, avatar_url: String)
        ensures
            final(self).uid == uid,
            final(self).nickname@ == nickname@,
            final(self).avatar_url@ == avatar_url@,
            final(self).like_songs@ == old(self).like_songs@,
    {
        self.uid = uid;
        self.nickname = nickname;
        self.avatar_url = avatar_url;
    }

    /// Forgets the user (signing out).
    pub fn clear_user_info(&mut self)
        ensures
            final(self).uid == 0,
            final(self).nickname@.len() == 0,
            final(self).avatar_url@.len() == 0,
            final(self).like_songs@.is_empty(),
    {
        *self = UserInfo::new();
    }

    /// The user's identifier (0 when nobody is signed in).
    pub fn get_uid(&self) -> (r: u64)
        ensures
            r == self.uid,
    {
        self.uid
    }

    /// Whether somebody is signed in.
    pub fn is_logined(&self) -> (r: bool)
        ensures
            r == (self.uid != 0),
    {
        self.uid != 0
    }

    /// Whether the user likes each of the songs, in order.
    pub fn get_song_likes(&self, ids: &Vec<u64>) -> (r: Vec<bool>)
        ensures
            r@.len() == ids@.len(),
            forall|i: int| 0 <= i < ids@.len() ==> #[trigger] r@[i] == self.like_songs@.contains(ids@[i]),
    {
        let mut out: Vec<bool> = Vec::new();
        let mut i: usize = 0;
        while i < ids.len()
            invariant
                i <= ids.len(),
                out@.len() == i,
                forall|j: int| 0 <= j < i ==> #[trigger] out@[j] == self.like_songs@.contains(ids@[j]),
            decreases ids.len() - i,
        {
            out.push(self.like_songs.contains(&ids[i]));
            i += 1;
        }
        out
    }

    /// Records a like or unlike of a song; says whether the player's like
    /// button is to follow (the song is the one playing).
    pub fn set_like_song(&mut self, id: u64, val: bool, playing_song: Option<u64>) -> (r: bool)
        ensures
            r == (playing_song == Some(id)),
            final(self).like_songs@ == (if val { old(self).like_songs@.insert(id) } else { old(self).like_songs@.remove(id) }),
            final(self).uid == old(self).uid,
            final(self).nickname == old(self).nickname,
            final(self).avatar_url == old(self).avatar_url,
    {
        if val {
            self.user_like_song_add(id);
        } else {
            self.user_like_song_remove(id);
        }
        match playing_song {
            Some(s) => s == id,
            None => false,
        }
    }

    /// Records that the user likes each of these songs.
    pub fn set_user_like_songs(&mut self, song_ids: &Vec<u64>)
        ensures
            final(self).like_songs@ == old(self).like_songs@.union(song_ids@.to_set()),
            final(self).uid == old(self).uid,
            final(self).nickname == old(self).nickname,
            final(self).avatar_url == old(self).avatar_url,
    {
        let mut i: usize = 0;
        while i < song_ids.len()
            invariant
                i <= song_ids.len(),
                self.like_songs@ == old(self).like_songs@.union(song_ids@.take(i as int).to_set()),
                self.uid == old(self).uid,
                self.nickname == old(self).nickname,
                self.avatar_url == old(self).avatar_url,
            decreases song_ids.len() - i,
        {
            let ghost prev = self.like_songs@;
            self.user_like_song_add(song_ids[i]);
            i += 1;
            assert(song_ids@.take(i as int) =~= song_ids@.take(i - 1).push(song_ids@[i - 1]));
            assert(song_ids@.take(i as int).to_set() =~= song_ids@.take(i - 1).to_set().insert(song_ids@[i - 1])) by {
                song_ids@.take(i - 1).lemma_push_to_set_commute(song_ids@[i - 1]);
            }
            assert(self.like_songs@ =~= old(self).like_songs@.union(song_ids@.take(i as int).to_set()));
        }
        assert(song_ids@.take(song_ids.len() as int) =~= song_ids@);
    }
}

/// How a page is brought in.
#[derive(Clone, Copy, Debug, PartialEq, Eq, Structural)]
pub enum PageTransition {
    /// Slides over from below (260 ms): the "Now Playing" page.
    OverUp,
    /// Cross-fades (100 ms): any other page.
    Crossfade,
}

/// The name of the "Now Playing" page.
pub open spec fn lyrics_page_name() -> Seq<char> {
    "Lyrics & Queue"@
}

/// Whether a new page is the one on top already: the stack holds more than
/// the root, the top page has the title, and its name (if it has one) is
/// the same.
pub open spec fn same_page_on_top(stack_len: nat, top_title: Seq<char>, top_name: Option<Seq<char>>, title: Seq<char>, name: Seq<char>) -> bool {
    stack_len > 1 && top_title == title && match top_name {
        Some(n) => n == name,
        None => true,
    }
}

/// Whether a page is pushed onto the page stack, and how: not when the same
/// page is on top already.
pub fn page_new_transition(stack_len: usize, top_title: &str, top_name: Option<&str>, title: &str, name: &str) -> (r: Option<PageTransition>)
    ensures
        r == (if same_page_on_top(stack_len as nat, top_title@, match top_name { Some(n) => Some(n@), None => None }, title@, name@) {
            None
        } else if name@ == lyrics_page_name() {
            Some(PageTransition::OverUp)
        } else {
            Some(PageTransition::Crossfade)
        }),
{
    if stack_len > 1 && text::str_eq(top_title, title) {
        match top_name {
            Some(n) => {
                if text::str_eq(n, name) {
                    return None;
                }
            },
            None => return None,
        }
    }
    if text::str_eq(name, "Lyrics & Queue") {
        Some(PageTransition::OverUp)
    } else {
        Some(PageTransition::Crossfade)
    }
}

/// Whether a full-screen page is pushed: not when the same page is on top
/// already (the title and back button are shown either way).
pub fn fullscreen_page_push(stack_len: usize, top_title: &str, top_name: Option<&str>, title: &str, name: &str) -> (r: bool)
    ensures
        r == !same_page_on_top(stack_len as nat, top_title@, match top_name { Some(n) => Some(n@), None => None }, title@, name@),
{
    if stack_len > 1 && text::str_eq(top_title, title) {
        match top_name {
            Some(n) => {
                if text::str_eq(n, name) {
                    return false;
                }
            },
            None => return false,
        }
    }
    true
}

/// A sidebar button.
#[derive(Clone, Copy, Debug, PartialEq, Eq, Structural)]
pub enum SidebarButton {
    Discover,
    Toplist,
    My,
    DailyRec,
    Heartbeat,
    Radio,
    CloudDisk,
    Albums,
    Songlist,
}

/// The sidebar button a page name selects; names without one leave the
/// selection as it is.
pub open spec fn spec_sidebar_target(name: Seq<char>) -> Option<SidebarButton> {
    if name == "discover"@ {
        Some(SidebarButton::Discover)
    } else if name == "toplist"@ {
        Some(SidebarButton::Toplist)
    } else if name == "my"@ {
        Some(SidebarButton::My)
    } else if name == "ToMyPageDailyRec"@ {
        Some(SidebarButton::DailyRec)
    } else if name == "ToMyPageHeartbeat"@ {
        Some(SidebarButton::Heartbeat)
    } else if name == "ToMyPageRadio"@ {
        Some(SidebarButton::Radio)
    } else if name == "ToMyPageCloudDisk"@ {
        Some(SidebarButton::CloudDisk)
    } else if name == "ToMyPageAlbums"@ {
        Some(SidebarButton::Albums)
    } else if name == "ToMyPageSonglist"@ {
        Some(SidebarButton::Songlist)
    } else {
        None
    }
}

/// Each page the sidebar leads to selects a button of its own: no two page
/// names select the same button, every button is selected by some page, the
/// three root pages select the three root buttons, and the pages of the
/// "My" section select the button that leads to them (the liked-songs page
/// its favourite-songs button, the daily recommendations theirs).
pub proof fn law_sidebar_buttons(a: Seq<char>, b: Seq<char>, button: SidebarButton)
    ensures
        (spec_sidebar_target(a) is Some && spec_sidebar_target(a) == spec_sidebar_target(b)) ==> a == b,
        exists|name: Seq<char>| spec_sidebar_target(name) == Some(button),
        is_root_page(a) <==> (spec_sidebar_target(a) == Some(SidebarButton::Discover)
            || spec_sidebar_target(a) == Some(SidebarButton::Toplist)
            || spec_sidebar_target(a) == Some(SidebarButton::My)),
        spec_sidebar_target("ToMyPageHeartbeat"@) == Some(SidebarButton::Heartbeat),
        spec_sidebar_target("ToMyPageDailyRec"@) == Some(SidebarButton::DailyRec),
{
    reveal_strlit("discover");
    reveal_strlit("toplist");
    reveal_strlit("my");
    reveal_strlit("ToMyPageDailyRec");
    reveal_strlit("ToMyPageHeartbeat");
    reveal_strlit("ToMyPageRadio");
    reveal_strlit("ToMyPageCloudDisk");
    reveal_strlit("ToMyPageAlbums");
    reveal_strlit("ToMyPageSonglist");
    assert("discover"@.len() == 8 && "toplist"@.len() == 7 && "my"@.len() == 2);
    assert("ToMyPageDailyRec"@.len() == 16 && "ToMyPageHeartbeat"@.len() == 17 && "ToMyPageRadio"@.len() == 13);
    assert("ToMyPageCloudDisk"@.len() == 17 && "ToMyPageAlbums"@.len() == 14 && "ToMyPageSonglist"@.len() == 16);
    assert("ToMyPageDailyRec"@[8] != "ToMyPageSonglist"@[8]);
    assert("ToMyPageHeartbeat"@[8] != "ToMyPageCloudDisk"@[8]);
    let name = match button {
        SidebarButton::Discover => "discover"@,
        SidebarButton::Toplist => "toplist"@,
        SidebarButton::My => "my"@,
        SidebarButton::DailyRec => "ToMyPageDailyRec"@,
        SidebarButton::Heartbeat => "ToMyPageHeartbeat"@,
        SidebarButton::Radio => "ToMyPageRadio"@,
        SidebarButton::CloudDisk => "ToMyPageCloudDisk"@,
        SidebarButton::Albums => "ToMyPageAlbums"@,
        SidebarButton::Songlist => "ToMyPageSonglist"@,
    };
    assert(spec_sidebar_target(name) == Some(button));
}

/// The sidebar button to mark active for a page name (the others lose their
/// mark); none for pages the sidebar does not lead to.
pub fn update_sidebar_selection(name: &str) -> (r: Option<SidebarButton>)
    ensures
        r == spec_sidebar_target(name@),
{
    if text::str_eq(name, "discover") {
        Some(SidebarButton::Discover)
    } else if text::str_eq(name, "toplist") {
        Some(SidebarButton::Toplist)
    } else if text::str_eq(name, "my") {
        Some(SidebarButton::My)
    } else if text::str_eq(name, "ToMyPageDailyRec") {
        Some(SidebarButton::DailyRec)
    } else if text::str_eq(name, "ToMyPageHeartbeat") {
        Some(SidebarButton::Heartbeat)
    } else if text::str_eq(name, "ToMyPageRadio") {
        Some(SidebarButton::Radio)
    } else if text::str_eq(name, "ToMyPageCloudDisk") {
        Some(SidebarButton::CloudDisk)
    } else if text::str_eq(name, "ToMyPageAlbums") {
        Some(SidebarButton::Albums)
    } else if text::str_eq(name, "ToMyPageSonglist") {
        Some(SidebarButton::Songlist)
    } else {
        None
    }
}

/// The root pages of the view stack.
pub open spec fn is_root_page(name: Seq<char>) -> bool {
    name == "discover"@ || name == "toplist"@ || name == "my"@
}

/// The history of the pages the view stack showed: (page name, title).
pub struct StackHistory {
    pub entries: Vec<(String, String)>,
}

/// The history after the view stack showed a page: nothing changes when the
/// page is the last one recorded; a root page replaces a history of one
/// entry and clears a longer one; any other page is added with its title.
pub open spec fn spec_visible_child(h: Seq<(Seq<char>, Seq<char>)>, name: Seq<char>, label: Seq<char>) -> Seq<(Seq<char>, Seq<char>)> {
    if h.len() > 0 && h.last().0 == name {
        h
    } else if h.len() == 1 {
        if is_root_page(name) { h.drop_last().push((name, Seq::empty())) } else { h.push((name, label)) }
    } else if is_root_page(name) {
        seq![(name, Seq::empty())]
    } else {
        h.push((name, label))
    }
}

/// The pairs of strings by their characters.
pub open spec fn history_view(v: Seq<(String, String)>) -> Seq<(Seq<char>, Seq<char>)> {
    v.map_values(|p: (String, String)| (p.0@, p.1@))
}

impl StackHistory {
    /// The history of a window that opens on "discover".
    pub fn new() -> (r: Self)
        ensures
            history_view(r.entries@) == seq![("discover"@, Seq::<char>::empty())],
    {
        let mut entries: Vec<(String, String)> = Vec::new();
        entries.push((String::from_str("discover"), String::new()));
        assert(history_view(entries@) =~= seq![("discover"@, Seq::<char>::empty())]);
        StackHistory { entries }
    }

    /// Records that the view stack shows a page, with the title shown.
    pub fn visible_child_changed(&mut self, name: &str, label: &str)
        ensures
            history_view(final(self).entries@) == spec_visible_child(history_view(old(self).entries@), name@, label@),
    {
        let ghost h = history_view(self.entries@);
        let n = self.entries.len();
        if n > 0 && text::str_eq(self.entries[n - 1].0.as_str(), name) {
            return;
        }
        let root = text::str_eq(name, "discover") || text::str_eq(name, "toplist") || text::str_eq(name, "my");
        if n == 1 {
            if root {
                self.entries.pop();
                self.entries.push((text::str_to_string(name), String::new()));
                assert(history_view(self.entries@) =~= h.drop_last().push((name@, Seq::<char>::empty())));
            } else {
                self.entries.push((text::str_to_string(name), text::str_to_string(label)));
                assert(history_view(self.entries@) =~= h.push((name@, label@)));
            }
        } else if root {
            self.entries = Vec::new();
            self.entries.push((text::str_to_string(name), String::new()));
            assert(history_view(self.entries@) =~= seq![(name@, Seq::<char>::empty())]);
        } else {
            self.entries.push((text::str_to_string(name), text::str_to_string(label)));
            assert(history_view(self.entries@) =~= h.push((name@, label@)));
        }
    }
}

/// What a search or a list page asks the web API for.
#[derive(Clone, Copy, Debug, PartialEq, Eq, Structural)]
pub enum SearchType {
    Song,
    Singer,
    Album,
    Lyrics,
    SongList,
    TopPicks,
    AllAlbums,
    Radio,
    LikeAlbums,
    LikeSongList,
    DailyRec,
    Heartbeat,
    CloudDisk,
    SingerSongs,
}

/// The kind of page a search result is shown on.
#[derive(Clone, Copy, Debug, PartialEq, Eq, Structural)]
pub enum SearchPageKind {
    Songs,
    Singers,
    SongLists,
}

/// The page a search from the search entry opens: songs (for songs and
/// lyrics), singers, or song lists (for albums and playlists); other types
/// open none.
pub fn search_page_kind(t: SearchType) -> (r: Option<SearchPageKind>)
    ensures
        r == match t {
            SearchType::Song | SearchType::Lyrics => Some(SearchPageKind::Songs),
            SearchType::Singer => Some(SearchPageKind::Singers),
            SearchType::Album | SearchType::SongList => Some(SearchPageKind::SongLists),
            _ => None,
        },
{
    match t {
        SearchType::Song | SearchType::Lyrics => Some(SearchPageKind::Songs),
        SearchType::Singer => Some(SearchPageKind::Singers),
        SearchType::Album | SearchType::SongList => Some(SearchPageKind::SongLists),
        _ => None,
    }
}

/// The kind of the empty result a failed search is answered with.
pub fn empty_search_result(t: SearchType) -> (r: SearchPageKind)
    ensures
        r == match t {
            SearchType::Singer => SearchPageKind::Singers,
            SearchType::Album | SearchType::SongList | SearchType::TopPicks | SearchType::AllAlbums
            | SearchType::Radio | SearchType::LikeAlbums | SearchType::LikeSongList => SearchPageKind::SongLists,
            _ => SearchPageKind::Songs,
        },
{
    match t {
        SearchType::Singer => SearchPageKind::Singers,
        SearchType::Album | SearchType::SongList | SearchType::TopPicks | SearchType::AllAlbums
        | SearchType::Radio | SearchType::LikeAlbums | SearchType::LikeSongList => SearchPageKind::SongLists,
        _ => SearchPageKind::Songs,
    }
}

/// The web API interface a search of some type is made with.
#[derive(Clone, Copy, Debug, PartialEq, Eq, Structural)]
pub enum SearchEndpoint {
    SearchSong,
    SearchSinger,
    SearchAlbum,
    SearchLyrics,
    SearchSongList,
    /// The hot playlists of every category.
    TopSongList,
    /// New albums of every area.
    NewAlbums,
    UserRadioSublist,
    AlbumSublist,
    /// The signed-in user's playlists.
    UserSongList,
}

/// The interface a search type is answered by, and the kind of its result;
/// none for the types that are not searched (a failure).
pub fn search_endpoint(t: SearchType) -> (r: Option<(SearchEndpoint, SearchPageKind)>)
    ensures
        r == match t {
            SearchType::Song => Some((SearchEndpoint::SearchSong, SearchPageKind::Songs)),
            SearchType::Singer => Some((SearchEndpoint::SearchSinger, SearchPageKind::Singers)),
            SearchType::Album => Some((SearchEndpoint::SearchAlbum, SearchPageKind::SongLists)),
            SearchType::Lyrics => Some((SearchEndpoint::SearchLyrics, SearchPageKind::Songs)),
            SearchType::SongList => Some((SearchEndpoint::SearchSongList, SearchPageKind::SongLists)),
            SearchType::TopPicks => Some((SearchEndpoint::TopSongList, SearchPageKind::SongLists)),
            SearchType::AllAlbums => Some((SearchEndpoint::NewAlbums, SearchPageKind::SongLists)),
            SearchType::Radio => Some((SearchEndpoint::UserRadioSublist, SearchPageKind::SongLists)),
            SearchType::LikeAlbums => Some((SearchEndpoint::AlbumSublist, SearchPageKind::SongLists)),
            SearchType::LikeSongList => Some((SearchEndpoint::UserSongList, SearchPageKind::SongLists)),
            _ => None,
        },
{
    match t {
        SearchType::Song => Some((SearchEndpoint::SearchSong, SearchPageKind::Songs)),
        SearchType::Singer => Some((SearchEndpoint::SearchSinger, SearchPageKind::Singers)),
        SearchType::Album => Some((SearchEndpoint::SearchAlbum, SearchPageKind::SongLists)),
        SearchType::Lyrics => Some((SearchEndpoint::SearchLyrics, SearchPageKind::Songs)),
        SearchType::SongList => Some((SearchEndpoint::SearchSongList, SearchPageKind::SongLists)),
        SearchType::TopPicks => Some((SearchEndpoint::TopSongList, SearchPageKind::SongLists)),
        SearchType::AllAlbums => Some((SearchEndpoint::NewAlbums, SearchPageKind::SongLists)),
        SearchType::Radio => Some((SearchEndpoint::UserRadioSublist, SearchPageKind::SongLists)),
        SearchType::LikeAlbums => Some((SearchEndpoint::AlbumSublist, SearchPageKind::SongLists)),
        SearchType::LikeSongList => Some((SearchEndpoint::UserSongList, SearchPageKind::SongLists)),
        _ => None,
    }
}

/// The choices of the search type menu, in order, each with whether it is
/// the current one.
pub fn search_menu_choices(current: SearchType) -> (r: Vec<(SearchType, bool)>)
    ensures
        r@ == seq![
            (SearchType::Song, current == SearchType::Song),
            (SearchType::Singer, current == SearchType::Singer),
            (SearchType::Album, current == SearchType::Album),
            (SearchType::Lyrics, current == SearchType::Lyrics),
            (SearchType::SongList, current == SearchType::SongList),
        ],
{
    let mut v: Vec<(SearchType, bool)> = Vec::new();
    v.push((SearchType::Song, current == SearchType::Song));
    v.push((SearchType::Singer, current == SearchType::Singer));
    v.push((SearchType::Album, current == SearchType::Album));
    v.push((SearchType::Lyrics, current == SearchType::Lyrics));
    v.push((SearchType::SongList, current == SearchType::SongList));
    v
}

/// Which items of a text field's context menu are offered: cut, copy,
/// paste, select all.
pub fn entry_menu_sensitivity(has_selection: bool, has_text: bool, is_editable: bool) -> (r: (bool, bool, bool, bool))
    ensures
        r == (has_selection && is_editable, has_selection || has_text, is_editable, has_text),
{
    (has_selection && is_editable, has_selection || has_text, is_editable, has_text)
}

/// The selected text of a text field with its selection bounds (character
/// positions, in either order): none when nothing is selected.
pub fn editable_selected_text(text: &str, bounds: Option<(i32, i32)>) -> (r: Option<String>)
    requires
        bounds matches Some(b) ==> 0 <= b.0 <= text@.len() && 0 <= b.1 <= text@.len(),
    ensures
        match bounds {
            Some(b) => if b.0 != b.1 {
                let lo = if b.0 <= b.1 { b.0 } else { b.1 };
                let hi = if b.0 <= b.1 { b.1 } else { b.0 };
                r matches Some(s) && s@ == text@.subrange(lo as int, hi as int)
            } else {
                r is None
            },
            None => r is None,
        },
{
    match bounds {
        Some((start, end)) => {
            if start == end {
                return None;
            }
            let lo: i32 = if start <= end { start } else { end };
            let hi: i32 = if start <= end { end } else { start };
            let cs = text::str_chars(text);
            let lo_u: usize = lo as usize;
            let hi_u: usize = hi as usize;
            assert(lo_u as int == lo as int && hi_u as int == hi as int);
            let mut out: Vec<char> = Vec::new();
            let mut k: usize = lo_u;
            while k < hi_u
                invariant
                    lo_u <= k <= hi_u,
                    hi_u <= cs@.len(),
                    lo_u as int == lo as int,
                    cs@ == text@,
                    out@ == cs@.subrange(lo as int, k as int),
                decreases hi_u - k,
            {
                out.push(cs[k]);
                k += 1;
                assert(out@ =~= cs@.subrange(lo as int, k as int));
            }
            Some(text::string_from_chars(out.as_slice()))
        },
        None => None,
    }
}

/// What "Copy" in a text field's context menu puts on the clipboard: the
/// selected text (bounds in characters, in either order), or the whole text
/// when nothing is selected.
pub fn copy_text(text: &str, bounds: Option<(i32, i32)>) -> (r: String)
    requires
        bounds matches Some(b) ==> 0 <= b.0 <= text@.len() && 0 <= b.1 <= text@.len(),
    ensures
        r@ == (match bounds {
            Some(b) => if b.0 != b.1 {
                let lo = if b.0 <= b.1 { b.0 } else { b.1 };
                let hi = if b.0 <= b.1 { b.1 } else { b.0 };
                text@.subrange(lo as int, hi as int)
            } else {
                text@
            },
            None => text@,
        }),
{
    match editable_selected_text(text, bounds) {
        Some(selected) => selected,
        None => text::str_to_string(text),
    }
}

} // verus!
