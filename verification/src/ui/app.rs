//! State of the user interface: tabs, the list on screen, navigation levels,
//! status message and album paging.
use crate::api::models::{ArtistId3, Child, is_playable};
use crate::cache::db::{CachedAlbum, CachedPlaylist, CachedTrack};
use crate::playback::engine::{
    Engine, EngineView, PlayerOp, TrackMeta, queue_replaced, start_op,
};
use crate::text::{contains_text, decimal, str_eq, texts, titled_count};
use vstd::prelude::*;

verus! {

/// The tabs of the main view, in the order they are cycled through.
#[derive(Debug, Clone, Copy, PartialEq, Eq, Structural)]
pub enum Tab {
    Artists,
    Albums,
    Playlists,
    Favorites,
    Queue,
}

/// The place of a tab in the cycle.
pub open spec fn tab_ordinal(t: Tab) -> int {
    match t {
        Tab::Artists => 0,
        Tab::Albums => 1,
        Tab::Playlists => 2,
        Tab::Favorites => 3,
        Tab::Queue => 4,
    }
}

impl Tab {
    /// All tabs, in order.
    pub const ALL: [Tab; 5] = [Tab::Artists, Tab::Albums, Tab::Playlists, Tab::Favorites, Tab::Queue];

    /// The tab after `t`, wrapping around.
    pub open spec fn after(t: Tab) -> Tab {
        match t {
            Tab::Artists => Tab::Albums,
            Tab::Albums => Tab::Playlists,
            Tab::Playlists => Tab::Favorites,
            Tab::Favorites => Tab::Queue,
            Tab::Queue => Tab::Artists,
        }
    }

    /// The tab before `t`, wrapping around.
    pub open spec fn before(t: Tab) -> Tab {
        match t {
            Tab::Artists => Tab::Queue,
            Tab::Albums => Tab::Artists,
            Tab::Playlists => Tab::Albums,
            Tab::Favorites => Tab::Playlists,
            Tab::Queue => Tab::Favorites,
        }
    }

    /// The title of the tab.
    pub fn label(&self) -> (r: &'static str)
        ensures
            r@ == (match *self {
                Tab::Artists => "Artists"@,
                Tab::Albums => "Albums"@,
                Tab::Playlists => "Playlists"@,
                Tab::Favorites => "Favorites"@,
                Tab::Queue => "Queue"@,
            }),
    {
        match self {
            Tab::Artists => "Artists",
            Tab::Albums => "Albums",
            Tab::Playlists => "Playlists",
            Tab::Favorites => "Favorites",
            Tab::Queue => "Queue",
        }
    }

    /// The tab after this one in [`Tab::ALL`], wrapping around.
    pub fn next(&self) -> (r: Tab)
        ensures
            r == Tab::after(*self),
            tab_ordinal(r) == (tab_ordinal(*self) + 1) % 5,
    {
        match self {
            Tab::Artists => Tab::Albums,
            Tab::Albums => Tab::Playlists,
            Tab::Playlists => Tab::Favorites,
            Tab::Favorites => Tab::Queue,
            Tab::Queue => Tab::Artists,
        }
    }

    /// The tab before this one in [`Tab::ALL`], wrapping around.
    pub fn prev(&self) -> (r: Tab)
        ensures
            r == Tab::before(*self),
            tab_ordinal(r) == (tab_ordinal(*self) + 4) % 5,
    {
        match self {
            Tab::Artists => Tab::Queue,
            Tab::Albums => Tab::Artists,
            Tab::Playlists => Tab::Albums,
            Tab::Favorites => Tab::Playlists,
            Tab::Queue => Tab::Favorites,
        }
    }
}

/// The previous tab of the next tab is the tab itself, and the other way round.
pub proof fn lemma_tab_prev_undoes_next(t: Tab)
    ensures
        Tab::before(Tab::after(t)) == t,
        Tab::after(Tab::before(t)) == t,
{
}

/// Five steps forward through the tabs come back to the start.
pub proof fn lemma_tab_cycle_has_five_steps(t: Tab)
    ensures
        Tab::after(Tab::after(Tab::after(Tab::after(Tab::after(t))))) == t,
{
}

/// A row of the list on screen.
#[derive(Debug)]
pub enum ListItem {
    Artist { id: String, name: String, album_count: Option<i32> },
    Album { id: String, name: String, artist: String, year: Option<i32>, duration: i32 },
    Track(TrackMeta),
    Playlist { id: String, name: String, song_count: i32 },
    More,
}

impl Clone for ListItem {
    fn clone(&self) -> (r: Self)
        ensures
            r == *self,
    {
        match self {
            ListItem::Artist { id, name, album_count } => ListItem::Artist {
                id: id.clone(),
                name: name.clone(),
                album_count: *album_count,
            },
            ListItem::Album { id, name, artist, year, duration } => ListItem::Album {
                id: id.clone(),
                name: name.clone(),
                artist: artist.clone(),
                year: *year,
                duration: *duration,
            },
            ListItem::Track(t) => ListItem::Track(t.clone()),
            ListItem::Playlist { id, name, song_count } => ListItem::Playlist {
                id: id.clone(),
                name: name.clone(),
                song_count: *song_count,
            },
            ListItem::More => ListItem::More,
        }
    }
}

/// A status line.
#[derive(Debug)]
pub struct Message {
    pub text: String,
    pub is_error: bool,
}

impl Clone for Message {
    fn clone(&self) -> (r: Self)
        ensures
            r == *self,
    {
        Message { text: self.text.clone(), is_error: self.is_error }
    }
}

/// A level of the navigation stack: the tab, list, selection and title to go back to.
pub struct NavLevel {
    pub tab: Tab,
    pub list: Vec<ListItem>,
    pub selected: usize,
    pub title: String,
}

/// What the contracts say of the user interface state.
#[verifier::ext_equal]
pub struct AppView {
    pub tab: Tab,
    pub list: Seq<ListItem>,
    pub selected: int,
    pub list_title: Seq<char>,
    pub nav: Seq<(Tab, Seq<ListItem>, int, Seq<char>)>,
    pub loading: bool,
    pub message: Option<Message>,
    pub ctx_tracks: Seq<TrackMeta>,
    pub albums_offset: int,
    pub albums_exhausted: bool,
    pub queue_just_opened: bool,
    pub starred: Set<Seq<char>>,
}

/// The state of the user interface.
pub struct AppState {
    pub tab: Tab,
    pub list: Vec<ListItem>,
    pub selected: usize,
    pub list_title: String,
    nav_stack: Vec<NavLevel>,
    pub loading: bool,
    pub message: Option<Message>,
    /// The tracks of the current level, played from when Enter hits a track.
    ctx_tracks: Vec<TrackMeta>,
    /// Ids of the starred tracks (drawn with a heart).
    pub starred_ids: Vec<String>,
    /// Paging of the Albums tab.
    pub albums_offset: usize,
    pub albums_exhausted: bool,
    /// The Queue tab was just opened: the selection snaps to the current track.
    queue_just_opened: bool,
}

pub open spec fn level_view(l: NavLevel) -> (Tab, Seq<ListItem>, int, Seq<char>) {
    (l.tab, l.list@, l.selected as int, l.title@)
}

impl View for AppState {
    type V = AppView;

    closed spec fn view(&self) -> AppView {
        AppView {
            tab: self.tab,
            list: self.list@,
            selected: self.selected as int,
            list_title: self.list_title@,
            nav: self.nav_stack@.map_values(|l: NavLevel| level_view(l)),
            loading: self.loading,
            message: self.message,
            ctx_tracks: self.ctx_tracks@,
            albums_offset: self.albums_offset as int,
            albums_exhausted: self.albums_exhausted,
            queue_just_opened: self.queue_just_opened,
            starred: texts(self.starred_ids@).to_set(),
        }
    }
}

impl AppView {
    /// The level that `push_level` saves: the current tab, list, selection and
    /// title go onto the stack, the list and title are emptied, the selection reset.
    pub open spec fn pushed(self) -> AppView {
        if self.list.len() == 0 {
            self
        } else {
            AppView {
                nav: self.nav.push((self.tab, self.list, self.selected, self.list_title)),
                list: Seq::empty(),
                list_title: Seq::empty(),
                selected: 0,
                ..self
            }
        }
    }

    /// The state after `set_list`: the list `list` titled `title`, its first
    /// row selected.
    pub open spec fn listed(self, list: Seq<ListItem>, title: Seq<char>) -> AppView {
        AppView { list, selected: 0, list_title: title, ..self }
    }

    /// The state after `set_list` was called with each list of `lists` in turn.
    pub open spec fn relisted(self, lists: Seq<(Seq<ListItem>, Seq<char>)>) -> AppView
        decreases lists.len(),
    {
        if lists.len() == 0 {
            self
        } else {
            self.relisted(lists.drop_last()).listed(lists.last().0, lists.last().1)
        }
    }

    /// The state after `back`: the top level is restored and the context
    /// tracks are dropped; without a level nothing changes.
    pub open spec fn popped(self) -> AppView {
        if self.nav.len() == 0 {
            self
        } else {
            let top = self.nav.last();
            AppView {
                nav: self.nav.drop_last(),
                tab: top.0,
                list: top.1,
                selected: top.2,
                list_title: top.3,
                ctx_tracks: Seq::empty(),
                ..self
            }
        }
    }
}

impl AppView {
    /// One row down, staying on the last row.
    pub open spec fn moved_down(self) -> AppView {
        if self.list.len() == 0 {
            self
        } else {
            AppView {
                selected: if self.selected + 1 < self.list.len() {
                    self.selected + 1
                } else {
                    self.list.len() - 1
                },
                ..self
            }
        }
    }

    /// One row up, staying on the first row.
    pub open spec fn moved_up(self) -> AppView {
        AppView {
            selected: if self.selected > 0 {
                self.selected - 1
            } else {
                0
            },
            ..self
        }
    }

    /// `height` rows down or up, staying in the list.
    pub open spec fn paged(self, height: int, down: bool) -> AppView {
        if height == 0 || self.list.len() == 0 {
            self
        } else {
            AppView {
                selected: if down {
                    if self.selected + height < self.list.len() - 1 {
                        self.selected + height
                    } else {
                        self.list.len() - 1
                    }
                } else if self.selected >= height {
                    self.selected - height
                } else {
                    0
                },
                ..self
            }
        }
    }

    /// The last row selected (the first of an empty list).
    pub open spec fn at_bottom(self) -> AppView {
        AppView {
            selected: if self.list.len() > 0 {
                self.list.len() - 1
            } else {
                0
            },
            ..self
        }
    }
}

/// Moving the selection keeps it on a row of the list.
pub proof fn lemma_moves_stay_in_list(v: AppView, height: int, down: bool)
    requires
        0 <= v.selected < v.list.len(),
        height >= 0,
    ensures
        0 <= v.moved_down().selected < v.list.len(),
        0 <= v.moved_up().selected < v.list.len(),
        0 <= v.paged(height, down).selected < v.list.len(),
        0 <= v.at_bottom().selected < v.list.len(),
{
}

/// Paging by `height` rows moves the selection `height` rows down, stopping
/// at the last row, or `height` rows up, stopping at the first; nothing else
/// changes. An empty list or a height of 0 changes nothing.
pub proof fn lemma_page_moves_by_height(v: AppView, height: int)
    requires
        v.selected >= 0,
        height >= 0,
    ensures
        (height == 0 || v.list.len() == 0) ==> v.paged(height, true) == v && v.paged(height, false)
            == v,
        (height > 0 && v.list.len() > 0) ==> {
            &&& v.paged(height, true) == (AppView { selected: v.paged(height, true).selected, ..v })
            &&& v.paged(height, false) == (AppView {
                selected: v.paged(height, false).selected,
                ..v
            })
            &&& v.selected + height <= v.list.len() - 1 ==> v.paged(height, true).selected
                == v.selected + height
            &&& v.selected + height > v.list.len() - 1 ==> v.paged(height, true).selected
                == v.list.len() - 1
            &&& v.selected >= height ==> v.paged(height, false).selected == v.selected - height
            &&& v.selected < height ==> v.paged(height, false).selected == 0
        },
{
}

/// A page down that does not reach the last row is undone by a page up.
pub proof fn lemma_page_up_undoes_page_down(v: AppView, height: int)
    requires
        v.selected >= 0,
        height > 0,
        v.selected + height < v.list.len(),
    ensures
        v.paged(height, true).paged(height, false) == v,
{
}

/// The selection of the Queue tab always lies on a row of the queue shown.
pub proof fn lemma_queue_selection_in_list(v: AppView, queue: Seq<TrackMeta>, current: Option<TrackMeta>)
    requires
        queue.len() > 0,
        v.selected >= 0,
    ensures
        0 <= queue_selection(v, queue, current) < queue.len(),
{
    if v.queue_just_opened && current.is_some() && has_track_id(queue, current.unwrap().id@) {
        let id = current.unwrap().id@;
        let k = choose|k: int| 0 <= k < queue.len() && queue[k].id@ == id;
        lemma_start_index_bound(queue, id, k);
    }
}

proof fn lemma_start_index_bound(tracks: Seq<TrackMeta>, id: Seq<char>, k: int)
    requires
        0 <= k < tracks.len(),
        tracks[k].id@ == id,
    ensures
        0 <= start_index(tracks, id) <= k,
    decreases k,
{
    if k > 0 && tracks[0].id@ != id {
        let t = tracks.drop_first();
        assert(t[k - 1] == tracks[k]);
        lemma_start_index_bound(t, id, k - 1);
    }
}

/// Going back after opening a level restores the tab, list, selection and
/// title that were on screen (only the context tracks are dropped).
pub proof fn lemma_back_undoes_push(v: AppView)
    requires
        v.list.len() > 0,
    ensures
        v.pushed().popped() == (AppView { ctx_tracks: Seq::empty(), ..v }),
{
    assert(v.pushed().nav.drop_last() =~= v.nav);
}

/// `back` brings back the level saved by `push_level` whatever happened in
/// between that left the navigation levels alone: its tab, list, selection
/// and title, and the levels below it.
pub proof fn lemma_back_restores_saved_level(v: AppView, w: AppView)
    requires
        v.list.len() > 0,
        w.nav == v.pushed().nav,
    ensures
        w.popped() == (AppView {
            tab: v.tab,
            list: v.list,
            selected: v.selected,
            list_title: v.list_title,
            nav: v.nav,
            ctx_tracks: Seq::empty(),
            ..w
        }),
{
    assert(v.pushed().nav.drop_last() =~= v.nav);
}

/// Lists shown one after another leave the navigation levels and all but the
/// list, its selection and title as they were.
pub proof fn lemma_relisted_keeps_levels(v: AppView, lists: Seq<(Seq<ListItem>, Seq<char>)>)
    ensures
        v.relisted(lists) == (AppView {
            list: v.relisted(lists).list,
            selected: v.relisted(lists).selected,
            list_title: v.relisted(lists).list_title,
            ..v
        }),
    decreases lists.len(),
{
    if lists.len() > 0 {
        lemma_relisted_keeps_levels(v, lists.drop_last());
    }
}

/// `back` after `push_level` and any number of `set_list` calls gives back
/// the state before `push_level`, but for the context tracks, which it drops.
pub proof fn lemma_back_undoes_push_after_lists(v: AppView, lists: Seq<(Seq<ListItem>, Seq<char>)>)
    requires
        v.list.len() > 0,
    ensures
        v.pushed().relisted(lists).popped() == (AppView { ctx_tracks: Seq::empty(), ..v }),
{
    lemma_relisted_keeps_levels(v.pushed(), lists);
    lemma_back_restores_saved_level(v, v.pushed().relisted(lists));
}

// ---------- rows ----------

/// The row of an artist.
pub open spec fn artist_row(a: ArtistId3) -> ListItem {
    ListItem::Artist { id: a.id, name: a.name, album_count: a.album_count }
}

/// The row of a cached album.
pub open spec fn album_row(a: CachedAlbum) -> ListItem {
    ListItem::Album { id: a.id, name: a.name, artist: a.artist, year: a.year, duration: a.duration }
}

/// The row of a cached playlist.
pub open spec fn playlist_row(p: CachedPlaylist) -> ListItem {
    ListItem::Playlist { id: p.id, name: p.name, song_count: p.song_count }
}

/// The track of a cache row.
pub open spec fn meta_of(t: CachedTrack) -> TrackMeta {
    TrackMeta {
        id: t.id,
        title: t.title,
        artist: t.artist,
        album: t.album,
        album_id: t.album_id,
        cover_art: t.cover_art,
        duration: t.duration,
        track_number: t.track_number,
        disc_number: t.disc_number,
    }
}

pub fn items_from_artists(artists: &[ArtistId3]) -> (r: Vec<ListItem>)
    ensures
        r@ == artists@.map_values(|a: ArtistId3| artist_row(a)),
{
    let mut out: Vec<ListItem> = Vec::new();
    let mut i: usize = 0;
    while i < artists.len()
        invariant
            i <= artists@.len(),
            out@ == artists@.subrange(0, i as int).map_values(|a: ArtistId3| artist_row(a)),
        decreases artists@.len() - i,
    {
        let a = &artists[i];
        out.push(ListItem::Artist { id: a.id.clone(), name: a.name.clone(), album_count: a.album_count });
        assert(artists@.subrange(0, i + 1) == artists@.subrange(0, i as int).push(artists@[i as int]));
        i = i + 1;
    }
    assert(artists@.subrange(0, artists@.len() as int) == artists@);
    out
}

pub fn items_from_cached_album(a: &CachedAlbum) -> (r: ListItem)
    ensures
        r == album_row(*a),
{
    ListItem::Album {
        id: a.id.clone(),
        name: a.name.clone(),
        artist: a.artist.clone(),
        year: a.year,
        duration: a.duration,
    }
}

pub fn items_from_track(t: &CachedTrack) -> (r: ListItem)
    ensures
        r == ListItem::Track(meta_of(*t)),
{
    ListItem::Track(TrackMeta::from_cached(t))
}

fn album_rows(albums: &[CachedAlbum]) -> (r: Vec<ListItem>)
    ensures
        r@ == albums@.map_values(|a: CachedAlbum| album_row(a)),
{
    let mut out: Vec<ListItem> = Vec::new();
    let mut i: usize = 0;
    while i < albums.len()
        invariant
            i <= albums@.len(),
            out@ == albums@.subrange(0, i as int).map_values(|a: CachedAlbum| album_row(a)),
        decreases albums@.len() - i,
    {
        out.push(items_from_cached_album(&albums[i]));
        assert(albums@.subrange(0, i + 1) == albums@.subrange(0, i as int).push(albums@[i as int]));
        i = i + 1;
    }
    assert(albums@.subrange(0, albums@.len() as int) == albums@);
    out
}

fn track_rows(tracks: &[CachedTrack]) -> (r: (Vec<ListItem>, Vec<TrackMeta>))
    ensures
        r.0@ == tracks@.map_values(|t: CachedTrack| ListItem::Track(meta_of(t))),
        r.1@ == tracks@.map_values(|t: CachedTrack| meta_of(t)),
{
    let mut rows: Vec<ListItem> = Vec::new();
    let mut metas: Vec<TrackMeta> = Vec::new();
    let mut i: usize = 0;
    while i < tracks.len()
        invariant
            i <= tracks@.len(),
            rows@ == tracks@.subrange(0, i as int).map_values(
                |t: CachedTrack| ListItem::Track(meta_of(t)),
            ),
            metas@ == tracks@.subrange(0, i as int).map_values(|t: CachedTrack| meta_of(t)),
        decreases tracks@.len() - i,
    {
        rows.push(items_from_track(&tracks[i]));
        metas.push(TrackMeta::from_cached(&tracks[i]));
        assert(tracks@.subrange(0, i + 1) == tracks@.subrange(0, i as int).push(tracks@[i as int]));
        i = i + 1;
    }
    assert(tracks@.subrange(0, tracks@.len() as int) == tracks@);
    (rows, metas)
}

/// The server entry of a track (to keep a starred track in the cache).
pub fn child_from_meta(t: &TrackMeta) -> (r: Child)
    ensures
        r.id == t.id,
        r.title == Some(t.title),
        r.album == Some(t.album),
        r.album_id == Some(t.album_id),
        r.artist == Some(t.artist),
        r.cover_art == t.cover_art,
        r.duration == Some(t.duration),
        r.track == t.track_number,
        r.disc_number == t.disc_number,
        r.parent.is_none() && r.is_dir.is_none() && r.year.is_none() && r.genre.is_none(),
        r.content_type.is_none() && r.suffix.is_none() && r.size.is_none(),
{
    Child {
        id: t.id.clone(),
        parent: None,
        is_dir: None,
        title: Some(t.title.clone()),
        album: Some(t.album.clone()),
        artist: Some(t.artist.clone()),
        album_id: Some(t.album_id.clone()),
        cover_art: t.cover_art.clone(),
        duration: Some(t.duration),
        track: t.track_number,
        disc_number: t.disc_number,
        year: None,
        genre: None,
        content_type: None,
        suffix: None,
        size: None,
    }
}


/// What Enter on the selected row asks for.
#[derive(Debug)]
pub enum Selection {
    /// No row is selected.
    Nothing,
    /// Open the albums of an artist.
    OpenArtist { id: String, name: String },
    /// Open the tracks of an album.
    OpenAlbum { id: String, name: String },
    /// Open the tracks of a playlist.
    OpenPlaylist { id: String, name: String },
    /// Load the next page of albums.
    LoadMore,
    /// The context tracks were queued; the audio must follow this step.
    Played(PlayerOp),
}

/// Enter on the selected row, from the views before to those after: a
/// track replaces the queue of the player by the tracks of the current level,
/// played from that track; the other rows say what to open; without a
/// selected row nothing happens. Any message is cleared.
pub open spec fn selection_made(
    before: AppView,
    after: AppView,
    eng_before: EngineView,
    eng_after: EngineView,
    r: Selection,
) -> bool {
    &&& !(before.selected < before.list.len()) ==> {
        &&& r is Nothing
        &&& after == before
        &&& eng_after == eng_before
    }
    &&& before.selected < before.list.len() ==> {
        &&& after == (AppView { message: None, ..before })
        &&& match before.list[before.selected] {
            ListItem::Artist { id, name, .. } => r == (Selection::OpenArtist { id, name })
                && eng_after == eng_before,
            ListItem::Album { id, name, .. } => r == (Selection::OpenAlbum { id, name })
                && eng_after == eng_before,
            ListItem::Playlist { id, name, .. } => r == (Selection::OpenPlaylist {
                id,
                name,
            }) && eng_after == eng_before,
            ListItem::More => r is LoadMore && eng_after == eng_before,
            ListItem::Track(t) => {
                let start = start_index(before.ctx_tracks, t.id@);
                &&& queue_replaced(
                    eng_before,
                    eng_after,
                    before.ctx_tracks,
                    start,
                )
                &&& r == Selection::Played(
                    start_op(before.ctx_tracks.len() as int, start),
                )
            },
        }
    }
}

/// The index of the first track with the id `id`, or 0 when there is none.
pub open spec fn start_index(tracks: Seq<TrackMeta>, id: Seq<char>) -> int
    decreases tracks.len(),
{
    if tracks.len() == 0 {
        0
    } else if tracks[0].id@ == id {
        0
    } else if exists|k: int| 0 <= k < tracks.len() && tracks[k].id@ == id {
        1 + start_index(tracks.drop_first(), id)
    } else {
        0
    }
}

/// Whether some track of `tracks` has the id `id`.
pub open spec fn has_track_id(tracks: Seq<TrackMeta>, id: Seq<char>) -> bool {
    exists|k: int| 0 <= k < tracks.len() && tracks[k].id@ == id
}

/// The index of the first track with the id `id`, if there is one.
fn position_of(tracks: &[TrackMeta], id: &str) -> (r: Option<usize>)
    ensures
        r.is_some() == has_track_id(tracks@, id@),
        r.is_some() ==> r.unwrap() == start_index(tracks@, id@),
        r.is_none() ==> start_index(tracks@, id@) == 0,
{
    let mut k: usize = 0;
    while k < tracks.len()
        invariant
            k <= tracks@.len(),
            forall|j: int| 0 <= j < k ==> tracks@[j].id@ != id@,
        decreases tracks@.len() - k,
    {
        if str_eq(tracks[k].id.as_str(), id) {
            proof {
                lemma_start_index(tracks@, id@, k as int);
            }
            return Some(k);
        }
        k = k + 1;
    }
    proof {
        lemma_start_index_absent(tracks@, id@);
    }
    None
}

proof fn lemma_start_index(tracks: Seq<TrackMeta>, id: Seq<char>, k: int)
    requires
        0 <= k < tracks.len(),
        tracks[k].id@ == id,
        forall|j: int| 0 <= j < k ==> tracks[j].id@ != id,
    ensures
        start_index(tracks, id) == k,
    decreases k,
{
    if k > 0 {
        let t = tracks.drop_first();
        assert(tracks[k].id@ == id);
        assert(t[k - 1] == tracks[k]);
        assert forall|j: int| 0 <= j < k - 1 implies t[j].id@ != id by {
            assert(t[j] == tracks[j + 1]);
        }
        lemma_start_index(t, id, k - 1);
    }
}

proof fn lemma_start_index_absent(tracks: Seq<TrackMeta>, id: Seq<char>)
    requires
        forall|j: int| 0 <= j < tracks.len() ==> tracks[j].id@ != id,
    ensures
        start_index(tracks, id) == 0,
{
}

impl AppState {
    /// The Artists tab, empty, nothing loading, no message.
    pub fn new() -> (s: AppState)
        ensures
            s@ == (AppView {
                tab: Tab::Artists,
                list: Seq::empty(),
                selected: 0,
                list_title: Seq::empty(),
                nav: Seq::empty(),
                loading: false,
                message: None,
                ctx_tracks: Seq::empty(),
                albums_offset: 0,
                albums_exhausted: false,
                queue_just_opened: false,
                starred: Set::empty(),
            }),
    {
        let s = AppState {
            tab: Tab::Artists,
            list: Vec::new(),
            selected: 0,
            list_title: String::new(),
            nav_stack: Vec::new(),
            loading: false,
            message: None,
            ctx_tracks: Vec::new(),
            starred_ids: Vec::new(),
            albums_offset: 0,
            albums_exhausted: false,
            queue_just_opened: false,
        };
        assert(s.nav_stack@.map_values(|l: NavLevel| level_view(l)) =~= Seq::empty());
        assert(texts(s.starred_ids@).to_set() =~= Set::empty());
        s
    }

    // ---------- the list ----------

    /// Shows a new list, selecting its first row.
    pub fn set_list(&mut self, items: Vec<ListItem>, title: String)
        ensures
            final(self)@ == old(self)@.listed(items@, title@),
    {
        self.list = items;
        self.selected = 0;
        self.list_title = title;
    }

    /// Saves the list on screen as a navigation level (when it is not empty).
    pub fn push_level(&mut self)
        ensures
            final(self)@ == old(self)@.pushed(),
    {
        if self.list.len() == 0 {
            return;
        }
        let mut list: Vec<ListItem> = Vec::new();
        std::mem::swap(&mut list, &mut self.list);
        let mut title = String::new();
        std::mem::swap(&mut title, &mut self.list_title);
        let ghost before = self.nav_stack@;
        let level = NavLevel { tab: self.tab, list, selected: self.selected, title };
        self.nav_stack.push(level);
        self.selected = 0;
        proof {
            before.lemma_push_map_commute(|l: NavLevel| level_view(l), level);
        }
    }

    /// Goes back to the previous navigation level, if any.
    pub fn back(&mut self)
        ensures
            final(self)@ == old(self)@.popped(),
    {
        let ghost before = self.nav_stack@;
        match self.nav_stack.pop() {
            Some(level) => {
                self.tab = level.tab;
                self.list = level.list;
                self.selected = level.selected;
                self.list_title = level.title;
                self.ctx_tracks = Vec::new();
                proof {
                    assert(before == self.nav_stack@.push(level));
                    self.nav_stack@.lemma_push_map_commute(|l: NavLevel| level_view(l), level);
                    assert(before.map_values(|l: NavLevel| level_view(l)).drop_last()
                        =~= self.nav_stack@.map_values(|l: NavLevel| level_view(l)));
                }
            },
            None => {},
        }
    }

    pub fn has_parent(&self) -> (r: bool)
        ensures
            r == (self@.nav.len() > 0),
    {
        self.nav_stack.len() > 0
    }

    /// One row down, staying on the last row.
    pub fn move_down(&mut self)
        ensures
            final(self)@ == old(self)@.moved_down(),
    {
        if self.list.len() > 0 {
            let last = self.list.len() - 1;
            self.selected = if self.selected < last {
                self.selected + 1
            } else {
                last
            };
        }
    }

    /// One row up, staying on the first row.
    pub fn move_up(&mut self)
        ensures
            final(self)@ == old(self)@.moved_up(),
    {
        if self.selected > 0 {
            self.selected = self.selected - 1;
        }
    }

    /// Moves the selection by `height` rows down or up, staying in the list.
    pub fn page(&mut self, height: usize, down: bool)
        ensures
            final(self)@ == old(self)@.paged(height as int, down),
    {
        if height == 0 || self.list.len() == 0 {
            return;
        }
        let n = self.list.len() - 1;
        self.selected = if down {
            if self.selected >= n || height >= n - self.selected {
                n
            } else {
                self.selected + height
            }
        } else if self.selected >= height {
            self.selected - height
        } else {
            0
        };
    }

    pub fn top(&mut self)
        ensures
            final(self)@ == (AppView { selected: 0, ..old(self)@ }),
    {
        self.selected = 0;
    }

    pub fn bottom(&mut self)
        ensures
            final(self)@ == old(self)@.at_bottom(),
    {
        self.selected = if self.list.len() > 0 {
            self.list.len() - 1
        } else {
            0
        };
    }

    /// The selected row, if the selection lies in the list.
    pub fn selected_item(&self) -> (r: Option<&ListItem>)
        ensures
            r.is_some() == (self@.selected < self@.list.len()),
            r.is_some() ==> *r.unwrap() == self@.list[self@.selected],
    {
        if self.selected < self.list.len() {
            Some(&self.list[self.selected])
        } else {
            None
        }
    }

    /// The selected track, if the selected row is a track.
    pub fn selected_track(&self) -> (r: Option<TrackMeta>)
        ensures
            r == selected_track_of(self@),
    {
        match self.selected_item() {
            Some(ListItem::Track(t)) => Some(t.clone()),
            _ => None,
        }
    }

    pub fn set_message(&mut self, text: String, is_error: bool)
        ensures
            final(self)@ == (AppView { message: Some(Message { text, is_error }), ..old(self)@ }),
    {
        self.message = Some(Message { text, is_error });
    }

    pub fn clear_message(&mut self)
        ensures
            final(self)@ == (AppView { message: None, ..old(self)@ }),
    {
        self.message = None;
    }
}


// ---------- what the screens show ----------

/// Rows of the Albums tab: the albums, then a row that loads more unless the
/// server has none left.
pub open spec fn album_tab_rows(albums: Seq<CachedAlbum>, exhausted: bool) -> Seq<ListItem> {
    let rows = albums.map_values(|a: CachedAlbum| album_row(a));
    if exhausted {
        rows
    } else {
        rows.push(ListItem::More)
    }
}

/// A title followed by a count in brackets, as in "Favorites (3)".
pub open spec fn counted(text: Seq<char>, n: nat) -> Seq<char> {
    text + " ("@ + decimal(n) + ")"@
}

/// The rows of a list of tracks.
pub open spec fn track_items(tracks: Seq<TrackMeta>) -> Seq<ListItem> {
    tracks.map_values(|t: TrackMeta| ListItem::Track(t))
}

/// The selection of the Queue tab once the queue is shown again: on a freshly
/// opened tab the current track, else the old selection kept in the list.
pub open spec fn queue_selection(
    v: AppView,
    queue: Seq<TrackMeta>,
    current: Option<TrackMeta>,
) -> int {
    if queue.len() == 0 {
        0
    } else if v.queue_just_opened && current.is_some() && has_track_id(
        queue,
        current.unwrap().id@,
    ) {
        start_index(queue, current.unwrap().id@)
    } else if v.selected < queue.len() {
        v.selected
    } else {
        queue.len() - 1
    }
}

/// The selected track of a view, if the selected row is a track.
pub open spec fn selected_track_of(v: AppView) -> Option<TrackMeta> {
    if 0 <= v.selected < v.list.len() {
        match v.list[v.selected] {
            ListItem::Track(t) => Some(t),
            _ => None,
        }
    } else {
        None
    }
}

/// Whether a row is the track with the id `id`.
pub open spec fn is_track_row(item: ListItem, id: Seq<char>) -> bool {
    match item {
        ListItem::Track(t) => t.id@ == id,
        _ => false,
    }
}

/// The Favorites tab after the track `id` left the favorites: its rows and
/// context entries go, the selection stays where it was as far as the list
/// allows, and the count in the title follows.
pub open spec fn without_favorite(v: AppView, id: Seq<char>) -> AppView {
    let list = v.list.filter(|i: ListItem| !is_track_row(i, id));
    AppView {
        list: list,
        ctx_tracks: v.ctx_tracks.filter(|t: TrackMeta| t.id@ != id),
        selected: if list.len() == 0 {
            0
        } else if v.selected < list.len() {
            v.selected
        } else {
            list.len() - 1
        },
        list_title: counted("Favorites"@, list.len()),
        ..v
    }
}

/// The entries of an album that are tracks (folders are left out).
pub fn playable_children(children: &[Child]) -> (r: Vec<Child>)
    ensures
        r@ == children@.filter(|c: Child| is_playable(c)),
{
    let mut out: Vec<Child> = Vec::new();
    let mut i: usize = 0;
    while i < children.len()
        invariant
            i <= children@.len(),
            out@ == children@.subrange(0, i as int).filter(|c: Child| is_playable(c)),
        decreases children@.len() - i,
    {
        proof {
            children@.subrange(0, i as int).lemma_filter_push(
                children@[i as int],
                |c: Child| is_playable(c),
            );
            assert(children@.subrange(0, i + 1) == children@.subrange(0, i as int).push(
                children@[i as int],
            ));
        }
        let dir = match children[i].is_dir {
            Some(d) => d,
            None => false,
        };
        if !dir {
            out.push(children[i].clone());
        }
        i = i + 1;
    }
    assert(children@.subrange(0, children@.len() as int) == children@);
    out
}

/// What the cache must give for the tab on screen.
#[derive(Debug, Clone, Copy, PartialEq, Eq, Structural)]
pub enum TabLoad {
    /// All artists.
    Artists,
    /// The most recent albums, at most `limit`.
    Albums { limit: usize },
    /// All playlists.
    Playlists,
    /// The starred tracks.
    Favorites,
    /// Nothing: the Queue tab is filled from the player.
    Nothing,
}

/// The number of albums shown before paging starts.
pub const RECENT_ALBUMS: usize = 500;

/// The number of albums asked for by one more page.
pub const ALBUMS_PAGE_SIZE: i32 = 200;

impl Default for AppState {
    fn default() -> (s: AppState)
        ensures
            s@ == AppState::new_view(),
    {
        AppState::new()
    }
}

impl AppState {
    /// The state of a fresh user interface.
    pub open spec fn new_view() -> AppView {
        AppView {
            tab: Tab::Artists,
            list: Seq::empty(),
            selected: 0,
            list_title: Seq::empty(),
            nav: Seq::empty(),
            loading: false,
            message: None,
            ctx_tracks: Seq::empty(),
            albums_offset: 0,
            albums_exhausted: false,
            queue_just_opened: false,
            starred: Set::empty(),
        }
    }

    // ---------- reading the state ----------

    /// The tab on screen.
    pub fn current_tab(&self) -> (r: Tab)
        ensures
            r == self@.tab,
    {
        self.tab
    }

    /// Shows another tab (its content is loaded by the caller).
    pub fn set_tab(&mut self, tab: Tab)
        ensures
            final(self)@ == (AppView { tab, ..old(self)@ }),
    {
        self.tab = tab;
    }

    /// The index of the selected row.
    pub fn selection(&self) -> (r: usize)
        ensures
            r == self@.selected,
    {
        self.selected
    }

    /// Whether data is being loaded.
    pub fn is_loading(&self) -> (r: bool)
        ensures
            r == self@.loading,
    {
        self.loading
    }

    /// Marks whether data is being loaded.
    pub fn set_loading(&mut self, loading: bool)
        ensures
            final(self)@ == (AppView { loading, ..old(self)@ }),
    {
        self.loading = loading;
    }

    /// The status line, if any.
    pub fn current_message(&self) -> (r: Option<&Message>)
        ensures
            r is Some == self@.message is Some,
            r is Some ==> *r->0 == self@.message->0,
    {
        self.message.as_ref()
    }

    // ---------- refresh ----------

    /// A full refresh begins: loading, and no message.
    pub fn refresh_started(&mut self)
        ensures
            final(self)@ == (AppView { loading: true, message: None, ..old(self)@ }),
    {
        self.loading = true;
        self.message = None;
    }

    /// A full refresh ended, with the text of its error if it failed.
    pub fn refresh_finished(&mut self, error: Option<String>)
        ensures
            final(self)@.message is Some,
            final(self)@ == (AppView {
                loading: false,
                message: final(self)@.message,
                ..old(self)@
            }),
            error is None ==> final(self)@.message->0.text@ == "Library updated"@
                && !final(self)@.message->0.is_error,
            error is Some ==> final(self)@.message->0.text@ == "Refresh error: "@ + error->0@
                && final(self)@.message->0.is_error,
    {
        self.loading = false;
        match error {
            None => self.set_message("Library updated".to_owned(), false),
            Some(e) => {
                let mut text = "Refresh error: ".to_owned();
                text.append(e.as_str());
                self.set_message(text, true);
            },
        }
    }

    // ---------- the tabs ----------

    /// The Artists tab with these artists.
    pub fn show_artists(&mut self, artists: &[ArtistId3])
        ensures
            final(self)@ == (AppView {
                list: artists@.map_values(|a: ArtistId3| artist_row(a)),
                selected: 0,
                list_title: "Artists"@,
                ..old(self)@
            }),
    {
        let items = items_from_artists(artists);
        self.set_list(items, "Artists".to_owned());
    }

    /// The Albums tab starts again at its first page.
    pub fn reset_album_paging(&mut self)
        ensures
            final(self)@ == (AppView { albums_offset: 0, albums_exhausted: false, ..old(self)@ }),
    {
        self.albums_offset = 0;
        self.albums_exhausted = false;
    }

    /// The Albums tab with these albums, and a row to load more unless the
    /// server has none left.
    pub fn show_albums(&mut self, albums: &[CachedAlbum])
        ensures
            final(self)@ == (AppView {
                list: album_tab_rows(albums@, old(self)@.albums_exhausted),
                selected: 0,
                list_title: "Albums"@,
                ..old(self)@
            }),
    {
        let mut items = album_rows(albums);
        if !self.albums_exhausted {
            items.push(ListItem::More);
        }
        self.set_list(items, "Albums".to_owned());
    }

    /// The offset of the next page of albums.
    pub fn more_albums_offset(&self) -> (r: usize)
        requires
            self@.albums_offset + RECENT_ALBUMS <= usize::MAX,
        ensures
            r == self@.albums_offset + RECENT_ALBUMS,
    {
        self.albums_offset + RECENT_ALBUMS
    }

    /// A page of albums at `offset` came back with `received` albums: none
    /// means the server has no more, else the paging moves on.
    pub fn albums_page_loaded(&mut self, offset: usize, received: usize)
        ensures
            received == 0 ==> final(self)@ == (AppView { albums_exhausted: true, ..old(self)@ }),
            received > 0 ==> final(self)@ == (AppView {
                albums_offset: offset as int,
                ..old(self)@
            }),
    {
        if received == 0 {
            self.albums_exhausted = true;
        } else {
            self.albums_offset = offset;
        }
    }

    /// The Playlists tab with these playlists.
    pub fn show_playlists(&mut self, playlists: &[CachedPlaylist])
        ensures
            final(self)@ == (AppView {
                list: playlists@.map_values(|p: CachedPlaylist| playlist_row(p)),
                selected: 0,
                list_title: "Playlists"@,
                ..old(self)@
            }),
    {
        let mut items: Vec<ListItem> = Vec::new();
        let mut i: usize = 0;
        while i < playlists.len()
            invariant
                i <= playlists@.len(),
                items@ == playlists@.subrange(0, i as int).map_values(
                    |p: CachedPlaylist| playlist_row(p),
                ),
            decreases playlists@.len() - i,
        {
            let p = &playlists[i];
            items.push(
                ListItem::Playlist { id: p.id.clone(), name: p.name.clone(), song_count: p.song_count },
            );
            assert(playlists@.subrange(0, i + 1) == playlists@.subrange(0, i as int).push(
                playlists@[i as int],
            ));
            i = i + 1;
        }
        assert(playlists@.subrange(0, playlists@.len() as int) == playlists@);
        self.set_list(items, "Playlists".to_owned());
    }

    /// The Favorites tab with these starred tracks, which become the context
    /// that Enter plays from.
    pub fn show_favorites(&mut self, tracks: &[CachedTrack])
        ensures
            final(self)@ == (AppView {
                list: tracks@.map_values(|t: CachedTrack| ListItem::Track(meta_of(t))),
                selected: 0,
                list_title: counted("Favorites"@, tracks@.len()),
                ctx_tracks: tracks@.map_values(|t: CachedTrack| meta_of(t)),
                ..old(self)@
            }),
    {
        let (rows, metas) = track_rows(tracks);
        self.ctx_tracks = metas;
        let title = titled_count("Favorites", tracks.len() as u64);
        self.set_list(rows, title);
    }

    /// Prepares the tab on screen to be filled from the cache and says what
    /// to read: the Albums tab starts again at its first page, the Queue tab
    /// waits for the player.
    pub fn begin_tab_load(&mut self) -> (r: TabLoad)
        ensures
            match old(self)@.tab {
                Tab::Artists => r == TabLoad::Artists && final(self)@ == old(self)@,
                Tab::Albums => r == (TabLoad::Albums { limit: RECENT_ALBUMS }) && final(self)@ == (
                AppView { albums_offset: 0, albums_exhausted: false, ..old(self)@ }),
                Tab::Playlists => r == TabLoad::Playlists && final(self)@ == old(self)@,
                Tab::Favorites => r == TabLoad::Favorites && final(self)@ == old(self)@,
                Tab::Queue => r == TabLoad::Nothing && final(self)@ == (AppView {
                    queue_just_opened: true,
                    list: Seq::empty(),
                    selected: 0,
                    list_title: "Queue"@,
                    ..old(self)@
                }),
            },
    {
        match self.tab {
            Tab::Artists => TabLoad::Artists,
            Tab::Albums => {
                self.reset_album_paging();
                TabLoad::Albums { limit: RECENT_ALBUMS }
            },
            Tab::Playlists => TabLoad::Playlists,
            Tab::Favorites => TabLoad::Favorites,
            Tab::Queue => {
                self.open_queue();
                TabLoad::Nothing
            },
        }
    }

    /// The Queue tab was opened: it is filled from the player on the next
    /// tick, with the selection on the current track.
    pub fn open_queue(&mut self)
        ensures
            final(self)@ == (AppView {
                queue_just_opened: true,
                list: Seq::empty(),
                selected: 0,
                list_title: "Queue"@,
                ..old(self)@
            }),
    {
        self.queue_just_opened = true;
        self.set_list(Vec::new(), "Queue".to_owned());
    }

    /// Shows the queue of the player in the Queue tab.
    pub fn sync_queue(&mut self, engine: &Engine)
        ensures
            final(self)@ == (AppView {
                list: track_items(engine@.queue),
                list_title: counted("Queue"@, engine@.queue.len()),
                selected: queue_selection(old(self)@, engine@.queue, engine@.current),
                queue_just_opened: false,
                ..old(self)@
            }),
    {
        let sel = self.selected;
        let queue = engine.queue();
        let mut rows: Vec<ListItem> = Vec::new();
        let mut i: usize = 0;
        while i < queue.len()
            invariant
                i <= queue@.len(),
                rows@ == track_items(queue@.subrange(0, i as int)),
            decreases queue@.len() - i,
        {
            rows.push(ListItem::Track(queue[i].clone()));
            assert(queue@.subrange(0, i + 1) == queue@.subrange(0, i as int).push(queue@[i as int]));
            i = i + 1;
        }
        assert(queue@.subrange(0, queue@.len() as int) == queue@);
        let n = rows.len();
        self.list = rows;
        self.list_title = titled_count("Queue", n as u64);
        if n == 0 {
            self.selected = 0;
            self.queue_just_opened = false;
            return;
        }
        if self.queue_just_opened {
            self.queue_just_opened = false;
            match engine.current() {
                Some(cur) => match position_of(queue, cur.id.as_str()) {
                    Some(idx) => {
                        self.selected = idx;
                        return;
                    },
                    None => {},
                },
                None => {},
            }
        }
        self.selected = if sel < n - 1 {
            sel
        } else {
            n - 1
        };
    }

    // ---------- Enter ----------

    /// Enter on the selected row. A track replaces the queue of the player by
    /// the tracks of the current level, played from that track; the other rows
    /// say what to open. Any message is cleared when a row is selected.
    pub fn select_current(&mut self, engine: &mut Engine) -> (r: Selection)
        requires
            old(engine).wf(),
        ensures
            final(engine).wf(),
            selection_made(old(self)@, final(self)@, old(engine)@, final(engine)@, r),
    {
        if self.selected >= self.list.len() {
            return Selection::Nothing;
        }
        let item = self.list[self.selected].clone();
        self.clear_message();
        match item {
            ListItem::Artist { id, name, .. } => Selection::OpenArtist { id, name },
            ListItem::Album { id, name, .. } => Selection::OpenAlbum { id, name },
            ListItem::Playlist { id, name, .. } => Selection::OpenPlaylist { id, name },
            ListItem::More => Selection::LoadMore,
            ListItem::Track(t) => {
                let start = match position_of(self.ctx_tracks.as_slice(), t.id.as_str()) {
                    Some(k) => k,
                    None => 0,
                };
                let tracks = self.ctx_tracks.clone();
                assert(tracks@ =~= self.ctx_tracks@);
                let op = self.queue_and_play(engine, tracks, start);
                Selection::Played(op)
            },
        }
    }

    /// Opens the albums of an artist as a new level.
    pub fn show_artist_albums(&mut self, albums: &[CachedAlbum], name: String)
        ensures
            final(self)@ == (AppView {
                list: albums@.map_values(|a: CachedAlbum| album_row(a)),
                selected: 0,
                list_title: name@,
                ..old(self)@.pushed()
            }),
    {
        self.push_level();
        let items = album_rows(albums);
        self.set_list(items, name);
    }

    /// Opens the tracks of an album or a playlist as a new level; they become
    /// the context that Enter plays from.
    pub fn show_tracks(&mut self, tracks: &[CachedTrack], name: String)
        ensures
            final(self)@ == (AppView {
                list: tracks@.map_values(|t: CachedTrack| ListItem::Track(meta_of(t))),
                selected: 0,
                list_title: name@,
                ctx_tracks: tracks@.map_values(|t: CachedTrack| meta_of(t)),
                ..old(self)@.pushed()
            }),
    {
        let (rows, metas) = track_rows(tracks);
        self.ctx_tracks = metas;
        self.push_level();
        self.set_list(rows, name);
    }

    /// Replaces the queue of the player and plays it from `start`.
    pub fn queue_and_play(&self, engine: &mut Engine, tracks: Vec<TrackMeta>, start: usize) -> (op:
        PlayerOp)
        requires
            old(engine).wf(),
        ensures
            final(engine).wf(),
            queue_replaced(old(engine)@, final(engine)@, tracks@, start as int),
            op == start_op(tracks@.len() as int, start as int),
    {
        engine.set_queue(tracks, start)
    }

    // ---------- favorites ----------

    /// The starred track ids, as read from the cache.
    pub fn set_starred(&mut self, ids: Vec<String>)
        ensures
            final(self)@ == (AppView { starred: texts(ids@).to_set(), ..old(self)@ }),
    {
        self.starred_ids = ids;
    }

    /// Whether the track is starred.
    pub fn is_starred(&self, id: &str) -> (r: bool)
        ensures
            r == self@.starred.contains(id@),
    {
        contains_text(&self.starred_ids, id)
    }

    /// The track that `f` stars or unstars, with whether it is starred now.
    /// Without a selected track an error message says so.
    pub fn favorite_target(&mut self) -> (r: Option<(TrackMeta, bool)>)
        ensures
            selected_track_of(old(self)@) is None ==> {
                &&& r is None
                &&& final(self)@.message is Some
                &&& final(self)@.message->0.text@ == "Favorites: select a track first (f)"@
                &&& final(self)@.message->0.is_error
                &&& final(self)@ == (AppView { message: final(self)@.message, ..old(self)@ })
            },
            selected_track_of(old(self)@) is Some ==> {
                let t = selected_track_of(old(self)@)->0;
                &&& r == Some((t, old(self)@.starred.contains(t.id@)))
                &&& final(self)@ == old(self)@
            },
    {
        match self.selected_track() {
            None => {
                self.set_message("Favorites: select a track first (f)".to_owned(), true);
                None
            },
            Some(t) => {
                let starred = self.is_starred(t.id.as_str());
                Some((t, starred))
            },
        }
    }

    /// The track `id` was starred (`now_starred`) or unstarred. In the
    /// Favorites tab an unstarred track leaves the list at once; elsewhere the
    /// hearts follow the starred ids and the list stays.
    pub fn favorite_toggled(&mut self, id: &str, now_starred: bool)
        ensures
            (old(self)@.tab == Tab::Favorites && !now_starred) ==> final(self)@ == without_favorite(
                old(self)@,
                id@,
            ),
            !(old(self)@.tab == Tab::Favorites && !now_starred) ==> final(self)@ == old(self)@,
    {
        if !(self.tab == Tab::Favorites && !now_starred) {
            return;
        }
        let before = self.selected;
        let ghost pred = |i: ListItem| !is_track_row(i, id@);
        let mut kept: Vec<ListItem> = Vec::new();
        let mut i: usize = 0;
        while i < self.list.len()
            invariant
                i <= self.list@.len(),
                kept@ == self.list@.subrange(0, i as int).filter(pred),
                pred == (|i: ListItem| !is_track_row(i, id@)),
            decreases self.list@.len() - i,
        {
            proof {
                self.list@.subrange(0, i as int).lemma_filter_push(self.list@[i as int], pred);
                assert(self.list@.subrange(0, i + 1) == self.list@.subrange(0, i as int).push(
                    self.list@[i as int],
                ));
            }
            let drop = match &self.list[i] {
                ListItem::Track(t) => str_eq(t.id.as_str(), id),
                _ => false,
            };
            if !drop {
                kept.push(self.list[i].clone());
            }
            i = i + 1;
        }
        assert(self.list@.subrange(0, self.list@.len() as int) == self.list@);
        let ghost tpred = |t: TrackMeta| t.id@ != id@;
        let mut ctx: Vec<TrackMeta> = Vec::new();
        let mut j: usize = 0;
        while j < self.ctx_tracks.len()
            invariant
                j <= self.ctx_tracks@.len(),
                ctx@ == self.ctx_tracks@.subrange(0, j as int).filter(tpred),
                tpred == (|t: TrackMeta| t.id@ != id@),
            decreases self.ctx_tracks@.len() - j,
        {
            proof {
                self.ctx_tracks@.subrange(0, j as int).lemma_filter_push(
                    self.ctx_tracks@[j as int],
                    tpred,
                );
                assert(self.ctx_tracks@.subrange(0, j + 1) == self.ctx_tracks@.subrange(
                    0,
                    j as int,
                ).push(self.ctx_tracks@[j as int]));
            }
            if !str_eq(self.ctx_tracks[j].id.as_str(), id) {
                ctx.push(self.ctx_tracks[j].clone());
            }
            j = j + 1;
        }
        assert(self.ctx_tracks@.subrange(0, self.ctx_tracks@.len() as int) == self.ctx_tracks@);
        let n = kept.len();
        self.list = kept;
        self.ctx_tracks = ctx;
        self.selected = if n == 0 {
            0
        } else if before < n {
            before
        } else {
            n - 1
        };
        self.list_title = titled_count("Favorites", n as u64);
    }
}

} // verus!
