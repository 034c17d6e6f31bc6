//! Data of the Subsonic REST API (JSON flavour), as the client reads it.
//!
//! The field layout follows the server's wire format; decoding from JSON is
//! done by the application around this library.
use vstd::prelude::*;

verus! {

/// The outer object of every answer: `{ "subsonic-response": { ... } }`.
#[derive(Debug)]
pub struct SubsonicResponse<T> {
    pub response: ResponseEnvelope<T>,
}

/// Status, version, optional error and the method-specific payload.
#[derive(Debug)]
pub struct ResponseEnvelope<T> {
    pub status: String,
    pub version: String,
    pub error: Option<ApiError>,
    pub data: Option<T>,
}

/// An error reported by the server inside an answer.
#[derive(Debug)]
pub struct ApiError {
    pub code: i32,
    pub message: String,
}

/// Payload of `getArtists`.
#[derive(Debug)]
pub struct ArtistsPayload {
    pub artists: ArtistsIndex,
}

/// The alphabetical index of artists.
#[derive(Debug, Default)]
pub struct ArtistsIndex {
    pub index: Vec<ArtistIndexEntry>,
}

/// One letter of the artist index.
#[derive(Debug, Default)]
pub struct ArtistIndexEntry {
    pub name: String,
    pub artist: Vec<ArtistId3>,
}

/// An artist as listed by the server.
#[derive(Debug, Default)]
pub struct ArtistId3 {
    pub id: String,
    pub name: String,
    pub album_count: Option<i32>,
}

/// Payload of `getAlbumList2`.
#[derive(Debug)]
pub struct AlbumList2Payload {
    pub album_list_2: AlbumList,
}

/// A page of albums.
#[derive(Debug, Default)]
pub struct AlbumList {
    pub album: Vec<AlbumId3>,
}

/// An album as listed by the server.
#[derive(Debug, Default)]
pub struct AlbumId3 {
    pub id: String,
    pub name: String,
    pub artist: Option<String>,
    pub artist_id: Option<String>,
    pub cover_art: Option<String>,
    pub song_count: Option<i32>,
    pub duration: Option<i32>,
    pub year: Option<i32>,
}

/// Payload of `getArtist`.
#[derive(Debug)]
pub struct ArtistPayload {
    pub artist: ArtistWithAlbums,
}

/// An artist with the albums it has on the server.
#[derive(Debug, Default)]
pub struct ArtistWithAlbums {
    pub id: String,
    pub name: String,
    pub album_count: Option<i32>,
    pub album: Vec<AlbumId3>,
}

/// Payload of `getAlbum`.
#[derive(Debug)]
pub struct AlbumPayload {
    pub album: AlbumWithSongs,
}

/// An album with its songs.
#[derive(Debug, Default)]
pub struct AlbumWithSongs {
    pub id: String,
    pub name: String,
    pub artist: Option<String>,
    pub artist_id: Option<String>,
    pub cover_art: Option<String>,
    pub song_count: Option<i32>,
    pub duration: Option<i32>,
    pub song: Vec<Child>,
}

/// A song or a directory entry.
#[derive(Debug, Default)]
pub struct Child {
    pub id: String,
    pub parent: Option<String>,
    pub is_dir: Option<bool>,
    pub title: Option<String>,
    pub album: Option<String>,
    pub artist: Option<String>,
    pub album_id: Option<String>,
    pub cover_art: Option<String>,
    pub duration: Option<i32>,
    pub track: Option<i32>,
    pub disc_number: Option<i32>,
    pub year: Option<i32>,
    pub genre: Option<String>,
    pub content_type: Option<String>,
    pub suffix: Option<String>,
    pub size: Option<i64>,
}

/// Payload of `getPlaylists`.
#[derive(Debug)]
pub struct PlaylistsPayload {
    pub playlists: Option<PlaylistList>,
}

/// The list of playlists.
#[derive(Debug, Default)]
pub struct PlaylistList {
    pub playlist: Vec<Playlist>,
}

/// A playlist as listed by the server.
#[derive(Debug, Default)]
pub struct Playlist {
    pub id: String,
    pub name: String,
    pub song_count: Option<i32>,
    pub duration: Option<i32>,
}

/// Payload of `getPlaylist`.
#[derive(Debug)]
pub struct PlaylistPayload {
    pub playlist: PlaylistWithSongs,
}

/// A playlist with its entries.
#[derive(Debug, Default)]
pub struct PlaylistWithSongs {
    pub id: String,
    pub name: String,
    pub song_count: Option<i32>,
    pub duration: Option<i32>,
    pub entry: Vec<Child>,
}

/// A list of songs: `{ "song": [ ... ] }`.
#[derive(Debug, Default)]
pub struct SongList {
    pub song: Vec<Child>,
}

/// Payload of `getSimilarSongs`.
#[derive(Debug)]
pub struct SimilarSongsPayload {
    pub similar_songs: SongList,
}

/// Payload of `getRandomSongs`.
#[derive(Debug)]
pub struct RandomSongsPayload {
    pub random_songs: SongList,
}

/// Payload of `search3`.
#[derive(Debug)]
pub struct SearchResult3Payload {
    pub search_result_3: SearchResult3,
}

/// Payload of `getStarred2`: the starred songs.
#[derive(Debug)]
pub struct Starred2Payload {
    pub starred2: SongList,
}

/// Songs, albums and artists found by `search3`.
#[derive(Debug, Default)]
pub struct SearchResult3 {
    pub song: Vec<Child>,
    pub album: Vec<AlbumId3>,
    pub artist: Vec<ArtistId3>,
}

/// The payload of an answer that carries none (scrobble, star, unstar).
#[derive(Debug)]
pub struct EmptyPayload {}

impl Clone for ArtistId3 {
    fn clone(&self) -> (r: Self)
        ensures
            r == *self,
    {
        ArtistId3 { id: self.id.clone(), name: self.name.clone(), album_count: self.album_count }
    }
}

impl Clone for AlbumId3 {
    fn clone(&self) -> (r: Self)
        ensures
            r == *self,
    {
        AlbumId3 {
            id: self.id.clone(),
            name: self.name.clone(),
            artist: self.artist.clone(),
            artist_id: self.artist_id.clone(),
            cover_art: self.cover_art.clone(),
            song_count: self.song_count,
            duration: self.duration,
            year: self.year,
        }
    }
}

impl Clone for Child {
    fn clone(&self) -> (r: Self)
        ensures
            r == *self,
    {
        Child {
            id: self.id.clone(),
            parent: self.parent.clone(),
            is_dir: self.is_dir,
            title: self.title.clone(),
            album: self.album.clone(),
            artist: self.artist.clone(),
            album_id: self.album_id.clone(),
            cover_art: self.cover_art.clone(),
            duration: self.duration,
            track: self.track,
            disc_number: self.disc_number,
            year: self.year,
            genre: self.genre.clone(),
            content_type: self.content_type.clone(),
            suffix: self.suffix.clone(),
            size: self.size,
        }
    }
}

impl Clone for Playlist {
    fn clone(&self) -> (r: Self)
        ensures
            r == *self,
    {
        Playlist {
            id: self.id.clone(),
            name: self.name.clone(),
            song_count: self.song_count,
            duration: self.duration,
        }
    }
}

/// An entry of the server that is a track rather than a folder.
pub open spec fn is_playable(c: Child) -> bool {
    c.is_dir != Some(true)
}

} // verus!
