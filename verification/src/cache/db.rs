//! Rows of the local library cache, as the user interface reads them.
use crate::api::models::Child;
use crate::playback::engine::{string_or_empty, text_or_empty};
use vstd::prelude::*;
use vstd::string::StringExecFns;

verus! {

/// An album row of the cache.
#[derive(Debug)]
pub struct CachedAlbum {
    pub id: String,
    pub name: String,
    pub artist: String,
    pub duration: i32,
    pub year: Option<i32>,
}

/// A track row of the cache.
#[derive(Debug)]
pub struct CachedTrack {
    pub id: String,
    pub title: String,
    pub album: String,
    pub album_id: String,
    pub artist: String,
    pub cover_art: Option<String>,
    pub duration: i32,
    pub track_number: Option<i32>,
    pub disc_number: Option<i32>,
}

/// A playlist row of the cache.
#[derive(Debug)]
pub struct CachedPlaylist {
    pub id: String,
    pub name: String,
    pub song_count: i32,
}

impl Clone for CachedAlbum {
    fn clone(&self) -> (r: Self)
        ensures
            r == *self,
    {
        CachedAlbum {
            id: self.id.clone(),
            name: self.name.clone(),
            artist: self.artist.clone(),
            duration: self.duration,
            year: self.year,
        }
    }
}

impl Clone for CachedTrack {
    fn clone(&self) -> (r: Self)
        ensures
            r == *self,
    {
        CachedTrack {
            id: self.id.clone(),
            title: self.title.clone(),
            album: self.album.clone(),
            album_id: self.album_id.clone(),
            artist: self.artist.clone(),
            cover_art: self.cover_art.clone(),
            duration: self.duration,
            track_number: self.track_number,
            disc_number: self.disc_number,
        }
    }
}

impl Clone for CachedPlaylist {
    fn clone(&self) -> (r: Self)
        ensures
            r == *self,
    {
        CachedPlaylist { id: self.id.clone(), name: self.name.clone(), song_count: self.song_count }
    }
}

/// The track row that a server entry is stored as, in the album `album_id`:
/// absent texts are stored empty and an absent duration as 0.
pub fn track_of_child(c: &Child, album_id: &str) -> (r: CachedTrack)
    ensures
        r.id == c.id,
        r.album_id@ == album_id@,
        r.title@ == text_or_empty(c.title),
        r.album@ == text_or_empty(c.album),
        r.artist@ == text_or_empty(c.artist),
        r.cover_art == c.cover_art,
        r.duration == (match c.duration {
            Some(d) => d,
            None => 0,
        }),
        r.track_number == c.track,
        r.disc_number == c.disc_number,
{
    CachedTrack {
        id: c.id.clone(),
        title: string_or_empty(&c.title),
        album: string_or_empty(&c.album),
        album_id: album_id.to_owned(),
        artist: string_or_empty(&c.artist),
        cover_art: c.cover_art.clone(),
        duration: match c.duration {
            Some(d) => d,
            None => 0,
        },
        track_number: c.track,
        disc_number: c.disc_number,
    }
}

/// The album id under which the tracks of a playlist are cached.
pub fn playlist_album_id(playlist_id: &str) -> (r: String)
    ensures
        r@ == "playlist:"@ + playlist_id@,
{
    let mut s = "playlist:".to_owned();
    s.append(playlist_id);
    s
}

} // verus!
