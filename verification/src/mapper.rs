//! From a response body to tracks: the shape that a search response must
//! have, and the decoder that reads it.
//!
//! The body is an object with a member `tracks`, an object whose member
//! `items` is an array of tracks. A track has a `name`, an `album` and
//! `external_urls`; an album has a `name`, an array `artists` and
//! `external_urls`; an artist has a `name` and `external_urls`; and
//! `external_urls` is an object with a text under `spotify`. Members beyond
//! these are not looked at. A value that lacks one of them, or holds
//! another kind of value in its place, does not have the shape.

use vstd::prelude::*;
use crate::json::{
    array_field_of, field_of, lemma_field_ignores_other_keys, text_field_of, widened, Json, Member,
};
use crate::model::{
    artist_views, track_views, Album, AlbumView, Artist, ArtistView, ExternalUrls,
    SearchResponse, Track, TrackView,
};

verus! {

/// A value did not have the shape that was asked of it.
#[derive(Debug, Clone, Copy, PartialEq, Eq)]
pub struct ShapeMismatch;

/// The address that a value carries under `external_urls`, then `spotify`.
pub open spec fn address_of(json: Json) -> Option<Seq<char>> {
    match field_of(json, "external_urls"@) {
        Some(urls) => text_field_of(urls, "spotify"@),
        None => None,
    }
}

/// The artist that a value describes, if it has the shape of one.
pub open spec fn artist_of(json: Json) -> Option<ArtistView> {
    match (text_field_of(json, "name"@), address_of(json)) {
        (Some(name), Some(spotify)) => Some(ArtistView { name, spotify }),
        _ => None,
    }
}

/// The artists that the values describe, in order, if each has the shape of
/// one.
pub open spec fn artists_of(items: Seq<Json>) -> Option<Seq<ArtistView>> {
    if forall|i: int| 0 <= i < items.len() ==> artist_of(#[trigger] items[i]) is Some {
        Some(Seq::new(items.len(), |i: int| artist_of(items[i])->0))
    } else {
        None
    }
}

/// The album that a value describes, if it has the shape of one.
pub open spec fn album_of(json: Json) -> Option<AlbumView> {
    match (text_field_of(json, "name"@), array_field_of(json, "artists"@), address_of(json)) {
        (Some(name), Some(items), Some(spotify)) => match artists_of(items) {
            Some(artists) => Some(AlbumView { name, artists, spotify }),
            None => None,
        },
        _ => None,
    }
}

/// The track that a value describes, if it has the shape of one.
pub open spec fn track_of(json: Json) -> Option<TrackView> {
    match (text_field_of(json, "name"@), field_of(json, "album"@), address_of(json)) {
        (Some(name), Some(album_json), Some(spotify)) => match album_of(album_json) {
            Some(album) => Some(TrackView { name, album, spotify }),
            None => None,
        },
        _ => None,
    }
}

/// The tracks that the values describe, in order, if each has the shape of
/// one.
pub open spec fn tracks_of(items: Seq<Json>) -> Option<Seq<TrackView>> {
    if forall|i: int| 0 <= i < items.len() ==> track_of(#[trigger] items[i]) is Some {
        Some(Seq::new(items.len(), |i: int| track_of(items[i])->0))
    } else {
        None
    }
}

/// The tracks of a response body, if the body has the shape of a search
/// response.
pub open spec fn search_response_of(body: Json) -> Option<Seq<TrackView>> {
    match field_of(body, "tracks"@) {
        Some(page) => match array_field_of(page, "items"@) {
            Some(items) => tracks_of(items),
            None => None,
        },
        None => None,
    }
}

/// An empty array of items has the shape of a list of tracks, and holds
/// none.
pub proof fn lemma_no_items_no_tracks()
    ensures
        tracks_of(Seq::<Json>::empty()) == Some(Seq::<TrackView>::empty()),
        artists_of(Seq::<Json>::empty()) == Some(Seq::<ArtistView>::empty()),
{
    assert(tracks_of(Seq::<Json>::empty())->0 =~= Seq::<TrackView>::empty());
    assert(artists_of(Seq::<Json>::empty())->0 =~= Seq::<ArtistView>::empty());
}

/// A member that the shape does not name is not looked at: a body with one
/// more member, of a key other than `tracks`, holds the same response.
pub proof fn lemma_body_ignores_other_members(body: Json, wider: Json, at: int, extra: Member)
    requires
        widened(body, wider, at, extra),
        extra.key@ != "tracks"@,
    ensures
        search_response_of(wider) == search_response_of(body),
{
    lemma_field_ignores_other_keys(body, wider, at, extra, "tracks"@);
}

/// A track with one more member, of a key that the shape of a track does
/// not name, is the same track.
pub proof fn lemma_track_ignores_other_members(track: Json, wider: Json, at: int, extra: Member)
    requires
        widened(track, wider, at, extra),
        extra.key@ != "name"@,
        extra.key@ != "album"@,
        extra.key@ != "external_urls"@,
    ensures
        track_of(wider) == track_of(track),
{
    lemma_field_ignores_other_keys(track, wider, at, extra, "name"@);
    lemma_field_ignores_other_keys(track, wider, at, extra, "album"@);
    lemma_field_ignores_other_keys(track, wider, at, extra, "external_urls"@);
}

/// Reads the address under `external_urls`, then `spotify`.
pub fn decode_address(json: &Json) -> (decoded: Result<ExternalUrls, ShapeMismatch>)
    ensures
        match decoded {
            Ok(urls) => address_of(*json) == Some(urls@),
            Err(_) => address_of(*json) is None,
        },
{
    match json.field("external_urls") {
        Some(urls) => match urls.text_field("spotify") {
            Some(spotify) => Ok(ExternalUrls { spotify: spotify.clone() }),
            None => Err(ShapeMismatch),
        },
        None => Err(ShapeMismatch),
    }
}

/// Reads an artist.
pub fn decode_artist(json: &Json) -> (decoded: Result<Artist, ShapeMismatch>)
    ensures
        match decoded {
            Ok(artist) => artist_of(*json) == Some(artist@),
            Err(_) => artist_of(*json) is None,
        },
{
    let name = match json.text_field("name") {
        Some(name) => name.clone(),
        None => { return Err(ShapeMismatch); },
    };
    let external_urls = match decode_address(json) {
        Ok(urls) => urls,
        Err(mismatch) => { return Err(mismatch); },
    };
    Ok(Artist { name, external_urls })
}

/// Reads each value as an artist, in order; one value without the shape
/// fails them all.
pub fn decode_artists(items: &Vec<Json>) -> (decoded: Result<Vec<Artist>, ShapeMismatch>)
    ensures
        match decoded {
            Ok(artists) => artists_of(items@) == Some(artist_views(artists@)),
            Err(_) => artists_of(items@) is None,
        },
{
    let mut artists: Vec<Artist> = Vec::new();
    let mut i: usize = 0;
    while i < items.len()
        invariant
            i <= items.len(),
            artists@.len() == i,
            forall|k: int| 0 <= k < i ==> artist_of(#[trigger] items@[k]) == Some(artists@[k]@),
        decreases items.len() - i,
    {
        match decode_artist(&items[i]) {
            Ok(artist) => {
                artists.push(artist);
            },
            Err(mismatch) => {
                assert(artist_of(items@[i as int]) is None);
                return Err(mismatch);
            },
        }
        i += 1;
    }
    assert(artists_of(items@)->0 =~= artist_views(artists@));
    Ok(artists)
}

/// Reads an album with its artists.
pub fn decode_album(json: &Json) -> (decoded: Result<Album, ShapeMismatch>)
    ensures
        match decoded {
            Ok(album) => album_of(*json) == Some(album@),
            Err(_) => album_of(*json) is None,
        },
{
    let name = match json.text_field("name") {
        Some(name) => name.clone(),
        None => { return Err(ShapeMismatch); },
    };
    let artists = match json.array_field("artists") {
        Some(items) => match decode_artists(items) {
            Ok(artists) => artists,
            Err(mismatch) => { return Err(mismatch); },
        },
        None => { return Err(ShapeMismatch); },
    };
    let external_urls = match decode_address(json) {
        Ok(urls) => urls,
        Err(mismatch) => { return Err(mismatch); },
    };
    Ok(Album { name, artists, external_urls })
}

/// Reads a track with its album.
pub fn decode_track(json: &Json) -> (decoded: Result<Track, ShapeMismatch>)
    ensures
        match decoded {
            Ok(track) => track_of(*json) == Some(track@),
            Err(_) => track_of(*json) is None,
        },
{
    let name = match json.text_field("name") {
        Some(name) => name.clone(),
        None => { return Err(ShapeMismatch); },
    };
    let album = match json.field("album") {
        Some(album_json) => match decode_album(album_json) {
            Ok(album) => album,
            Err(mismatch) => { return Err(mismatch); },
        },
        None => { return Err(ShapeMismatch); },
    };
    let external_urls = match decode_address(json) {
        Ok(urls) => urls,
        Err(mismatch) => { return Err(mismatch); },
    };
    Ok(Track { name, album, external_urls })
}

/// Reads each value as a track, in order; one value without the shape fails
/// them all.
pub fn decode_tracks(items: &Vec<Json>) -> (decoded: Result<Vec<Track>, ShapeMismatch>)
    ensures
        match decoded {
            Ok(tracks) => tracks_of(items@) == Some(track_views(tracks@)),
            Err(_) => tracks_of(items@) is None,
        },
{
    let mut tracks: Vec<Track> = Vec::new();
    let mut i: usize = 0;
    while i < items.len()
        invariant
            i <= items.len(),
            tracks@.len() == i,
            forall|k: int| 0 <= k < i ==> track_of(#[trigger] items@[k]) == Some(tracks@[k]@),
        decreases items.len() - i,
    {
        match decode_track(&items[i]) {
            Ok(track) => {
                tracks.push(track);
            },
            Err(mismatch) => {
                assert(track_of(items@[i as int]) is None);
                return Err(mismatch);
            },
        }
        i += 1;
    }
    assert(tracks_of(items@)->0 =~= track_views(tracks@));
    Ok(tracks)
}

/// Reads a response body. It succeeds exactly on the bodies that have the
/// shape of a search response, with the tracks in the body's order; an
/// empty array of items gives no tracks.
pub fn decode_search_response(body: &Json) -> (decoded: Result<SearchResponse, ShapeMismatch>)
    ensures
        match decoded {
            Ok(response) => search_response_of(*body) == Some(response@),
            Err(_) => search_response_of(*body) is None,
        },
{
    let page = match body.field("tracks") {
        Some(page) => page,
        None => { return Err(ShapeMismatch); },
    };
    match page.array_field("items") {
        Some(items) => match decode_tracks(items) {
            Ok(tracks) => Ok(SearchResponse { tracks }),
            Err(mismatch) => Err(mismatch),
        },
        None => Err(ShapeMismatch),
    }
}

} // verus!
