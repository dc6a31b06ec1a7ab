//! The catalogue's entities, as the search endpoint nests them, and their
//! mathematical views.

use vstd::prelude::*;

verus! {

/// The web address under which the catalogue shows an entity.
#[derive(Debug, Clone, PartialEq, Eq)]
pub struct ExternalUrls {
    pub spotify: String,
}

#[derive(Debug, Clone, PartialEq, Eq)]
pub struct Artist {
    pub name: String,
    pub external_urls: ExternalUrls,
}

/// An album with its artists in the order in which the catalogue lists them.
#[derive(Debug, Clone, PartialEq, Eq)]
pub struct Album {
    pub name: String,
    pub artists: Vec<Artist>,
    pub external_urls: ExternalUrls,
}

/// A track. Its own address identifies it, though nothing enforces that two
/// tracks differ in it.
#[derive(Debug, Clone, PartialEq, Eq)]
pub struct Track {
    pub name: String,
    pub album: Album,
    pub external_urls: ExternalUrls,
}

/// What a search returned: the tracks of the first page, in the order given.
#[derive(Debug, Clone, PartialEq, Eq)]
pub struct SearchResponse {
    pub tracks: Vec<Track>,
}

pub struct ArtistView {
    pub name: Seq<char>,
    pub spotify: Seq<char>,
}

pub struct AlbumView {
    pub name: Seq<char>,
    pub artists: Seq<ArtistView>,
    pub spotify: Seq<char>,
}

pub struct TrackView {
    pub name: Seq<char>,
    pub album: AlbumView,
    pub spotify: Seq<char>,
}

impl View for ExternalUrls {
    type V = Seq<char>;

    open spec fn view(&self) -> Seq<char> {
        self.spotify@
    }
}

impl View for Artist {
    type V = ArtistView;

    open spec fn view(&self) -> ArtistView {
        ArtistView { name: self.name@, spotify: self.external_urls@ }
    }
}

impl View for Album {
    type V = AlbumView;

    open spec fn view(&self) -> AlbumView {
        AlbumView {
            name: self.name@,
            artists: artist_views(self.artists@),
            spotify: self.external_urls@,
        }
    }
}

impl View for Track {
    type V = TrackView;

    open spec fn view(&self) -> TrackView {
        TrackView { name: self.name@, album: self.album@, spotify: self.external_urls@ }
    }
}

impl View for SearchResponse {
    type V = Seq<TrackView>;

    open spec fn view(&self) -> Seq<TrackView> {
        track_views(self.tracks@)
    }
}

/// The views of a list of artists, in order.
pub open spec fn artist_views(artists: Seq<Artist>) -> Seq<ArtistView> {
    Seq::new(artists.len(), |i: int| artists[i]@)
}

/// The views of a list of tracks, in order.
pub open spec fn track_views(tracks: Seq<Track>) -> Seq<TrackView> {
    Seq::new(tracks.len(), |i: int| tracks[i]@)
}

/// The names of a list of artists, in order.
pub open spec fn artist_names(artists: Seq<ArtistView>) -> Seq<Seq<char>> {
    Seq::new(artists.len(), |i: int| artists[i].name)
}

impl ExternalUrls {
    /// The placeholder that stands where an address is not known.
    pub fn unknown() -> (urls: ExternalUrls)
        ensures
            urls@ == Seq::<char>::empty(),
    {
        ExternalUrls { spotify: String::new() }
    }
}

} // verus!
