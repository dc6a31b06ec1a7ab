//! The flat row under which a track is kept in the local table, and the way
//! from a track to its row and back.
//!
//! A row keeps the track's name, the album's name, the artists' names as one
//! text and the track's address. The addresses of the album and of the
//! artists are not kept: a track read back carries the empty text in their
//! place.

use vstd::prelude::*;
use crate::model::{
    artist_names, artist_views, track_views, Album, AlbumView, Artist, ArtistView, ExternalUrls,
    Track, TrackView,
};
use crate::names::{
    has_separator, join, join_names, lemma_join_then_split, lemma_separator_in_name_diverges,
    lemma_split_empty, split, split_names, texts,
};

verus! {

/// The statement that creates the table where it does not exist yet.
pub const CREATE_TABLE: &'static str =
    "CREATE TABLE IF NOT EXISTS tracks (id INTEGER PRIMARY KEY AUTOINCREMENT, name TEXT NOT NULL, album_name TEXT NOT NULL, artist_names TEXT NOT NULL, spotify_url TEXT NOT NULL)";

/// The statement that appends one row; its four parameters are the columns
/// of a [`TrackRow`], in the order of its fields.
pub const INSERT_TRACK: &'static str =
    "INSERT INTO tracks (name, album_name, artist_names, spotify_url) VALUES (?, ?, ?, ?)";

/// The statement that reads every row. No order is asked for: the table
/// walks its rows by id, which it gives out in rising order.
pub const SELECT_TRACKS: &'static str =
    "SELECT * FROM tracks";

/// The columns of a row that is about to be written. The table gives the row
/// its id.
#[derive(Debug, Clone, PartialEq, Eq)]
pub struct TrackRow {
    pub name: String,
    pub album_name: String,
    pub artist_names: String,
    pub spotify_url: String,
}

/// A row as the table holds it.
#[derive(Debug, Clone, PartialEq, Eq)]
pub struct StoredTrackRow {
    pub id: i64,
    pub name: String,
    pub album_name: String,
    pub artist_names: String,
    pub spotify_url: String,
}

pub struct TrackRowView {
    pub name: Seq<char>,
    pub album_name: Seq<char>,
    pub artist_names: Seq<char>,
    pub spotify_url: Seq<char>,
}

pub struct StoredTrackRowView {
    pub id: int,
    pub columns: TrackRowView,
}

impl View for TrackRow {
    type V = TrackRowView;

    open spec fn view(&self) -> TrackRowView {
        TrackRowView {
            name: self.name@,
            album_name: self.album_name@,
            artist_names: self.artist_names@,
            spotify_url: self.spotify_url@,
        }
    }
}

impl View for StoredTrackRow {
    type V = StoredTrackRowView;

    open spec fn view(&self) -> StoredTrackRowView {
        StoredTrackRowView {
            id: self.id as int,
            columns: TrackRowView {
                name: self.name@,
                album_name: self.album_name@,
                artist_names: self.artist_names@,
                spotify_url: self.spotify_url@,
            },
        }
    }
}

/// The views of a list of rows to write, in order.
pub open spec fn row_views(rows: Seq<TrackRow>) -> Seq<TrackRowView> {
    Seq::new(rows.len(), |i: int| rows[i]@)
}

/// The views of a list of stored rows, in order.
pub open spec fn stored_row_views(rows: Seq<StoredTrackRow>) -> Seq<StoredTrackRowView> {
    Seq::new(rows.len(), |i: int| rows[i]@)
}

/// The row of a track: its names and its own address, the artists' names
/// joined into one text.
pub open spec fn flattened(track: TrackView) -> TrackRowView {
    TrackRowView {
        name: track.name,
        album_name: track.album.name,
        artist_names: join_names(artist_names(track.album.artists)),
        spotify_url: track.spotify,
    }
}

/// The rows of a list of tracks: one for each track, in the tracks' order.
pub open spec fn flattened_all(tracks: Seq<TrackView>) -> Seq<TrackRowView> {
    Seq::new(tracks.len(), |i: int| flattened(tracks[i]))
}

/// Artists of the given names whose addresses are not known.
pub open spec fn placeholder_artists(names: Seq<Seq<char>>) -> Seq<ArtistView> {
    Seq::new(names.len(), |i: int| ArtistView { name: names[i], spotify: Seq::empty() })
}

/// The track that a row's columns stand for: the artists are the pieces of
/// the joined names, and only the track's own address is known.
pub open spec fn restored(columns: TrackRowView) -> TrackView {
    TrackView {
        name: columns.name,
        album: AlbumView {
            name: columns.album_name,
            artists: placeholder_artists(split_names(columns.artist_names)),
            spotify: Seq::empty(),
        },
        spotify: columns.spotify_url,
    }
}

/// The tracks that a list of stored rows stands for: one for each row, in
/// the rows' order.
pub open spec fn restored_all(rows: Seq<StoredTrackRowView>) -> Seq<TrackView> {
    Seq::new(rows.len(), |i: int| restored(rows[i].columns))
}

/// A track with the addresses of its album and of its artists blanked.
pub open spec fn without_nested_addresses(track: TrackView) -> TrackView {
    TrackView {
        name: track.name,
        album: AlbumView {
            name: track.album.name,
            artists: placeholder_artists(artist_names(track.album.artists)),
            spotify: Seq::empty(),
        },
        spotify: track.spotify,
    }
}

/// Whether a track has at least one artist and none of its artists' names
/// holds the separator.
pub open spec fn survives_flattening(track: TrackView) -> bool {
    &&& track.album.artists.len() > 0
    &&& forall|i: int|
        0 <= i < track.album.artists.len() ==> !has_separator(
            #[trigger] track.album.artists[i].name,
        )
}

/// Writing a track and reading its row back keeps the track's name, the
/// album's name, the track's address and the artists' names in order, and
/// blanks the other addresses, where the track has an artist and no name
/// holds the separator.
pub proof fn lemma_round_trip(track: TrackView)
    requires
        survives_flattening(track),
    ensures
        restored(flattened(track)) == without_nested_addresses(track),
{
    let names = artist_names(track.album.artists);
    assert forall|i: int| 0 <= i < names.len() implies !has_separator(#[trigger] names[i]) by {
        assert(names[i] == track.album.artists[i].name);
    }
    lemma_join_then_split(names);
}

/// Where an artist's name holds the separator, the names read back differ
/// from the names written.
pub proof fn lemma_round_trip_diverges(track: TrackView)
    requires
        exists|i: int|
            0 <= i < track.album.artists.len() && has_separator(
                #[trigger] track.album.artists[i].name,
            ),
    ensures
        artist_names(restored(flattened(track)).album.artists) != artist_names(
            track.album.artists,
        ),
{
    let names = artist_names(track.album.artists);
    let i = choose|i: int|
        0 <= i < track.album.artists.len() && has_separator(
            #[trigger] track.album.artists[i].name,
        );
    assert(has_separator(names[i]));
    lemma_separator_in_name_diverges(names);
    assert(artist_names(placeholder_artists(split_names(join_names(names)))) =~= split_names(
        join_names(names),
    ));
}

/// A track without artists is written with the empty text for their names,
/// and read back with one artist whose name is empty.
pub proof fn lemma_round_trip_without_artists(track: TrackView)
    requires
        track.album.artists.len() == 0,
    ensures
        flattened(track).artist_names == Seq::<char>::empty(),
        artist_names(restored(flattened(track)).album.artists) == seq![Seq::<char>::empty()],
{
    lemma_split_empty();
    assert(artist_names(track.album.artists) =~= Seq::<Seq<char>>::empty());
    assert(artist_names(placeholder_artists(seq![Seq::<char>::empty()])) =~= seq![
        Seq::<char>::empty(),
    ]);
}

/// Rows come back in the order in which their tracks were written: where
/// the stored rows hold, one for one and in order, the columns written for a
/// list of tracks, each of which has an artist and no separator in a name,
/// the tracks read back are those tracks, in that order, with the nested
/// addresses blanked. The ids play no part.
pub proof fn lemma_read_back_in_order(tracks: Seq<TrackView>, rows: Seq<StoredTrackRowView>)
    requires
        rows.len() == tracks.len(),
        forall|i: int| 0 <= i < rows.len() ==> (#[trigger] rows[i]).columns == flattened(tracks[i]),
        forall|i: int| 0 <= i < tracks.len() ==> survives_flattening(#[trigger] tracks[i]),
    ensures
        restored_all(rows) == Seq::new(tracks.len(), |i: int| without_nested_addresses(tracks[i])),
{
    assert forall|i: int| 0 <= i < rows.len() implies restored(#[trigger] rows[i].columns)
        == without_nested_addresses(tracks[i]) by {
        lemma_round_trip(tracks[i]);
    }
    assert(restored_all(rows) =~= Seq::new(
        tracks.len(),
        |i: int| without_nested_addresses(tracks[i]),
    ));
}

/// The names of the artists, in order.
pub fn artist_name_list(artists: &Vec<Artist>) -> (names: Vec<String>)
    ensures
        texts(names@) == artist_names(artist_views(artists@)),
{
    let mut names: Vec<String> = Vec::new();
    let mut i: usize = 0;
    while i < artists.len()
        invariant
            i <= artists.len(),
            names@.len() == i,
            forall|k: int| 0 <= k < i ==> (#[trigger] names@[k])@ == artists@[k].name@,
        decreases artists.len() - i,
    {
        names.push(artists[i].name.clone());
        i += 1;
    }
    assert(texts(names@) =~= artist_names(artist_views(artists@)));
    names
}

/// The row under which a track is written.
pub fn flatten_track(track: &Track) -> (row: TrackRow)
    ensures
        row@ == flattened(track@),
{
    let names = artist_name_list(&track.album.artists);
    TrackRow {
        name: track.name.clone(),
        album_name: track.album.name.clone(),
        artist_names: join(&names),
        spotify_url: track.external_urls.spotify.clone(),
    }
}

/// The rows under which tracks are written: one for each track, in the
/// tracks' order.
pub fn flatten_tracks(tracks: &Vec<Track>) -> (rows: Vec<TrackRow>)
    ensures
        row_views(rows@) == flattened_all(track_views(tracks@)),
{
    let mut rows: Vec<TrackRow> = Vec::new();
    let mut i: usize = 0;
    while i < tracks.len()
        invariant
            i <= tracks.len(),
            rows@.len() == i,
            forall|k: int| 0 <= k < i ==> (#[trigger] rows@[k])@ == flattened(tracks@[k]@),
        decreases tracks.len() - i,
    {
        rows.push(flatten_track(&tracks[i]));
        i += 1;
    }
    assert(row_views(rows@) =~= flattened_all(track_views(tracks@)));
    rows
}

/// The track that a stored row stands for. The row's id is not part of it.
pub fn restore_track(row: &StoredTrackRow) -> (track: Track)
    ensures
        track@ == restored(row@.columns),
{
    let pieces = split(row.artist_names.as_str());
    let mut artists: Vec<Artist> = Vec::new();
    let mut i: usize = 0;
    while i < pieces.len()
        invariant
            i <= pieces.len(),
            artists@.len() == i,
            forall|k: int|
                0 <= k < i ==> (#[trigger] artists@[k])@ == (ArtistView {
                    name: pieces@[k]@,
                    spotify: Seq::empty(),
                }),
        decreases pieces.len() - i,
    {
        artists.push(Artist { name: pieces[i].clone(), external_urls: ExternalUrls::unknown() });
        i += 1;
    }
    assert(artist_views(artists@) =~= placeholder_artists(texts(pieces@)));
    Track {
        name: row.name.clone(),
        album: Album {
            name: row.album_name.clone(),
            artists,
            external_urls: ExternalUrls::unknown(),
        },
        external_urls: ExternalUrls { spotify: row.spotify_url.clone() },
    }
}

/// The tracks that stored rows stand for: one for each row, in the rows'
/// order.
pub fn restore_tracks(rows: &Vec<StoredTrackRow>) -> (tracks: Vec<Track>)
    ensures
        track_views(tracks@) == restored_all(stored_row_views(rows@)),
{
    let mut tracks: Vec<Track> = Vec::new();
    let mut i: usize = 0;
    while i < rows.len()
        invariant
            i <= rows.len(),
            tracks@.len() == i,
            forall|k: int| 0 <= k < i ==> (#[trigger] tracks@[k])@ == restored(rows@[k]@.columns),
        decreases rows.len() - i,
    {
        tracks.push(restore_track(&rows[i]));
        i += 1;
    }
    assert(track_views(tracks@) =~= restored_all(stored_row_views(rows@)));
    tracks
}

} // verus!
