use spotify_tracks::model::{Album, Artist, ExternalUrls, Track};
use spotify_tracks::store::{
    artist_name_list, flatten_track, flatten_tracks, restore_track, restore_tracks,
    StoredTrackRow, TrackRow, CREATE_TABLE, INSERT_TRACK, SELECT_TRACKS,
};

fn urls(text: &str) -> ExternalUrls {
    ExternalUrls { spotify: text.to_string() }
}

fn artist(name: &str) -> Artist {
    Artist { name: name.to_string(), external_urls: urls(&format!("https://open.spotify.com/artist/{}", name)) }
}

fn track(name: &str, album: &str, artists: &[&str]) -> Track {
    Track {
        name: name.to_string(),
        album: Album {
            name: album.to_string(),
            artists: artists.iter().map(|a| artist(a)).collect(),
            external_urls: urls(&format!("https://open.spotify.com/album/{}", album)),
        },
        external_urls: urls(&format!("https://open.spotify.com/track/{}", name)),
    }
}

fn blank_artist(name: &str) -> Artist {
    Artist { name: name.to_string(), external_urls: urls("") }
}

fn stored(id: i64, row: &TrackRow) -> StoredTrackRow {
    StoredTrackRow {
        id,
        name: row.name.clone(),
        album_name: row.album_name.clone(),
        artist_names: row.artist_names.clone(),
        spotify_url: row.spotify_url.clone(),
    }
}

#[test]
fn flatten_track_joins_artist_names() {
    let row = flatten_track(&track("Get Lucky", "Random Access Memories", &["Daft Punk", "Pharrell Williams"]));
    assert_eq!(row, TrackRow {
        name: "Get Lucky".to_string(),
        album_name: "Random Access Memories".to_string(),
        artist_names: "Daft Punk, Pharrell Williams".to_string(),
        spotify_url: "https://open.spotify.com/track/Get Lucky".to_string(),
    });
}

#[test]
fn flatten_track_without_artists_has_empty_names() {
    let row = flatten_track(&track("Untitled", "Nobody", &[]));
    assert_eq!(row.artist_names, "");
}

#[test]
fn artist_name_list_keeps_order() {
    let t = track("x", "y", &["c", "a", "b"]);
    assert_eq!(artist_name_list(&t.album.artists), vec!["c".to_string(), "a".to_string(), "b".to_string()]);
}

#[test]
fn restore_track_splits_names_and_blanks_nested_addresses() {
    let row = StoredTrackRow {
        id: 7,
        name: "Get Lucky".to_string(),
        album_name: "Random Access Memories".to_string(),
        artist_names: "Daft Punk, Pharrell Williams".to_string(),
        spotify_url: "https://open.spotify.com/track/1".to_string(),
    };
    assert_eq!(restore_track(&row), Track {
        name: "Get Lucky".to_string(),
        album: Album {
            name: "Random Access Memories".to_string(),
            artists: vec![blank_artist("Daft Punk"), blank_artist("Pharrell Williams")],
            external_urls: urls(""),
        },
        external_urls: urls("https://open.spotify.com/track/1"),
    });
}

#[test]
fn round_trip_keeps_names_and_own_address() {
    let before = track("Paranoid Android", "OK Computer", &["Radiohead", "Someone Else"]);
    let back = restore_track(&stored(1, &flatten_track(&before)));
    assert_eq!(back.name, before.name);
    assert_eq!(back.album.name, before.album.name);
    assert_eq!(back.external_urls, before.external_urls);
    assert_eq!(back.album.external_urls.spotify, "");
    assert_eq!(back.album.artists.len(), 2);
    for (read, written) in back.album.artists.iter().zip(before.album.artists.iter()) {
        assert_eq!(read.name, written.name);
        assert_eq!(read.external_urls.spotify, "");
    }
    assert_ne!(back, before);
}

#[test]
fn round_trip_fragments_a_name_with_the_separator() {
    let before = track("EARFQUAKE", "IGOR", &["Tyler, The Creator"]);
    let first = restore_track(&stored(1, &flatten_track(&before)));
    let names: Vec<&str> = first.album.artists.iter().map(|a| a.name.as_str()).collect();
    assert_eq!(names, vec!["Tyler", "The Creator"]);
    assert_ne!(names, vec!["Tyler, The Creator"]);
    let second = restore_track(&stored(2, &flatten_track(&before)));
    assert_eq!(second, first);
}

#[test]
fn round_trip_without_artists_yields_one_empty_artist() {
    let before = track("Untitled", "Nobody", &[]);
    let row = flatten_track(&before);
    assert_eq!(row.artist_names, "");
    let back = restore_track(&stored(1, &row));
    assert_eq!(back.album.artists, vec![blank_artist("")]);
}

#[test]
fn rows_keep_the_order_of_the_tracks() {
    let tracks = vec![track("T1", "A1", &["x"]), track("T2", "A2", &["y"]), track("T3", "A3", &["z"])];
    let rows = flatten_tracks(&tracks);
    assert_eq!(rows.len(), 3);
    let names: Vec<&str> = rows.iter().map(|r| r.name.as_str()).collect();
    assert_eq!(names, vec!["T1", "T2", "T3"]);
    for (row, t) in rows.iter().zip(tracks.iter()) {
        assert_eq!(*row, flatten_track(t));
    }
}

#[test]
fn tracks_come_back_in_the_order_of_the_rows() {
    let tracks = vec![track("T1", "A1", &["x"]), track("T2", "A2", &["y"]), track("T3", "A3", &["z"])];
    let rows = flatten_tracks(&tracks);
    let table: Vec<StoredTrackRow> =
        rows.iter().enumerate().map(|(i, row)| stored(i as i64 + 1, row)).collect();
    let back = restore_tracks(&table);
    let names: Vec<&str> = back.iter().map(|t| t.name.as_str()).collect();
    assert_eq!(names, vec!["T1", "T2", "T3"]);
    for (t, row) in back.iter().zip(table.iter()) {
        assert_eq!(*t, restore_track(row));
    }
}

#[test]
fn no_rows_give_no_tracks() {
    assert_eq!(flatten_tracks(&Vec::new()), Vec::new());
    assert_eq!(restore_tracks(&Vec::new()), Vec::new());
}

#[test]
fn repeated_tracks_give_repeated_rows() {
    let t = track("Same", "Album", &["One"]);
    let rows = flatten_tracks(&vec![t.clone(), t.clone()]);
    assert_eq!(rows.len(), 2);
    assert_eq!(rows[0], rows[1]);
}

#[test]
fn statements_name_the_table_and_its_columns() {
    assert!(CREATE_TABLE.starts_with("CREATE TABLE IF NOT EXISTS tracks"));
    for column in ["id INTEGER PRIMARY KEY AUTOINCREMENT", "name TEXT NOT NULL", "album_name TEXT NOT NULL",
        "artist_names TEXT NOT NULL", "spotify_url TEXT NOT NULL"] {
        assert!(CREATE_TABLE.contains(column));
    }
    assert_eq!(INSERT_TRACK,
        "INSERT INTO tracks (name, album_name, artist_names, spotify_url) VALUES (?, ?, ?, ?)");
    assert_eq!(SELECT_TRACKS, "SELECT * FROM tracks");
}
