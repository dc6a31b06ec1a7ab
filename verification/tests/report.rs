use spotify_tracks::model::{Album, Artist, ExternalUrls, Track};
use spotify_tracks::report::{report, track_block};

fn urls(text: &str) -> ExternalUrls {
    ExternalUrls { spotify: text.to_string() }
}

fn track(name: &str, album: &str, artists: &[&str], address: &str) -> Track {
    Track {
        name: name.to_string(),
        album: Album {
            name: album.to_string(),
            artists: artists
                .iter()
                .map(|a| Artist { name: a.to_string(), external_urls: urls("artist") })
                .collect(),
            external_urls: urls("album"),
        },
        external_urls: urls(address),
    }
}

#[test]
fn block_has_five_lines() {
    let t = track("Get Lucky", "Random Access Memories", &["Daft Punk", "Pharrell Williams"], "https://open.spotify.com/track/69k");
    assert_eq!(track_block(&t), vec![
        "Get Lucky".to_string(),
        "Random Access Memories".to_string(),
        "Daft PunkPharrell Williams".to_string(),
        "https://open.spotify.com/track/69k".to_string(),
        "---------".to_string(),
    ]);
}

#[test]
fn block_without_artists_has_an_empty_line() {
    let t = track("T", "A", &[], "u");
    assert_eq!(track_block(&t), vec!["T", "A", "", "u", "---------"]);
}

#[test]
fn report_of_no_tracks_is_empty() {
    assert_eq!(report(&Vec::new()), Vec::<String>::new());
}

#[test]
fn report_lists_blocks_in_order() {
    let tracks = vec![track("T1", "A1", &["x"], "u1"), track("T2", "A2", &["y", "z"], "u2")];
    assert_eq!(report(&tracks), vec![
        "T1", "A1", "x", "u1", "---------",
        "T2", "A2", "yz", "u2", "---------",
    ]);
}
