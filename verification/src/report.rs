//! The report: the lines that show a list of tracks to a reader.

use vstd::prelude::*;
use crate::model::{artist_names, track_views, Track, TrackView};
use crate::names::{concat_names, concatenate};
use crate::store::artist_name_list;

verus! {

/// The line that closes the block of one track.
pub open spec fn rule() -> Seq<char> {
    "---------"@
}

/// The five lines of one track: its name, the album's name, the artists'
/// names run together, its address, and the closing rule.
pub open spec fn report_block(track: TrackView) -> Seq<Seq<char>> {
    seq![
        track.name,
        track.album.name,
        concat_names(artist_names(track.album.artists)),
        track.spotify,
        rule(),
    ]
}

/// The report of a list of tracks: the block of each, in the tracks' order.
pub open spec fn report_lines(tracks: Seq<TrackView>) -> Seq<Seq<char>> {
    Seq::new(5 * tracks.len(), |j: int| report_block(tracks[j / 5])[j % 5])
}

/// The views of a list of lines, in order.
pub open spec fn line_views(lines: Seq<String>) -> Seq<Seq<char>> {
    Seq::new(lines.len(), |i: int| lines[i]@)
}

/// The five lines that show one track.
pub fn track_block(track: &Track) -> (lines: Vec<String>)
    ensures
        line_views(lines@) == report_block(track@),
{
    let names = artist_name_list(&track.album.artists);
    let mut lines: Vec<String> = Vec::new();
    lines.push(track.name.clone());
    lines.push(track.album.name.clone());
    lines.push(concatenate(&names));
    lines.push(track.external_urls.spotify.clone());
    lines.push("---------".to_owned());
    assert(line_views(lines@) =~= report_block(track@));
    lines
}

/// The lines that show the tracks: five for each track, in the tracks'
/// order.
pub fn report(tracks: &Vec<Track>) -> (lines: Vec<String>)
    ensures
        line_views(lines@) == report_lines(track_views(tracks@)),
{
    let mut lines: Vec<String> = Vec::new();
    let mut i: usize = 0;
    while i < tracks.len()
        invariant
            i <= tracks.len(),
            lines@.len() == 5 * i,
            forall|j: int|
                0 <= j < 5 * i ==> (#[trigger] lines@[j])@ == report_block(tracks@[j / 5]@)[j % 5],
        decreases tracks.len() - i,
    {
        let mut block = track_block(&tracks[i]);
        let ghost before = lines@;
        let ghost added = block@;
        lines.append(&mut block);
        proof {
            assert(line_views(added).len() == 5);
            assert(added.len() == 5);
            assert(lines@ =~= before + added);
            assert forall|j: int| 0 <= j < 5 * (i + 1) implies (#[trigger] lines@[j])@
                == report_block(tracks@[j / 5]@)[j % 5] by {
                if j >= 5 * i {
                    assert(lines@[j] == added[j - 5 * i]);
                    assert(line_views(added)[j - 5 * i] == added[j - 5 * i]@);
                }
            }
        }
        i += 1;
    }
    assert(line_views(lines@) =~= report_lines(track_views(tracks@)));
    lines
}

} // verus!
