use spotify_tracks::names::{concatenate, join, split};

fn owned(items: &[&str]) -> Vec<String> {
    items.iter().map(|s| s.to_string()).collect()
}

#[test]
fn join_puts_comma_and_space_between_names() {
    assert_eq!(join(&owned(&["Daft Punk", "Pharrell Williams", "Nile Rodgers"])),
        "Daft Punk, Pharrell Williams, Nile Rodgers");
}

#[test]
fn join_of_one_name_is_the_name() {
    assert_eq!(join(&owned(&["Björk"])), "Björk");
}

#[test]
fn join_of_no_names_is_empty() {
    assert_eq!(join(&Vec::new()), "");
}

#[test]
fn join_keeps_empty_names() {
    assert_eq!(join(&owned(&["", ""])), ", ");
    assert_eq!(join(&owned(&["a", "", "b"])), "a, , b");
}

#[test]
fn split_at_each_separator() {
    assert_eq!(split("Daft Punk, Pharrell Williams, Nile Rodgers"),
        owned(&["Daft Punk", "Pharrell Williams", "Nile Rodgers"]));
}

#[test]
fn split_without_separator_is_one_piece() {
    assert_eq!(split("Radiohead"), owned(&["Radiohead"]));
    assert_eq!(split("a,b"), owned(&["a,b"]));
    assert_eq!(split("a ,b"), owned(&["a ,b"]));
    assert_eq!(split(","), owned(&[","]));
    assert_eq!(split(" "), owned(&[" "]));
}

#[test]
fn split_of_empty_text_is_one_empty_piece() {
    assert_eq!(split(""), owned(&[""]));
}

#[test]
fn split_keeps_empty_pieces_at_the_ends() {
    assert_eq!(split(", "), owned(&["", ""]));
    assert_eq!(split("a, "), owned(&["a", ""]));
    assert_eq!(split(", a"), owned(&["", "a"]));
    assert_eq!(split(", , "), owned(&["", "", ""]));
}

#[test]
fn split_takes_the_leftmost_separator_first() {
    assert_eq!(split("a,, b"), owned(&["a,", "b"]));
    assert_eq!(split("a,  b"), owned(&["a", " b"]));
    assert_eq!(split("a, ,b"), owned(&["a", ",b"]));
}

#[test]
fn split_counts_characters_not_bytes() {
    assert_eq!(split("Beyoncé, JAY-Z, 宇多田ヒカル, 🎵"), owned(&["Beyoncé", "JAY-Z", "宇多田ヒカル", "🎵"]));
}

#[test]
fn names_without_separator_survive_join_and_split() {
    let names = owned(&["Simon & Garfunkel", "a,", " b", "", "x,y"]);
    assert_eq!(split(&join(&names)), names);
}

#[test]
fn split_then_join_gives_the_text_back() {
    for text in ["", ", ", "a, b", ",, ,", "one, two, , three,", " , "] {
        assert_eq!(join(&split(text)), text);
    }
}

#[test]
fn name_with_separator_comes_back_in_pieces() {
    let names = owned(&["Tyler, The Creator", "Kali Uchis"]);
    let back = split(&join(&names));
    assert_ne!(back, names);
    assert_eq!(back, owned(&["Tyler", "The Creator", "Kali Uchis"]));
    let again = split(&join(&names));
    assert_eq!(again, back);
}

#[test]
fn no_names_come_back_as_one_empty_name() {
    let names: Vec<String> = Vec::new();
    let back = split(&join(&names));
    assert_eq!(back, owned(&[""]));
    assert_ne!(back, names);
}

#[test]
fn concat_runs_names_together() {
    assert_eq!(concatenate(&owned(&["Daft Punk", "Pharrell Williams"])), "Daft PunkPharrell Williams");
    assert_eq!(concatenate(&owned(&["a", "", "b"])), "ab");
    assert_eq!(concatenate(&Vec::new()), "");
}
