use fardbot::files::{find_file, FindError, ListedEntry};

fn file(path: &str, stem: &str) -> ListedEntry {
    ListedEntry { path: path.to_string(), is_file: true, stem: Some(stem.to_string()) }
}

fn directory(path: &str) -> ListedEntry {
    ListedEntry { path: path.to_string(), is_file: false, stem: Some(path.to_string()) }
}

#[test]
fn find_file_returns_the_first_file_of_that_name() {
    let entries = vec![
        file("audio/intro.ogg", "intro"),
        file("audio/song.mp3", "song"),
        file("audio/song.ogg", "song"),
    ];
    assert_eq!(find_file(&entries, "song"), Ok("audio/song.mp3".to_string()));
    assert_eq!(find_file(&entries, "intro"), Ok("audio/intro.ogg".to_string()));
}

#[test]
fn find_file_reports_a_listing_without_that_name() {
    let entries = vec![file("audio/intro.ogg", "intro"), file("audio/song.mp3", "song")];
    assert_eq!(find_file(&entries, "outro"), Err(FindError::NoMatch));
    assert_eq!(find_file(&entries, "son"), Err(FindError::NoMatch));
    assert_eq!(find_file(&Vec::new(), "song"), Err(FindError::NoMatch));
}

#[test]
fn find_file_stops_at_an_entry_that_is_no_file() {
    let entries = vec![
        file("audio/intro.ogg", "intro"),
        directory("audio/old"),
        file("audio/song.mp3", "song"),
    ];
    assert_eq!(find_file(&entries, "intro"), Ok("audio/intro.ogg".to_string()));
    assert_eq!(find_file(&entries, "song"), Err(FindError::NotAFile));
    assert_eq!(find_file(&entries, "old"), Err(FindError::NotAFile));
}

#[test]
fn find_file_passes_over_a_file_without_a_stem() {
    let entries = vec![
        ListedEntry { path: "audio/..".to_string(), is_file: true, stem: None },
        file("audio/song.mp3", "song"),
    ];
    assert_eq!(find_file(&entries, "song"), Ok("audio/song.mp3".to_string()));
}
