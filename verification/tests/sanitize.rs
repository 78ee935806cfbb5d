use downqueue::sanitize::{replace_illegal_characters, song_file_name};

#[test]
fn replaces_invalid_chars() {
    let file_name = "AC/DC - Thunderstruck.mp3";

    assert_eq!(
        "ACDC - Thunderstruck.mp3",
        replace_illegal_characters(file_name)
    );

    let file_name = "<>:\"/\\|?* - Test.mp3";

    assert_eq!(" - Test.mp3", replace_illegal_characters(file_name));
}

#[test]
fn empty_name_stays_empty() {
    assert_eq!("", replace_illegal_characters(""));
}

#[test]
fn all_forbidden_name_becomes_empty() {
    assert_eq!("", replace_illegal_characters("<>:\"/\\|?*"));
}

#[test]
fn clean_name_is_unchanged() {
    assert_eq!(
        "Artist - Title.mp3",
        replace_illegal_characters("Artist - Title.mp3")
    );
}

#[test]
fn sanitizing_twice_changes_nothing() {
    let inputs = [
        "AC/DC - Thunderstruck.mp3",
        "<>:\"/\\|?* - Test.mp3",
        "",
        "plain",
        "a*b?c|d",
    ];
    for input in inputs {
        let once = replace_illegal_characters(input);
        let twice = replace_illegal_characters(&once);
        assert_eq!(once, twice);
    }
}

#[test]
fn sanitized_name_has_no_forbidden_characters() {
    let out = replace_illegal_characters("a<b>c:d\"e/f\\g|h?i*j - k.mp3");
    for c in out.chars() {
        assert!(!['<', '>', ':', '"', '/', '\\', '|', '?', '*'].contains(&c));
    }
    assert_eq!("abcdefghij - k.mp3", out);
}

#[test]
fn song_file_name_is_sanitized() {
    assert_eq!(
        "ACDC - Thunderstruck.mp3",
        song_file_name("AC/DC", "Thunderstruck")
    );
    assert_eq!("A - B.mp3", song_file_name("A", "B"));
}
