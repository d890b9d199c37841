use missing_albums::folder::local_albums;
use missing_albums::folder::parse_album_folder;
use missing_albums::folder::LocalAlbum;
use missing_albums::text::chars_of;
use missing_albums::text::eq_ignore_ascii_case;
use missing_albums::text::join;

fn album(year: &str, title: &str) -> LocalAlbum {
    LocalAlbum { year: year.to_string(), title: title.to_string() }
}

#[test]
fn chars_of_gives_every_character() {
    assert_eq!(chars_of(""), Vec::<char>::new());
    assert_eq!(chars_of("Blur"), vec!['B', 'l', 'u', 'r']);
    assert_eq!(chars_of("Björk"), vec!['B', 'j', 'ö', 'r', 'k']);
}

#[test]
fn case_of_ascii_letters_is_ignored() {
    assert!(eq_ignore_ascii_case("Blur", "blur"));
    assert!(eq_ignore_ascii_case("BLUR", "bLuR"));
    assert!(eq_ignore_ascii_case("", ""));
    assert!(eq_ignore_ascii_case("AC/DC 1980", "ac/dc 1980"));
}

#[test]
fn other_differences_are_not_ignored() {
    assert!(!eq_ignore_ascii_case("Blur", "Blurr"));
    assert!(!eq_ignore_ascii_case("Blur", "Blue"));
    assert!(!eq_ignore_ascii_case("Blur", ""));
    assert!(!eq_ignore_ascii_case("a", "b"));
    // '@' and '`' lie 32 apart, just outside the letters.
    assert!(!eq_ignore_ascii_case("@", "`"));
    assert!(!eq_ignore_ascii_case("[", "{"));
}

#[test]
fn letters_outside_ascii_keep_their_case() {
    assert!(eq_ignore_ascii_case("Björk", "BJöRK"));
    assert!(!eq_ignore_ascii_case("Ärzte", "ärzte"));
    assert!(!eq_ignore_ascii_case("É", "é"));
}

#[test]
fn comparison_agrees_with_the_standard_one() {
    let samples = [
        "", "a", "A", "z", "Z", "@", "[", "`", "{", "Blur", "BLUR", "blur", "Björk", "BJÖRK",
        "The Beatles", "the beatles", "The  Beatles", "ß", "SS", "日本", "1994", "K", "\u{212A}",
    ];
    for a in samples {
        for b in samples {
            assert_eq!(eq_ignore_ascii_case(a, b), a.eq_ignore_ascii_case(b), "{a:?} {b:?}");
        }
    }
}

#[test]
fn join_puts_the_separator_between_neighbours() {
    assert_eq!(join(&vec![], ", "), "");
    assert_eq!(join(&vec!["Blur".to_string()], ", "), "Blur");
    assert_eq!(join(&vec!["Blur".to_string(), "Oasis".to_string()], ", "), "Blur, Oasis");
    assert_eq!(
        join(&vec!["a".to_string(), "".to_string(), "c".to_string()], "-"),
        "a--c"
    );
}

#[test]
fn year_and_title_are_read_from_an_album_folder() {
    assert_eq!(parse_album_folder("1994 - Parklife"), Some(album("1994", "Parklife")));
}

#[test]
fn folder_without_separator_is_no_album() {
    assert_eq!(parse_album_folder("Greatest Hits"), None);
    assert_eq!(local_albums(&vec!["Greatest Hits".to_string()]), vec![]);
}

#[test]
fn title_starts_after_the_first_separator() {
    assert_eq!(
        parse_album_folder("1997 - Blur - Deluxe"),
        Some(album("1997", "Blur - Deluxe"))
    );
    assert_eq!(parse_album_folder("1994 - "), Some(album("1994", "")));
    assert_eq!(parse_album_folder("2003 - Think Tank"), Some(album("2003", "Think Tank")));
    assert_eq!(parse_album_folder("1999 - Ágætis byrjun"), Some(album("1999", "Ágætis byrjun")));
}

#[test]
fn year_has_four_digits() {
    assert_eq!(parse_album_folder("94 - Parklife"), None);
    assert_eq!(parse_album_folder("19940 - Parklife"), None);
    assert_eq!(parse_album_folder("199x - Parklife"), None);
    assert_eq!(parse_album_folder("Live - Parklife"), None);
    assert_eq!(parse_album_folder("１９９４ - Parklife"), None);
}

#[test]
fn separator_is_spelled_exactly() {
    assert_eq!(parse_album_folder("1994-Parklife"), None);
    assert_eq!(parse_album_folder("1994 -Parklife"), None);
    assert_eq!(parse_album_folder("1994- Parklife"), None);
    assert_eq!(parse_album_folder("1994 _ Parklife"), None);
    assert_eq!(parse_album_folder("1994 -"), None);
    assert_eq!(parse_album_folder("1994"), None);
    assert_eq!(parse_album_folder(""), None);
}

#[test]
fn albums_keep_the_order_of_the_listing() {
    let listing = vec![
        "1994 - Parklife".to_string(),
        "Greatest Hits".to_string(),
        "1991 - Leisure".to_string(),
        "cover art".to_string(),
        "2003 - Think Tank".to_string(),
    ];
    assert_eq!(
        local_albums(&listing),
        vec![album("1994", "Parklife"), album("1991", "Leisure"), album("2003", "Think Tank")]
    );
    assert_eq!(local_albums(&vec![]), vec![]);
}
