use missing_albums::catalog::ReleaseGroupRecord;
use missing_albums::folder::LocalAlbum;
use missing_albums::query::artist_query;
use missing_albums::query::release_group_query;
use missing_albums::report::is_known;
use missing_albums::report::missing_album_line;
use missing_albums::report::missing_album_lines;
use missing_albums::report::not_found_line;
use musicbrainz_rs::entity::artist::ArtistSearchQuery;
use musicbrainz_rs::entity::release_group::ReleaseGroupSearchQuery;

fn names(list: &[&str]) -> Vec<String> {
    list.iter().map(|name| name.to_string()).collect()
}

fn album(year: &str, title: &str) -> LocalAlbum {
    LocalAlbum { year: year.to_string(), title: title.to_string() }
}

fn release(id: &str, title: &str, year: Option<&str>) -> ReleaseGroupRecord {
    ReleaseGroupRecord {
        id: id.to_string(),
        title: title.to_string(),
        first_release_year: year.map(|y| y.to_string()),
    }
}

#[test]
fn artist_query_for_one_name() {
    assert_eq!(artist_query(&names(&["Blur"])), "query=artist:Blur");
}

#[test]
fn artist_query_joins_names_with_or() {
    assert_eq!(
        artist_query(&names(&["Blur", "Oasis", "Pulp"])),
        "query=artist:Blur OR artist:Oasis OR artist:Pulp"
    );
}

#[test]
fn artist_query_quotes_names_with_spaces() {
    assert_eq!(
        artist_query(&names(&["The Beatles", "Blur"])),
        "query=artist:\"The Beatles\" OR artist:Blur"
    );
}

#[test]
fn artist_query_for_no_name_is_empty() {
    assert_eq!(artist_query(&names(&[])), "query=");
}

#[test]
fn artist_query_is_what_the_builder_chain_gives() {
    let list = names(&["Blur", "The Good, the Bad & the Queen", "Gorillaz"]);
    let mut builder = ArtistSearchQuery::query_builder();
    builder
        .artist("Blur")
        .or()
        .artist("The Good, the Bad & the Queen")
        .or()
        .artist("Gorillaz");
    assert_eq!(artist_query(&list), builder.build());
}

#[test]
fn release_group_query_for_one_album() {
    assert_eq!(
        release_group_query("abc", &vec![album("1994", "Parklife")]),
        "query=arid:abc AND ((releasegroup:Parklife AND firstreleasedate:1994))"
    );
}

#[test]
fn release_group_query_joins_albums_with_or() {
    assert_eq!(
        release_group_query(
            "abc",
            &vec![album("1994", "Parklife"), album("2003", "Think Tank"), album("1991", "Leisure")]
        ),
        "query=arid:abc AND ((releasegroup:Parklife AND firstreleasedate:1994) OR \
         (releasegroup:\"Think Tank\" AND firstreleasedate:2003) OR \
         (releasegroup:Leisure AND firstreleasedate:1991))"
    );
}

#[test]
fn release_group_query_is_what_the_builder_chain_gives() {
    let mut any = ReleaseGroupSearchQuery::query_builder();
    any.expr(
        ReleaseGroupSearchQuery::query_builder()
            .release_group("Parklife")
            .and()
            .first_release_date("1994"),
    );
    any.or();
    any.expr(
        ReleaseGroupSearchQuery::query_builder()
            .release_group("Think Tank")
            .and()
            .first_release_date("2003"),
    );
    let expected = ReleaseGroupSearchQuery::query_builder()
        .arid("1f9df192-a621-4f54-8850-2c5373b7eac9")
        .and()
        .expr(&mut any)
        .build();
    assert_eq!(
        release_group_query(
            "1f9df192-a621-4f54-8850-2c5373b7eac9",
            &vec![album("1994", "Parklife"), album("2003", "Think Tank")]
        ),
        expected
    );
}

#[test]
fn missing_line_names_folder_year_and_title() {
    assert_eq!(
        missing_album_line("/music/Blur", &release("b", "Think Tank", Some("2003"))),
        "Missing album /music/Blur/2003 - Think Tank"
    );
}

#[test]
fn undated_release_is_printed_with_1970() {
    assert_eq!(
        missing_album_line("Blur", &release("x", "Bustin' + Dronin'", None)),
        "Missing album Blur/1970 - Bustin' + Dronin'"
    );
}

#[test]
fn known_identifiers_are_found_exactly() {
    let known = names(&["a", "b", "abc"]);
    assert!(is_known(&known, &"a".to_string()));
    assert!(is_known(&known, &"abc".to_string()));
    assert!(!is_known(&known, &"ab".to_string()));
    assert!(!is_known(&known, &"A".to_string()));
    assert!(!is_known(&vec![], &"a".to_string()));
}

#[test]
fn only_unknown_releases_are_reported() {
    let known = names(&["a", "c"]);
    let page = vec![
        release("a", "Parklife", Some("1994")),
        release("b", "Think Tank", Some("2003")),
        release("c", "Leisure", Some("1991")),
        release("d", "13", Some("1999")),
    ];
    assert_eq!(
        missing_album_lines("/m/Blur", &known, &page),
        vec![
            "Missing album /m/Blur/2003 - Think Tank".to_string(),
            "Missing album /m/Blur/1999 - 13".to_string()
        ]
    );
    assert_eq!(missing_album_lines("/m/Blur", &known, &vec![]), Vec::<String>::new());
    assert_eq!(missing_album_lines("/m/Blur", &names(&["a", "b", "c", "d"]), &page).len(), 0);
    assert_eq!(missing_album_lines("/m/Blur", &vec![], &page).len(), 4);
}

#[test]
fn not_found_line_lists_all_names_at_once() {
    assert_eq!(not_found_line(&vec![]), None);
    assert_eq!(
        not_found_line(&names(&["Blur"])),
        Some("Artists not found: Blur".to_string())
    );
    assert_eq!(
        not_found_line(&names(&["Blur", "Oasis", "Pulp"])),
        Some("Artists not found: Blur, Oasis, Pulp".to_string())
    );
}
