use missing_albums::catalog::ArtistRecord;
use missing_albums::catalog::Page;
use missing_albums::catalog::ReleaseGroupRecord;
use missing_albums::command::Answer;
use missing_albums::command::Command;
use missing_albums::command::Emit;
use missing_albums::command::Next;
use missing_albums::command::Request;
use missing_albums::error::Error;
use missing_albums::pagination::replay;
use missing_albums::pagination::Replay;

type Cmd = Command<&'static str, u32>;

fn names(list: &[&str]) -> Vec<String> {
    list.iter().map(|name| name.to_string()).collect()
}

fn release(id: &str, title: &str, year: &str) -> ReleaseGroupRecord {
    ReleaseGroupRecord {
        id: id.to_string(),
        title: title.to_string(),
        first_release_year: Some(year.to_string()),
    }
}

fn browse(reply: u32, known: &[&str]) -> Cmd {
    Command::MissingAlbum {
        folder: "/m/Blur".to_string(),
        known_release_ids: names(known),
        artist_id: "blur".to_string(),
        offset: 0,
        reply,
    }
}

fn search() -> Cmd {
    Command::Artists { names: names(&["Blur"]), offset: 0, reply_stream: "stream" }
}

fn album_scan(folder: &str, artist_id: &str, reply: u32) -> Cmd {
    Command::ExistingAlbum { folder: folder.to_string(), artist_id: artist_id.to_string(), reply }
}

fn group_pages(count: i32, pages: usize) -> Vec<Answer> {
    (0..pages).map(|_| Answer::ReleaseGroups(Ok(Page { entities: vec![], count }))).collect()
}

fn artist_pages(count: i32, pages: usize) -> Vec<Answer> {
    (0..pages)
        .map(|page| {
            Answer::Artists(Ok(Page {
                entities: vec![ArtistRecord { id: format!("{page}"), name: "Blur".to_string() }],
                count,
            }))
        })
        .collect()
}

fn failure() -> Error {
    Error::Musicbrainz(musicbrainz_rs::Error::MaxRetriesExceeded())
}

fn offsets(replayed: &Replay<&'static str, u32>) -> Vec<u32> {
    replayed
        .requests
        .iter()
        .map(|request| match request {
            Request::SearchArtists { offset, .. } => *offset,
            Request::BrowseReleaseGroups { offset, .. } => *offset,
            other => panic!("{other:?}"),
        })
        .collect()
}

fn expected_pages(count: i32) -> usize {
    if count <= 0 {
        1
    } else {
        ((count as usize) + 99) / 100
    }
}

#[test]
fn pages_asked_for_each_total() {
    for (count, pages) in [(0, 1), (1, 1), (99, 1), (100, 1), (101, 2), (250, 3)] {
        assert_eq!(expected_pages(count), pages);
        let replayed = replay(browse(7, &[]), group_pages(count, 10));
        assert_eq!(replayed.requests.len(), pages, "total {count}");
        assert_eq!(replayed.emitted.len(), pages, "total {count}");
        assert!(matches!(replayed.end, Next::Reply(7, Ok(()))), "total {count}");
    }
}

#[test]
fn pages_asked_for_each_total_of_a_search() {
    for (count, pages) in [(0, 1), (1, 1), (99, 1), (100, 1), (101, 2), (250, 3)] {
        let replayed = replay(search(), artist_pages(count, 10));
        assert_eq!(replayed.requests.len(), pages, "total {count}");
        assert!(matches!(replayed.end, Next::Close("stream")), "total {count}");
        for (page, emitted) in replayed.emitted.iter().enumerate() {
            match emitted {
                Emit::Stream(Ok(batch)) => assert_eq!(batch[0].id, format!("{page}")),
                other => panic!("{other:?}"),
            }
        }
    }
}

#[test]
fn total_of_zero_or_less_ends_after_one_page() {
    for count in [0, -1, -100, i32::MIN] {
        let replayed = replay(browse(7, &[]), group_pages(count, 5));
        assert_eq!(replayed.requests.len(), 1);
        assert!(matches!(replayed.end, Next::Reply(7, Ok(()))));
    }
}

#[test]
fn offsets_advance_by_one_page_each_step() {
    let replayed = replay(browse(7, &[]), group_pages(1234, 50));
    assert_eq!(
        offsets(&replayed),
        vec![0, 100, 200, 300, 400, 500, 600, 700, 800, 900, 1000, 1100, 1200]
    );
    let replayed = replay(search(), artist_pages(301, 50));
    assert_eq!(offsets(&replayed), vec![0, 100, 200, 300]);
}

#[test]
fn offsets_advance_from_where_the_query_starts() {
    let start: Cmd = Command::MissingAlbum {
        folder: "f".to_string(),
        known_release_ids: vec![],
        artist_id: "a".to_string(),
        offset: 300,
        reply: 1,
    };
    let replayed = replay(start, group_pages(520, 50));
    assert_eq!(offsets(&replayed), vec![300, 400, 500]);
    assert!(matches!(replayed.end, Next::Reply(1, Ok(()))));
}

// Serves the commands one by one, as the queue's tasks would, and counts the
// replies handed out for the caller.
fn replies_of(start: Cmd, answers: Vec<Answer>) -> (usize, Vec<Result<(), Error>>) {
    let mut replies = Vec::new();
    let mut served = 0;
    let mut pending = Some(start);
    for answer in answers {
        let Some(command) = pending.take() else { break };
        assert!(command.expects(&answer));
        served += 1;
        match command.dispatch(answer).next {
            Next::Submit(next) => pending = Some(next),
            Next::Ask(same, _) => pending = Some(same),
            Next::Reply(reply, result) => {
                assert_eq!(reply, 7);
                replies.push(result);
            }
            Next::Close(_) => panic!("a browse has no stream"),
        }
    }
    (served, replies)
}

#[test]
fn failure_at_any_page_gives_the_one_reply() {
    for failing in 0..4 {
        let mut answers = group_pages(450, 10);
        answers[failing] = Answer::ReleaseGroups(Err(failure()));
        let (served, replies) = replies_of(browse(7, &[]), answers);
        assert_eq!(served, failing + 1);
        assert_eq!(replies.len(), 1);
        assert!(matches!(replies[0], Err(Error::Musicbrainz(_))));
    }
}

#[test]
fn success_gives_the_one_reply() {
    for count in [0, 1, 99, 100, 101, 250, 1000] {
        let (served, replies) = replies_of(browse(7, &[]), group_pages(count, 20));
        assert_eq!(served, expected_pages(count));
        assert_eq!(replies.len(), 1);
        assert!(matches!(replies[0], Ok(())));
    }
}

#[test]
fn album_scan_gives_the_one_reply_wherever_it_fails() {
    let good = || {
        vec![
            Answer::Folders(Ok(names(&["1994 - Parklife"]))),
            Answer::KnownReleases(Ok(names(&["A"]))),
            Answer::ReleaseGroups(Ok(Page { entities: vec![], count: 150 })),
            Answer::ReleaseGroups(Ok(Page { entities: vec![], count: 150 })),
            Answer::ReleaseGroups(Ok(Page { entities: vec![], count: 150 })),
        ]
    };
    let (served, replies) = replies_of(album_scan("/m/Blur", "blur", 7), good());
    assert_eq!((served, replies.len()), (4, 1));
    assert!(matches!(replies[0], Ok(())));
    for failing in 0..4 {
        let mut answers = good();
        answers[failing] = match failing {
            0 => Answer::Folders(Err(failure())),
            1 => Answer::KnownReleases(Err(failure())),
            _ => Answer::ReleaseGroups(Err(failure())),
        };
        let (served, replies) = replies_of(album_scan("/m/Blur", "blur", 7), answers);
        assert_eq!(served, failing + 1);
        assert_eq!(replies.len(), 1);
        assert!(replies[0].is_err());
    }
}

#[test]
fn replay_of_a_failure_ends_with_its_error() {
    for failing in 0..4 {
        let mut answers = group_pages(450, 10);
        answers[failing] = Answer::ReleaseGroups(Err(failure()));
        let replayed = replay(browse(7, &[]), answers);
        assert_eq!(replayed.requests.len(), failing + 1);
        assert_eq!(offsets(&replayed).last(), Some(&(100 * failing as u32)));
        assert!(matches!(replayed.end, Next::Reply(7, Err(Error::Musicbrainz(_)))));
        assert!(matches!(replayed.emitted.last(), Some(Emit::Nothing)));
    }
}

#[test]
fn failure_of_a_search_closes_the_stream_after_the_error() {
    let mut answers = artist_pages(450, 10);
    answers[2] = Answer::Artists(Err(failure()));
    let replayed = replay(search(), answers);
    assert_eq!(replayed.requests.len(), 3);
    assert!(matches!(replayed.emitted[0], Emit::Stream(Ok(_))));
    assert!(matches!(replayed.emitted[1], Emit::Stream(Ok(_))));
    assert!(matches!(replayed.emitted[2], Emit::Stream(Err(Error::Musicbrainz(_)))));
    assert!(matches!(replayed.end, Next::Close("stream")));
}

#[test]
fn query_waits_where_the_answers_run_out() {
    let replayed = replay(browse(7, &[]), group_pages(450, 2));
    assert_eq!(replayed.requests.len(), 2);
    match replayed.end {
        Next::Submit(Command::MissingAlbum { offset, reply, .. }) => {
            assert_eq!(offset, 200);
            assert_eq!(reply, 7);
        }
        other => panic!("{other:?}"),
    }
    let replayed = replay(browse(7, &[]), vec![]);
    assert_eq!(replayed.requests.len(), 0);
    assert_eq!(replayed.emitted.len(), 0);
    assert!(matches!(replayed.end, Next::Submit(Command::MissingAlbum { offset: 0, reply: 7, .. })));
}

#[test]
fn query_stops_at_an_answer_of_another_kind() {
    let mut answers = group_pages(450, 4);
    answers[1] = Answer::Folders(Ok(vec![]));
    let replayed = replay(browse(7, &[]), answers);
    assert_eq!(replayed.requests.len(), 1);
    assert!(matches!(replayed.end, Next::Submit(Command::MissingAlbum { offset: 100, .. })));
}

#[test]
fn album_scan_does_not_take_a_second_listing_for_its_search() {
    let answers = vec![
        Answer::Folders(Ok(names(&["1994 - Parklife"]))),
        Answer::Folders(Ok(names(&["1994 - Parklife"]))),
    ];
    let replayed = replay(album_scan("/m/Blur", "blur", 7), answers);
    assert_eq!(replayed.requests.len(), 1);
    assert!(matches!(
        replayed.end,
        Next::Ask(Command::ExistingAlbum { .. }, Request::SearchReleaseGroups { .. })
    ));
}

#[test]
fn missing_album_is_reported_end_to_end() {
    let answers = vec![
        Answer::Folders(Ok(names(&["1994 - Parklife"]))),
        Answer::KnownReleases(Ok(names(&["A"]))),
        Answer::ReleaseGroups(Ok(Page {
            entities: vec![release("A", "Parklish", "1994"), release("B", "Think Tank", "2003")],
            count: 2,
        })),
    ];
    let replayed = replay(album_scan("/m/Blur", "blur", 7), answers);
    assert_eq!(
        replayed.requests,
        vec![
            Request::ListFolder { folder: "/m/Blur".to_string() },
            Request::SearchReleaseGroups {
                query: "query=arid:blur AND ((releasegroup:Parklife AND firstreleasedate:1994))"
                    .to_string()
            },
            Request::BrowseReleaseGroups { artist_id: "blur".to_string(), offset: 0, limit: 100 },
        ]
    );
    let lines: Vec<String> = replayed
        .emitted
        .into_iter()
        .flat_map(|emitted| match emitted {
            Emit::Lines(lines) => lines,
            _ => vec![],
        })
        .collect();
    assert_eq!(lines, vec!["Missing album /m/Blur/2003 - Think Tank".to_string()]);
    assert!(matches!(replayed.end, Next::Reply(7, Ok(()))));
}

#[test]
fn album_scan_of_a_folder_without_albums_reports_every_release() {
    let answers = vec![
        Answer::Folders(Ok(names(&["Greatest Hits"]))),
        Answer::ReleaseGroups(Ok(Page {
            entities: vec![release("A", "Parklife", "1994"), release("B", "Think Tank", "2003")],
            count: 2,
        })),
    ];
    let replayed = replay(album_scan("/m/Blur", "blur", 7), answers);
    assert_eq!(replayed.requests.len(), 2);
    assert!(matches!(
        &replayed.emitted[1],
        Emit::Lines(lines) if lines == &vec![
            "Missing album /m/Blur/1994 - Parklife".to_string(),
            "Missing album /m/Blur/2003 - Think Tank".to_string()
        ]
    ));
    assert!(matches!(replayed.end, Next::Reply(7, Ok(()))));
}

#[test]
fn failure_for_one_artist_leaves_the_other_alone() {
    let failing = vec![
        Answer::Folders(Ok(names(&["1995 - Different Class"]))),
        Answer::KnownReleases(Err(failure())),
    ];
    let working = vec![
        Answer::Folders(Ok(names(&["1994 - Parklife"]))),
        Answer::KnownReleases(Ok(names(&["A"]))),
        Answer::ReleaseGroups(Ok(Page {
            entities: vec![release("A", "Parklife", "1994"), release("B", "Think Tank", "2003")],
            count: 2,
        })),
    ];
    let x = replay(album_scan("/m/Pulp", "pulp", 1), failing);
    let y = replay(album_scan("/m/Blur", "blur", 2), working);
    assert!(matches!(x.end, Next::Reply(1, Err(Error::Musicbrainz(_)))));
    assert!(x.emitted.iter().all(|emitted| matches!(emitted, Emit::Nothing)));
    assert!(matches!(y.end, Next::Reply(2, Ok(()))));
    assert!(matches!(
        &y.emitted[2],
        Emit::Lines(lines) if lines == &vec!["Missing album /m/Blur/2003 - Think Tank".to_string()]
    ));
}

#[test]
fn failed_listing_ends_the_album_scan_with_its_error() {
    let answers = vec![Answer::Folders(Err(Error::Io(std::io::Error::new(
        std::io::ErrorKind::PermissionDenied,
        "denied",
    ))))];
    let replayed = replay(album_scan("/m/Blur", "blur", 7), answers);
    assert_eq!(replayed.requests.len(), 1);
    match replayed.end {
        Next::Reply(7, Err(Error::Io(e))) => {
            assert_eq!(e.kind(), std::io::ErrorKind::PermissionDenied)
        }
        other => panic!("{other:?}"),
    }
}
