//! The lines that the scan prints.

use vstd::prelude::*;

use crate::catalog::ReleaseGroupRecord;
use crate::catalog::ReleaseGroupView;
use crate::text::join;
use crate::text::joined;

verus! {

/// The year printed for a release group whose first release is not dated.
pub open spec fn undated_year() -> Seq<char> {
    "1970"@
}

/// The year printed for a release group.
pub open spec fn printed_year(release: ReleaseGroupView) -> Seq<char> {
    match release.first_release_year {
        Some(year) => year,
        None => undated_year(),
    }
}

/// The line that reports a release group of the catalogue as missing from `folder`.
pub open spec fn missing_line(folder: Seq<char>, release: ReleaseGroupView) -> Seq<char> {
    "Missing album "@ + folder + "/"@ + printed_year(release) + " - "@ + release.title
}

/// The line that reports `release` as missing from the artist's `folder`.
pub fn missing_album_line(folder: &str, release: &ReleaseGroupRecord) -> (line: String)
    ensures
        line@ == missing_line(folder@, release@),
{
    let mut line = "Missing album ".to_owned();
    line.append(folder);
    line.append("/");
    match &release.first_release_year {
        Some(year) => line.append(year.as_str()),
        None => line.append("1970"),
    }
    line.append(" - ");
    line.append(release.title.as_str());
    line
}

/// Whether `id` is one of `known`.
pub fn is_known(known: &Vec<String>, id: &String) -> (found: bool)
    ensures
        found == known.deep_view().contains(id@),
{
    let mut i: usize = 0;
    while i < known.len()
        invariant
            i <= known.len(),
            forall|j: int| 0 <= j < i ==> known.deep_view()[j] != id@,
        decreases known.len() - i,
    {
        if known[i] == *id {
            proof {
                assert(known.deep_view()[i as int] == id@);
            }
            return true;
        }
        i += 1;
    }
    false
}

/// The lines for those of `releases` whose identifier is not among `known`, in the
/// order of `releases`.
pub open spec fn missing_lines(
    folder: Seq<char>,
    known: Seq<Seq<char>>,
    releases: Seq<ReleaseGroupView>,
) -> Seq<Seq<char>> {
    releases.filter(|release: ReleaseGroupView| !known.contains(release.id)).map_values(
        |release: ReleaseGroupView| missing_line(folder, release),
    )
}

/// One line for each release group of a catalogue page that is not known locally.
pub fn missing_album_lines(
    folder: &str,
    known: &Vec<String>,
    releases: &Vec<ReleaseGroupRecord>,
) -> (lines: Vec<String>)
    ensures
        lines.deep_view() == missing_lines(folder@, known.deep_view(), releases.deep_view()),
{
    let ghost unknown = |release: ReleaseGroupView| !known.deep_view().contains(release.id);
    let ghost line_of = |release: ReleaseGroupView| missing_line(folder@, release);
    let mut lines: Vec<String> = Vec::new();
    let mut i: usize = 0;
    proof {
        assert(releases.deep_view().take(0).filter(unknown) == Seq::<ReleaseGroupView>::empty())
            by {
            reveal(Seq::filter);
        }
    }
    while i < releases.len()
        invariant
            i <= releases.len(),
            unknown == |release: ReleaseGroupView| !known.deep_view().contains(release.id),
            line_of == |release: ReleaseGroupView| missing_line(folder@, release),
            lines.deep_view() == releases.deep_view().take(i as int).filter(unknown).map_values(
                line_of,
            ),
        decreases releases.len() - i,
    {
        let ghost before = releases.deep_view().take(i as int);
        let ghost old_lines = lines.deep_view();
        proof {
            assert(releases.deep_view().take(i + 1) == before.push(releases[i as int]@));
            before.lemma_filter_push(releases[i as int]@, unknown);
            before.filter(unknown).lemma_push_map_commute(line_of, releases[i as int]@);
        }
        if !is_known(known, &releases[i].id) {
            let line = missing_album_line(folder, &releases[i]);
            lines.push(line);
            proof {
                assert(lines.deep_view() == old_lines.push(line@));
            }
        }
        i += 1;
    }
    proof {
        assert(releases.deep_view().take(releases.len() as int) == releases.deep_view());
    }
    lines
}

/// The line that lists the artist folders for which the catalogue gave no artist.
pub open spec fn not_found_text(names: Seq<Seq<char>>) -> Seq<char> {
    "Artists not found: "@ + joined(names, ", "@)
}

/// One line for all the names that found no artist, or none where every name found
/// one.
pub fn not_found_line(names: &Vec<String>) -> (line: Option<String>)
    ensures
        match line {
            Some(text) => names.len() > 0 && text@ == not_found_text(names.deep_view()),
            None => names.len() == 0,
        },
{
    if names.len() == 0 {
        return None;
    }
    let mut line = "Artists not found: ".to_owned();
    let list = join(names, ", ");
    line.append(list.as_str());
    Some(line)
}

} // verus!
