//! The scan of a collection: which artist folders to ask the catalogue about, and
//! which folder each artist of the catalogue's answer belongs to.

use vstd::prelude::*;

use crate::catalog::ArtistRecord;
use crate::catalog::ArtistView;
use crate::command::Command;
use crate::command::CommandView;
use crate::report::not_found_line;
use crate::report::not_found_text;
use crate::text::eq_ignore_ascii_case;
use crate::text::same_ignoring_ascii_case;

verus! {

/// Whether `name` is one of `names`, up to the case of ASCII letters.
pub open spec fn listed(names: Seq<Seq<char>>, name: Seq<char>) -> bool {
    exists|i: int| 0 <= i < names.len() && same_ignoring_ascii_case(#[trigger] names[i], name)
}

/// Whether the artist folder `name` takes part in a scan with this filter: every
/// folder where there is none, else the folders that the filter lists.
pub open spec fn wanted(filter: Option<Seq<Seq<char>>>, name: Seq<char>) -> bool {
    match filter {
        None => true,
        Some(names) => listed(names, name),
    }
}

/// The texts of a filter.
pub open spec fn filter_view(filter: Option<Vec<String>>) -> Option<Seq<Seq<char>>> {
    match filter {
        Some(names) => Some(names.deep_view()),
        None => None,
    }
}

/// The folders that take part in a scan, in the order of the listing.
pub open spec fn candidates_among(
    folders: Seq<Seq<char>>,
    filter: Option<Seq<Seq<char>>>,
) -> Seq<Seq<char>> {
    folders.filter(|name: Seq<char>| wanted(filter, name))
}

/// Whether `at` is the first place in `candidates` whose name is `name`, up to the
/// case of ASCII letters.
pub open spec fn first_match(candidates: Seq<Seq<char>>, name: Seq<char>, at: int) -> bool {
    &&& 0 <= at < candidates.len()
    &&& same_ignoring_ascii_case(candidates[at], name)
    &&& forall|j: int| 0 <= j < at ==> !same_ignoring_ascii_case(#[trigger] candidates[j], name)
}

/// The first place in `candidates` whose name is `name`, up to the case of ASCII
/// letters, where there is one.
pub open spec fn first_named(candidates: Seq<Seq<char>>, name: Seq<char>) -> int
    recommends
        listed(candidates, name),
{
    choose|at: int| first_match(candidates, name, at)
}

proof fn lemma_first_named(candidates: Seq<Seq<char>>, name: Seq<char>, at: int)
    requires
        first_match(candidates, name, at),
    ensures
        first_named(candidates, name) == at,
        listed(candidates, name),
{
    let chosen = first_named(candidates, name);
    assert(first_match(candidates, name, chosen));
    if chosen < at {
        assert(!same_ignoring_ascii_case(candidates[chosen], name));
    }
    if at < chosen {
        assert(!same_ignoring_ascii_case(candidates[at], name));
    }
}

/// An artist folder matched with an artist of the catalogue.
#[derive(Debug, Clone, PartialEq, Eq)]
pub struct Claimed {
    /// The folder's name, as it is on disk.
    pub folder_name: String,
    /// The catalogue's identifier of the artist.
    pub artist_id: String,
}

/// The texts of a [`Claimed`].
pub struct ClaimedView {
    pub folder_name: Seq<char>,
    pub artist_id: Seq<char>,
}

impl View for Claimed {
    type V = ClaimedView;

    open spec fn view(&self) -> ClaimedView {
        ClaimedView { folder_name: self.folder_name@, artist_id: self.artist_id@ }
    }
}

impl DeepView for Claimed {
    type V = ClaimedView;

    open spec fn deep_view(&self) -> ClaimedView {
        self@
    }
}

/// The candidates left when the artists of a batch have claimed theirs, each the
/// first candidate of its name that is still there.
pub open spec fn left_after(candidates: Seq<Seq<char>>, batch: Seq<ArtistView>) -> Seq<Seq<char>>
    decreases batch.len(),
{
    if batch.len() == 0 {
        candidates
    } else {
        let before = left_after(candidates, batch.drop_last());
        if listed(before, batch.last().name) {
            before.remove(first_named(before, batch.last().name))
        } else {
            before
        }
    }
}

/// The claims that the artists of a batch make, in the order of the batch.
pub open spec fn claims_of(candidates: Seq<Seq<char>>, batch: Seq<ArtistView>) -> Seq<ClaimedView>
    decreases batch.len(),
{
    if batch.len() == 0 {
        Seq::empty()
    } else {
        let before = left_after(candidates, batch.drop_last());
        let earlier = claims_of(candidates, batch.drop_last());
        if listed(before, batch.last().name) {
            let at = first_named(before, batch.last().name);
            earlier.push(ClaimedView { folder_name: before[at], artist_id: batch.last().id })
        } else {
            earlier
        }
    }
}

/// The names of the folders claimed.
pub open spec fn claimed_folders(claims: Seq<ClaimedView>) -> Seq<Seq<char>> {
    claims.map_values(|claimed: ClaimedView| claimed.folder_name)
}

/// No candidate is claimed twice and none is lost: the folders that a batch claims
/// and the candidates that it leaves are, taken together, the candidates it met.
pub proof fn lemma_claimed_or_left(candidates: Seq<Seq<char>>, batch: Seq<ArtistView>)
    ensures
        claimed_folders(claims_of(candidates, batch)).to_multiset().add(
            left_after(candidates, batch).to_multiset(),
        ) == candidates.to_multiset(),
        claims_of(candidates, batch).len() + left_after(candidates, batch).len()
            == candidates.len(),
    decreases batch.len(),
{
    broadcast use vstd::seq_lib::group_to_multiset_ensures;

    if batch.len() == 0 {
        assert(claimed_folders(claims_of(candidates, batch)) == Seq::<Seq<char>>::empty());
        assert(Seq::<Seq<char>>::empty().to_multiset().add(candidates.to_multiset())
            =~= candidates.to_multiset());
    } else {
        lemma_claimed_or_left(candidates, batch.drop_last());
        let before = left_after(candidates, batch.drop_last());
        let earlier = claims_of(candidates, batch.drop_last());
        let name = batch.last().name;
        if listed(before, name) {
            let at = first_named(before, name);
            let witness = choose|i: int|
                0 <= i < before.len() && same_ignoring_ascii_case(#[trigger] before[i], name);
            lemma_first_exists(before, name, witness);
            assert(first_match(before, name, at));
            let claimed = ClaimedView { folder_name: before[at], artist_id: batch.last().id };
            assert(claimed_folders(earlier.push(claimed)) == claimed_folders(earlier).push(
                before[at],
            ));
            vstd::seq_lib::to_multiset_build(claimed_folders(earlier), before[at]);
            vstd::seq_lib::to_multiset_remove(before, at);
            assert(before.to_multiset().count(before[at]) > 0);
            assert(claimed_folders(earlier).to_multiset().insert(before[at]).add(
                before.to_multiset().remove(before[at]),
            ) =~= claimed_folders(earlier).to_multiset().add(before.to_multiset()));
        }
    }
}

proof fn lemma_first_exists(candidates: Seq<Seq<char>>, name: Seq<char>, bound: int)
    requires
        0 <= bound < candidates.len(),
        same_ignoring_ascii_case(candidates[bound], name),
    ensures
        exists|at: int| first_match(candidates, name, at),
    decreases bound,
{
    if exists|j: int| 0 <= j < bound && same_ignoring_ascii_case(#[trigger] candidates[j], name) {
        let j = choose|j: int|
            0 <= j < bound && same_ignoring_ascii_case(#[trigger] candidates[j], name);
        lemma_first_exists(candidates, name, j);
    } else {
        assert(first_match(candidates, name, bound));
    }
}

/// The state of a scan: the artist folders that no artist of the catalogue has
/// claimed yet.
#[derive(Debug)]
pub struct Scan {
    pub candidates: Vec<String>,
}

fn is_listed(names: &Vec<String>, name: &str) -> (found: bool)
    ensures
        found == listed(names.deep_view(), name@),
{
    let mut i: usize = 0;
    while i < names.len()
        invariant
            i <= names.len(),
            forall|j: int|
                0 <= j < i ==> !same_ignoring_ascii_case(#[trigger] names.deep_view()[j], name@),
        decreases names.len() - i,
    {
        if eq_ignore_ascii_case(names[i].as_str(), name) {
            proof {
                assert(same_ignoring_ascii_case(names.deep_view()[i as int], name@));
            }
            return true;
        }
        i += 1;
    }
    false
}

/// Starts a scan from the names of the folders found in the collection's root. With
/// a filter, only the folders it lists take part.
pub fn scan(folders: Vec<String>, filter: Option<Vec<String>>) -> (started: Scan)
    ensures
        started.candidates.deep_view() == candidates_among(
            folders.deep_view(),
            filter_view(filter),
        ),
{
    let ghost keep = |name: Seq<char>| wanted(filter_view(filter), name);
    let mut candidates: Vec<String> = Vec::new();
    let mut i: usize = 0;
    proof {
        assert(folders.deep_view().take(0).filter(keep) == Seq::<Seq<char>>::empty()) by {
            reveal(Seq::filter);
        }
    }
    while i < folders.len()
        invariant
            i <= folders.len(),
            keep == |name: Seq<char>| wanted(filter_view(filter), name),
            candidates.deep_view() == folders.deep_view().take(i as int).filter(keep),
        decreases folders.len() - i,
    {
        let ghost kept = candidates.deep_view();
        proof {
            let seen = folders.deep_view().take(i as int);
            assert(folders.deep_view().take(i + 1) == seen.push(folders[i as int]@));
            seen.lemma_filter_push(folders[i as int]@, keep);
        }
        let takes_part = match &filter {
            Some(listing) => is_listed(listing, folders[i].as_str()),
            None => true,
        };
        if takes_part {
            candidates.push(folders[i].clone());
            proof {
                assert(candidates.deep_view() == kept.push(folders[i as int]@));
            }
        }
        i += 1;
    }
    proof {
        assert(folders.deep_view().take(folders.len() as int) == folders.deep_view());
    }
    Scan { candidates }
}

impl Scan {
    /// The command that opens the scan: one search for all candidates, from the
    /// first page on.
    pub fn artists_command<S, R>(&self, reply_stream: S) -> (command: Command<S, R>)
        ensures
            command@ == (CommandView::<S, R>::Artists {
                names: self.candidates.deep_view(),
                offset: 0,
                reply_stream,
            }),
    {
        let mut names: Vec<String> = Vec::new();
        let mut i: usize = 0;
        while i < self.candidates.len()
            invariant
                i <= self.candidates.len(),
                names.deep_view() == self.candidates.deep_view().take(i as int),
            decreases self.candidates.len() - i,
        {
            let ghost before = names.deep_view();
            names.push(self.candidates[i].clone());
            proof {
                assert(names.deep_view() == before.push(self.candidates[i as int]@));
            }
            i += 1;
        }
        proof {
            assert(self.candidates.deep_view().take(self.candidates.len() as int)
                == self.candidates.deep_view());
        }
        Command::Artists { names, offset: 0, reply_stream }
    }

    /// Claims the folder of the artist called `artist_name`: the first candidate of
    /// that name, up to the case of ASCII letters, is taken off the candidates and
    /// handed out. No candidate can be claimed twice.
    pub fn claim(&mut self, artist_name: &str) -> (claimed: Option<String>)
        ensures
            match claimed {
                Some(folder_name) => {
                    let at = first_named(old(self).candidates.deep_view(), artist_name@);
                    &&& first_match(old(self).candidates.deep_view(), artist_name@, at)
                    &&& folder_name@ == old(self).candidates.deep_view()[at]
                    &&& final(self).candidates.deep_view() == old(
                        self,
                    ).candidates.deep_view().remove(at)
                },
                None => {
                    &&& !listed(old(self).candidates.deep_view(), artist_name@)
                    &&& final(self).candidates.deep_view() == old(self).candidates.deep_view()
                },
            },
    {
        let ghost before = self.candidates.deep_view();
        let mut i: usize = 0;
        while i < self.candidates.len()
            invariant
                i <= self.candidates.len(),
                before == old(self).candidates.deep_view(),
                self.candidates.deep_view() == before,
                forall|j: int|
                    0 <= j < i ==> !same_ignoring_ascii_case(#[trigger] before[j], artist_name@),
            decreases self.candidates.len() - i,
        {
            if eq_ignore_ascii_case(self.candidates[i].as_str(), artist_name) {
                let ghost held = self.candidates@;
                let folder_name = self.candidates.remove(i);
                proof {
                    lemma_first_named(before, artist_name@, i as int);
                    assert(folder_name@ == before[i as int]);
                    assert(self.candidates@ == held.remove(i as int));
                    assert(self.candidates.deep_view() =~= before.remove(i as int));
                }
                return Some(folder_name);
            }
            i += 1;
        }
        None
    }

    /// Lets each artist of a batch, in turn, claim the folder of its name. An artist
    /// whose name no candidate bears any more claims nothing.
    pub fn claim_batch(&mut self, batch: &Vec<ArtistRecord>) -> (claims: Vec<Claimed>)
        ensures
            claims.deep_view() == claims_of(old(self).candidates.deep_view(), batch.deep_view()),
            final(self).candidates.deep_view() == left_after(
                old(self).candidates.deep_view(),
                batch.deep_view(),
            ),
    {
        let ghost first = self.candidates.deep_view();
        let mut claims: Vec<Claimed> = Vec::new();
        let mut i: usize = 0;
        while i < batch.len()
            invariant
                i <= batch.len(),
                first == old(self).candidates.deep_view(),
                self.candidates.deep_view() == left_after(first, batch.deep_view().take(i as int)),
                claims.deep_view() == claims_of(first, batch.deep_view().take(i as int)),
            decreases batch.len() - i,
        {
            let ghost made = claims.deep_view();
            proof {
                assert(batch.deep_view().take(i + 1).drop_last() == batch.deep_view().take(
                    i as int,
                ));
                assert(batch.deep_view().take(i + 1).last() == batch[i as int]@);
            }
            match self.claim(batch[i].name.as_str()) {
                Some(folder_name) => {
                    let claimed = Claimed { folder_name, artist_id: batch[i].id.clone() };
                    claims.push(claimed);
                    proof {
                        assert(claims.deep_view() == made.push(claimed@));
                    }
                },
                None => {},
            }
            i += 1;
        }
        proof {
            assert(batch.deep_view().take(batch.len() as int) == batch.deep_view());
        }
        claims
    }

    /// The line that names the candidates which no artist has claimed, if any is
    /// left.
    pub fn not_found(&self) -> (line: Option<String>)
        ensures
            match line {
                Some(text) => self.candidates.len() > 0 && text@ == not_found_text(
                    self.candidates.deep_view(),
                ),
                None => self.candidates.len() == 0,
            },
    {
        not_found_line(&self.candidates)
    }
}

} // verus!
