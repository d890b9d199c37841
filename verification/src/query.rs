//! Search queries for the catalogue, in its Lucene syntax.
//!
//! The text is produced by the query builders of `musicbrainz_rs`. What each
//! builder method does to a builder is stated here without proof, over the list of
//! terms that the builder holds; the queries themselves are proved from that.

use musicbrainz_rs::entity::artist::ArtistSearchQuery;
use musicbrainz_rs::entity::artist::ArtistSearchQueryLuceneQueryBuilder;
use musicbrainz_rs::entity::release_group::ReleaseGroupSearchQuery;
use musicbrainz_rs::entity::release_group::ReleaseGroupSearchQueryLuceneQueryBuilder;
use vstd::prelude::*;

use crate::folder::LocalAlbum;
use crate::folder::LocalAlbumView;
use crate::text::joined;

verus! {

/// What a value looks like inside a query: in double quotes where it holds a space.
pub open spec fn query_value(value: Seq<char>) -> Seq<char> {
    if value.contains(' ') {
        "\""@ + value + "\""@
    } else {
        value
    }
}

/// The clause that asks for `value` in the catalogue's field `field`.
pub open spec fn field_clause(field: Seq<char>, value: Seq<char>) -> Seq<char> {
    field + ":"@ + query_value(value)
}

/// The terms after a field method: the clause takes the place of the last term's
/// text, or becomes the first term.
pub open spec fn with_clause(terms: Seq<(Seq<char>, Seq<char>)>, clause: Seq<char>) -> Seq<
    (Seq<char>, Seq<char>),
> {
    if terms.len() > 0 {
        terms.update(terms.len() - 1, (clause, terms.last().1))
    } else {
        seq![(clause, Seq::empty())]
    }
}

/// The terms after `or()` or `and()`: the last term, if any, is followed by
/// `operator`, and a new empty term is added.
pub open spec fn with_operator(terms: Seq<(Seq<char>, Seq<char>)>, operator: Seq<char>) -> Seq<
    (Seq<char>, Seq<char>),
> {
    if terms.len() > 0 {
        terms.update(terms.len() - 1, (terms.last().0, operator)).push(
            (Seq::empty(), Seq::empty()),
        )
    } else {
        terms.push((Seq::empty(), Seq::empty()))
    }
}

/// The query that a list of terms stands for: each term's text, then what follows it.
pub open spec fn terms_text(terms: Seq<(Seq<char>, Seq<char>)>) -> Seq<char>
    decreases terms.len(),
{
    if terms.len() == 0 {
        Seq::empty()
    } else {
        terms_text(terms.drop_last()) + terms.last().0 + terms.last().1
    }
}

/// The builder of artist queries, a type of `musicbrainz_rs`. Nothing of its inside
/// is known here but what the functions below state.
#[verifier::external_type_specification]
#[verifier::external_body]
pub struct ExArtistQueryBuilder(ArtistSearchQueryLuceneQueryBuilder);

/// The terms that an artist query builder holds: each a text and what follows it
/// (`" OR "`, `" AND "` or nothing).
pub uninterp spec fn artist_terms(builder: ArtistSearchQueryLuceneQueryBuilder) -> Seq<(Seq<char>, Seq<char>)>;

/// `ArtistSearchQuery::query_builder`: the new builder holds no term.
#[verifier::external_body]
fn artist_builder() -> (builder: ArtistSearchQueryLuceneQueryBuilder)
    ensures
        artist_terms(builder).len() == 0,
{
    ArtistSearchQuery::query_builder()
}

/// The builder's `artist`: puts the clause `artist:` with the value into the last
/// term, or makes it the first term where the builder holds none.
#[verifier::external_body]
fn artist_name(builder: &mut ArtistSearchQueryLuceneQueryBuilder, value: &str)
    ensures
        artist_terms(*final(builder)) == with_clause(
            artist_terms(*old(builder)),
            field_clause("artist"@, value@),
        ),
{
    builder.artist(value);
}

/// The builder's `or`: lets `" OR "` follow the last term, if there is one, and adds
/// an empty term.
#[verifier::external_body]
fn artist_or(builder: &mut ArtistSearchQueryLuceneQueryBuilder)
    ensures
        artist_terms(*final(builder)) == with_operator(artist_terms(*old(builder)), " OR "@),
{
    builder.or();
}

/// The builder's `build`: `query=` and then the terms' text; the builder keeps its
/// terms.
#[verifier::external_body]
fn artist_build(builder: &mut ArtistSearchQueryLuceneQueryBuilder) -> (query: String)
    ensures
        query@ == "query="@ + terms_text(artist_terms(*old(builder))),
        artist_terms(*final(builder)) == artist_terms(*old(builder)),
{
    builder.build()
}

/// The clauses `artist:` for each of `names`, joined by `" OR "`, behind `query=`.
pub open spec fn artist_query_text(names: Seq<Seq<char>>) -> Seq<char> {
    "query="@ + joined(names.map_values(|name: Seq<char>| field_clause("artist"@, name)), " OR "@)
}

proof fn lemma_text_after_operator(terms: Seq<(Seq<char>, Seq<char>)>, operator: Seq<char>)
    requires
        terms.len() > 0,
        terms.last().1.len() == 0,
    ensures
        terms_text(with_operator(terms, operator)) == terms_text(terms) + operator,
        with_operator(terms, operator).len() > 0,
        with_operator(terms, operator).last().0.len() == 0,
        with_operator(terms, operator).last().1.len() == 0,
{
    let marked = terms.update(terms.len() - 1, (terms.last().0, operator));
    let after = with_operator(terms, operator);
    assert(after.drop_last() == marked);
    assert(marked.drop_last() == terms.drop_last());
    assert(terms.last().1 == Seq::<char>::empty());
    assert(terms_text(terms) == terms_text(terms.drop_last()) + terms.last().0 + Seq::<char>::empty());
    assert(terms_text(marked) == terms_text(terms.drop_last()) + terms.last().0 + operator);
    assert(terms_text(after) == terms_text(marked) + Seq::<char>::empty() + Seq::<char>::empty());
    assert(terms_text(after) == terms_text(terms) + operator);
}

proof fn lemma_text_after_clause(terms: Seq<(Seq<char>, Seq<char>)>, clause: Seq<char>)
    requires
        terms.len() > 0 ==> terms.last().0.len() == 0 && terms.last().1.len() == 0,
    ensures
        terms_text(with_clause(terms, clause)) == terms_text(terms) + clause,
        with_clause(terms, clause).len() > 0,
        with_clause(terms, clause).last().1.len() == 0,
{
    let after = with_clause(terms, clause);
    if terms.len() > 0 {
        assert(after.drop_last() == terms.drop_last());
        assert(terms.last().0 == Seq::<char>::empty());
        assert(terms.last().1 == Seq::<char>::empty());
        assert(terms_text(terms) == terms_text(terms.drop_last()) + Seq::<char>::empty() + Seq::<char>::empty());
        assert(terms_text(after) == terms_text(terms.drop_last()) + clause + Seq::<char>::empty());
        assert(terms_text(after) == terms_text(terms) + clause);
    } else {
        assert(after.drop_last() == Seq::<(Seq<char>, Seq<char>)>::empty());
        assert(terms_text(after.drop_last()) == Seq::<char>::empty());
        assert(terms_text(after) == Seq::<char>::empty() + clause + Seq::<char>::empty());
        assert(terms_text(terms) == Seq::<char>::empty());
        assert(terms_text(after) == terms_text(terms) + clause);
    }
}

proof fn lemma_text_after_group(terms: Seq<(Seq<char>, Seq<char>)>, group: Seq<char>)
    ensures
        terms_text(terms.push((group, Seq::empty()))) == terms_text(terms) + group,
{
    let after = terms.push((group, Seq::<char>::empty()));
    assert(after.drop_last() == terms);
    assert(terms_text(after) == terms_text(terms) + group + Seq::<char>::empty());
}

/// The search query for artists called any of `names`.
pub fn artist_query(names: &Vec<String>) -> (query: String)
    ensures
        query@ == artist_query_text(names.deep_view()),
{
    let ghost clauses = names.deep_view().map_values(|name: Seq<char>| field_clause("artist"@, name));
    let mut builder = artist_builder();
    let mut i: usize = 0;
    while i < names.len()
        invariant
            i <= names.len(),
            clauses == names.deep_view().map_values(|name: Seq<char>| field_clause("artist"@, name)),
            terms_text(artist_terms(builder)) == joined(clauses.take(i as int), " OR "@),
            i == 0 ==> artist_terms(builder).len() == 0,
            i > 0 ==> artist_terms(builder).len() > 0 && artist_terms(builder).last().1.len() == 0,
        decreases names.len() - i,
    {
        proof {
            assert(clauses.take(i + 1).drop_last() == clauses.take(i as int));
            assert(clauses.take(i + 1).last() == field_clause("artist"@, names[i as int]@));
        }
        if i > 0 {
            proof {
                lemma_text_after_operator(artist_terms(builder), " OR "@);
            }
            artist_or(&mut builder);
        }
        proof {
            lemma_text_after_clause(artist_terms(builder), field_clause("artist"@, names[i as int]@));
        }
        artist_name(&mut builder, names[i].as_str());
        i += 1;
    }
    proof {
        assert(clauses.take(names.len() as int) == clauses);
    }
    artist_build(&mut builder)
}

/// The builder of release group queries, a type of `musicbrainz_rs`. Nothing of its
/// inside is known here but what the functions below state.
#[verifier::external_type_specification]
#[verifier::external_body]
pub struct ExReleaseGroupQueryBuilder(ReleaseGroupSearchQueryLuceneQueryBuilder);

/// The terms that a release group query builder holds: each a text and what follows
/// it (`" OR "`, `" AND "` or nothing).
pub uninterp spec fn release_group_terms(builder: ReleaseGroupSearchQueryLuceneQueryBuilder) -> Seq<(Seq<char>, Seq<char>)>;

/// `ReleaseGroupSearchQuery::query_builder`: the new builder holds no term.
#[verifier::external_body]
fn release_group_builder() -> (builder: ReleaseGroupSearchQueryLuceneQueryBuilder)
    ensures
        release_group_terms(builder).len() == 0,
{
    ReleaseGroupSearchQuery::query_builder()
}

/// The builder's `release_group`: puts the clause `releasegroup:` with the value into
/// the last term, or makes it the first term where the builder holds none.
#[verifier::external_body]
fn release_group_title(builder: &mut ReleaseGroupSearchQueryLuceneQueryBuilder, value: &str)
    ensures
        release_group_terms(*final(builder)) == with_clause(
            release_group_terms(*old(builder)),
            field_clause("releasegroup"@, value@),
        ),
{
    builder.release_group(value);
}

/// The builder's `first_release_date`: puts the clause `firstreleasedate:` with the
/// value into the last term, or makes it the first term where the builder holds none.
#[verifier::external_body]
fn release_group_date(builder: &mut ReleaseGroupSearchQueryLuceneQueryBuilder, value: &str)
    ensures
        release_group_terms(*final(builder)) == with_clause(
            release_group_terms(*old(builder)),
            field_clause("firstreleasedate"@, value@),
        ),
{
    builder.first_release_date(value);
}

/// The builder's `arid`: puts the clause `arid:` with the value into the last term,
/// or makes it the first term where the builder holds none.
#[verifier::external_body]
fn release_group_artist(builder: &mut ReleaseGroupSearchQueryLuceneQueryBuilder, value: &str)
    ensures
        release_group_terms(*final(builder)) == with_clause(
            release_group_terms(*old(builder)),
            field_clause("arid"@, value@),
        ),
{
    builder.arid(value);
}

/// The builder's `and`: lets `" AND "` follow the last term, if there is one, and
/// adds an empty term.
#[verifier::external_body]
fn release_group_and(builder: &mut ReleaseGroupSearchQueryLuceneQueryBuilder)
    ensures
        release_group_terms(*final(builder)) == with_operator(
            release_group_terms(*old(builder)),
            " AND "@,
        ),
{
    builder.and();
}

/// The builder's `or`: lets `" OR "` follow the last term, if there is one, and adds
/// an empty term.
#[verifier::external_body]
fn release_group_or(builder: &mut ReleaseGroupSearchQueryLuceneQueryBuilder)
    ensures
        release_group_terms(*final(builder)) == with_operator(
            release_group_terms(*old(builder)),
            " OR "@,
        ),
{
    builder.or();
}

/// The builder's `expr`: adds one term, the text of `inner`'s terms in round
/// brackets; `inner` keeps its terms.
#[verifier::external_body]
fn release_group_expr(
    builder: &mut ReleaseGroupSearchQueryLuceneQueryBuilder,
    inner: &mut ReleaseGroupSearchQueryLuceneQueryBuilder,
)
    ensures
        release_group_terms(*final(builder)) == release_group_terms(*old(builder)).push(
            ("("@ + terms_text(release_group_terms(*old(inner))) + ")"@, Seq::empty()),
        ),
        release_group_terms(*final(inner)) == release_group_terms(*old(inner)),
{
    builder.expr(inner);
}

/// The builder's `build`: `query=` and then the terms' text; the builder keeps its
/// terms.
#[verifier::external_body]
fn release_group_build(builder: &mut ReleaseGroupSearchQueryLuceneQueryBuilder) -> (query: String)
    ensures
        query@ == "query="@ + terms_text(release_group_terms(*old(builder))),
        release_group_terms(*final(builder)) == release_group_terms(*old(builder)),
{
    builder.build()
}

/// The bracketed clause that asks for a release group with the album's title, first
/// released in the album's year.
pub open spec fn album_clause(album: LocalAlbumView) -> Seq<char> {
    "("@ + (field_clause("releasegroup"@, album.title) + " AND "@ + field_clause(
        "firstreleasedate"@,
        album.year,
    )) + ")"@
}

/// The query for the release groups of the artist `artist_id` that match any of
/// `albums` in title and year.
pub open spec fn release_group_query_text(
    artist_id: Seq<char>,
    albums: Seq<LocalAlbumView>,
) -> Seq<char> {
    "query="@ + (field_clause("arid"@, artist_id) + " AND "@ + ("("@ + joined(
        albums.map_values(|album: LocalAlbumView| album_clause(album)),
        " OR "@,
    ) + ")"@))
}

/// Adds the bracketed clause for `album` to `builder` as a new term.
fn add_album_clause(builder: &mut ReleaseGroupSearchQueryLuceneQueryBuilder, album: &LocalAlbum)
    ensures
        release_group_terms(*final(builder)) == release_group_terms(*old(builder)).push(
            (album_clause(album@), Seq::empty()),
        ),
{
    let mut inner = release_group_builder();
    let ghost title = field_clause("releasegroup"@, album.title@);
    let ghost year = field_clause("firstreleasedate"@, album.year@);
    proof {
        assert(release_group_terms(inner) == Seq::<(Seq<char>, Seq<char>)>::empty());
        assert(terms_text(release_group_terms(inner)) == Seq::<char>::empty());
        lemma_text_after_clause(release_group_terms(inner), title);
    }
    release_group_title(&mut inner, album.title.as_str());
    proof {
        lemma_text_after_operator(release_group_terms(inner), " AND "@);
    }
    release_group_and(&mut inner);
    proof {
        lemma_text_after_clause(release_group_terms(inner), year);
    }
    release_group_date(&mut inner, album.year.as_str());
    proof {
        assert(terms_text(release_group_terms(inner)) == title + " AND "@ + year);
    }
    release_group_expr(builder, &mut inner);
}

/// The search query for the release groups of one artist that match any of the
/// albums found on disk.
pub fn release_group_query(artist_id: &str, albums: &Vec<LocalAlbum>) -> (query: String)
    ensures
        query@ == release_group_query_text(artist_id@, albums.deep_view()),
{
    let ghost clauses = albums.deep_view().map_values(|album: LocalAlbumView| album_clause(album));
    let mut any = release_group_builder();
    proof {
        assert(release_group_terms(any) == Seq::<(Seq<char>, Seq<char>)>::empty());
    }
    let mut i: usize = 0;
    while i < albums.len()
        invariant
            i <= albums.len(),
            clauses == albums.deep_view().map_values(|album: LocalAlbumView| album_clause(album)),
            terms_text(release_group_terms(any)) == joined(clauses.take(i as int), " OR "@),
            i > 0 ==> release_group_terms(any).len() > 0 && release_group_terms(any).last().1.len()
                == 0,
        decreases albums.len() - i,
    {
        proof {
            assert(clauses.take(i + 1).drop_last() == clauses.take(i as int));
            assert(clauses.take(i + 1).last() == album_clause(albums[i as int]@));
        }
        if i > 0 {
            proof {
                lemma_text_after_operator(release_group_terms(any), " OR "@);
            }
            release_group_or(&mut any);
        }
        proof {
            lemma_text_after_group(release_group_terms(any), album_clause(albums[i as int]@));
        }
        add_album_clause(&mut any, &albums[i]);
        i += 1;
    }
    proof {
        assert(clauses.take(albums.len() as int) == clauses);
    }
    let mut all = release_group_builder();
    let ghost artist = field_clause("arid"@, artist_id@);
    let ghost group = "("@ + terms_text(release_group_terms(any)) + ")"@;
    proof {
        assert(release_group_terms(all) == Seq::<(Seq<char>, Seq<char>)>::empty());
        assert(terms_text(release_group_terms(all)) == Seq::<char>::empty());
        lemma_text_after_clause(release_group_terms(all), artist);
    }
    release_group_artist(&mut all, artist_id);
    proof {
        lemma_text_after_operator(release_group_terms(all), " AND "@);
    }
    release_group_and(&mut all);
    proof {
        lemma_text_after_group(release_group_terms(all), group);
    }
    release_group_expr(&mut all, &mut any);
    proof {
        assert(terms_text(release_group_terms(all)) == artist + " AND "@ + group);
    }
    release_group_build(&mut all)
}

} // verus!
