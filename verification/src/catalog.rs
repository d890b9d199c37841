//! What the engine reads of the remote catalogue's answers.

use vstd::prelude::*;

verus! {

/// An artist of the catalogue.
#[derive(Debug, Clone, PartialEq, Eq)]
pub struct ArtistRecord {
    /// The catalogue's identifier of the artist.
    pub id: String,
    /// The artist's official name.
    pub name: String,
}

/// The texts of an [`ArtistRecord`].
pub struct ArtistView {
    pub id: Seq<char>,
    pub name: Seq<char>,
}

impl View for ArtistRecord {
    type V = ArtistView;

    open spec fn view(&self) -> ArtistView {
        ArtistView { id: self.id@, name: self.name@ }
    }
}

impl DeepView for ArtistRecord {
    type V = ArtistView;

    open spec fn deep_view(&self) -> ArtistView {
        self@
    }
}

/// A release group of the catalogue: an album with all its editions.
#[derive(Debug, Clone, PartialEq, Eq)]
pub struct ReleaseGroupRecord {
    /// The catalogue's identifier of the release group.
    pub id: String,
    pub title: String,
    /// The year of the earliest release, as the catalogue writes it, if it is known.
    pub first_release_year: Option<String>,
}

/// The texts of a [`ReleaseGroupRecord`].
pub struct ReleaseGroupView {
    pub id: Seq<char>,
    pub title: Seq<char>,
    pub first_release_year: Option<Seq<char>>,
}

impl View for ReleaseGroupRecord {
    type V = ReleaseGroupView;

    open spec fn view(&self) -> ReleaseGroupView {
        ReleaseGroupView {
            id: self.id@,
            title: self.title@,
            first_release_year: match self.first_release_year {
                Some(year) => Some(year@),
                None => None,
            },
        }
    }
}

impl DeepView for ReleaseGroupRecord {
    type V = ReleaseGroupView;

    open spec fn deep_view(&self) -> ReleaseGroupView {
        self@
    }
}

/// One page of a paged answer.
#[derive(Debug, Clone, PartialEq, Eq)]
pub struct Page<T> {
    /// The entities of this page, in the catalogue's order.
    pub entities: Vec<T>,
    /// How many entities the whole answer has, over all pages, as the catalogue
    /// reports it.
    pub count: i32,
}

/// The mathematical content of a [`Page`].
pub struct PageView<V> {
    pub entities: Seq<V>,
    pub count: i32,
}

impl<T: DeepView> View for Page<T> {
    type V = PageView<T::V>;

    open spec fn view(&self) -> PageView<T::V> {
        PageView { entities: self.entities.deep_view(), count: self.count }
    }
}

} // verus!
