//! The naming convention of album folders: a four-digit year, the separator
//! `" - "`, then the album's title. Folders named otherwise are not albums.

use vstd::prelude::*;

use crate::text::chars_of;

verus! {

/// An album found on disk, as its folder's name states it.
#[derive(Debug, Clone, PartialEq, Eq)]
pub struct LocalAlbum {
    pub year: String,
    pub title: String,
}

/// The texts of a [`LocalAlbum`].
pub struct LocalAlbumView {
    pub year: Seq<char>,
    pub title: Seq<char>,
}

impl View for LocalAlbum {
    type V = LocalAlbumView;

    open spec fn view(&self) -> LocalAlbumView {
        LocalAlbumView { year: self.year@, title: self.title@ }
    }
}

impl DeepView for LocalAlbum {
    type V = LocalAlbumView;

    open spec fn deep_view(&self) -> LocalAlbumView {
        self@
    }
}

/// What stands between the year and the title.
pub open spec fn separator() -> Seq<char> {
    seq![' ', '-', ' ']
}

/// Whether `text` is a year: four ASCII digits.
pub open spec fn is_year(text: Seq<char>) -> bool {
    &&& text.len() == 4
    &&& forall|i: int| 0 <= i < 4 ==> '0' <= #[trigger] text[i] <= '9'
}

/// Whether a folder of this name is an album: four digits, the separator, a title.
pub open spec fn is_album_folder(name: Seq<char>) -> bool {
    &&& name.len() >= 7
    &&& is_year(name.subrange(0, 4))
    &&& name.subrange(4, 7) == separator()
}

/// The album that a folder's name states, where it states one.
pub open spec fn album_of(name: Seq<char>) -> LocalAlbumView
    recommends
        is_album_folder(name),
{
    LocalAlbumView { year: name.subrange(0, 4), title: name.subrange(7, name.len() as int) }
}

/// What [`parse_album_folder`] gives for a name.
pub open spec fn parsed(name: Seq<char>) -> Option<LocalAlbumView> {
    if is_album_folder(name) {
        Some(album_of(name))
    } else {
        None
    }
}

/// A year, the separator and a title make an album folder's name, and that name
/// states exactly this year and title; every album folder's name is made so.
pub proof fn lemma_album_folder_names(year: Seq<char>, title: Seq<char>, name: Seq<char>)
    ensures
        is_year(year) ==> parsed(year + separator() + title) == Some(
            LocalAlbumView { year, title },
        ),
        is_album_folder(name) ==> name == album_of(name).year + separator() + album_of(name).title,
{
    if is_year(year) {
        let made = year + separator() + title;
        assert(made.subrange(0, 4) == year);
        assert(made.subrange(4, 7) == separator());
        assert(made.subrange(7, made.len() as int) == title);
    }
    if is_album_folder(name) {
        assert(name == name.subrange(0, 4) + name.subrange(4, 7) + name.subrange(
            7,
            name.len() as int,
        ));
    }
}

/// Whether the separator stands in `name` from position `at` on.
pub open spec fn separator_at(name: Seq<char>, at: int) -> bool {
    &&& 0 <= at
    &&& at + 3 <= name.len()
    &&& name.subrange(at, at + 3) == separator()
}

/// A name that holds no separator at all is no album folder's name.
pub proof fn lemma_no_separator_no_album(name: Seq<char>)
    requires
        forall|at: int| !separator_at(name, at),
    ensures
        parsed(name) is None,
{
    assert(!separator_at(name, 4));
}

/// Reads a folder's name as an album, if it follows the convention.
pub fn parse_album_folder(name: &str) -> (album: Option<LocalAlbum>)
    ensures
        match album {
            Some(a) => parsed(name@) == Some(a@),
            None => parsed(name@) is None,
        },
{
    let cs = chars_of(name);
    if cs.len() < 7 {
        return None;
    }
    let mut i: usize = 0;
    while i < 4
        invariant
            i <= 4,
            cs.len() >= 7,
            cs@ == name@,
            forall|j: int| 0 <= j < i ==> '0' <= #[trigger] name@[j] <= '9',
        decreases 4 - i,
    {
        if !('0' <= cs[i] && cs[i] <= '9') {
            proof {
                assert(name@.subrange(0, 4)[i as int] == name@[i as int]);
            }
            return None;
        }
        i += 1;
    }
    if cs[4] != ' ' || cs[5] != '-' || cs[6] != ' ' {
        proof {
            let sep = name@.subrange(4, 7);
            assert(sep[0] == name@[4] && sep[1] == name@[5] && sep[2] == name@[6]);
        }
        return None;
    }
    proof {
        assert(name@.subrange(4, 7) =~= separator());
        assert(is_year(name@.subrange(0, 4)));
    }
    let year = name.substring_char(0, 4).to_owned();
    let title = name.substring_char(7, cs.len()).to_owned();
    Some(LocalAlbum { year, title })
}

/// The albums among `names`, in the order of `names`.
pub open spec fn albums_among(names: Seq<Seq<char>>) -> Seq<LocalAlbumView> {
    names.filter(|name: Seq<char>| is_album_folder(name)).map_values(
        |name: Seq<char>| album_of(name),
    )
}

/// The albums that a listing of folder names holds; other names are passed over.
pub fn local_albums(names: &Vec<String>) -> (albums: Vec<LocalAlbum>)
    ensures
        albums.deep_view() == albums_among(names.deep_view()),
{
    let ghost is_album = |name: Seq<char>| is_album_folder(name);
    let ghost read = |name: Seq<char>| album_of(name);
    let mut albums: Vec<LocalAlbum> = Vec::new();
    let mut i: usize = 0;
    proof {
        assert(names.deep_view().take(0).filter(is_album) == Seq::<Seq<char>>::empty()) by {
            reveal(Seq::filter);
        }
    }
    while i < names.len()
        invariant
            i <= names.len(),
            is_album == |name: Seq<char>| is_album_folder(name),
            read == |name: Seq<char>| album_of(name),
            albums.deep_view() == names.deep_view().take(i as int).filter(is_album).map_values(read),
        decreases names.len() - i,
    {
        let ghost before = names.deep_view().take(i as int);
        let ghost kept = before.filter(is_album);
        proof {
            assert(names.deep_view().take(i + 1) == before.push(names[i as int]@));
            before.lemma_filter_push(names[i as int]@, is_album);
            kept.lemma_push_map_commute(read, names[i as int]@);
        }
        let ghost old_albums = albums.deep_view();
        match parse_album_folder(names[i].as_str()) {
            Some(album) => {
                albums.push(album);
                proof {
                    assert(albums.deep_view() == old_albums.push(album@));
                }
            },
            None => {},
        }
        i += 1;
    }
    proof {
        assert(names.deep_view().take(names.len() as int) == names.deep_view());
    }
    albums
}

} // verus!
