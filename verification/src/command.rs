//! The commands that travel through the queue, and what serving one means.
//!
//! A command is one unit of work against the remote catalogue. Serving it takes
//! outside work (a request to the catalogue, or a listing of a folder), which the
//! surroundings perform. What the engine decides is stated here as a function: from
//! the command and the answer to its request, to what is delivered and what comes
//! next. A query over several pages is a chain of commands, each made by serving
//! its predecessor, that hands the caller's reply channel on until one of them ends
//! the query.

use vstd::pervasive::unreached;
use vstd::prelude::*;

use crate::catalog::ArtistRecord;
use crate::catalog::ArtistView;
use crate::catalog::Page;
use crate::catalog::PageView;
use crate::catalog::ReleaseGroupRecord;
use crate::catalog::ReleaseGroupView;
use crate::error::Error;
use crate::folder::albums_among;
use crate::folder::local_albums;
use crate::query::artist_query;
use crate::query::artist_query_text;
use crate::query::release_group_query;
use crate::query::release_group_query_text;
use crate::report::missing_album_lines;
use crate::report::missing_lines;

verus! {

/// How many entities one page of the catalogue holds at most.
pub const PAGE_SIZE: u32 = 100;

/// A unit of work for the queue. `S` is the caller's end of a stream of results,
/// `R` the caller's end of a single reply; a command owns the one it carries.
#[derive(Debug)]
pub enum Command<S, R> {
    /// Search the artists called any of `names`, from `offset` on.
    Artists { names: Vec<String>, offset: u32, reply_stream: S },
    /// Find out which albums in `folder` the catalogue knows, then look for the
    /// missing ones.
    ExistingAlbum { folder: String, artist_id: String, reply: R },
    /// Browse the artist's release groups from `offset` on and report those that
    /// are not among `known_release_ids`.
    MissingAlbum {
        folder: String,
        known_release_ids: Vec<String>,
        artist_id: String,
        offset: u32,
        reply: R,
    },
}

/// The mathematical content of a [`Command`].
pub enum CommandView<S, R> {
    Artists { names: Seq<Seq<char>>, offset: nat, reply_stream: S },
    ExistingAlbum { folder: Seq<char>, artist_id: Seq<char>, reply: R },
    MissingAlbum {
        folder: Seq<char>,
        known_release_ids: Seq<Seq<char>>,
        artist_id: Seq<char>,
        offset: nat,
        reply: R,
    },
}

impl<S, R> View for Command<S, R> {
    type V = CommandView<S, R>;

    open spec fn view(&self) -> CommandView<S, R> {
        match *self {
            Command::Artists { names, offset, reply_stream } => CommandView::Artists {
                names: names.deep_view(),
                offset: offset as nat,
                reply_stream,
            },
            Command::ExistingAlbum { folder, artist_id, reply } => CommandView::ExistingAlbum {
                folder: folder@,
                artist_id: artist_id@,
                reply,
            },
            Command::MissingAlbum {
                folder,
                known_release_ids,
                artist_id,
                offset,
                reply,
            } => CommandView::MissingAlbum {
                folder: folder@,
                known_release_ids: known_release_ids.deep_view(),
                artist_id: artist_id@,
                offset: offset as nat,
                reply,
            },
        }
    }
}

/// Outside work that serving a command takes.
#[derive(Debug, Clone, PartialEq, Eq)]
pub enum Request {
    /// Ask the catalogue for one page of the artists that match `query`.
    SearchArtists { query: String, offset: u32, limit: u32 },
    /// List the names of the folders inside `folder`.
    ListFolder { folder: String },
    /// Ask the catalogue for the release groups that match `query`.
    SearchReleaseGroups { query: String },
    /// Ask the catalogue for one page of the artist's release groups.
    BrowseReleaseGroups { artist_id: String, offset: u32, limit: u32 },
}

/// The mathematical content of a [`Request`].
pub enum RequestView {
    SearchArtists { query: Seq<char>, offset: nat, limit: nat },
    ListFolder { folder: Seq<char> },
    SearchReleaseGroups { query: Seq<char> },
    BrowseReleaseGroups { artist_id: Seq<char>, offset: nat, limit: nat },
}

impl View for Request {
    type V = RequestView;

    open spec fn view(&self) -> RequestView {
        match *self {
            Request::SearchArtists { query, offset, limit } => RequestView::SearchArtists {
                query: query@,
                offset: offset as nat,
                limit: limit as nat,
            },
            Request::ListFolder { folder } => RequestView::ListFolder { folder: folder@ },
            Request::SearchReleaseGroups { query } => RequestView::SearchReleaseGroups {
                query: query@,
            },
            Request::BrowseReleaseGroups {
                artist_id,
                offset,
                limit,
            } => RequestView::BrowseReleaseGroups {
                artist_id: artist_id@,
                offset: offset as nat,
                limit: limit as nat,
            },
        }
    }
}

/// What came back from the outside work.
#[derive(Debug)]
pub enum Answer {
    /// A page of artists, or why the search failed.
    Artists(Result<Page<ArtistRecord>, Error>),
    /// The names of the folders found, or why the listing failed.
    Folders(Result<Vec<String>, Error>),
    /// The identifiers of the release groups found, or why the search failed.
    KnownReleases(Result<Vec<String>, Error>),
    /// A page of release groups, or why browsing failed.
    ReleaseGroups(Result<Page<ReleaseGroupRecord>, Error>),
}

/// The mathematical content of an [`Answer`].
pub enum AnswerView {
    Artists(Result<PageView<ArtistView>, Error>),
    Folders(Result<Seq<Seq<char>>, Error>),
    KnownReleases(Result<Seq<Seq<char>>, Error>),
    ReleaseGroups(Result<PageView<ReleaseGroupView>, Error>),
}

impl View for Answer {
    type V = AnswerView;

    open spec fn view(&self) -> AnswerView {
        match *self {
            Answer::Artists(Ok(page)) => AnswerView::Artists(Ok(page@)),
            Answer::Artists(Err(error)) => AnswerView::Artists(Err(error)),
            Answer::Folders(Ok(names)) => AnswerView::Folders(Ok(names.deep_view())),
            Answer::Folders(Err(error)) => AnswerView::Folders(Err(error)),
            Answer::KnownReleases(Ok(ids)) => AnswerView::KnownReleases(Ok(ids.deep_view())),
            Answer::KnownReleases(Err(error)) => AnswerView::KnownReleases(Err(error)),
            Answer::ReleaseGroups(Ok(page)) => AnswerView::ReleaseGroups(Ok(page@)),
            Answer::ReleaseGroups(Err(error)) => AnswerView::ReleaseGroups(Err(error)),
        }
    }
}

impl DeepView for Answer {
    type V = AnswerView;

    open spec fn deep_view(&self) -> AnswerView {
        self@
    }
}

/// What serving a command delivers at once.
#[derive(Debug)]
pub enum Emit {
    Nothing,
    /// One item for the caller's stream: a page's artists, or the error that ends
    /// the search.
    Stream(Result<Vec<ArtistRecord>, Error>),
    /// Lines to print, one for each missing album of the page.
    Lines(Vec<String>),
}

/// The mathematical content of an [`Emit`].
pub enum EmitView {
    Nothing,
    Stream(Result<Seq<ArtistView>, Error>),
    Lines(Seq<Seq<char>>),
}

impl View for Emit {
    type V = EmitView;

    open spec fn view(&self) -> EmitView {
        match *self {
            Emit::Nothing => EmitView::Nothing,
            Emit::Stream(Ok(artists)) => EmitView::Stream(Ok(artists.deep_view())),
            Emit::Stream(Err(error)) => EmitView::Stream(Err(error)),
            Emit::Lines(lines) => EmitView::Lines(lines.deep_view()),
        }
    }
}

/// What follows once a command is served.
#[derive(Debug)]
pub enum Next<S, R> {
    /// The query goes on: this command enters the queue, with the reply channel.
    Submit(Command<S, R>),
    /// The same command needs more outside work before it is done; no new
    /// admission is needed for it.
    Ask(Command<S, R>, Request),
    /// The query is over: this is the one reply for the caller.
    Reply(R, Result<(), Error>),
    /// The query is over: the stream is dropped, which closes it.
    Close(S),
}

/// The mathematical content of a [`Next`].
pub enum NextView<S, R> {
    Submit(CommandView<S, R>),
    Ask(CommandView<S, R>, RequestView),
    Reply(R, Result<(), Error>),
    Close(S),
}

impl<S, R> View for Next<S, R> {
    type V = NextView<S, R>;

    open spec fn view(&self) -> NextView<S, R> {
        match *self {
            Next::Submit(command) => NextView::Submit(command@),
            Next::Ask(command, request) => NextView::Ask(command@, request@),
            Next::Reply(reply, result) => NextView::Reply(reply, result),
            Next::Close(stream) => NextView::Close(stream),
        }
    }
}

/// The outcome of serving one command.
#[derive(Debug)]
pub struct Step<S, R> {
    pub emit: Emit,
    pub next: Next<S, R>,
}

/// The mathematical content of a [`Step`].
pub struct StepView<S, R> {
    pub emit: EmitView,
    pub next: NextView<S, R>,
}

impl<S, R> View for Step<S, R> {
    type V = StepView<S, R>;

    open spec fn view(&self) -> StepView<S, R> {
        StepView { emit: self.emit@, next: self.next@ }
    }
}

/// The caller's end of a query: a stream or a single reply.
pub enum Channel<S, R> {
    Stream(S),
    Single(R),
}

impl RequestView {
    /// Whether `answer` is of the kind that this request is answered with.
    pub open spec fn answered_by(self, answer: AnswerView) -> bool {
        match self {
            RequestView::SearchArtists { .. } => answer is Artists,
            RequestView::ListFolder { .. } => answer is Folders,
            RequestView::SearchReleaseGroups { .. } => answer is KnownReleases,
            RequestView::BrowseReleaseGroups { .. } => answer is ReleaseGroups,
        }
    }
}

impl<S, R> NextView<S, R> {
    /// Whether the query is over.
    pub open spec fn is_final(self) -> bool {
        self is Reply || self is Close
    }

    /// The command that goes on with the query, where it is not over.
    pub open spec fn following(self) -> CommandView<S, R>
        recommends
            !self.is_final(),
    {
        match self {
            NextView::Submit(command) => command,
            NextView::Ask(command, _) => command,
            _ => arbitrary(),
        }
    }

    /// The caller's channel, wherever it now is: in the command that follows, or
    /// handed out with the end of the query.
    pub open spec fn channel(self) -> Channel<S, R> {
        match self {
            NextView::Submit(command) => command.channel(),
            NextView::Ask(command, _) => command.channel(),
            NextView::Reply(reply, _) => Channel::Single(reply),
            NextView::Close(stream) => Channel::Stream(stream),
        }
    }
}

/// Whether the catalogue holds entities beyond the page asked for at `offset`,
/// given the total it reports. A total of zero or less means there are none.
pub open spec fn more_pages(offset: nat, count: int) -> bool {
    offset + PAGE_SIZE < count
}

impl<S, R> CommandView<S, R> {
    /// The offset at which a paged command asks, zero for one that is not paged.
    pub open spec fn offset(self) -> nat {
        match self {
            CommandView::Artists { offset, .. } => offset,
            CommandView::ExistingAlbum { .. } => 0,
            CommandView::MissingAlbum { offset, .. } => offset,
        }
    }

    /// The caller's channel that the command carries.
    pub open spec fn channel(self) -> Channel<S, R> {
        match self {
            CommandView::Artists { reply_stream, .. } => Channel::Stream(reply_stream),
            CommandView::ExistingAlbum { reply, .. } => Channel::Single(reply),
            CommandView::MissingAlbum { reply, .. } => Channel::Single(reply),
        }
    }

    /// Whether the command is one page of a paged query.
    pub open spec fn is_paged(self) -> bool {
        self is Artists || self is MissingAlbum
    }

    /// The same command, asking at `offset`.
    pub open spec fn at_offset(self, offset: nat) -> CommandView<S, R> {
        match self {
            CommandView::Artists { names, reply_stream, .. } => CommandView::Artists {
                names,
                offset,
                reply_stream,
            },
            CommandView::ExistingAlbum { .. } => self,
            CommandView::MissingAlbum {
                folder,
                known_release_ids,
                artist_id,
                reply,
                ..
            } => CommandView::MissingAlbum { folder, known_release_ids, artist_id, offset, reply },
        }
    }

    /// Offsets are whole pages.
    pub open spec fn well_formed(self) -> bool {
        self.offset() % (PAGE_SIZE as nat) == 0
    }

    /// The outside work a command starts with.
    pub open spec fn request(self) -> RequestView {
        match self {
            CommandView::Artists { names, offset, .. } => RequestView::SearchArtists {
                query: artist_query_text(names),
                offset,
                limit: PAGE_SIZE as nat,
            },
            CommandView::ExistingAlbum { folder, .. } => RequestView::ListFolder { folder },
            CommandView::MissingAlbum {
                artist_id,
                offset,
                ..
            } => RequestView::BrowseReleaseGroups { artist_id, offset, limit: PAGE_SIZE as nat },
        }
    }

    /// Whether `answer` is of a kind that this command can be served with.
    pub open spec fn expects(self, answer: AnswerView) -> bool {
        match self {
            CommandView::Artists { .. } => answer is Artists,
            CommandView::ExistingAlbum { .. } => answer is Folders || answer is KnownReleases,
            CommandView::MissingAlbum { .. } => answer is ReleaseGroups,
        }
    }

    /// What serving this command with `answer` delivers, and what follows.
    pub open spec fn served(self, answer: AnswerView) -> StepView<S, R>
        recommends
            self.expects(answer),
    {
        match self {
            CommandView::Artists { names, offset, reply_stream } => match answer {
                AnswerView::Artists(Ok(page)) => StepView {
                    emit: EmitView::Stream(Ok(page.entities)),
                    next: if more_pages(offset, page.count as int) {
                        NextView::Submit(
                            CommandView::Artists {
                                names,
                                offset: offset + PAGE_SIZE as nat,
                                reply_stream,
                            },
                        )
                    } else {
                        NextView::Close(reply_stream)
                    },
                },
                AnswerView::Artists(Err(error)) => StepView {
                    emit: EmitView::Stream(Err(error)),
                    next: NextView::Close(reply_stream),
                },
                _ => arbitrary(),
            },
            CommandView::ExistingAlbum { folder, artist_id, reply } => match answer {
                AnswerView::Folders(Ok(names)) => StepView {
                    emit: EmitView::Nothing,
                    next: if albums_among(names).len() == 0 {
                        NextView::Submit(
                            CommandView::MissingAlbum {
                                folder,
                                known_release_ids: Seq::empty(),
                                artist_id,
                                offset: 0,
                                reply,
                            },
                        )
                    } else {
                        NextView::Ask(
                            self,
                            RequestView::SearchReleaseGroups {
                                query: release_group_query_text(artist_id, albums_among(names)),
                            },
                        )
                    },
                },
                AnswerView::KnownReleases(Ok(ids)) => StepView {
                    emit: EmitView::Nothing,
                    next: NextView::Submit(
                        CommandView::MissingAlbum {
                            folder,
                            known_release_ids: ids,
                            artist_id,
                            offset: 0,
                            reply,
                        },
                    ),
                },
                AnswerView::Folders(Err(error)) | AnswerView::KnownReleases(Err(error)) => StepView {
                    emit: EmitView::Nothing,
                    next: NextView::Reply(reply, Err(error)),
                },
                _ => arbitrary(),
            },
            CommandView::MissingAlbum {
                folder,
                known_release_ids,
                artist_id,
                offset,
                reply,
            } => match answer {
                AnswerView::ReleaseGroups(Ok(page)) => StepView {
                    emit: EmitView::Lines(missing_lines(folder, known_release_ids, page.entities)),
                    next: if more_pages(offset, page.count as int) {
                        NextView::Submit(
                            CommandView::MissingAlbum {
                                folder,
                                known_release_ids,
                                artist_id,
                                offset: offset + PAGE_SIZE as nat,
                                reply,
                            },
                        )
                    } else {
                        NextView::Reply(reply, Ok(()))
                    },
                },
                AnswerView::ReleaseGroups(Err(error)) => StepView {
                    emit: EmitView::Nothing,
                    next: NextView::Reply(reply, Err(error)),
                },
                _ => arbitrary(),
            },
        }
    }
}

/// Whether a page at `offset` is followed by another, given the reported total.
fn has_more_pages(offset: u32, count: i32) -> (more: bool)
    ensures
        more == more_pages(offset as nat, count as int),
        more ==> offset + PAGE_SIZE <= u32::MAX,
{
    count > 0 && (offset as u64) + (PAGE_SIZE as u64) < (count as u64)
}

impl Request {
    /// Whether `answer` is of the kind that this request is answered with.
    pub fn answered_by(&self, answer: &Answer) -> (fits: bool)
        ensures
            fits == self@.answered_by(answer@),
    {
        match self {
            Request::SearchArtists { .. } => match answer {
                Answer::Artists(_) => true,
                _ => false,
            },
            Request::ListFolder { .. } => match answer {
                Answer::Folders(_) => true,
                _ => false,
            },
            Request::SearchReleaseGroups { .. } => match answer {
                Answer::KnownReleases(_) => true,
                _ => false,
            },
            Request::BrowseReleaseGroups { .. } => match answer {
                Answer::ReleaseGroups(_) => true,
                _ => false,
            },
        }
    }
}

impl<S, R> Command<S, R> {
    /// The outside work this command starts with.
    pub fn request(&self) -> (request: Request)
        ensures
            request@ == self@.request(),
    {
        match self {
            Command::Artists { names, offset, .. } => Request::SearchArtists {
                query: artist_query(names),
                offset: *offset,
                limit: PAGE_SIZE,
            },
            Command::ExistingAlbum { folder, .. } => Request::ListFolder { folder: folder.clone() },
            Command::MissingAlbum { artist_id, offset, .. } => Request::BrowseReleaseGroups {
                artist_id: artist_id.clone(),
                offset: *offset,
                limit: PAGE_SIZE,
            },
        }
    }

    /// Whether `answer` is of a kind that this command can be served with.
    pub fn expects(&self, answer: &Answer) -> (fits: bool)
        ensures
            fits == self@.expects(answer@),
    {
        match self {
            Command::Artists { .. } => match answer {
                Answer::Artists(_) => true,
                _ => false,
            },
            Command::ExistingAlbum { .. } => match answer {
                Answer::Folders(_) => true,
                Answer::KnownReleases(_) => true,
                _ => false,
            },
            Command::MissingAlbum { .. } => match answer {
                Answer::ReleaseGroups(_) => true,
                _ => false,
            },
        }
    }

    /// Serves the command with the answer to its request: says what to deliver at
    /// once and what follows. Where the query goes on, the command that follows
    /// carries the reply channel of this one; where it ends, the channel is handed
    /// out with the one reply.
    pub fn dispatch(self, answer: Answer) -> (step: Step<S, R>)
        requires
            self@.expects(answer@),
        ensures
            step@ == self@.served(answer@),
            step@.next.channel() == self@.channel(),
            self@.well_formed() && !step@.next.is_final() ==> step@.next.following().well_formed(),
    {
        match self {
            Command::Artists { names, offset, reply_stream } => match answer {
                Answer::Artists(Ok(page)) => {
                    let Page { entities, count } = page;
                    let next = if has_more_pages(offset, count) {
                        Next::Submit(
                            Command::Artists { names, offset: offset + PAGE_SIZE, reply_stream },
                        )
                    } else {
                        Next::Close(reply_stream)
                    };
                    Step { emit: Emit::Stream(Ok(entities)), next }
                },
                Answer::Artists(Err(error)) => Step {
                    emit: Emit::Stream(Err(error)),
                    next: Next::Close(reply_stream),
                },
                _ => unreached(),
            },
            Command::ExistingAlbum { folder, artist_id, reply } => match answer {
                Answer::Folders(Ok(names)) => {
                    let albums = local_albums(&names);
                    assert(albums.deep_view().len() == albums.len());
                    let next = if albums.len() == 0 {
                        let known_release_ids: Vec<String> = Vec::new();
                        assert(known_release_ids.deep_view() == Seq::<Seq<char>>::empty());
                        Next::Submit(
                            Command::MissingAlbum {
                                folder,
                                known_release_ids,
                                artist_id,
                                offset: 0,
                                reply,
                            },
                        )
                    } else {
                        let query = release_group_query(artist_id.as_str(), &albums);
                        Next::Ask(
                            Command::ExistingAlbum { folder, artist_id, reply },
                            Request::SearchReleaseGroups { query },
                        )
                    };
                    Step { emit: Emit::Nothing, next }
                },
                Answer::KnownReleases(Ok(ids)) => Step {
                    emit: Emit::Nothing,
                    next: Next::Submit(
                        Command::MissingAlbum {
                            folder,
                            known_release_ids: ids,
                            artist_id,
                            offset: 0,
                            reply,
                        },
                    ),
                },
                Answer::Folders(Err(error)) => Step {
                    emit: Emit::Nothing,
                    next: Next::Reply(reply, Err(error)),
                },
                Answer::KnownReleases(Err(error)) => Step {
                    emit: Emit::Nothing,
                    next: Next::Reply(reply, Err(error)),
                },
                _ => unreached(),
            },
            Command::MissingAlbum {
                folder,
                known_release_ids,
                artist_id,
                offset,
                reply,
            } => match answer {
                Answer::ReleaseGroups(Ok(page)) => {
                    let Page { entities, count } = page;
                    let lines = missing_album_lines(folder.as_str(), &known_release_ids, &entities);
                    let next = if has_more_pages(offset, count) {
                        Next::Submit(
                            Command::MissingAlbum {
                                folder,
                                known_release_ids,
                                artist_id,
                                offset: offset + PAGE_SIZE,
                                reply,
                            },
                        )
                    } else {
                        Next::Reply(reply, Ok(()))
                    };
                    Step { emit: Emit::Lines(lines), next }
                },
                Answer::ReleaseGroups(Err(error)) => Step {
                    emit: Emit::Nothing,
                    next: Next::Reply(reply, Err(error)),
                },
                _ => unreached(),
            },
        }
    }
}

} // verus!
