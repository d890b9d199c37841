//! A query from its first command to its end.
//!
//! Serving a command either ends the query or names the command that goes on with
//! it. The course of a query is what comes of serving the commands in turn with the
//! answers to their requests. This module states the course, proves what holds of
//! every course (one reply, offsets that advance page by page, an end after a known
//! number of steps) and replays a course against recorded answers.

use vstd::pervasive::unreached;
use vstd::prelude::*;

use crate::command::Answer;
use crate::command::AnswerView;
use crate::command::Command;
use crate::command::CommandView;
use crate::command::Emit;
use crate::command::Next;
use crate::command::NextView;
use crate::command::Request;
use crate::command::RequestView;
use crate::command::Step;
use crate::command::StepView;
use crate::command::more_pages;
use crate::command::PAGE_SIZE;

verus! {

/// One step of a query: the command served, the request made for it, and what
/// serving it with the answer gave.
pub struct Exchange<S, R> {
    pub command: CommandView<S, R>,
    pub request: RequestView,
    pub step: StepView<S, R>,
}

/// Whether `request` is one that `command` can be waiting on: its own first
/// request, or the search that an album scan makes after its listing.
pub open spec fn waits_on<S, R>(command: CommandView<S, R>, request: RequestView) -> bool {
    request == command.request() || (command is ExistingAlbum && request is SearchReleaseGroups)
}

/// The steps taken when `command` waits on `request` and `answers` come in, one for
/// each request in turn. The course stops at the end of the query, when the answers
/// run out, or at an answer of a kind other than the one asked for.
pub open spec fn course_from<S, R>(
    command: CommandView<S, R>,
    request: RequestView,
    answers: Seq<AnswerView>,
) -> Seq<Exchange<S, R>>
    decreases answers.len(),
{
    if answers.len() == 0 || !request.answered_by(answers[0]) {
        Seq::empty()
    } else {
        let step = command.served(answers[0]);
        let rest = answers.drop_first();
        seq![Exchange { command, request, step }] + (match step.next {
            NextView::Submit(next) => course_from(next, next.request(), rest),
            NextView::Ask(next, asked) => course_from(next, asked, rest),
            _ => Seq::empty(),
        })
    }
}

/// The course of the query that starts with `start`.
pub open spec fn course<S, R>(start: CommandView<S, R>, answers: Seq<AnswerView>) -> Seq<
    Exchange<S, R>,
> {
    course_from(start, start.request(), answers)
}

/// Where the query stands after a course: at its start, or where the last step
/// left it.
pub open spec fn standing<S, R>(start: CommandView<S, R>, taken: Seq<Exchange<S, R>>) -> NextView<
    S,
    R,
> {
    if taken.len() == 0 {
        NextView::Submit(start)
    } else {
        taken.last().step.next
    }
}

/// The request that a query waits on where it stands, if it is not over.
pub open spec fn awaited<S, R>(at: NextView<S, R>) -> Option<RequestView> {
    match at {
        NextView::Submit(command) => Some(command.request()),
        NextView::Ask(_, request) => Some(request),
        _ => None,
    }
}

/// The most pages that a paged query can still ask for from `offset` on, whatever
/// totals the catalogue reports.
pub open spec fn most_pages(offset: nat) -> nat {
    if offset + PAGE_SIZE >= i32::MAX {
        1
    } else {
        ((i32::MAX - offset + 99) / 100) as nat
    }
}

/// The most steps that a query can still take from `command`, waiting on `request`.
pub open spec fn most_steps<S, R>(command: CommandView<S, R>, request: RequestView) -> nat {
    match command {
        CommandView::Artists { offset, .. } => most_pages(offset),
        CommandView::MissingAlbum { offset, .. } => most_pages(offset),
        CommandView::ExistingAlbum { .. } => if request is ListFolder {
            2 + most_pages(0)
        } else {
            1 + most_pages(0)
        },
    }
}

/// The offset that lies `pages` pages after `offset`.
pub open spec fn pages_on(offset: nat, pages: int) -> nat {
    (offset + pages * PAGE_SIZE) as nat
}

/// The number of pages asked for, from `offset` on, when every page reports the
/// total `count`.
pub open spec fn pages_needed(offset: nat, count: int) -> nat {
    if offset + PAGE_SIZE >= count {
        1
    } else {
        ((count - offset + 99) / 100) as nat
    }
}

/// Whether `answer` is a page for `command` that reports the total `count`.
pub open spec fn page_with_total<S, R>(
    command: CommandView<S, R>,
    answer: AnswerView,
    count: int,
) -> bool {
    match answer {
        AnswerView::Artists(Ok(page)) => command is Artists && page.count == count,
        AnswerView::ReleaseGroups(Ok(page)) => command is MissingAlbum && page.count == count,
        _ => false,
    }
}

/// The end of a paged query that succeeds: the stream is closed, or the one reply
/// is `Ok`.
pub open spec fn success<S, R>(start: CommandView<S, R>) -> NextView<S, R> {
    match start {
        CommandView::Artists { reply_stream, .. } => NextView::Close(reply_stream),
        CommandView::ExistingAlbum { reply, .. } => NextView::Reply(reply, Ok(())),
        CommandView::MissingAlbum { reply, .. } => NextView::Reply(reply, Ok(())),
    }
}

proof fn lemma_unfold<S, R>(
    command: CommandView<S, R>,
    request: RequestView,
    answers: Seq<AnswerView>,
)
    requires
        answers.len() > 0,
        request.answered_by(answers[0]),
    ensures
        ({
            let taken = course_from(command, request, answers);
            let step = command.served(answers[0]);
            let rest = answers.drop_first();
            let tail = match step.next {
                NextView::Submit(next) => course_from(next, next.request(), rest),
                NextView::Ask(next, asked) => course_from(next, asked, rest),
                _ => Seq::empty(),
            };
            &&& taken.len() == 1 + tail.len()
            &&& taken[0] == Exchange { command, request, step }
            &&& forall|i: int| 1 <= i < taken.len() ==> taken[i] == tail[i - 1]
        }),
{
}

/// In every course only the last step can end the query, so the caller gets one
/// reply at most; and every step leaves the caller's channel where the next step,
/// or the caller, finds it.
pub proof fn lemma_one_reply<S, R>(start: CommandView<S, R>, answers: Seq<AnswerView>)
    ensures
        course(start, answers).len() <= answers.len(),
        forall|i: int|
            0 <= i < course(start, answers).len() - 1 ==> !(#[trigger] course(
                start,
                answers,
            )[i]).step.next.is_final(),
        forall|i: int|
            0 <= i < course(start, answers).len() ==> (#[trigger] course(
                start,
                answers,
            )[i]).step.next.channel() == start.channel(),
{
    lemma_one_reply_from(start, start.request(), answers);
}

proof fn lemma_one_reply_from<S, R>(
    command: CommandView<S, R>,
    request: RequestView,
    answers: Seq<AnswerView>,
)
    requires
        waits_on(command, request),
    ensures
        course_from(command, request, answers).len() <= answers.len(),
        forall|i: int|
            0 <= i < course_from(command, request, answers).len() - 1 ==> !(#[trigger] course_from(
                command,
                request,
                answers,
            )[i]).step.next.is_final(),
        forall|i: int|
            0 <= i < course_from(command, request, answers).len() ==> (#[trigger] course_from(
                command,
                request,
                answers,
            )[i]).step.next.channel() == command.channel(),
    decreases answers.len(),
{
    if answers.len() > 0 && request.answered_by(answers[0]) {
        lemma_unfold(command, request, answers);
        let step = command.served(answers[0]);
        let rest = answers.drop_first();
        match step.next {
            NextView::Submit(next) => {
                lemma_one_reply_from(next, next.request(), rest);
            },
            NextView::Ask(next, asked) => {
                lemma_one_reply_from(next, asked, rest);
            },
            _ => {},
        }
    }
}

/// A query ends: no course is longer than [`most_steps`] allows, and a course that
/// leaves answers unused has either ended the query or met an answer of a kind
/// other than the one the query waits on. So the caller's reply comes as soon as
/// enough answers of the right kinds have come.
pub proof fn lemma_reply_comes<S, R>(start: CommandView<S, R>, answers: Seq<AnswerView>)
    ensures
        course(start, answers).len() <= most_steps(start, start.request()),
        course(start, answers).len() < answers.len() ==> {
            let at = standing(start, course(start, answers));
            at.is_final() || !awaited(at).unwrap().answered_by(
                answers[course(start, answers).len() as int],
            )
        },
{
    lemma_reply_comes_from(start, start.request(), answers);
}

proof fn lemma_reply_comes_from<S, R>(
    command: CommandView<S, R>,
    request: RequestView,
    answers: Seq<AnswerView>,
)
    requires
        waits_on(command, request),
    ensures
        course_from(command, request, answers).len() <= most_steps(command, request),
        course_from(command, request, answers).len() < answers.len() ==> {
            let taken = course_from(command, request, answers);
            if taken.len() == 0 {
                !request.answered_by(answers[0])
            } else {
                let at = taken.last().step.next;
                at.is_final() || !awaited(at).unwrap().answered_by(answers[taken.len() as int])
            }
        },
    decreases answers.len(),
{
    if answers.len() > 0 && request.answered_by(answers[0]) {
        lemma_unfold(command, request, answers);
        let taken = course_from(command, request, answers);
        let step = command.served(answers[0]);
        let rest = answers.drop_first();
        match step.next {
            NextView::Submit(next) => {
                lemma_reply_comes_from(next, next.request(), rest);
                let tail = course_from(next, next.request(), rest);
                if tail.len() > 0 {
                    assert(taken.last() == tail.last());
                }
                if taken.len() < answers.len() {
                    assert(rest[tail.len() as int] == answers[taken.len() as int]);
                }
            },
            NextView::Ask(next, asked) => {
                lemma_reply_comes_from(next, asked, rest);
                let tail = course_from(next, asked, rest);
                if tail.len() > 0 {
                    assert(taken.last() == tail.last());
                }
                if taken.len() < answers.len() {
                    assert(rest[tail.len() as int] == answers[taken.len() as int]);
                }
            },
            _ => {},
        }
    }
}

/// Whether no answer, as far as the query gets, is of a kind other than the one
/// asked for: the course uses up the answers or ends the query.
pub open spec fn answers_fit<S, R>(start: CommandView<S, R>, answers: Seq<AnswerView>) -> bool {
    course(start, answers).len() < answers.len() ==> standing(
        start,
        course(start, answers),
    ).is_final()
}

/// The caller gets exactly one reply: given more answers than [`most_steps`], each
/// of the kind asked for, whether pages or failures, the course ends the query, and
/// it does so in its last step and in no other.
pub proof fn lemma_exactly_one_reply<S, R>(start: CommandView<S, R>, answers: Seq<AnswerView>)
    requires
        answers_fit(start, answers),
        answers.len() > most_steps(start, start.request()),
    ensures
        course(start, answers).len() > 0,
        forall|i: int|
            0 <= i < course(start, answers).len() ==> ((#[trigger] course(
                start,
                answers,
            )[i]).step.next.is_final() <==> i == course(start, answers).len() - 1),
        course(start, answers).last().step.next.channel() == start.channel(),
{
    lemma_reply_comes(start, answers);
    lemma_one_reply(start, answers);
}

/// The offsets of a paged query advance by one page with each step, without gaps
/// or repeats: the command served at step `i` is the first one, asking `i` pages
/// further on, and its request is its own.
pub proof fn lemma_offsets_advance<S, R>(start: CommandView<S, R>, answers: Seq<AnswerView>)
    requires
        start.is_paged(),
    ensures
        forall|i: int|
            0 <= i < course(start, answers).len() ==> {
                let exchange = #[trigger] course(start, answers)[i];
                &&& exchange.command == start.at_offset(pages_on(start.offset(), i))
                &&& exchange.request == exchange.command.request()
            },
        start.well_formed() ==> forall|i: int|
            0 <= i < course(start, answers).len() ==> (#[trigger] course(
                start,
                answers,
            )[i]).command.well_formed(),
    decreases answers.len(),
{
    let request = start.request();
    let taken = course(start, answers);
    if answers.len() > 0 && request.answered_by(answers[0]) {
        lemma_unfold(start, request, answers);
        let step = start.served(answers[0]);
        let rest = answers.drop_first();
        assert(start == start.at_offset(pages_on(start.offset(), 0)));
        match step.next {
            NextView::Submit(next) => {
                lemma_offsets_advance(next, rest);
                let tail = course(next, rest);
                assert forall|i: int| 0 <= i < taken.len() implies {
                    let exchange = #[trigger] taken[i];
                    &&& exchange.command == start.at_offset(pages_on(start.offset(), i))
                    &&& exchange.request == exchange.command.request()
                } by {
                    if i > 0 {
                        assert(taken[i] == tail[i - 1]);
                        assert(next.at_offset(pages_on(next.offset(), i - 1))
                            == start.at_offset(pages_on(start.offset(), i)));
                    }
                }
                if start.well_formed() {
                    assert(next.well_formed());
                    assert forall|i: int| 0 <= i < taken.len() implies (#[trigger] taken[i]).command.well_formed() by {
                        if i > 0 {
                            assert(taken[i] == tail[i - 1]);
                        }
                    }
                }
            },
            _ => {},
        }
    }
}

/// When every page reports the same total, a paged query asks for exactly
/// [`pages_needed`] pages and then ends with success. From the first page on that
/// is the total divided by the page size, rounded up, and one page where the total
/// is zero or less.
pub proof fn lemma_pages_for_total<S, R>(
    start: CommandView<S, R>,
    answers: Seq<AnswerView>,
    count: int,
)
    requires
        start.is_paged(),
        answers.len() >= pages_needed(start.offset(), count),
        forall|i: int| 0 <= i < answers.len() ==> page_with_total(start, #[trigger] answers[i], count),
    ensures
        course(start, answers).len() == pages_needed(start.offset(), count),
        course(start, answers).last().step.next == success(start),
        forall|i: int|
            0 <= i < course(start, answers).len() - 1 ==> !(#[trigger] course(
                start,
                answers,
            )[i]).step.next.is_final(),
        pages_needed(0, count) == if count <= 0 {
            1
        } else {
            (count + 99) / 100
        },
    decreases answers.len(),
{
    let request = start.request();
    assert(page_with_total(start, answers[0], count));
    lemma_one_reply(start, answers);
    lemma_unfold(start, request, answers);
    let taken = course(start, answers);
    let step = start.served(answers[0]);
    let rest = answers.drop_first();
    if more_pages(start.offset(), count) {
        let next = start.at_offset(start.offset() + PAGE_SIZE as nat);
        assert(step.next == NextView::Submit(next));
        assert(pages_needed(start.offset(), count) == 1 + pages_needed(next.offset(), count));
        assert forall|i: int| 0 <= i < rest.len() implies page_with_total(
            next,
            #[trigger] rest[i],
            count,
        ) by {
            assert(rest[i] == answers[i + 1]);
            assert(page_with_total(start, answers[i + 1], count));
        }
        lemma_pages_for_total(next, rest, count);
        let tail = course(next, rest);
        assert(taken.last() == tail.last());
    } else {
        assert(step.next == success(start));
        assert(taken.len() == 1);
    }
}

/// What came of replaying a query.
#[derive(Debug)]
pub struct Replay<S, R> {
    /// The requests made, one for each answer used.
    pub requests: Vec<Request>,
    /// What each step delivered.
    pub emitted: Vec<Emit>,
    /// Where the query stands: over, or waiting with the command that is next.
    pub end: Next<S, R>,
}

impl<S, R> Replay<S, R> {
    /// Whether this is the outcome of the course `taken` from `start`.
    pub open spec fn records(self, start: CommandView<S, R>, taken: Seq<Exchange<S, R>>) -> bool {
        &&& self.requests.len() == taken.len()
        &&& self.emitted.len() == taken.len()
        &&& forall|i: int|
            0 <= i < taken.len() ==> (#[trigger] self.requests[i])@ == taken[i].request
        &&& forall|i: int| 0 <= i < taken.len() ==> (#[trigger] self.emitted[i])@ == taken[i].step.emit
        &&& self.end@ == standing(start, taken)
    }
}

/// Takes a query through its course with recorded answers in place of the outside
/// work: serves `start` with the first answer, the command that follows with the
/// second, and so on, as far as the course goes.
pub fn replay<S, R>(start: Command<S, R>, answers: Vec<Answer>) -> (replayed: Replay<S, R>)
    ensures
        replayed.records(start@, course(start@, answers.deep_view())),
{
    let ghost all = answers.deep_view();
    let ghost whole = course(start@, all);
    let mut answers = answers;
    let mut requests: Vec<Request> = Vec::new();
    let mut emitted: Vec<Emit> = Vec::new();
    let mut end: Next<S, R> = Next::Submit(start);
    let mut going = true;
    let ghost mut taken: Seq<Exchange<S, R>> = Seq::empty();
    while going
        invariant
            requests.len() == taken.len(),
            emitted.len() == taken.len(),
            forall|i: int| 0 <= i < taken.len() ==> (#[trigger] requests[i])@ == taken[i].request,
            forall|i: int| 0 <= i < taken.len() ==> (#[trigger] emitted[i])@ == taken[i].step.emit,
            end@ == standing(start@, taken),
            going ==> !end@.is_final() && whole == taken + course_from(
                end@.following(),
                awaited(end@).unwrap(),
                answers.deep_view(),
            ) && waits_on(end@.following(), awaited(end@).unwrap()),
            !going ==> whole == taken,
        decreases answers.len() + if going { 1nat } else { 0nat },
    {
        let ghost left = answers.deep_view();
        let (command, request, asked) = match end {
            Next::Submit(command) => {
                let request = command.request();
                (command, request, false)
            },
            Next::Ask(command, request) => (command, request, true),
            _ => unreached(),
        };
        if answers.len() > 0 && request.answered_by(&answers[0]) {
            proof {
                lemma_unfold(command@, request@, left);
            }
            let answer = answers.remove(0);
            proof {
                assert(answers.deep_view() == left.drop_first());
            }
            let step = command.dispatch(answer);
            proof {
                let exchange = Exchange { command: command@, request: request@, step: step@ };
                let tail = course_from(command@, request@, left).subrange(
                    1,
                    course_from(command@, request@, left).len() as int,
                );
                assert(course_from(command@, request@, left) == seq![exchange] + tail);
                assert(taken + (seq![exchange] + tail) == taken.push(exchange) + tail);
                taken = taken.push(exchange);
            }
            requests.push(request);
            let Step { emit, next } = step;
            emitted.push(emit);
            end = next;
            going = match &end {
                Next::Submit(_) => true,
                Next::Ask(_, _) => true,
                _ => false,
            };
            proof {
                if !going {
                    assert(whole == taken);
                }
            }
        } else {
            proof {
                assert(course_from(command@, request@, left) == Seq::<Exchange<S, R>>::empty());
                assert(whole == taken);
            }
            end = if asked {
                Next::Ask(command, request)
            } else {
                Next::Submit(command)
            };
            going = false;
        }
    }
    Replay { requests, emitted, end }
}

} // verus!
