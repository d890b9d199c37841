//! Queries served side by side.
//!
//! Many queries are under way at once, and their answers come in any order. Each
//! answer is handed to the command that asked for it, so what becomes of a query
//! depends on its own answers alone: a failure ends the query it belongs to and
//! touches no other. This module states that and proves it.

use vstd::prelude::*;

use crate::command::AnswerView;
use crate::command::CommandView;
use crate::command::EmitView;
use crate::command::NextView;
use crate::pagination::answers_fit;
use crate::pagination::awaited;
use crate::pagination::course;
use crate::pagination::course_from;
use crate::pagination::standing;
use crate::pagination::Exchange;

verus! {

/// How far one query has got: where it stands, and what it has delivered so far.
pub struct Progress<S, R> {
    pub at: NextView<S, R>,
    pub emitted: Seq<EmitView>,
}

/// An answer that has come in, and the query whose request it answers.
pub struct Turn {
    pub query: int,
    pub answer: AnswerView,
}

/// A query that has not begun: its first command waits to be served.
pub open spec fn begun<S, R>(start: CommandView<S, R>) -> Progress<S, R> {
    Progress { at: NextView::Submit(start), emitted: Seq::empty() }
}

/// The query after `answer`. An answer of a kind that the query does not wait on,
/// or one for a query that is over, changes nothing.
pub open spec fn advanced<S, R>(query: Progress<S, R>, answer: AnswerView) -> Progress<S, R> {
    if !query.at.is_final() && awaited(query.at).unwrap().answered_by(answer) {
        let step = query.at.following().served(answer);
        Progress { at: step.next, emitted: query.emitted.push(step.emit) }
    } else {
        query
    }
}

/// The query after `answers`, taken in turn.
pub open spec fn alone<S, R>(query: Progress<S, R>, answers: Seq<AnswerView>) -> Progress<S, R>
    decreases answers.len(),
{
    if answers.len() == 0 {
        query
    } else {
        alone(advanced(query, answers[0]), answers.drop_first())
    }
}

/// The queries after `turns`: each turn advances the query it names and no other.
pub open spec fn side_by_side<S, R>(queries: Seq<Progress<S, R>>, turns: Seq<Turn>) -> Seq<
    Progress<S, R>,
>
    decreases turns.len(),
{
    if turns.len() == 0 {
        queries
    } else {
        let turn = turns[0];
        let moved = if 0 <= turn.query < queries.len() {
            queries.update(turn.query, advanced(queries[turn.query], turn.answer))
        } else {
            queries
        };
        side_by_side(moved, turns.drop_first())
    }
}

/// The answers among `turns` that belong to `query`, in the order they came.
pub open spec fn answers_of(turns: Seq<Turn>, query: int) -> Seq<AnswerView>
    decreases turns.len(),
{
    if turns.len() == 0 {
        Seq::empty()
    } else if turns[0].query == query {
        seq![turns[0].answer] + answers_of(turns.drop_first(), query)
    } else {
        answers_of(turns.drop_first(), query)
    }
}

/// Queries do not meet: however the answers of many queries are interleaved, and
/// whatever they are, each query gets as far as, and delivers what, its own answers
/// alone would have it. So the failure of one query leaves every other as it would
/// be without it.
pub proof fn lemma_queries_do_not_meet<S, R>(
    queries: Seq<Progress<S, R>>,
    turns: Seq<Turn>,
    query: int,
)
    requires
        0 <= query < queries.len(),
    ensures
        side_by_side(queries, turns).len() == queries.len(),
        side_by_side(queries, turns)[query] == alone(queries[query], answers_of(turns, query)),
    decreases turns.len(),
{
    if turns.len() > 0 {
        let turn = turns[0];
        let moved = if 0 <= turn.query < queries.len() {
            queries.update(turn.query, advanced(queries[turn.query], turn.answer))
        } else {
            queries
        };
        lemma_queries_do_not_meet(moved, turns.drop_first(), query);
        if turn.query == query {
            let mine = answers_of(turns, query);
            assert(mine[0] == turn.answer);
            assert(mine.drop_first() == answers_of(turns.drop_first(), query));
        }
    }
}

/// A query served alone goes through its course: with answers of the kinds asked
/// for, it stands where its course leaves it, and has delivered what the steps of
/// the course deliver, in their order.
pub proof fn lemma_alone_is_the_course<S, R>(start: CommandView<S, R>, answers: Seq<AnswerView>)
    requires
        answers_fit(start, answers),
    ensures
        alone(begun(start), answers).at == standing(start, course(start, answers)),
        alone(begun(start), answers).emitted == course(start, answers).map_values(
            |exchange: Exchange<S, R>| exchange.step.emit,
        ),
{
    let emit_of = |exchange: Exchange<S, R>| exchange.step.emit;
    lemma_alone_from(begun(start), answers);
    assert(Seq::<EmitView>::empty() + course(start, answers).map_values(emit_of) == course(
        start,
        answers,
    ).map_values(emit_of));
}

proof fn lemma_alone_from<S, R>(query: Progress<S, R>, answers: Seq<AnswerView>)
    requires
        !query.at.is_final(),
        ({
            let taken = course_from(query.at.following(), awaited(query.at).unwrap(), answers);
            taken.len() < answers.len() ==> taken.len() > 0 && taken.last().step.next.is_final()
        }),
    ensures
        ({
            let taken = course_from(query.at.following(), awaited(query.at).unwrap(), answers);
            let after = alone(query, answers);
            &&& after.at == if taken.len() == 0 {
                query.at
            } else {
                taken.last().step.next
            }
            &&& after.emitted == query.emitted + taken.map_values(
                |exchange: Exchange<S, R>| exchange.step.emit,
            )
        }),
    decreases answers.len(),
{
    let emit_of = |exchange: Exchange<S, R>| exchange.step.emit;
    let command = query.at.following();
    let request = awaited(query.at).unwrap();
    let taken = course_from(command, request, answers);
    if answers.len() == 0 {
        assert(query.emitted + taken.map_values(emit_of) == query.emitted);
    } else {
        assert(request.answered_by(answers[0]));
        let step = command.served(answers[0]);
        let rest = answers.drop_first();
        let next = advanced(query, answers[0]);
        let first = Exchange { command, request, step };
        if step.next.is_final() {
            assert(taken == seq![first]);
            lemma_alone_when_over(next, rest);
            assert(query.emitted + taken.map_values(emit_of) == query.emitted.push(step.emit));
        } else {
            let tail = course_from(next.at.following(), awaited(next.at).unwrap(), rest);
            assert(taken == seq![first] + tail);
            lemma_alone_from(next, rest);
            if tail.len() > 0 {
                assert(taken.last() == tail.last());
            }
            assert(query.emitted + taken.map_values(emit_of) == query.emitted.push(step.emit)
                + tail.map_values(emit_of));
        }
    }
}

proof fn lemma_alone_when_over<S, R>(query: Progress<S, R>, answers: Seq<AnswerView>)
    requires
        query.at.is_final(),
    ensures
        alone(query, answers) == query,
    decreases answers.len(),
{
    if answers.len() > 0 {
        lemma_alone_when_over(query, answers.drop_first());
    }
}

} // verus!
