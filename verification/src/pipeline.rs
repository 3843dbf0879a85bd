//! The pipeline as a whole: what its two queues hold, what each stage may
//! do, and why no target is lost or answered twice.
//!
//! The source pushes targets onto the work queue and closes it when the
//! input is used up. Each worker takes a target from the work queue, probes
//! it, and pushes the response onto the convergence queue; a worker with
//! nothing to take from a closed work queue is done. The sink writes the
//! responses in the order of their arrival and is done when the convergence
//! queue is empty and nobody can push onto it any more: neither a worker nor
//! the coordinator, which holds a sending handle until it releases it.
//!
//! A [`Run`] is the state of all this at one moment, a [`Move`] one step of
//! one stage. The stages run side by side, so the moves of a run come in any
//! order that the queues allow; what is proved here holds of every such
//! order.

use crate::model::{respond, ResponseView, SshInfoView, Target, TargetView};
use crate::source::{row_target, Ingest};
use vstd::multiset::Multiset;
use vstd::prelude::*;

verus! {

/// The state of a run of the pipeline.
pub struct Run {
    /// The targets that the source has still to push, next first.
    pub unread: Seq<TargetView>,
    /// Whether the source still holds the sending side of the work queue.
    pub source_open: bool,
    /// The work queue, oldest first.
    pub work: Seq<TargetView>,
    /// The targets that workers hold and are probing.
    pub probing: Multiset<TargetView>,
    /// The number of workers that are not done; each holds a sending handle
    /// of the convergence queue.
    pub workers: nat,
    /// Whether the coordinator still holds its sending handle of the
    /// convergence queue.
    pub held: bool,
    /// The convergence queue, oldest first.
    pub results: Seq<ResponseView>,
    /// The records written so far, first first.
    pub written: Seq<ResponseView>,
    /// Whether the sink is still running.
    pub sink_open: bool,
}

/// One step of one stage.
pub enum Move {
    /// The source pushes its next target onto the work queue.
    Feed,
    /// The source, its input used up, closes the work queue.
    CloseWork,
    /// A worker that holds no target takes the oldest one from the work
    /// queue.
    Take,
    /// A worker that holds `target` has probed it with `outcome` and pushes
    /// the response onto the convergence queue.
    Finish { target: TargetView, outcome: Result<SshInfoView, Seq<char>> },
    /// A worker that holds no target finds the work queue closed and empty,
    /// and is done.
    Retire,
    /// The coordinator gives up its sending handle of the convergence
    /// queue.
    Release,
    /// The sink takes the oldest response from the convergence queue and
    /// writes it.
    Write,
    /// The sink finds the convergence queue empty and without senders, and
    /// is done.
    CloseSink,
}

/// The targets of a list of responses, in order.
pub open spec fn targets_of(responses: Seq<ResponseView>) -> Seq<TargetView> {
    responses.map_values(|r: ResponseView| r.target)
}

/// The run at its start: all of `input` unread, `pool` workers, empty
/// queues, nothing written.
pub open spec fn start(input: Seq<TargetView>, pool: nat) -> Run {
    Run {
        unread: input,
        source_open: true,
        work: Seq::empty(),
        probing: Multiset::empty(),
        workers: pool,
        held: true,
        results: Seq::empty(),
        written: Seq::empty(),
        sink_open: true,
    }
}

impl Run {
    /// Whether a stage can make the move `m` in this state.
    pub open spec fn allows(self, m: Move) -> bool {
        match m {
            Move::Feed => self.source_open && self.unread.len() > 0,
            Move::CloseWork => self.source_open && self.unread.len() == 0,
            Move::Take => self.work.len() > 0 && self.probing.len() < self.workers,
            Move::Finish { target, outcome } => self.probing.count(target) > 0,
            Move::Retire => !self.source_open && self.work.len() == 0 && self.probing.len()
                < self.workers,
            Move::Release => self.held,
            Move::Write => self.sink_open && self.results.len() > 0,
            Move::CloseSink => self.sink_open && self.results.len() == 0 && self.workers == 0
                && !self.held,
        }
    }

    /// The state after the move `m`.
    pub open spec fn after(self, m: Move) -> Run {
        match m {
            Move::Feed => Run {
                unread: self.unread.drop_first(),
                work: self.work.push(self.unread[0]),
                ..self
            },
            Move::CloseWork => Run { source_open: false, ..self },
            Move::Take => Run {
                work: self.work.drop_first(),
                probing: self.probing.insert(self.work[0]),
                ..self
            },
            Move::Finish { target, outcome } => Run {
                probing: self.probing.remove(target),
                results: self.results.push(respond(target, outcome)),
                ..self
            },
            Move::Retire => Run { workers: (self.workers - 1) as nat, ..self },
            Move::Release => Run { held: false, ..self },
            Move::Write => Run {
                results: self.results.drop_first(),
                written: self.written.push(self.results[0]),
                ..self
            },
            Move::CloseSink => Run { sink_open: false, ..self },
        }
    }

    /// The state after the moves `moves`, one after the other; none where a
    /// move is not allowed when its turn comes.
    pub open spec fn follow(self, moves: Seq<Move>) -> Option<Run>
        decreases moves.len(),
    {
        if moves.len() == 0 {
            Some(self)
        } else {
            match self.follow(moves.drop_last()) {
                Some(before) => if before.allows(moves.last()) {
                    Some(before.after(moves.last()))
                } else {
                    None
                },
                None => None,
            }
        }
    }

    /// Every target that the run knows of, wherever it is: unread, queued,
    /// being probed, answered and queued, or written.
    pub open spec fn accounted(self) -> Multiset<TargetView> {
        self.unread.to_multiset().add(self.work.to_multiset()).add(self.probing).add(
            targets_of(self.results).to_multiset(),
        ).add(targets_of(self.written).to_multiset())
    }

    /// What holds of every state of a run over `input` with `pool`
    /// workers.
    pub open spec fn sound(self, input: Seq<TargetView>, pool: nat) -> bool {
        &&& self.accounted() == input.to_multiset()
        &&& self.probing.len() <= self.workers <= pool
        &&& !self.source_open ==> self.unread.len() == 0
        &&& self.workers < pool ==> !self.source_open && self.work.len() == 0
        &&& !self.sink_open ==> self.results.len() == 0 && self.workers == 0 && !self.held
        &&& forall|i: int| 0 <= i < self.results.len() ==> (#[trigger] self.results[i]).wf()
        &&& forall|i: int| 0 <= i < self.written.len() ==> (#[trigger] self.written[i]).wf()
    }

    /// The number of moves that the run has still to make.
    pub open spec fn remaining(self) -> nat {
        4 * self.unread.len() + 3 * self.work.len() + 2 * self.probing.len() + self.results.len()
            + self.workers + (if self.source_open {
            1nat
        } else {
            0nat
        }) + (if self.held {
            1nat
        } else {
            0nat
        }) + (if self.sink_open {
            1nat
        } else {
            0nat
        })
    }
}

/// A queue holds what it held before its oldest item left, and that item.
proof fn lemma_pop<A>(queue: Seq<A>)
    requires
        queue.len() > 0,
    ensures
        queue.to_multiset() == queue.drop_first().to_multiset().insert(queue[0]),
{
    broadcast use vstd::seq_lib::group_to_multiset_ensures;

    assert(queue.remove(0) == queue.drop_first());
}

/// A queue holds what it held before an item arrived, and that item.
proof fn lemma_push<A>(queue: Seq<A>, item: A)
    ensures
        queue.push(item).to_multiset() == queue.to_multiset().insert(item),
{
    broadcast use vstd::seq_lib::group_to_multiset_ensures;

}

/// The state at the start of a run is sound.
pub proof fn lemma_start_is_sound(input: Seq<TargetView>, pool: nat)
    ensures
        start(input, pool).sound(input, pool),
{
    broadcast use vstd::seq_lib::group_to_multiset_ensures;

    let s = start(input, pool);
    assert(s.accounted() == input.to_multiset());
}

/// A move that is allowed in a sound state leads to a sound state.
pub proof fn lemma_move_keeps_sound(input: Seq<TargetView>, pool: nat, s: Run, m: Move)
    requires
        s.sound(input, pool),
        s.allows(m),
    ensures
        s.after(m).sound(input, pool),
{
    let t = s.after(m);
    match m {
        Move::Feed => {
            lemma_pop(s.unread);
            lemma_push(s.work, s.unread[0]);
            assert(t.accounted() == s.accounted());
        },
        Move::CloseWork => {},
        Move::Take => {
            lemma_pop(s.work);
            assert(t.accounted() == s.accounted());
        },
        Move::Finish { target, outcome } => {
            assert(targets_of(t.results) == targets_of(s.results).push(target));
            lemma_push(targets_of(s.results), target);
            assert(t.accounted() == s.accounted());
        },
        Move::Retire => {},
        Move::Release => {},
        Move::Write => {
            assert(targets_of(t.results) == targets_of(s.results).drop_first());
            assert(targets_of(t.written) == targets_of(s.written).push(s.results[0].target));
            lemma_pop(targets_of(s.results));
            lemma_push(targets_of(s.written), s.results[0].target);
            assert(t.accounted() == s.accounted());
        },
        Move::CloseSink => {},
    }
}

/// Every state that a run reaches is sound.
pub proof fn lemma_run_is_sound(input: Seq<TargetView>, pool: nat, moves: Seq<Move>)
    requires
        start(input, pool).follow(moves) is Some,
    ensures
        start(input, pool).follow(moves)->0.sound(input, pool),
    decreases moves.len(),
{
    if moves.len() == 0 {
        lemma_start_is_sound(input, pool);
    } else {
        lemma_run_is_sound(input, pool, moves.drop_last());
        let before = start(input, pool).follow(moves.drop_last())->0;
        lemma_move_keeps_sound(input, pool, before, moves.last());
    }
}

/// A run whose sink is done has written exactly one record for each target
/// of the input: as many records as targets, the same targets as often as
/// the input holds them, each record with an error or with metadata and
/// never both. Whether the probes failed or not plays no part.
pub proof fn lemma_finished_run_is_lossless(input: Seq<TargetView>, pool: nat, moves: Seq<Move>)
    requires
        pool >= 1,
        start(input, pool).follow(moves) matches Some(end) && !end.sink_open,
    ensures
        start(input, pool).follow(moves) matches Some(end) && {
            &&& end.written.len() == input.len()
            &&& targets_of(end.written).to_multiset() == input.to_multiset()
            &&& forall|i: int| 0 <= i < end.written.len() ==> (#[trigger] end.written[i]).wf()
        },
{
    broadcast use vstd::seq_lib::group_to_multiset_ensures;

    lemma_run_is_sound(input, pool, moves);
    assert(input.to_multiset().len() == input.len());
}

/// At no moment of a run has the sink written more than the input holds:
/// the targets of the records written are among the targets of the input,
/// none more often than it stands there.
pub proof fn lemma_nothing_is_answered_twice(input: Seq<TargetView>, pool: nat, moves: Seq<Move>)
    requires
        start(input, pool).follow(moves) is Some,
    ensures
        targets_of(start(input, pool).follow(moves)->0.written).to_multiset().subset_of(
            input.to_multiset(),
        ),
        start(input, pool).follow(moves)->0.written.len() <= input.len(),
{
    broadcast use vstd::seq_lib::group_to_multiset_ensures;

    lemma_run_is_sound(input, pool, moves);
    let now = start(input, pool).follow(moves)->0;
    let w = targets_of(now.written).to_multiset();
    assert(w.len() <= now.accounted().len());
}

/// The sink outlasts every sender: as long as the coordinator holds its
/// handle or a worker is not done, the sink is running. A coordinator that
/// never released its handle would keep the sink waiting for ever; a sink
/// that is done has missed nothing.
pub proof fn lemma_sink_outlasts_senders(input: Seq<TargetView>, pool: nat, moves: Seq<Move>)
    requires
        start(input, pool).follow(moves) is Some,
    ensures
        start(input, pool).follow(moves) matches Some(now) && (now.held || now.workers > 0
            || now.results.len() > 0 ==> now.sink_open),
{
    lemma_run_is_sound(input, pool, moves);
}

/// While the sink is running, some stage can move: the pipeline does not
/// come to a halt before the sink is done.
pub proof fn lemma_some_stage_can_move(input: Seq<TargetView>, pool: nat, s: Run)
    requires
        pool >= 1,
        s.sound(input, pool),
        s.sink_open,
    ensures
        exists|m: Move| s.allows(m),
{
    if s.held {
        assert(s.allows(Move::Release));
    } else if s.results.len() > 0 {
        assert(s.allows(Move::Write));
    } else if s.workers == 0 {
        assert(s.allows(Move::CloseSink));
    } else if s.probing.len() > 0 {
        let target = s.probing.choose();
        let outcome: Result<SshInfoView, Seq<char>> = Err(Seq::empty());
        assert(s.allows(Move::Finish { target, outcome }));
    } else if s.work.len() > 0 {
        assert(s.allows(Move::Take));
    } else if s.source_open {
        if s.unread.len() > 0 {
            assert(s.allows(Move::Feed));
        } else {
            assert(s.allows(Move::CloseWork));
        }
    } else {
        assert(s.allows(Move::Retire));
    }
}

/// Every move brings the run one step nearer to its end.
pub proof fn lemma_move_uses_up_one(s: Run, m: Move)
    requires
        s.allows(m),
    ensures
        s.after(m).remaining() + 1 == s.remaining(),
{
}

/// A run over `n` targets with `pool` workers makes at most `4 * n + pool
/// + 3` moves: it cannot go on for ever.
pub proof fn lemma_run_is_bounded(input: Seq<TargetView>, pool: nat, moves: Seq<Move>)
    requires
        start(input, pool).follow(moves) is Some,
    ensures
        moves.len() + start(input, pool).follow(moves)->0.remaining() == 4 * input.len() + pool
            + 3,
    decreases moves.len(),
{
    if moves.len() > 0 {
        lemma_run_is_bounded(input, pool, moves.drop_last());
        let before = start(input, pool).follow(moves.drop_last())->0;
        lemma_move_uses_up_one(before, moves.last());
    }
}

/// One more move after a run is a run.
proof fn lemma_follow_one_more(s: Run, moves: Seq<Move>, m: Move)
    requires
        s.follow(moves) matches Some(now) && now.allows(m),
    ensures
        s.follow(moves.push(m)) == Some(s.follow(moves)->0.after(m)),
{
    assert(moves.push(m).drop_last() == moves);
}

/// Every run can be brought to its end: from whatever state a run has
/// reached, there are moves that lead on to a state in which the sink is
/// done. With the workers of at least one, no order of moves leads into a
/// corner.
pub proof fn lemma_run_can_finish(input: Seq<TargetView>, pool: nat, moves: Seq<Move>) -> (more:
    Seq<Move>)
    requires
        pool >= 1,
        start(input, pool).follow(moves) is Some,
    ensures
        start(input, pool).follow(moves + more) matches Some(end) && !end.sink_open,
    decreases start(input, pool).follow(moves)->0.remaining(),
{
    let now = start(input, pool).follow(moves)->0;
    lemma_run_is_sound(input, pool, moves);
    if !now.sink_open {
        assert(moves + Seq::<Move>::empty() == moves);
        Seq::empty()
    } else {
        lemma_some_stage_can_move(input, pool, now);
        let m = choose|m: Move| now.allows(m);
        lemma_move_uses_up_one(now, m);
        lemma_follow_one_more(start(input, pool), moves, m);
        let rest = lemma_run_can_finish(input, pool, moves.push(m));
        assert(moves + (seq![m] + rest) == moves.push(m) + rest);
        seq![m] + rest
    }
}

/// The responses that workers have pushed onto the convergence queue in
/// the course of `moves`, in the order of their arrival.
pub open spec fn arrivals(moves: Seq<Move>) -> Seq<ResponseView>
    decreases moves.len(),
{
    if moves.len() == 0 {
        Seq::empty()
    } else {
        match moves.last() {
            Move::Finish { target, outcome } => arrivals(moves.drop_last()).push(
                respond(target, outcome),
            ),
            _ => arrivals(moves.drop_last()),
        }
    }
}

/// The sink writes in the order of arrival: at every moment of a run, what
/// was written and what waits in the convergence queue are together the
/// responses that arrived, in their order. When the sink is done it has
/// written every response that arrived, in that order.
pub proof fn lemma_written_in_order_of_arrival(input: Seq<TargetView>, pool: nat, moves: Seq<Move>)
    requires
        start(input, pool).follow(moves) is Some,
    ensures
        start(input, pool).follow(moves) matches Some(now) && {
            &&& now.written + now.results == arrivals(moves)
            &&& !now.sink_open ==> now.written == arrivals(moves)
        },
    decreases moves.len(),
{
    if moves.len() > 0 {
        lemma_written_in_order_of_arrival(input, pool, moves.drop_last());
    }
    lemma_run_is_sound(input, pool, moves);
}

/// The work queue keeps the order of the input: at every moment of a run
/// the targets unread are the end of the input, and the targets in the work
/// queue are the stretch of the input just before them. So workers take
/// targets in the order in which the input holds them.
pub proof fn lemma_work_in_order_of_input(input: Seq<TargetView>, pool: nat, moves: Seq<Move>)
    requires
        start(input, pool).follow(moves) is Some,
    ensures
        start(input, pool).follow(moves) matches Some(now) && {
            let fed = input.len() - now.unread.len();
            let taken = fed - now.work.len();
            &&& 0 <= taken <= fed <= input.len()
            &&& now.unread == input.subrange(fed, input.len() as int)
            &&& now.work == input.subrange(taken, fed)
        },
    decreases moves.len(),
{
    if moves.len() > 0 {
        lemma_work_in_order_of_input(input, pool, moves.drop_last());
    }
}

/// The content of a list of targets.
pub open spec fn targets_view(targets: Seq<Target>) -> Seq<TargetView> {
    targets.map_values(|t: Target| t@)
}

/// From input to output. Where every row of the input writes a target, the
/// source reports no fault and hands on one target per row, and a run over
/// these targets whose sink is done has written exactly one record per row,
/// each with an error or with metadata, whatever the probes came to.
pub proof fn lemma_one_record_per_row(
    rows: Seq<Result<Seq<Seq<char>>, Seq<char>>>,
    ingest: Ingest,
    pool: nat,
    moves: Seq<Move>,
)
    requires
        forall|i: int| 0 <= i < rows.len() ==> row_target(#[trigger] rows[i]) is Ok,
        ingest.is_reading_of(rows),
        pool >= 1,
        start(targets_view(ingest.targets@), pool).follow(moves) matches Some(end)
            && !end.sink_open,
    ensures
        ingest.failure is None,
        ingest.targets@.len() == rows.len(),
        start(targets_view(ingest.targets@), pool).follow(moves) matches Some(end) && {
            &&& end.written.len() == rows.len()
            &&& targets_of(end.written).to_multiset() == targets_view(
                ingest.targets@,
            ).to_multiset()
            &&& forall|i: int| 0 <= i < end.written.len() ==> (#[trigger] end.written[i]).wf()
        },
{
    lemma_finished_run_is_lossless(targets_view(ingest.targets@), pool, moves);
}

/// A faulty row ends the reading. Where the source reports a fault, the
/// fault is that of the first row that writes no target, the source has
/// handed on the targets of the rows before it and no other, and at no
/// moment of a run over them are there more records than rows before the
/// faulty one: no row behind it is ever answered, be it well formed or not.
pub proof fn lemma_nothing_follows_a_fault(
    rows: Seq<Result<Seq<Seq<char>>, Seq<char>>>,
    ingest: Ingest,
    pool: nat,
    moves: Seq<Move>,
)
    requires
        ingest.is_reading_of(rows),
        ingest.failure is Some,
        start(targets_view(ingest.targets@), pool).follow(moves) is Some,
    ensures
        ingest.failure->0.record < rows.len(),
        row_target(rows[ingest.failure->0.record as int]) is Err,
        forall|i: int| 0 <= i < ingest.failure->0.record ==> row_target(#[trigger] rows[i]) is Ok,
        ingest.targets@.len() == ingest.failure->0.record,
        start(targets_view(ingest.targets@), pool).follow(moves)->0.written.len()
            <= ingest.failure->0.record,
        targets_of(
            start(targets_view(ingest.targets@), pool).follow(moves)->0.written,
        ).to_multiset().subset_of(targets_view(ingest.targets@).to_multiset()),
{
    lemma_nothing_is_answered_twice(targets_view(ingest.targets@), pool, moves);
}

} // verus!
