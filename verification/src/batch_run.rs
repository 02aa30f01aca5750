//! Running one batch of calls through Multicall3, with a fallback.
//!
//! A batch whose request fails is halved, down to single calls; a single call
//! that still fails is made as a direct `eth_call`, so that its row has no output
//! rather than being dropped.
//!
//! Where every call has to succeed, a reverting call fails its whole batch: each
//! call of the batch has a row, and no row has an output.

use vstd::prelude::*;

use crate::bytes::{low_bits, option_view, views};
use crate::error::{
    collected, lemma_collected_next, lemma_collected_values, result_view, R,
};
use crate::eth_calls::{
    answered_row, outcome_row, outcome_rows, single_call, single_eth_call, EthCallRow, RowModel,
};
use crate::rpc_params::Params;

verus! {

/// A batch that is being run.
#[derive(Debug)]
pub struct BatchRun {
    /// batches to be made, the next one last
    pub pending: Vec<Vec<Params>>,
    /// whether the next batch is a single call that is made directly
    pub direct: bool,
    /// rows of the calls that are answered
    pub rows: Vec<EthCallRow>,
    /// whether a reverting call fails the whole batch
    pub require_success: bool,
}

/// The model of a run.
#[verifier::ext_equal]
pub struct RunModel {
    pub pending: Seq<Seq<Params>>,
    pub direct: bool,
    pub rows: Seq<RowModel>,
    pub require_success: bool,
}

impl View for BatchRun {
    type V = RunModel;

    open spec fn view(&self) -> RunModel {
        RunModel {
            pending: views(self.pending@),
            direct: self.direct,
            rows: views(self.rows@),
            require_success: self.require_success,
        }
    }
}

/// What a run needs next.
#[derive(Debug)]
pub enum BatchStep<'a> {
    /// make these calls in one aggregate request
    Aggregate(&'a Vec<Params>),
    /// make this call directly
    Direct(&'a Params),
    /// nothing: every call has its row
    Done,
}

/// What became of a step.
#[derive(Debug)]
pub enum BatchReply {
    /// the aggregate request gave these rows
    Rows(Vec<EthCallRow>),
    /// the aggregate request reverted
    Reverted,
    /// the aggregate request could not be made, or its reply not be read
    Failed,
    /// the direct call gave this row
    Row(EthCallRow),
}

/// The model of what became of a step.
pub enum ReplyModel {
    Rows(Seq<RowModel>),
    Reverted,
    Failed,
    Row(RowModel),
}

impl View for BatchReply {
    type V = ReplyModel;

    open spec fn view(&self) -> ReplyModel {
        match self {
            BatchReply::Rows(rows) => ReplyModel::Rows(views(rows@)),
            BatchReply::Reverted => ReplyModel::Reverted,
            BatchReply::Failed => ReplyModel::Failed,
            BatchReply::Row(row) => ReplyModel::Row(row@),
        }
    }
}

/// The run of a whole batch, before anything is answered.
pub open spec fn fresh_run(batch: Seq<Params>, require_success: bool) -> RunModel {
    RunModel { pending: seq![batch], direct: false, rows: Seq::empty(), require_success }
}

/// Whether no pending batch is empty, and only a single call is made directly.
pub open spec fn run_wf(run: RunModel) -> bool {
    &&& forall|i: int| 0 <= i < run.pending.len() ==> (#[trigger] run.pending[i]).len() > 0
    &&& run.direct ==> run.pending.len() > 0 && run.pending.last().len() == 1
}

/// Whether the reply is one to the step that the run needs next.
pub open spec fn replies_to(reply: ReplyModel, run: RunModel) -> bool {
    &&& run.pending.len() > 0
    &&& run.direct <==> reply is Row
}

/// Whether every row has an output.
pub open spec fn all_succeeded(rows: Seq<RowModel>) -> bool {
    forall|i: int| 0 <= i < rows.len() ==> (#[trigger] rows[i]).output_data is Some
}

/// Whether no row has an output.
pub open spec fn all_failed(rows: Seq<RowModel>) -> bool {
    forall|i: int| 0 <= i < rows.len() ==> (#[trigger] rows[i]).output_data is None
}

/// Whether the reply shows that a call reverted.
pub open spec fn shows_revert(reply: ReplyModel) -> bool {
    match reply {
        ReplyModel::Rows(rows) => !all_succeeded(rows),
        ReplyModel::Reverted => true,
        ReplyModel::Failed => false,
        ReplyModel::Row(row) => row.output_data is None,
    }
}

/// The row without its output.
pub open spec fn without_output(row: RowModel) -> RowModel {
    RowModel { output_data: None, ..row }
}

/// The row of a call that failed, or what is wrong with the call.
pub open spec fn failed_row(call: Params) -> Result<RowModel, Seq<char>> {
    match single_call(call) {
        Ok(request) => Ok(answered_row(request, None)),
        Err(message) => Err(message),
    }
}

/// The rows of calls that failed, or the first thing wrong with the calls.
pub open spec fn failed_rows(calls: Seq<Params>) -> Result<Seq<RowModel>, Seq<char>> {
    collected(calls.map_values(|call: Params| failed_row(call)))
}

/// The calls that wait for an answer, in the order in which they are made.
pub open spec fn waiting(pending: Seq<Seq<Params>>) -> Seq<Params>
    decreases pending.len(),
{
    if pending.len() == 0 {
        Seq::empty()
    } else {
        pending.last() + waiting(pending.drop_last())
    }
}

/// The run with its whole batch failed: the answered calls lose their outputs,
/// and the waiting ones are not made.
pub open spec fn failed_run(run: RunModel) -> Result<RunModel, Seq<char>> {
    match failed_rows(waiting(run.pending)) {
        Err(message) => Err(message),
        Ok(rest) => Ok(
            RunModel {
                pending: Seq::empty(),
                direct: false,
                rows: run.rows.map_values(|row: RowModel| without_output(row)) + rest,
                ..run
            },
        ),
    }
}

/// The run after a reply that does not fail the whole batch: answered calls leave
/// with their rows, a failed batch is halved with its first half next, and a
/// single failed call is made directly.
pub open spec fn advanced(run: RunModel, reply: ReplyModel) -> RunModel {
    let next = run.pending.last();
    let later = run.pending.drop_last();
    match reply {
        ReplyModel::Rows(rows) => RunModel {
            pending: later,
            direct: false,
            rows: run.rows + rows,
            ..run
        },
        ReplyModel::Row(row) => RunModel {
            pending: later,
            direct: false,
            rows: run.rows.push(row),
            ..run
        },
        ReplyModel::Reverted | ReplyModel::Failed => if next.len() > 1 {
            let mid = next.len() as int / 2;
            RunModel { pending: later.push(next.skip(mid)).push(next.take(mid)), ..run }
        } else {
            RunModel { direct: true, ..run }
        },
    }
}

/// The run after a reply. Where every call has to succeed, a revert fails the
/// whole batch.
pub open spec fn resumed(run: RunModel, reply: ReplyModel) -> Result<RunModel, Seq<char>> {
    if run.require_success && shows_revert(reply) {
        failed_run(run)
    } else {
        Ok(advanced(run, reply))
    }
}

fn has_all_outputs(rows: &Vec<EthCallRow>) -> (all: bool)
    ensures
        all == all_succeeded(views(rows@)),
{
    let mut i: usize = 0;
    while i < rows.len()
        invariant
            i <= rows@.len(),
            forall|j: int| 0 <= j < i ==> (#[trigger] rows@[j]).output_data is Some,
        decreases rows@.len() - i,
    {
        if rows[i].output_data.is_none() {
            assert(views(rows@)[i as int].output_data is None);
            return false;
        }
        i += 1;
    }
    true
}

/// Adds the rows of calls that failed.
fn push_failed_rows(rows: &mut Vec<EthCallRow>, calls: &Vec<Params>) -> (done: R<()>)
    ensures
        match failed_rows(calls@) {
            Ok(more) => done is Ok && views(final(rows)@) == views(old(rows)@) + more,
            Err(message) => done matches Err(error) && error@ == message,
        },
{
    let ghost start = views(rows@);
    let ghost results = calls@.map_values(|call: Params| failed_row(call));
    let ghost mut more: Seq<RowModel> = Seq::empty();
    let mut i: usize = 0;
    assert(views(rows@) =~= start + more);
    while i < calls.len()
        invariant
            i <= calls@.len(),
            results == calls@.map_values(|call: Params| failed_row(call)),
            collected(results.take(i as int)) == Ok::<Seq<RowModel>, Seq<char>>(more),
            views(rows@) == start + more,
        decreases calls@.len() - i,
    {
        proof {
            lemma_collected_next(results, i as int);
        }
        let row = single_eth_call(&calls[i])?.answered(None);
        let ghost before = rows@;
        rows.push(row);
        proof {
            assert(views(rows@) =~= views(before).push(row@));
            assert(start + more.push(row@) =~= (start + more).push(row@));
            more = more.push(row@);
        }
        i += 1;
    }
    assert(results.take(results.len() as int) =~= results);
    Ok(())
}

impl BatchRun {
    /// A run of a whole batch.
    pub fn start(batch: Vec<Params>, require_success: bool) -> (run: BatchRun)
        requires
            batch@.len() > 0,
        ensures
            run@ == fresh_run(batch@, require_success),
            run@.pending == seq![batch@],
            run@.rows.len() == 0,
            run.require_success == require_success,
            !run.direct,
            run_wf(run@),
            stands_for(run@, batch@),
            outputs_agree(run@),
    {
        let mut pending: Vec<Vec<Params>> = Vec::new();
        pending.push(batch);
        let run = BatchRun { pending, direct: false, rows: Vec::new(), require_success };
        assert(run@ =~= fresh_run(batch@, require_success));
        proof {
            lemma_start_stands_for(batch@, require_success);
        }
        run
    }

    /// What the run needs next.
    pub fn step(&self) -> (step: BatchStep<'_>)
        requires
            run_wf(self@),
        ensures
            match step {
                BatchStep::Aggregate(batch) => self@.pending.len() > 0 && !self@.direct && batch@
                    == self@.pending.last(),
                BatchStep::Direct(call) => self@.pending.len() > 0 && self@.direct && *call
                    == self@.pending.last()[0],
                BatchStep::Done => self@.pending.len() == 0,
            },
    {
        let n = self.pending.len();
        if n == 0 {
            return BatchStep::Done;
        }
        let next = &self.pending[n - 1];
        assert(self@.pending.last() == next@);
        if self.direct {
            BatchStep::Direct(&next[0])
        } else {
            BatchStep::Aggregate(next)
        }
    }

    /// The run after a reply.
    ///
    /// Errors if the whole batch fails, and a call without an answer is malformed.
    pub fn resume(self, reply: BatchReply) -> (run: R<BatchRun>)
        requires
            run_wf(self@),
            replies_to(reply@, self@),
        ensures
            result_view(run) == resumed(self@, reply@),
            run matches Ok(run) ==> run_wf(run@),
    {
        if self.require_success {
            let reverted: bool = match &reply {
                BatchReply::Rows(rows) => !has_all_outputs(rows),
                BatchReply::Reverted => true,
                BatchReply::Failed => false,
                BatchReply::Row(row) => row.output_data.is_none(),
            };
            if reverted {
                return self.fail();
            }
        }
        Ok(self.advance(reply))
    }

    fn fail(self) -> (run: R<BatchRun>)
        requires
            run_wf(self@),
        ensures
            result_view(run) == failed_run(self@),
            run matches Ok(run) ==> run_wf(run@),
    {
        let ghost start = self@;
        let mut rows: Vec<EthCallRow> = Vec::new();
        let answered = self.rows;
        let ghost all = answered@;
        for row in it: answered
            invariant
                it.seq() == all,
                views(rows@) == views(all).take(it.index()).map_values(
                    |row: RowModel| without_output(row),
                ),
        {
            let ghost before = rows@;
            let failed = EthCallRow {
                block_number: row.block_number,
                contract_address: row.contract_address,
                call_data: row.call_data,
                output_data: None,
            };
            rows.push(failed);
            assert(views(rows@) =~= views(before).push(failed@));
            assert(views(all).take(it.index() + 1) =~= views(all).take(it.index()).push(row@));
            assert(views(rows@) =~= views(all).take(it.index() + 1).map_values(
                |row: RowModel| without_output(row),
            ));
        }
        assert(views(all).take(all.len() as int) =~= views(all));
        let ghost cleared = views(rows@);
        let ghost mut made: Seq<RowModel> = Seq::empty();
        let mut pending = self.pending;
        assert(cleared =~= cleared + made);
        while pending.len() > 0
            invariant
                start == self@,
                views(rows@) == cleared + made,
                match failed_rows(waiting(views(pending@))) {
                    Ok(rest) => failed_rows(waiting(start.pending)) == Ok::<
                        Seq<RowModel>,
                        Seq<char>,
                    >(made + rest),
                    Err(message) => failed_rows(waiting(start.pending)) == Err::<
                        Seq<RowModel>,
                        Seq<char>,
                    >(message),
                },
            decreases pending@.len(),
        {
            let ghost before = views(pending@);
            if let Some(calls) = pending.pop() {
                proof {
                    assert(views(pending@) =~= before.drop_last());
                    lemma_failed_rows_add(calls@, waiting(views(pending@)));
                }
                push_failed_rows(&mut rows, &calls)?;
                proof {
                    let more = failed_rows(calls@)->Ok_0;
                    assert(cleared + made + more =~= cleared + (made + more));
                    if failed_rows(waiting(views(pending@))) is Ok {
                        let rest = failed_rows(waiting(views(pending@)))->Ok_0;
                        assert(made + (more + rest) =~= made + more + rest);
                    }
                    made = made + more;
                }
            }
        }
        assert(views(pending@) =~= Seq::empty());
        assert(failed_rows(Seq::empty()) == Ok::<Seq<RowModel>, Seq<char>>(Seq::empty()));
        assert(made + Seq::<RowModel>::empty() =~= made);
        let run = BatchRun { pending, direct: false, rows, require_success: self.require_success };
        Ok(run)
    }

    fn advance(self, reply: BatchReply) -> (run: BatchRun)
        requires
            run_wf(self@),
            replies_to(reply@, self@),
        ensures
            run@ == advanced(self@, reply@),
            run_wf(run@),
    {
        let ghost start = self@;
        let require_success = self.require_success;
        let mut pending = self.pending;
        let mut rows = self.rows;
        let ghost batches = pending@;
        let ghost answered = rows@;
        match reply {
            BatchReply::Rows(more) => {
                pending.pop();
                let mut more = more;
                let ghost added = more@;
                rows.append(&mut more);
                let run = BatchRun { pending, direct: false, rows, require_success };
                assert(views(rows@) =~= views(answered) + views(added));
                assert(run@ =~= advanced(start, reply@));
                run
            },
            BatchReply::Row(row) => {
                pending.pop();
                rows.push(row);
                let run = BatchRun { pending, direct: false, rows, require_success };
                assert(run@ =~= advanced(start, reply@));
                run
            },
            BatchReply::Reverted | BatchReply::Failed => {
                let n = pending.len();
                if pending[n - 1].len() > 1 {
                    assert(start.pending.last() == batches.last()@);
                    let next = pending.pop();
                    match next {
                        Some(mut left) => {
                            let mid = left.len() / 2;
                            let right = left.split_off(mid);
                            pending.push(right);
                            pending.push(left);
                            assert(right@ =~= start.pending.last().skip(mid as int));
                            assert(left@ =~= start.pending.last().take(mid as int));
                        },
                        None => {},
                    }
                    let run = BatchRun { pending, direct: false, rows, require_success };
                    assert(run@ =~= advanced(start, reply@));
                    run
                } else {
                    let run = BatchRun { pending, direct: true, rows, require_success };
                    assert(run@ =~= advanced(start, reply@));
                    run
                }
            },
        }
    }
}

proof fn lemma_collected_add(
    first: Seq<Result<RowModel, Seq<char>>>,
    second: Seq<Result<RowModel, Seq<char>>>,
)
    ensures
        collected(first + second) == (match (collected(first), collected(second)) {
            (Err(message), _) => Err(message),
            (Ok(_), Err(message)) => Err(message),
            (Ok(a), Ok(b)) => Ok(a + b),
        }),
    decreases second.len(),
{
    if second.len() == 0 {
        assert(first + second =~= first);
        if collected(first) is Ok {
            assert(collected(first)->Ok_0 + Seq::empty() =~= collected(first)->Ok_0);
        }
    } else {
        let earlier = second.drop_last();
        lemma_collected_add(first, earlier);
        assert((first + second).drop_last() =~= first + earlier);
        assert((first + second).last() == second.last());
        if collected(first) is Ok && collected(second) is Ok {
            let a = collected(first)->Ok_0;
            let b = collected(earlier)->Ok_0;
            assert((a + b).push(second.last()->Ok_0) =~= a + b.push(second.last()->Ok_0));
        }
    }
}

proof fn lemma_failed_rows_add(first: Seq<Params>, second: Seq<Params>)
    ensures
        failed_rows(first + second) == (match (failed_rows(first), failed_rows(second)) {
            (Err(message), _) => Err(message),
            (Ok(_), Err(message)) => Err(message),
            (Ok(a), Ok(b)) => Ok(a + b),
        }),
{
    let row = |call: Params| failed_row(call);
    assert((first + second).map_values(row) =~= first.map_values(row) + second.map_values(row));
    lemma_collected_add(first.map_values(row), second.map_values(row));
}

/// Whether the row is one of this call.
pub open spec fn answers(row: RowModel, call: Params) -> bool {
    &&& call.block_number matches Some(block) && row.block_number == low_bits(block)
    &&& option_view(call.contract) == Some(row.contract_address)
    &&& option_view(call.call_data) == Some(row.call_data)
}

/// Whether the rows are those of the calls, one each, in order.
pub open spec fn all_answer(rows: Seq<RowModel>, calls: Seq<Params>) -> bool {
    &&& rows.len() == calls.len()
    &&& forall|i: int| 0 <= i < rows.len() ==> answers(#[trigger] rows[i], calls[i])
}

/// Whether a reply has the rows of the calls that were made.
pub open spec fn faithful(reply: ReplyModel, run: RunModel) -> bool {
    match reply {
        ReplyModel::Rows(rows) => all_answer(rows, run.pending.last()),
        ReplyModel::Row(row) => answers(row, run.pending.last()[0]),
        ReplyModel::Reverted | ReplyModel::Failed => true,
    }
}

/// Whether the run stands for the batch: its rows are those of the first calls,
/// and the remaining calls wait, in order.
pub open spec fn stands_for(run: RunModel, batch: Seq<Params>) -> bool {
    &&& run.rows.len() <= batch.len()
    &&& all_answer(run.rows, batch.take(run.rows.len() as int))
    &&& waiting(run.pending) == batch.skip(run.rows.len() as int)
}

/// Where every call has to succeed: whether all answered calls succeeded, or the
/// run is over and no row has an output.
pub open spec fn outputs_agree(run: RunModel) -> bool {
    run.require_success ==> all_succeeded(run.rows) || (run.pending.len() == 0 && all_failed(
        run.rows,
    ))
}

/// However often batches fail, no call is lost, repeated or moved: a run that
/// stands for its batch, as a fresh one does, still does so after every faithful
/// reply.
pub proof fn law_run_keeps_every_call(run: RunModel, reply: ReplyModel, batch: Seq<Params>)
    requires
        run_wf(run),
        replies_to(reply, run),
        faithful(reply, run),
        stands_for(run, batch),
    ensures
        resumed(run, reply) matches Ok(after) ==> run_wf(after) && stands_for(after, batch),
{
    let next = run.pending.last();
    let later = run.pending.drop_last();
    if run.require_success && shows_revert(reply) {
        lemma_failed_run_stands_for(run, batch);
    } else {
        let after = advanced(run, reply);
        match reply {
            ReplyModel::Rows(rows) => {
                lemma_rows_advance(run, batch, rows);
            },
            ReplyModel::Row(row) => {
                assert(run.rows.push(row) =~= run.rows + seq![row]);
                lemma_rows_advance(run, batch, seq![row]);
            },
            ReplyModel::Reverted | ReplyModel::Failed => {
                if next.len() > 1 {
                    let mid = next.len() as int / 2;
                    let left = next.take(mid);
                    let right = next.skip(mid);
                    assert(after.pending.drop_last() =~= later.push(right));
                    assert(later.push(right).drop_last() =~= later);
                    assert(waiting(later.push(right)) == right + waiting(later));
                    assert(waiting(after.pending) == left + (right + waiting(later)));
                    assert(left + (right + waiting(later)) =~= next + waiting(later));
                }
            },
        }
    }
}

proof fn lemma_start_stands_for(batch: Seq<Params>, require_success: bool)
    ensures
        stands_for(fresh_run(batch, require_success), batch),
{
    reveal_with_fuel(waiting, 2);
    let pending = seq![batch];
    assert(pending.drop_last() =~= Seq::empty());
    assert(waiting(pending) =~= batch);
    assert(batch.skip(0) =~= batch);
}

proof fn lemma_failed_rows(calls: Seq<Params>)
    ensures
        failed_rows(calls) matches Ok(rows) ==> all_answer(rows, calls) && all_failed(rows),
{
    let results = calls.map_values(|call: Params| failed_row(call));
    lemma_collected_values(results);
    if failed_rows(calls) is Ok {
        let rows = failed_rows(calls)->Ok_0;
        assert forall|i: int| 0 <= i < rows.len() implies answers(#[trigger] rows[i], calls[i])
            && rows[i].output_data is None by {
            assert(results[i] == Ok::<RowModel, Seq<char>>(rows[i]));
        }
    }
}

proof fn lemma_failed_run_stands_for(run: RunModel, batch: Seq<Params>)
    requires
        stands_for(run, batch),
    ensures
        failed_run(run) matches Ok(after) ==> run_wf(after) && stands_for(after, batch),
{
    let rest = batch.skip(run.rows.len() as int);
    lemma_failed_rows(rest);
    if failed_run(run) is Ok {
        let n = run.rows.len() as int;
        let after = failed_run(run)->Ok_0;
        assert(after.rows.len() == batch.len());
        assert forall|i: int| 0 <= i < after.rows.len() implies answers(
            #[trigger] after.rows[i],
            batch[i],
        ) by {
            if i < n {
                assert(answers(run.rows[i], batch.take(n)[i]));
                assert(after.rows[i] == without_output(run.rows[i]));
            } else {
                assert(after.rows[i] == failed_rows(rest)->Ok_0[i - n]);
                assert(rest[i - n] == batch[i]);
            }
        }
        assert(batch.take(batch.len() as int) =~= batch);
        assert(batch.skip(batch.len() as int) =~= Seq::empty());
    }
}

proof fn lemma_rows_advance(run: RunModel, batch: Seq<Params>, rows: Seq<RowModel>)
    requires
        run.pending.len() > 0,
        stands_for(run, batch),
        all_answer(rows, run.pending.last()),
    ensures
        run.rows.len() + rows.len() <= batch.len(),
        all_answer(run.rows + rows, batch.take((run.rows.len() + rows.len()) as int)),
        waiting(run.pending.drop_last()) == batch.skip((run.rows.len() + rows.len()) as int),
{
    let n = run.rows.len() as int;
    let m = rows.len() as int;
    let next = run.pending.last();
    let rest = waiting(run.pending.drop_last());
    assert(batch.skip(n) == next + rest);
    assert(batch.len() - n == m + rest.len());
    assert forall|i: int| 0 <= i < n + m implies answers(
        #[trigger] (run.rows + rows)[i],
        batch.take(n + m)[i],
    ) by {
        if i < n {
            assert(batch.take(n)[i] == batch[i]);
            assert(answers(run.rows[i], batch.take(n)[i]));
        } else {
            assert(batch.skip(n)[i - n] == batch[i]);
            assert((next + rest)[i - n] == next[i - n]);
            assert(answers(rows[i - n], next[i - n]));
        }
    }
    assert(batch.skip(n + m) =~= batch.skip(n).skip(m));
    assert((next + rest).skip(m) =~= rest);
}

/// A finished run has the rows of all calls of its batch, in order.
pub proof fn law_finished_run_answers_every_call(run: RunModel, batch: Seq<Params>)
    requires
        run.pending.len() == 0,
        stands_for(run, batch),
    ensures
        all_answer(run.rows, batch),
{
    assert(batch.skip(run.rows.len() as int).len() == 0);
    assert(batch.take(run.rows.len() as int) =~= batch);
}

/// Where every call has to succeed, a revert marks the whole batch as failed: the
/// run is over, every call of the batch has its row, and no row has an output.
pub proof fn law_revert_fails_the_whole_batch(
    run: RunModel,
    reply: ReplyModel,
    batch: Seq<Params>,
)
    requires
        run.require_success,
        shows_revert(reply),
        stands_for(run, batch),
    ensures
        resumed(run, reply) matches Ok(after) ==> {
            &&& after.pending.len() == 0
            &&& all_answer(after.rows, batch)
            &&& all_failed(after.rows)
        },
{
    lemma_failed_run_stands_for(run, batch);
    lemma_failed_rows(waiting(run.pending));
    if failed_run(run) is Ok {
        law_finished_run_answers_every_call(failed_run(run)->Ok_0, batch);
    }
}

/// Where every call has to succeed, a finished run has an output for every call
/// or for none: no reply lets some calls of a batch fail alone.
pub proof fn law_required_success_is_all_or_nothing(run: RunModel, reply: ReplyModel)
    requires
        replies_to(reply, run),
        outputs_agree(run),
    ensures
        resumed(run, reply) matches Ok(after) ==> after.require_success == run.require_success
            && outputs_agree(after),
{
    lemma_failed_rows(waiting(run.pending));
    if run.require_success && run.pending.len() > 0 && shows_revert(reply) && failed_run(
        run,
    ) is Ok {
        let after = failed_run(run)->Ok_0;
        assert(all_failed(after.rows));
    }
}

/// A run fails only for a malformed call: where the calls of the batch are well
/// formed, every reply gives a run.
pub proof fn law_well_formed_run_goes_on(run: RunModel, reply: ReplyModel, batch: Seq<Params>)
    requires
        stands_for(run, batch),
        forall|i: int| 0 <= i < batch.len() ==> single_call(#[trigger] batch[i]) is Ok,
    ensures
        resumed(run, reply) is Ok,
{
    let rest = batch.skip(run.rows.len() as int);
    assert forall|i: int| 0 <= i < rest.len() implies failed_row(#[trigger] rest[i]) is Ok by {
        assert(rest[i] == batch[i + run.rows.len()]);
    }
    lemma_well_formed_rows(rest);
}

proof fn lemma_well_formed_rows(calls: Seq<Params>)
    requires
        forall|i: int| 0 <= i < calls.len() ==> failed_row(#[trigger] calls[i]) is Ok,
    ensures
        failed_rows(calls) is Ok,
    decreases calls.len(),
{
    let row = |call: Params| failed_row(call);
    if calls.len() > 0 {
        let earlier = calls.drop_last();
        assert forall|i: int| 0 <= i < earlier.len() implies failed_row(
            #[trigger] earlier[i],
        ) is Ok by {
            assert(earlier[i] == calls[i]);
        }
        lemma_well_formed_rows(earlier);
        assert(calls.map_values(row).drop_last() =~= earlier.map_values(row));
        assert(failed_row(calls[calls.len() - 1]) is Ok);
    }
}

/// The most requests that the pending batches can still need.
pub open spec fn work(pending: Seq<Seq<Params>>) -> int
    decreases pending.len(),
{
    if pending.len() == 0 {
        0
    } else {
        work(pending.drop_last()) + 3 * pending.last().len() - 1
    }
}

/// The most requests that a run can still need.
pub open spec fn work_left(run: RunModel) -> int {
    work(run.pending) - (if run.direct {
        1int
    } else {
        0int
    })
}

/// A run ends: each reply brings it nearer to its end, and a batch of `n` calls
/// needs at most `3 * n - 1` requests.
pub proof fn law_run_is_finite(
    run: RunModel,
    reply: ReplyModel,
    batch: Seq<Params>,
    require_success: bool,
)
    requires
        run_wf(run),
        replies_to(reply, run),
    ensures
        resumed(run, reply) matches Ok(after) ==> 0 <= work_left(after) < work_left(run),
        work_left(fresh_run(batch, require_success)) == 3 * batch.len() - 1,
{
    reveal_with_fuel(work, 2);
    let start = seq![batch];
    assert(start.drop_last() =~= Seq::empty());
    let next = run.pending.last();
    let later = run.pending.drop_last();
    let after = advanced(run, reply);
    lemma_work_nonnegative(later);
    if (reply is Failed || reply is Reverted) && next.len() > 1 {
        let mid = next.len() as int / 2;
        let right = next.skip(mid);
        assert(after.pending.drop_last() =~= later.push(right));
        assert(later.push(right).drop_last() =~= later);
        assert(work(later.push(right)) == work(later) + 3 * right.len() - 1);
    }
}

proof fn lemma_work_nonnegative(pending: Seq<Seq<Params>>)
    requires
        forall|i: int| 0 <= i < pending.len() ==> (#[trigger] pending[i]).len() > 0,
    ensures
        work(pending) >= 0,
    decreases pending.len(),
{
    if pending.len() > 0 {
        lemma_work_nonnegative(pending.drop_last());
    }
}

/// The rows that an aggregate reply gives are faithful, and so is the row of a
/// direct call, whatever the outcomes.
pub proof fn law_replies_are_faithful(
    batch: Seq<Params>,
    outcomes: Seq<(bool, Seq<u8>)>,
    call: Params,
    output: Option<Seq<u8>>,
)
    ensures
        outcome_rows(batch, outcomes) matches Ok(rows) ==> all_answer(rows, batch),
        single_call(call) matches Ok(request) ==> answers(answered_row(request, output), call),
{
    if outcomes.len() == batch.len() {
        let results = Seq::new(batch.len(), |i: int| outcome_row(batch[i], outcomes[i]));
        lemma_collected_values(results);
        if outcome_rows(batch, outcomes) is Ok {
            let rows = outcome_rows(batch, outcomes)->Ok_0;
            assert forall|i: int| 0 <= i < rows.len() implies answers(
                #[trigger] rows[i],
                batch[i],
            ) by {
                assert(results[i] == Ok::<RowModel, Seq<char>>(rows[i]));
            }
        }
    }
}

} // verus!
