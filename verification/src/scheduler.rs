//! The per-tick proposal decision and its state.

use vstd::prelude::*;

use crate::proposal::BlockProposal;
use crate::proposal::ConsensusBlockProposal;
use crate::proposal::Fingerprint;
use crate::proposal::ProposalModel;
use crate::proposal::PASSTHROUGH_AUTHOR;
use crate::proposal::fingerprint_is_empty;

verus! {

/// The decision rule: a tick proposes exactly when the mempool fingerprint is
/// non-empty or a receipt block exists for the shard chain's best block.
pub open spec fn should_propose(fingerprint: Seq<u8>, receipt_block_exists: bool) -> bool {
    !fingerprint_is_empty(fingerprint) || receipt_block_exists
}

/// The state owned by the scheduling loop: the beacon block index of the most
/// recently emitted proposal (or, before any emission, the chain's best index
/// at startup).
pub struct Scheduler {
    pub index: u64,
}

impl Scheduler {
    /// A scheduler starting from the chain's reported best beacon block index.
    pub fn new(best_index: u64) -> (s: Scheduler)
        ensures
            s.index == best_index,
    {
        Scheduler { index: best_index }
    }

    /// One tick of the proposal decision. Given the mempool fingerprint and
    /// whether a receipt block exists, either advances the index by one and
    /// returns the proposal to emit, or leaves the index unchanged and
    /// returns nothing.
    pub fn tick(&mut self, hash: &Fingerprint, receipt_block_exists: bool) -> (r: Option<
        ConsensusBlockProposal,
    >)
        requires
            old(self).index < u64::MAX,
        ensures
            (r is Some) == should_propose(hash@, receipt_block_exists),
            should_propose(hash@, receipt_block_exists) ==> final(self).index == old(self).index
                + 1,
            !should_propose(hash@, receipt_block_exists) ==> final(self).index == old(self).index,
            r matches Some(p) ==> p@ == (ProposalModel {
                author: PASSTHROUGH_AUTHOR as int,
                hash: hash@,
                index: old(self).index + 1,
            }),
    {
        if !hash.is_empty() || receipt_block_exists {
            self.index = self.index + 1;
            Some(
                ConsensusBlockProposal {
                    proposal: BlockProposal { author: PASSTHROUGH_AUTHOR, hash: hash.duplicate() },
                    index: self.index,
                },
            )
        } else {
            None
        }
    }
}

/// One observation handed to the scheduler by its timer loop: either a tick,
/// with what the chain and mempool showed at that instant, or a failure of
/// the timer itself, which ends the loop for good.
pub enum TickEvent {
    Tick { hash: Fingerprint, receipt_block_exists: bool },
    TimerError,
}

/// The proposals that the decision rule emits, in decision order, when the
/// scheduler starts at `index` and observes `events` one per tick: a
/// proposing tick contributes one proposal with the next index, a
/// non-proposing tick contributes nothing, and a timer failure ends the run.
pub open spec fn emitted_model(index: int, events: Seq<TickEvent>) -> Seq<ProposalModel>
    decreases events.len(),
{
    if events.len() == 0 {
        Seq::empty()
    } else {
        match events[0] {
            TickEvent::TimerError => Seq::empty(),
            TickEvent::Tick { hash, receipt_block_exists } => {
                if should_propose(hash@, receipt_block_exists) {
                    Seq::empty().push(
                        ProposalModel {
                            author: PASSTHROUGH_AUTHOR as int,
                            hash: hash@,
                            index: index + 1,
                        },
                    ) + emitted_model(index + 1, events.skip(1))
                } else {
                    emitted_model(index, events.skip(1))
                }
            },
        }
    }
}

/// The mathematical content of a sequence of emitted proposals.
pub open spec fn proposals_model(out: Seq<ConsensusBlockProposal>) -> Seq<ProposalModel> {
    out.map_values(|p: ConsensusBlockProposal| p@)
}

/// Runs the proposal decision over a finite sequence of observations,
/// returning every proposal emitted, in decision order.
pub fn run_ticks(start_index: u64, events: &Vec<TickEvent>) -> (out: Vec<ConsensusBlockProposal>)
    requires
        start_index + events@.len() <= u64::MAX,
    ensures
        proposals_model(out@) == emitted_model(start_index as int, events@),
{
    let ghost all = events@;
    let mut out: Vec<ConsensusBlockProposal> = Vec::new();
    let mut scheduler = Scheduler::new(start_index);
    let mut timer_failed: bool = false;
    let mut i: usize = 0;
    proof {
        assert(all.skip(0) =~= all);
        assert(proposals_model(out@) + emitted_model(start_index as int, all) =~= emitted_model(
            start_index as int,
            all,
        ));
    }
    while i < events.len() && !timer_failed
        invariant
            i <= events@.len(),
            events@ == all,
            start_index + all.len() <= u64::MAX,
            out@.len() <= i,
            scheduler.index == start_index + out@.len(),
            !timer_failed ==> proposals_model(out@) + emitted_model(
                scheduler.index as int,
                all.skip(i as int),
            ) == emitted_model(start_index as int, all),
            timer_failed ==> proposals_model(out@) == emitted_model(start_index as int, all),
        decreases events@.len() - i,
    {
        proof {
            assert(all.skip(i as int)[0] == all[i as int]);
            assert(all.skip(i as int).skip(1) =~= all.skip(i as int + 1));
        }
        match &events[i] {
            TickEvent::TimerError => {
                timer_failed = true;
            },
            TickEvent::Tick { hash, receipt_block_exists } => {
                if let Some(p) = scheduler.tick(hash, *receipt_block_exists) {
                    out.push(p);
                    proof {
                        assert(proposals_model(out@) =~= proposals_model(out@.drop_last()).push(
                            p@,
                        ));
                        assert(proposals_model(out@) + emitted_model(
                            scheduler.index as int,
                            all.skip(i as int + 1),
                        ) =~= emitted_model(start_index as int, all));
                    }
                }
            },
        }
        i += 1;
    }
    proof {
        if !timer_failed {
            assert(all.skip(i as int) =~= Seq::<TickEvent>::empty());
        }
    }
    out
}

/// The sequence of emitted beacon block indices, taken in decision order, is
/// strictly increasing with step one and no gaps: a run starting at `index`
/// emits at most one proposal per event, and its `j`-th proposal carries
/// index `index + j + 1`.
pub proof fn lemma_emitted_indices_consecutive(index: int, events: Seq<TickEvent>)
    ensures
        emitted_model(index, events).len() <= events.len(),
        forall|j: int|
            0 <= j < emitted_model(index, events).len() ==> (#[trigger] emitted_model(
                index,
                events,
            )[j]).index == index + j + 1,
        forall|j: int, k: int|
            0 <= j < k < emitted_model(index, events).len() ==> emitted_model(index, events)[j].index
                < emitted_model(index, events)[k].index,
    decreases events.len(),
{
    if events.len() > 0 {
        match events[0] {
            TickEvent::TimerError => {},
            TickEvent::Tick { hash, receipt_block_exists } => {
                if should_propose(hash@, receipt_block_exists) {
                    lemma_emitted_indices_consecutive(index + 1, events.skip(1));
                } else {
                    lemma_emitted_indices_consecutive(index, events.skip(1));
                }
            },
        }
    }
}

/// Once the timer reports a failure, no further proposals are ever emitted:
/// if some event of the run is a timer failure, the run emits exactly what it
/// would have emitted from the events before it, whatever comes after.
pub proof fn lemma_timer_error_stops(index: int, events: Seq<TickEvent>, k: int)
    requires
        0 <= k < events.len(),
        events[k] is TimerError,
    ensures
        emitted_model(index, events) == emitted_model(index, events.take(k)),
    decreases events.len(),
{
    if k == 0 {
        assert(events.take(0) =~= Seq::<TickEvent>::empty());
    } else {
        assert(events.take(k)[0] == events[0]);
        assert(events.take(k).skip(1) =~= events.skip(1).take(k - 1));
        match events[0] {
            TickEvent::TimerError => {},
            TickEvent::Tick { hash, receipt_block_exists } => {
                assert(events.skip(1)[k - 1] == events[k]);
                if should_propose(hash@, receipt_block_exists) {
                    lemma_timer_error_stops(index + 1, events.skip(1), k - 1);
                } else {
                    lemma_timer_error_stops(index, events.skip(1), k - 1);
                }
            },
        }
    }
}

} // verus!
