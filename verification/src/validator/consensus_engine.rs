//! Quorum-based voting: hash-keyed ballots and per-proposal voting rounds
//! that gate the commitment of a task-to-worker assignment.
//!
//! A proposal commits once the approvals reach `ceil(threshold ×
//! validator_count)`; it is rejected once so many validators voted against
//! it that quorum can no longer be reached; and it times out if neither
//! happens within its window. Exactly one terminal transition fires, a
//! validator votes at most once per proposal, and late votes on a decided
//! proposal are ignored rather than errors.

use crate::shared::error::ProtocolError;
use crate::shared::types::{
    Proposal, ProposalState, ProposalType, ProposalVote, ReservationToken, TaskId, WorkerId,
};
use crate::shared::utils::str_eq;
use vstd::prelude::*;

verus! {

/// A vote on a hash-keyed ballot.
#[derive(Debug)]
pub struct Vote {
    /// Identifier of the validator casting the vote.
    pub validator_id: String,
    /// Hash of the block or decision the vote is about.
    pub block_hash: String,
    /// When the vote was cast, milliseconds.
    pub timestamp: u64,
    /// Whether the validator approves.
    pub approve: bool,
    /// Signature over the vote, opaque here.
    pub signature: Vec<u8>,
}

/// Engine-level consensus phase.
#[derive(Clone, Copy, Debug, PartialEq, Eq, Structural)]
pub enum ConsensusState {
    /// No round in progress.
    Idle,
    /// A proposal is being drawn up.
    Proposing,
    /// Votes are being collected.
    Voting,
    /// A decision is being finalised.
    Finalizing,
    /// The round committed.
    Committed,
}

/// All votes cast on one block hash.
#[derive(Debug)]
pub struct Ballot {
    /// The hash the votes are about.
    pub block_hash: String,
    /// The votes cast so far, at most one per validator.
    pub votes: Vec<Vote>,
}

/// Votes needed to commit: `ceil(threshold_permille × validator_count /
/// 1000)`.
pub open spec fn required_votes_spec(threshold_permille: int, validator_count: int) -> int {
    (threshold_permille * validator_count + 999) / 1000
}

/// How many of the ballot votes approve.
pub open spec fn approvals(vs: Seq<Vote>) -> int
    decreases vs.len(),
{
    if vs.len() == 0 {
        0
    } else {
        approvals(vs.drop_last()) + if vs.last().approve {
            1int
        } else {
            0int
        }
    }
}

/// How many of the proposal votes approve.
pub open spec fn pv_approvals(vs: Seq<ProposalVote>) -> int
    decreases vs.len(),
{
    if vs.len() == 0 {
        0
    } else {
        pv_approvals(vs.drop_last()) + if vs.last().approve {
            1int
        } else {
            0int
        }
    }
}

/// How many of the proposal votes reject.
pub open spec fn pv_rejections(vs: Seq<ProposalVote>) -> int
    decreases vs.len(),
{
    if vs.len() == 0 {
        0
    } else {
        pv_rejections(vs.drop_last()) + if vs.last().approve {
            0int
        } else {
            1int
        }
    }
}

/// Whether the validator named `vid` has voted on the ballot.
pub open spec fn voted(vs: Seq<Vote>, vid: Seq<char>) -> bool {
    exists|i: int| 0 <= i < vs.len() && (#[trigger] vs[i]).validator_id@ == vid
}

/// Whether the validator named `vid` has voted on the proposal.
pub open spec fn pv_voted(vs: Seq<ProposalVote>, vid: Seq<char>) -> bool {
    exists|i: int| 0 <= i < vs.len() && (#[trigger] vs[i]).validator_id@ == vid
}

/// No two ballots are keyed by the same hash.
pub open spec fn unique_hashes(bs: Seq<Ballot>) -> bool {
    forall|i: int, j: int|
        0 <= i < bs.len() && 0 <= j < bs.len() && i != j ==> (#[trigger] bs[i]).block_hash@ != (
        #[trigger] bs[j]).block_hash@
}

/// No validator appears twice among the ballot votes.
pub open spec fn unique_voters(vs: Seq<Vote>) -> bool {
    forall|i: int, j: int|
        0 <= i < vs.len() && 0 <= j < vs.len() && i != j ==> (#[trigger] vs[i]).validator_id@ != (
        #[trigger] vs[j]).validator_id@
}

/// No validator appears twice among the proposal votes.
pub open spec fn pv_unique_voters(vs: Seq<ProposalVote>) -> bool {
    forall|i: int, j: int|
        0 <= i < vs.len() && 0 <= j < vs.len() && i != j ==> (#[trigger] vs[i]).validator_id@ != (
        #[trigger] vs[j]).validator_id@
}

/// Whether a ballot keyed by `h` is present.
pub open spec fn has_ballot(bs: Seq<Ballot>, h: Seq<char>) -> bool {
    exists|i: int| 0 <= i < bs.len() && (#[trigger] bs[i]).block_hash@ == h
}

/// The index of the ballot keyed by `h`.
pub open spec fn ballot_idx(bs: Seq<Ballot>, h: Seq<char>) -> int {
    choose|i: int| 0 <= i < bs.len() && (#[trigger] bs[i]).block_hash@ == h
}

/// The ballot keyed by `h`.
pub open spec fn ballot_at(bs: Seq<Ballot>, h: Seq<char>) -> Ballot {
    bs[ballot_idx(bs, h)]
}

/// Whether a proposal with identifier `id` is present.
pub open spec fn has_proposal(ps: Seq<Proposal>, id: u64) -> bool {
    exists|i: int| 0 <= i < ps.len() && (#[trigger] ps[i]).id == id
}

/// The index of the proposal with identifier `id`.
pub open spec fn prop_idx(ps: Seq<Proposal>, id: u64) -> int {
    choose|i: int| 0 <= i < ps.len() && (#[trigger] ps[i]).id == id
}

/// The proposal with identifier `id`.
pub open spec fn proposal_at(ps: Seq<Proposal>, id: u64) -> Proposal {
    ps[prop_idx(ps, id)]
}

/// Whether some non-terminal proposal for `task_id` is present.
pub open spec fn has_live_proposal(ps: Seq<Proposal>, task_id: TaskId) -> bool {
    exists|i: int|
        0 <= i < ps.len() && (#[trigger] ps[i]).task_id == task_id && !ps[i].state.is_terminal()
}

/// At most one non-terminal proposal exists per task.
pub open spec fn one_live_per_task(ps: Seq<Proposal>) -> bool {
    forall|i: int, j: int|
        0 <= i < ps.len() && 0 <= j < ps.len() && i != j && !(#[trigger] ps[i]).state.is_terminal()
            && !(#[trigger] ps[j]).state.is_terminal() ==> ps[i].task_id != ps[j].task_id
}

proof fn lemma_approvals_push(vs: Seq<Vote>, v: Vote)
    ensures
        approvals(vs.push(v)) == approvals(vs) + if v.approve {
            1int
        } else {
            0int
        },
{
    assert(vs.push(v).drop_last() =~= vs);
}

proof fn lemma_pv_push(vs: Seq<ProposalVote>, v: ProposalVote)
    ensures
        pv_approvals(vs.push(v)) == pv_approvals(vs) + if v.approve {
            1int
        } else {
            0int
        },
        pv_rejections(vs.push(v)) == pv_rejections(vs) + if v.approve {
            0int
        } else {
            1int
        },
{
    assert(vs.push(v).drop_last() =~= vs);
}

/// The quorum bound never exceeds the validator count.
pub proof fn lemma_required_le_count(threshold_permille: int, validator_count: int)
    requires
        0 <= threshold_permille <= 1000,
        0 <= validator_count,
    ensures
        0 <= required_votes_spec(threshold_permille, validator_count) <= validator_count,
{
    let t = threshold_permille;
    let c = validator_count;
    assert(t * c <= 1000 * c) by (nonlinear_arith)
        requires
            0 <= t <= 1000,
            0 <= c,
    ;
    assert(t * c >= 0) by (nonlinear_arith)
        requires
            0 <= t,
            0 <= c,
    ;
    assert((1000 * c + 999) / 1000 == c) by (nonlinear_arith)
        requires
            0 <= c,
    ;
    assert((t * c + 999) / 1000 <= (1000 * c + 999) / 1000) by (nonlinear_arith)
        requires
            t * c <= 1000 * c,
    ;
}

/// Manages the consensus protocol: hash-keyed ballots and the per-proposal
/// voting rounds that bind a task to a worker.
pub struct ConsensusEngine {
    state: ConsensusState,
    ballots: Vec<Ballot>,
    proposals: Vec<Proposal>,
    threshold_permille: u32,
    validator_count: usize,
    vote_window_ms: u64,
    next_proposal_id: u64,
}

impl ConsensusEngine {
    /// The engine-level consensus phase.
    pub closed spec fn state_spec(self) -> ConsensusState {
        self.state
    }

    /// The ballots, in order of first vote.
    pub closed spec fn ballots_seq(self) -> Seq<Ballot> {
        self.ballots@
    }

    /// The proposals, in creation order.
    pub closed spec fn proposals_seq(self) -> Seq<Proposal> {
        self.proposals@
    }

    /// The commit threshold, in thousandths.
    pub closed spec fn threshold_spec(self) -> u32 {
        self.threshold_permille
    }

    /// How many validators take part.
    pub closed spec fn validator_count_spec(self) -> usize {
        self.validator_count
    }

    /// The voting window granted to a new proposal, milliseconds.
    pub closed spec fn vote_window_spec(self) -> u64 {
        self.vote_window_ms
    }

    /// The identifier the next proposal will carry.
    pub closed spec fn next_proposal_id_spec(self) -> u64 {
        self.next_proposal_id
    }

    /// Votes needed to commit a proposal of this engine.
    pub open spec fn required_spec(self) -> int {
        required_votes_spec(self.threshold_spec() as int, self.validator_count_spec() as int)
    }

    /// A proposal that is still `Voting` has reached neither the commit nor
    /// the reject condition; a terminal transition fires as soon as one
    /// holds.
    pub open spec fn undecided(self, p: Proposal) -> bool {
        p.state == ProposalState::Voting ==> pv_approvals(p.votes@) < self.required_spec()
            && pv_rejections(p.votes@) <= self.validator_count_spec() - self.required_spec()
    }

    /// Well-formedness: the threshold is a fraction, hashes, proposal ids
    /// and voters are unique, at most one proposal per task is non-terminal,
    /// and every undecided proposal is short of both the commit and the
    /// reject condition.
    pub open spec fn wf(self) -> bool {
        &&& self.threshold_spec() <= 1000
        &&& unique_hashes(self.ballots_seq())
        &&& forall|i: int|
            0 <= i < self.ballots_seq().len() ==> unique_voters(
                (#[trigger] self.ballots_seq()[i]).votes@,
            )
        &&& forall|i: int, j: int|
            0 <= i < self.proposals_seq().len() && 0 <= j < self.proposals_seq().len() && i != j
                ==> (#[trigger] self.proposals_seq()[i]).id != (
            #[trigger] self.proposals_seq()[j]).id
        &&& forall|i: int|
            0 <= i < self.proposals_seq().len() ==> (#[trigger] self.proposals_seq()[i]).id
                < self.next_proposal_id_spec()
        &&& forall|i: int|
            0 <= i < self.proposals_seq().len() ==> pv_unique_voters(
                (#[trigger] self.proposals_seq()[i]).votes@,
            )
        &&& one_live_per_task(self.proposals_seq())
        &&& forall|i: int|
            0 <= i < self.proposals_seq().len() ==> self.undecided(
                #[trigger] self.proposals_seq()[i],
            )
    }

    /// Creates an engine with a commit threshold in thousandths (`670`
    /// stands for 0.67) over `validator_count` validators.
    pub fn new(threshold_permille: u32, validator_count: usize) -> (r: Self)
        requires
            threshold_permille <= 1000,
        ensures
            r.wf(),
            r.state_spec() == ConsensusState::Idle,
            r.ballots_seq() == Seq::<Ballot>::empty(),
            r.proposals_seq() == Seq::<Proposal>::empty(),
            r.threshold_spec() == threshold_permille,
            r.validator_count_spec() == validator_count,
            r.vote_window_spec() == DEFAULT_VOTE_WINDOW_MS,
            r.next_proposal_id_spec() == 0,
    {
        ConsensusEngine {
            state: ConsensusState::Idle,
            ballots: Vec::new(),
            proposals: Vec::new(),
            threshold_permille,
            validator_count,
            vote_window_ms: DEFAULT_VOTE_WINDOW_MS,
            next_proposal_id: 0,
        }
    }

    /// Votes needed to commit: `ceil(threshold × validator_count)`.
    pub fn required_votes(&self) -> (r: usize)
        requires
            self.wf(),
        ensures
            r as int == self.required_spec(),
            r <= self.validator_count_spec(),
    {
        proof {
            lemma_required_le_count(
                self.threshold_permille as int,
                self.validator_count as int,
            );
            assert((self.threshold_permille as int) * (self.validator_count as int) <= 1000 * (
            usize::MAX as int)) by (nonlinear_arith)
                requires
                    self.threshold_permille as int <= 1000,
                    0 <= self.validator_count as int <= usize::MAX as int,
            ;
        }
        let need = ((self.threshold_permille as u128) * (self.validator_count as u128) + 999)
            / 1000;
        need as usize
    }

    /// The current engine-level phase.
    pub fn get_state(&self) -> (r: ConsensusState)
        ensures
            r == self.state_spec(),
    {
        self.state
    }

    /// Moves the engine-level phase.
    pub fn set_state(&mut self, new_state: ConsensusState)
        requires
            old(self).wf(),
        ensures
            final(self).wf(),
            final(self).state_spec() == new_state,
            final(self).ballots_seq() == old(self).ballots_seq(),
            final(self).proposals_seq() == old(self).proposals_seq(),
            final(self).threshold_spec() == old(self).threshold_spec(),
            final(self).validator_count_spec() == old(self).validator_count_spec(),
            final(self).vote_window_spec() == old(self).vote_window_spec(),
            final(self).next_proposal_id_spec() == old(self).next_proposal_id_spec(),
    {
        self.state = new_state;
    }

    /// Clears all ballots and returns to `Idle` for a new round; proposals
    /// keep their history.
    pub fn reset(&mut self)
        requires
            old(self).wf(),
        ensures
            final(self).wf(),
            final(self).state_spec() == ConsensusState::Idle,
            final(self).ballots_seq() == Seq::<Ballot>::empty(),
            final(self).proposals_seq() == old(self).proposals_seq(),
            final(self).threshold_spec() == old(self).threshold_spec(),
            final(self).validator_count_spec() == old(self).validator_count_spec(),
            final(self).vote_window_spec() == old(self).vote_window_spec(),
            final(self).next_proposal_id_spec() == old(self).next_proposal_id_spec(),
    {
        self.ballots.clear();
        self.state = ConsensusState::Idle;
    }

    /// The index of the ballot keyed by `block_hash`, if one exists.
    fn find_ballot(&self, block_hash: &str) -> (r: Option<usize>)
        ensures
            match r {
                Some(i) => i < self.ballots_seq().len() && self.ballots_seq()[i as int].block_hash@
                    == block_hash@,
                None => !has_ballot(self.ballots_seq(), block_hash@),
            },
    {
        let n = self.ballots.len();
        for i in 0..n
            invariant
                n == self.ballots_seq().len(),
                forall|k: int| 0 <= k < i ==> (#[trigger] self.ballots_seq()[k]).block_hash@ != block_hash@,
        {
            if str_eq(self.ballots[i].block_hash.as_str(), block_hash) {
                return Some(i);
            }
        }
        None
    }

    /// Whether the validator named `vid` already voted among `votes`.
    fn already_voted(votes: &Vec<Vote>, vid: &str) -> (r: bool)
        ensures
            r == voted(votes@, vid@),
    {
        let n = votes.len();
        for i in 0..n
            invariant
                n == votes@.len(),
                forall|k: int| 0 <= k < i ==> (#[trigger] votes@[k]).validator_id@ != vid@,
        {
            if str_eq(votes[i].validator_id.as_str(), vid) {
                return true;
            }
        }
        false
    }

    /// Records a vote on the ballot keyed by the vote's block hash, opening
    /// the ballot if it is the first vote. A validator that already voted on
    /// the ballot is refused with `DuplicateVote` and nothing changes, not
    /// even the vote count.
    pub fn submit_vote(&mut self, vote: Vote) -> (r: Result<(), ProtocolError>)
        requires
            old(self).wf(),
        ensures
            final(self).wf(),
            final(self).state_spec() == old(self).state_spec(),
            final(self).proposals_seq() == old(self).proposals_seq(),
            final(self).threshold_spec() == old(self).threshold_spec(),
            final(self).validator_count_spec() == old(self).validator_count_spec(),
            final(self).vote_window_spec() == old(self).vote_window_spec(),
            final(self).next_proposal_id_spec() == old(self).next_proposal_id_spec(),
            !has_ballot(old(self).ballots_seq(), vote.block_hash@) ==> {
                &&& r == Ok::<(), ProtocolError>(())
                &&& final(self).ballots_seq().len() == old(self).ballots_seq().len() + 1
                &&& final(self).ballots_seq().subrange(0, old(self).ballots_seq().len() as int)
                    == old(self).ballots_seq()
                &&& final(self).ballots_seq().last().block_hash@ == vote.block_hash@
                &&& final(self).ballots_seq().last().votes@ == seq![vote]
            },
            has_ballot(old(self).ballots_seq(), vote.block_hash@) && voted(
                ballot_at(old(self).ballots_seq(), vote.block_hash@).votes@,
                vote.validator_id@,
            ) ==> r == Err::<(), ProtocolError>(ProtocolError::DuplicateVote) && *final(self)
                == *old(self),
            has_ballot(old(self).ballots_seq(), vote.block_hash@) && !voted(
                ballot_at(old(self).ballots_seq(), vote.block_hash@).votes@,
                vote.validator_id@,
            ) ==> r == Ok::<(), ProtocolError>(()) && {
                let bi = ballot_idx(old(self).ballots_seq(), vote.block_hash@);
                let b = old(self).ballots_seq()[bi];
                &&& final(self).ballots_seq().len() == old(self).ballots_seq().len()
                &&& (forall|k: int|
                    0 <= k < old(self).ballots_seq().len() && k != bi
                        ==> #[trigger] final(self).ballots_seq()[k] == old(self).ballots_seq()[k])
                &&& final(self).ballots_seq()[bi].block_hash == b.block_hash
                &&& final(self).ballots_seq()[bi].votes@ == b.votes@.push(vote)
            },
    {
        let found = self.find_ballot(vote.block_hash.as_str());
        match found {
            None => {
                let ghost prev = self.ballots@;
                let block_hash = vote.block_hash.clone();
                let mut votes: Vec<Vote> = Vec::new();
                votes.push(vote);
                self.ballots.push(Ballot { block_hash, votes });
                proof {
                    assert(self.ballots@.last().votes@ =~= seq![vote]);
                    assert(self.ballots@.subrange(0, prev.len() as int) =~= prev);
                }
                Ok(())
            },
            Some(i) => {
                proof {
                    let j = ballot_idx(self.ballots@, vote.block_hash@);
                    assert(has_ballot(self.ballots@, vote.block_hash@));
                    assert(0 <= j < self.ballots@.len() && self.ballots@[j].block_hash@
                        == vote.block_hash@);
                    assert(j == i as int);
                }
                if Self::already_voted(&self.ballots[i].votes, vote.validator_id.as_str()) {
                    return Err(ProtocolError::DuplicateVote);
                }
                let ghost prev = self.ballots@;
                let mut b = self.ballots.remove(i);
                b.votes.push(vote);
                self.ballots.insert(i, b);
                proof {
                    assert(forall|k: int|
                        0 <= k < prev.len() && k != i as int ==> #[trigger] self.ballots@[k]
                            == prev[k]);
                    assert(self.ballots@[i as int].votes@ == prev[i as int].votes@.push(vote));
                }
                Ok(())
            },
        }
    }

    /// Whether the ballot keyed by `block_hash` has reached the approval
    /// quorum.
    pub fn check_consensus(&self, block_hash: &str) -> (r: bool)
        requires
            self.wf(),
        ensures
            r == (has_ballot(self.ballots_seq(), block_hash@) && approvals(
                ballot_at(self.ballots_seq(), block_hash@).votes@,
            ) >= self.required_spec()),
    {
        let found = self.find_ballot(block_hash);
        match found {
            None => false,
            Some(i) => {
                proof {
                    let j = ballot_idx(self.ballots@, block_hash@);
                    assert(has_ballot(self.ballots@, block_hash@));
                    assert(0 <= j < self.ballots@.len() && self.ballots@[j].block_hash@
                        == block_hash@);
                    assert(j == i as int);
                }
                let votes = &self.ballots[i].votes;
                let n = votes.len();
                let mut count: usize = 0;
                for k in 0..n
                    invariant
                        n == votes@.len(),
                        count as int == approvals(votes@.subrange(0, k as int)),
                        count <= k,
                {
                    proof {
                        assert(votes@.subrange(0, k + 1) =~= votes@.subrange(0, k as int).push(
                            votes@[k as int],
                        ));
                        lemma_approvals_push(votes@.subrange(0, k as int), votes@[k as int]);
                    }
                    if votes[k].approve {
                        count = count + 1;
                    }
                }
                proof {
                    assert(votes@.subrange(0, n as int) =~= votes@);
                }
                count >= self.required_votes()
            },
        }
    }
    /// The index of the proposal with identifier `proposal_id`, if one
    /// exists.
    fn find_proposal(&self, proposal_id: u64) -> (r: Option<usize>)
        ensures
            match r {
                Some(i) => i < self.proposals_seq().len() && self.proposals_seq()[i as int].id
                    == proposal_id,
                None => !has_proposal(self.proposals_seq(), proposal_id),
            },
    {
        let n = self.proposals.len();
        for i in 0..n
            invariant
                n == self.proposals_seq().len(),
                forall|k: int| 0 <= k < i ==> (#[trigger] self.proposals_seq()[k]).id != proposal_id,
        {
            if self.proposals[i].id == proposal_id {
                return Some(i);
            }
        }
        None
    }

    /// Whether some non-terminal proposal for `task_id` exists.
    pub fn has_open_proposal(&self, task_id: TaskId) -> (r: bool)
        ensures
            r == has_live_proposal(self.proposals_seq(), task_id),
    {
        let n = self.proposals.len();
        for i in 0..n
            invariant
                n == self.proposals_seq().len(),
                forall|k: int|
                    0 <= k < i ==> ((#[trigger] self.proposals_seq()[k]).task_id != task_id
                        || self.proposals_seq()[k].state.is_terminal()),
        {
            let st = self.proposals[i].state;
            let terminal = st == ProposalState::Committed || st == ProposalState::Rejected || st
                == ProposalState::TimedOut;
            if self.proposals[i].task_id == task_id && !terminal {
                return true;
            }
        }
        false
    }

    /// The task, candidate worker, reservation, and state of the proposal
    /// with identifier `proposal_id`, if one exists.
    pub fn proposal_brief(&self, proposal_id: u64) -> (r: Option<
        (TaskId, WorkerId, ReservationToken, ProposalState),
    >)
        requires
            self.wf(),
        ensures
            r is Some <==> has_proposal(self.proposals_seq(), proposal_id),
            r is Some ==> {
                let p = proposal_at(self.proposals_seq(), proposal_id);
                r == Some((p.task_id, p.candidate_worker, p.reservation, p.state))
            },
    {
        let found = self.find_proposal(proposal_id);
        match found {
            None => None,
            Some(i) => {
                proof {
                    let j = prop_idx(self.proposals@, proposal_id);
                    assert(has_proposal(self.proposals@, proposal_id));
                    assert(0 <= j < self.proposals@.len() && self.proposals@[j].id == proposal_id);
                    assert(j == i as int);
                }
                let p = &self.proposals[i];
                Some((p.task_id, p.candidate_worker, p.reservation, p.state))
            },
        }
    }

    /// Opens a voting round that would bind `task_id` to `candidate_worker`
    /// backed by `reservation`. Refused with `AlreadyRegistered` while
    /// another proposal for the task is still undecided, so at most one
    /// non-terminal proposal per task ever exists.
    pub fn propose(
        &mut self,
        proposal_type: ProposalType,
        task_id: TaskId,
        candidate_worker: WorkerId,
        reservation: ReservationToken,
        now: u64,
    ) -> (r: Result<u64, ProtocolError>)
        requires
            old(self).wf(),
        ensures
            final(self).wf(),
            final(self).state_spec() == old(self).state_spec(),
            final(self).ballots_seq() == old(self).ballots_seq(),
            final(self).threshold_spec() == old(self).threshold_spec(),
            final(self).validator_count_spec() == old(self).validator_count_spec(),
            final(self).vote_window_spec() == old(self).vote_window_spec(),
            has_live_proposal(old(self).proposals_seq(), task_id) ==> r == Err::<u64, ProtocolError>(
                ProtocolError::AlreadyRegistered,
            ) && *final(self) == *old(self),
            !has_live_proposal(old(self).proposals_seq(), task_id) && old(
                self,
            ).next_proposal_id_spec() == u64::MAX ==> r == Err::<u64, ProtocolError>(
                ProtocolError::Internal,
            ) && *final(self) == *old(self),
            !has_live_proposal(old(self).proposals_seq(), task_id) && old(
                self,
            ).next_proposal_id_spec() < u64::MAX ==> {
                &&& r == Ok::<u64, ProtocolError>(old(self).next_proposal_id_spec())
                &&& final(self).proposals_seq().len() == old(self).proposals_seq().len() + 1
                &&& final(self).proposals_seq().subrange(
                    0,
                    old(self).proposals_seq().len() as int,
                ) == old(self).proposals_seq()
                &&& {
                    let p = final(self).proposals_seq().last();
                    &&& p.id == old(self).next_proposal_id_spec()
                    &&& p.proposal_type == proposal_type
                    &&& p.task_id == task_id
                    &&& p.candidate_worker == candidate_worker
                    &&& p.reservation == reservation
                    &&& p.votes@ == Seq::<ProposalVote>::empty()
                    &&& p.state == (if old(self).required_spec() == 0 {
                        ProposalState::Committed
                    } else {
                        ProposalState::Voting
                    })
                    &&& p.deadline == crate::orchestrator::resource_manager::sat_add(
                        now,
                        old(self).vote_window_spec(),
                    )
                }
                &&& final(self).next_proposal_id_spec() == old(self).next_proposal_id_spec() + 1
            },
    {
        if self.has_open_proposal(task_id) {
            return Err(ProtocolError::AlreadyRegistered);
        }
        if self.next_proposal_id == u64::MAX {
            return Err(ProtocolError::Internal);
        }
        let id = self.next_proposal_id;
        self.next_proposal_id = self.next_proposal_id + 1;
        let deadline = if now <= u64::MAX - self.vote_window_ms {
            now + self.vote_window_ms
        } else {
            u64::MAX
        };
        let required = self.required_votes();
        let state = if required == 0 {
            ProposalState::Committed
        } else {
            ProposalState::Voting
        };
        let ghost prev = self.proposals@;
        self.proposals.push(
            Proposal {
                id,
                proposal_type,
                task_id,
                candidate_worker,
                reservation,
                votes: Vec::new(),
                state,
                deadline,
            },
        );
        proof {
            assert(self.proposals@.subrange(0, prev.len() as int) =~= prev);
            assert(self.proposals@.last().votes@ =~= Seq::<ProposalVote>::empty());
            assert forall|a: int, b: int|
                0 <= a < self.proposals@.len() && 0 <= b < self.proposals@.len() && a != b && !(
                #[trigger] self.proposals@[a]).state.is_terminal() && !(
                #[trigger] self.proposals@[b]).state.is_terminal() implies self.proposals@[a].task_id
                != self.proposals@[b].task_id by {
                if a < prev.len() && b < prev.len() {
                    assert(prev[a] == self.proposals@[a]);
                    assert(prev[b] == self.proposals@[b]);
                } else if a == prev.len() as int {
                    assert(!has_live_proposal(prev, task_id));
                    assert(prev[b] == self.proposals@[b]);
                } else {
                    assert(!has_live_proposal(prev, task_id));
                    assert(prev[a] == self.proposals@[a]);
                }
            }
            lemma_required_le_count(
                self.threshold_permille as int,
                self.validator_count as int,
            );
        }
        Ok(id)
    }

    /// Whether the validator named `vid` already voted among `votes`.
    fn pv_already_voted(votes: &Vec<ProposalVote>, vid: &str) -> (r: bool)
        ensures
            r == pv_voted(votes@, vid@),
    {
        let n = votes.len();
        for i in 0..n
            invariant
                n == votes@.len(),
                forall|k: int| 0 <= k < i ==> (#[trigger] votes@[k]).validator_id@ != vid@,
        {
            if str_eq(votes[i].validator_id.as_str(), vid) {
                return true;
            }
        }
        false
    }

    /// The approvals and rejections among `votes`.
    fn count_votes(votes: &Vec<ProposalVote>) -> (r: (usize, usize))
        ensures
            r.0 as int == pv_approvals(votes@),
            r.1 as int == pv_rejections(votes@),
    {
        let n = votes.len();
        let mut approve_count: usize = 0;
        let mut reject_count: usize = 0;
        for k in 0..n
            invariant
                n == votes@.len(),
                approve_count as int == pv_approvals(votes@.subrange(0, k as int)),
                reject_count as int == pv_rejections(votes@.subrange(0, k as int)),
                approve_count <= k,
                reject_count <= k,
        {
            proof {
                assert(votes@.subrange(0, k + 1) =~= votes@.subrange(0, k as int).push(
                    votes@[k as int],
                ));
                lemma_pv_push(votes@.subrange(0, k as int), votes@[k as int]);
            }
            if votes[k].approve {
                approve_count = approve_count + 1;
            } else {
                reject_count = reject_count + 1;
            }
        }
        proof {
            assert(votes@.subrange(0, n as int) =~= votes@);
        }
        (approve_count, reject_count)
    }

    /// Casts one validator's vote on a proposal. A second vote by the same
    /// validator is refused with `DuplicateVote` and changes nothing, not
    /// even the vote count; a vote on a decided proposal is ignored and the
    /// decided state returned. Otherwise the vote is recorded and the
    /// proposal commits once approvals reach the quorum, or is rejected once
    /// the rejections make quorum unreachable; the new state is returned.
    pub fn cast_vote(&mut self, validator_id: &str, proposal_id: u64, approve: bool) -> (r: Result<
        ProposalState,
        ProtocolError,
    >)
        requires
            old(self).wf(),
        ensures
            final(self).wf(),
            final(self).state_spec() == old(self).state_spec(),
            final(self).ballots_seq() == old(self).ballots_seq(),
            final(self).threshold_spec() == old(self).threshold_spec(),
            final(self).validator_count_spec() == old(self).validator_count_spec(),
            final(self).vote_window_spec() == old(self).vote_window_spec(),
            final(self).next_proposal_id_spec() == old(self).next_proposal_id_spec(),
            !has_proposal(old(self).proposals_seq(), proposal_id) ==> r == Err::<
                ProposalState,
                ProtocolError,
            >(ProtocolError::NotFound) && *final(self) == *old(self),
            has_proposal(old(self).proposals_seq(), proposal_id) && proposal_at(
                old(self).proposals_seq(),
                proposal_id,
            ).state.is_terminal() ==> r == Ok::<ProposalState, ProtocolError>(
                proposal_at(old(self).proposals_seq(), proposal_id).state,
            ) && *final(self) == *old(self),
            has_proposal(old(self).proposals_seq(), proposal_id) && !proposal_at(
                old(self).proposals_seq(),
                proposal_id,
            ).state.is_terminal() && pv_voted(
                proposal_at(old(self).proposals_seq(), proposal_id).votes@,
                validator_id@,
            ) ==> r == Err::<ProposalState, ProtocolError>(ProtocolError::DuplicateVote)
                && *final(self) == *old(self),
            has_proposal(old(self).proposals_seq(), proposal_id) && !proposal_at(
                old(self).proposals_seq(),
                proposal_id,
            ).state.is_terminal() && !pv_voted(
                proposal_at(old(self).proposals_seq(), proposal_id).votes@,
                validator_id@,
            ) ==> {
                let pi = prop_idx(old(self).proposals_seq(), proposal_id);
                let p = old(self).proposals_seq()[pi];
                let new_approvals = pv_approvals(p.votes@) + if approve {
                    1int
                } else {
                    0int
                };
                let new_rejections = pv_rejections(p.votes@) + if approve {
                    0int
                } else {
                    1int
                };
                let new_state = if new_approvals >= old(self).required_spec() {
                    ProposalState::Committed
                } else if new_rejections > old(self).validator_count_spec() - old(
                    self,
                ).required_spec() {
                    ProposalState::Rejected
                } else {
                    ProposalState::Voting
                };
                &&& r == Ok::<ProposalState, ProtocolError>(new_state)
                &&& final(self).proposals_seq().len() == old(self).proposals_seq().len()
                &&& (forall|k: int|
                    0 <= k < old(self).proposals_seq().len() && k != pi
                        ==> #[trigger] final(self).proposals_seq()[k] == old(self).proposals_seq()[k])
                &&& {
                    let q = final(self).proposals_seq()[pi];
                    &&& q.id == p.id
                    &&& q.proposal_type == p.proposal_type
                    &&& q.task_id == p.task_id
                    &&& q.candidate_worker == p.candidate_worker
                    &&& q.reservation == p.reservation
                    &&& q.deadline == p.deadline
                    &&& q.state == new_state
                    &&& q.votes@.len() == p.votes@.len() + 1
                    &&& q.votes@.subrange(0, p.votes@.len() as int) == p.votes@
                    &&& q.votes@.last().validator_id@ == validator_id@
                    &&& q.votes@.last().approve == approve
                }
            },
    {
        let found = self.find_proposal(proposal_id);
        match found {
            None => Err(ProtocolError::NotFound),
            Some(i) => {
                proof {
                    let j = prop_idx(self.proposals@, proposal_id);
                    assert(has_proposal(self.proposals@, proposal_id));
                    assert(0 <= j < self.proposals@.len() && self.proposals@[j].id == proposal_id);
                    assert(j == i as int);
                }
                let st = self.proposals[i].state;
                if st == ProposalState::Committed || st == ProposalState::Rejected || st
                    == ProposalState::TimedOut {
                    return Ok(st);
                }
                if Self::pv_already_voted(&self.proposals[i].votes, validator_id) {
                    return Err(ProtocolError::DuplicateVote);
                }
                let ghost prev = self.proposals@;
                let required = self.required_votes();
                let mut p = self.proposals.remove(i);
                let ghost old_votes = p.votes@;
                let cast = ProposalVote { validator_id: validator_id.to_owned(), approve };
                p.votes.push(cast);
                proof {
                    lemma_pv_push(old_votes, cast);
                }
                let counts = Self::count_votes(&p.votes);
                let new_state = if counts.0 >= required {
                    ProposalState::Committed
                } else if counts.1 > self.validator_count - required {
                    ProposalState::Rejected
                } else {
                    ProposalState::Voting
                };
                p.state = new_state;
                self.proposals.insert(i, p);
                proof {
                    lemma_required_le_count(
                        self.threshold_permille as int,
                        self.validator_count as int,
                    );
                    assert(forall|k: int|
                        0 <= k < prev.len() && k != i as int ==> #[trigger] self.proposals@[k]
                            == prev[k]);
                    assert(self.proposals@[i as int].votes@.subrange(0, old_votes.len() as int)
                        =~= old_votes);
                    assert forall|a: int, b: int|
                        0 <= a < self.proposals@[i as int].votes@.len() && 0 <= b
                            < self.proposals@[i as int].votes@.len() && a != b implies (
                    #[trigger] self.proposals@[i as int].votes@[a]).validator_id@ != (
                    #[trigger] self.proposals@[i as int].votes@[b]).validator_id@ by {
                        let vs = self.proposals@[i as int].votes@;
                        if a < old_votes.len() && b < old_votes.len() {
                            assert(vs[a] == old_votes[a]);
                            assert(vs[b] == old_votes[b]);
                        } else if a == old_votes.len() as int {
                            assert(vs[b] == old_votes[b]);
                            assert(!pv_voted(old_votes, validator_id@));
                        } else {
                            assert(vs[a] == old_votes[a]);
                            assert(!pv_voted(old_votes, validator_id@));
                        }
                    }
                }
                Ok(new_state)
            },
        }
    }

    /// Times out one proposal if its window closed before `now`: a proposal
    /// still `Voting` past its deadline becomes `TimedOut`, its single
    /// terminal transition; any other proposal is left as it stands. The
    /// proposal's state after the call is returned; an unknown proposal is
    /// refused with `NotFound`.
    pub fn timeout_proposal(&mut self, proposal_id: u64, now: u64) -> (r: Result<
        ProposalState,
        ProtocolError,
    >)
        requires
            old(self).wf(),
        ensures
            final(self).wf(),
            final(self).state_spec() == old(self).state_spec(),
            final(self).ballots_seq() == old(self).ballots_seq(),
            final(self).threshold_spec() == old(self).threshold_spec(),
            final(self).validator_count_spec() == old(self).validator_count_spec(),
            final(self).vote_window_spec() == old(self).vote_window_spec(),
            final(self).next_proposal_id_spec() == old(self).next_proposal_id_spec(),
            !has_proposal(old(self).proposals_seq(), proposal_id) ==> r == Err::<
                ProposalState,
                ProtocolError,
            >(ProtocolError::NotFound) && *final(self) == *old(self),
            has_proposal(old(self).proposals_seq(), proposal_id) ==> {
                let pi = prop_idx(old(self).proposals_seq(), proposal_id);
                let p = old(self).proposals_seq()[pi];
                if p.state == ProposalState::Voting && p.deadline < now {
                    &&& r == Ok::<ProposalState, ProtocolError>(ProposalState::TimedOut)
                    &&& final(self).proposals_seq() == old(self).proposals_seq().update(
                        pi,
                        Proposal { state: ProposalState::TimedOut, ..p },
                    )
                } else {
                    &&& r == Ok::<ProposalState, ProtocolError>(p.state)
                    &&& *final(self) == *old(self)
                }
            },
    {
        let found = self.find_proposal(proposal_id);
        match found {
            None => Err(ProtocolError::NotFound),
            Some(i) => {
                proof {
                    let j = prop_idx(self.proposals@, proposal_id);
                    assert(has_proposal(self.proposals@, proposal_id));
                    assert(0 <= j < self.proposals@.len() && self.proposals@[j].id == proposal_id);
                    assert(j == i as int);
                }
                if self.proposals[i].state == ProposalState::Voting && self.proposals[i].deadline
                    < now {
                    let ghost prev = self.proposals@;
                    let mut p = self.proposals.remove(i);
                    p.state = ProposalState::TimedOut;
                    self.proposals.insert(i, p);
                    proof {
                        assert(self.proposals@ =~= prev.update(
                            i as int,
                            Proposal { state: ProposalState::TimedOut, ..prev[i as int] },
                        ));
                        assert forall|a: int, b: int|
                            0 <= a < self.proposals@.len() && 0 <= b < self.proposals@.len() && a
                                != b && !(#[trigger] self.proposals@[a]).state.is_terminal() && !(
                            #[trigger] self.proposals@[b]).state.is_terminal() implies self.proposals@[a].task_id
                            != self.proposals@[b].task_id by {
                            assert(self.proposals@[a] == prev[a]);
                            assert(self.proposals@[b] == prev[b]);
                        }
                    }
                    Ok(ProposalState::TimedOut)
                } else {
                    Ok(self.proposals[i].state)
                }
            },
        }
    }

    /// Drops the live proposal for `task_id`, if one exists: it becomes
    /// `Rejected`, its single terminal transition. Used when the task is
    /// cancelled before its assignment commits.
    pub fn reject_live_for_task(&mut self, task_id: TaskId)
        requires
            old(self).wf(),
        ensures
            final(self).wf(),
            final(self).state_spec() == old(self).state_spec(),
            final(self).ballots_seq() == old(self).ballots_seq(),
            final(self).threshold_spec() == old(self).threshold_spec(),
            final(self).validator_count_spec() == old(self).validator_count_spec(),
            final(self).vote_window_spec() == old(self).vote_window_spec(),
            final(self).next_proposal_id_spec() == old(self).next_proposal_id_spec(),
            !has_live_proposal(final(self).proposals_seq(), task_id),
            final(self).proposals_seq().len() == old(self).proposals_seq().len(),
            forall|k: int|
                0 <= k < old(self).proposals_seq().len() ==> {
                    let p = old(self).proposals_seq()[k];
                    if p.task_id == task_id && !p.state.is_terminal() {
                        #[trigger] final(self).proposals_seq()[k] == Proposal {
                            state: ProposalState::Rejected,
                            ..p
                        }
                    } else {
                        final(self).proposals_seq()[k] == p
                    }
                },
    {
        let n = self.proposals.len();
        let mut i: usize = 0;
        while i < n
            invariant
                n == self.proposals@.len(),
                i <= n,
                self.wf(),
                self.state == old(self).state_spec(),
                self.ballots@ == old(self).ballots_seq(),
                self.threshold_permille == old(self).threshold_spec(),
                self.validator_count == old(self).validator_count_spec(),
                self.vote_window_ms == old(self).vote_window_spec(),
                self.next_proposal_id == old(self).next_proposal_id_spec(),
                self.proposals@.len() == old(self).proposals_seq().len(),
                forall|k: int|
                    0 <= k < i ==> {
                        let p = old(self).proposals_seq()[k];
                        if p.task_id == task_id && !p.state.is_terminal() {
                            #[trigger] self.proposals@[k] == Proposal {
                                state: ProposalState::Rejected,
                                ..p
                            }
                        } else {
                            self.proposals@[k] == p
                        }
                    },
                forall|k: int|
                    i <= k < n ==> #[trigger] self.proposals@[k] == old(self).proposals_seq()[k],
            decreases n - i,
        {
            let st = self.proposals[i].state;
            let terminal = st == ProposalState::Committed || st == ProposalState::Rejected || st
                == ProposalState::TimedOut;
            if self.proposals[i].task_id == task_id && !terminal {
                let ghost prev = self.proposals@;
                let mut p = self.proposals.remove(i);
                p.state = ProposalState::Rejected;
                self.proposals.insert(i, p);
                proof {
                    assert(forall|k: int|
                        0 <= k < prev.len() && k != i as int ==> #[trigger] self.proposals@[k]
                            == prev[k]);
                    assert forall|a: int, b: int|
                        0 <= a < self.proposals@.len() && 0 <= b < self.proposals@.len() && a != b
                            && !(#[trigger] self.proposals@[a]).state.is_terminal() && !(
                        #[trigger] self.proposals@[b]).state.is_terminal() implies self.proposals@[a].task_id
                        != self.proposals@[b].task_id by {
                        assert(self.proposals@[a] == prev[a]);
                        assert(self.proposals@[b] == prev[b]);
                    }
                }
            }
            i = i + 1;
        }
        proof {
            assert forall|k: int|
                0 <= k < self.proposals@.len() implies !((#[trigger] self.proposals@[k]).task_id
                == task_id && !self.proposals@[k].state.is_terminal()) by {
                let p = old(self).proposals_seq()[k];
                if p.task_id == task_id && !p.state.is_terminal() {
                    assert(self.proposals@[k].state == ProposalState::Rejected);
                }
            }
        }
    }

    /// Times out every proposal still `Voting` whose window closed before
    /// `now`; each becomes `TimedOut`, its single terminal transition.
    pub fn check_timeouts(&mut self, now: u64)
        requires
            old(self).wf(),
        ensures
            final(self).wf(),
            final(self).state_spec() == old(self).state_spec(),
            final(self).ballots_seq() == old(self).ballots_seq(),
            final(self).threshold_spec() == old(self).threshold_spec(),
            final(self).validator_count_spec() == old(self).validator_count_spec(),
            final(self).vote_window_spec() == old(self).vote_window_spec(),
            final(self).next_proposal_id_spec() == old(self).next_proposal_id_spec(),
            final(self).proposals_seq().len() == old(self).proposals_seq().len(),
            forall|k: int|
                0 <= k < old(self).proposals_seq().len() ==> {
                    let p = old(self).proposals_seq()[k];
                    if p.state == ProposalState::Voting && p.deadline < now {
                        #[trigger] final(self).proposals_seq()[k] == Proposal {
                            state: ProposalState::TimedOut,
                            ..p
                        }
                    } else {
                        final(self).proposals_seq()[k] == p
                    }
                },
    {
        let n = self.proposals.len();
        let mut i: usize = 0;
        while i < n
            invariant
                n == self.proposals@.len(),
                i <= n,
                self.wf(),
                self.state == old(self).state_spec(),
                self.ballots@ == old(self).ballots_seq(),
                self.threshold_permille == old(self).threshold_spec(),
                self.validator_count == old(self).validator_count_spec(),
                self.vote_window_ms == old(self).vote_window_spec(),
                self.next_proposal_id == old(self).next_proposal_id_spec(),
                self.proposals@.len() == old(self).proposals_seq().len(),
                forall|k: int|
                    0 <= k < i ==> {
                        let p = old(self).proposals_seq()[k];
                        if p.state == ProposalState::Voting && p.deadline < now {
                            #[trigger] self.proposals@[k] == Proposal {
                                state: ProposalState::TimedOut,
                                ..p
                            }
                        } else {
                            self.proposals@[k] == p
                        }
                    },
                forall|k: int|
                    i <= k < n ==> #[trigger] self.proposals@[k] == old(self).proposals_seq()[k],
            decreases n - i,
        {
            if self.proposals[i].state == ProposalState::Voting && self.proposals[i].deadline
                < now {
                let ghost prev = self.proposals@;
                let mut p = self.proposals.remove(i);
                p.state = ProposalState::TimedOut;
                self.proposals.insert(i, p);
                proof {
                    assert(forall|k: int|
                        0 <= k < prev.len() && k != i as int ==> #[trigger] self.proposals@[k]
                            == prev[k]);
                    assert forall|a: int, b: int|
                        0 <= a < self.proposals@.len() && 0 <= b < self.proposals@.len() && a != b
                            && !(#[trigger] self.proposals@[a]).state.is_terminal() && !(
                        #[trigger] self.proposals@[b]).state.is_terminal() implies self.proposals@[a].task_id
                        != self.proposals@[b].task_id by {
                        assert(self.proposals@[a] == prev[a]);
                        assert(self.proposals@[b] == prev[b]);
                    }
                }
            }
            i = i + 1;
        }
    }
}

/// At most one non-terminal proposal exists per task: two distinct live
/// proposals of a well-formed engine always concern distinct tasks.
pub proof fn lemma_one_live_proposal_per_task(e: &ConsensusEngine, i: int, j: int)
    requires
        e.wf(),
        0 <= i < e.proposals_seq().len(),
        0 <= j < e.proposals_seq().len(),
        i != j,
        !e.proposals_seq()[i].state.is_terminal(),
        !e.proposals_seq()[j].state.is_terminal(),
    ensures
        e.proposals_seq()[i].task_id != e.proposals_seq()[j].task_id,
{
}

/// Voting window granted to a proposal when none other is configured,
/// milliseconds.
pub const DEFAULT_VOTE_WINDOW_MS: u64 = 10000;

} // verus!
