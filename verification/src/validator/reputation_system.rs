//! Reputation scores of validators.
//!
//! Scores are integer points: a successful validation earns one point up to
//! the configured maximum; failed, missed, and malicious behaviour cost
//! two, one, and ten points, never below the configured minimum.

use crate::shared::error::ProtocolError;
use crate::shared::utils::{str_eq, timestamp_millis};
use vstd::pervasive::VecAdditionalExecFns;
use vstd::prelude::*;

verus! {

/// A validator's reputation record.
#[derive(Debug)]
pub struct ReputationScore {
    /// The validator the record is about.
    pub validator_id: String,
    /// Current score, in points.
    pub score: i64,
    /// How many validations succeeded.
    pub successful_validations: u64,
    /// How many validations failed.
    pub failed_validations: u64,
    /// When the record last changed, milliseconds.
    pub last_updated: u64,
}

/// Events that affect reputation.
#[derive(Clone, Copy, Debug, PartialEq, Eq, Structural)]
pub enum ReputationEvent {
    /// The validator validated correctly.
    SuccessfulValidation,
    /// The validator validated incorrectly.
    FailedValidation,
    /// The validator did not take part.
    MissedValidation,
    /// The validator acted maliciously.
    MaliciousBehavior,
}

/// The score after an event: one point earned per success, capped at
/// `max_score`; two, one, or ten points lost for failed, missed, or
/// malicious behaviour, floored at `min_score`.
pub open spec fn score_after(event: ReputationEvent, score: int, min_score: int, max_score: int) -> int {
    match event {
        ReputationEvent::SuccessfulValidation => if score + 1 > max_score {
            max_score
        } else {
            score + 1
        },
        ReputationEvent::FailedValidation => if score - 2 < min_score {
            min_score
        } else {
            score - 2
        },
        ReputationEvent::MissedValidation => if score - 1 < min_score {
            min_score
        } else {
            score - 1
        },
        ReputationEvent::MaliciousBehavior => if score - 10 < min_score {
            min_score
        } else {
            score - 10
        },
    }
}

/// No two records name the same validator.
pub open spec fn unique_validator_ids(s: Seq<ReputationScore>) -> bool {
    forall|i: int, j: int|
        0 <= i < s.len() && 0 <= j < s.len() && i != j ==> (#[trigger] s[i]).validator_id@ != (
        #[trigger] s[j]).validator_id@
}

/// Whether a record for the validator named `id` is present.
pub open spec fn has_validator(s: Seq<ReputationScore>, id: Seq<char>) -> bool {
    exists|i: int| 0 <= i < s.len() && (#[trigger] s[i]).validator_id@ == id
}

/// The index of the record for the validator named `id`.
pub open spec fn validator_idx(s: Seq<ReputationScore>, id: Seq<char>) -> int {
    choose|i: int| 0 <= i < s.len() && (#[trigger] s[i]).validator_id@ == id
}

/// The record for the validator named `id`.
pub open spec fn validator_at(s: Seq<ReputationScore>, id: Seq<char>) -> ReputationScore {
    s[validator_idx(s, id)]
}

/// The identifiers of the records whose score is at least `threshold`, in
/// record order.
pub open spec fn ids_above(s: Seq<ReputationScore>, threshold: i64) -> Seq<String> {
    s.filter(|r: ReputationScore| r.score >= threshold).map_values(
        |r: ReputationScore| r.validator_id,
    )
}

proof fn lemma_ids_above_push(s: Seq<ReputationScore>, x: ReputationScore, threshold: i64)
    ensures
        x.score >= threshold ==> ids_above(s.push(x), threshold) == ids_above(s, threshold).push(
            x.validator_id,
        ),
        x.score < threshold ==> ids_above(s.push(x), threshold) == ids_above(s, threshold),
{
    reveal_with_fuel(Seq::filter, 2);
    assert(s.push(x).drop_last() =~= s);
    let pred = |r: ReputationScore| r.score >= threshold;
    let f = |r: ReputationScore| r.validator_id;
    if pred(x) {
        assert(s.push(x).filter(pred) == s.filter(pred).push(x));
        assert(s.filter(pred).push(x).map_values(f) =~= s.filter(pred).map_values(f).push(
            x.validator_id,
        ));
    }
}

/// With unique ids, an index holding `id` is *the* index of `id`.
proof fn lemma_validator_idx_is(s: Seq<ReputationScore>, id: Seq<char>, i: int)
    requires
        unique_validator_ids(s),
        0 <= i < s.len(),
        s[i].validator_id@ == id,
    ensures
        has_validator(s, id),
        validator_idx(s, id) == i,
{
    assert(has_validator(s, id));
    let j = validator_idx(s, id);
    assert(0 <= j < s.len() && s[j].validator_id@ == id);
}

/// Manages validator reputation scores.
pub struct ReputationSystem {
    scores: Vec<ReputationScore>,
    base_score: i64,
    max_score: i64,
    min_score: i64,
}

impl ReputationSystem {
    /// The reputation records, in registration order.
    pub closed spec fn scores_seq(self) -> Seq<ReputationScore> {
        self.scores@
    }

    /// The score a newly registered validator starts with.
    pub closed spec fn base_spec(self) -> i64 {
        self.base_score
    }

    /// The lowest score any event can leave.
    pub closed spec fn min_spec(self) -> i64 {
        self.min_score
    }

    /// The highest score any event can reach.
    pub closed spec fn max_spec(self) -> i64 {
        self.max_score
    }

    /// Well-formedness: validator ids are unique.
    pub open spec fn wf(self) -> bool {
        unique_validator_ids(self.scores_seq())
    }

    /// Creates a reputation system with the given base, floor, and ceiling.
    pub fn new(base_score: i64, min_score: i64, max_score: i64) -> (r: Self)
        ensures
            r.wf(),
            r.scores_seq() == Seq::<ReputationScore>::empty(),
            r.base_spec() == base_score,
            r.min_spec() == min_score,
            r.max_spec() == max_score,
    {
        ReputationSystem { scores: Vec::new(), base_score, max_score, min_score }
    }

    /// The index of the record for the validator named `validator_id`.
    fn find_validator(&self, validator_id: &str) -> (r: Option<usize>)
        ensures
            match r {
                Some(i) => i < self.scores_seq().len() && self.scores_seq()[i as int].validator_id@
                    == validator_id@,
                None => !has_validator(self.scores_seq(), validator_id@),
            },
    {
        let n = self.scores.len();
        for i in 0..n
            invariant
                n == self.scores@.len(),
                forall|k: int| 0 <= k < i ==> (#[trigger] self.scores@[k]).validator_id@ != validator_id@,
        {
            if str_eq(self.scores[i].validator_id.as_str(), validator_id) {
                return Some(i);
            }
        }
        None
    }

    /// Registers a validator with the base score and no history; refused
    /// with `AlreadyRegistered` when the validator is already known.
    pub fn register_validator(&mut self, validator_id: String) -> (r: Result<(), ProtocolError>)
        requires
            old(self).wf(),
        ensures
            final(self).wf(),
            final(self).base_spec() == old(self).base_spec(),
            final(self).min_spec() == old(self).min_spec(),
            final(self).max_spec() == old(self).max_spec(),
            has_validator(old(self).scores_seq(), validator_id@) ==> r == Err::<(), ProtocolError>(
                ProtocolError::AlreadyRegistered,
            ) && *final(self) == *old(self),
            !has_validator(old(self).scores_seq(), validator_id@) ==> {
                &&& r == Ok::<(), ProtocolError>(())
                &&& final(self).scores_seq().len() == old(self).scores_seq().len() + 1
                &&& final(self).scores_seq().subrange(0, old(self).scores_seq().len() as int)
                    == old(self).scores_seq()
                &&& {
                    let rec = final(self).scores_seq().last();
                    &&& rec.validator_id == validator_id
                    &&& rec.score == old(self).base_spec()
                    &&& rec.successful_validations == 0
                    &&& rec.failed_validations == 0
                }
            },
    {
        if self.find_validator(validator_id.as_str()).is_some() {
            return Err(ProtocolError::AlreadyRegistered);
        }
        let ghost prev = self.scores@;
        self.scores.push(
            ReputationScore {
                validator_id,
                score: self.base_score,
                successful_validations: 0,
                failed_validations: 0,
                last_updated: timestamp_millis(),
            },
        );
        proof {
            assert(self.scores@.subrange(0, prev.len() as int) =~= prev);
        }
        Ok(())
    }

    /// Applies a reputation event to a validator's record: the score moves
    /// by the event's worth, clamped into the configured range, and the
    /// success and failure tallies grow with their events (saturating).
    /// Fails with `NotFound` when the validator is unknown.
    pub fn update_reputation(&mut self, validator_id: &str, event: ReputationEvent) -> (r: Result<
        (),
        ProtocolError,
    >)
        requires
            old(self).wf(),
        ensures
            final(self).wf(),
            final(self).base_spec() == old(self).base_spec(),
            final(self).min_spec() == old(self).min_spec(),
            final(self).max_spec() == old(self).max_spec(),
            !has_validator(old(self).scores_seq(), validator_id@) ==> r == Err::<(), ProtocolError>(
                ProtocolError::NotFound,
            ) && *final(self) == *old(self),
            has_validator(old(self).scores_seq(), validator_id@) ==> {
                let vi = validator_idx(old(self).scores_seq(), validator_id@);
                let prev = old(self).scores_seq()[vi];
                &&& r == Ok::<(), ProtocolError>(())
                &&& final(self).scores_seq().len() == old(self).scores_seq().len()
                &&& (forall|k: int|
                    0 <= k < old(self).scores_seq().len() && k != vi
                        ==> #[trigger] final(self).scores_seq()[k] == old(self).scores_seq()[k])
                &&& {
                    let cur = final(self).scores_seq()[vi];
                    &&& cur.validator_id == prev.validator_id
                    &&& cur.score as int == score_after(
                        event,
                        prev.score as int,
                        old(self).min_spec() as int,
                        old(self).max_spec() as int,
                    )
                    &&& cur.successful_validations == (if event
                        == ReputationEvent::SuccessfulValidation && prev.successful_validations
                        < u64::MAX {
                        (prev.successful_validations + 1) as u64
                    } else {
                        prev.successful_validations
                    })
                    &&& cur.failed_validations == (if event == ReputationEvent::FailedValidation
                        && prev.failed_validations < u64::MAX {
                        (prev.failed_validations + 1) as u64
                    } else {
                        prev.failed_validations
                    })
                }
            },
    {
        let found = self.find_validator(validator_id);
        match found {
            None => Err(ProtocolError::NotFound),
            Some(i) => {
                proof {
                    lemma_validator_idx_is(self.scores@, validator_id@, i as int);
                }
                let ghost prev = self.scores@;
                let mut rec = self.scores.remove(i);
                match event {
                    ReputationEvent::SuccessfulValidation => {
                        if rec.successful_validations < u64::MAX {
                            rec.successful_validations = rec.successful_validations + 1;
                        }
                        let bumped = if rec.score == i64::MAX {
                            i64::MAX
                        } else {
                            rec.score + 1
                        };
                        rec.score = if bumped > self.max_score {
                            self.max_score
                        } else {
                            bumped
                        };
                    },
                    ReputationEvent::FailedValidation => {
                        if rec.failed_validations < u64::MAX {
                            rec.failed_validations = rec.failed_validations + 1;
                        }
                        rec.score = Self::lower(rec.score, 2, self.min_score);
                    },
                    ReputationEvent::MissedValidation => {
                        rec.score = Self::lower(rec.score, 1, self.min_score);
                    },
                    ReputationEvent::MaliciousBehavior => {
                        rec.score = Self::lower(rec.score, 10, self.min_score);
                    },
                }
                rec.last_updated = timestamp_millis();
                self.scores.insert(i, rec);
                Ok(())
            },
        }
    }

    /// `score - loss`, floored at `floor`.
    fn lower(score: i64, loss: i64, floor: i64) -> (r: i64)
        requires
            loss > 0,
        ensures
            r as int == (if score - loss < floor {
                floor as int
            } else {
                score - loss
            }),
    {
        if score < i64::MIN + loss {
            floor
        } else if score - loss < floor {
            floor
        } else {
            score - loss
        }
    }

    /// A validator's reputation record, if one is registered.
    pub fn get_reputation(&self, validator_id: &str) -> (r: Option<ReputationScore>)
        requires
            self.wf(),
        ensures
            r is Some <==> has_validator(self.scores_seq(), validator_id@),
            r is Some ==> r == Some(validator_at(self.scores_seq(), validator_id@)),
    {
        let found = self.find_validator(validator_id);
        match found {
            None => None,
            Some(i) => {
                proof {
                    lemma_validator_idx_is(self.scores@, validator_id@, i as int);
                }
                let rec = &self.scores[i];
                Some(
                    ReputationScore {
                        validator_id: rec.validator_id.clone(),
                        score: rec.score,
                        successful_validations: rec.successful_validations,
                        failed_validations: rec.failed_validations,
                        last_updated: rec.last_updated,
                    },
                )
            },
        }
    }

    /// The validators whose score is at least `threshold`, in registration
    /// order.
    pub fn get_validators_above_threshold(&self, threshold: i64) -> (r: Vec<String>)
        ensures
            r@ == ids_above(self.scores_seq(), threshold),
    {
        let n = self.scores.len();
        let mut out: Vec<String> = Vec::new();
        for i in 0..n
            invariant
                n == self.scores@.len(),
                out@ == ids_above(self.scores@.subrange(0, i as int), threshold),
        {
            proof {
                assert(self.scores@.subrange(0, i + 1) =~= self.scores@.subrange(0, i as int).push(
                    self.scores@[i as int],
                ));
                lemma_ids_above_push(
                    self.scores@.subrange(0, i as int),
                    self.scores@[i as int],
                    threshold,
                );
            }
            if self.scores[i].score >= threshold {
                out.push(self.scores[i].validator_id.clone());
            }
        }
        proof {
            assert(self.scores@.subrange(0, n as int) =~= self.scores@);
        }
        out
    }

    /// Whether a validator is registered with a score of at least
    /// `min_required_score`.
    pub fn is_validator_eligible(&self, validator_id: &str, min_required_score: i64) -> (r: bool)
        requires
            self.wf(),
        ensures
            r == (has_validator(self.scores_seq(), validator_id@) && validator_at(
                self.scores_seq(),
                validator_id@,
            ).score >= min_required_score),
    {
        let found = self.find_validator(validator_id);
        match found {
            None => false,
            Some(i) => {
                proof {
                    lemma_validator_idx_is(self.scores@, validator_id@, i as int);
                }
                self.scores[i].score >= min_required_score
            },
        }
    }
}

} // verus!
