//! Optimistic aggregation of the validators' votes on blocks.
//!
//! Votes arrive one by one. Their signatures are not checked when they arrive:
//! they wait, unverified, until their authors carry a quorum of voting power or
//! until `verification_frequency` of them wait. Then all waiting signatures are
//! combined and the combination is checked once; only when it fails is each
//! signature checked on its own, and the bad ones are dropped. A block whose
//! checked votes reach a quorum is remembered among the recently aggregated
//! ones, and later votes for it are answered `AggregatedBefore`.
//!
//! Combining and checking signatures is cryptography that this library leaves
//! to its caller: a vote is handled in up to three steps. `verify` records the
//! vote and either answers or asks for the waiting signatures to be combined;
//! `complete_aggregation` takes the combination and whether it checked out, and
//! either answers or asks for each signature to be checked; and
//! `complete_individual_checks` takes the authors whose signatures checked out
//! with their combination, and answers.

use crate::lru_cache::{
    keys_after_put,
    keys_after_puts,
    lemma_put_holds_only,
    lemma_put_key_survives,
    lemma_put_keeps_keys_distinct,
    lru_capacity,
    lru_contains,
    lru_keys,
    lru_new,
    lru_put,
};
use crate::validator_verifier::{
    lemma_listed_voting_power_of_distinct,
    map_keys,
    voting_power,
    ValidatorVerifier,
    VerifyError,
};
use lru::LruCache;
use std::collections::HashMap;
use std::sync::Arc;
use vstd::prelude::*;

verus! {

broadcast use vstd::std_specs::hash::group_hash_axioms;

/// How many recently aggregated blocks are remembered.
pub const RECENT_AGGREGATED_BLOCKS: usize = 50;

/// The answer to a vote.
pub enum VerificationResult<VoteType, A> {
    /// The block's checked votes reach a quorum: they are handed out, with the
    /// combined signature that was checked first.
    Verified((HashMap<u64, VoteType>, A)),
    /// The block's checked votes do not reach a quorum yet.
    NotEnoughVotes,
    /// The block is among the recently aggregated ones; the vote is ignored.
    AggregatedBefore,
    /// The author's vote on the block has already been checked; the vote is ignored.
    DuplicateVote,
}

/// What a step of handling a vote ends with.
pub enum NextStep<VoteType, A> {
    /// The vote is answered.
    Finished(VerificationResult<VoteType, A>),
    /// The signatures of these waiting authors, together with the block's
    /// stored combined signature if any, are to be combined, and the
    /// combination checked; `complete_aggregation` takes the outcome.
    AggregateSignatures(Vec<u64>),
    /// The combined signature did not check out: the signature of each of these
    /// waiting authors is to be checked on its own, and those that check out
    /// combined with the block's stored combined signature;
    /// `complete_individual_checks` takes the outcome.
    VerifyIndividually(Vec<u64>),
}

/// The votes on one block, as plain values.
pub struct VoteTally<VoteType, S, A> {
    /// The votes, with their signatures, that have not been checked yet.
    pub unverified: Map<u64, (S, VoteType)>,
    /// The votes whose signatures have been checked.
    pub verified: Map<u64, VoteType>,
    /// The combination of the checked signatures, once there is one.
    pub aggregated_signature: Option<A>,
    /// When the first vote on the block arrived.
    pub first_vote_timestamp_usecs: u64,
    /// When the block's record was made.
    pub last_vote_timestamp_usecs: u64,
}

/// The record of a block on which no vote has arrived, made at `now_usecs`.
pub open spec fn fresh_tally<VoteType, S, A>(now_usecs: u64) -> VoteTally<VoteType, S, A> {
    VoteTally {
        unverified: Map::empty(),
        verified: Map::empty(),
        aggregated_signature: None,
        first_vote_timestamp_usecs: now_usecs,
        last_vote_timestamp_usecs: now_usecs,
    }
}

/// The record of `block` in `tallies`, or a fresh one made at `now_usecs`.
pub open spec fn tally_or_fresh<VoteType, S, A>(
    tallies: Map<u64, VoteTally<VoteType, S, A>>,
    block: u64,
    now_usecs: u64,
) -> VoteTally<VoteType, S, A> {
    if tallies.contains_key(block) {
        tallies[block]
    } else {
        fresh_tally(now_usecs)
    }
}

/// `t` with `author`'s vote waiting, in place of any vote of theirs that waited.
pub open spec fn with_waiting_vote<VoteType, S, A>(
    t: VoteTally<VoteType, S, A>,
    author: u64,
    signature: S,
    vote: VoteType,
) -> VoteTally<VoteType, S, A> {
    VoteTally {
        unverified: t.unverified.insert(author, (signature, vote)),
        verified: t.verified,
        aggregated_signature: t.aggregated_signature,
        first_vote_timestamp_usecs: t.first_vote_timestamp_usecs,
        last_vote_timestamp_usecs: t.last_vote_timestamp_usecs,
    }
}

/// Everyone who has voted on the block, checked or not.
pub open spec fn voters<VoteType, S, A>(t: VoteTally<VoteType, S, A>) -> Set<u64> {
    t.verified.dom().union(t.unverified.dom())
}

/// The votes of `m`, without their signatures.
pub open spec fn votes_of<VoteType, S>(m: Map<u64, (S, VoteType)>) -> Map<u64, VoteType> {
    m.map_values(|p: (S, VoteType)| p.1)
}

/// Whether the waiting signatures of `t` are due to be combined: when all voters
/// together carry a quorum, or when `frequency` votes wait.
pub open spec fn aggregation_due<VoteType, S, A>(
    powers: Map<u64, u64>,
    quorum: u128,
    frequency: u64,
    t: VoteTally<VoteType, S, A>,
) -> bool {
    voting_power(powers, voters(t)) >= quorum || t.unverified.len() >= frequency
}

/// `t` after the waiting votes of `authors` are checked in, the others dropped,
/// and `aggregated` stored as the combined signature.
pub open spec fn settled<VoteType, S, A>(
    t: VoteTally<VoteType, S, A>,
    authors: Set<u64>,
    aggregated: Option<A>,
) -> VoteTally<VoteType, S, A> {
    VoteTally {
        unverified: Map::empty(),
        verified: t.verified.union_prefer_right(votes_of(t.unverified.restrict(authors))),
        aggregated_signature: aggregated,
        first_vote_timestamp_usecs: t.first_vote_timestamp_usecs,
        last_vote_timestamp_usecs: t.last_vote_timestamp_usecs,
    }
}

/// The record of one block is consistent: every voter is a validator, no
/// author's vote both waits and is checked, and checked votes come with a
/// stored combined signature.
pub open spec fn tally_wf<VoteType, S, A>(
    powers: Map<u64, u64>,
    t: VoteTally<VoteType, S, A>,
) -> bool {
    &&& forall|a: u64| #[trigger] t.verified.contains_key(a) ==> powers.contains_key(a)
    &&& forall|a: u64| #[trigger] t.unverified.contains_key(a) ==> powers.contains_key(a)
    &&& forall|a: u64| t.verified.contains_key(a) ==> !(#[trigger] t.unverified.contains_key(a))
    &&& forall|a: u64| #[trigger] t.verified.contains_key(a) ==> t.aggregated_signature is Some
}

/// The votes gathered on one block.
#[derive(Debug)]
struct SignatureData<VoteType, S, A> {
    unverified_votes: HashMap<u64, (S, VoteType)>,
    verified_votes: HashMap<u64, VoteType>,
    aggregated_signature: Option<A>,
    first_vote_timestamp_usecs: u64,
    last_vote_timestamp_usecs: u64,
}

impl<VoteType, S, A> SignatureData<VoteType, S, A> {
    /// The record as plain values.
    closed spec fn tally(&self) -> VoteTally<VoteType, S, A> {
        VoteTally {
            unverified: self.unverified_votes@,
            verified: self.verified_votes@,
            aggregated_signature: self.aggregated_signature,
            first_vote_timestamp_usecs: self.first_vote_timestamp_usecs,
            last_vote_timestamp_usecs: self.last_vote_timestamp_usecs,
        }
    }

    fn new(now_usecs: u64) -> (d: Self)
        ensures
            d.tally() == fresh_tally::<VoteType, S, A>(now_usecs),
    {
        SignatureData {
            unverified_votes: HashMap::new(),
            verified_votes: HashMap::new(),
            aggregated_signature: None,
            first_vote_timestamp_usecs: now_usecs,
            last_vote_timestamp_usecs: now_usecs,
        }
    }
}

/// Moves the waiting votes of `authors` to the checked ones.
fn move_to_verified<VoteType, S>(
    unverified: &mut HashMap<u64, (S, VoteType)>,
    verified: &mut HashMap<u64, VoteType>,
    authors: &Vec<u64>,
)
    requires
        authors@.no_duplicates(),
        forall|i: int| 0 <= i < authors@.len() ==> old(unverified)@.contains_key(#[trigger] authors@[i]),
    ensures
        final(unverified)@ == old(unverified)@.remove_keys(authors@.to_set()),
        final(verified)@ == old(verified)@.union_prefer_right(
            votes_of(old(unverified)@.restrict(authors@.to_set())),
        ),
{
    let ghost u0 = unverified@;
    let ghost v0 = verified@;
    let n = authors.len();
    for i in 0..n
        invariant
            n == authors@.len(),
            authors@.no_duplicates(),
            forall|j: int| 0 <= j < authors@.len() ==> u0.contains_key(#[trigger] authors@[j]),
            unverified@ == u0.remove_keys(authors@.take(i as int).to_set()),
            verified@ == v0.union_prefer_right(votes_of(u0.restrict(authors@.take(i as int).to_set()))),
    {
        let a = authors[i];
        proof {
            assert(authors@.take(i + 1) =~= authors@.take(i as int).push(a));
            assert(!authors@.take(i as int).to_set().contains(a)) by {
                if authors@.take(i as int).contains(a) {
                    let j = choose|j: int| 0 <= j < i && authors@.take(i as int)[j] == a;
                    assert(authors@[j] == authors@[i as int]);
                }
            }
            authors@.take(i as int).lemma_push_to_set_commute(a);
            assert(u0.contains_key(authors@[i as int]));
        }
        match unverified.remove(&a) {
            Some(pair) => {
                let (_signature, vote) = pair;
                verified.insert(a, vote);
            },
            None => {},
        }
        proof {
            let s1 = authors@.take(i + 1).to_set();
            assert(unverified@ =~= u0.remove_keys(s1));
            assert(verified@ =~= v0.union_prefer_right(votes_of(u0.restrict(s1))));
        }
    }
    proof {
        assert(authors@.take(n as int) =~= authors@);
    }
}

/// A block whose votes were answered `Verified` stays among the remembered
/// blocks, so that `verify` answers votes on it `AggregatedBefore`, through any
/// `RECENT_AGGREGATED_BLOCKS - 1` further `Verified` answers, whatever blocks
/// they are for: each such answer puts its block into the remembered ones, and
/// nothing else changes them.
pub proof fn law_aggregated_block_stays_remembered(
    recent: Seq<u64>,
    block: u64,
    later_blocks: Seq<u64>,
)
    requires
        recent.no_duplicates(),
        recent.len() <= RECENT_AGGREGATED_BLOCKS,
        later_blocks.len() < RECENT_AGGREGATED_BLOCKS,
    ensures
        keys_after_puts(
            keys_after_put(recent, RECENT_AGGREGATED_BLOCKS as nat, block),
            RECENT_AGGREGATED_BLOCKS as nat,
            later_blocks,
        ).contains(block),
{
    lemma_put_key_survives(recent, RECENT_AGGREGATED_BLOCKS as nat, block, later_blocks);
}

/// More voters never carry less voting power: adding `more` to `authors` keeps
/// or raises their voting power.
pub proof fn law_more_voters_carry_no_less_power(
    powers: Map<u64, u64>,
    authors: Set<u64>,
    more: Set<u64>,
)
    requires
        authors.finite(),
        more.finite(),
    ensures
        voting_power(powers, authors) <= voting_power(powers, authors.union(more)),
    decreases more.len(),
{
    let f = |acc: int, a: u64| acc + powers[a];
    assert(vstd::set::fold::is_fun_commutative(f));
    if more.len() == 0 {
        assert(more =~= Set::<u64>::empty());
        assert(authors.union(more) =~= authors);
    } else {
        let x = more.choose();
        assert(more.contains(x));
        let rest = more.remove(x);
        law_more_voters_carry_no_less_power(powers, authors, rest);
        let base = authors.union(rest);
        assert(base.finite());
        if base.contains(x) {
            assert(authors.union(more) =~= base);
        } else {
            assert(authors.union(more) =~= base.insert(x));
            vstd::set::fold::lemma_fold_insert(base, 0int, f, x);
        }
    }
}

/// Whether the waiting signatures are due depends on every voter on the block,
/// checked or waiting: they are due exactly when all voters together carry a
/// quorum, or when at least `frequency` votes wait; checked votes do not count
/// toward `frequency`.
pub proof fn law_aggregation_due_counts_every_voter<VoteType, S, A>(
    powers: Map<u64, u64>,
    quorum: u128,
    frequency: u64,
    t: VoteTally<VoteType, S, A>,
)
    ensures
        aggregation_due(powers, quorum, frequency, t) == (voting_power(
            powers,
            t.verified.dom().union(t.unverified.dom()),
        ) >= quorum || t.unverified.dom().len() >= frequency),
{
}

/// Checked votes count toward the quorum: once a block's checked voters alone
/// carry a quorum, the waiting signatures are due whatever waits, and adding a
/// waiting vote never makes them cease to be due.
pub proof fn law_checked_voters_make_aggregation_due<VoteType, S, A>(
    powers: Map<u64, u64>,
    quorum: u128,
    frequency: u64,
    t: VoteTally<VoteType, S, A>,
    author: u64,
    signature: S,
    vote: VoteType,
)
    requires
        t.verified.dom().finite(),
        t.unverified.dom().finite(),
    ensures
        voting_power(powers, t.verified.dom()) >= quorum ==> aggregation_due(
            powers,
            quorum,
            frequency,
            t,
        ),
        aggregation_due(powers, quorum, frequency, t) && !t.unverified.contains_key(author)
            ==> aggregation_due(
            powers,
            quorum,
            frequency,
            with_waiting_vote(t, author, signature, vote),
        ),
{
    law_more_voters_carry_no_less_power(powers, t.verified.dom(), t.unverified.dom());
    let t2 = with_waiting_vote(t, author, signature, vote);
    let before = t.verified.dom().union(t.unverified.dom());
    let after = t2.verified.dom().union(t2.unverified.dom());
    assert(after =~= before.union(set![author]));
    law_more_voters_carry_no_less_power(powers, before, set![author]);
    if !t.unverified.contains_key(author) {
        assert(t2.unverified.dom() =~= t.unverified.dom().insert(author));
        assert(t2.unverified.dom().len() == t.unverified.dom().len() + 1);
    }
}

/// Settling a block's waiting votes never drops or changes a checked vote: the
/// checked votes afterwards are those before, together with the waiting votes
/// of the authors whose signatures checked out, each as it was cast.
pub proof fn law_checked_votes_are_kept<VoteType, S, A>(
    powers: Map<u64, u64>,
    t: VoteTally<VoteType, S, A>,
    authors: Set<u64>,
    aggregated: Option<A>,
)
    requires
        tally_wf(powers, t),
    ensures
        t.verified.submap_of(settled(t, authors, aggregated).verified),
        settled(t, authors, aggregated).verified.dom() == t.verified.dom() + t.unverified.dom().intersect(authors),
        forall|a: u64|
            #![trigger settled(t, authors, aggregated).verified[a]]
            authors.contains(a) && t.unverified.contains_key(a) ==> settled(
                t,
                authors,
                aggregated,
            ).verified[a] == t.unverified[a].1,
{
    let v = settled(t, authors, aggregated).verified;
    assert forall|a: u64| #[trigger] t.verified.contains_key(a) implies v.contains_key(a) && v[a]
        == t.verified[a] by {
        assert(!t.unverified.contains_key(a));
    }
    assert(v.dom() =~= t.verified.dom() + t.unverified.dom().intersect(authors));
}

/// The pairs of `block` with each of `authors`.
pub open spec fn signed_by(block: u64, authors: Set<u64>) -> Set<(u64, u64)> {
    Set::new(|p: (u64, u64)| p.0 == block && authors.contains(p.1))
}

/// The step of handling a vote that the verifier waits for.
#[derive(Debug)]
pub enum StepInProgress<A> {
    /// The signatures of `authors`, the votes waiting on `block`, are to be
    /// combined and the combination checked.
    Aggregation { block: u64, authors: Vec<u64> },
    /// The combination `aggregated_signature` of the signatures of `authors`,
    /// the votes waiting on `block`, did not check out; each signature is to be
    /// checked on its own.
    IndividualChecks { block: u64, authors: Vec<u64>, aggregated_signature: A },
}

impl<A> StepInProgress<A> {
    /// The block whose votes the step is about.
    pub open spec fn block_of(&self) -> u64 {
        match self {
            StepInProgress::Aggregation { block, .. } => *block,
            StepInProgress::IndividualChecks { block, .. } => *block,
        }
    }

    /// The authors whose waiting votes the step is about.
    pub open spec fn authors_of(&self) -> Seq<u64> {
        match self {
            StepInProgress::Aggregation { authors, .. } => authors@,
            StepInProgress::IndividualChecks { authors, .. } => authors@,
        }
    }
}

/// Gathers votes on blocks and aggregates their signatures optimistically.
pub struct OptimisticValidatorVerifier<VoteType, S, A> {
    validator_verifier: Arc<ValidatorVerifier>,
    vote_data: HashMap<u64, SignatureData<VoteType, S, A>>,
    recent_aggregated_blocks: LruCache<u64, ()>,
    verification_frequency: u64,
    in_progress: Option<StepInProgress<A>>,
    accepted: Ghost<Set<(u64, u64)>>,
}

impl<VoteType, S, A> OptimisticValidatorVerifier<VoteType, S, A> {
    /// The validator set that votes are counted against.
    pub closed spec fn validators(&self) -> ValidatorVerifier {
        *self.validator_verifier
    }

    /// The record of each block on which votes arrived.
    pub closed spec fn tallies(&self) -> Map<u64, VoteTally<VoteType, S, A>> {
        self.vote_data@.map_values(|d: SignatureData<VoteType, S, A>| d.tally())
    }

    /// The recently aggregated blocks, from the least to the most recent.
    pub closed spec fn recent_blocks(&self) -> Seq<u64> {
        lru_keys(self.recent_aggregated_blocks)
    }

    /// How many blocks are remembered at most.
    pub closed spec fn recent_capacity(&self) -> nat {
        lru_capacity(self.recent_aggregated_blocks)
    }

    /// How many waiting votes make their signatures due to be combined.
    pub closed spec fn frequency(&self) -> u64 {
        self.verification_frequency
    }

    /// The step of handling a vote that the verifier waits for, if any.
    pub closed spec fn step_in_progress(&self) -> Option<StepInProgress<A>> {
        self.in_progress
    }

    /// The pairs `(block, author)` whose signature on the block the caller has
    /// reported to check out, alone or inside a combined signature that checked
    /// out.
    pub closed spec fn accepted_signatures(&self) -> Set<(u64, u64)> {
        self.accepted@
    }

    /// The state is consistent: the records are consistent; every checked vote's
    /// signature was reported to check out; at most
    /// `RECENT_AGGREGATED_BLOCKS` distinct blocks are remembered, each with a
    /// record whose checked votes carry a quorum; and a step in progress is about
    /// exactly the waiting votes of a block that is not remembered.
    pub open spec fn wf(&self) -> bool {
        &&& self.recent_capacity() == RECENT_AGGREGATED_BLOCKS
        &&& self.recent_blocks().len() <= RECENT_AGGREGATED_BLOCKS
        &&& self.recent_blocks().no_duplicates()
        &&& forall|b: u64| #[trigger]
            self.tallies().contains_key(b) ==> tally_wf(
                self.validators().powers(),
                self.tallies()[b],
            )
        &&& forall|b: u64| #[trigger]
            self.recent_blocks().contains(b) ==> {
                &&& self.tallies().contains_key(b)
                &&& voting_power(self.validators().powers(), self.tallies()[b].verified.dom())
                    >= self.validators().quorum()
            }
        &&& forall|b: u64, a: u64|
            #![trigger self.tallies()[b].verified.contains_key(a)]
            self.tallies().contains_key(b) && self.tallies()[b].verified.contains_key(a)
                ==> self.accepted_signatures().contains((b, a))
        &&& self.step_in_progress() matches Some(p) ==> {
            &&& self.tallies().contains_key(p.block_of())
            &&& !self.recent_blocks().contains(p.block_of())
            &&& p.authors_of().no_duplicates()
            &&& p.authors_of().to_set() == self.tallies()[p.block_of()].unverified.dom()
        }
    }

    /// `next` is `self` after a step of handling a vote on `block`: only the
    /// record of `block`, the remembered blocks and the step in progress can
    /// differ.
    pub open spec fn same_elsewhere(&self, next: Self, block: u64) -> bool {
        &&& next.validators() == self.validators()
        &&& next.frequency() == self.frequency()
        &&& next.recent_capacity() == self.recent_capacity()
        &&& next.tallies().contains_key(block)
        &&& next.tallies().remove(block) == self.tallies().remove(block)
    }

    /// The two states agree on everything that the contracts speak of.
    pub open spec fn same_state(&self, other: Self) -> bool {
        &&& self.validators() == other.validators()
        &&& self.tallies() == other.tallies()
        &&& self.recent_blocks() == other.recent_blocks()
        &&& self.recent_capacity() == other.recent_capacity()
        &&& self.frequency() == other.frequency()
        &&& self.step_in_progress() == other.step_in_progress()
        &&& self.accepted_signatures() == other.accepted_signatures()
    }
}

impl<VoteType: Clone, S, A: Clone> OptimisticValidatorVerifier<VoteType, S, A> {
    /// A verifier that counts votes against `validator_verifier` and combines
    /// the waiting signatures once `verification_frequency` of them wait; it has
    /// no votes, remembers no block and waits for no step.
    pub fn new(validator_verifier: Arc<ValidatorVerifier>, verification_frequency: u64) -> (v: Self)
        ensures
            v.wf(),
            v.validators() == *validator_verifier,
            v.tallies() == Map::<u64, VoteTally<VoteType, S, A>>::empty(),
            v.recent_blocks() == Seq::<u64>::empty(),
            v.frequency() == verification_frequency,
            v.step_in_progress() is None,
            v.accepted_signatures() == Set::<(u64, u64)>::empty(),
    {
        let v = OptimisticValidatorVerifier {
            validator_verifier,
            vote_data: HashMap::new(),
            recent_aggregated_blocks: lru_new(RECENT_AGGREGATED_BLOCKS),
            verification_frequency,
            in_progress: None,
            accepted: Ghost(Set::empty()),
        };
        assert(v.tallies() =~= Map::<u64, VoteTally<VoteType, S, A>>::empty());
        v
    }

    /// Whether votes on `block` have been recorded.
    pub fn has_votes_on(&self, block: u64) -> (has: bool)
        ensures
            has == self.tallies().contains_key(block),
    {
        self.vote_data.contains_key(&block)
    }

    /// Whether the verifier waits for the combination of the waiting signatures
    /// on `block`.
    pub fn awaits_aggregation(&self, block: u64) -> (awaits: bool)
        ensures
            awaits == (self.step_in_progress() matches Some(
                StepInProgress::Aggregation { block: b, .. },
            ) && b == block),
    {
        match &self.in_progress {
            Some(StepInProgress::Aggregation { block: b, .. }) => *b == block,
            _ => false,
        }
    }

    /// Whether the verifier waits for the waiting signatures on `block` to be
    /// checked one by one.
    pub fn awaits_individual_checks(&self, block: u64) -> (awaits: bool)
        ensures
            awaits == (self.step_in_progress() matches Some(
                StepInProgress::IndividualChecks { block: b, .. },
            ) && b == block),
    {
        match &self.in_progress {
            Some(StepInProgress::IndividualChecks { block: b, .. }) => *b == block,
            _ => false,
        }
    }

    /// The combined signature stored for `block`, if any.
    pub fn stored_aggregated_signature(&self, block: u64) -> (a: Option<&A>)
        ensures
            match a {
                Some(x) => self.tallies().contains_key(block)
                    && self.tallies()[block].aggregated_signature == Some(*x),
                None => !self.tallies().contains_key(block)
                    || self.tallies()[block].aggregated_signature is None,
            },
    {
        match self.vote_data.get(&block) {
            Some(d) => match &d.aggregated_signature {
                Some(x) => Some(x),
                None => None,
            },
            None => None,
        }
    }

    /// The signature of `author`'s waiting vote on `block`, if there is one.
    pub fn waiting_signature(&self, block: u64, author: u64) -> (s: Option<&S>)
        ensures
            match s {
                Some(x) => self.tallies().contains_key(block)
                    && self.tallies()[block].unverified.contains_key(author)
                    && self.tallies()[block].unverified[author].0 == *x,
                None => !(self.tallies().contains_key(block)
                    && self.tallies()[block].unverified.contains_key(author)),
            },
    {
        match self.vote_data.get(&block) {
            Some(d) => match d.unverified_votes.get(&author) {
                Some(pair) => Some(&pair.0),
                None => None,
            },
            None => None,
        }
    }

    /// Whether `authors`, all of them validators and none listed twice, carry a
    /// quorum of voting power.
    fn reaches_quorum(&self, authors: &Vec<u64>) -> (reached: bool)
        requires
            authors@.no_duplicates(),
            forall|i: int|
                0 <= i < authors@.len() ==> self.validators().powers().contains_key(
                    #[trigger] authors@[i],
                ),
        ensures
            reached == (voting_power(self.validators().powers(), authors@.to_set())
                >= self.validators().quorum()),
    {
        let checked = self.validator_verifier.check_voting_power(authors);
        proof {
            lemma_listed_voting_power_of_distinct(self.validators().powers(), authors@);
        }
        checked.is_ok()
    }

    /// Records `vote`, signed with `signature`, by `author` on `block`, at time
    /// `now_usecs`. A block among the recently aggregated ones answers
    /// `AggregatedBefore`; an author outside the validator set is refused with
    /// `UnknownAuthor`; an author whose vote on the block has been checked
    /// answers `DuplicateVote`; all three leave the state as it was. Otherwise
    /// the vote waits, replacing any waiting vote of the same author, any step
    /// that was in progress is given up, and the waiting signatures are asked to
    /// be combined when everyone who voted on the block, checked or waiting,
    /// together carries a quorum, or when at least `verification_frequency`
    /// votes wait; else the answer is `NotEnoughVotes`.
    pub fn verify(
        &mut self,
        author: u64,
        block: u64,
        signature: S,
        vote: VoteType,
        now_usecs: u64,
    ) -> (r: Result<NextStep<VoteType, A>, VerifyError>)
        requires
            old(self).wf(),
        ensures
            final(self).wf(),
            final(self).accepted_signatures() == old(self).accepted_signatures(),
            old(self).recent_blocks().contains(block) ==> {
                &&& r matches Ok(NextStep::Finished(VerificationResult::AggregatedBefore))
                &&& final(self).same_state(*old(self))
            },
            !old(self).recent_blocks().contains(block) && !old(self).validators().powers().contains_key(author) ==> {
                &&& r matches Err(VerifyError::UnknownAuthor)
                &&& final(self).same_state(*old(self))
            },
            !old(self).recent_blocks().contains(block)
                && old(self).validators().powers().contains_key(author)
                && tally_or_fresh(old(self).tallies(), block, now_usecs).verified.contains_key(author) ==> {
                &&& r matches Ok(NextStep::Finished(VerificationResult::DuplicateVote))
                &&& final(self).same_state(*old(self))
            },
            !old(self).recent_blocks().contains(block)
                && old(self).validators().powers().contains_key(author)
                && !tally_or_fresh(old(self).tallies(), block, now_usecs).verified.contains_key(author) ==> {
                let t = with_waiting_vote(
                    tally_or_fresh(old(self).tallies(), block, now_usecs),
                    author,
                    signature,
                    vote,
                );
                let due = voting_power(
                    old(self).validators().powers(),
                    t.verified.dom().union(t.unverified.dom()),
                ) >= old(self).validators().quorum() || t.unverified.len() >= old(self).frequency();
                &&& final(self).tallies() == old(self).tallies().insert(block, t)
                &&& final(self).validators() == old(self).validators()
                &&& final(self).recent_blocks() == old(self).recent_blocks()
                &&& final(self).recent_capacity() == old(self).recent_capacity()
                &&& final(self).frequency() == old(self).frequency()
                &&& due ==> (r matches Ok(NextStep::AggregateSignatures(authors))
                    && authors@.no_duplicates() && authors@.to_set() == t.unverified.dom()
                    && (final(self).step_in_progress() matches Some(
                        StepInProgress::Aggregation { block: b, authors: pending },
                    ) && b == block && pending@ == authors@))
                &&& !due ==> (r matches Ok(NextStep::Finished(VerificationResult::NotEnoughVotes))
                    && final(self).step_in_progress() is None)
            },
    {
        if lru_contains(&self.recent_aggregated_blocks, block) {
            return Ok(NextStep::Finished(VerificationResult::AggregatedBefore));
        }
        if self.validator_verifier.get_voting_power(author).is_none() {
            return Err(VerifyError::UnknownAuthor);
        }
        let ghost old_tallies = self.tallies();
        let ghost t0 = tally_or_fresh(old_tallies, block, now_usecs);
        let mut data = match self.vote_data.remove(&block) {
            Some(d) => d,
            None => SignatureData::new(now_usecs),
        };
        assert(data.tally() == t0);
        if data.verified_votes.contains_key(&author) {
            self.vote_data.insert(block, data);
            assert(self.tallies() =~= old_tallies);
            return Ok(NextStep::Finished(VerificationResult::DuplicateVote));
        }
        data.unverified_votes.insert(author, (signature, vote));
        let ghost t = data.tally();
        assert(t == with_waiting_vote(t0, author, signature, vote));
        let mut voted = map_keys(&data.verified_votes);
        let authors = map_keys(&data.unverified_votes);
        let mut waiting = authors.clone();
        let pending = authors.clone();
        proof {
            assert(tally_wf(self.validators().powers(), t0));
            assert forall|i: int, j: int| 0 <= i < voted@.len() && 0 <= j < waiting@.len() implies
                voted@[i] != waiting@[j] by {
                assert(voted@.to_set().contains(voted@[i]));
                assert(waiting@.to_set().contains(waiting@[j]));
                assert(t.verified.contains_key(voted@[i]));
                assert(t.unverified.contains_key(waiting@[j]));
            }
            vstd::seq_lib::lemma_no_dup_in_concat(voted@, waiting@);
            vstd::seq_lib::seq_to_set_distributes_over_add(voted@, waiting@);
            assert(voted@.to_set() + waiting@.to_set() == voters(t));
            assert forall|i: int| 0 <= i < (voted@ + waiting@).len() implies
                self.validators().powers().contains_key(#[trigger] (voted@ + waiting@)[i]) by {
                assert((voted@ + waiting@).to_set().contains((voted@ + waiting@)[i]));
            }
        }
        voted.append(&mut waiting);
        let enough = self.reaches_quorum(&voted);
        let count = data.unverified_votes.len() as u64;
        self.vote_data.insert(block, data);
        assert(self.tallies() =~= old_tallies.insert(block, t));
        if enough || count >= self.verification_frequency {
            self.in_progress = Some(StepInProgress::Aggregation { block, authors: pending });
            Ok(NextStep::AggregateSignatures(authors))
        } else {
            self.in_progress = None;
            Ok(NextStep::Finished(VerificationResult::NotEnoughVotes))
        }
    }

    /// Puts `data` back as the record of `block`, a block not remembered, and
    /// answers: the checked votes with `handed_out` when they reach a quorum, the
    /// block then remembered among the recently aggregated ones;
    /// `NotEnoughVotes` otherwise.
    fn finish(
        &mut self,
        block: u64,
        data: SignatureData<VoteType, S, A>,
        handed_out: A,
    ) -> (res: VerificationResult<VoteType, A>)
        requires
            old(self).wf(),
            old(self).step_in_progress() is None,
            !old(self).recent_blocks().contains(block),
            tally_wf(old(self).validators().powers(), data.tally()),
            forall|a: u64|
                #[trigger] data.tally().verified.contains_key(a)
                    ==> old(self).accepted_signatures().contains((block, a)),
        ensures
            final(self).wf(),
            final(self).step_in_progress() is None,
            final(self).accepted_signatures() == old(self).accepted_signatures(),
            final(self).tallies() == old(self).tallies().insert(block, data.tally()),
            final(self).validators() == old(self).validators(),
            final(self).recent_capacity() == old(self).recent_capacity(),
            final(self).frequency() == old(self).frequency(),
            voting_power(old(self).validators().powers(), data.tally().verified.dom())
                >= old(self).validators().quorum() ==> {
                &&& res matches VerificationResult::Verified((m, a)) && m@ == data.tally().verified
                    && a == handed_out
                &&& final(self).recent_blocks() == keys_after_put(
                    old(self).recent_blocks(),
                    RECENT_AGGREGATED_BLOCKS as nat,
                    block,
                )
            },
            voting_power(old(self).validators().powers(), data.tally().verified.dom())
                < old(self).validators().quorum() ==> {
                &&& res matches VerificationResult::NotEnoughVotes
                &&& final(self).recent_blocks() == old(self).recent_blocks()
            },
    {
        let ghost old_tallies = self.tallies();
        let ghost old_recent = self.recent_blocks();
        let ghost dt = data.tally();
        let verified_authors = map_keys(&data.verified_votes);
        proof {
            assert forall|i: int| 0 <= i < verified_authors@.len() implies
                self.validators().powers().contains_key(#[trigger] verified_authors@[i]) by {
                assert(verified_authors@.to_set().contains(verified_authors@[i]));
                assert(data.tally().verified.contains_key(verified_authors@[i]));
            }
        }
        let reached = self.reaches_quorum(&verified_authors);
        let result = if reached {
            proof {
                lemma_put_keeps_keys_distinct(
                    self.recent_blocks(),
                    RECENT_AGGREGATED_BLOCKS as nat,
                    block,
                );
            }
            lru_put(&mut self.recent_aggregated_blocks, block);
            VerificationResult::Verified((data.verified_votes.clone(), handed_out))
        } else {
            VerificationResult::NotEnoughVotes
        };
        self.vote_data.insert(block, data);
        assert(self.tallies() =~= old_tallies.insert(block, dt));
        proof {
            assert forall|b: u64| #[trigger] self.recent_blocks().contains(b) implies {
                &&& self.tallies().contains_key(b)
                &&& voting_power(self.validators().powers(), self.tallies()[b].verified.dom())
                    >= self.validators().quorum()
            } by {
                if reached {
                    lemma_put_holds_only(old_recent, RECENT_AGGREGATED_BLOCKS as nat, block, b);
                }
                if b != block {
                    assert(old_recent.contains(b));
                }
            }
        }
        result
    }

    /// Takes the combination of the signatures that `verify` asked to combine
    /// for `block`, and whether it checked out. When it did, every waiting vote
    /// is checked in, the combination stored, and the answer given as `finish`
    /// gives it, with `aggregated_signature` handed out. When it did not, only
    /// the step in progress changes: each waiting signature is asked to be
    /// checked on its own, and the combination is kept to be handed out then.
    pub fn complete_aggregation(
        &mut self,
        block: u64,
        aggregated_signature: A,
        multi_signature_valid: bool,
    ) -> (step: NextStep<VoteType, A>)
        requires
            old(self).wf(),
            old(self).step_in_progress() matches Some(StepInProgress::Aggregation { block: b, .. })
                && b == block,
        ensures
            final(self).wf(),
            !multi_signature_valid ==> {
                &&& final(self).accepted_signatures() == old(self).accepted_signatures()
                &&& final(self).validators() == old(self).validators()
                &&& final(self).tallies() == old(self).tallies()
                &&& final(self).recent_blocks() == old(self).recent_blocks()
                &&& final(self).recent_capacity() == old(self).recent_capacity()
                &&& final(self).frequency() == old(self).frequency()
                &&& final(self).step_in_progress() matches Some(
                    StepInProgress::IndividualChecks { block: b, authors: pending, aggregated_signature: a },
                ) && b == block && pending@ == old(self).step_in_progress().unwrap().authors_of()
                    && a == aggregated_signature
                &&& step matches NextStep::VerifyIndividually(authors)
                    && authors@ == old(self).step_in_progress().unwrap().authors_of()
                    && authors@.no_duplicates()
                    && authors@.to_set() == old(self).tallies()[block].unverified.dom()
            },
            multi_signature_valid ==> {
                let t = old(self).tallies()[block];
                let t2 = final(self).tallies()[block];
                let reached = voting_power(old(self).validators().powers(), t2.verified.dom())
                    >= old(self).validators().quorum();
                &&& old(self).same_elsewhere(*final(self), block)
                &&& final(self).step_in_progress() is None
                &&& final(self).accepted_signatures() == old(self).accepted_signatures() + signed_by(
                    block,
                    old(self).step_in_progress().unwrap().authors_of().to_set(),
                )
                &&& t2 == settled(t, t.unverified.dom(), t2.aggregated_signature)
                &&& t2.aggregated_signature matches Some(x) && cloned(aggregated_signature, x)
                &&& reached ==> {
                    &&& step matches NextStep::Finished(VerificationResult::Verified((m, a)))
                        && m@ == t2.verified && a == aggregated_signature
                    &&& final(self).recent_blocks() == keys_after_put(
                        old(self).recent_blocks(),
                        RECENT_AGGREGATED_BLOCKS as nat,
                        block,
                    )
                }
                &&& !reached ==> {
                    &&& step matches NextStep::Finished(VerificationResult::NotEnoughVotes)
                    &&& final(self).recent_blocks() == old(self).recent_blocks()
                }
            },
    {
        let ghost old_tallies = self.tallies();
        let ghost t = old_tallies[block];
        let taken = self.in_progress.take();
        let authors = match taken {
            Some(StepInProgress::Aggregation { block: _, authors }) => authors,
            _ => {
                return NextStep::Finished(VerificationResult::NotEnoughVotes);
            },
        };
        if !multi_signature_valid {
            let returned = authors.clone();
            self.in_progress = Some(
                StepInProgress::IndividualChecks { block, authors, aggregated_signature },
            );
            return NextStep::VerifyIndividually(returned);
        }
        let mut data = match self.vote_data.remove(&block) {
            Some(d) => d,
            None => {
                return NextStep::Finished(VerificationResult::NotEnoughVotes);
            },
        };
        assert(data.tally() == t);
        assert(self.tallies() =~= old_tallies.remove(block));
        data.aggregated_signature = Some(aggregated_signature.clone());
        proof {
            assert forall|i: int| 0 <= i < authors@.len() implies
                data.unverified_votes@.contains_key(#[trigger] authors@[i]) by {
                assert(authors@.to_set().contains(authors@[i]));
            }
        }
        move_to_verified(&mut data.unverified_votes, &mut data.verified_votes, &authors);
        data.unverified_votes.clear();
        proof {
            assert(data.tally() == settled(t, t.unverified.dom(), data.tally().aggregated_signature));
        }
        self.accepted = Ghost(self.accepted@ + signed_by(block, authors@.to_set()));
        proof {
            assert forall|a: u64| #[trigger] data.tally().verified.contains_key(a) implies
                self.accepted_signatures().contains((block, a)) by {
                if !t.verified.contains_key(a) {
                    assert(authors@.to_set().contains(a));
                }
            }
        }
        let ghost dt = data.tally();
        let result = self.finish(block, data, aggregated_signature);
        assert(old_tallies.remove(block).insert(block, dt).remove(block) =~= old_tallies.remove(
            block,
        ));
        NextStep::Finished(result)
    }

    /// Takes the waiting authors on `block` whose signatures checked out on
    /// their own, and the combination of their signatures with the stored one.
    /// Their votes are checked in, the other waiting votes dropped, the
    /// combination stored, and the answer given as `finish` gives it, with the
    /// combination that failed its check, kept since `complete_aggregation`,
    /// handed out.
    pub fn complete_individual_checks(
        &mut self,
        block: u64,
        valid_authors: Vec<u64>,
        reaggregated_signature: A,
    ) -> (res: VerificationResult<VoteType, A>)
        requires
            old(self).wf(),
            old(self).step_in_progress() matches Some(
                StepInProgress::IndividualChecks { block: b, .. },
            ) && b == block,
            valid_authors@.no_duplicates(),
            forall|i: int|
                0 <= i < valid_authors@.len() ==> old(self).tallies()[block].unverified.contains_key(
                    #[trigger] valid_authors@[i],
                ),
        ensures
            final(self).wf(),
            final(self).step_in_progress() is None,
            final(self).accepted_signatures() == old(self).accepted_signatures() + signed_by(
                block,
                valid_authors@.to_set(),
            ),
            ({
                let t = old(self).tallies()[block];
                let t2 = final(self).tallies()[block];
                let reached = voting_power(old(self).validators().powers(), t2.verified.dom())
                    >= old(self).validators().quorum();
                &&& old(self).same_elsewhere(*final(self), block)
                &&& t2 == settled(t, valid_authors@.to_set(), t2.aggregated_signature)
                &&& t2.aggregated_signature matches Some(x) && cloned(reaggregated_signature, x)
                &&& old(self).step_in_progress() matches Some(
                    StepInProgress::IndividualChecks { aggregated_signature: first, .. },
                ) && (reached ==> {
                    &&& res matches VerificationResult::Verified((m, a)) && m@ == t2.verified
                        && a == first
                    &&& final(self).recent_blocks() == keys_after_put(
                        old(self).recent_blocks(),
                        RECENT_AGGREGATED_BLOCKS as nat,
                        block,
                    )
                })
                &&& !reached ==> {
                    &&& res matches VerificationResult::NotEnoughVotes
                    &&& final(self).recent_blocks() == old(self).recent_blocks()
                }
            }),
    {
        let ghost old_tallies = self.tallies();
        let ghost t = old_tallies[block];
        let taken = self.in_progress.take();
        let first = match taken {
            Some(StepInProgress::IndividualChecks { block: _, authors: _, aggregated_signature }) => {
                aggregated_signature
            },
            _ => {
                return VerificationResult::NotEnoughVotes;
            },
        };
        let mut data = match self.vote_data.remove(&block) {
            Some(d) => d,
            None => {
                return VerificationResult::NotEnoughVotes;
            },
        };
        assert(data.tally() == t);
        assert(self.tallies() =~= old_tallies.remove(block));
        data.aggregated_signature = Some(reaggregated_signature.clone());
        move_to_verified(&mut data.unverified_votes, &mut data.verified_votes, &valid_authors);
        data.unverified_votes.clear();
        proof {
            assert(data.tally() == settled(t, valid_authors@.to_set(), data.tally().aggregated_signature));
        }
        self.accepted = Ghost(self.accepted@ + signed_by(block, valid_authors@.to_set()));
        proof {
            assert forall|a: u64| #[trigger] data.tally().verified.contains_key(a) implies
                self.accepted_signatures().contains((block, a)) by {
                if !t.verified.contains_key(a) {
                    assert(valid_authors@.to_set().contains(a));
                }
            }
        }
        let ghost dt = data.tally();
        let result = self.finish(block, data, first);
        assert(old_tallies.remove(block).insert(block, dt).remove(block) =~= old_tallies.remove(
            block,
        ));
        result
    }
}

/// A vote is checked in only when its signature was reported to check out: in
/// a consistent state, for every checked vote of `author` on `block`, the caller
/// reported the author's signature on the block to check out, alone (to
/// `complete_individual_checks`) or as part of a combined signature (to
/// `complete_aggregation`). No other step adds to the reported signatures, so a
/// vote whose signature is reported bad never becomes checked and is never
/// handed out in a `Verified` answer.
pub proof fn law_checked_votes_were_accepted<VoteType, S, A>(
    v: OptimisticValidatorVerifier<VoteType, S, A>,
    block: u64,
    author: u64,
)
    requires
        v.wf(),
        v.tallies().contains_key(block),
        v.tallies()[block].verified.contains_key(author),
    ensures
        v.accepted_signatures().contains((block, author)),
{
}

} // verus!
