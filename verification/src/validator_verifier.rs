//! The validator set as the vote aggregation reads it: each validator's
//! voting power and the voting power that makes a quorum.

use std::collections::HashMap;
use vstd::prelude::*;
use vstd::std_specs::iter::IteratorSpec;

verus! {

broadcast use vstd::std_specs::hash::group_hash_axioms;

/// Why a vote or a set of votes is refused.
#[derive(Clone, Copy, Debug, PartialEq, Eq, Structural)]
pub enum VerifyError {
    /// The author is not a member of the validator set.
    UnknownAuthor,
    /// The authors together hold less voting power than a quorum.
    TooLittleVotingPower { voting_power: u128, expected_voting_power: u128 },
    /// The signatures could not be combined into one.
    FailedToAggregateSignature,
    /// A combined signature does not verify.
    InvalidMultiSignature,
}

/// The voting power that `authors` carry together, each counted once.
pub open spec fn voting_power(powers: Map<u64, u64>, authors: Set<u64>) -> int {
    authors.fold(0int, |acc: int, a: u64| acc + powers[a])
}

/// The voting power that the list `authors` carries, an author listed twice
/// counted twice.
pub open spec fn listed_voting_power(powers: Map<u64, u64>, authors: Seq<u64>) -> int
    decreases authors.len(),
{
    if authors.len() == 0 {
        0
    } else {
        listed_voting_power(powers, authors.drop_last()) + powers[authors.last()]
    }
}

/// Every author in `authors` is a member of the validator set.
pub open spec fn all_known(powers: Map<u64, u64>, authors: Seq<u64>) -> bool {
    forall|i: int| 0 <= i < authors.len() ==> powers.contains_key(#[trigger] authors[i])
}

/// What checking `authors` against a quorum of `quorum` answers.
pub open spec fn voting_power_check(
    powers: Map<u64, u64>,
    quorum: u128,
    authors: Seq<u64>,
) -> Result<u128, VerifyError> {
    if !all_known(powers, authors) {
        Err(VerifyError::UnknownAuthor)
    } else if listed_voting_power(powers, authors) < quorum {
        Err(
            VerifyError::TooLittleVotingPower {
                voting_power: listed_voting_power(powers, authors) as u128,
                expected_voting_power: quorum,
            },
        )
    } else {
        Ok(listed_voting_power(powers, authors) as u128)
    }
}

/// A list without repetitions carries the voting power of the set of its authors.
pub proof fn lemma_listed_voting_power_of_distinct(powers: Map<u64, u64>, authors: Seq<u64>)
    requires
        authors.no_duplicates(),
    ensures
        listed_voting_power(powers, authors) == voting_power(powers, authors.to_set()),
    decreases authors.len(),
{
    let f = |acc: int, a: u64| acc + powers[a];
    assert(vstd::set::fold::is_fun_commutative(f));
    if authors.len() == 0 {
        assert(authors.to_set() =~= Set::<u64>::empty());
        vstd::set::fold::lemma_fold_empty(0int, f);
    } else {
        let rest = authors.drop_last();
        assert(rest.no_duplicates());
        lemma_listed_voting_power_of_distinct(powers, rest);
        assert forall|x: u64|
            #[trigger] authors.to_set().contains(x) == rest.to_set().insert(authors.last()).contains(
                x,
            ) by {
            if authors.contains(x) {
                let i = choose|i: int| 0 <= i < authors.len() && authors[i] == x;
                if i < rest.len() {
                    assert(rest[i] == x);
                }
            }
            if rest.contains(x) {
                let i = choose|i: int| 0 <= i < rest.len() && rest[i] == x;
                assert(authors[i] == x);
            }
            if x == authors.last() {
                assert(authors[authors.len() - 1] == x);
            }
        }
        assert(rest.to_set().insert(authors.last()) =~= authors.to_set());
        assert(!rest.to_set().contains(authors.last())) by {
            if rest.contains(authors.last()) {
                let i = choose|i: int| 0 <= i < rest.len() && rest[i] == authors.last();
                assert(authors[i] == authors[authors.len() - 1]);
            }
        }
        vstd::seq_lib::seq_to_set_is_finite(rest);
        vstd::set::fold::lemma_fold_insert(rest.to_set(), 0int, f, authors.last());
    }
}

/// Each validator's voting power, and the voting power that makes a quorum.
#[derive(Debug)]
pub struct ValidatorVerifier {
    voting_powers: HashMap<u64, u64>,
    quorum_voting_power: u128,
}

impl ValidatorVerifier {
    /// The voting power of each member of the set.
    pub closed spec fn powers(&self) -> Map<u64, u64> {
        self.voting_powers@
    }

    /// The voting power that makes a quorum.
    pub closed spec fn quorum(&self) -> u128 {
        self.quorum_voting_power
    }

    /// The validator set whose members and powers are those of `voting_powers`.
    pub fn new(voting_powers: HashMap<u64, u64>, quorum_voting_power: u128) -> (v: Self)
        ensures
            v.powers() == voting_powers@,
            v.quorum() == quorum_voting_power,
    {
        ValidatorVerifier { voting_powers, quorum_voting_power }
    }

    /// The voting power of `author`, `None` for an author outside the set.
    pub fn get_voting_power(&self, author: u64) -> (power: Option<u64>)
        ensures
            power == (if self.powers().contains_key(author) {
                Some(self.powers()[author])
            } else {
                None::<u64>
            }),
    {
        match self.voting_powers.get(&author) {
            Some(p) => Some(*p),
            None => None,
        }
    }

    /// The voting power that makes a quorum.
    pub fn quorum_voting_power(&self) -> (q: u128)
        ensures
            q == self.quorum(),
    {
        self.quorum_voting_power
    }

    /// Sums the voting power of `authors` and compares it with a quorum: the sum
    /// when it reaches one, `TooLittleVotingPower` when it falls short, and
    /// `UnknownAuthor` when some author is outside the set.
    pub fn check_voting_power(&self, authors: &Vec<u64>) -> (r: Result<u128, VerifyError>)
        ensures
            r == voting_power_check(self.powers(), self.quorum(), authors@),
    {
        let mut total: u128 = 0;
        let n = authors.len();
        for i in 0..n
            invariant
                n == authors@.len(),
                all_known(self.powers(), authors@.take(i as int)),
                total == listed_voting_power(self.powers(), authors@.take(i as int)),
                total <= i * 0xffff_ffff_ffff_ffffu128,
        {
            let a = authors[i];
            match self.voting_powers.get(&a) {
                None => {
                    assert(!all_known(self.powers(), authors@)) by {
                        assert(authors@[i as int] == a);
                    }
                    return Err(VerifyError::UnknownAuthor);
                },
                Some(p) => {
                    proof {
                        assert(authors@.take(i + 1).drop_last() =~= authors@.take(i as int));
                        assert(i < 0x1_0000_0000_0000_0000);
                        assert((i + 1) * 0xffff_ffff_ffff_ffffu128 <= 0x1_0000_0000_0000_0000 * 0xffff_ffff_ffff_ffffu128) by (nonlinear_arith)
                            requires i < 0x1_0000_0000_0000_0000;
                    }
                    total = total + *p as u128;
                    proof {
                        assert(total <= (i + 1) * 0xffff_ffff_ffff_ffffu128) by (nonlinear_arith)
                            requires total <= i * 0xffff_ffff_ffff_ffffu128 + 0xffff_ffff_ffff_ffffu128;
                    }
                },
            }
        }
        assert(authors@.take(n as int) =~= authors@);
        if total < self.quorum_voting_power {
            Err(VerifyError::TooLittleVotingPower {
                voting_power: total,
                expected_voting_power: self.quorum_voting_power,
            })
        } else {
            Ok(total)
        }
    }
}

/// The keys of `m`, each once, in the order in which the map hands them out.
pub fn map_keys<T>(m: &HashMap<u64, T>) -> (keys: Vec<u64>)
    ensures
        keys@.no_duplicates(),
        keys@.to_set() == m@.dom(),
        keys@.len() == m@.dom().len(),
{
    let mut keys: Vec<u64> = Vec::new();
    let ghost all = vstd::std_specs::hash::spec_keys_iter(m).remaining();
    for k in it: m.keys()
        invariant
            it.seq() == all,
            keys@ == all.take(it.index() as int).map_values(|r: &u64| *r),
    {
        keys.push(*k);
    }
    proof {
        assert(keys@ =~= all.unref());
        assert(all.unref().to_set() == m@.dom());
    }
    keys
}

} // verus!
