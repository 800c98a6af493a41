use vstd::prelude::*;
use vstd::seq_lib::*;
use vstd::multiset::Multiset;
use crate::valset::{members_model, Valset, ValsetMember};

verus! {

broadcast use group_to_multiset_ensures, lemma_multiset_commutative, vstd::multiset::group_multiset_axioms;

/// How the Cosmos-side and the Ethereum-side validator sets for one nonce relate.
/// `Match`, `Bootstrap` and `OrderingDisagreement` are benign; the others point
/// at a possible hijack of the bridge and are meant for alerting.
#[derive(Clone, Copy, Debug, PartialEq, Eq)]
pub enum ConsensusOutcome {
    Bootstrap,
    Match,
    OrderingDisagreement,
    CosmosMissing,
    NonceMismatch,
    MemberSetDisagreement,
}

/// The classification of a Cosmos-side set (if any) against the Ethereum-side set,
/// with the checks taken strictly in this order.
pub open spec fn classify(
    cosmos: Option<(u64, Seq<(Seq<u8>, u64)>)>,
    ethereum: (u64, Seq<(Seq<u8>, u64)>),
) -> ConsensusOutcome {
    match cosmos {
        None => if ethereum.0 == 0 {
            ConsensusOutcome::Bootstrap
        } else {
            ConsensusOutcome::CosmosMissing
        },
        Some(c) => if c == ethereum {
            ConsensusOutcome::Match
        } else if c.0 != ethereum.0 {
            ConsensusOutcome::NonceMismatch
        } else if c.1.to_multiset() == ethereum.1.to_multiset() {
            ConsensusOutcome::OrderingDisagreement
        } else {
            ConsensusOutcome::MemberSetDisagreement
        },
    }
}

/// The abstract value of a validator set that may be absent.
pub open spec fn option_view(v: Option<Valset>) -> Option<(u64, Seq<(Seq<u8>, u64)>)> {
    match v {
        Some(s) => Some(s@),
        None => None,
    }
}

impl ConsensusOutcome {
    /// The outcomes that point at a possible integrity violation.
    pub open spec fn critical_spec(self) -> bool {
        match self {
            ConsensusOutcome::CosmosMissing
            | ConsensusOutcome::NonceMismatch
            | ConsensusOutcome::MemberSetDisagreement => true,
            _ => false,
        }
    }

    /// Whether the outcome signals a possible integrity violation.
    pub fn is_critical(&self) -> (r: bool)
        ensures
            r == self.critical_spec(),
    {
        match self {
            ConsensusOutcome::CosmosMissing
            | ConsensusOutcome::NonceMismatch
            | ConsensusOutcome::MemberSetDisagreement => true,
            _ => false,
        }
    }
}

/// Equality of two member lists, order included.
pub fn members_equal(a: &Vec<ValsetMember>, b: &Vec<ValsetMember>) -> (r: bool)
    ensures
        r == (members_model(a@) == members_model(b@)),
{
    if a.len() != b.len() {
        assert(members_model(a@).len() != members_model(b@).len());
        assert(members_model(a@).to_multiset().len() != members_model(b@).to_multiset().len());
        return false;
    }
    let mut i: usize = 0;
    while i < a.len()
        invariant
            a.len() == b.len(),
            0 <= i <= a.len(),
            forall|j: int| 0 <= j < i ==> a@[j]@ == b@[j]@,
        decreases a.len() - i,
    {
        if !a[i].same_as(&b[i]) {
            assert(members_model(a@)[i as int] != members_model(b@)[i as int]);
            return false;
        }
        i = i + 1;
    }
    assert(members_model(a@) =~= members_model(b@));
    true
}

/// Equality of two member lists with the order ignored: each member occurs
/// equally often in both.
pub fn same_members_unordered(a: &Vec<ValsetMember>, b: &Vec<ValsetMember>) -> (r: bool)
    ensures
        r == (members_model(a@).to_multiset() == members_model(b@).to_multiset()),
{
    let mut rest: Vec<ValsetMember> = b.clone();
    let mut i: usize = 0;
    assert(members_model(a@.subrange(0, 0)) =~= Seq::<(Seq<u8>, u64)>::empty());
    assert(rest@ == b@);
    while i < a.len()
        invariant
            0 <= i <= a.len(),
            i + rest.len() == b.len(),
            members_model(a@.subrange(0, i as int)).to_multiset().add(
                members_model(rest@).to_multiset(),
            ) =~= members_model(b@).to_multiset(),
        decreases a.len() - i,
    {
        let ghost done = members_model(a@.subrange(0, i as int));
        let ghost x = a@[i as int]@;
        assert(members_model(a@.subrange(0, i as int + 1)) =~= done.push(x));
        let mut j: usize = 0;
        let mut found = false;
        while !found && j < rest.len()
            invariant
                0 <= i < a.len(),
                x == a@[i as int]@,
                0 <= j <= rest.len(),
                found ==> j < rest.len() && rest@[j as int]@ == x,
                !found ==> forall|k: int| 0 <= k < j ==> rest@[k]@ != x,
            decreases rest.len() - j + (if found { 0int } else { 1int }),
        {
            if rest[j].same_as(&a[i]) {
                found = true;
            } else {
                j = j + 1;
            }
        }
        if !found {
            proof {
                let rm = members_model(rest@);
                assert(forall|k: int| 0 <= k < rm.len() ==> rm[k] == rest@[k]@);
                assert(!rm.contains(x));
                assert(rm.to_multiset().count(x) == 0);
                let whole = members_model(a@);
                assert(whole =~= members_model(a@.subrange(0, i as int + 1)) + members_model(
                    a@.subrange(i as int + 1, a@.len() as int),
                ));
                assert(whole.to_multiset().count(x) >= done.push(x).to_multiset().count(x));
            }
            return false;
        }
        proof {
            let rm = members_model(rest@);
            assert(members_model(rest@.remove(j as int)) =~= rm.remove(j as int));
            assert(rm[j as int] == x);
        }
        rest.remove(j);
        i = i + 1;
    }
    assert(a@.subrange(0, a.len() as int) =~= a@);
    if rest.len() != 0 {
        assert(members_model(a@).len() != members_model(b@).len());
        assert(members_model(a@).to_multiset().len() != members_model(b@).to_multiset().len());
        return false;
    }
    assert(members_model(rest@) =~= Seq::<(Seq<u8>, u64)>::empty());
    assert(members_model(rest@).to_multiset() =~= Multiset::<(Seq<u8>, u64)>::empty());
    assert(members_model(a@).to_multiset() =~= members_model(b@).to_multiset());
    true
}

/// Compares the Cosmos-side validator set recorded for a nonce (if any) with the
/// set found on the Ethereum contract, and says how they relate. Nothing is
/// changed: the outcome is for the caller to report.
pub fn check_if_valsets_differ(cosmos_valset: Option<Valset>, ethereum_valset: &Valset) -> (r:
    ConsensusOutcome)
    ensures
        r == classify(option_view(cosmos_valset), ethereum_valset@),
{
    match cosmos_valset {
        None => if ethereum_valset.nonce == 0 {
            ConsensusOutcome::Bootstrap
        } else {
            ConsensusOutcome::CosmosMissing
        },
        Some(c) => {
            let same_members = members_equal(&c.members, &ethereum_valset.members);
            if c.nonce == ethereum_valset.nonce && same_members {
                ConsensusOutcome::Match
            } else if c.nonce != ethereum_valset.nonce {
                ConsensusOutcome::NonceMismatch
            } else if same_members_unordered(&c.members, &ethereum_valset.members) {
                ConsensusOutcome::OrderingDisagreement
            } else {
                ConsensusOutcome::MemberSetDisagreement
            }
        },
    }
}

/// Two chains that report the same nonce and the same members in the same order
/// agree.
pub proof fn lemma_identical_sets_match(cosmos: Valset, ethereum: Valset)
    requires
        cosmos@ == ethereum@,
    ensures
        classify(Some(cosmos@), ethereum@) == ConsensusOutcome::Match,
{
}

/// Sets under different nonces are a nonce mismatch, whatever their members.
pub proof fn lemma_different_nonces_mismatch(cosmos: Valset, ethereum: Valset)
    requires
        cosmos.nonce != ethereum.nonce,
    ensures
        classify(Some(cosmos@), ethereum@) == ConsensusOutcome::NonceMismatch,
{
}

/// Under one nonce, a reordering of the same members is only an ordering
/// disagreement, never a member-set disagreement.
pub proof fn lemma_permuted_members_ordering_only(cosmos: Valset, ethereum: Valset)
    requires
        cosmos.nonce == ethereum.nonce,
        members_model(cosmos.members@) != members_model(ethereum.members@),
        members_model(cosmos.members@).to_multiset() == members_model(
            ethereum.members@,
        ).to_multiset(),
    ensures
        classify(Some(cosmos@), ethereum@) == ConsensusOutcome::OrderingDisagreement,
{
}

/// Under one nonce, sets that differ only in one member's power, by one, are a
/// member-set disagreement.
pub proof fn lemma_power_off_by_one_disagrees(cosmos: Valset, ethereum: Valset, i: int)
    requires
        cosmos.nonce == ethereum.nonce,
        cosmos.members@.len() == ethereum.members@.len(),
        0 <= i < cosmos.members@.len(),
        cosmos.members@[i].eth_address@ == ethereum.members@[i].eth_address@,
        cosmos.members@[i].power + 1 == ethereum.members@[i].power
            || ethereum.members@[i].power + 1 == cosmos.members@[i].power,
        forall|j: int|
            0 <= j < cosmos.members@.len() && j != i ==> cosmos.members@[j]@
                == ethereum.members@[j]@,
    ensures
        classify(Some(cosmos@), ethereum@) == ConsensusOutcome::MemberSetDisagreement,
{
    let mc = members_model(cosmos.members@);
    let me = members_model(ethereum.members@);
    assert(me =~= mc.update(i, me[i]));
    assert(mc[i] != me[i]);
    assert(me.to_multiset() == mc.to_multiset().insert(me[i]).remove(mc[i]));
    assert(me.to_multiset().count(mc[i]) + 1 == mc.to_multiset().count(mc[i]));
    assert(mc != me);
}

} // verus!
