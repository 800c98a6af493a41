use valset_consensus::consensus::{
    check_if_valsets_differ, members_equal, same_members_unordered, ConsensusOutcome,
};
use valset_consensus::valset::{EthAddress, Valset, ValsetMember};

fn addr(b: u8) -> EthAddress {
    EthAddress { bytes: [b; 20] }
}

fn member(b: u8, power: u64) -> ValsetMember {
    ValsetMember { eth_address: addr(b), power }
}

fn valset(nonce: u64, members: &[(u8, u64)]) -> Valset {
    Valset { nonce, members: members.iter().map(|&(b, p)| member(b, p)).collect() }
}

#[test]
fn identical_sets_match() {
    let v = valset(3, &[(0xAA, 100), (0xBB, 50), (0xCC, 25)]);
    assert_eq!(check_if_valsets_differ(Some(v.clone()), &v), ConsensusOutcome::Match);
    let empty = valset(9, &[]);
    assert_eq!(check_if_valsets_differ(Some(empty.clone()), &empty), ConsensusOutcome::Match);
}

#[test]
fn missing_cosmos_set_at_nonce_zero_is_bootstrap() {
    let eth = valset(0, &[(0xAA, 100)]);
    assert_eq!(check_if_valsets_differ(None, &eth), ConsensusOutcome::Bootstrap);
}

#[test]
fn missing_cosmos_set_at_nonce_seven_is_cosmos_missing() {
    let eth = valset(7, &[(0xAA, 100)]);
    assert_eq!(check_if_valsets_differ(None, &eth), ConsensusOutcome::CosmosMissing);
}

#[test]
fn permuted_members_are_an_ordering_disagreement() {
    let cosmos = valset(4, &[(0xCC, 25), (0xAA, 100), (0xBB, 50)]);
    let eth = valset(4, &[(0xAA, 100), (0xBB, 50), (0xCC, 25)]);
    assert_eq!(check_if_valsets_differ(Some(cosmos), &eth), ConsensusOutcome::OrderingDisagreement);
}

#[test]
fn power_off_by_one_is_a_member_set_disagreement() {
    let cosmos = valset(4, &[(0xAA, 100), (0xBB, 50)]);
    let eth = valset(4, &[(0xAA, 100), (0xBB, 51)]);
    assert_eq!(
        check_if_valsets_differ(Some(cosmos), &eth),
        ConsensusOutcome::MemberSetDisagreement
    );
}

#[test]
fn different_nonces_are_a_nonce_mismatch() {
    let cosmos = valset(5, &[(0xAA, 100), (0xBB, 50)]);
    let eth = valset(6, &[(0xAA, 100), (0xBB, 50)]);
    assert_eq!(check_if_valsets_differ(Some(cosmos), &eth), ConsensusOutcome::NonceMismatch);
    let cosmos = valset(5, &[(0xBB, 50), (0xAA, 100)]);
    assert_eq!(check_if_valsets_differ(Some(cosmos), &eth), ConsensusOutcome::NonceMismatch);
}

#[test]
fn nonce_twelve_reordered_and_missing() {
    let eth = valset(12, &[(0xAA, 100), (0xBB, 50)]);
    let cosmos = valset(12, &[(0xBB, 50), (0xAA, 100)]);
    assert_eq!(check_if_valsets_differ(Some(cosmos), &eth), ConsensusOutcome::OrderingDisagreement);
    assert_eq!(check_if_valsets_differ(None, &eth), ConsensusOutcome::CosmosMissing);
}

#[test]
fn repeated_members_are_counted() {
    let a = vec![member(1, 5), member(1, 5), member(2, 5)];
    let b = vec![member(1, 5), member(2, 5), member(2, 5)];
    assert!(!same_members_unordered(&a, &b));
    let c = vec![member(2, 5), member(1, 5), member(1, 5)];
    assert!(same_members_unordered(&a, &c));
    assert!(!members_equal(&a, &c));
    assert!(!same_members_unordered(&a, &a[..2].to_vec()));
}

#[test]
fn addresses_differing_in_one_byte_differ() {
    let mut other = addr(0xAA);
    other.bytes[19] = 0xAB;
    assert!(!addr(0xAA).same_as(&other));
    assert!(addr(0xAA).same_as(&addr(0xAA)));
    let cosmos = Valset { nonce: 2, members: vec![ValsetMember { eth_address: other, power: 1 }] };
    let eth = valset(2, &[(0xAA, 1)]);
    assert_eq!(
        check_if_valsets_differ(Some(cosmos), &eth),
        ConsensusOutcome::MemberSetDisagreement
    );
}

#[test]
fn critical_outcomes() {
    assert!(ConsensusOutcome::CosmosMissing.is_critical());
    assert!(ConsensusOutcome::NonceMismatch.is_critical());
    assert!(ConsensusOutcome::MemberSetDisagreement.is_critical());
    assert!(!ConsensusOutcome::Match.is_critical());
    assert!(!ConsensusOutcome::Bootstrap.is_critical());
    assert!(!ConsensusOutcome::OrderingDisagreement.is_critical());
}
