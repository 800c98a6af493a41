use vstd::prelude::*;

verus! {

/// A 20-byte Ethereum address.
#[derive(Clone, Copy, Debug, PartialEq, Eq)]
pub struct EthAddress {
    pub bytes: [u8; 20],
}

/// One signer of a validator set: its Ethereum address and its voting power.
#[derive(Clone, Copy, Debug, PartialEq, Eq)]
pub struct ValsetMember {
    pub eth_address: EthAddress,
    pub power: u64,
}

/// A validator set as committed under a given update nonce. The order of
/// `members` matters for on-chain verification, not for set equality.
#[derive(Clone, Debug, PartialEq, Eq)]
pub struct Valset {
    pub nonce: u64,
    pub members: Vec<ValsetMember>,
}

impl View for EthAddress {
    type V = Seq<u8>;

    open spec fn view(&self) -> Seq<u8> {
        self.bytes@
    }
}

impl View for ValsetMember {
    type V = (Seq<u8>, u64);

    open spec fn view(&self) -> (Seq<u8>, u64) {
        (self.eth_address@, self.power)
    }
}

/// The abstract members of a validator set, in order.
pub open spec fn members_model(s: Seq<ValsetMember>) -> Seq<(Seq<u8>, u64)> {
    s.map_values(|m: ValsetMember| m@)
}

impl View for Valset {
    type V = (u64, Seq<(Seq<u8>, u64)>);

    open spec fn view(&self) -> (u64, Seq<(Seq<u8>, u64)>) {
        (self.nonce, members_model(self.members@))
    }
}

impl EthAddress {
    /// Byte-wise equality of two addresses.
    pub fn same_as(&self, other: &EthAddress) -> (r: bool)
        ensures
            r == (self@ == other@),
    {
        let mut i: usize = 0;
        while i < 20
            invariant
                0 <= i <= 20,
                forall|j: int| 0 <= j < i ==> self@[j] == other@[j],
            decreases 20 - i,
        {
            if self.bytes[i] != other.bytes[i] {
                return false;
            }
            i = i + 1;
        }
        assert(self@ =~= other@);
        true
    }
}

impl ValsetMember {
    /// Equality of address and power.
    pub fn same_as(&self, other: &ValsetMember) -> (r: bool)
        ensures
            r == (self@ == other@),
    {
        self.power == other.power && self.eth_address.same_as(&other.eth_address)
    }
}

} // verus!
