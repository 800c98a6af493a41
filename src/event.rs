use vstd::prelude::*;
use crate::valset::{members_model, EthAddress, ValsetMember};

verus! {

/// A raw contract log as the Ethereum node returns it: the block it was mined
/// in, its indexed topics and its ABI-encoded data.
#[derive(Clone, Debug, PartialEq, Eq)]
pub struct RawLog {
    pub block_number: u64,
    pub topics: Vec<Vec<u8>>,
    pub data: Vec<u8>,
}

/// A decoded `ValsetUpdatedEvent(uint256 indexed nonce, address[] validators, uint256[] powers)`.
#[derive(Clone, Debug, PartialEq, Eq)]
pub struct ValsetUpdatedEvent {
    pub nonce: u64,
    pub members: Vec<ValsetMember>,
    pub block_height: u64,
}

/// Why a log could not be read as a validator-set update.
#[derive(Clone, Copy, Debug, PartialEq, Eq)]
pub enum EventDecodeError {
    /// Fewer than two topics: no indexed nonce.
    TooFewTopics,
    /// The nonce topic is not a 32-byte word holding a `u64`.
    BadNonce,
    /// The data ends before a word that the layout places there.
    Truncated,
    /// An array length word does not hold a `u64`.
    LengthOverflow,
    /// The address and power arrays have different lengths.
    ArrayLengthMismatch,
    /// A power word does not hold a `u64`.
    PowerOverflow,
}

/// 256 to the power `n`.
pub open spec fn pow256(n: nat) -> nat
    decreases n,
{
    if n == 0 {
        1
    } else {
        256 * pow256((n - 1) as nat)
    }
}

proof fn lemma_pow256_mono(a: nat, b: nat)
    requires
        a <= b,
    ensures
        pow256(a) <= pow256(b),
    decreases b,
{
    if a < b {
        lemma_pow256_mono(a, (b - 1) as nat);
    }
}

proof fn lemma_pow256_eight()
    ensures
        pow256(8) == 0x1_0000_0000_0000_0000,
{
    reveal_with_fuel(pow256, 9);
}

/// The unsigned big-endian value of a byte string.
pub open spec fn be_value(s: Seq<u8>) -> nat
    decreases s.len(),
{
    if s.len() == 0 {
        0
    } else {
        be_value(s.drop_last()) * 256 + s.last() as nat
    }
}

/// The `u64` held by a 32-byte ABI word: its first 24 bytes are zero and its
/// value is that of the last 8.
pub open spec fn word_u64(w: Seq<u8>) -> Option<u64> {
    if w.len() == 32 && (forall|k: int| 0 <= k < 24 ==> w[k] == 0) {
        Some(be_value(w.subrange(24, 32)) as u64)
    } else {
        None
    }
}

/// The `k`-th 32-byte word of ABI data.
pub open spec fn word_at(d: Seq<u8>, k: int) -> Seq<u8> {
    d.subrange(32 * k, 32 * k + 32)
}

/// An address word holds the address in its last 20 bytes.
pub open spec fn address_at(d: Seq<u8>, k: int) -> Seq<u8> {
    d.subrange(32 * k + 12, 32 * k + 32)
}

/// The power word of the `i`-th member, in data with `n` validators.
pub open spec fn power_at(d: Seq<u8>, n: int, i: int) -> Option<u64> {
    word_u64(word_at(d, 4 + n + i))
}

/// The members that data with `n` validators lays out: the addresses from
/// word 3 on, the powers after the second length word.
pub open spec fn members_at(d: Seq<u8>, n: int) -> Seq<(Seq<u8>, u64)> {
    Seq::new(n as nat, |i: int| (address_at(d, 3 + i), power_at(d, n, i)->0))
}

/// What a log decodes to: the nonce and the members in order, or the first
/// fault of the layout.
pub open spec fn decode_spec(topics: Seq<Seq<u8>>, d: Seq<u8>) -> Result<
    (u64, Seq<(Seq<u8>, u64)>),
    EventDecodeError,
> {
    if topics.len() < 2 {
        Err(EventDecodeError::TooFewTopics)
    } else if word_u64(topics[1]) is None {
        Err(EventDecodeError::BadNonce)
    } else if d.len() < 96 {
        Err(EventDecodeError::Truncated)
    } else if word_u64(word_at(d, 2)) is None {
        Err(EventDecodeError::LengthOverflow)
    } else {
        let n = word_u64(word_at(d, 2))->0 as int;
        if d.len() < 32 * (n + 4) {
            Err(EventDecodeError::Truncated)
        } else if word_u64(word_at(d, 3 + n)) is None {
            Err(EventDecodeError::LengthOverflow)
        } else if word_u64(word_at(d, 3 + n))->0 as int != n {
            Err(EventDecodeError::ArrayLengthMismatch)
        } else if d.len() < 32 * (2 * n + 4) {
            Err(EventDecodeError::Truncated)
        } else if exists|i: int| 0 <= i < n && #[trigger] power_at(d, n, i) is None {
            Err(EventDecodeError::PowerOverflow)
        } else {
            Ok((word_u64(topics[1])->0, members_at(d, n)))
        }
    }
}

impl RawLog {
    /// The topics as byte strings.
    pub open spec fn topics_view(&self) -> Seq<Seq<u8>> {
        self.topics@.map_values(|t: Vec<u8>| t@)
    }
}

impl View for ValsetUpdatedEvent {
    type V = (u64, Seq<(Seq<u8>, u64)>, u64);

    open spec fn view(&self) -> (u64, Seq<(Seq<u8>, u64)>, u64) {
        (self.nonce, members_model(self.members@), self.block_height)
    }
}

/// Reads the `u64` in the 32-byte word at `start`, if the word is there and holds one.
fn read_word_u64(d: &Vec<u8>, start: usize) -> (r: Option<u64>)
    requires
        start + 32 <= d@.len(),
    ensures
        r == word_u64(d@.subrange(start as int, start + 32)),
{
    let ghost w = d@.subrange(start as int, start + 32);
    let len = d.len();
    let mut k: usize = 0;
    while k < 24
        invariant
            start + 32 <= d@.len(),
            len == d@.len(),
            w == d@.subrange(start as int, start + 32),
            0 <= k <= 24,
            forall|j: int| 0 <= j < k ==> w[j] == 0,
        decreases 24 - k,
    {
        if d[start + k] != 0 {
            assert(w[k as int] != 0);
            return None;
        }
        k = k + 1;
    }
    let mut acc: u64 = 0;
    proof {
        lemma_pow256_eight();
    }
    while k < 32
        invariant
            start + 32 <= d@.len(),
            len == d@.len(),
            w == d@.subrange(start as int, start + 32),
            24 <= k <= 32,
            acc as nat == be_value(w.subrange(24, k as int)),
            acc < pow256((k - 24) as nat),
            pow256(8) == 0x1_0000_0000_0000_0000,
        decreases 32 - k,
    {
        let b = d[start + k];
        assert(w.subrange(24, k + 1).drop_last() =~= w.subrange(24, k as int));
        proof {
            lemma_pow256_mono((k + 1 - 24) as nat, 8);
        }
        acc = acc * 256 + b as u64;
        k = k + 1;
    }
    Some(acc)
}

/// Copies the 20 address bytes at `start`.
fn read_address(d: &Vec<u8>, start: usize) -> (r: EthAddress)
    requires
        start + 20 <= d@.len(),
    ensures
        r@ == d@.subrange(start as int, start + 20),
{
    let len = d.len();
    let mut bytes: [u8; 20] = [0u8; 20];
    let mut k: usize = 0;
    while k < 20
        invariant
            start + 20 <= d@.len(),
            len == d@.len(),
            0 <= k <= 20,
            forall|j: int| 0 <= j < k ==> bytes@[j] == d@[start + j],
        decreases 20 - k,
    {
        bytes[k] = d[start + k];
        k = k + 1;
    }
    let r = EthAddress { bytes };
    assert(r@ =~= d@.subrange(start as int, start + 20));
    r
}

/// Decodes a `ValsetUpdatedEvent` log: the nonce from the indexed topic, then the
/// address array and the power array from the data, which must have equal
/// lengths. The block height is the log's.
pub fn decode_valset_updated(log: &RawLog) -> (r: Result<ValsetUpdatedEvent, EventDecodeError>)
    ensures
        match r {
            Ok(e) => decode_spec(log.topics_view(), log.data@) == Ok::<
                (u64, Seq<(Seq<u8>, u64)>),
                EventDecodeError,
            >((e.nonce, members_model(e.members@))) && e.block_height == log.block_number,
            Err(x) => decode_spec(log.topics_view(), log.data@) == Err::<
                (u64, Seq<(Seq<u8>, u64)>),
                EventDecodeError,
            >(x),
        },
{
    if log.topics.len() < 2 {
        return Err(EventDecodeError::TooFewTopics);
    }
    let topic = &log.topics[1];
    assert(log.topics_view()[1] == topic@);
    if topic.len() != 32 {
        return Err(EventDecodeError::BadNonce);
    }
    assert(topic@.subrange(0, 32) =~= topic@);
    let nonce = match read_word_u64(topic, 0) {
        Some(v) => v,
        None => {
            return Err(EventDecodeError::BadNonce);
        },
    };
    let d = &log.data;
    if d.len() < 96 {
        return Err(EventDecodeError::Truncated);
    }
    let n = match read_word_u64(d, 64) {
        Some(v) => v,
        None => {
            return Err(EventDecodeError::LengthOverflow);
        },
    };
    if (d.len() as u128) < 32 * (n as u128 + 4) {
        return Err(EventDecodeError::Truncated);
    }
    let nu = n as usize;
    let m = match read_word_u64(d, 32 * (3 + nu)) {
        Some(v) => v,
        None => {
            return Err(EventDecodeError::LengthOverflow);
        },
    };
    if m != n {
        return Err(EventDecodeError::ArrayLengthMismatch);
    }
    if (d.len() as u128) < 32 * (2 * (n as u128) + 4) {
        return Err(EventDecodeError::Truncated);
    }
    let len = d.len();
    let mut members: Vec<ValsetMember> = Vec::new();
    let mut i: usize = 0;
    while i < nu
        invariant
            nu == n,
            len == d@.len(),
            d@ == log.data@,
            log.topics_view().len() >= 2,
            word_u64(log.topics_view()[1]) == Some(nonce),
            d@.len() >= 96,
            word_u64(word_at(d@, 2)) == Some(n),
            word_u64(word_at(d@, 3 + n)) == Some(n),
            d@.len() >= 32 * (2 * n + 4),
            0 <= i <= nu,
            forall|j: int| 0 <= j < i ==> (#[trigger] power_at(d@, n as int, j)) is Some,
            members_model(members@) =~= members_at(d@, n as int).take(i as int),
        decreases nu - i,
    {
        let power = match read_word_u64(d, 32 * (4 + nu + i)) {
            Some(v) => v,
            None => {
                assert(power_at(d@, n as int, i as int) is None);
                return Err(EventDecodeError::PowerOverflow);
            },
        };
        let eth_address = read_address(d, 32 * (3 + i) + 12);
        let member = ValsetMember { eth_address, power };
        let ghost before = members@;
        members.push(member);
        proof {
            assert(member@ == members_at(d@, n as int)[i as int]);
            assert(members_model(members@) =~= members_model(before).push(member@));
            assert(members_at(d@, n as int).take(i + 1) =~= members_at(d@, n as int).take(
                i as int,
            ).push(member@));
        }
        i = i + 1;
    }
    assert(members_at(d@, n as int).take(n as int) =~= members_at(d@, n as int));
    Ok(ValsetUpdatedEvent { nonce, members, block_height: log.block_number })
}

} // verus!
