use vstd::prelude::*;
use crate::consensus::{check_if_valsets_differ, classify, option_view, ConsensusOutcome};
use crate::event::{decode_spec, decode_valset_updated, RawLog, ValsetUpdatedEvent};
use crate::valset::Valset;

verus! {

/// How many blocks below its upper bound one query window reaches.
pub const BLOCKS_TO_SEARCH: u64 = 5000;

/// The lower bound of the window whose upper bound is `high`, clamped at block 0.
pub open spec fn window_floor(high: u64) -> u64 {
    if high < BLOCKS_TO_SEARCH {
        0
    } else {
        (high - BLOCKS_TO_SEARCH) as u64
    }
}

/// A log read as a validator-set update: nonce, members and block height.
pub open spec fn event_model(l: RawLog) -> Option<(u64, Seq<(Seq<u8>, u64)>, u64)> {
    match decode_spec(l.topics_view(), l.data@) {
        Ok((nonce, members)) => Some((nonce, members, l.block_number)),
        Err(_) => None,
    }
}

/// The most recent update among a window's logs: of the logs that decode, the
/// one in the highest block, and of those the last. The node returns logs oldest
/// first, so this is the last log that decodes; the choice does not rest on that
/// order. Logs that do not decode are skipped.
pub open spec fn latest_in_window(logs: Seq<RawLog>) -> Option<(u64, Seq<(Seq<u8>, u64)>, u64)>
    decreases logs.len(),
{
    if logs.len() == 0 {
        None
    } else {
        let earlier = latest_in_window(logs.drop_last());
        match event_model(logs.last()) {
            Some(e) => match earlier {
                Some(p) => if p.2 > e.2 {
                    Some(p)
                } else {
                    Some(e)
                },
                None => Some(e),
            },
            None => earlier,
        }
    }
}

/// The logs of a history mined in blocks `lo` through `hi`, in their order.
pub open spec fn in_window(history: Seq<RawLog>, lo: u64, hi: u64) -> Seq<RawLog> {
    history.filter(|l: RawLog| lo <= l.block_number && l.block_number <= hi)
}

/// The update that the backward scan from `high` finds in a history of logs
/// (oldest first), if any.
pub open spec fn scan(history: Seq<RawLog>, high: u64) -> Option<(u64, Seq<(Seq<u8>, u64)>, u64)>
    decreases high,
{
    let lo = window_floor(high);
    match latest_in_window(in_window(history, lo, high)) {
        Some(e) => Some(e),
        None => if lo == 0 {
            None
        } else {
            scan(history, (lo - 1) as u64)
        },
    }
}

/// The lower bound of the last window that the backward scan from `high` queries.
pub open spec fn scan_floor(history: Seq<RawLog>, high: u64) -> u64
    decreases high,
{
    let lo = window_floor(high);
    match latest_in_window(in_window(history, lo, high)) {
        Some(_) => lo,
        None => if lo == 0 {
            0
        } else {
            scan_floor(history, (lo - 1) as u64)
        },
    }
}

/// The abstract value of an update that may be absent.
pub open spec fn event_view(e: Option<ValsetUpdatedEvent>) -> Option<
    (u64, Seq<(Seq<u8>, u64)>, u64),
> {
    match e {
        Some(v) => Some(v@),
        None => None,
    }
}

/// The lower bound of the query window below `high`.
pub fn window_start(high: u64) -> (r: u64)
    ensures
        r == window_floor(high),
{
    if high < BLOCKS_TO_SEARCH {
        0
    } else {
        high - BLOCKS_TO_SEARCH
    }
}

/// Picks the most recent validator-set update among the logs of one window:
/// of the logs that decode, the one in the highest block, and of those the last.
pub fn latest_valset_event(logs: &Vec<RawLog>) -> (r: Option<ValsetUpdatedEvent>)
    ensures
        event_view(r) == latest_in_window(logs@),
{
    let mut best: Option<ValsetUpdatedEvent> = None;
    let mut i: usize = 0;
    assert(logs@.take(0) =~= Seq::<RawLog>::empty());
    while i < logs.len()
        invariant
            0 <= i <= logs@.len(),
            event_view(best) == latest_in_window(logs@.take(i as int)),
        decreases logs.len() - i,
    {
        assert(logs@.take(i + 1).drop_last() =~= logs@.take(i as int));
        match decode_valset_updated(&logs[i]) {
            Ok(e) => {
                let keep = match &best {
                    Some(p) => p.block_height > e.block_height,
                    None => false,
                };
                if !keep {
                    best = Some(e);
                }
            },
            Err(_) => {},
        }
        i = i + 1;
    }
    assert(logs@.take(logs@.len() as int) =~= logs@);
    best
}

/// The outcome of a discovery: the validator set found on the Ethereum contract,
/// and how the Cosmos-side record for its nonce relates to it.
#[derive(Debug)]
pub struct Discovery {
    pub valset: Valset,
    pub consensus: ConsensusOutcome,
}

/// A backward search for the latest validator-set update on the Ethereum
/// contract: the upper bound of the next window to query, and what the Cosmos
/// side holds for the contract's latest nonce.
#[derive(Debug)]
pub struct ValsetSearch {
    pub current_block: u64,
    pub cosmos_valset: Option<Valset>,
}

/// What to do after one window has been queried.
#[derive(Debug)]
pub enum SearchStep {
    /// The latest update was found and compared with the Cosmos side.
    Found(Discovery),
    /// Nothing usable in this window: query the next, older one.
    Continue(ValsetSearch),
    /// The history down to block 0 holds no usable update: the contract is
    /// probably not a bridge contract.
    NotFound,
}

impl ValsetSearch {
    /// A search that starts at the chain head.
    pub fn new(latest_block: u64, cosmos_valset: Option<Valset>) -> (r: ValsetSearch)
        ensures
            r.current_block == latest_block,
            option_view(r.cosmos_valset) == option_view(cosmos_valset),
    {
        ValsetSearch { current_block: latest_block, cosmos_valset }
    }

    /// The blocks of the next window to query, both ends included.
    pub fn window(&self) -> (r: (u64, u64))
        ensures
            r == (window_floor(self.current_block), self.current_block),
    {
        (window_start(self.current_block), self.current_block)
    }

    /// Takes the logs of the current window (oldest first) and decides: the
    /// latest update that decodes is the answer and is checked against the Cosmos
    /// side; else the search moves below the window, or ends at block 0.
    pub fn step(self, logs: &Vec<RawLog>) -> (r: SearchStep)
        ensures
            match latest_in_window(logs@) {
                Some(e) => match r {
                    SearchStep::Found(d) => d.valset@ == (e.0, e.1) && d.consensus == classify(
                        option_view(self.cosmos_valset),
                        (e.0, e.1),
                    ),
                    _ => false,
                },
                None => match r {
                    SearchStep::Continue(next) => window_floor(self.current_block) != 0
                        && next.current_block == window_floor(self.current_block) - 1
                        && option_view(next.cosmos_valset) == option_view(self.cosmos_valset),
                    SearchStep::NotFound => window_floor(self.current_block) == 0,
                    _ => false,
                },
            },
    {
        let low = window_start(self.current_block);
        match latest_valset_event(logs) {
            Some(e) => {
                let valset = Valset { nonce: e.nonce, members: e.members };
                let consensus = check_if_valsets_differ(self.cosmos_valset, &valset);
                SearchStep::Found(Discovery { valset, consensus })
            },
            None => if low == 0 {
                SearchStep::NotFound
            } else {
                SearchStep::Continue(
                    ValsetSearch { current_block: low - 1, cosmos_valset: self.cosmos_valset },
                )
            },
        }
    }
}

/// Why a discovery failed, apart from failures to reach either chain.
#[derive(Clone, Copy, Debug, PartialEq, Eq)]
pub enum DiscoveryError {
    /// The Cosmos side reports no current validator set at all.
    InvalidBridgeState,
    /// The contract's history down to block 0 holds no usable validator-set
    /// update: the configured address is probably not a bridge contract.
    NoValidValset,
}

/// The Cosmos side's answer to a query for the current validator set: there
/// must be one.
pub fn current_valset_from_reply(reply: Option<Valset>) -> (r: Result<Valset, DiscoveryError>)
    ensures
        match reply {
            Some(v) => match r {
                Ok(w) => w@ == v@,
                Err(_) => false,
            },
            None => match r {
                Ok(_) => false,
                Err(e) => e == DiscoveryError::InvalidBridgeState,
            },
        },
{
    match reply {
        Some(v) => Ok(v),
        None => Err(DiscoveryError::InvalidBridgeState),
    }
}

/// Within one window, where every log that decodes is `x`: the window's update
/// is `x`'s, if the window holds it.
proof fn lemma_unique_in_window(s: Seq<RawLog>, x: RawLog)
    requires
        event_model(x) is Some,
        forall|i: int| 0 <= i < s.len() && (#[trigger] event_model(s[i])) is Some ==> s[i] == x,
    ensures
        latest_in_window(s) == (if s.contains(x) {
            event_model(x)
        } else {
            None
        }),
    decreases s.len(),
{
    if s.len() > 0 {
        let t = s.drop_last();
        assert forall|i: int| 0 <= i < t.len() && (#[trigger] event_model(t[i])) is Some implies t[i]
            == x by {
            assert(t[i] == s[i]);
        }
        lemma_unique_in_window(t, x);
        if event_model(s.last()) is Some {
            assert(s.last() == s[s.len() - 1]);
            assert(s.contains(x));
        } else {
            assert(s.last() != x);
            assert(s =~= t.push(s.last()));
            if s.contains(x) {
                let j = choose|j: int| 0 <= j < s.len() && s[j] == x;
                assert(j != s.len() - 1);
                assert(t[j] == x);
            }
            if t.contains(x) {
                let j = choose|j: int| 0 <= j < t.len() && t[j] == x;
                assert(s[j] == x);
            }
        }
    }
}

/// A window with no log that decodes holds no update.
proof fn lemma_none_in_window(s: Seq<RawLog>)
    requires
        forall|i: int| 0 <= i < s.len() ==> (#[trigger] event_model(s[i])) is None,
    ensures
        latest_in_window(s) is None,
    decreases s.len(),
{
    if s.len() > 0 {
        let t = s.drop_last();
        assert forall|i: int| 0 <= i < t.len() implies (#[trigger] event_model(t[i])) is None by {
            assert(t[i] == s[i]);
        }
        lemma_none_in_window(t);
    }
}

/// The logs of a window are logs of the history within its blocks.
proof fn lemma_window_member(history: Seq<RawLog>, lo: u64, hi: u64, i: int)
    requires
        0 <= i < in_window(history, lo, hi).len(),
    ensures
        history.contains(in_window(history, lo, hi)[i]),
        lo <= in_window(history, lo, hi)[i].block_number <= hi,
{
    let pred = |l: RawLog| lo <= l.block_number && l.block_number <= hi;
    let f = history.filter(pred);
    history.filter_lemma(pred);
    assert(f.contains(f[i]));
    history.lemma_filter_contains_rev(pred, f[i]);
}

/// A history whose only update at or below the head is mined at block `h`:
/// the backward scan returns that update, and the last window it queries is the
/// one that holds block `h`, so nothing below that window is looked at.
pub proof fn lemma_scan_finds_single_update(history: Seq<RawLog>, head: u64, k: int)
    requires
        0 <= k < history.len(),
        event_model(history[k]) is Some,
        history[k].block_number <= head,
        forall|j: int|
            0 <= j < history.len() && j != k && history[j].block_number <= head ==> (
            #[trigger] event_model(history[j])) is None,
    ensures
        scan(history, head) == event_model(history[k]),
        scan_floor(history, head) <= history[k].block_number,
        history[k].block_number <= scan_floor(history, head) + BLOCKS_TO_SEARCH,
    decreases head,
{
    let x = history[k];
    let h = x.block_number;
    let lo = window_floor(head);
    let f = in_window(history, lo, head);
    let pred = |l: RawLog| lo <= l.block_number && l.block_number <= head;
    if lo <= h {
        history.lemma_filter_contains(pred, k);
        assert forall|i: int| 0 <= i < f.len() && (#[trigger] event_model(f[i])) is Some implies f[i]
            == x by {
            lemma_window_member(history, lo, head, i);
            let j = choose|j: int| 0 <= j < history.len() && history[j] == f[i];
            if j != k {
                assert(event_model(history[j]) is None);
            }
        }
        lemma_unique_in_window(f, x);
    } else {
        assert forall|i: int| 0 <= i < f.len() implies (#[trigger] event_model(f[i])) is None by {
            lemma_window_member(history, lo, head, i);
            let j = choose|j: int| 0 <= j < history.len() && history[j] == f[i];
            assert(j != k);
        }
        lemma_none_in_window(f);
        lemma_scan_finds_single_update(history, (lo - 1) as u64, k);
    }
}

/// A history with no update at or below the head: the backward scan ends with
/// nothing found, never with a made-up set.
pub proof fn lemma_scan_without_updates_finds_nothing(history: Seq<RawLog>, head: u64)
    requires
        forall|j: int|
            0 <= j < history.len() && history[j].block_number <= head ==> (
            #[trigger] event_model(history[j])) is None,
    ensures
        scan(history, head) is None,
    decreases head,
{
    let lo = window_floor(head);
    let f = in_window(history, lo, head);
    assert forall|i: int| 0 <= i < f.len() implies (#[trigger] event_model(f[i])) is None by {
        lemma_window_member(history, lo, head, i);
        let j = choose|j: int| 0 <= j < history.len() && history[j] == f[i];
    }
    lemma_none_in_window(f);
    if lo != 0 {
        lemma_scan_without_updates_finds_nothing(history, (lo - 1) as u64);
    }
}

/// One step of the search, fed the logs of its window of a history, is one step
/// of the backward scan of that history: it finds what the scan finds from
/// there, or it moves to where the scan goes on, or both end with nothing.
pub proof fn lemma_step_follows_scan(history: Seq<RawLog>, high: u64)
    ensures
        ({
            let lo = window_floor(high);
            let found = latest_in_window(in_window(history, lo, high));
            &&& found is Some ==> scan(history, high) == found
            &&& found is None && lo == 0 ==> scan(history, high) is None
            &&& found is None && lo != 0 ==> scan(history, high) == scan(history, (lo - 1) as u64)
        }),
{
}

/// Discovery depends on the chain's history and head alone: two scans of an
/// unchanged chain find the same update.
pub proof fn lemma_scan_deterministic(first: Seq<RawLog>, second: Seq<RawLog>, head: u64)
    requires
        first == second,
    ensures
        scan(first, head) == scan(second, head),
        scan_floor(first, head) == scan_floor(second, head),
{
}

} // verus!
