//! The protocol's keyed ledgers: whitelisted collaterals, hedging
//! positions, and liquidity-share fee balances.
//!
//! Lookups return `Option`; an absent share balance is a defined zero,
//! an absent collateral is an unwhitelisted one, and an absent position
//! is a liquidated (erased) one.

use vstd::prelude::*;
use crate::fees::CurrentFeeConfiguration;
use crate::hedging::HedgingPosition;
use crate::math::ONE;
use crate::pool::Pool;

verus! {

/// Everything the protocol keeps per whitelisted collateral asset.
#[derive(Clone, Copy, Debug, PartialEq, Eq)]
pub struct Collateral {
    /// Identifier of the collateral asset.
    pub collateral_id: u64,
    /// Raw units that make one whole unit of this asset.
    pub precision: u128,
    /// The pool ledger of this asset.
    pub pool: Pool,
    /// The fee rates currently charged on swaps of this asset.
    pub fee_configuration: CurrentFeeConfiguration,
    /// Collateral-denominated fees pending distribution.
    pub accumulated_fees: u128,
    /// Share of split fees credited to liquidity providers (fixed-point percentage).
    pub liq_provider_fee_reward_percentage: u128,
    /// Margin ratio at or below which a position may be liquidated.
    pub hedging_maintenance_ratio: u128,
    /// Fraction of the pool's collateral that bounds the covered value
    /// before positions may be force-closed (fixed-point percentage).
    pub limit_hedge_percentage: u128,
    /// The liquidity-share token unit that currently collects fee rewards.
    pub liq_sft_nonce: u64,
}

/// A hedging position stored under its unique identifier.
#[derive(Clone, Copy, Debug, PartialEq, Eq)]
pub struct PositionEntry {
    /// The position's identifier.
    pub nonce: u64,
    /// The position itself.
    pub position: HedgingPosition,
}

/// Fee rewards credited to one liquidity-share token unit.
#[derive(Clone, Copy, Debug, PartialEq, Eq)]
pub struct ShareEntry {
    /// The share token unit the balance belongs to.
    pub nonce: u64,
    /// Collateral credited to that unit by fee splits.
    pub amount: u128,
}

/// The whole mutable state of the protocol core.
#[derive(Clone, Debug, PartialEq, Eq)]
pub struct ProtocolState {
    /// Identifier of the stablecoin asset itself.
    pub stablecoin_token_id: u64,
    /// The whitelisted collaterals, each with its ledgers; one entry per id.
    pub collaterals: Vec<Collateral>,
    /// The open or force-closed hedging positions; one entry per nonce.
    pub positions: Vec<PositionEntry>,
    /// Fee rewards per liquidity-share token unit; one entry per nonce.
    pub liquidity_share_balances: Vec<ShareEntry>,
}

/// Bounds every stored collateral keeps: percentages at most 100%, a
/// positive precision, and a maintenance ratio a signed margin compares to.
pub open spec fn collateral_wf(c: Collateral) -> bool {
    &&& c.precision >= 1
    &&& c.liq_provider_fee_reward_percentage <= ONE
    &&& c.fee_configuration.mint_fee_percentage <= ONE
    &&& c.fee_configuration.burn_fee_percentage <= ONE
    &&& c.hedging_maintenance_ratio <= i128::MAX
}

/// No two entries share a collateral id.
pub open spec fn collateral_ids_unique(s: Seq<Collateral>) -> bool {
    forall|i: int, j: int|
        0 <= i < j < s.len() ==> s[i].collateral_id != s[j].collateral_id
}

/// No two entries share a position nonce.
pub open spec fn position_nonces_unique(s: Seq<PositionEntry>) -> bool {
    forall|i: int, j: int| 0 <= i < j < s.len() ==> s[i].nonce != s[j].nonce
}

/// No two entries share a share-token nonce.
pub open spec fn share_nonces_unique(s: Seq<ShareEntry>) -> bool {
    forall|i: int, j: int| 0 <= i < j < s.len() ==> s[i].nonce != s[j].nonce
}

/// Whether `collateral_id` is whitelisted.
pub open spec fn has_collateral(s: Seq<Collateral>, collateral_id: u64) -> bool {
    exists|i: int| 0 <= i < s.len() && s[i].collateral_id == collateral_id
}

/// The index of `collateral_id` in the whitelist (meaningful when present).
pub open spec fn collateral_index(s: Seq<Collateral>, collateral_id: u64) -> int {
    choose|i: int| 0 <= i < s.len() && s[i].collateral_id == collateral_id
}

/// The whitelisted entry of `collateral_id` (meaningful when present).
pub open spec fn the_collateral(s: Seq<Collateral>, collateral_id: u64) -> Collateral {
    s[collateral_index(s, collateral_id)]
}

/// Whether a position record is stored under `nonce`.
pub open spec fn has_position(s: Seq<PositionEntry>, nonce: u64) -> bool {
    exists|i: int| 0 <= i < s.len() && s[i].nonce == nonce
}

/// The index of the position stored under `nonce` (meaningful when present).
pub open spec fn position_index(s: Seq<PositionEntry>, nonce: u64) -> int {
    choose|i: int| 0 <= i < s.len() && s[i].nonce == nonce
}

/// The position stored under `nonce` (meaningful when present).
pub open spec fn the_position(s: Seq<PositionEntry>, nonce: u64) -> HedgingPosition {
    s[position_index(s, nonce)].position
}

/// Whether a share balance is stored under `nonce`.
pub open spec fn has_share(s: Seq<ShareEntry>, nonce: u64) -> bool {
    exists|i: int| 0 <= i < s.len() && s[i].nonce == nonce
}

/// The index of the share balance stored under `nonce` (meaningful when present).
pub open spec fn share_index(s: Seq<ShareEntry>, nonce: u64) -> int {
    choose|i: int| 0 <= i < s.len() && s[i].nonce == nonce
}

/// The fee reward balance of a share token unit; zero when absent.
pub open spec fn share_balance(s: Seq<ShareEntry>, nonce: u64) -> int {
    if has_share(s, nonce) {
        s[share_index(s, nonce)].amount as int
    } else {
        0
    }
}

/// Well-formedness of the whole state: keys are unique, every collateral
/// keeps its bounds, and every stored position insures a whitelisted
/// collateral.
pub open spec fn wf(st: ProtocolState) -> bool {
    &&& collateral_ids_unique(st.collaterals@)
    &&& position_nonces_unique(st.positions@)
    &&& share_nonces_unique(st.liquidity_share_balances@)
    &&& forall|i: int| 0 <= i < st.collaterals@.len() ==> collateral_wf(#[trigger] st.collaterals@[i])
    &&& forall|i: int|
        0 <= i < st.positions@.len() ==> has_collateral(
            st.collaterals@,
            (#[trigger] st.positions@[i]).position.collateral_id,
        )
}

/// When unique, the stored index of a present collateral id is the one
/// the entry stands at.
pub proof fn lemma_collateral_index_is(s: Seq<Collateral>, i: int)
    requires
        collateral_ids_unique(s),
        0 <= i < s.len(),
    ensures
        has_collateral(s, s[i].collateral_id),
        collateral_index(s, s[i].collateral_id) == i,
{
    let id = s[i].collateral_id;
    assert(has_collateral(s, id));
    let j = collateral_index(s, id);
    assert(0 <= j < s.len() && s[j].collateral_id == id);
    if i < j {
        assert(s[i].collateral_id != s[j].collateral_id);
    } else if j < i {
        assert(s[j].collateral_id != s[i].collateral_id);
    }
}

/// The same, for position nonces.
pub proof fn lemma_position_index_is(s: Seq<PositionEntry>, i: int)
    requires
        position_nonces_unique(s),
        0 <= i < s.len(),
    ensures
        has_position(s, s[i].nonce),
        position_index(s, s[i].nonce) == i,
{
    let id = s[i].nonce;
    assert(has_position(s, id));
    let j = position_index(s, id);
    assert(0 <= j < s.len() && s[j].nonce == id);
    if i < j {
        assert(s[i].nonce != s[j].nonce);
    } else if j < i {
        assert(s[j].nonce != s[i].nonce);
    }
}

/// The same, for share-token nonces.
pub proof fn lemma_share_index_is(s: Seq<ShareEntry>, i: int)
    requires
        share_nonces_unique(s),
        0 <= i < s.len(),
    ensures
        has_share(s, s[i].nonce),
        share_index(s, s[i].nonce) == i,
{
    let id = s[i].nonce;
    assert(has_share(s, id));
    let j = share_index(s, id);
    assert(0 <= j < s.len() && s[j].nonce == id);
    if i < j {
        assert(s[i].nonce != s[j].nonce);
    } else if j < i {
        assert(s[j].nonce != s[i].nonce);
    }
}

impl ProtocolState {
    /// An empty protocol state for the given stablecoin asset.
    pub fn new(stablecoin_token_id: u64) -> (st: ProtocolState)
        ensures
            wf(st),
            st.stablecoin_token_id == stablecoin_token_id,
            st.collaterals@.len() == 0,
            st.positions@.len() == 0,
            st.liquidity_share_balances@.len() == 0,
    {
        ProtocolState {
            stablecoin_token_id,
            collaterals: Vec::new(),
            positions: Vec::new(),
            liquidity_share_balances: Vec::new(),
        }
    }

    /// Adds a collateral asset to the whitelist.
    pub fn whitelist_collateral(&mut self, c: Collateral)
        requires
            wf(*old(self)),
            collateral_wf(c),
            !has_collateral(old(self).collaterals@, c.collateral_id),
        ensures
            wf(*final(self)),
            final(self).collaterals@ == old(self).collaterals@.push(c),
            final(self).positions == old(self).positions,
            final(self).liquidity_share_balances == old(self).liquidity_share_balances,
            final(self).stablecoin_token_id == old(self).stablecoin_token_id,
            has_collateral(final(self).collaterals@, c.collateral_id),
            the_collateral(final(self).collaterals@, c.collateral_id) == c,
            forall|id: u64|
                has_collateral(old(self).collaterals@, id) ==> has_collateral(final(self).collaterals@, id)
                    && the_collateral(final(self).collaterals@, id) == the_collateral(old(self).collaterals@, id),
    {
        self.collaterals.push(c);
        proof {
            let olds = old(self).collaterals@;
            let news = self.collaterals@;
            let n = olds.len() as int;
            assert forall|i: int, j: int|
                0 <= i < j < news.len() implies news[i].collateral_id
                != news[j].collateral_id by {
                if j < n {
                    assert(news[i] == olds[i] && news[j] == olds[j]);
                } else {
                    assert(news[j] == c && news[i] == olds[i]);
                    if news[i].collateral_id == c.collateral_id {
                        lemma_collateral_index_is(old(self).collaterals@, i);
                    }
                }
            }
            lemma_collateral_index_is(self.collaterals@, n);
            assert forall|id: u64| has_collateral(old(self).collaterals@, id) implies has_collateral(
                self.collaterals@,
                id,
            ) && the_collateral(self.collaterals@, id) == the_collateral(old(self).collaterals@, id) by {
                let i = collateral_index(old(self).collaterals@, id);
                assert(0 <= i < n && olds[i].collateral_id == id);
                assert(news[i] == olds[i]);
                lemma_collateral_index_is(old(self).collaterals@, i);
                lemma_collateral_index_is(self.collaterals@, i);
            }
            assert forall|i: int| 0 <= i < self.positions@.len() implies has_collateral(
                self.collaterals@,
                (#[trigger] self.positions@[i]).position.collateral_id,
            ) by {
                let pid = self.positions@[i].position.collateral_id;
                assert(has_collateral(old(self).collaterals@, pid));
                let k = collateral_index(old(self).collaterals@, pid);
                assert(0 <= k < n && olds[k].collateral_id == pid);
                assert(news[k] == olds[k]);
            }
        }
    }

    /// Records a hedging position under a fresh nonce, as the opaque
    /// open-position collaborator does.
    pub fn insert_hedging_position(&mut self, nonce: u64, position: HedgingPosition)
        requires
            wf(*old(self)),
            !has_position(old(self).positions@, nonce),
            has_collateral(old(self).collaterals@, position.collateral_id),
        ensures
            wf(*final(self)),
            final(self).positions@ == old(self).positions@.push(
                PositionEntry { nonce, position },
            ),
            final(self).collaterals == old(self).collaterals,
            final(self).liquidity_share_balances == old(self).liquidity_share_balances,
            final(self).stablecoin_token_id == old(self).stablecoin_token_id,
            has_position(final(self).positions@, nonce),
            the_position(final(self).positions@, nonce) == position,
    {
        self.positions.push(PositionEntry { nonce, position });
        proof {
            let olds = old(self).positions@;
            let news = self.positions@;
            let n = olds.len() as int;
            assert forall|i: int, j: int| 0 <= i < j < news.len() implies news[i].nonce
                != news[j].nonce by {
                if j < n {
                    assert(news[i] == olds[i] && news[j] == olds[j]);
                } else {
                    assert(news[j].nonce == nonce && news[i] == olds[i]);
                    if news[i].nonce == nonce {
                        lemma_position_index_is(old(self).positions@, i);
                    }
                }
            }
            lemma_position_index_is(self.positions@, n);
            assert forall|i: int| 0 <= i < news.len() implies has_collateral(
                self.collaterals@,
                (#[trigger] news[i]).position.collateral_id,
            ) by {
                if i < n {
                    assert(news[i] == olds[i]);
                    assert(has_collateral(old(self).collaterals@, olds[i].position.collateral_id));
                }
                let pid = news[i].position.collateral_id;
                let k = collateral_index(old(self).collaterals@, pid);
                assert(0 <= k < self.collaterals@.len() && self.collaterals@[k].collateral_id
                    == pid);
            }
        }
    }

    /// Looks a collateral id up in the whitelist.
    pub fn find_collateral(&self, collateral_id: u64) -> (r: Option<usize>)
        requires
            wf(*self),
        ensures
            match r {
                Some(i) => has_collateral(self.collaterals@, collateral_id) && collateral_index(
                    self.collaterals@,
                    collateral_id,
                ) == i as int && i < self.collaterals@.len(),
                None => !has_collateral(self.collaterals@, collateral_id),
            },
    {
        let n = self.collaterals.len();
        let mut i: usize = 0;
        while i < n
            invariant
                wf(*self),
                n == self.collaterals@.len(),
                i <= n,
                forall|k: int| 0 <= k < i ==> self.collaterals@[k].collateral_id != collateral_id,
            decreases n - i,
        {
            if self.collaterals[i].collateral_id == collateral_id {
                proof {
                    lemma_collateral_index_is(self.collaterals@, i as int);
                }
                return Some(i);
            }
            i = i + 1;
        }
        None
    }

    /// Looks a position nonce up.
    pub fn find_position(&self, nonce: u64) -> (r: Option<usize>)
        requires
            wf(*self),
        ensures
            match r {
                Some(i) => has_position(self.positions@, nonce) && position_index(self.positions@, nonce) == i as int
                    && i < self.positions@.len(),
                None => !has_position(self.positions@, nonce),
            },
    {
        let n = self.positions.len();
        let mut i: usize = 0;
        while i < n
            invariant
                wf(*self),
                n == self.positions@.len(),
                i <= n,
                forall|k: int| 0 <= k < i ==> self.positions@[k].nonce != nonce,
            decreases n - i,
        {
            if self.positions[i].nonce == nonce {
                proof {
                    lemma_position_index_is(self.positions@, i as int);
                }
                return Some(i);
            }
            i = i + 1;
        }
        None
    }

    /// Looks a share-token nonce up.
    fn find_share(&self, nonce: u64) -> (r: Option<usize>)
        requires
            wf(*self),
        ensures
            match r {
                Some(i) => has_share(self.liquidity_share_balances@, nonce) && share_index(self.liquidity_share_balances@, nonce) == i as int && i
                    < self.liquidity_share_balances@.len(),
                None => !has_share(self.liquidity_share_balances@, nonce),
            },
    {
        let n = self.liquidity_share_balances.len();
        let mut i: usize = 0;
        while i < n
            invariant
                wf(*self),
                n == self.liquidity_share_balances@.len(),
                i <= n,
                forall|k: int| 0 <= k < i ==> self.liquidity_share_balances@[k].nonce != nonce,
            decreases n - i,
        {
            if self.liquidity_share_balances[i].nonce == nonce {
                proof {
                    lemma_share_index_is(self.liquidity_share_balances@, i as int);
                }
                return Some(i);
            }
            i = i + 1;
        }
        None
    }

    /// The stored entry of a whitelisted collateral, or `None`.
    pub fn get_collateral(&self, collateral_id: u64) -> (r: Option<Collateral>)
        requires
            wf(*self),
        ensures
            match r {
                Some(c) => has_collateral(self.collaterals@, collateral_id) && c == the_collateral(
                    self.collaterals@,
                    collateral_id,
                ),
                None => !has_collateral(self.collaterals@, collateral_id),
            },
    {
        match self.find_collateral(collateral_id) {
            Some(i) => Some(self.collaterals[i]),
            None => None,
        }
    }

    /// The stored position under a nonce, or `None` after liquidation.
    pub fn get_hedging_position(&self, nonce: u64) -> (r: Option<HedgingPosition>)
        requires
            wf(*self),
        ensures
            match r {
                Some(p) => has_position(self.positions@, nonce) && p == the_position(self.positions@, nonce),
                None => !has_position(self.positions@, nonce),
            },
    {
        match self.find_position(nonce) {
            Some(i) => Some(self.positions[i].position),
            None => None,
        }
    }

    /// The fee reward balance of a share token unit; zero when absent.
    pub fn get_liquidity_share_balance(&self, nonce: u64) -> (r: u128)
        requires
            wf(*self),
        ensures
            r == share_balance(self.liquidity_share_balances@, nonce),
    {
        match self.find_share(nonce) {
            Some(i) => self.liquidity_share_balances[i].amount,
            None => 0,
        }
    }

    /// Overwrites the entry of an already whitelisted collateral; the key
    /// and the bounds stay intact.
    pub fn set_collateral(&mut self, i: usize, c: Collateral)
        requires
            wf(*old(self)),
            i < old(self).collaterals@.len(),
            c.collateral_id == old(self).collaterals@[i as int].collateral_id,
            collateral_wf(c),
        ensures
            wf(*final(self)),
            final(self).collaterals@ == old(self).collaterals@.update(i as int, c),
            final(self).positions == old(self).positions,
            final(self).liquidity_share_balances == old(self).liquidity_share_balances,
            final(self).stablecoin_token_id == old(self).stablecoin_token_id,
            collateral_index(final(self).collaterals@, c.collateral_id) == i as int,
            the_collateral(final(self).collaterals@, c.collateral_id) == c,
    {
        self.collaterals[i] = c;
        proof {
            let olds = old(self).collaterals@;
            let news = self.collaterals@;
            assert forall|a: int, b: int|
                0 <= a < b < news.len() implies news[a].collateral_id
                != news[b].collateral_id by {
                assert(news[a].collateral_id == olds[a].collateral_id);
                assert(news[b].collateral_id == olds[b].collateral_id);
            }
            lemma_collateral_index_is(self.collaterals@, i as int);
            assert forall|k: int| 0 <= k < self.positions@.len() implies has_collateral(
                self.collaterals@,
                (#[trigger] self.positions@[k]).position.collateral_id,
            ) by {
                let pid = self.positions@[k].position.collateral_id;
                assert(has_collateral(old(self).collaterals@, pid));
                let m = collateral_index(old(self).collaterals@, pid);
                assert(news[m].collateral_id == olds[m].collateral_id);
            }
        }
    }

    /// Overwrites the position stored at an index; the key and the insured
    /// collateral stay intact.
    pub fn set_position(&mut self, i: usize, position: HedgingPosition)
        requires
            wf(*old(self)),
            i < old(self).positions@.len(),
            position.collateral_id == old(self).positions@[i as int].position.collateral_id,
        ensures
            wf(*final(self)),
            final(self).positions@ == old(self).positions@.update(
                i as int,
                PositionEntry { nonce: old(self).positions@[i as int].nonce, position },
            ),
            final(self).collaterals == old(self).collaterals,
            final(self).liquidity_share_balances == old(self).liquidity_share_balances,
            final(self).stablecoin_token_id == old(self).stablecoin_token_id,
            position_index(final(self).positions@, old(self).positions@[i as int].nonce) == i as int,
            the_position(final(self).positions@, old(self).positions@[i as int].nonce) == position,
    {
        let nonce = self.positions[i].nonce;
        self.positions[i] = PositionEntry { nonce, position };
        proof {
            let olds = old(self).positions@;
            let news = self.positions@;
            assert forall|a: int, b: int| 0 <= a < b < news.len() implies news[a].nonce
                != news[b].nonce by {
                assert(news[a].nonce == olds[a].nonce);
                assert(news[b].nonce == olds[b].nonce);
            }
            lemma_position_index_is(self.positions@, i as int);
            assert forall|k: int| 0 <= k < news.len() implies has_collateral(
                self.collaterals@,
                (#[trigger] news[k]).position.collateral_id,
            ) by {
                let pid = news[k].position.collateral_id;
                assert(olds[k].position.collateral_id == pid);
                assert(has_collateral(old(self).collaterals@, pid));
                let m = collateral_index(old(self).collaterals@, pid);
                assert(0 <= m < self.collaterals@.len() && self.collaterals@[m].collateral_id
                    == pid);
            }
        }
    }

    /// Erases the position stored at an index, as liquidation does.
    pub fn remove_position(&mut self, i: usize)
        requires
            wf(*old(self)),
            i < old(self).positions@.len(),
        ensures
            wf(*final(self)),
            final(self).positions@ == old(self).positions@.remove(i as int),
            final(self).collaterals == old(self).collaterals,
            final(self).liquidity_share_balances == old(self).liquidity_share_balances,
            final(self).stablecoin_token_id == old(self).stablecoin_token_id,
            !has_position(final(self).positions@, old(self).positions@[i as int].nonce),
            forall|n: u64|
                n != old(self).positions@[i as int].nonce && has_position(old(self).positions@, n)
                    ==> has_position(final(self).positions@, n) && the_position(final(self).positions@, n)
                    == the_position(old(self).positions@, n),
    {
        let _ = self.positions.remove(i);
        proof {
            let olds = old(self).positions@;
            let news = self.positions@;
            let gone = olds[i as int].nonce;
            assert forall|a: int, b: int| 0 <= a < b < news.len() implies news[a].nonce
                != news[b].nonce by {
                let a0 = if a < i as int { a } else { a + 1 };
                let b0 = if b < i as int { b } else { b + 1 };
                assert(news[a] == olds[a0]);
                assert(news[b] == olds[b0]);
            }
            assert forall|k: int| 0 <= k < news.len() implies has_collateral(
                self.collaterals@,
                (#[trigger] news[k]).position.collateral_id,
            ) by {
                let k0 = if k < i as int { k } else { k + 1 };
                assert(news[k] == olds[k0]);
                let pid = olds[k0].position.collateral_id;
                assert(has_collateral(old(self).collaterals@, pid));
                let m = collateral_index(old(self).collaterals@, pid);
                assert(0 <= m < self.collaterals@.len() && self.collaterals@[m].collateral_id
                    == pid);
            }
            if has_position(self.positions@, gone) {
                let j = position_index(self.positions@, gone);
                assert(0 <= j < news.len() && news[j].nonce == gone);
                let j0 = if j < i as int { j } else { j + 1 };
                assert(news[j] == olds[j0]);
                lemma_position_index_is(old(self).positions@, j0);
                lemma_position_index_is(old(self).positions@, i as int);
            }
            assert forall|n: u64| n != gone && has_position(old(self).positions@, n) implies has_position(
                self.positions@,
                n,
            ) && the_position(self.positions@, n) == the_position(old(self).positions@, n) by {
                let j0 = position_index(old(self).positions@, n);
                assert(0 <= j0 < olds.len() && olds[j0].nonce == n);
                let j = if j0 < i as int { j0 } else { j0 - 1 };
                assert(j0 != i as int);
                assert(news[j] == olds[j0]);
                lemma_position_index_is(self.positions@, j);
                lemma_position_index_is(old(self).positions@, j0);
            }
        }
    }

    /// Credits split-fee collateral to a share token unit, creating its
    /// balance entry when none exists yet.
    pub fn credit_liquidity_share(&mut self, nonce: u64, amount: u128)
        requires
            wf(*old(self)),
            share_balance(old(self).liquidity_share_balances@, nonce) + amount <= u128::MAX,
        ensures
            wf(*final(self)),
            final(self).collaterals == old(self).collaterals,
            final(self).positions == old(self).positions,
            final(self).stablecoin_token_id == old(self).stablecoin_token_id,
            share_balance(final(self).liquidity_share_balances@, nonce) == share_balance(old(self).liquidity_share_balances@, nonce) + amount,
            forall|n: u64|
                n != nonce ==> share_balance(final(self).liquidity_share_balances@, n) == share_balance(old(self).liquidity_share_balances@, n),
    {
        let found = self.find_share(nonce);
        match found {
            Some(i) => {
                let entry = self.liquidity_share_balances[i];
                proof {
                    lemma_share_index_is(old(self).liquidity_share_balances@, i as int);
                }
                self.liquidity_share_balances[i] = ShareEntry {
                    nonce,
                    amount: entry.amount + amount,
                };
                proof {
                    let olds = old(self).liquidity_share_balances@;
                    let news = self.liquidity_share_balances@;
                    assert forall|a: int, b: int| 0 <= a < b < news.len() implies news[a].nonce
                        != news[b].nonce by {
                        assert(news[a].nonce == olds[a].nonce);
                        assert(news[b].nonce == olds[b].nonce);
                    }
                    lemma_share_index_is(self.liquidity_share_balances@, i as int);
                    assert forall|n: u64| n != nonce implies share_balance(self.liquidity_share_balances@, n)
                        == share_balance(old(self).liquidity_share_balances@, n) by {
                        if has_share(old(self).liquidity_share_balances@, n) {
                            let j = share_index(old(self).liquidity_share_balances@, n);
                            assert(0 <= j < olds.len() && olds[j].nonce == n);
                            assert(j != i as int);
                            assert(news[j] == olds[j]);
                            lemma_share_index_is(self.liquidity_share_balances@, j);
                            lemma_share_index_is(old(self).liquidity_share_balances@, j);
                        } else {
                            if has_share(self.liquidity_share_balances@, n) {
                                let j = share_index(self.liquidity_share_balances@, n);
                                assert(0 <= j < news.len() && news[j].nonce == n);
                                assert(olds[j].nonce == news[j].nonce);
                                lemma_share_index_is(old(self).liquidity_share_balances@, j);
                            }
                        }
                    }
                }
            },
            None => {
                self.liquidity_share_balances.push(ShareEntry { nonce, amount });
                proof {
                    let olds = old(self).liquidity_share_balances@;
                    let news = self.liquidity_share_balances@;
                    let n0 = olds.len() as int;
                    assert forall|a: int, b: int| 0 <= a < b < news.len() implies news[a].nonce
                        != news[b].nonce by {
                        if b < n0 {
                            assert(news[a] == olds[a] && news[b] == olds[b]);
                        } else {
                            assert(news[b].nonce == nonce && news[a] == olds[a]);
                            if news[a].nonce == nonce {
                                lemma_share_index_is(old(self).liquidity_share_balances@, a);
                            }
                        }
                    }
                    lemma_share_index_is(self.liquidity_share_balances@, n0);
                    assert forall|n: u64| n != nonce implies share_balance(self.liquidity_share_balances@, n)
                        == share_balance(old(self).liquidity_share_balances@, n) by {
                        if has_share(old(self).liquidity_share_balances@, n) {
                            let j = share_index(old(self).liquidity_share_balances@, n);
                            assert(0 <= j < n0 && olds[j].nonce == n);
                            assert(news[j] == olds[j]);
                            lemma_share_index_is(self.liquidity_share_balances@, j);
                            lemma_share_index_is(old(self).liquidity_share_balances@, j);
                        } else {
                            if has_share(self.liquidity_share_balances@, n) {
                                let j = share_index(self.liquidity_share_balances@, n);
                                assert(0 <= j < news.len() && news[j].nonce == n);
                                assert(j != n0);
                                assert(olds[j].nonce == news[j].nonce);
                                lemma_share_index_is(old(self).liquidity_share_balances@, j);
                            }
                        }
                    }
                }
            },
        }
    }
}

} // verus!
