//! The invariant of the ledger and the proofs that every change of the ledger keeps it.

use vstd::prelude::*;
use crate::ledger::{
    ProtocolView, bet_ids, bets_replace, index_append, index_get, index_keys, index_put,
    index_replace, market_ids,
};
use crate::lookup::{
    distinct, lemma_distinct_push, lemma_position_distinct, lemma_position_facts,
    lemma_position_push, position,
};
use crate::msg::Owner;
use crate::state::{BetView, MarketView};
use crate::text::{id_text, lemma_id_text_injective};

verus! {

/// `id` is the identifier issued for one of the counter values `1..=counter`.
pub open spec fn is_issued(id: Seq<char>, counter: u64) -> bool {
    exists|k: nat| 1 <= k <= counter && id == id_text(k)
}

/// No bet identifier stands in two lists of the index.
pub open spec fn lists_share_no_id<K>(index: Seq<(K, Seq<BetView>)>) -> bool {
    forall|i: int, j: int, i2: int, j2: int|
        0 <= i < index.len() && 0 <= j < index[i].1.len() && 0 <= i2 < index.len() && 0 <= j2
            < index[i2].1.len() && i != i2 ==> (#[trigger] index[i].1[j]).id != (
        #[trigger] index[i2].1[j2]).id
}

/// What holds of each index of the bets: no key twice, no bet identifier twice, neither
/// within a list nor in two lists, and every bet identifier was issued.
pub open spec fn index_wf<K>(index: Seq<(K, Seq<BetView>)>, counter: u64) -> bool {
    &&& distinct(index_keys(index))
    &&& forall|i: int| 0 <= i < index.len() ==> distinct(#[trigger] bet_ids(index[i].1))
    &&& lists_share_no_id(index)
    &&& forall|i: int, j: int|
        0 <= i < index.len() && 0 <= j < index[i].1.len() ==> is_issued(
            #[trigger] index[i].1[j].id,
            counter,
        )
}

/// No bet of the index has the identifier `id`.
pub open spec fn index_lacks_id<K>(index: Seq<(K, Seq<BetView>)>, id: Seq<char>) -> bool {
    forall|i: int, j: int|
        0 <= i < index.len() && 0 <= j < index[i].1.len() ==> (#[trigger] index[i].1[j].id) != id
}

impl ProtocolView {
    /// The index by owner holds `bet`, under its owner.
    pub open spec fn owner_index_has(self, bet: BetView) -> bool {
        self.bets_for_owner(bet.owner).contains(bet)
    }

    /// The index by market holds `bet`, under its market.
    pub open spec fn market_index_has(self, bet: BetView) -> bool {
        self.bets_for_market(bet.market_id).contains(bet)
    }

    /// The invariant of the ledger.
    ///
    /// Every market is well-formed, no market identifier occurs twice, and each was issued.
    /// Both indices are well-formed, each bet stands under its own owner and its own
    /// market, and the two indices hold the same bets. No bet has the identifier of a
    /// market.
    pub open spec fn wf(self) -> bool {
        &&& forall|i: int| 0 <= i < self.markets.len() ==> (#[trigger] self.markets[i]).wf()
        &&& forall|i: int|
            0 <= i < self.markets.len() ==> index_lacks_id(
                self.bets_by_owner,
                #[trigger] self.markets[i].id,
            )
        &&& distinct(market_ids(self.markets))
        &&& forall|i: int|
            0 <= i < self.markets.len() ==> is_issued(
                #[trigger] self.markets[i].id,
                self.id_counter,
            )
        &&& index_wf(self.bets_by_owner, self.id_counter)
        &&& index_wf(self.bets_by_market, self.id_counter)
        &&& forall|i: int, j: int|
            0 <= i < self.bets_by_owner.len() && 0 <= j < self.bets_by_owner[i].1.len()
                ==> (#[trigger] self.bets_by_owner[i].1[j]).owner == self.bets_by_owner[i].0
        &&& forall|i: int, j: int|
            0 <= i < self.bets_by_market.len() && 0 <= j < self.bets_by_market[i].1.len()
                ==> (#[trigger] self.bets_by_market[i].1[j]).market_id == self.bets_by_market[i].0
        &&& forall|bet: BetView| #[trigger]
            self.owner_index_has(bet) <==> self.market_index_has(bet)
    }
}

/// An identifier issued up to some counter value was issued up to any later one.
pub proof fn lemma_issued_monotone(id: Seq<char>, counter: u64, later: u64)
    requires
        is_issued(id, counter),
        counter <= later,
    ensures
        is_issued(id, later),
{
    let k = choose|k: nat| 1 <= k <= counter && id == id_text(k);
    assert(1 <= k <= later && id == id_text(k));
}

/// The identifier of a counter value that was not reached yet was not issued.
pub proof fn lemma_next_not_issued(id: Seq<char>, counter: u64)
    requires
        is_issued(id, counter),
    ensures
        id != id_text((counter + 1) as nat),
{
    let k = choose|k: nat| 1 <= k <= counter && id == id_text(k);
    if id == id_text((counter + 1) as nat) {
        lemma_id_text_injective(k, (counter + 1) as nat);
    }
}

/// What an index holds under a key after the list under some key was set.
pub proof fn lemma_index_get_put<K>(
    index: Seq<(K, Seq<BetView>)>,
    key: K,
    bets: Seq<BetView>,
    other: K,
)
    ensures
        index_get(index_put(index, key, bets), other) == (if other == key {
            bets
        } else {
            index_get(index, other)
        }),
{
    let keys = index_keys(index);
    let after = index_put(index, key, bets);
    lemma_position_facts(keys, key);
    lemma_position_facts(keys, other);
    match position(keys, key) {
        Some(i) => {
            assert(index_keys(after) =~= keys);
        },
        None => {
            assert(index_keys(after) =~= keys.push(key));
            lemma_position_push(keys, key, other);
        },
    }
}

/// Setting the list under a key keeps the keys distinct, and changes no other entry.
pub proof fn lemma_index_put_shape<K>(index: Seq<(K, Seq<BetView>)>, key: K, bets: Seq<BetView>)
    requires
        distinct(index_keys(index)),
    ensures
        distinct(index_keys(index_put(index, key, bets))),
        index_put(index, key, bets).len() >= index.len(),
        forall|i: int|
            0 <= i < index_put(index, key, bets).len() ==> (#[trigger] index_put(
                index,
                key,
                bets,
            )[i]) == (key, bets) || (i < index.len() && index_put(index, key, bets)[i]
                == index[i]),
{
    let keys = index_keys(index);
    let after = index_put(index, key, bets);
    lemma_position_facts(keys, key);
    match position(keys, key) {
        Some(i) => {
            assert(index_keys(after) =~= keys);
        },
        None => {
            assert(index_keys(after) =~= keys.push(key));
            lemma_distinct_push(keys, key);
        },
    }
}

/// What an index holds under a key after a bet was replaced in the list under some key.
pub proof fn lemma_index_get_replace<K>(
    index: Seq<(K, Seq<BetView>)>,
    key: K,
    bet: BetView,
    other: K,
)
    ensures
        index_get(index_replace(index, key, bet), other) == (if other == key {
            bets_replace(index_get(index, key), bet)
        } else {
            index_get(index, other)
        }),
        index_keys(index_replace(index, key, bet)) == index_keys(index),
        index_replace(index, key, bet).len() == index.len(),
{
    let keys = index_keys(index);
    let after = index_replace(index, key, bet);
    lemma_position_facts(keys, key);
    lemma_position_facts(keys, other);
    assert(index_keys(after) =~= keys);
}

/// What the list under a key is, by the position of the key.
pub proof fn lemma_index_get_facts<K>(index: Seq<(K, Seq<BetView>)>, key: K)
    ensures
        match position(index_keys(index), key) {
            Some(i) => 0 <= i < index.len() && index[i].0 == key && index_get(index, key)
                == index[i].1,
            None => index_get(index, key) == Seq::<BetView>::empty(),
        },
{
    lemma_position_facts(index_keys(index), key);
}

/// In a well-formed index no bet has the identifier that will be issued next.
pub proof fn lemma_index_lacks_next_id<K>(index: Seq<(K, Seq<BetView>)>, counter: u64)
    requires
        index_wf(index, counter),
    ensures
        index_lacks_id(index, id_text((counter + 1) as nat)),
{
    assert forall|i: int, j: int|
        0 <= i < index.len() && 0 <= j < index[i].1.len() implies (#[trigger] index[i].1[j].id)
        != id_text((counter + 1) as nat) by {
        lemma_next_not_issued(index[i].1[j].id, counter);
    }
}

/// A well-formed index stays well-formed when the counter advances.
pub proof fn lemma_index_wf_monotone<K>(index: Seq<(K, Seq<BetView>)>, counter: u64, later: u64)
    requires
        index_wf(index, counter),
        counter <= later,
    ensures
        index_wf(index, later),
{
    assert forall|i: int, j: int|
        0 <= i < index.len() && 0 <= j < index[i].1.len() implies is_issued(
        #[trigger] index[i].1[j].id,
        later,
    ) by {
        lemma_issued_monotone(index[i].1[j].id, counter, later);
    }
}

/// Appending a bet with an unused, issued identifier keeps an index well-formed.
pub proof fn lemma_index_append_wf<K>(
    index: Seq<(K, Seq<BetView>)>,
    key: K,
    bet: BetView,
    counter: u64,
)
    requires
        index_wf(index, counter),
        is_issued(bet.id, counter),
        index_lacks_id(index, bet.id),
    ensures
        index_wf(index_append(index, key, bet), counter),
{
    let before = index_get(index, key);
    let list = before.push(bet);
    let after = index_append(index, key, bet);
    lemma_index_get_facts(index, key);
    lemma_index_put_shape(index, key, list);
    assert(bet_ids(list) =~= bet_ids(before).push(bet.id));
    assert(distinct(bet_ids(list))) by {
        match position(index_keys(index), key) {
            Some(i) => {
                assert(distinct(bet_ids(index[i].1)));
                assert forall|j: int| 0 <= j < before.len() implies bet_ids(before)[j]
                    != bet.id by {
                    assert(index[i].1[j].id != bet.id);
                }
            },
            None => {},
        }
    }
    assert forall|j: int| 0 <= j < list.len() implies is_issued(#[trigger] list[j].id, counter) by {
        if j < before.len() {
            match position(index_keys(index), key) {
                Some(i) => {
                    assert(is_issued(index[i].1[j].id, counter));
                },
                None => {},
            }
        }
    }
    assert forall|i: int| 0 <= i < after.len() implies distinct(#[trigger] bet_ids(after[i].1)) by {
        if after[i] == (key, list) {
        } else {
            assert(distinct(bet_ids(index[i].1)));
        }
    }
    assert forall|i: int, j: int|
        0 <= i < after.len() && 0 <= j < after[i].1.len() implies is_issued(
        #[trigger] after[i].1[j].id,
        counter,
    ) by {
        if after[i] == (key, list) {
            assert(is_issued(list[j].id, counter));
        } else {
            assert(is_issued(index[i].1[j].id, counter));
        }
    }
}

/// Issuing an identifier keeps the ledger well-formed.
pub proof fn lemma_wf_id_issued(s: ProtocolView)
    requires
        s.wf(),
        s.id_counter < u64::MAX,
    ensures
        s.with_id_issued().wf(),
{
    let t = s.with_id_issued();
    lemma_index_wf_monotone(s.bets_by_owner, s.id_counter, t.id_counter);
    lemma_index_wf_monotone(s.bets_by_market, s.id_counter, t.id_counter);
    assert forall|i: int| 0 <= i < t.markets.len() implies is_issued(
        #[trigger] t.markets[i].id,
        t.id_counter,
    ) by {
        lemma_issued_monotone(s.markets[i].id, s.id_counter, t.id_counter);
    }
    assert forall|bet: BetView| #[trigger]
        t.owner_index_has(bet) <==> t.market_index_has(bet) by {
        assert(s.owner_index_has(bet) <==> s.market_index_has(bet));
    }
}

/// Storing a well-formed market under an identifier that is issued and not yet in use
/// appends it and keeps the ledger well-formed.
pub proof fn lemma_wf_new_market(s: ProtocolView, market: MarketView)
    requires
        s.wf(),
        market.wf(),
        is_issued(market.id, s.id_counter),
        position(market_ids(s.markets), market.id) is None,
        index_lacks_id(s.bets_by_owner, market.id),
    ensures
        s.with_market(market).wf(),
        s.with_market(market).markets == s.markets.push(market),
{
    let t = s.with_market(market);
    let ids = market_ids(s.markets);
    assert(market_ids(t.markets) =~= ids.push(market.id));
    lemma_distinct_push(ids, market.id);
    assert forall|i: int| 0 <= i < t.markets.len() implies index_lacks_id(
        t.bets_by_owner,
        #[trigger] t.markets[i].id,
    ) by {
        if i < s.markets.len() {
            assert(index_lacks_id(s.bets_by_owner, s.markets[i].id));
        }
    }
    assert forall|bet: BetView| #[trigger]
        t.owner_index_has(bet) <==> t.market_index_has(bet) by {
        assert(s.owner_index_has(bet) <==> s.market_index_has(bet));
    }
}

/// In a well-formed ledger no market has the identifier that will be issued next.
pub proof fn lemma_next_id_is_no_market(s: ProtocolView)
    requires
        s.wf(),
    ensures
        position(market_ids(s.markets), s.next_id()) is None,
{
    let ids = market_ids(s.markets);
    assert forall|j: int| 0 <= j < ids.len() implies ids[j] != s.next_id() by {
        assert(is_issued(s.markets[j].id, s.id_counter));
        lemma_next_not_issued(s.markets[j].id, s.id_counter);
    }
    crate::lookup::lemma_position_absent(ids, s.next_id());
}

/// Storing a well-formed new value of the market at position `i`, under the same
/// identifier, replaces that market and keeps the ledger well-formed.
pub proof fn lemma_wf_replace_market(s: ProtocolView, i: int, market: MarketView)
    requires
        s.wf(),
        0 <= i < s.markets.len(),
        market.wf(),
        market.id == s.markets[i].id,
    ensures
        s.with_market(market).wf(),
        s.with_market(market).markets == s.markets.update(i, market),
{
    let t = s.with_market(market);
    let ids = market_ids(s.markets);
    lemma_position_distinct(ids, market.id, i);
    assert(market_ids(t.markets) =~= ids);
    assert(is_issued(s.markets[i].id, s.id_counter));
    assert forall|k: int| 0 <= k < t.markets.len() implies (#[trigger] t.markets[k]).wf() by {
        if k != i {
            assert(s.markets[k].wf());
        }
    }
    assert forall|k: int| 0 <= k < t.markets.len() implies is_issued(
        #[trigger] t.markets[k].id,
        t.id_counter,
    ) by {
        assert(is_issued(s.markets[k].id, s.id_counter));
    }
    assert forall|bet: BetView| #[trigger]
        t.owner_index_has(bet) <==> t.market_index_has(bet) by {
        assert(s.owner_index_has(bet) <==> s.market_index_has(bet));
    }
}

/// Recording a bet with an issued identifier that no bet has yet keeps the ledger
/// well-formed.
pub proof fn lemma_wf_new_bet(s: ProtocolView, bet: BetView)
    requires
        s.wf(),
        is_issued(bet.id, s.id_counter),
        index_lacks_id(s.bets_by_owner, bet.id),
        index_lacks_id(s.bets_by_market, bet.id),
        position(market_ids(s.markets), bet.id) is None,
    ensures
        s.with_bet(bet).wf(),
{
    let t = s.with_bet(bet);
    lemma_position_facts(market_ids(s.markets), bet.id);
    lemma_index_append_wf(s.bets_by_owner, bet.owner, bet, s.id_counter);
    lemma_index_append_wf(s.bets_by_market, bet.market_id, bet, s.id_counter);
    let owner_list = index_get(s.bets_by_owner, bet.owner).push(bet);
    let market_list = index_get(s.bets_by_market, bet.market_id).push(bet);
    lemma_index_get_facts(s.bets_by_owner, bet.owner);
    lemma_index_get_facts(s.bets_by_market, bet.market_id);
    lemma_index_put_shape(s.bets_by_owner, bet.owner, owner_list);
    lemma_index_put_shape(s.bets_by_market, bet.market_id, market_list);
    assert forall|i: int, j: int|
        0 <= i < t.bets_by_owner.len() && 0 <= j < t.bets_by_owner[i].1.len() implies (
    #[trigger] t.bets_by_owner[i].1[j]).owner == t.bets_by_owner[i].0 by {
        if t.bets_by_owner[i] == (bet.owner, owner_list) {
            if j < owner_list.len() - 1 {
                match position(index_keys(s.bets_by_owner), bet.owner) {
                    Some(k) => {
                        assert(s.bets_by_owner[k].1[j].owner == s.bets_by_owner[k].0);
                    },
                    None => {},
                }
            }
        } else {
            assert(s.bets_by_owner[i].1[j].owner == s.bets_by_owner[i].0);
        }
    }
    assert forall|i: int, j: int|
        0 <= i < t.bets_by_market.len() && 0 <= j < t.bets_by_market[i].1.len() implies (
    #[trigger] t.bets_by_market[i].1[j]).market_id == t.bets_by_market[i].0 by {
        if t.bets_by_market[i] == (bet.market_id, market_list) {
            if j < market_list.len() - 1 {
                match position(index_keys(s.bets_by_market), bet.market_id) {
                    Some(k) => {
                        assert(s.bets_by_market[k].1[j].market_id == s.bets_by_market[k].0);
                    },
                    None => {},
                }
            }
        } else {
            assert(s.bets_by_market[i].1[j].market_id == s.bets_by_market[i].0);
        }
    }
    assert forall|m: int| 0 <= m < t.markets.len() implies index_lacks_id(
        t.bets_by_owner,
        #[trigger] t.markets[m].id,
    ) by {
        let id = t.markets[m].id;
        assert(index_lacks_id(s.bets_by_owner, s.markets[m].id));
        assert(market_ids(s.markets)[m] != bet.id);
        assert forall|i: int, j: int|
            0 <= i < t.bets_by_owner.len() && 0 <= j < t.bets_by_owner[i].1.len() implies (
        #[trigger] t.bets_by_owner[i].1[j].id) != id by {
            if t.bets_by_owner[i] == (bet.owner, owner_list) {
                if j < owner_list.len() - 1 {
                    match position(index_keys(s.bets_by_owner), bet.owner) {
                        Some(k) => {
                            assert(s.bets_by_owner[k].1[j].id != id);
                        },
                        None => {},
                    }
                }
            } else {
                assert(s.bets_by_owner[i].1[j].id != id);
            }
        }
    }
    assert forall|x: BetView| #[trigger] t.owner_index_has(x) <==> t.market_index_has(x) by {
        lemma_index_get_put(s.bets_by_owner, bet.owner, owner_list, x.owner);
        lemma_index_get_put(s.bets_by_market, bet.market_id, market_list, x.market_id);
        assert(s.owner_index_has(x) <==> s.market_index_has(x));
        lemma_push_contains(index_get(s.bets_by_owner, bet.owner), bet, x);
        lemma_push_contains(index_get(s.bets_by_market, bet.market_id), bet, x);
    }
}

/// What a list contains after a bet was appended.
pub proof fn lemma_push_contains(bets: Seq<BetView>, bet: BetView, x: BetView)
    ensures
        bets.push(bet).contains(x) <==> (x == bet || bets.contains(x)),
{
    let longer = bets.push(bet);
    if longer.contains(x) {
        let j = choose|j: int| 0 <= j < longer.len() && longer[j] == x;
        if j < bets.len() {
            assert(bets[j] == x);
        }
    }
    if bets.contains(x) {
        let j = choose|j: int| 0 <= j < bets.len() && bets[j] == x;
        assert(longer[j] == x);
    }
    if x == bet {
        assert(longer[bets.len() as int] == x);
    }
}

/// What a list without repeated identifiers contains after the bet at position `p` was
/// replaced by a bet of the same identifier.
pub proof fn lemma_update_contains(bets: Seq<BetView>, p: int, bet: BetView, x: BetView)
    requires
        distinct(bet_ids(bets)),
        0 <= p < bets.len(),
        bet.id == bets[p].id,
    ensures
        bets.update(p, bet).contains(x) <==> (x == bet || (bets.contains(x) && x != bets[p])),
{
    let after = bets.update(p, bet);
    let ids = bet_ids(bets);
    if after.contains(x) {
        let j = choose|j: int| 0 <= j < after.len() && after[j] == x;
        if j != p {
            assert(bets[j] == x);
            assert(ids[j] != ids[p]);
        }
    }
    if x == bet {
        assert(after[p] == x);
    }
    if bets.contains(x) && x != bets[p] {
        let j = choose|j: int| 0 <= j < bets.len() && bets[j] == x;
        assert(after[j] == x);
    }
}

/// The bet at position `p` of the list of `owner`, marked as claimed.
pub open spec fn claimed_bet(s: ProtocolView, owner: Owner, p: int) -> BetView {
    BetView { claimed: true, ..s.bets_for_owner(owner)[p] }
}

/// Marking one bet of an owner as claimed replaces it in the list of that owner at its
/// position, and keeps the ledger well-formed.
pub proof fn lemma_wf_bet_claimed(s: ProtocolView, owner: Owner, p: int)
    requires
        s.wf(),
        0 <= p < s.bets_for_owner(owner).len(),
    ensures
        s.with_bet_updated(claimed_bet(s, owner, p)).wf(),
        s.with_bet_updated(claimed_bet(s, owner, p)).bets_for_owner(owner) == s.bets_for_owner(
            owner,
        ).update(p, claimed_bet(s, owner, p)),
        s.bets_for_owner(owner)[p].owner == owner,
{
    let owned = s.bets_for_owner(owner);
    let b0 = owned[p];
    let b1 = claimed_bet(s, owner, p);
    let t = s.with_bet_updated(b1);
    lemma_index_get_facts(s.bets_by_owner, owner);
    let i = position(index_keys(s.bets_by_owner), owner)->0;
    assert(s.bets_by_owner[i].1[p].owner == s.bets_by_owner[i].0);
    assert(distinct(bet_ids(s.bets_by_owner[i].1)));
    lemma_position_distinct(bet_ids(owned), b0.id, p);
    assert(owned.contains(b0));
    assert(s.owner_index_has(b0));
    assert(s.market_index_has(b0));
    let staked = s.bets_for_market(b0.market_id);
    let q = choose|q: int| 0 <= q < staked.len() && staked[q] == b0;
    lemma_index_get_facts(s.bets_by_market, b0.market_id);
    let k = position(index_keys(s.bets_by_market), b0.market_id)->0;
    assert(distinct(bet_ids(s.bets_by_market[k].1)));
    lemma_position_distinct(bet_ids(staked), b0.id, q);
    let owned_after = owned.update(p, b1);
    let staked_after = staked.update(q, b1);
    assert(t.bets_by_owner == s.bets_by_owner.update(i, (owner, owned_after)));
    assert(t.bets_by_market == s.bets_by_market.update(k, (b0.market_id, staked_after)));
    assert(index_keys(t.bets_by_owner) =~= index_keys(s.bets_by_owner));
    assert(index_keys(t.bets_by_market) =~= index_keys(s.bets_by_market));
    assert(bet_ids(owned_after) =~= bet_ids(owned));
    assert(bet_ids(staked_after) =~= bet_ids(staked));
    assert forall|a: int| 0 <= a < t.bets_by_owner.len() implies distinct(
        #[trigger] bet_ids(t.bets_by_owner[a].1),
    ) by {
        if a != i {
            assert(distinct(bet_ids(s.bets_by_owner[a].1)));
        }
    }
    assert forall|a: int| 0 <= a < t.bets_by_market.len() implies distinct(
        #[trigger] bet_ids(t.bets_by_market[a].1),
    ) by {
        if a != k {
            assert(distinct(bet_ids(s.bets_by_market[a].1)));
        }
    }
    assert forall|a: int, j: int|
        0 <= a < t.bets_by_owner.len() && 0 <= j < t.bets_by_owner[a].1.len() implies is_issued(
        #[trigger] t.bets_by_owner[a].1[j].id,
        t.id_counter,
    ) by {
        assert(is_issued(s.bets_by_owner[a].1[j].id, s.id_counter));
    }
    assert forall|a: int, j: int|
        0 <= a < t.bets_by_market.len() && 0 <= j < t.bets_by_market[a].1.len() implies is_issued(
        #[trigger] t.bets_by_market[a].1[j].id,
        t.id_counter,
    ) by {
        assert(is_issued(s.bets_by_market[a].1[j].id, s.id_counter));
    }
    assert forall|a: int, j: int|
        0 <= a < t.bets_by_owner.len() && 0 <= j < t.bets_by_owner[a].1.len() implies (
    #[trigger] t.bets_by_owner[a].1[j]).owner == t.bets_by_owner[a].0 by {
        assert(s.bets_by_owner[a].1[j].owner == s.bets_by_owner[a].0);
    }
    assert forall|a: int, j: int|
        0 <= a < t.bets_by_market.len() && 0 <= j < t.bets_by_market[a].1.len() implies (
    #[trigger] t.bets_by_market[a].1[j]).market_id == t.bets_by_market[a].0 by {
        assert(s.bets_by_market[a].1[j].market_id == s.bets_by_market[a].0);
    }
    lemma_index_get_replace(s.bets_by_owner, owner, b1, owner);
    assert forall|x: BetView| #[trigger] t.owner_index_has(x) <==> t.market_index_has(x) by {
        lemma_index_get_replace(s.bets_by_owner, owner, b1, x.owner);
        lemma_index_get_replace(s.bets_by_market, b0.market_id, b1, x.market_id);
        lemma_update_contains(owned, p, b1, x);
        lemma_update_contains(staked, q, b1, x);
        assert(s.owner_index_has(x) <==> s.market_index_has(x));
    }
    assert forall|a: int| 0 <= a < t.markets.len() implies is_issued(
        #[trigger] t.markets[a].id,
        t.id_counter,
    ) by {
        assert(is_issued(s.markets[a].id, s.id_counter));
    }
}

} // verus!

