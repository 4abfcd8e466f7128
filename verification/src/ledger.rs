//! The ledger: the admin register, the identifier counter, the market table and the two
//! indices of the bets, by owner and by market.

use vstd::prelude::*;
use crate::lookup::{is_first, lemma_position_absent, lemma_position_found, position};
use crate::msg::Owner;
use crate::state::{Bet, BetView, Market, MarketView, bets_view, clone_bets, markets_view};
use crate::text::{id_string, id_text};

verus! {

/// The bets of one owner, in the order in which they were placed.
#[derive(Debug)]
pub struct OwnerBets {
    pub owner: Owner,
    pub bets: Vec<Bet>,
}

/// The bets on one market, in the order in which they were placed.
#[derive(Debug)]
pub struct MarketBets {
    pub market_id: String,
    pub bets: Vec<Bet>,
}

/// The whole state of the application.
#[derive(Debug)]
pub struct CascadeProtocol {
    /// The identity that may resolve markets; set once, at instantiation.
    pub admin: Option<Owner>,
    /// The last counter value for which an identifier was issued.
    pub id_counter: u64,
    /// All markets, keyed by their identifier, in the order of their creation.
    pub markets: Vec<Market>,
    /// All bets, keyed by their owner.
    pub bets_by_owner: Vec<OwnerBets>,
    /// All bets, keyed by their market.
    pub bets_by_market: Vec<MarketBets>,
}

/// The model of the ledger.
pub struct ProtocolView {
    pub admin: Option<Owner>,
    pub id_counter: u64,
    pub markets: Seq<MarketView>,
    pub bets_by_owner: Seq<(Owner, Seq<BetView>)>,
    pub bets_by_market: Seq<(Seq<char>, Seq<BetView>)>,
}

impl View for OwnerBets {
    type V = (Owner, Seq<BetView>);

    open spec fn view(&self) -> (Owner, Seq<BetView>) {
        (self.owner, bets_view(self.bets@))
    }
}

impl View for MarketBets {
    type V = (Seq<char>, Seq<BetView>);

    open spec fn view(&self) -> (Seq<char>, Seq<BetView>) {
        (self.market_id@, bets_view(self.bets@))
    }
}

/// The models of the entries of the index by owner.
pub open spec fn owner_index_view(entries: Seq<OwnerBets>) -> Seq<(Owner, Seq<BetView>)> {
    Seq::new(entries.len(), |i: int| entries[i]@)
}

/// The models of the entries of the index by market.
pub open spec fn market_index_view(entries: Seq<MarketBets>) -> Seq<(Seq<char>, Seq<BetView>)> {
    Seq::new(entries.len(), |i: int| entries[i]@)
}

impl View for CascadeProtocol {
    type V = ProtocolView;

    open spec fn view(&self) -> ProtocolView {
        ProtocolView {
            admin: self.admin,
            id_counter: self.id_counter,
            markets: markets_view(self.markets@),
            bets_by_owner: owner_index_view(self.bets_by_owner@),
            bets_by_market: market_index_view(self.bets_by_market@),
        }
    }
}

/// The identifiers of a run of markets, in order.
pub open spec fn market_ids(markets: Seq<MarketView>) -> Seq<Seq<char>> {
    Seq::new(markets.len(), |i: int| markets[i].id)
}

/// The identifiers of a run of bets, in order.
pub open spec fn bet_ids(bets: Seq<BetView>) -> Seq<Seq<char>> {
    Seq::new(bets.len(), |i: int| bets[i].id)
}

/// The keys of an index of bets, in order.
pub open spec fn index_keys<K>(index: Seq<(K, Seq<BetView>)>) -> Seq<K> {
    Seq::new(index.len(), |i: int| index[i].0)
}

/// The bets that an index holds under `key`; none where the key is absent.
pub open spec fn index_get<K>(index: Seq<(K, Seq<BetView>)>, key: K) -> Seq<BetView> {
    match position(index_keys(index), key) {
        Some(i) => index[i].1,
        None => Seq::empty(),
    }
}

/// The index after the list under `key` is set to `bets`: the entry is replaced where the
/// key is present, and appended where it is not.
pub open spec fn index_put<K>(index: Seq<(K, Seq<BetView>)>, key: K, bets: Seq<BetView>) -> Seq<
    (K, Seq<BetView>),
> {
    match position(index_keys(index), key) {
        Some(i) => index.update(i, (key, bets)),
        None => index.push((key, bets)),
    }
}

/// The index after `bet` is appended to the list under `key`.
pub open spec fn index_append<K>(index: Seq<(K, Seq<BetView>)>, key: K, bet: BetView) -> Seq<
    (K, Seq<BetView>),
> {
    index_put(index, key, index_get(index, key).push(bet))
}

/// The list after its first bet with the identifier of `bet` is replaced by `bet`;
/// the list itself where no bet has that identifier.
pub open spec fn bets_replace(bets: Seq<BetView>, bet: BetView) -> Seq<BetView> {
    match position(bet_ids(bets), bet.id) {
        Some(p) => bets.update(p, bet),
        None => bets,
    }
}

/// The index after the first bet with the identifier of `bet` in the list under `key` is
/// replaced by `bet`; the index itself where the key or such a bet is absent.
pub open spec fn index_replace<K>(index: Seq<(K, Seq<BetView>)>, key: K, bet: BetView) -> Seq<
    (K, Seq<BetView>),
> {
    match position(index_keys(index), key) {
        Some(i) => match position(bet_ids(index[i].1), bet.id) {
            Some(p) => index.update(i, (key, index[i].1.update(p, bet))),
            None => index,
        },
        None => index,
    }
}

impl ProtocolView {
    /// The market called `id`, if there is one.
    pub open spec fn market(self, id: Seq<char>) -> Option<MarketView> {
        match position(market_ids(self.markets), id) {
            Some(i) => Some(self.markets[i]),
            None => None,
        }
    }

    /// The bets of `owner`, oldest first.
    pub open spec fn bets_for_owner(self, owner: Owner) -> Seq<BetView> {
        index_get(self.bets_by_owner, owner)
    }

    /// The bets on the market called `market_id`, oldest first.
    pub open spec fn bets_for_market(self, market_id: Seq<char>) -> Seq<BetView> {
        index_get(self.bets_by_market, market_id)
    }

    /// The identifier that will be issued next.
    pub open spec fn next_id(self) -> Seq<char> {
        id_text((self.id_counter + 1) as nat)
    }

    /// The ledger after one identifier was issued.
    pub open spec fn with_id_issued(self) -> ProtocolView {
        ProtocolView { id_counter: (self.id_counter + 1) as u64, ..self }
    }

    /// The ledger after `market` is stored under its identifier: it replaces the market of
    /// that identifier where there is one, and is appended where there is none.
    pub open spec fn with_market(self, market: MarketView) -> ProtocolView {
        ProtocolView {
            markets: match position(market_ids(self.markets), market.id) {
                Some(i) => self.markets.update(i, market),
                None => self.markets.push(market),
            },
            ..self
        }
    }

    /// The ledger after `bet` is appended to the list of its owner and to the list of its
    /// market.
    pub open spec fn with_bet(self, bet: BetView) -> ProtocolView {
        ProtocolView {
            bets_by_owner: index_append(self.bets_by_owner, bet.owner, bet),
            bets_by_market: index_append(self.bets_by_market, bet.market_id, bet),
            ..self
        }
    }

    /// The ledger after `bet` replaces, in the list of its owner and in the list of its
    /// market, the first bet that has its identifier.
    pub open spec fn with_bet_updated(self, bet: BetView) -> ProtocolView {
        ProtocolView {
            bets_by_owner: index_replace(self.bets_by_owner, bet.owner, bet),
            bets_by_market: index_replace(self.bets_by_market, bet.market_id, bet),
            ..self
        }
    }
}

/// Finds the first bet called `id` in a list of bets.
pub fn find_bet(bets: &Vec<Bet>, id: &String) -> (found: Option<usize>)
    ensures
        match found {
            Some(p) => position(bet_ids(bets_view(bets@)), id@) == Some(p as int) && p < bets.len(),
            None => position(bet_ids(bets_view(bets@)), id@) is None,
        },
{
    let ghost ids = bet_ids(bets_view(bets@));
    let mut p: usize = 0;
    while p < bets.len()
        invariant
            p <= bets.len(),
            ids == bet_ids(bets_view(bets@)),
            forall|j: int| 0 <= j < p ==> ids[j] != id@,
        decreases bets.len() - p,
    {
        if bets[p].id == *id {
            proof {
                assert(is_first(ids, id@, p as int));
                lemma_position_found(ids, id@, p as int);
            }
            return Some(p);
        }
        p += 1;
    }
    proof {
        lemma_position_absent(ids, id@);
    }
    None
}

impl CascadeProtocol {
    /// A ledger without admin, markets or bets, whose counter stands at zero.
    pub fn new() -> (ledger: Self)
        ensures
            ledger@ == (ProtocolView {
                admin: None,
                id_counter: 0,
                markets: Seq::empty(),
                bets_by_owner: Seq::empty(),
                bets_by_market: Seq::empty(),
            }),
    {
        let ledger = CascadeProtocol {
            admin: None,
            id_counter: 0,
            markets: Vec::new(),
            bets_by_owner: Vec::new(),
            bets_by_market: Vec::new(),
        };
        assert(ledger@.markets =~= Seq::empty());
        assert(ledger@.bets_by_owner =~= Seq::empty());
        assert(ledger@.bets_by_market =~= Seq::empty());
        ledger
    }

    /// Finds the market called `id`.
    pub fn find_market(&self, id: &String) -> (found: Option<usize>)
        ensures
            match found {
                Some(i) => position(market_ids(self@.markets), id@) == Some(i as int) && i
                    < self.markets.len(),
                None => position(market_ids(self@.markets), id@) is None,
            },
    {
        let ghost ids = market_ids(self@.markets);
        let mut i: usize = 0;
        while i < self.markets.len()
            invariant
                i <= self.markets.len(),
                ids == market_ids(self@.markets),
                forall|j: int| 0 <= j < i ==> ids[j] != id@,
            decreases self.markets.len() - i,
        {
            if self.markets[i].id == *id {
                proof {
                    assert(is_first(ids, id@, i as int));
                    lemma_position_found(ids, id@, i as int);
                }
                return Some(i);
            }
            i += 1;
        }
        proof {
            lemma_position_absent(ids, id@);
        }
        None
    }

    /// Finds the entry of `owner` in the index by owner.
    pub fn find_owner_entry(&self, owner: &Owner) -> (found: Option<usize>)
        ensures
            match found {
                Some(i) => position(index_keys(self@.bets_by_owner), *owner) == Some(i as int) && i
                    < self.bets_by_owner.len(),
                None => position(index_keys(self@.bets_by_owner), *owner) is None,
            },
    {
        let ghost keys = index_keys(self@.bets_by_owner);
        let mut i: usize = 0;
        while i < self.bets_by_owner.len()
            invariant
                i <= self.bets_by_owner.len(),
                keys == index_keys(self@.bets_by_owner),
                forall|j: int| 0 <= j < i ==> keys[j] != *owner,
            decreases self.bets_by_owner.len() - i,
        {
            if self.bets_by_owner[i].owner == *owner {
                proof {
                    assert(is_first(keys, *owner, i as int));
                    lemma_position_found(keys, *owner, i as int);
                }
                return Some(i);
            }
            i += 1;
        }
        proof {
            lemma_position_absent(keys, *owner);
        }
        None
    }

    /// Finds the entry of the market called `market_id` in the index by market.
    pub fn find_market_entry(&self, market_id: &String) -> (found: Option<usize>)
        ensures
            match found {
                Some(i) => position(index_keys(self@.bets_by_market), market_id@) == Some(i as int)
                    && i < self.bets_by_market.len(),
                None => position(index_keys(self@.bets_by_market), market_id@) is None,
            },
    {
        let ghost keys = index_keys(self@.bets_by_market);
        let mut i: usize = 0;
        while i < self.bets_by_market.len()
            invariant
                i <= self.bets_by_market.len(),
                keys == index_keys(self@.bets_by_market),
                forall|j: int| 0 <= j < i ==> keys[j] != market_id@,
            decreases self.bets_by_market.len() - i,
        {
            if self.bets_by_market[i].market_id == *market_id {
                proof {
                    assert(is_first(keys, market_id@, i as int));
                    lemma_position_found(keys, market_id@, i as int);
                }
                return Some(i);
            }
            i += 1;
        }
        proof {
            lemma_position_absent(keys, market_id@);
        }
        None
    }

    /// All markets, in the order of their creation.
    pub fn markets(&self) -> (all: Vec<Market>)
        ensures
            markets_view(all@) == self@.markets,
    {
        let mut all: Vec<Market> = Vec::new();
        let mut i: usize = 0;
        while i < self.markets.len()
            invariant
                i <= self.markets.len(),
                all.len() == i,
                forall|j: int| 0 <= j < i ==> all[j]@ == self.markets[j]@,
            decreases self.markets.len() - i,
        {
            all.push(self.markets[i].clone());
            i += 1;
        }
        assert(markets_view(all@) =~= self@.markets);
        all
    }

    /// The market called `id`, if there is one.
    pub fn market(&self, id: String) -> (found: Option<Market>)
        ensures
            match found {
                Some(m) => self@.market(id@) == Some(m@),
                None => self@.market(id@) is None,
            },
    {
        match self.find_market(&id) {
            Some(i) => Some(self.markets[i].clone()),
            None => None,
        }
    }

    /// The bets of `owner`, oldest first; none where the owner never placed a bet.
    pub fn bets_for_owner(&self, owner: Owner) -> (bets: Vec<Bet>)
        ensures
            bets_view(bets@) == self@.bets_for_owner(owner),
    {
        match self.find_owner_entry(&owner) {
            Some(i) => clone_bets(&self.bets_by_owner[i].bets),
            None => {
                let bets: Vec<Bet> = Vec::new();
                assert(bets_view(bets@) =~= Seq::empty());
                bets
            },
        }
    }

    /// The bets on the market called `market_id`, oldest first; none where nobody bet on it.
    pub fn bets_for_market(&self, market_id: String) -> (bets: Vec<Bet>)
        ensures
            bets_view(bets@) == self@.bets_for_market(market_id@),
    {
        match self.find_market_entry(&market_id) {
            Some(i) => clone_bets(&self.bets_by_market[i].bets),
            None => {
                let bets: Vec<Bet> = Vec::new();
                assert(bets_view(bets@) =~= Seq::empty());
                bets
            },
        }
    }

    /// The identity that may resolve markets.
    pub fn admin(&self) -> (admin: Option<Owner>)
        ensures
            admin == self@.admin,
    {
        self.admin
    }

    /// Issues a new identifier: advances the counter by one and renders its new value.
    pub fn generate_id(&mut self) -> (id: String)
        requires
            old(self).id_counter < u64::MAX,
        ensures
            id@ == old(self)@.next_id(),
            final(self)@ == old(self)@.with_id_issued(),
    {
        let next = self.id_counter + 1;
        self.id_counter = next;
        id_string(next)
    }

    /// Stores `market` under its identifier.
    pub fn add_market(&mut self, market: Market)
        ensures
            final(self)@ == old(self)@.with_market(market@),
    {
        match self.find_market(&market.id) {
            Some(i) => {
                self.markets[i] = market;
            },
            None => {
                self.markets.push(market);
            },
        }
        assert(self@.markets =~= old(self)@.with_market(market@).markets);
    }

    /// Appends `bet` to the list of its owner and to the list of its market.
    pub fn add_bet(&mut self, bet: Bet)
        ensures
            final(self)@ == old(self)@.with_bet(bet@),
    {
        let for_owner = bet.clone();
        match self.find_owner_entry(&bet.owner) {
            Some(i) => {
                let ghost before = bets_view(self.bets_by_owner[i as int].bets@);
                self.bets_by_owner[i].bets.push(for_owner);
                assert(bets_view(self.bets_by_owner[i as int].bets@) =~= before.push(bet@));
            },
            None => {
                let mut bets: Vec<Bet> = Vec::new();
                bets.push(for_owner);
                assert(bets_view(bets@) =~= Seq::<BetView>::empty().push(bet@));
                self.bets_by_owner.push(OwnerBets { owner: bet.owner, bets });
            },
        }
        assert(self@.bets_by_owner =~= index_append(old(self)@.bets_by_owner, bet.owner, bet@));
        let for_market = bet.clone();
        match self.find_market_entry(&bet.market_id) {
            Some(i) => {
                let ghost before = bets_view(self.bets_by_market[i as int].bets@);
                self.bets_by_market[i].bets.push(for_market);
                assert(bets_view(self.bets_by_market[i as int].bets@) =~= before.push(bet@));
            },
            None => {
                let mut bets: Vec<Bet> = Vec::new();
                bets.push(for_market);
                assert(bets_view(bets@) =~= Seq::<BetView>::empty().push(bet@));
                self.bets_by_market.push(MarketBets { market_id: bet.market_id.clone(), bets });
            },
        }
        assert(self@.bets_by_market =~= index_append(
            old(self)@.bets_by_market,
            bet.market_id@,
            bet@,
        ));
    }

    /// Replaces, in the list of the owner of `bet` and in the list of its market, the
    /// first bet that has the identifier of `bet`.
    pub fn update_bet(&mut self, bet: Bet)
        ensures
            final(self)@ == old(self)@.with_bet_updated(bet@),
    {
        match self.find_owner_entry(&bet.owner) {
            Some(i) => {
                match find_bet(&self.bets_by_owner[i].bets, &bet.id) {
                    Some(p) => {
                        let ghost before = bets_view(self.bets_by_owner[i as int].bets@);
                        self.bets_by_owner[i].bets[p] = bet.clone();
                        assert(bets_view(self.bets_by_owner[i as int].bets@) =~= before.update(
                            p as int,
                            bet@,
                        ));
                    },
                    None => {},
                }
            },
            None => {},
        }
        assert(self@.bets_by_owner =~= index_replace(old(self)@.bets_by_owner, bet.owner, bet@));
        match self.find_market_entry(&bet.market_id) {
            Some(i) => {
                match find_bet(&self.bets_by_market[i].bets, &bet.id) {
                    Some(p) => {
                        let ghost before = bets_view(self.bets_by_market[i as int].bets@);
                        self.bets_by_market[i].bets[p] = bet.clone();
                        assert(bets_view(self.bets_by_market[i as int].bets@) =~= before.update(
                            p as int,
                            bet@,
                        ));
                    },
                    None => {},
                }
            },
            None => {},
        }
        assert(self@.bets_by_market =~= index_replace(
            old(self)@.bets_by_market,
            bet.market_id@,
            bet@,
        ));
    }

    /// Stores the new value of an existing market under its identifier.
    pub fn update_market(&mut self, market: Market)
        ensures
            final(self)@ == old(self)@.with_market(market@),
    {
        self.add_market(market)
    }
}

} // verus!
