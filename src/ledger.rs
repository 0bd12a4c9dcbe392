use std::collections::HashMap;
use vstd::prelude::*;

use crate::error::Error;
use crate::holdings::{
    amount_in, book_wf, holders_in, lemma_amounts_within_sum, lemma_listed_iff_positive,
    listed_after_credit, listed_after_debit, sum_of, AccountId, Holding, Holdings,
};
use crate::pair_map::PairMap;
use crate::transfer_restrictions::{self, RulesView, TransferRules};
use crate::types::{
    AssetType, DetokenizationProposal, TokenMetadata, TokenizedAsset, TransferRestriction,
    BASIS_POINTS, MAX_DECIMALS,
};

verus! {

broadcast use vstd::std_specs::hash::group_hash_axioms;

/// The tokenized-ownership ledger: token registry and balances, locks,
/// transfer rules, dividends, votes and detokenization proposals.
///
/// Every operation either succeeds with the effects its contract states or
/// returns an error and leaves the ledger unchanged.
pub struct AssetUpContract {
    tokens: HashMap<u64, TokenizedAsset>,
    books: HashMap<u64, Holdings>,
    locks: PairMap<u64>,
    rules: TransferRules,
    revenue_sharing: HashMap<u64, bool>,
    unclaimed: PairMap<i128>,
    tallies: PairMap<i128>,
    voters: PairMap<Vec<AccountId>>,
    detokenizations: HashMap<u64, DetokenizationProposal>,
    next_proposal_id: u64,
}

/// The abstract state of the ledger.
pub struct LedgerView {
    /// Registry entries, by asset.
    pub tokens: Map<u64, TokenizedAsset>,
    /// Balance books, by asset: the holders with a positive balance.
    pub books: Map<u64, Seq<Holding>>,
    /// Lock expiry times, by (asset, holder).
    pub locks: Map<(u64, u64), u64>,
    pub rules: RulesView,
    /// Revenue-sharing switches, by asset.
    pub revenue_sharing: Map<u64, bool>,
    /// Dividends not yet claimed, by (asset, holder).
    pub unclaimed: Map<(u64, u64), i128>,
    /// Affirmative weight, by (asset, proposal).
    pub tallies: Map<(u64, u64), i128>,
    /// Who has voted, by (asset, proposal).
    pub voters: Map<(u64, u64), Seq<AccountId>>,
    /// Detokenization proposals, by asset.
    pub detokenizations: Map<u64, DetokenizationProposal>,
    pub next_proposal_id: u64,
}

impl LedgerView {
    /// Registered and not detokenized.
    pub open spec fn is_live(&self, a: u64) -> bool {
        self.tokens.contains_key(a) && !self.tokens[a].detokenized
    }

    pub open spec fn book(&self, a: u64) -> Seq<Holding> {
        if self.books.contains_key(a) {
            self.books[a]
        } else {
            Seq::empty()
        }
    }

    pub open spec fn balance(&self, a: u64, h: AccountId) -> int {
        amount_in(self.book(a), h)
    }

    pub open spec fn holders(&self, a: u64) -> Seq<AccountId> {
        holders_in(self.book(a))
    }

    pub open spec fn supply(&self, a: u64) -> int {
        self.tokens[a].total_supply as int
    }

    /// A lock on `h` that has not expired at time `now`.
    pub open spec fn is_locked(&self, a: u64, h: AccountId, now: u64) -> bool {
        self.locks.contains_key((a, h)) && self.locks[(a, h)] > now
    }

    /// The invariant: registry and books cover the same assets, each book
    /// lists exactly the positive balances, once each, and they add up to
    /// the asset's total supply; no whitelist lists an address twice.
    pub open spec fn wf(&self) -> bool {
        &&& forall|a: u64| #[trigger] self.tokens.contains_key(a) <==> self.books.contains_key(a)
        &&& forall|a: u64|
            #[trigger] self.tokens.contains_key(a) ==> book_wf(self.books[a]) && sum_of(self.books[a])
                == self.tokens[a].total_supply
        &&& self.rules.wf()
    }

    /// The same ledger with the registry entry and balance book of `a`
    /// replaced.
    pub open spec fn with_token(&self, a: u64, t: TokenizedAsset, b: Seq<Holding>) -> LedgerView {
        LedgerView { tokens: self.tokens.insert(a, t), books: self.books.insert(a, b), ..*self }
    }

    /// `next` differs from this ledger only in asset `a`'s total supply,
    /// which moved by `delta`, and its balances, which moved as `moved` says.
    pub open spec fn rebalanced(
        &self,
        next: LedgerView,
        a: u64,
        delta: int,
        moved: spec_fn(AccountId) -> int,
    ) -> bool {
        &&& next == self.with_token(
            a,
            TokenizedAsset { total_supply: (self.supply(a) + delta) as i128, ..self.tokens[a] },
            next.books[a],
        )
        &&& forall|h: AccountId| #[trigger] next.balance(a, h) == self.balance(a, h) + moved(h)
    }

    // ---- tokenization ----
    pub open spec fn tokenize_error(&self, a: u64, total_supply: i128, decimals: u32) -> Option<
        Error,
    > {
        if self.tokens.contains_key(a) {
            Some(Error::AssetAlreadyTokenized)
        } else if total_supply <= 0 {
            Some(Error::InvalidTokenSupply)
        } else if decimals > MAX_DECIMALS {
            Some(Error::InvalidTokenDecimals)
        } else {
            None
        }
    }

    pub open spec fn mint_error(&self, a: u64, amount: i128, minter: AccountId) -> Option<Error> {
        if !self.is_live(a) {
            Some(Error::AssetNotTokenized)
        } else if minter != self.tokens[a].tokenizer {
            Some(Error::Unauthorized)
        } else if amount <= 0 {
            Some(Error::InvalidTokenSupply)
        } else if self.supply(a) + amount > i128::MAX {
            Some(Error::MathOverflow)
        } else {
            None
        }
    }

    pub open spec fn burn_error(&self, a: u64, amount: i128, burner: AccountId, now: u64) -> Option<
        Error,
    > {
        if !self.is_live(a) {
            Some(Error::AssetNotTokenized)
        } else if burner != self.tokens[a].tokenizer {
            Some(Error::Unauthorized)
        } else if amount <= 0 {
            Some(Error::InvalidTokenSupply)
        } else if self.is_locked(a, burner, now) {
            Some(Error::TokensAreLocked)
        } else if self.balance(a, burner) < amount {
            Some(Error::InsufficientBalance)
        } else {
            None
        }
    }

    /// The checks of a transfer, after the transfer rules have approved it.
    pub open spec fn move_error(
        &self,
        a: u64,
        from: AccountId,
        amount: i128,
        now: u64,
    ) -> Option<Error> {
        if !self.is_live(a) {
            Some(Error::AssetNotTokenized)
        } else if amount <= 0 {
            Some(Error::InvalidTokenSupply)
        } else if self.is_locked(a, from, now) {
            Some(Error::TokensAreLocked)
        } else if self.balance(a, from) < amount {
            Some(Error::InsufficientBalance)
        } else {
            None
        }
    }

    pub open spec fn transfer_error(
        &self,
        a: u64,
        from: AccountId,
        to: AccountId,
        amount: i128,
        now: u64,
    ) -> Option<Error> {
        match self.rules.verdict(a, to) {
            Err(e) => Some(e),
            Ok(_) => self.move_error(a, from, amount, now),
        }
    }

    /// Ownership of `h` in basis points, when the supply is positive.
    pub open spec fn ownership(&self, a: u64, h: AccountId) -> int {
        self.balance(a, h) * BASIS_POINTS / self.supply(a)
    }

    pub open spec fn lock_error(&self, a: u64, caller: AccountId) -> Option<Error> {
        if !self.tokens.contains_key(a) {
            Some(Error::AssetNotTokenized)
        } else if caller != self.tokens[a].tokenizer {
            Some(Error::Unauthorized)
        } else {
            None
        }
    }

    pub open spec fn valuation_error(&self, a: u64, new_valuation: i128) -> Option<Error> {
        if !self.tokens.contains_key(a) {
            Some(Error::AssetNotTokenized)
        } else if new_valuation <= 0 {
            Some(Error::InvalidValuation)
        } else {
            None
        }
    }

    // ---- dividends ----
    pub open spec fn unclaimed_of(&self, a: u64, h: AccountId) -> int {
        if self.unclaimed.contains_key((a, h)) {
            self.unclaimed[(a, h)] as int
        } else {
            0
        }
    }

    pub open spec fn sharing_enabled(&self, a: u64) -> bool {
        self.revenue_sharing.contains_key(a) && self.revenue_sharing[a]
    }

    /// `h`'s part of a distribution of `amount`: proportional to its
    /// balance, rounded down.
    pub open spec fn share(&self, a: u64, h: AccountId, amount: i128) -> int {
        if self.supply(a) > 0 {
            amount * self.balance(a, h) / self.supply(a)
        } else {
            0
        }
    }

    /// Every holder's share and new unclaimed total fit in an `i128`.
    pub open spec fn distribution_fits(&self, a: u64, amount: i128) -> bool {
        forall|i: int|
            0 <= i < self.book(a).len() ==> {
                let e = #[trigger] self.book(a)[i];
                &&& amount * e.amount <= i128::MAX
                &&& self.unclaimed_of(a, e.holder) + amount * e.amount / self.supply(a) <= i128::MAX
            }
    }

    pub open spec fn distribute_error(&self, a: u64, amount: i128) -> Option<Error> {
        if !self.tokens.contains_key(a) {
            Some(Error::AssetNotTokenized)
        } else if amount <= 0 {
            Some(Error::InvalidDividendAmount)
        } else if !self.sharing_enabled(a) {
            Some(Error::Unauthorized)
        } else if !self.distribution_fits(a, amount) {
            Some(Error::MathOverflow)
        } else {
            None
        }
    }

    /// `next` differs from this ledger only in the unclaimed dividends of
    /// asset `a`, each holder's grown by its share of `amount`.
    pub open spec fn distributed(&self, next: LedgerView, a: u64, amount: i128) -> bool {
        &&& next == (LedgerView { unclaimed: next.unclaimed, ..*self })
        &&& forall|h: AccountId| #[trigger]
            next.unclaimed_of(a, h) == self.unclaimed_of(a, h) + self.share(a, h, amount)
        &&& forall|b: u64, h: AccountId|
            b != a ==> #[trigger] next.unclaimed_of(b, h) == self.unclaimed_of(b, h)
    }

    pub open spec fn registered_error(&self, a: u64) -> Option<Error> {
        if !self.tokens.contains_key(a) {
            Some(Error::AssetNotTokenized)
        } else {
            None
        }
    }

    // ---- voting ----
    pub open spec fn tally_of(&self, a: u64, p: u64) -> int {
        if self.tallies.contains_key((a, p)) {
            self.tallies[(a, p)] as int
        } else {
            0
        }
    }

    pub open spec fn voters_of(&self, a: u64, p: u64) -> Seq<AccountId> {
        if self.voters.contains_key((a, p)) {
            self.voters[(a, p)]
        } else {
            Seq::empty()
        }
    }

    pub open spec fn has_voted(&self, a: u64, p: u64, v: AccountId) -> bool {
        self.voters_of(a, p).contains(v)
    }

    /// The proposal's affirmative weight reaches the asset's threshold.
    pub open spec fn passed(&self, a: u64, p: u64) -> bool {
        self.tally_of(a, p) >= self.tokens[a].min_voting_threshold
    }

    pub open spec fn vote_error(&self, a: u64, p: u64, voter: AccountId) -> Option<Error> {
        if !self.tokens.contains_key(a) {
            Some(Error::AssetNotTokenized)
        } else if self.has_voted(a, p, voter) {
            Some(Error::AlreadyVoted)
        } else if self.balance(a, voter) <= 0 {
            Some(Error::InsufficientVotingPower)
        } else if self.tally_of(a, p) + self.balance(a, voter) > i128::MAX {
            Some(Error::MathOverflow)
        } else {
            None
        }
    }

    /// The ledger after `voter` casts its current balance for proposal `p`.
    pub open spec fn with_vote(&self, a: u64, p: u64, voter: AccountId) -> LedgerView {
        LedgerView {
            tallies: self.tallies.insert((a, p), (self.tally_of(a, p) + self.balance(a, voter)) as i128),
            voters: self.voters.insert((a, p), self.voters_of(a, p).push(voter)),
            ..*self
        }
    }

    // ---- detokenization ----
    /// A detokenization proposal exists for `a` and has not been executed.
    pub open spec fn detokenization_active(&self, a: u64) -> bool {
        self.detokenizations.contains_key(a) && !self.detokenizations[a].executed
    }

    pub open spec fn propose_error(&self, a: u64) -> Option<Error> {
        if !self.is_live(a) {
            Some(Error::AssetNotTokenized)
        } else if self.detokenization_active(a) {
            Some(Error::DetokenizationAlreadyProposed)
        } else if self.next_proposal_id == u64::MAX {
            Some(Error::MathOverflow)
        } else {
            None
        }
    }

    pub open spec fn with_proposal(&self, a: u64, proposer: AccountId, now: u64) -> LedgerView {
        LedgerView {
            detokenizations: self.detokenizations.insert(
                a,
                DetokenizationProposal {
                    proposal_id: self.next_proposal_id,
                    proposer,
                    created_at: now,
                    executed: false,
                },
            ),
            next_proposal_id: (self.next_proposal_id + 1) as u64,
            ..*self
        }
    }

    pub open spec fn execute_error(&self, a: u64, p: u64) -> Option<Error> {
        if !self.tokens.contains_key(a) {
            Some(Error::AssetNotTokenized)
        } else if !self.detokenizations.contains_key(a) || self.detokenizations[a].proposal_id != p {
            Some(Error::ProposalNotFound)
        } else if self.detokenizations[a].executed {
            Some(Error::InvalidProposal)
        } else if !self.passed(a, p) {
            Some(Error::DetokenizationNotApproved)
        } else {
            None
        }
    }

    /// The ledger after the detokenization of `a` is executed: the asset is
    /// frozen and its proposal closed.
    pub open spec fn detokenized(&self, a: u64) -> LedgerView {
        LedgerView {
            tokens: self.tokens.insert(a, TokenizedAsset { detokenized: true, ..self.tokens[a] }),
            detokenizations: self.detokenizations.insert(
                a,
                DetokenizationProposal { executed: true, ..self.detokenizations[a] },
            ),
            ..*self
        }
    }

    pub open spec fn ownership_error(&self, a: u64, h: AccountId) -> Option<Error> {
        if !self.tokens.contains_key(a) || self.supply(a) == 0 {
            Some(Error::AssetNotTokenized)
        } else if self.balance(a, h) * BASIS_POINTS > i128::MAX {
            Some(Error::MathOverflow)
        } else {
            None
        }
    }
}

/// How balances move when `amount` goes to `h0` alone.
pub open spec fn credited(h0: AccountId, amount: int) -> spec_fn(AccountId) -> int {
    |h: AccountId|
        if h == h0 {
            amount
        } else {
            0
        }
}

/// How balances move when `amount` goes from `from` to `to`.
pub open spec fn moved_by_transfer(from: AccountId, to: AccountId, amount: int) -> spec_fn(
    AccountId,
) -> int {
    |h: AccountId|
        (if h == to {
            amount
        } else {
            0
        }) - (if h == from {
            amount
        } else {
            0
        })
}

/// The registry entry that tokenization creates.
pub open spec fn new_token(
    asset_id: u64,
    symbol: String,
    total_supply: i128,
    decimals: u32,
    min_voting_threshold: i128,
    tokenizer: AccountId,
    metadata: TokenMetadata,
) -> TokenizedAsset {
    TokenizedAsset {
        asset_id,
        symbol,
        total_supply,
        decimals,
        tokenizer,
        min_voting_threshold,
        valuation: 0,
        metadata,
        detokenized: false,
    }
}

impl View for AssetUpContract {
    type V = LedgerView;

    closed spec fn view(&self) -> LedgerView {
        LedgerView {
            tokens: self.tokens@,
            books: Map::new(|a: u64| self.books@.contains_key(a), |a: u64| self.books@[a]@),
            locks: self.locks@,
            rules: self.rules@,
            revenue_sharing: self.revenue_sharing@,
            unclaimed: self.unclaimed@,
            tallies: self.tallies@,
            voters: Map::new(
                |k: (u64, u64)| self.voters@.contains_key(k),
                |k: (u64, u64)| self.voters@[k]@,
            ),
            detokenizations: self.detokenizations@,
            next_proposal_id: self.next_proposal_id,
        }
    }
}

impl AssetUpContract {
    pub fn new() -> (r: AssetUpContract)
        ensures
            r@.wf(),
            r@.tokens == Map::<u64, TokenizedAsset>::empty(),
            r@.books == Map::<u64, Seq<Holding>>::empty(),
            r@.locks == Map::<(u64, u64), u64>::empty(),
            r@.rules.whitelists == Map::<u64, Seq<AccountId>>::empty(),
            r@.rules.restrictions == Map::<u64, TransferRestriction>::empty(),
            r@.revenue_sharing == Map::<u64, bool>::empty(),
            r@.unclaimed == Map::<(u64, u64), i128>::empty(),
            r@.tallies == Map::<(u64, u64), i128>::empty(),
            r@.voters == Map::<(u64, u64), Seq<AccountId>>::empty(),
            r@.detokenizations == Map::<u64, DetokenizationProposal>::empty(),
            r@.next_proposal_id == 1,
    {
        let r = AssetUpContract {
            tokens: HashMap::new(),
            books: HashMap::new(),
            locks: PairMap::new(),
            rules: TransferRules::new(),
            revenue_sharing: HashMap::new(),
            unclaimed: PairMap::new(),
            tallies: PairMap::new(),
            voters: PairMap::new(),
            detokenizations: HashMap::new(),
            next_proposal_id: 1,
        };
        assert(r@.books =~= Map::<u64, Seq<Holding>>::empty());
        assert(r@.voters =~= Map::<(u64, u64), Seq<AccountId>>::empty());
        r
    }

    /// Registers `asset_id` as a token with the given supply, all of it
    /// credited to `tokenizer`.
    pub fn tokenize_with_metadata(
        &mut self,
        asset_id: u64,
        symbol: String,
        total_supply: i128,
        decimals: u32,
        min_voting_threshold: i128,
        tokenizer: AccountId,
        metadata: TokenMetadata,
    ) -> (r: Result<TokenizedAsset, Error>)
        requires
            old(self)@.wf(),
        ensures
            final(self)@.wf(),
            r is Err <==> old(self)@.tokenize_error(asset_id, total_supply, decimals) is Some,
            match r {
                Ok(t) => {
                    &&& final(self)@ == old(self)@.with_token(
                        asset_id,
                        new_token(
                            asset_id,
                            symbol,
                            total_supply,
                            decimals,
                            min_voting_threshold,
                            tokenizer,
                            metadata,
                        ),
                        seq![Holding { holder: tokenizer, amount: total_supply }],
                    )
                    &&& t.same_as(&final(self)@.tokens[asset_id])
                },
                Err(e) => final(self)@ == old(self)@ && Some(e) == old(self)@.tokenize_error(
                    asset_id,
                    total_supply,
                    decimals,
                ),
            },
    {
        if self.tokens.contains_key(&asset_id) {
            return Err(Error::AssetAlreadyTokenized);
        }
        if total_supply <= 0 {
            return Err(Error::InvalidTokenSupply);
        }
        if decimals > MAX_DECIMALS {
            return Err(Error::InvalidTokenDecimals);
        }
        let ghost v0 = self@;
        let ghost t0 = new_token(
            asset_id,
            symbol,
            total_supply,
            decimals,
            min_voting_threshold,
            tokenizer,
            metadata,
        );
        let token = TokenizedAsset {
            asset_id,
            symbol,
            total_supply,
            decimals,
            tokenizer,
            min_voting_threshold,
            valuation: 0,
            metadata,
            detokenized: false,
        };
        let out = token.copy();
        let mut book = Holdings::new();
        book.credit(tokenizer, total_supply);
        proof {
            let b = book@;
            assert(b.len() == 1) by {
                if b.len() != 1 {
                    if b.len() == 0 {
                        assert(amount_in(b, tokenizer) == 0);
                    } else {
                        assert(b[0].holder != b[1].holder);
                        crate::holdings::lemma_amount_lookup(b, b[0].holder);
                        crate::holdings::lemma_amount_lookup(b, b[1].holder);
                        assert(amount_in(Seq::<Holding>::empty(), b[0].holder) == 0);
                        assert(amount_in(Seq::<Holding>::empty(), b[1].holder) == 0);
                    }
                }
            }
            crate::holdings::lemma_amount_lookup(b, tokenizer);
            crate::holdings::lemma_amount_lookup(b, b[0].holder);
            assert(amount_in(Seq::<Holding>::empty(), b[0].holder) == 0);
            assert(b =~= seq![Holding { holder: tokenizer, amount: total_supply }]);
        }
        self.tokens.insert(asset_id, token);
        self.books.insert(asset_id, book);
        proof {
            let b = seq![Holding { holder: tokenizer, amount: total_supply }];
            assert(self@.books =~= v0.books.insert(asset_id, b));
            assert(self@ == v0.with_token(asset_id, t0, b));
            assert(sum_of(b) == total_supply) by {
                assert(b.drop_last() =~= Seq::<Holding>::empty());
            }
        }
        Ok(out)
    }

    /// Tokenizes `asset_id` with metadata built from a name, a description
    /// and a type, and no documents or restrictions.
    pub fn tokenize_asset(
        &mut self,
        asset_id: u64,
        symbol: String,
        total_supply: i128,
        decimals: u32,
        min_voting_threshold: i128,
        tokenizer: AccountId,
        name: String,
        description: String,
        asset_type: AssetType,
    ) -> (r: Result<TokenizedAsset, Error>)
        requires
            old(self)@.wf(),
        ensures
            final(self)@.wf(),
            r is Err <==> old(self)@.tokenize_error(asset_id, total_supply, decimals) is Some,
            match r {
                Ok(t) => {
                    &&& final(self)@.tokens.contains_key(asset_id)
                    &&& final(self)@ == old(self)@.with_token(
                        asset_id,
                        final(self)@.tokens[asset_id],
                        seq![Holding { holder: tokenizer, amount: total_supply }],
                    )
                    &&& final(self)@.tokens[asset_id] == new_token(
                        asset_id,
                        symbol,
                        total_supply,
                        decimals,
                        min_voting_threshold,
                        tokenizer,
                        final(self)@.tokens[asset_id].metadata,
                    )
                    &&& final(self)@.tokens[asset_id].metadata.name == name
                    &&& final(self)@.tokens[asset_id].metadata.description == description
                    &&& final(self)@.tokens[asset_id].metadata.asset_type == asset_type
                    &&& final(self)@.tokens[asset_id].metadata.ipfs_uri is None
                    &&& final(self)@.tokens[asset_id].metadata.legal_docs_hash is None
                    &&& final(self)@.tokens[asset_id].metadata.valuation_report_hash is None
                    &&& !final(self)@.tokens[asset_id].metadata.accredited_investor_required
                    &&& final(self)@.tokens[asset_id].metadata.geographic_restrictions@.len() == 0
                    &&& t.same_as(&final(self)@.tokens[asset_id])
                },
                Err(e) => final(self)@ == old(self)@ && Some(e) == old(self)@.tokenize_error(
                    asset_id,
                    total_supply,
                    decimals,
                ),
            },
    {
        let metadata = TokenMetadata {
            name,
            description,
            asset_type,
            ipfs_uri: None,
            legal_docs_hash: None,
            valuation_report_hash: None,
            accredited_investor_required: false,
            geographic_restrictions: Vec::new(),
        };
        self.tokenize_with_metadata(
            asset_id,
            symbol,
            total_supply,
            decimals,
            min_voting_threshold,
            tokenizer,
            metadata,
        )
    }

    /// Locks all of `holder`'s tokens of `asset_id` until `until_timestamp`;
    /// only the tokenizer may do so.
    pub fn lock_tokens(
        &mut self,
        asset_id: u64,
        holder: AccountId,
        until_timestamp: u64,
        caller: AccountId,
    ) -> (r: Result<(), Error>)
        requires
            old(self)@.wf(),
        ensures
            final(self)@.wf(),
            r is Err <==> old(self)@.lock_error(asset_id, caller) is Some,
            match r {
                Ok(_) => final(self)@ == (LedgerView {
                    locks: old(self)@.locks.insert((asset_id, holder), until_timestamp),
                    ..old(self)@
                }),
                Err(e) => final(self)@ == old(self)@ && Some(e) == old(self)@.lock_error(
                    asset_id,
                    caller,
                ),
            },
    {
        match self.tokens.get(&asset_id) {
            Some(t) => {
                if caller != t.tokenizer {
                    return Err(Error::Unauthorized);
                }
            },
            None => return Err(Error::AssetNotTokenized),
        }
        self.locks.insert(asset_id, holder, until_timestamp);
        Ok(())
    }

    /// Clears any lock on `holder`'s tokens of `asset_id`.
    pub fn unlock_tokens(&mut self, asset_id: u64, holder: AccountId) -> (r: Result<(), Error>)
        requires
            old(self)@.wf(),
        ensures
            final(self)@.wf(),
            r is Ok,
            final(self)@ == (LedgerView {
                locks: old(self)@.locks.remove((asset_id, holder)),
                ..old(self)@
            }),
    {
        self.locks.remove(asset_id, holder);
        Ok(())
    }

    pub fn get_token_balance(&self, asset_id: u64, holder: AccountId) -> (r: Result<i128, Error>)
        requires
            self@.wf(),
        ensures
            match r {
                Ok(b) => self@.tokens.contains_key(asset_id) && b == self@.balance(asset_id, holder),
                Err(e) => !self@.tokens.contains_key(asset_id) && e == Error::AssetNotTokenized,
            },
    {
        proof {
            if self.books@.contains_key(asset_id) {
                assert(self@.books.contains_key(asset_id));
                assert(self@.tokens.contains_key(asset_id));
                assert(self@.books[asset_id] == self.books@[asset_id]@);
            }
        }
        match self.books.get(&asset_id) {
            Some(book) => Ok(book.balance(holder)),
            None => Err(Error::AssetNotTokenized),
        }
    }

    /// The holders of `asset_id`, in the order in which they first received
    /// tokens.
    pub fn get_token_holders(&self, asset_id: u64) -> (r: Result<Vec<AccountId>, Error>)
        requires
            self@.wf(),
        ensures
            match r {
                Ok(v) => self@.tokens.contains_key(asset_id) && v@ == self@.holders(asset_id),
                Err(e) => !self@.tokens.contains_key(asset_id) && e == Error::AssetNotTokenized,
            },
    {
        proof {
            if self.books@.contains_key(asset_id) {
                assert(self@.books.contains_key(asset_id));
                assert(self@.tokens.contains_key(asset_id));
                assert(self@.books[asset_id] == self.books@[asset_id]@);
            }
        }
        match self.books.get(&asset_id) {
            Some(book) => Ok(book.holders()),
            None => Err(Error::AssetNotTokenized),
        }
    }

    /// `holder`'s share of `asset_id` in basis points, rounded down.
    pub fn get_ownership_percentage(&self, asset_id: u64, holder: AccountId) -> (r: Result<
        i128,
        Error,
    >)
        requires
            self@.wf(),
        ensures
            r is Err <==> self@.ownership_error(asset_id, holder) is Some,
            match r {
                Ok(p) => p == self@.ownership(asset_id, holder),
                Err(e) => Some(e) == self@.ownership_error(asset_id, holder),
            },
    {
        let supply = match self.tokens.get(&asset_id) {
            Some(t) => t.total_supply,
            None => return Err(Error::AssetNotTokenized),
        };
        if supply == 0 {
            return Err(Error::AssetNotTokenized);
        }
        let balance = match self.books.get(&asset_id) {
            Some(book) => book.balance(holder),
            None => return Err(Error::AssetNotTokenized),
        };
        proof {
            let other: u64 = if holder == 0 { 1 } else { 0 };
            lemma_amounts_within_sum(self@.books[asset_id], holder, other);
            lemma_amounts_within_sum(self@.books[asset_id], other, holder);
        }
        match balance.checked_mul(BASIS_POINTS) {
            Some(scaled) => Ok(scaled / supply),
            None => Err(Error::MathOverflow),
        }
    }

    pub fn get_tokenized_asset(&self, asset_id: u64) -> (r: Result<TokenizedAsset, Error>)
        ensures
            match r {
                Ok(t) => self@.tokens.contains_key(asset_id) && t.same_as(&self@.tokens[asset_id]),
                Err(e) => !self@.tokens.contains_key(asset_id) && e == Error::AssetNotTokenized,
            },
    {
        match self.tokens.get(&asset_id) {
            Some(t) => Ok(t.copy()),
            None => Err(Error::AssetNotTokenized),
        }
    }

    pub fn update_valuation(&mut self, asset_id: u64, new_valuation: i128) -> (r: Result<(), Error>)
        requires
            old(self)@.wf(),
        ensures
            final(self)@.wf(),
            r is Err <==> old(self)@.valuation_error(asset_id, new_valuation) is Some,
            match r {
                Ok(_) => final(self)@ == (LedgerView {
                    tokens: old(self)@.tokens.insert(
                        asset_id,
                        TokenizedAsset { valuation: new_valuation, ..old(self)@.tokens[asset_id] },
                    ),
                    ..old(self)@
                }),
                Err(e) => final(self)@ == old(self)@ && Some(e) == old(self)@.valuation_error(
                    asset_id,
                    new_valuation,
                ),
            },
    {
        let ghost v0 = self@;
        if !self.tokens.contains_key(&asset_id) {
            return Err(Error::AssetNotTokenized);
        }
        if new_valuation <= 0 {
            return Err(Error::InvalidValuation);
        }
        let mut t = match self.tokens.remove(&asset_id) {
            Some(t) => t,
            None => return Err(Error::AssetNotTokenized),
        };
        t.valuation = new_valuation;
        self.tokens.insert(asset_id, t);
        proof {
            assert(self@.tokens =~= v0.tokens.insert(
                asset_id,
                TokenizedAsset { valuation: new_valuation, ..v0.tokens[asset_id] },
            ));
        }
        Ok(())
    }

    /// Turns revenue sharing for `asset_id` on or off.
    fn set_revenue_sharing(&mut self, asset_id: u64, enabled: bool) -> (r: Result<(), Error>)
        requires
            old(self)@.wf(),
        ensures
            final(self)@.wf(),
            r is Err <==> old(self)@.registered_error(asset_id) is Some,
            match r {
                Ok(_) => final(self)@ == (LedgerView {
                    revenue_sharing: old(self)@.revenue_sharing.insert(asset_id, enabled),
                    ..old(self)@
                }),
                Err(e) => final(self)@ == old(self)@ && e == Error::AssetNotTokenized,
            },
    {
        if !self.tokens.contains_key(&asset_id) {
            return Err(Error::AssetNotTokenized);
        }
        self.revenue_sharing.insert(asset_id, enabled);
        Ok(())
    }

    pub fn enable_revenue_sharing(&mut self, asset_id: u64) -> (r: Result<(), Error>)
        requires
            old(self)@.wf(),
        ensures
            final(self)@.wf(),
            r is Err <==> old(self)@.registered_error(asset_id) is Some,
            match r {
                Ok(_) => final(self)@ == (LedgerView {
                    revenue_sharing: old(self)@.revenue_sharing.insert(asset_id, true),
                    ..old(self)@
                }),
                Err(e) => final(self)@ == old(self)@ && e == Error::AssetNotTokenized,
            },
    {
        self.set_revenue_sharing(asset_id, true)
    }

    /// Turns revenue sharing off; dividends already credited stay claimable.
    pub fn disable_revenue_sharing(&mut self, asset_id: u64) -> (r: Result<(), Error>)
        requires
            old(self)@.wf(),
        ensures
            final(self)@.wf(),
            r is Err <==> old(self)@.registered_error(asset_id) is Some,
            match r {
                Ok(_) => final(self)@ == (LedgerView {
                    revenue_sharing: old(self)@.revenue_sharing.insert(asset_id, false),
                    ..old(self)@
                }),
                Err(e) => final(self)@ == old(self)@ && e == Error::AssetNotTokenized,
            },
    {
        self.set_revenue_sharing(asset_id, false)
    }

    fn unclaimed_value(&self, asset_id: u64, holder: AccountId) -> (r: i128)
        ensures
            r == self@.unclaimed_of(asset_id, holder),
    {
        match self.unclaimed.get(asset_id, holder) {
            Some(x) => *x,
            None => 0,
        }
    }

    /// Credits every current holder of `asset_id` with its share of
    /// `total_amount`, in proportion to its balance, rounded down.
    pub fn distribute_dividends(&mut self, asset_id: u64, total_amount: i128) -> (r: Result<
        (),
        Error,
    >)
        requires
            old(self)@.wf(),
        ensures
            final(self)@.wf(),
            r is Err <==> old(self)@.distribute_error(asset_id, total_amount) is Some,
            match r {
                Ok(_) => old(self)@.distributed(final(self)@, asset_id, total_amount),
                Err(e) => final(self)@ == old(self)@ && Some(e) == old(self)@.distribute_error(
                    asset_id,
                    total_amount,
                ),
            },
    {
        let ghost v0 = self@;
        let supply = match self.tokens.get(&asset_id) {
            Some(t) => t.total_supply,
            None => return Err(Error::AssetNotTokenized),
        };
        if total_amount <= 0 {
            return Err(Error::InvalidDividendAmount);
        }
        let enabled = match self.revenue_sharing.get(&asset_id) {
            Some(e) => *e,
            None => false,
        };
        if !enabled {
            return Err(Error::Unauthorized);
        }
        proof {
            assert(v0.tokens.contains_key(asset_id));
            assert(v0.books.contains_key(asset_id));
            assert(v0.sharing_enabled(asset_id));
        }
        let book = match self.books.get(&asset_id) {
            Some(b) => b,
            None => return vstd::pervasive::unreached(),
        };
        let ghost s = book@;
        assert(s == v0.book(asset_id));
        let n = book.len();
        // First work out every holder's new unclaimed total, so that an
        // overflow is found before anything is written.
        let mut totals: Vec<i128> = Vec::new();
        let mut i: usize = 0;
        while i < n
            invariant
                n == s.len(),
                s == book@,
                book_wf(s),
                sum_of(s) == supply,
                supply as int == v0.supply(asset_id),
                v0.wf(),
                v0 == self@,
                s == v0.book(asset_id),
                v0.sharing_enabled(asset_id),
                total_amount > 0,
                i <= n,
                totals@.len() == i,
                forall|j: int|
                    0 <= j < i ==> {
                        let e = #[trigger] s[j];
                        &&& total_amount * e.amount <= i128::MAX
                        &&& v0.unclaimed_of(asset_id, e.holder) + total_amount * e.amount / v0.supply(asset_id)
                            <= i128::MAX
                        &&& totals@[j] == v0.unclaimed_of(asset_id, e.holder) + total_amount * e.amount
                            / v0.supply(asset_id)
                    },
            decreases n - i,
        {
            let e = book.at(i);
            proof {
                crate::holdings::lemma_entry_within_sum(s, i as int);
            }
            let product = match total_amount.checked_mul(e.amount) {
                Some(p) => p,
                None => {
                    proof {
                        assert(v0.book(asset_id)[i as int] == e);
                        assert(!v0.distribution_fits(asset_id, total_amount));
                    }
                    return Err(Error::MathOverflow);
                },
            };
            let part = product / supply;
            let current = self.unclaimed_value(asset_id, e.holder);
            let next = match current.checked_add(part) {
                Some(x) => x,
                None => {
                    proof {
                        assert(v0.book(asset_id)[i as int] == e);
                        assert(!v0.distribution_fits(asset_id, total_amount));
                    }
                    return Err(Error::MathOverflow);
                },
            };
            totals.push(next);
            i += 1;
        }
        let mut i: usize = 0;
        while i < n
            invariant
                n == s.len(),
                book_wf(s),
                sum_of(s) == supply,
                supply as int == v0.supply(asset_id),
                v0.wf(),
                v0.books.contains_key(asset_id),
                v0.book(asset_id) == s,
                totals@.len() == n,
                forall|j: int|
                    0 <= j < n ==> #[trigger] totals@[j] == v0.unclaimed_of(asset_id, s[j].holder)
                        + total_amount * s[j].amount / v0.supply(asset_id),
                i <= n,
                self@ == (LedgerView { unclaimed: self@.unclaimed, ..v0 }),
                forall|h: AccountId| #[trigger]
                    self@.unclaimed_of(asset_id, h) == v0.unclaimed_of(asset_id, h) + if holders_in(
                        s.take(i as int),
                    ).contains(h) {
                        total_amount * amount_in(s, h) / v0.supply(asset_id)
                    } else {
                        0
                    },
                forall|b: u64, h: AccountId|
                    b != asset_id ==> #[trigger] self@.unclaimed_of(b, h) == v0.unclaimed_of(b, h),
            decreases n - i,
        {
            let e = match self.books.get(&asset_id) {
                Some(b) => b.at(i),
                None => return vstd::pervasive::unreached(),
            };
            let ghost before = self@;
            self.unclaimed.insert(asset_id, e.holder, totals[i]);
            proof {
                let h0 = e.holder;
                crate::holdings::lemma_entry_within_sum(s, i as int);
                assert(!holders_in(s.take(i as int)).contains(h0)) by {
                    if holders_in(s.take(i as int)).contains(h0) {
                        let j = choose|j: int|
                            0 <= j < holders_in(s.take(i as int)).len() && holders_in(
                                s.take(i as int),
                            )[j] == h0;
                        assert(s[j].holder == h0);
                    }
                }
                assert(holders_in(s.take(i + 1)) =~= holders_in(s.take(i as int)).push(h0));
                let t0 = holders_in(s.take(i as int));
                let t1 = holders_in(s.take(i + 1));
                assert(t1[i as int] == h0);
                assert forall|h: AccountId| #[trigger]
                    self@.unclaimed_of(asset_id, h) == v0.unclaimed_of(asset_id, h) + if t1.contains(h) {
                        total_amount * amount_in(s, h) / v0.supply(asset_id)
                    } else {
                        0
                    } by {
                    if h == h0 {
                        assert(t1.contains(h0));
                        assert(self@.unclaimed_of(asset_id, h0) == totals@[i as int]);
                    } else {
                        assert(before.unclaimed_of(asset_id, h) == self@.unclaimed_of(asset_id, h));
                        if t1.contains(h) {
                            let j = choose|j: int| 0 <= j < t1.len() && t1[j] == h;
                            assert(j < i);
                            assert(t0[j] == h);
                        }
                        if t0.contains(h) {
                            let j = choose|j: int| 0 <= j < t0.len() && t0[j] == h;
                            assert(t1[j] == h);
                        }
                    }
                }
                assert forall|b: u64, h: AccountId|
                    b != asset_id implies #[trigger] self@.unclaimed_of(b, h) == v0.unclaimed_of(b, h) by {
                    assert(before.unclaimed_of(b, h) == self@.unclaimed_of(b, h));
                }
            }
            i += 1;
        }
        proof {
            assert(s.take(n as int) =~= s);
            assert forall|h: AccountId| #[trigger]
                self@.unclaimed_of(asset_id, h) == v0.unclaimed_of(asset_id, h) + v0.share(
                    asset_id,
                    h,
                    total_amount,
                ) by {
                lemma_listed_iff_positive(s, h);
                let other: u64 = if h == 0 { 1 } else { 0 };
                lemma_amounts_within_sum(s, h, other);
                lemma_amounts_within_sum(s, other, h);
                assert(v0.balance(asset_id, h) == amount_in(s, h));
                if holders_in(s).contains(h) {
                    assert(v0.supply(asset_id) > 0);
                } else {
                    assert(amount_in(s, h) == 0);
                    assert(total_amount * amount_in(s, h) == 0) by (nonlinear_arith)
                        requires
                            amount_in(s, h) == 0,
                    ;
                }
            }
        }
        Ok(())
    }


    /// Pays out `holder`'s unclaimed dividends of `asset_id`.
    pub fn claim_dividends(&mut self, asset_id: u64, holder: AccountId) -> (r: Result<i128, Error>)
        requires
            old(self)@.wf(),
        ensures
            final(self)@.wf(),
            r is Err <==> old(self)@.unclaimed_of(asset_id, holder) <= 0,
            match r {
                Ok(x) => {
                    &&& x == old(self)@.unclaimed_of(asset_id, holder)
                    &&& final(self)@ == (LedgerView {
                        unclaimed: old(self)@.unclaimed.remove((asset_id, holder)),
                        ..old(self)@
                    })
                },
                Err(e) => final(self)@ == old(self)@ && e == Error::NoDividendsToClaim,
            },
    {
        let amount = self.unclaimed_value(asset_id, holder);
        if amount <= 0 {
            return Err(Error::NoDividendsToClaim);
        }
        self.unclaimed.remove(asset_id, holder);
        Ok(amount)
    }

    pub fn get_unclaimed_dividends(&self, asset_id: u64, holder: AccountId) -> (r: Result<
        i128,
        Error,
    >)
        ensures
            r == Ok::<i128, Error>(self@.unclaimed_of(asset_id, holder) as i128),
    {
        Ok(self.unclaimed_value(asset_id, holder))
    }

    fn tally_value(&self, asset_id: u64, proposal_id: u64) -> (r: i128)
        ensures
            r == self@.tally_of(asset_id, proposal_id),
    {
        match self.tallies.get(asset_id, proposal_id) {
            Some(x) => *x,
            None => 0,
        }
    }

    /// Records `voter`'s vote for proposal `proposal_id` of `asset_id`,
    /// weighted by its balance now.
    pub fn cast_vote(&mut self, asset_id: u64, proposal_id: u64, voter: AccountId) -> (r: Result<
        (),
        Error,
    >)
        requires
            old(self)@.wf(),
        ensures
            final(self)@.wf(),
            r is Err <==> old(self)@.vote_error(asset_id, proposal_id, voter) is Some,
            match r {
                Ok(_) => final(self)@ == old(self)@.with_vote(asset_id, proposal_id, voter),
                Err(e) => final(self)@ == old(self)@ && Some(e) == old(self)@.vote_error(
                    asset_id,
                    proposal_id,
                    voter,
                ),
            },
    {
        let ghost v0 = self@;
        if !self.tokens.contains_key(&asset_id) {
            return Err(Error::AssetNotTokenized);
        }
        let voted = match self.voters.get(asset_id, proposal_id) {
            Some(list) => transfer_restrictions::list_contains(list, voter),
            None => false,
        };
        if voted {
            return Err(Error::AlreadyVoted);
        }
        let weight = match self.get_token_balance(asset_id, voter) {
            Ok(b) => b,
            Err(e) => return Err(e),
        };
        if weight <= 0 {
            return Err(Error::InsufficientVotingPower);
        }
        let tally = self.tally_value(asset_id, proposal_id);
        let new_tally = match tally.checked_add(weight) {
            Some(t) => t,
            None => return Err(Error::MathOverflow),
        };
        let mut list = match self.voters.remove(asset_id, proposal_id) {
            Some(l) => l,
            None => Vec::new(),
        };
        proof {
            assert(list@ == v0.voters_of(asset_id, proposal_id));
        }
        list.push(voter);
        self.voters.insert(asset_id, proposal_id, list);
        self.tallies.insert(asset_id, proposal_id, new_tally);
        proof {
            assert(self@.voters =~= v0.voters.insert(
                (asset_id, proposal_id),
                v0.voters_of(asset_id, proposal_id).push(voter),
            ));
        }
        Ok(())
    }

    /// The affirmative weight of a proposal; `ProposalNotFound` before its
    /// first vote.
    pub fn get_vote_tally(&self, asset_id: u64, proposal_id: u64) -> (r: Result<i128, Error>)
        ensures
            match r {
                Ok(t) => self@.tallies.contains_key((asset_id, proposal_id)) && t == self@.tallies[(
                    asset_id,
                    proposal_id,
                )],
                Err(e) => !self@.tallies.contains_key((asset_id, proposal_id)) && e
                    == Error::ProposalNotFound,
            },
    {
        match self.tallies.get(asset_id, proposal_id) {
            Some(t) => Ok(*t),
            None => Err(Error::ProposalNotFound),
        }
    }

    pub fn has_voted(&self, asset_id: u64, proposal_id: u64, voter: AccountId) -> (r: Result<
        bool,
        Error,
    >)
        ensures
            r == Ok::<bool, Error>(self@.has_voted(asset_id, proposal_id, voter)),
    {
        match self.voters.get(asset_id, proposal_id) {
            Some(list) => Ok(transfer_restrictions::list_contains(list, voter)),
            None => Ok(false),
        }
    }

    pub fn proposal_passed(&self, asset_id: u64, proposal_id: u64) -> (r: Result<bool, Error>)
        ensures
            match r {
                Ok(b) => self@.tokens.contains_key(asset_id) && b == self@.passed(asset_id, proposal_id),
                Err(e) => !self@.tokens.contains_key(asset_id) && e == Error::AssetNotTokenized,
            },
    {
        let threshold = match self.tokens.get(&asset_id) {
            Some(t) => t.min_voting_threshold,
            None => return Err(Error::AssetNotTokenized),
        };
        Ok(self.tally_value(asset_id, proposal_id) >= threshold)
    }

    /// Opens a detokenization proposal for `asset_id` under a fresh id.
    pub fn propose_detokenization(&mut self, asset_id: u64, proposer: AccountId, now: u64) -> (r:
        Result<u64, Error>)
        requires
            old(self)@.wf(),
        ensures
            final(self)@.wf(),
            r is Err <==> old(self)@.propose_error(asset_id) is Some,
            match r {
                Ok(id) => id == old(self)@.next_proposal_id && final(self)@ == old(
                    self,
                )@.with_proposal(asset_id, proposer, now),
                Err(e) => final(self)@ == old(self)@ && Some(e) == old(self)@.propose_error(
                    asset_id,
                ),
            },
    {
        match self.tokens.get(&asset_id) {
            Some(t) => {
                if t.detokenized {
                    return Err(Error::AssetNotTokenized);
                }
            },
            None => return Err(Error::AssetNotTokenized),
        }
        if let Some(p) = self.detokenizations.get(&asset_id) {
            if !p.executed {
                return Err(Error::DetokenizationAlreadyProposed);
            }
        }
        if self.next_proposal_id == u64::MAX {
            return Err(Error::MathOverflow);
        }
        let id = self.next_proposal_id;
        let proposal = DetokenizationProposal {
            proposal_id: id,
            proposer,
            created_at: now,
            executed: false,
        };
        self.detokenizations.insert(asset_id, proposal);
        self.next_proposal_id = id + 1;
        Ok(id)
    }

    /// Executes the detokenization of `asset_id` once its proposal has
    /// passed: the asset is frozen for good.
    pub fn execute_detokenization(&mut self, asset_id: u64, proposal_id: u64) -> (r: Result<
        (),
        Error,
    >)
        requires
            old(self)@.wf(),
        ensures
            final(self)@.wf(),
            r is Err <==> old(self)@.execute_error(asset_id, proposal_id) is Some,
            match r {
                Ok(_) => final(self)@ == old(self)@.detokenized(asset_id),
                Err(e) => final(self)@ == old(self)@ && Some(e) == old(self)@.execute_error(
                    asset_id,
                    proposal_id,
                ),
            },
    {
        let ghost v0 = self@;
        if !self.tokens.contains_key(&asset_id) {
            return Err(Error::AssetNotTokenized);
        }
        let mut proposal = match self.detokenizations.get(&asset_id) {
            Some(p) => *p,
            None => return Err(Error::ProposalNotFound),
        };
        if proposal.proposal_id != proposal_id {
            return Err(Error::ProposalNotFound);
        }
        if proposal.executed {
            return Err(Error::InvalidProposal);
        }
        let threshold = match self.tokens.get(&asset_id) {
            Some(t) => t.min_voting_threshold,
            None => return vstd::pervasive::unreached(),
        };
        if self.tally_value(asset_id, proposal_id) < threshold {
            return Err(Error::DetokenizationNotApproved);
        }
        let mut t = match self.tokens.remove(&asset_id) {
            Some(t) => t,
            None => return vstd::pervasive::unreached(),
        };
        t.detokenized = true;
        self.tokens.insert(asset_id, t);
        proposal.executed = true;
        self.detokenizations.insert(asset_id, proposal);
        proof {
            assert(self@.tokens =~= v0.detokenized(asset_id).tokens);
            assert(self@.detokenizations =~= v0.detokenized(asset_id).detokenizations);
        }
        Ok(())
    }

    pub fn get_detokenization_proposal(&self, asset_id: u64) -> (r: Result<
        DetokenizationProposal,
        Error,
    >)
        ensures
            match r {
                Ok(p) => self@.detokenizations.contains_key(asset_id) && p
                    == self@.detokenizations[asset_id],
                Err(e) => !self@.detokenizations.contains_key(asset_id) && e == Error::ProposalNotFound,
            },
    {
        match self.detokenizations.get(&asset_id) {
            Some(p) => Ok(*p),
            None => Err(Error::ProposalNotFound),
        }
    }

    pub fn is_detokenization_active(&self, asset_id: u64) -> (r: Result<bool, Error>)
        ensures
            r == Ok::<bool, Error>(self@.detokenization_active(asset_id)),
    {
        match self.detokenizations.get(&asset_id) {
            Some(p) => Ok(!p.executed),
            None => Ok(false),
        }
    }

    /// Replaces the transfer restriction of `asset_id` with one that has no
    /// region list.
    pub fn set_transfer_restriction(&mut self, asset_id: u64, require_accredited: bool) -> (r:
        Result<(), Error>)
        requires
            old(self)@.wf(),
        ensures
            final(self)@.wf(),
            r is Ok,
            final(self)@ == (LedgerView { rules: final(self)@.rules, ..old(self)@ }),
            final(self)@.rules.whitelists == old(self)@.rules.whitelists,
            final(self)@.rules.restrictions == old(self)@.rules.restrictions.insert(
                asset_id,
                final(self)@.rules.restrictions[asset_id],
            ),
            final(self)@.rules.restrictions[asset_id].require_accredited == require_accredited,
            final(self)@.rules.restrictions[asset_id].geographic_allowed@.len() == 0,
    {
        let restriction = TransferRestriction { require_accredited, geographic_allowed: Vec::new() };
        transfer_restrictions::set_transfer_restriction(&mut self.rules, asset_id, restriction)
    }

    pub fn add_to_whitelist(&mut self, asset_id: u64, address: AccountId) -> (r: Result<(), Error>)
        requires
            old(self)@.wf(),
        ensures
            final(self)@.wf(),
            r is Ok,
            final(self)@ == (LedgerView {
                rules: old(self)@.rules.with_added(asset_id, address),
                ..old(self)@
            }),
    {
        transfer_restrictions::add_to_whitelist(&mut self.rules, asset_id, address)
    }

    pub fn remove_from_whitelist(&mut self, asset_id: u64, address: AccountId) -> (r: Result<
        (),
        Error,
    >)
        requires
            old(self)@.wf(),
        ensures
            final(self)@.wf(),
            r is Ok,
            final(self)@ == (LedgerView { rules: final(self)@.rules, ..old(self)@ }),
            old(self)@.rules.is_removal(final(self)@.rules, asset_id, address),
    {
        transfer_restrictions::remove_from_whitelist(&mut self.rules, asset_id, address)
    }

    pub fn is_whitelisted(&self, asset_id: u64, address: AccountId) -> (r: Result<bool, Error>)
        ensures
            r == Ok::<bool, Error>(self@.rules.whitelist_of(asset_id).contains(address)),
    {
        transfer_restrictions::is_whitelisted(&self.rules, asset_id, address)
    }

    pub fn get_whitelist(&self, asset_id: u64) -> (r: Result<Vec<AccountId>, Error>)
        ensures
            r is Ok,
            r->Ok_0@ == self@.rules.whitelist_of(asset_id),
    {
        transfer_restrictions::get_whitelist(&self.rules, asset_id)
    }

    /// Puts back a book taken by `take_book`, with the asset's total supply
    /// set to `new_supply`.
    fn commit(
        &mut self,
        a: u64,
        book: Holdings,
        new_supply: i128,
        Ghost(before): Ghost<AssetUpContract>,
    ) -> (t: TokenizedAsset)
        requires
            before@.wf(),
            before@.tokens.contains_key(a),
            old(self).tokens == before.tokens,
            old(self).books@ == before.books@.remove(a),
            old(self).locks == before.locks,
            old(self).rules == before.rules,
            old(self).revenue_sharing == before.revenue_sharing,
            old(self).unclaimed == before.unclaimed,
            old(self).tallies == before.tallies,
            old(self).voters == before.voters,
            old(self).detokenizations == before.detokenizations,
            old(self).next_proposal_id == before.next_proposal_id,
            book_wf(book@),
            sum_of(book@) == new_supply,
        ensures
            final(self)@ == before@.with_token(
                a,
                TokenizedAsset { total_supply: new_supply, ..before@.tokens[a] },
                book@,
            ),
            final(self)@.wf(),
            t.same_as(&final(self)@.tokens[a]),
    {
        let ghost b = book@;
        self.books.insert(a, book);
        let mut t = match self.tokens.remove(&a) {
            Some(t) => t,
            None => {
                return vstd::pervasive::unreached();
            },
        };
        t.total_supply = new_supply;
        let out = t.copy();
        self.tokens.insert(a, t);
        proof {
            let t1 = TokenizedAsset { total_supply: new_supply, ..before@.tokens[a] };
            assert(self@.tokens =~= before@.tokens.insert(a, t1));
            assert(self@.books =~= before@.books.insert(a, b));
            assert(self@.voters =~= before@.voters);
        }
        out
    }

    /// Mints `amount` new tokens of `asset_id` to its tokenizer.
    pub fn mint_tokens(&mut self, asset_id: u64, amount: i128, minter: AccountId) -> (r: Result<
        TokenizedAsset,
        Error,
    >)
        requires
            old(self)@.wf(),
        ensures
            final(self)@.wf(),
            r is Err <==> old(self)@.mint_error(asset_id, amount, minter) is Some,
            match r {
                Ok(t) => {
                    &&& old(self)@.rebalanced(
                        final(self)@,
                        asset_id,
                        amount as int,
                        credited(minter, amount as int),
                    )
                    &&& final(self)@.holders(asset_id) == listed_after_credit(
                        old(self)@.holders(asset_id),
                        minter,
                    )
                    &&& t.same_as(&final(self)@.tokens[asset_id])
                },
                Err(e) => final(self)@ == old(self)@ && Some(e) == old(self)@.mint_error(
                    asset_id,
                    amount,
                    minter,
                ),
            },
    {
        let ghost before = *self;
        let (supply, tokenizer, detokenized) = match self.tokens.get(&asset_id) {
            Some(t) => (t.total_supply, t.tokenizer, t.detokenized),
            None => return Err(Error::AssetNotTokenized),
        };
        if detokenized {
            return Err(Error::AssetNotTokenized);
        }
        if minter != tokenizer {
            return Err(Error::Unauthorized);
        }
        if amount <= 0 {
            return Err(Error::InvalidTokenSupply);
        }
        let new_supply = match supply.checked_add(amount) {
            Some(s) => s,
            None => return Err(Error::MathOverflow),
        };
        let mut book = self.take_book(asset_id);
        proof {
            let other: u64 = if minter == 0 { 1 } else { 0 };
            lemma_amounts_within_sum(book@, minter, other);
            lemma_amounts_within_sum(book@, other, minter);
        }
        book.credit(minter, amount);
        let out = self.commit(asset_id, book, new_supply, Ghost(before));
        Ok(out)
    }

    /// Burns `amount` tokens of `asset_id` held by its tokenizer.
    pub fn burn_tokens(
        &mut self,
        asset_id: u64,
        amount: i128,
        burner: AccountId,
        now: u64,
    ) -> (r: Result<TokenizedAsset, Error>)
        requires
            old(self)@.wf(),
        ensures
            final(self)@.wf(),
            r is Err <==> old(self)@.burn_error(asset_id, amount, burner, now) is Some,
            match r {
                Ok(t) => {
                    &&& old(self)@.rebalanced(
                        final(self)@,
                        asset_id,
                        -amount,
                        credited(burner, -amount),
                    )
                    &&& final(self)@.holders(asset_id) == listed_after_debit(
                        old(self)@.holders(asset_id),
                        burner,
                        old(self)@.balance(asset_id, burner) == amount,
                    )
                    &&& t.same_as(&final(self)@.tokens[asset_id])
                },
                Err(e) => final(self)@ == old(self)@ && Some(e) == old(self)@.burn_error(
                    asset_id,
                    amount,
                    burner,
                    now,
                ),
            },
    {
        let ghost before = *self;
        let (supply, tokenizer, detokenized) = match self.tokens.get(&asset_id) {
            Some(t) => (t.total_supply, t.tokenizer, t.detokenized),
            None => return Err(Error::AssetNotTokenized),
        };
        if detokenized {
            return Err(Error::AssetNotTokenized);
        }
        if burner != tokenizer {
            return Err(Error::Unauthorized);
        }
        if amount <= 0 {
            return Err(Error::InvalidTokenSupply);
        }
        if self.is_tokens_locked(asset_id, burner, now) {
            return Err(Error::TokensAreLocked);
        }
        let mut book = self.take_book(asset_id);
        if book.balance(burner) < amount {
            self.books.insert(asset_id, book);
            proof {
                assert(self.books@ =~= before.books@);
            }
            return Err(Error::InsufficientBalance);
        }
        proof {
            let other: u64 = if burner == 0 { 1 } else { 0 };
            lemma_amounts_within_sum(book@, burner, other);
            lemma_amounts_within_sum(book@, other, burner);
        }
        book.debit(burner, amount);
        let out = self.commit(asset_id, book, supply - amount, Ghost(before));
        Ok(out)
    }

    /// Moves `amount` tokens of `asset_id` from `from` to `to`, without
    /// consulting the transfer rules.
    pub fn move_tokens(
        &mut self,
        asset_id: u64,
        from: AccountId,
        to: AccountId,
        amount: i128,
        now: u64,
    ) -> (r: Result<(), Error>)
        requires
            old(self)@.wf(),
        ensures
            final(self)@.wf(),
            r is Err <==> old(self)@.move_error(asset_id, from, amount, now) is Some,
            match r {
                Ok(_) => {
                    &&& old(self)@.rebalanced(
                        final(self)@,
                        asset_id,
                        0,
                        moved_by_transfer(from, to, amount as int),
                    )
                    &&& final(self)@.holders(asset_id) == listed_after_credit(
                        listed_after_debit(
                            old(self)@.holders(asset_id),
                            from,
                            old(self)@.balance(asset_id, from) == amount,
                        ),
                        to,
                    )
                },
                Err(e) => final(self)@ == old(self)@ && Some(e) == old(self)@.move_error(
                    asset_id,
                    from,
                    amount,
                    now,
                ),
            },
    {
        let ghost before = *self;
        let (supply, detokenized) = match self.tokens.get(&asset_id) {
            Some(t) => (t.total_supply, t.detokenized),
            None => return Err(Error::AssetNotTokenized),
        };
        if detokenized {
            return Err(Error::AssetNotTokenized);
        }
        if amount <= 0 {
            return Err(Error::InvalidTokenSupply);
        }
        if self.is_tokens_locked(asset_id, from, now) {
            return Err(Error::TokensAreLocked);
        }
        let mut book = self.take_book(asset_id);
        if book.balance(from) < amount {
            self.books.insert(asset_id, book);
            proof {
                assert(self.books@ =~= before.books@);
            }
            return Err(Error::InsufficientBalance);
        }
        proof {
            let other: u64 = if from == 0 { 1 } else { 0 };
            lemma_amounts_within_sum(book@, from, other);
            if from != to {
                lemma_amounts_within_sum(book@, from, to);
            }
        }
        book.debit(from, amount);
        book.credit(to, amount);
        self.commit(asset_id, book, supply, Ghost(before));
        proof {
            assert(TokenizedAsset { total_supply: supply, ..before@.tokens[asset_id] }
                == before@.tokens[asset_id]);
        }
        Ok(())
    }

    /// Transfers `amount` tokens of `asset_id` from `from` to `to` once the
    /// transfer rules approve the recipient.
    pub fn transfer_tokens(
        &mut self,
        asset_id: u64,
        from: AccountId,
        to: AccountId,
        amount: i128,
        now: u64,
    ) -> (r: Result<(), Error>)
        requires
            old(self)@.wf(),
        ensures
            final(self)@.wf(),
            r is Err <==> old(self)@.transfer_error(asset_id, from, to, amount, now) is Some,
            match r {
                Ok(_) => {
                    &&& old(self)@.rebalanced(
                        final(self)@,
                        asset_id,
                        0,
                        moved_by_transfer(from, to, amount as int),
                    )
                    &&& final(self)@.holders(asset_id) == listed_after_credit(
                        listed_after_debit(
                            old(self)@.holders(asset_id),
                            from,
                            old(self)@.balance(asset_id, from) == amount,
                        ),
                        to,
                    )
                },
                Err(e) => final(self)@ == old(self)@ && Some(e) == old(self)@.transfer_error(
                    asset_id,
                    from,
                    to,
                    amount,
                    now,
                ),
            },
    {
        match transfer_restrictions::validate_transfer(&self.rules, asset_id, from, to) {
            Err(e) => Err(e),
            Ok(_) => self.move_tokens(asset_id, from, to, amount, now),
        }
    }

    pub fn is_tokens_locked(&self, asset_id: u64, holder: AccountId, now: u64) -> (r: bool)
        ensures
            r == self@.is_locked(asset_id, holder, now),
    {
        match self.locks.get(asset_id, holder) {
            Some(until) => *until > now,
            None => false,
        }
    }

    /// Takes the book of a registered asset out of the ledger.
    fn take_book(&mut self, a: u64) -> (b: Holdings)
        requires
            old(self)@.wf(),
            old(self)@.tokens.contains_key(a),
        ensures
            b == old(self).books@[a],
            b@ == old(self)@.books[a],
            book_wf(b@),
            sum_of(b@) == old(self)@.supply(a),
            final(self).tokens == old(self).tokens,
            final(self).books@ == old(self).books@.remove(a),
            final(self).locks == old(self).locks,
            final(self).rules == old(self).rules,
            final(self).revenue_sharing == old(self).revenue_sharing,
            final(self).unclaimed == old(self).unclaimed,
            final(self).tallies == old(self).tallies,
            final(self).voters == old(self).voters,
            final(self).detokenizations == old(self).detokenizations,
            final(self).next_proposal_id == old(self).next_proposal_id,
    {
        assert(self.books@.contains_key(a));
        match self.books.remove(&a) {
            Some(b) => b,
            None => vstd::pervasive::unreached(),
        }
    }
}

} // verus!
