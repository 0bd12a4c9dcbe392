use vstd::prelude::*;

use crate::error::Error;
use crate::holdings::{
    amount_in, balance_sum, holders_in, lemma_amounts_within_sum, lemma_balance_sum_of_holders,
    lemma_listed_iff_positive, AccountId, Holding,
};
use crate::ledger::{moved_by_transfer, new_token, LedgerView};
use crate::transfer_restrictions::RulesView;
use crate::types::{TokenMetadata, BASIS_POINTS};

verus! {

/// The balances of an asset's holders, added up.
pub open spec fn holder_balance_total(v: LedgerView, a: u64) -> int {
    balance_sum(v.book(a), v.holders(a))
}

/// In every well-formed ledger, and so after every mint, burn and transfer
/// (each keeps the ledger well formed), the balances of an asset's holders
/// add up to its total supply.
pub proof fn supply_is_sum_of_holder_balances(v: LedgerView, a: u64)
    requires
        v.wf(),
        v.tokens.contains_key(a),
    ensures
        holder_balance_total(v, a) == v.tokens[a].total_supply,
{
    lemma_balance_sum_of_holders(v.books[a]);
}

/// In every well-formed ledger an account is listed as a holder of an asset
/// exactly when its balance is positive: no entry outlives a balance that
/// reached zero.
pub proof fn holder_iff_positive_balance(v: LedgerView, a: u64, h: AccountId)
    requires
        v.wf(),
    ensures
        v.holders(a).contains(h) <==> v.balance(a, h) > 0,
{
    if v.tokens.contains_key(a) {
        lemma_listed_iff_positive(v.books[a], h);
    } else {
        assert(!v.books.contains_key(a));
        assert(v.book(a) =~= Seq::<Holding>::empty());
        assert(holders_in(Seq::<Holding>::empty()) =~= Seq::<AccountId>::empty());
    }
}

/// Whitelisting an address twice leaves the rules as whitelisting it once
/// does; on an empty whitelist both leave a list of one.
pub proof fn whitelisting_is_idempotent(r: RulesView, a: u64, x: AccountId)
    ensures
        r.with_added(a, x).with_added(a, x) == r.with_added(a, x),
        r.whitelist_of(a).len() == 0 ==> r.with_added(a, x).whitelist_of(a).len() == 1,
{
    let once = r.with_added(a, x);
    if !r.whitelist_of(a).contains(x) {
        let l = r.whitelist_of(a).push(x);
        assert(once.whitelist_of(a) == l);
        assert(l[l.len() - 1] == x);
        assert(once.whitelist_of(a).contains(x));
    }
}

/// Removing an address that is not whitelisted changes nothing.
pub proof fn removing_unlisted_is_no_op(r: RulesView, next: RulesView, a: u64, x: AccountId)
    requires
        !r.whitelist_of(a).contains(x),
        r.is_removal(next, a, x),
    ensures
        next == r,
{
}

/// After tokenization the tokenizer owns the whole asset, 10000 basis
/// points; once it transfers `x` tokens to another account, that account
/// owns `x * 10000 / supply` of it and the tokenizer the rest, rounded down.
pub proof fn ownership_after_tokenize_then_transfer(
    v: LedgerView,
    a: u64,
    symbol: String,
    supply: i128,
    decimals: u32,
    min_voting_threshold: i128,
    tokenizer: AccountId,
    metadata: TokenMetadata,
    after_transfer: LedgerView,
    to: AccountId,
    x: i128,
)
    requires
        v.wf(),
        v.tokenize_error(a, supply, decimals) is None,
        tokenizer != to,
        0 < x <= supply,
        v.with_token(
            a,
            new_token(a, symbol, supply, decimals, min_voting_threshold, tokenizer, metadata),
            seq![Holding { holder: tokenizer, amount: supply }],
        ).rebalanced(after_transfer, a, 0, moved_by_transfer(tokenizer, to, x as int)),
    ensures
        ({
            let tokenized = v.with_token(
                a,
                new_token(a, symbol, supply, decimals, min_voting_threshold, tokenizer, metadata),
                seq![Holding { holder: tokenizer, amount: supply }],
            );
            tokenized.ownership(a, tokenizer) == BASIS_POINTS
        }),
        after_transfer.ownership(a, to) == x * BASIS_POINTS / supply as int,
        after_transfer.ownership(a, tokenizer) == (supply - x) * BASIS_POINTS / supply as int,
{
    let t = new_token(a, symbol, supply, decimals, min_voting_threshold, tokenizer, metadata);
    let b = seq![Holding { holder: tokenizer, amount: supply }];
    let tokenized = v.with_token(a, t, b);
    assert(tokenized.book(a) == b);
    assert(b.drop_last() =~= Seq::<Holding>::empty());
    assert(b.last() == Holding { holder: tokenizer, amount: supply });
    assert(amount_in(b, tokenizer) == supply);
    assert(amount_in(Seq::<Holding>::empty(), to) == 0);
    assert(amount_in(b, to) == 0);
    assert(tokenized.supply(a) == supply);
    assert(supply * BASIS_POINTS / supply as int == BASIS_POINTS) by (nonlinear_arith)
        requires
            supply > 0,
    ;
    assert(after_transfer.balance(a, to) == tokenized.balance(a, to) + moved_by_transfer(
        tokenizer,
        to,
        x as int,
    )(to));
    assert(after_transfer.balance(a, tokenizer) == tokenized.balance(a, tokenizer)
        + moved_by_transfer(tokenizer, to, x as int)(tokenizer));
    assert(after_transfer.supply(a) == supply);
}

/// A transfer of exactly the sender's whole balance passes every balance
/// check and leaves the sender off the holder list; one token more fails
/// with `InsufficientBalance`.
pub proof fn whole_balance_transfer_boundary(
    v: LedgerView,
    after: LedgerView,
    a: u64,
    from: AccountId,
    to: AccountId,
    now: u64,
)
    requires
        v.wf(),
        after.wf(),
        from != to,
        v.rules.verdict(a, to) is Ok,
        v.is_live(a),
        !v.is_locked(a, from, now),
        v.balance(a, from) > 0,
        v.rebalanced(after, a, 0, moved_by_transfer(from, to, v.balance(a, from))),
    ensures
        v.transfer_error(a, from, to, v.balance(a, from) as i128, now) is None,
        v.balance(a, from) < i128::MAX ==> v.transfer_error(
            a,
            from,
            to,
            (v.balance(a, from) + 1) as i128,
            now,
        ) == Some(Error::InsufficientBalance),
        !after.holders(a).contains(from),
{
    let other: u64 = if from == 0 { 1 } else { 0 };
    lemma_amounts_within_sum(v.books[a], from, other);
    lemma_amounts_within_sum(v.books[a], other, from);
    assert(after.balance(a, from) == v.balance(a, from) + moved_by_transfer(
        from,
        to,
        v.balance(a, from),
    )(from));
    holder_iff_positive_balance(after, a, from);
}

/// The shares of a distribution of `amount` that go to the accounts `hs`,
/// added up.
pub open spec fn shares_total(v: LedgerView, a: u64, amount: i128, hs: Seq<AccountId>) -> int
    decreases hs.len(),
{
    if hs.len() == 0 {
        0
    } else {
        shares_total(v, a, amount, hs.drop_last()) + v.share(a, hs.last(), amount)
    }
}

proof fn lemma_shares_within_balances(v: LedgerView, a: u64, amount: i128, hs: Seq<AccountId>)
    requires
        v.wf(),
        v.tokens.contains_key(a),
        v.supply(a) > 0,
        amount > 0,
    ensures
        0 <= shares_total(v, a, amount, hs),
        v.supply(a) * shares_total(v, a, amount, hs) <= amount * balance_sum(v.book(a), hs),
    decreases hs.len(),
{
    if hs.len() > 0 {
        let d = hs.drop_last();
        let h = hs.last();
        lemma_shares_within_balances(v, a, amount, d);
        let other: u64 = if h == 0 { 1 } else { 0 };
        lemma_amounts_within_sum(v.books[a], h, other);
        let b = v.balance(a, h);
        let total = v.supply(a);
        let part = amount * b / total;
        assert(0 <= part && total * part <= amount * b) by (nonlinear_arith)
            requires
                b >= 0,
                amount > 0,
                total > 0,
                part == amount * b / total,
        ;
        let prev = shares_total(v, a, amount, d);
        let prev_bal = balance_sum(v.book(a), d);
        assert(total * (prev + part) == total * prev + total * part) by (nonlinear_arith);
        assert(amount * (prev_bal + b) == amount * prev_bal + amount * b) by (nonlinear_arith);
    }
}

/// A distribution never credits more than it distributes: the shares that
/// the holders of an asset receive add up to at most `amount`, the rounding
/// remainder staying uncredited.
pub proof fn distribution_credits_at_most_amount(v: LedgerView, a: u64, amount: i128)
    requires
        v.wf(),
        v.tokens.contains_key(a),
        amount > 0,
    ensures
        0 <= shares_total(v, a, amount, v.holders(a)) <= amount,
{
    let s = v.books[a];
    lemma_balance_sum_of_holders(s);
    if v.supply(a) > 0 {
        lemma_shares_within_balances(v, a, amount, v.holders(a));
        let t = shares_total(v, a, amount, v.holders(a));
        let total = v.supply(a);
        assert(t <= amount) by (nonlinear_arith)
            requires
                total > 0,
                total * t <= amount * total,
        ;
    } else {
        assert(s.len() == 0) by {
            if s.len() > 0 {
                crate::holdings::lemma_entry_within_sum(s, 0);
            }
        }
        assert(v.holders(a) =~= Seq::<AccountId>::empty());
    }
}

} // verus!
