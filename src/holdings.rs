use vstd::prelude::*;

verus! {

/// A principal of the ledger: an account that can hold tokens, vote and be
/// whitelisted.
pub type AccountId = u64;

/// One holder's positive balance of an asset.
#[derive(Clone, Copy, Debug, PartialEq, Eq, Structural)]
pub struct Holding {
    pub holder: AccountId,
    pub amount: i128,
}

/// The balance of `h` recorded in `s`; zero when `h` has no entry.
pub open spec fn amount_in(s: Seq<Holding>, h: AccountId) -> int
    decreases s.len(),
{
    if s.len() == 0 {
        0
    } else if s.last().holder == h {
        s.last().amount as int
    } else {
        amount_in(s.drop_last(), h)
    }
}

/// The sum of all balances recorded in `s`.
pub open spec fn sum_of(s: Seq<Holding>) -> int
    decreases s.len(),
{
    if s.len() == 0 {
        0
    } else {
        sum_of(s.drop_last()) + s.last().amount
    }
}

/// The holders recorded in `s`, in the order of their entries.
pub open spec fn holders_in(s: Seq<Holding>) -> Seq<AccountId> {
    s.map_values(|e: Holding| e.holder)
}

/// The holder list after `h` receives tokens: `h` joins at the end unless it
/// is already listed.
pub open spec fn listed_after_credit(hs: Seq<AccountId>, h: AccountId) -> Seq<AccountId> {
    if hs.contains(h) {
        hs
    } else {
        hs.push(h)
    }
}

/// The holder list after tokens are taken from `h`: `h` leaves when its
/// balance is `emptied`.
pub open spec fn listed_after_debit(hs: Seq<AccountId>, h: AccountId, emptied: bool) -> Seq<
    AccountId,
> {
    if emptied {
        hs.remove_value(h)
    } else {
        hs
    }
}

/// No holder has two entries.
pub open spec fn unique_holders(s: Seq<Holding>) -> bool {
    forall|i: int, j: int|
        0 <= i < j < s.len() ==> (#[trigger] s[i]).holder != (#[trigger] s[j]).holder
}

/// Every entry holds a positive amount and no holder has two entries.
pub open spec fn book_wf(s: Seq<Holding>) -> bool {
    &&& forall|i: int| 0 <= i < s.len() ==> (#[trigger] s[i]).amount > 0
    &&& unique_holders(s)
}

/// What `amount_in` finds: the amount of the entry of `h`, or zero.
pub proof fn lemma_amount_lookup(s: Seq<Holding>, h: AccountId)
    requires
        unique_holders(s),
    ensures
        forall|i: int| 0 <= i < s.len() && (#[trigger] s[i]).holder == h ==> amount_in(s, h) == s[i].amount,
        (forall|i: int| 0 <= i < s.len() ==> (#[trigger] s[i]).holder != h) ==> amount_in(s, h) == 0,
    decreases s.len(),
{
    if s.len() > 0 {
        let d = s.drop_last();
        assert(unique_holders(d)) by {
            assert forall|i: int, j: int| 0 <= i < j < d.len() implies d[i].holder != d[j].holder by {
                assert(d[i] == s[i] && d[j] == s[j]);
            }
        }
        lemma_amount_lookup(d, h);
        assert forall|i: int| 0 <= i < s.len() && (#[trigger] s[i]).holder == h implies amount_in(s, h) == s[i].amount by {
            if i < s.len() - 1 {
                assert(s[i] == d[i]);
                assert(s.last() == s[s.len() - 1]);
            }
        }
        if forall|i: int| 0 <= i < s.len() ==> (#[trigger] s[i]).holder != h {
            assert(s.last() == s[s.len() - 1]);
            assert forall|i: int| 0 <= i < d.len() implies (#[trigger] d[i]).holder != h by {
                assert(d[i] == s[i]);
            }
        }
    }
}

/// A holder has a positive balance exactly when it is listed.
pub proof fn lemma_listed_iff_positive(s: Seq<Holding>, h: AccountId)
    requires
        book_wf(s),
    ensures
        holders_in(s).contains(h) <==> amount_in(s, h) > 0,
{
    lemma_amount_lookup(s, h);
    if holders_in(s).contains(h) {
        let i = choose|i: int| 0 <= i < holders_in(s).len() && holders_in(s)[i] == h;
        assert(s[i].holder == h);
    } else {
        assert forall|i: int| 0 <= i < s.len() implies (#[trigger] s[i]).holder != h by {
            assert(holders_in(s)[i] == s[i].holder);
        }
    }
}

pub proof fn lemma_sum_push(s: Seq<Holding>, x: Holding)
    ensures
        sum_of(s.push(x)) == sum_of(s) + x.amount,
{
    assert(s.push(x).drop_last() =~= s);
}

pub proof fn lemma_sum_update(s: Seq<Holding>, i: int, x: Holding)
    requires
        0 <= i < s.len(),
    ensures
        sum_of(s.update(i, x)) == sum_of(s) - s[i].amount + x.amount,
    decreases s.len(),
{
    let u = s.update(i, x);
    if i == s.len() - 1 {
        assert(u.drop_last() =~= s.drop_last());
    } else {
        assert(u.drop_last() =~= s.drop_last().update(i, x));
        lemma_sum_update(s.drop_last(), i, x);
    }
}

pub proof fn lemma_sum_remove(s: Seq<Holding>, i: int)
    requires
        0 <= i < s.len(),
    ensures
        sum_of(s.remove(i)) == sum_of(s) - s[i].amount,
    decreases s.len(),
{
    let r = s.remove(i);
    if i == s.len() - 1 {
        assert(r =~= s.drop_last());
    } else {
        assert(r.drop_last() =~= s.drop_last().remove(i));
        assert(r.last() == s.last());
        lemma_sum_remove(s.drop_last(), i);
    }
}

/// With positive entries, the sum bounds each balance, and any two.
pub proof fn lemma_amounts_within_sum(s: Seq<Holding>, h: AccountId, k: AccountId)
    requires
        book_wf(s),
        h != k,
    ensures
        0 <= amount_in(s, h),
        amount_in(s, h) + amount_in(s, k) <= sum_of(s),
    decreases s.len(),
{
    if s.len() > 0 {
        let d = s.drop_last();
        assert(book_wf(d)) by {
            assert forall|i: int| 0 <= i < d.len() implies (#[trigger] d[i]).amount > 0 by {
                assert(d[i] == s[i]);
            }
            assert forall|i: int, j: int| 0 <= i < j < d.len() implies d[i].holder != d[j].holder by {
                assert(d[i] == s[i] && d[j] == s[j]);
            }
        }
        assert(s.last() == s[s.len() - 1]);
        lemma_amounts_within_sum(d, h, k);
        lemma_amounts_within_sum(d, k, h);
    }
}

/// The balances recorded in `s` of the holders `hs`, added up.
pub open spec fn balance_sum(s: Seq<Holding>, hs: Seq<AccountId>) -> int
    decreases hs.len(),
{
    if hs.len() == 0 {
        0
    } else {
        balance_sum(s, hs.drop_last()) + amount_in(s, hs.last())
    }
}

proof fn lemma_balance_sum_without_last(s: Seq<Holding>, hs: Seq<AccountId>)
    requires
        s.len() > 0,
        !hs.contains(s.last().holder),
    ensures
        balance_sum(s, hs) == balance_sum(s.drop_last(), hs),
    decreases hs.len(),
{
    if hs.len() > 0 {
        let d = hs.drop_last();
        assert(hs.last() == hs[hs.len() - 1]);
        assert forall|k: AccountId| d.contains(k) implies hs.contains(k) by {
            let j = choose|j: int| 0 <= j < d.len() && d[j] == k;
            assert(hs[j] == k);
        }
        lemma_balance_sum_without_last(s, d);
    }
}

/// Summing each listed holder's balance gives the sum of the book.
pub proof fn lemma_balance_sum_of_holders(s: Seq<Holding>)
    requires
        unique_holders(s),
    ensures
        balance_sum(s, holders_in(s)) == sum_of(s),
    decreases s.len(),
{
    if s.len() > 0 {
        let d = s.drop_last();
        assert(unique_holders(d)) by {
            assert forall|i: int, j: int| 0 <= i < j < d.len() implies d[i].holder != d[j].holder by {
                assert(d[i] == s[i] && d[j] == s[j]);
            }
        }
        lemma_balance_sum_of_holders(d);
        let x = s.last();
        assert(holders_in(s) =~= holders_in(d).push(x.holder));
        assert(holders_in(s).drop_last() =~= holders_in(d));
        assert(!holders_in(d).contains(x.holder)) by {
            if holders_in(d).contains(x.holder) {
                let j = choose|j: int| 0 <= j < holders_in(d).len() && holders_in(d)[j] == x.holder;
                assert(s[j].holder == x.holder);
                assert(s[s.len() - 1] == x);
            }
        }
        lemma_balance_sum_without_last(s, holders_in(d));
    }
}

/// Each entry's amount is at most the sum.
pub proof fn lemma_entry_within_sum(s: Seq<Holding>, i: int)
    requires
        book_wf(s),
        0 <= i < s.len(),
    ensures
        0 < s[i].amount <= sum_of(s),
        amount_in(s, s[i].holder) == s[i].amount,
{
    let h = s[i].holder;
    let other: u64 = if h == 0 { 1 } else { 0 };
    lemma_amount_lookup(s, h);
    lemma_amounts_within_sum(s, h, other);
    lemma_amounts_within_sum(s, other, h);
}

/// The balance book of one asset: the holders with a positive balance, in
/// the order in which they first received tokens, with their balances.
pub struct Holdings {
    entries: Vec<Holding>,
}

impl View for Holdings {
    type V = Seq<Holding>;

    closed spec fn view(&self) -> Seq<Holding> {
        self.entries@
    }
}

impl Holdings {
    pub fn new() -> (r: Holdings)
        ensures
            r@ == Seq::<Holding>::empty(),
    {
        Holdings { entries: Vec::new() }
    }

    pub fn len(&self) -> (r: usize)
        ensures
            r == self@.len(),
    {
        self.entries.len()
    }

    pub fn at(&self, i: usize) -> (r: Holding)
        requires
            i < self@.len(),
        ensures
            r == self@[i as int],
    {
        self.entries[i]
    }

    /// The index of the entry of `h`, if it has one.
    pub fn find(&self, h: AccountId) -> (r: Option<usize>)
        ensures
            match r {
                Some(i) => i < self@.len() && self@[i as int].holder == h,
                None => forall|i: int| 0 <= i < self@.len() ==> (#[trigger] self@[i]).holder != h,
            },
    {
        let mut i: usize = 0;
        while i < self.entries.len()
            invariant
                i <= self.entries@.len(),
                forall|j: int| 0 <= j < i ==> (#[trigger] self.entries@[j]).holder != h,
            decreases self.entries@.len() - i,
        {
            if self.entries[i].holder == h {
                return Some(i);
            }
            i += 1;
        }
        None
    }

    pub fn balance(&self, h: AccountId) -> (r: i128)
        requires
            book_wf(self@),
        ensures
            r == amount_in(self@, h),
    {
        proof {
            lemma_amount_lookup(self@, h);
        }
        match self.find(h) {
            Some(i) => self.entries[i].amount,
            None => 0,
        }
    }

    pub fn holders(&self) -> (r: Vec<AccountId>)
        ensures
            r@ == holders_in(self@),
    {
        let mut r: Vec<AccountId> = Vec::new();
        let mut i: usize = 0;
        while i < self.entries.len()
            invariant
                i <= self.entries@.len(),
                r@ =~= holders_in(self.entries@.take(i as int)),
            decreases self.entries@.len() - i,
        {
            r.push(self.entries[i].holder);
            i += 1;
            assert(self.entries@.take(i as int) =~= self.entries@.take(i - 1).push(self.entries@[i - 1]));
        }
        assert(self.entries@.take(i as int) =~= self.entries@);
        r
    }

    /// Adds `amount` to the balance of `h`, listing `h` if it was not.
    pub fn credit(&mut self, h: AccountId, amount: i128)
        requires
            book_wf(old(self)@),
            amount > 0,
            amount_in(old(self)@, h) + amount <= i128::MAX,
        ensures
            book_wf(final(self)@),
            sum_of(final(self)@) == sum_of(old(self)@) + amount,
            holders_in(final(self)@) == listed_after_credit(holders_in(old(self)@), h),
            forall|k: AccountId|
                #[trigger] amount_in(final(self)@, k) == amount_in(old(self)@, k) + if k == h {
                    amount as int
                } else {
                    0
                },
    {
        let ghost s0 = self@;
        match self.find(h) {
            Some(i) => {
                proof {
                    lemma_amount_lookup(s0, h);
                }
                let e = self.entries[i];
                let x = Holding { holder: h, amount: e.amount + amount };
                self.entries.set(i, x);
                proof {
                    lemma_sum_update(s0, i as int, x);
                    let s1 = self@;
                    assert(s1 == s0.update(i as int, x));
                    assert(holders_in(s0)[i as int] == h);
                    assert(holders_in(s1) =~= holders_in(s0));
                    assert(book_wf(s1)) by {
                        assert forall|a: int, b: int| 0 <= a < b < s1.len() implies s1[a].holder != s1[b].holder by {
                            assert(s0[a].holder == s1[a].holder && s0[b].holder == s1[b].holder);
                        }
                    }
                    assert forall|k: AccountId|
                        #[trigger] amount_in(s1, k) == amount_in(s0, k) + if k == h {
                            amount as int
                        } else {
                            0
                        } by {
                        lemma_amount_lookup(s0, k);
                        lemma_amount_lookup(s1, k);
                        if exists|j: int| 0 <= j < s0.len() && (#[trigger] s0[j]).holder == k {
                            let j = choose|j: int| 0 <= j < s0.len() && (#[trigger] s0[j]).holder == k;
                            assert(s1[j].holder == k);
                        } else {
                            assert forall|j: int| 0 <= j < s1.len() implies (#[trigger] s1[j]).holder != k by {
                                assert(s0[j].holder != k);
                            }
                        }
                    }
                }
            },
            None => {
                let x = Holding { holder: h, amount };
                self.entries.push(x);
                proof {
                    lemma_sum_push(s0, x);
                    let s1 = self@;
                    assert(s1 == s0.push(x));
                    assert(holders_in(s1) =~= holders_in(s0).push(h));
                    assert(!holders_in(s0).contains(h)) by {
                        if holders_in(s0).contains(h) {
                            let j = choose|j: int| 0 <= j < holders_in(s0).len() && holders_in(s0)[j] == h;
                            assert(s0[j].holder == h);
                        }
                    }
                    assert(book_wf(s1)) by {
                        assert forall|a: int, b: int| 0 <= a < b < s1.len() implies s1[a].holder != s1[b].holder by {
                            if b == s0.len() {
                                assert(s0[a].holder != h);
                            } else {
                                assert(s0[a] == s1[a] && s0[b] == s1[b]);
                            }
                        }
                    }
                    assert forall|k: AccountId|
                        #[trigger] amount_in(s1, k) == amount_in(s0, k) + if k == h {
                            amount as int
                        } else {
                            0
                        } by {
                        lemma_amount_lookup(s0, h);
                        assert(s1.drop_last() =~= s0);
                        assert(s1.last() == x);
                    }
                }
            },
        }
    }

    /// Takes `amount` from the balance of `h`, unlisting `h` when its
    /// balance reaches zero.
    pub fn debit(&mut self, h: AccountId, amount: i128)
        requires
            book_wf(old(self)@),
            0 < amount <= amount_in(old(self)@, h),
        ensures
            book_wf(final(self)@),
            sum_of(final(self)@) == sum_of(old(self)@) - amount,
            holders_in(final(self)@) == listed_after_debit(
                holders_in(old(self)@),
                h,
                amount_in(old(self)@, h) == amount,
            ),
            forall|k: AccountId|
                #[trigger] amount_in(final(self)@, k) == amount_in(old(self)@, k) - if k == h {
                    amount as int
                } else {
                    0
                },
    {
        let ghost s0 = self@;
        proof {
            lemma_amount_lookup(s0, h);
        }
        let i = match self.find(h) {
            Some(i) => i,
            None => vstd::pervasive::unreached(),
        };
        let e = self.entries[i];
        if e.amount == amount {
            self.entries.remove(i);
            proof {
                lemma_sum_remove(s0, i as int);
                let s1 = self@;
                assert(s1 == s0.remove(i as int));
                let hs0 = holders_in(s0);
                assert(hs0[i as int] == h);
                hs0.index_of_first_ensures(h);
                let j = hs0.index_of_first(h)->Some_0;
                assert(hs0[j] == s0[j].holder);
                assert(j == i);
                assert(holders_in(s1) =~= hs0.remove(i as int));
                assert(book_wf(s1)) by {
                    assert forall|a: int| 0 <= a < s1.len() implies (#[trigger] s1[a]).amount > 0 by {
                        if a < i {
                            assert(s1[a] == s0[a]);
                        } else {
                            assert(s1[a] == s0[a + 1]);
                        }
                    }
                    assert forall|a: int, b: int| 0 <= a < b < s1.len() implies s1[a].holder != s1[b].holder by {
                        let a0 = if a < i { a } else { a + 1 };
                        let b0 = if b < i { b } else { b + 1 };
                        assert(s1[a] == s0[a0] && s1[b] == s0[b0]);
                    }
                }
                assert forall|k: AccountId|
                    #[trigger] amount_in(s1, k) == amount_in(s0, k) - if k == h {
                        amount as int
                    } else {
                        0
                    } by {
                    lemma_amount_lookup(s0, k);
                    lemma_amount_lookup(s1, k);
                    if k == h {
                        assert forall|j: int| 0 <= j < s1.len() implies (#[trigger] s1[j]).holder != k by {
                            let j0 = if j < i { j } else { j + 1 };
                            assert(s1[j] == s0[j0]);
                        }
                    } else if exists|j: int| 0 <= j < s0.len() && (#[trigger] s0[j]).holder == k {
                        let j = choose|j: int| 0 <= j < s0.len() && (#[trigger] s0[j]).holder == k;
                        let j1 = if j < i { j } else { j - 1 };
                        assert(s1[j1] == s0[j]);
                    } else {
                        assert forall|j: int| 0 <= j < s1.len() implies (#[trigger] s1[j]).holder != k by {
                            let j0 = if j < i { j } else { j + 1 };
                            assert(s1[j] == s0[j0]);
                        }
                    }
                }
            }
        } else {
            let x = Holding { holder: h, amount: e.amount - amount };
            self.entries.set(i, x);
            proof {
                lemma_sum_update(s0, i as int, x);
                let s1 = self@;
                assert(s1 == s0.update(i as int, x));
                assert(holders_in(s1) =~= holders_in(s0));
                assert(book_wf(s1)) by {
                    assert forall|a: int, b: int| 0 <= a < b < s1.len() implies s1[a].holder != s1[b].holder by {
                        assert(s0[a].holder == s1[a].holder && s0[b].holder == s1[b].holder);
                    }
                }
                assert forall|k: AccountId|
                    #[trigger] amount_in(s1, k) == amount_in(s0, k) - if k == h {
                        amount as int
                    } else {
                        0
                    } by {
                    lemma_amount_lookup(s0, k);
                    lemma_amount_lookup(s1, k);
                    if exists|j: int| 0 <= j < s0.len() && (#[trigger] s0[j]).holder == k {
                        let j = choose|j: int| 0 <= j < s0.len() && (#[trigger] s0[j]).holder == k;
                        assert(s1[j].holder == k);
                    } else {
                        assert forall|j: int| 0 <= j < s1.len() implies (#[trigger] s1[j]).holder != k by {
                            assert(s0[j].holder != k);
                        }
                    }
                }
            }
        }
    }
}

} // verus!
