use std::collections::HashMap;
use vstd::prelude::*;

use crate::error::Error;
use crate::holdings::AccountId;
use crate::types::TransferRestriction;

verus! {

broadcast use vstd::std_specs::hash::group_hash_axioms;

/// The per-asset transfer policies and whitelists.
pub struct TransferRules {
    whitelists: HashMap<u64, Vec<AccountId>>,
    restrictions: HashMap<u64, TransferRestriction>,
}

/// What the transfer rules hold: each asset's whitelist, in the order of
/// addition, and its restriction record.
pub struct RulesView {
    pub whitelists: Map<u64, Seq<AccountId>>,
    pub restrictions: Map<u64, TransferRestriction>,
}

impl RulesView {
    /// The whitelist of `asset_id`; empty when none was stored.
    pub open spec fn whitelist_of(&self, asset_id: u64) -> Seq<AccountId> {
        if self.whitelists.contains_key(asset_id) {
            self.whitelists[asset_id]
        } else {
            Seq::empty()
        }
    }

    pub open spec fn restriction_of(&self, asset_id: u64) -> Option<TransferRestriction> {
        if self.restrictions.contains_key(asset_id) {
            Some(self.restrictions[asset_id])
        } else {
            None
        }
    }

    /// No whitelist lists an address twice.
    pub open spec fn wf(&self) -> bool {
        forall|a: u64| #[trigger] self.whitelists.contains_key(a) ==> self.whitelists[a].no_duplicates()
    }

    /// The rules after `address` is added to the whitelist of `asset_id`.
    pub open spec fn with_added(&self, asset_id: u64, address: AccountId) -> RulesView {
        if self.whitelist_of(asset_id).contains(address) {
            *self
        } else {
            RulesView {
                whitelists: self.whitelists.insert(asset_id, self.whitelist_of(asset_id).push(address)),
                ..*self
            }
        }
    }

    /// `next` is these rules after `address` is removed from the whitelist
    /// of `asset_id`: its one entry is taken out, if it had one.
    pub open spec fn is_removal(&self, next: RulesView, asset_id: u64, address: AccountId) -> bool {
        let wl = self.whitelist_of(asset_id);
        &&& next.restrictions == self.restrictions
        &&& !wl.contains(address) ==> next == *self
        &&& wl.contains(address) ==> exists|i: int|
            0 <= i < wl.len() && wl[i] == address && next.whitelists == self.whitelists.insert(
                asset_id,
                wl.remove(i),
            )
    }

    /// The verdict on a transfer of `asset_id` to `to`: a non-empty
    /// whitelist must list `to`, and so must the whitelist when the
    /// restriction record asks for accredited investors.
    pub open spec fn verdict(&self, asset_id: u64, to: AccountId) -> Result<bool, Error> {
        let wl = self.whitelist_of(asset_id);
        if wl.len() > 0 && !wl.contains(to) {
            Err(Error::TransferRestrictionFailed)
        } else if self.restriction_of(asset_id) is Some && self.restriction_of(
            asset_id,
        )->Some_0.require_accredited && !wl.contains(to) {
            Err(Error::AccreditedInvestorRequired)
        } else {
            Ok(true)
        }
    }
}

impl View for TransferRules {
    type V = RulesView;

    closed spec fn view(&self) -> RulesView {
        RulesView {
            whitelists: Map::new(
                |a: u64| self.whitelists@.contains_key(a),
                |a: u64| self.whitelists@[a]@,
            ),
            restrictions: self.restrictions@,
        }
    }
}

pub(crate) fn list_contains(v: &Vec<AccountId>, x: AccountId) -> (r: bool)
    ensures
        r == v@.contains(x),
{
    let mut i: usize = 0;
    while i < v.len()
        invariant
            i <= v@.len(),
            forall|j: int| 0 <= j < i ==> v@[j] != x,
        decreases v@.len() - i,
    {
        if v[i] == x {
            return true;
        }
        i += 1;
    }
    false
}

fn list_position(v: &Vec<AccountId>, x: AccountId) -> (r: Option<usize>)
    ensures
        match r {
            Some(i) => i < v@.len() && v@[i as int] == x,
            None => !v@.contains(x),
        },
{
    let mut i: usize = 0;
    while i < v.len()
        invariant
            i <= v@.len(),
            forall|j: int| 0 <= j < i ==> v@[j] != x,
        decreases v@.len() - i,
    {
        if v[i] == x {
            return Some(i);
        }
        i += 1;
    }
    None
}

impl TransferRules {
    pub fn new() -> (r: TransferRules)
        ensures
            r@.whitelists == Map::<u64, Seq<AccountId>>::empty(),
            r@.restrictions == Map::<u64, TransferRestriction>::empty(),
    {
        let r = TransferRules { whitelists: HashMap::new(), restrictions: HashMap::new() };
        assert(r@.whitelists =~= Map::<u64, Seq<AccountId>>::empty());
        r
    }
}

/// Stores `restriction` for `asset_id`, replacing any earlier one.
pub fn set_transfer_restriction(
    rules: &mut TransferRules,
    asset_id: u64,
    restriction: TransferRestriction,
) -> (r: Result<(), Error>)
    ensures
        r is Ok,
        final(rules)@.whitelists == old(rules)@.whitelists,
        final(rules)@.restrictions == old(rules)@.restrictions.insert(asset_id, restriction),
{
    let ghost w = rules@.whitelists;
    rules.restrictions.insert(asset_id, restriction);
    assert(rules@.whitelists =~= w);
    Ok(())
}

/// Adds `address` to the whitelist of `asset_id`; adding a listed address
/// changes nothing.
pub fn add_to_whitelist(rules: &mut TransferRules, asset_id: u64, address: AccountId) -> (r: Result<
    (),
    Error,
>)
    requires
        old(rules)@.wf(),
    ensures
        r is Ok,
        final(rules)@.wf(),
        final(rules)@ == old(rules)@.with_added(asset_id, address),
{
    let ghost w = rules@.whitelists;
    let mut list = match rules.whitelists.remove(&asset_id) {
        Some(l) => l,
        None => Vec::new(),
    };
    assert(list@ == old(rules)@.whitelist_of(asset_id));
    if list_contains(&list, address) {
        if list.len() > 0 {
            rules.whitelists.insert(asset_id, list);
        }
        assert(rules@.whitelists =~= w);
        return Ok(());
    }
    list.push(address);
    rules.whitelists.insert(asset_id, list);
    assert(rules@.whitelists =~= w.insert(asset_id, old(rules)@.whitelist_of(asset_id).push(address)));
    Ok(())
}

/// Removes `address` from the whitelist of `asset_id`; removing an address
/// that is not listed changes nothing.
pub fn remove_from_whitelist(rules: &mut TransferRules, asset_id: u64, address: AccountId) -> (r:
    Result<(), Error>)
    requires
        old(rules)@.wf(),
    ensures
        r is Ok,
        final(rules)@.wf(),
        old(rules)@.is_removal(final(rules)@, asset_id, address),
        !final(rules)@.whitelist_of(asset_id).contains(address),
{
    let ghost w = rules@.whitelists;
    let ghost old_list = old(rules)@.whitelist_of(asset_id);
    match rules.whitelists.remove(&asset_id) {
        Some(mut list) => {
            match list_position(&list, address) {
                Some(i) => {
                    list.remove(i);
                    let ghost new_list = list@;
                    rules.whitelists.insert(asset_id, list);
                    assert(rules@.whitelists =~= w.insert(asset_id, old_list.remove(i as int)));
                    assert(new_list == old_list.remove(i as int));
                    assert(!new_list.contains(address)) by {
                        if new_list.contains(address) {
                            let j = choose|j: int| 0 <= j < new_list.len() && new_list[j] == address;
                            if j < i {
                                assert(old_list[j] == address);
                            } else {
                                assert(old_list[j + 1] == address);
                            }
                        }
                    }
                    assert(rules@.wf()) by {
                        assert forall|a: u64| #[trigger] rules@.whitelists.contains_key(a) implies rules@.whitelists[a].no_duplicates() by {
                            if a == asset_id {
                                assert forall|p: int, q: int| 0 <= p < q < new_list.len() implies new_list[p] != new_list[q] by {
                                    let p0 = if p < i { p } else { p + 1 };
                                    let q0 = if q < i { q } else { q + 1 };
                                    assert(new_list[p] == old_list[p0] && new_list[q] == old_list[q0]);
                                }
                            }
                        }
                    }
                },
                None => {
                    rules.whitelists.insert(asset_id, list);
                    assert(rules@.whitelists =~= w);
                },
            }
        },
        None => {
            assert(rules@.whitelists =~= w);
        },
    }
    Ok(())
}

pub fn is_whitelisted(rules: &TransferRules, asset_id: u64, address: AccountId) -> (r: Result<
    bool,
    Error,
>)
    ensures
        r == Ok::<bool, Error>(rules@.whitelist_of(asset_id).contains(address)),
{
    match rules.whitelists.get(&asset_id) {
        Some(list) => Ok(list_contains(list, address)),
        None => Ok(false),
    }
}

pub fn get_whitelist(rules: &TransferRules, asset_id: u64) -> (r: Result<Vec<AccountId>, Error>)
    ensures
        r is Ok,
        r->Ok_0@ == rules@.whitelist_of(asset_id),
{
    match rules.whitelists.get(&asset_id) {
        Some(list) => Ok(list.clone()),
        None => Ok(Vec::new()),
    }
}

/// Decides whether `asset_id` may move to `to`; the sender plays no part.
pub fn validate_transfer(rules: &TransferRules, asset_id: u64, from: AccountId, to: AccountId) -> (r:
    Result<bool, Error>)
    ensures
        r == rules@.verdict(asset_id, to),
{
    let listed = match rules.whitelists.get(&asset_id) {
        Some(list) => list_contains(list, to),
        None => false,
    };
    let empty = match rules.whitelists.get(&asset_id) {
        Some(list) => list.len() == 0,
        None => true,
    };
    if !empty && !listed {
        return Err(Error::TransferRestrictionFailed);
    }
    match rules.restrictions.get(&asset_id) {
        Some(restriction) => {
            if restriction.require_accredited && !listed {
                return Err(Error::AccreditedInvestorRequired);
            }
            Ok(true)
        },
        None => Ok(true),
    }
}

pub fn has_transfer_restrictions(rules: &TransferRules, asset_id: u64) -> (r: Result<bool, Error>)
    ensures
        r == Ok::<bool, Error>(rules@.restrictions.contains_key(asset_id)),
{
    Ok(rules.restrictions.contains_key(&asset_id))
}

/// The restriction record of `asset_id`; `AssetNotTokenized` when it has none.
pub fn get_transfer_restriction(rules: &TransferRules, asset_id: u64) -> (r: Result<
    TransferRestriction,
    Error,
>)
    ensures
        match r {
            Ok(t) => rules@.restriction_of(asset_id) is Some && t.same_as(
                &rules@.restriction_of(asset_id)->Some_0,
            ),
            Err(e) => rules@.restriction_of(asset_id) is None && e == Error::AssetNotTokenized,
        },
{
    match rules.restrictions.get(&asset_id) {
        Some(t) => Ok(t.copy()),
        None => Err(Error::AssetNotTokenized),
    }
}

pub fn clear_transfer_restrictions(rules: &mut TransferRules, asset_id: u64) -> (r: Result<
    (),
    Error,
>)
    ensures
        r is Ok,
        final(rules)@.whitelists == old(rules)@.whitelists,
        final(rules)@.restrictions == old(rules)@.restrictions.remove(asset_id),
{
    let ghost w = rules@.whitelists;
    let ghost m = rules@.restrictions;
    if rules.restrictions.contains_key(&asset_id) {
        rules.restrictions.remove(&asset_id);
    } else {
        assert(m.remove(asset_id) =~= m);
    }
    assert(rules@.whitelists =~= w);
    Ok(())
}

} // verus!
