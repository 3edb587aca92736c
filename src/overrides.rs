use vstd::prelude::*;

use crate::overlay::{AccountInfo, Overlay, OverlayView};
use crate::types::{Address, Word};

verus! {

/// Synthetic state for one simulation: balance replacements, and storage slot
/// replacements keyed by (address, storage key). Where a key is named twice, the
/// later entry is the one that holds.
pub struct StateOverrideSet {
    pub balances: Vec<(Address, Word)>,
    pub slots: Vec<(Address, Word, Word)>,
}

/// The balance each address is set to by `s`: the last entry naming it.
pub open spec fn balance_writes(s: Seq<(Address, Word)>) -> Map<Address, Word>
    decreases s.len(),
{
    if s.len() == 0 {
        Map::empty()
    } else {
        balance_writes(s.drop_last()).insert(s.last().0, s.last().1)
    }
}

/// The value each (address, key) slot is set to by `s`: the last entry naming it.
pub open spec fn slot_writes(s: Seq<(Address, Word, Word)>) -> Map<(Address, Word), Word>
    decreases s.len(),
{
    if s.len() == 0 {
        Map::empty()
    } else {
        slot_writes(s.drop_last()).insert((s.last().0, s.last().1), s.last().2)
    }
}

/// `accounts` with the balance of each account named in `b` replaced; nonce and
/// code are kept.
pub open spec fn with_balances(accounts: Map<Address, AccountInfo>, b: Map<Address, Word>) -> Map<
    Address,
    AccountInfo,
> {
    Map::new(
        |a: Address| accounts.contains_key(a),
        |a: Address|
            if b.contains_key(a) {
                AccountInfo { balance: b[a], ..accounts[a] }
            } else {
                accounts[a]
            },
    )
}

/// Every account whose balance `s` replaces is held in memory in `v`.
pub open spec fn balances_loaded(v: OverlayView, s: Seq<(Address, Word)>) -> bool {
    forall|i: int| 0 <= i < s.len() ==> v.accounts.contains_key(#[trigger] s[i].0)
}

/// The overlay `v` after the override set made of `balances` and `slots`.
pub open spec fn overridden(
    v: OverlayView,
    balances: Seq<(Address, Word)>,
    slots: Seq<(Address, Word, Word)>,
) -> OverlayView {
    OverlayView {
        accounts: with_balances(v.accounts, balance_writes(balances)),
        slots: v.slots.union_prefer_right(slot_writes(slots)),
        ..v
    }
}

/// Applies `set` to `overlay` before execution.
///
/// A balance replacement needs the account held in memory. Where one is not,
/// the overlay is left unchanged and the address is returned: the caller fetches
/// it, hands it to `Overlay::fill_account`, and applies the set again. Storage
/// replacements are written directly, and never fetched.
pub fn apply_overrides(overlay: &mut Overlay, set: &StateOverrideSet) -> (r: Result<(), Address>)
    requires
        old(overlay).wf(),
    ensures
        final(overlay).wf(),
        match r {
            Ok(()) => {
                &&& balances_loaded(old(overlay)@, set.balances@)
                &&& final(overlay)@ == overridden(old(overlay)@, set.balances@, set.slots@)
            },
            Err(a) => {
                &&& !old(overlay)@.accounts.contains_key(a)
                &&& exists|i: int| 0 <= i < set.balances.len() && (#[trigger] set.balances@[i]).0 == a
                &&& final(overlay)@ == old(overlay)@
            },
        },
{
    let mut i: usize = 0;
    while i < set.balances.len()
        invariant
            overlay.wf(),
            overlay@ == old(overlay)@,
            i <= set.balances.len(),
            forall|j: int| 0 <= j < i ==> overlay@.accounts.contains_key(#[trigger] set.balances@[j].0),
        decreases set.balances.len() - i,
    {
        let a = set.balances[i].0;
        if !overlay.has_account(a) {
            assert(set.balances@[i as int].0 == a);
            return Err(a);
        }
        i = i + 1;
    }
    let ghost start = overlay@;
    proof {
        assert(set.balances@.take(0) =~= Seq::<(Address, Word)>::empty());
        assert(with_balances(start.accounts, Map::empty()) =~= start.accounts);
        assert(overlay@ =~= (OverlayView {
            accounts: with_balances(start.accounts, balance_writes(set.balances@.take(0))),
            ..start
        }));
    }
    let mut i: usize = 0;
    while i < set.balances.len()
        invariant
            overlay.wf(),
            i <= set.balances.len(),
            balances_loaded(start, set.balances@),
            start == old(overlay)@,
            overlay@ == (OverlayView {
                accounts: with_balances(start.accounts, balance_writes(set.balances@.take(i as int))),
                ..start
            }),
        decreases set.balances.len() - i,
    {
        let (a, b) = set.balances[i];
        proof {
            assert(start.accounts.contains_key(set.balances@[i as int].0));
        }
        overlay.set_balance(a, b);
        proof {
            let prev = balance_writes(set.balances@.take(i as int));
            assert(set.balances@.take(i as int + 1).drop_last() =~= set.balances@.take(i as int));
            assert(with_balances(start.accounts, prev.insert(a, b)) =~= with_balances(
                start.accounts,
                prev,
            ).insert(a, AccountInfo { balance: b, ..with_balances(start.accounts, prev)[a] }));
        }
        i = i + 1;
    }
    assert(set.balances@.take(set.balances.len() as int) =~= set.balances@);
    let ghost mid = overlay@;
    proof {
        assert(set.slots@.take(0) =~= Seq::<(Address, Word, Word)>::empty());
        assert(mid.slots.union_prefer_right(Map::empty()) =~= mid.slots);
        assert(overlay@ =~= (OverlayView {
            slots: mid.slots.union_prefer_right(slot_writes(set.slots@.take(0))),
            ..mid
        }));
    }
    let mut j: usize = 0;
    while j < set.slots.len()
        invariant
            overlay.wf(),
            j <= set.slots.len(),
            overlay@ == (OverlayView {
                slots: mid.slots.union_prefer_right(slot_writes(set.slots@.take(j as int))),
                ..mid
            }),
        decreases set.slots.len() - j,
    {
        let (a, k, w) = set.slots[j];
        overlay.write_slot(a, k, w);
        proof {
            let prev = slot_writes(set.slots@.take(j as int));
            assert(set.slots@.take(j as int + 1).drop_last() =~= set.slots@.take(j as int));
            assert(mid.slots.union_prefer_right(prev.insert((a, k), w)) =~= mid.slots.union_prefer_right(
                prev,
            ).insert((a, k), w));
        }
        j = j + 1;
    }
    assert(set.slots@.take(set.slots.len() as int) =~= set.slots@);
    assert(overlay@ =~= overridden(old(overlay)@, set.balances@, set.slots@));
    Ok(())
}

/// Applying the same override set a second time changes nothing: the overlay is
/// the one that applying it once gave.
pub proof fn lemma_overrides_idempotent(
    v: OverlayView,
    balances: Seq<(Address, Word)>,
    slots: Seq<(Address, Word, Word)>,
)
    requires
        balances_loaded(v, balances),
    ensures
        balances_loaded(overridden(v, balances, slots), balances),
        overridden(overridden(v, balances, slots), balances, slots) == overridden(
            v,
            balances,
            slots,
        ),
{
    let once = overridden(v, balances, slots);
    let twice = overridden(once, balances, slots);
    assert(twice.accounts =~= once.accounts);
    assert(twice.slots =~= once.slots);
    assert(twice =~= once);
}

/// A slot named by an override reads as the override value after the set is
/// applied, whatever was fetched for that slot before, and stays so through any
/// later fetch of another slot or of an account.
pub proof fn lemma_override_shadows_remote(
    v: OverlayView,
    balances: Seq<(Address, Word)>,
    slots: Seq<(Address, Word, Word)>,
    a: Address,
    k: Word,
    fetched: Word,
    a2: Address,
    k2: Word,
    w2: Word,
    a3: Address,
    r3: AccountInfo,
)
    requires
        slot_writes(slots).contains_key((a, k)),
    ensures
        overridden(v, balances, slots).slots[(a, k)] == slot_writes(slots)[(a, k)],
        overridden(v.with_fetched_slot(a, k, fetched), balances, slots).slots[(a, k)]
            == slot_writes(slots)[(a, k)],
        !overridden(v, balances, slots).slots.contains_key((a2, k2)) ==> overridden(
            v,
            balances,
            slots,
        ).with_fetched_slot(a2, k2, w2).slots[(a, k)] == slot_writes(slots)[(a, k)],
        overridden(v, balances, slots).with_fetched_account(a3, r3).slots[(a, k)] == slot_writes(
            slots,
        )[(a, k)],
{
}

} // verus!
