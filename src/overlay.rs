use vstd::prelude::*;

use crate::error::SimError;
use crate::types::{Address, Word};

verus! {

/// What an account holds, as the execution engine reads it.
pub struct AccountRecord {
    pub balance: Word,
    pub nonce: u64,
    pub code: Vec<u8>,
}

/// The mathematical value of an `AccountRecord`.
pub struct AccountInfo {
    pub balance: Word,
    pub nonce: u64,
    pub code: Seq<u8>,
}

impl View for AccountRecord {
    type V = AccountInfo;

    open spec fn view(&self) -> AccountInfo {
        AccountInfo { balance: self.balance, nonce: self.nonce, code: self.code@ }
    }
}

impl AccountRecord {
    /// A copy of this record, with its own copy of the code.
    pub fn duplicate(&self) -> (r: AccountRecord)
        ensures
            r@ == self@,
    {
        let mut code: Vec<u8> = Vec::new();
        let mut i: usize = 0;
        while i < self.code.len()
            invariant
                i <= self.code.len(),
                code@ == self.code@.subrange(0, i as int),
            decreases self.code.len() - i,
        {
            code.push(self.code[i]);
            i = i + 1;
            assert(code@ =~= self.code@.subrange(0, i as int));
        }
        assert(code@ =~= self.code@);
        AccountRecord { balance: self.balance, nonce: self.nonce, code }
    }
}

/// The block against which every remote read of one simulation is resolved.
#[derive(Clone, Copy, Debug, PartialEq, Eq, Structural)]
pub enum BlockRef {
    Latest,
    Pending,
    Earliest,
    Safe,
    Finalized,
    Number(u64),
    Hash(Word),
}

/// The mathematical value of an `Overlay`.
pub struct OverlayView {
    pub block: BlockRef,
    /// Accounts held in memory, whether fetched or overridden.
    pub accounts: Map<Address, AccountInfo>,
    /// Storage slots held in memory, keyed by (address, storage key).
    pub slots: Map<(Address, Word), Word>,
    /// Every account fetched from the remote node, in the order of the fetches.
    pub fetched_accounts: Seq<Address>,
    /// Every storage slot fetched from the remote node, in the order of the fetches.
    pub fetched_slots: Seq<(Address, Word)>,
}

impl OverlayView {
    /// The overlay after a remote fetch of account `a` answered `r`.
    pub open spec fn with_fetched_account(self, a: Address, r: AccountInfo) -> OverlayView {
        OverlayView {
            accounts: self.accounts.insert(a, r),
            fetched_accounts: self.fetched_accounts.push(a),
            ..self
        }
    }

    /// The overlay after a remote fetch of slot `k` of `a` answered `w`.
    pub open spec fn with_fetched_slot(self, a: Address, k: Word, w: Word) -> OverlayView {
        OverlayView {
            slots: self.slots.insert((a, k), w),
            fetched_slots: self.fetched_slots.push((a, k)),
            ..self
        }
    }

    /// Each fetch log names only keys held in memory, each of them once.
    pub open spec fn fetch_logs_ok(self) -> bool {
        &&& self.fetched_accounts.no_duplicates()
        &&& forall|i: int|
            0 <= i < self.fetched_accounts.len() ==> self.accounts.contains_key(
                #[trigger] self.fetched_accounts[i],
            )
        &&& self.fetched_slots.no_duplicates()
        &&& forall|i: int|
            0 <= i < self.fetched_slots.len() ==> self.slots.contains_key(
                #[trigger] self.fetched_slots[i],
            )
    }
}

/// The per-simulation state view: accounts and storage slots read from the remote
/// node on first use, or set by an override, and served from memory afterwards.
///
/// The overlay makes no remote call itself. A read that misses tells the caller
/// to fetch; the caller hands the answer back through `fill_account` or
/// `fill_slot`, which is the only way a fetched value enters the overlay.
pub struct Overlay {
    block: BlockRef,
    account_keys: Vec<Address>,
    account_recs: Vec<AccountRecord>,
    slot_keys: Vec<(Address, Word)>,
    slot_vals: Vec<Word>,
    fetched_accounts: Vec<Address>,
    fetched_slots: Vec<(Address, Word)>,
    accounts: Ghost<Map<Address, AccountInfo>>,
    slots: Ghost<Map<(Address, Word), Word>>,
}

impl View for Overlay {
    type V = OverlayView;

    closed spec fn view(&self) -> OverlayView {
        OverlayView {
            block: self.block,
            accounts: self.accounts@,
            slots: self.slots@,
            fetched_accounts: self.fetched_accounts@,
            fetched_slots: self.fetched_slots@,
        }
    }
}

impl Overlay {
    /// The overlay's own consistency: the vectors hold exactly the two maps,
    /// each key once, and the fetch logs are as `fetch_logs_ok` says.
    pub closed spec fn wf(&self) -> bool {
        &&& self.accounts_wf()
        &&& self.slots_wf()
        &&& self@.fetch_logs_ok()
    }

    closed spec fn accounts_wf(&self) -> bool {
        &&& self.account_keys.len() == self.account_recs.len()
        &&& forall|i: int, j: int|
            0 <= i < j < self.account_keys.len() ==> self.account_keys@[i]
                != self.account_keys@[j]
        &&& forall|i: int|
            0 <= i < self.account_keys.len() ==> #[trigger] self.accounts@.contains_key(
                self.account_keys@[i],
            ) && self.accounts@[self.account_keys@[i]] == self.account_recs@[i]@
        &&& forall|a: Address|
            #[trigger] self.accounts@.contains_key(a) ==> exists|i: int|
                0 <= i < self.account_keys.len() && self.account_keys@[i] == a
    }

    closed spec fn slots_wf(&self) -> bool {
        &&& self.slot_keys.len() == self.slot_vals.len()
        &&& forall|i: int, j: int|
            0 <= i < j < self.slot_keys.len() ==> self.slot_keys@[i] != self.slot_keys@[j]
        &&& forall|i: int|
            0 <= i < self.slot_keys.len() ==> #[trigger] self.slots@.contains_key(
                self.slot_keys@[i],
            ) && self.slots@[self.slot_keys@[i]] == self.slot_vals@[i]
        &&& forall|k: (Address, Word)|
            #[trigger] self.slots@.contains_key(k) ==> exists|i: int|
                0 <= i < self.slot_keys.len() && self.slot_keys@[i] == k
    }

    /// An empty overlay pinned to `block`.
    pub fn new(block: BlockRef) -> (r: Overlay)
        ensures
            r.wf(),
            r@.block == block,
            r@.accounts == Map::<Address, AccountInfo>::empty(),
            r@.slots == Map::<(Address, Word), Word>::empty(),
            r@.fetched_accounts == Seq::<Address>::empty(),
            r@.fetched_slots == Seq::<(Address, Word)>::empty(),
    {
        Overlay {
            block,
            account_keys: Vec::new(),
            account_recs: Vec::new(),
            slot_keys: Vec::new(),
            slot_vals: Vec::new(),
            fetched_accounts: Vec::new(),
            fetched_slots: Vec::new(),
            accounts: Ghost(Map::empty()),
            slots: Ghost(Map::empty()),
        }
    }

    /// The block every fetch of this overlay must be pinned to.
    pub fn block(&self) -> (r: BlockRef)
        ensures
            r == self@.block,
    {
        self.block
    }

    /// Number of accounts fetched from the remote node so far.
    pub fn account_fetches(&self) -> (r: usize)
        ensures
            r == self@.fetched_accounts.len(),
    {
        self.fetched_accounts.len()
    }

    /// Number of storage slots fetched from the remote node so far.
    pub fn slot_fetches(&self) -> (r: usize)
        ensures
            r == self@.fetched_slots.len(),
    {
        self.fetched_slots.len()
    }

    fn find_account(&self, a: Address) -> (r: Option<usize>)
        requires
            self.wf(),
        ensures
            match r {
                Some(i) => i < self.account_keys.len() && self.account_keys@[i as int] == a,
                None => !self@.accounts.contains_key(a),
            },
    {
        let mut i: usize = 0;
        while i < self.account_keys.len()
            invariant
                self.wf(),
                i <= self.account_keys.len(),
                forall|j: int| 0 <= j < i ==> self.account_keys@[j] != a,
            decreases self.account_keys.len() - i,
        {
            if self.account_keys[i] == a {
                return Some(i);
            }
            i = i + 1;
        }
        None
    }

    fn find_slot(&self, a: Address, k: Word) -> (r: Option<usize>)
        requires
            self.wf(),
        ensures
            match r {
                Some(i) => i < self.slot_keys.len() && self.slot_keys@[i as int] == (a, k),
                None => !self@.slots.contains_key((a, k)),
            },
    {
        let mut i: usize = 0;
        while i < self.slot_keys.len()
            invariant
                self.wf(),
                i <= self.slot_keys.len(),
                forall|j: int| 0 <= j < i ==> self.slot_keys@[j] != (a, k),
            decreases self.slot_keys.len() - i,
        {
            let (ka, kk) = self.slot_keys[i];
            if ka == a && kk == k {
                return Some(i);
            }
            i = i + 1;
        }
        None
    }

    /// The account held in memory for `a`; `None` means it must be fetched.
    pub fn cached_account(&self, a: Address) -> (r: Option<AccountRecord>)
        requires
            self.wf(),
        ensures
            match r {
                Some(rec) => self@.accounts.contains_key(a) && rec@ == self@.accounts[a],
                None => !self@.accounts.contains_key(a),
            },
    {
        match self.find_account(a) {
            Some(i) => {
                assert(self.accounts@.contains_key(self.account_keys@[i as int]));
                Some(self.account_recs[i].duplicate())
            },
            None => None,
        }
    }

    /// The value held in memory for slot `k` of `a`; `None` means it must be fetched.
    pub fn cached_slot(&self, a: Address, k: Word) -> (r: Option<Word>)
        requires
            self.wf(),
        ensures
            match r {
                Some(w) => self@.slots.contains_key((a, k)) && w == self@.slots[(a, k)],
                None => !self@.slots.contains_key((a, k)),
            },
    {
        match self.find_slot(a, k) {
            Some(i) => {
                assert(self.slots@.contains_key(self.slot_keys@[i as int]));
                Some(self.slot_vals[i])
            },
            None => None,
        }
    }

    fn push_account(&mut self, a: Address, rec: AccountRecord)
        requires
            old(self).wf(),
            !old(self)@.accounts.contains_key(a),
        ensures
            final(self).wf(),
            final(self)@ == (OverlayView { accounts: old(self)@.accounts.insert(a, rec@), ..old(self)@ }),
    {
        let ghost info = rec@;
        self.account_keys.push(a);
        self.account_recs.push(rec);
        self.accounts = Ghost(self.accounts@.insert(a, info));
        assert forall|b: Address| #[trigger] self.accounts@.contains_key(b) implies exists|i: int|
            0 <= i < self.account_keys.len() && self.account_keys@[i] == b by {
            if b == a {
                assert(self.account_keys@[self.account_keys.len() - 1] == a);
            } else {
                assert(old(self).accounts@.contains_key(b));
                let i = choose|i: int|
                    0 <= i < old(self).account_keys.len() && old(self).account_keys@[i] == b;
                assert(self.account_keys@[i] == b);
            }
        }
        assert forall|i: int|
            0 <= i < self.account_keys.len() implies #[trigger] self.accounts@.contains_key(
            self.account_keys@[i],
        ) && self.accounts@[self.account_keys@[i]] == self.account_recs@[i]@ by {
            if i < old(self).account_keys.len() {
                assert(old(self).accounts@.contains_key(old(self).account_keys@[i]));
            }
        }
        assert forall|i: int, j: int|
            0 <= i < j < self.account_keys.len() implies self.account_keys@[i]
            != self.account_keys@[j] by {
            if j == self.account_keys.len() - 1 {
                assert(old(self).accounts@.contains_key(old(self).account_keys@[i]));
            }
        }
        assert forall|i: int|
            0 <= i < self.fetched_accounts.len() implies self.accounts@.contains_key(
            #[trigger] self.fetched_accounts@[i],
        ) by {
            assert(old(self)@.accounts.contains_key(old(self)@.fetched_accounts[i]));
        }
        assert(self@.fetch_logs_ok());
        assert(self@ =~= (OverlayView { accounts: old(self)@.accounts.insert(a, info), ..old(self)@ }));
    }

    fn push_slot(&mut self, a: Address, k: Word, w: Word)
        requires
            old(self).wf(),
            !old(self)@.slots.contains_key((a, k)),
        ensures
            final(self).wf(),
            final(self)@ == (OverlayView { slots: old(self)@.slots.insert((a, k), w), ..old(self)@ }),
    {
        self.slot_keys.push((a, k));
        self.slot_vals.push(w);
        self.slots = Ghost(self.slots@.insert((a, k), w));
        assert forall|b: (Address, Word)| #[trigger] self.slots@.contains_key(b) implies exists|i: int|
            0 <= i < self.slot_keys.len() && self.slot_keys@[i] == b by {
            if b == (a, k) {
                assert(self.slot_keys@[self.slot_keys.len() - 1] == b);
            } else {
                assert(old(self).slots@.contains_key(b));
                let i = choose|i: int|
                    0 <= i < old(self).slot_keys.len() && old(self).slot_keys@[i] == b;
                assert(self.slot_keys@[i] == b);
            }
        }
        assert forall|i: int|
            0 <= i < self.slot_keys.len() implies #[trigger] self.slots@.contains_key(
            self.slot_keys@[i],
        ) && self.slots@[self.slot_keys@[i]] == self.slot_vals@[i] by {
            if i < old(self).slot_keys.len() {
                assert(old(self).slots@.contains_key(old(self).slot_keys@[i]));
            }
        }
        assert forall|i: int, j: int|
            0 <= i < j < self.slot_keys.len() implies self.slot_keys@[i] != self.slot_keys@[j] by {
            if j == self.slot_keys.len() - 1 {
                assert(old(self).slots@.contains_key(old(self).slot_keys@[i]));
            }
        }
        assert forall|i: int|
            0 <= i < self.fetched_slots.len() implies self.slots@.contains_key(
            #[trigger] self.fetched_slots@[i],
        ) by {
            assert(old(self)@.slots.contains_key(old(self)@.fetched_slots[i]));
        }
        assert(self@.fetch_logs_ok());
        assert(self.accounts_wf());
        assert(self.slots_wf());
        assert(self@ =~= (OverlayView { slots: old(self)@.slots.insert((a, k), w), ..old(self)@ }));
    }

    /// Takes the remote node's answer to a fetch of account `a`, which missed in
    /// memory. An answer is stored and logged as a fetch; a failed fetch is a
    /// setup failure and leaves the overlay as it was.
    pub fn fill_account(&mut self, a: Address, fetched: Result<AccountRecord, String>) -> (r:
        Result<AccountRecord, SimError>)
        requires
            old(self).wf(),
            !old(self)@.accounts.contains_key(a),
        ensures
            final(self).wf(),
            match fetched {
                Ok(rec) => match r {
                    Ok(got) => got@ == rec@ && final(self)@ == old(self)@.with_fetched_account(
                        a,
                        rec@,
                    ),
                    Err(_) => false,
                },
                Err(msg) => r == Err::<AccountRecord, SimError>(SimError::Setup(msg))
                    && final(self)@ == old(self)@,
            },
    {
        match fetched {
            Ok(rec) => {
                let out = rec.duplicate();
                self.push_account(a, rec);
                proof {
                    assert(!self@.fetched_accounts.contains(a)) by {
                        if self@.fetched_accounts.contains(a) {
                            let i = choose|i: int|
                                0 <= i < self@.fetched_accounts.len() && self@.fetched_accounts[i]
                                    == a;
                            assert(old(self)@.accounts.contains_key(old(self)@.fetched_accounts[i]));
                        }
                    }
                }
                self.fetched_accounts.push(a);
                proof {
                    assert forall|i: int|
                        0 <= i < self.fetched_accounts.len() implies self.accounts@.contains_key(
                        #[trigger] self.fetched_accounts@[i],
                    ) by {
                        if i < self.fetched_accounts.len() - 1 {
                            assert(old(self)@.accounts.contains_key(old(self)@.fetched_accounts[i]));
                        }
                    }
                    assert(self@ =~= old(self)@.with_fetched_account(a, out@));
                }
                Ok(out)
            },
            Err(msg) => Err(SimError::Setup(msg)),
        }
    }

    /// Takes the remote node's answer to a fetch of slot `k` of `a`, which missed
    /// in memory. An answer is stored and logged as a fetch; a failed fetch is a
    /// setup failure and leaves the overlay as it was.
    pub fn fill_slot(&mut self, a: Address, k: Word, fetched: Result<Word, String>) -> (r: Result<
        Word,
        SimError,
    >)
        requires
            old(self).wf(),
            !old(self)@.slots.contains_key((a, k)),
        ensures
            final(self).wf(),
            match fetched {
                Ok(w) => r == Ok::<Word, SimError>(w) && final(self)@ == old(self)@.with_fetched_slot(
                    a,
                    k,
                    w,
                ),
                Err(msg) => r == Err::<Word, SimError>(SimError::Setup(msg)) && final(self)@ == old(
                    self,
                )@,
            },
    {
        match fetched {
            Ok(w) => {
                self.push_slot(a, k, w);
                proof {
                    assert(!self@.fetched_slots.contains((a, k))) by {
                        if self@.fetched_slots.contains((a, k)) {
                            let i = choose|i: int|
                                0 <= i < self@.fetched_slots.len() && self@.fetched_slots[i] == (
                                a,
                                k,
                            );
                            assert(old(self)@.slots.contains_key(old(self)@.fetched_slots[i]));
                        }
                    }
                }
                self.fetched_slots.push((a, k));
                proof {
                    assert forall|i: int|
                        0 <= i < self.fetched_slots.len() implies self.slots@.contains_key(
                        #[trigger] self.fetched_slots@[i],
                    ) by {
                        if i < self.fetched_slots.len() - 1 {
                            assert(old(self)@.slots.contains_key(old(self)@.fetched_slots[i]));
                        }
                    }
                    assert(self@ =~= old(self)@.with_fetched_slot(a, k, w));
                }
                Ok(w)
            },
            Err(msg) => Err(SimError::Setup(msg)),
        }
    }

    /// Whether account `a` is held in memory.
    pub fn has_account(&self, a: Address) -> (r: bool)
        requires
            self.wf(),
        ensures
            r == self@.accounts.contains_key(a),
    {
        self.find_account(a).is_some()
    }

    /// Replaces the balance of account `a`, which is held in memory; its nonce
    /// and code stay as they were.
    pub(crate) fn set_balance(&mut self, a: Address, balance: Word)
        requires
            old(self).wf(),
            old(self)@.accounts.contains_key(a),
        ensures
            final(self).wf(),
            final(self)@ == (OverlayView {
                accounts: old(self)@.accounts.insert(
                    a,
                    AccountInfo { balance, ..old(self)@.accounts[a] },
                ),
                ..old(self)@
            }),
    {
        match self.find_account(a) {
            Some(i) => {
                proof {
                    assert(self.accounts@.contains_key(self.account_keys@[i as int]));
                }
                self.account_recs[i].balance = balance;
                let ghost info = AccountInfo { balance, ..old(self)@.accounts[a] };
                self.accounts = Ghost(self.accounts@.insert(a, info));
                proof {
                    assert(self.account_recs@[i as int]@ == info);
                    assert forall|j: int|
                        0 <= j < self.account_keys.len() implies #[trigger] self.accounts@.contains_key(
                        self.account_keys@[j],
                    ) && self.accounts@[self.account_keys@[j]] == self.account_recs@[j]@ by {
                        assert(old(self).accounts@.contains_key(old(self).account_keys@[j]));
                        if j != i {
                            assert(self.account_keys@[j] != a);
                        }
                    }
                    assert forall|b: Address| #[trigger] self.accounts@.contains_key(b) implies exists|j: int|
                        0 <= j < self.account_keys.len() && self.account_keys@[j] == b by {
                        assert(old(self).accounts@.contains_key(b));
                        let j = choose|j: int|
                            0 <= j < old(self).account_keys.len() && old(self).account_keys@[j] == b;
                        assert(self.account_keys@[j] == b);
                    }
                    assert forall|j: int|
                        0 <= j < self.fetched_accounts.len() implies self.accounts@.contains_key(
                        #[trigger] self.fetched_accounts@[j],
                    ) by {
                        assert(old(self)@.accounts.contains_key(old(self)@.fetched_accounts[j]));
                    }
                    assert(self.accounts_wf());
                    assert(self.slots_wf());
                    assert(self@.fetch_logs_ok());
                    assert(self@ =~= (OverlayView {
                        accounts: old(self)@.accounts.insert(a, info),
                        ..old(self)@
                    }));
                }
            },
            None => {},
        }
    }

    /// Sets slot `k` of `a` to `w`, whether it was held in memory or not.
    pub(crate) fn write_slot(&mut self, a: Address, k: Word, w: Word)
        requires
            old(self).wf(),
        ensures
            final(self).wf(),
            final(self)@ == (OverlayView { slots: old(self)@.slots.insert((a, k), w), ..old(self)@ }),
    {
        match self.find_slot(a, k) {
            Some(i) => {
                proof {
                    assert(self.slots@.contains_key(self.slot_keys@[i as int]));
                }
                self.slot_vals.set(i, w);
                self.slots = Ghost(self.slots@.insert((a, k), w));
                proof {
                    assert forall|j: int|
                        0 <= j < self.slot_keys.len() implies #[trigger] self.slots@.contains_key(
                        self.slot_keys@[j],
                    ) && self.slots@[self.slot_keys@[j]] == self.slot_vals@[j] by {
                        assert(old(self).slots@.contains_key(old(self).slot_keys@[j]));
                    }
                    assert forall|b: (Address, Word)| #[trigger] self.slots@.contains_key(b) implies exists|j: int|
                        0 <= j < self.slot_keys.len() && self.slot_keys@[j] == b by {
                        if b != (a, k) {
                            assert(old(self).slots@.contains_key(b));
                            let j = choose|j: int|
                                0 <= j < old(self).slot_keys.len() && old(self).slot_keys@[j] == b;
                            assert(self.slot_keys@[j] == b);
                        } else {
                            assert(self.slot_keys@[i as int] == b);
                        }
                    }
                    assert forall|j: int|
                        0 <= j < self.fetched_slots.len() implies self.slots@.contains_key(
                        #[trigger] self.fetched_slots@[j],
                    ) by {
                        assert(old(self)@.slots.contains_key(old(self)@.fetched_slots[j]));
                    }
                    assert(self.slots_wf());
                    assert(self.accounts_wf());
                    assert(self@.fetch_logs_ok());
                    assert(self@ =~= (OverlayView {
                        slots: old(self)@.slots.insert((a, k), w),
                        ..old(self)@
                    }));
                }
            },
            None => self.push_slot(a, k, w),
        }
    }
}

/// Each account and each storage slot is fetched from the remote node at most
/// once in a simulation: the fetch logs of every overlay that the public
/// operations produce hold no key twice, and a key once fetched stays held in
/// memory, so that `cached_account` and `cached_slot` answer it from there.
pub proof fn lemma_each_key_fetched_once(o: &Overlay)
    requires
        o.wf(),
    ensures
        o@.fetched_accounts.no_duplicates(),
        o@.fetched_slots.no_duplicates(),
        forall|i: int|
            0 <= i < o@.fetched_accounts.len() ==> o@.accounts.contains_key(
                #[trigger] o@.fetched_accounts[i],
            ),
        forall|i: int|
            0 <= i < o@.fetched_slots.len() ==> o@.slots.contains_key(
                #[trigger] o@.fetched_slots[i],
            ),
{
}

} // verus!
