//! The share store: an append-only, bounded sequence of distinct fragments.

use vstd::prelude::*;

verus! {

/// How many fragments the store accepts in all.
pub const SHAMIR_SHARES: usize = 3;

/// How many fragments reconstruction needs.
pub const SHAMIR_THRESHOLD: usize = 2;

/// One participant's fragment: its value as hex text, and its share index.
#[derive(Debug, Default, PartialEq)]
pub struct KeyShare {
    pub key_hex: String,
    pub index: u32,
}

impl View for KeyShare {
    type V = (Seq<char>, u32);

    open spec fn view(&self) -> (Seq<char>, u32) {
        (self.key_hex@, self.index)
    }
}

/// The model of a store: each fragment's value and index, in order of arrival.
pub type Shares = Seq<(Seq<char>, u32)>;

/// What a submission to the store came to.
#[derive(Debug, Clone, Copy, PartialEq, Eq, Structural)]
pub enum StoreOutcome {
    /// The store already held all the fragments it takes; nothing changed.
    CapacityReached,
    /// A held fragment has the same value or the same index; nothing changed.
    Duplicate,
    /// The fragment was appended; the store now holds this many.
    Accepted(usize),
}

/// No two fragments share a value or an index, and there are at most
/// `SHAMIR_SHARES` of them.
pub open spec fn store_ok(s: Shares) -> bool {
    &&& s.len() <= SHAMIR_SHARES
    &&& forall|i: int, j: int|
        0 <= i < s.len() && 0 <= j < s.len() && i != j ==> s[i].0 != s[j].0 && s[i].1 != s[j].1
}

/// Some held fragment has this value or this index.
pub open spec fn is_duplicate(s: Shares, key: Seq<char>, index: u32) -> bool {
    exists|i: int| 0 <= i < s.len() && (s[i].0 == key || s[i].1 == index)
}

/// The outcome of submitting a fragment to a store in state `s`.
pub open spec fn submit_outcome(s: Shares, key: Seq<char>, index: u32) -> StoreOutcome {
    if s.len() >= SHAMIR_SHARES {
        StoreOutcome::CapacityReached
    } else if is_duplicate(s, key, index) {
        StoreOutcome::Duplicate
    } else {
        StoreOutcome::Accepted((s.len() + 1) as usize)
    }
}

/// The store after submitting a fragment to it in state `s`.
pub open spec fn after_submit(s: Shares, key: Seq<char>, index: u32) -> Shares {
    if submit_outcome(s, key, index) is Accepted {
        s.push((key, index))
    } else {
        s
    }
}

/// The coordinator's state: the fragments accepted so far.
#[derive(Debug, Default)]
pub struct MyCoordinator {
    pub(crate) key_shares: Vec<KeyShare>,
}

impl View for MyCoordinator {
    type V = Shares;

    closed spec fn view(&self) -> Shares {
        self.key_shares@.map_values(|k: KeyShare| k@)
    }
}

impl MyCoordinator {
    pub open spec fn wf(&self) -> bool {
        store_ok(self@)
    }

    /// The model lists the held fragments' views one for one.
    pub(crate) proof fn lemma_view(&self)
        ensures
            self@.len() == self.key_shares@.len(),
            forall|i: int| 0 <= i < self@.len() ==> #[trigger] self@[i] == self.key_shares@[i]@,
    {
    }

    /// An empty store.
    pub fn new() -> (r: MyCoordinator)
        ensures
            r@ == Seq::<(Seq<char>, u32)>::empty(),
            r.wf(),
    {
        let r = MyCoordinator { key_shares: Vec::new() };
        proof {
            assert(r@ =~= Seq::<(Seq<char>, u32)>::empty());
        }
        r
    }

    /// How many fragments are held.
    pub fn len(&self) -> (r: usize)
        ensures
            r == self@.len(),
    {
        self.key_shares.len()
    }

    /// Appends a fragment unless the store is full or already holds its value
    /// or its index.
    pub fn store_share(&mut self, key_hex: String, index: u32) -> (r: StoreOutcome)
        requires
            old(self).wf(),
        ensures
            final(self).wf(),
            r == submit_outcome(old(self)@, key_hex@, index),
            final(self)@ == after_submit(old(self)@, key_hex@, index),
    {
        let n = self.key_shares.len();
        if n >= SHAMIR_SHARES {
            return StoreOutcome::CapacityReached;
        }
        let mut i: usize = 0;
        while i < n
            invariant
                n == self.key_shares@.len(),
                n < SHAMIR_SHARES,
                self@ == old(self)@,
                self.wf(),
                i <= n,
                forall|j: int|
                    0 <= j < i ==> #[trigger] self@[j].0 != key_hex@ && self@[j].1 != index,
            decreases n - i,
        {
            let held = &self.key_shares[i];
            if held.key_hex == key_hex || held.index == index {
                proof {
                    assert(self@[i as int] == held@);
                }
                return StoreOutcome::Duplicate;
            }
            proof {
                assert(self@[i as int] == held@);
            }
            i = i + 1;
        }
        let ghost before = self@;
        let ghost key = key_hex@;
        self.key_shares.push(KeyShare { key_hex, index });
        proof {
            assert(self@ =~= before.push((key, index)));
        }
        StoreOutcome::Accepted(self.key_shares.len())
    }

    /// The values of the held fragments, as hex text, in order of arrival.
    pub fn list_keys(&self) -> (r: Vec<String>)
        ensures
            r@.len() == self@.len(),
            forall|i: int| 0 <= i < r@.len() ==> #[trigger] r@[i]@ == self@[i].0,
    {
        let mut r: Vec<String> = Vec::new();
        let mut i: usize = 0;
        while i < self.key_shares.len()
            invariant
                i <= self.key_shares@.len(),
                r@.len() == i,
                forall|j: int| 0 <= j < i ==> #[trigger] r@[j]@ == self@[j].0,
            decreases self.key_shares@.len() - i,
        {
            r.push(self.key_shares[i].key_hex.clone());
            i = i + 1;
        }
        r
    }
}


/// A submission whose value or index is already held leaves the store as it
/// is and is not accepted; in particular, submitting the same fragment a
/// second time never changes the store again.
pub proof fn lemma_duplicate_rejected(s: Shares, key: Seq<char>, index: u32)
    requires
        store_ok(s),
    ensures
        is_duplicate(s, key, index) ==> after_submit(s, key, index) == s && !(submit_outcome(
            s,
            key,
            index,
        ) is Accepted),
        after_submit(after_submit(s, key, index), key, index) == after_submit(s, key, index),
        !(submit_outcome(after_submit(s, key, index), key, index) is Accepted),
{
    let t = after_submit(s, key, index);
    if submit_outcome(s, key, index) is Accepted {
        assert(t[t.len() - 1] == (key, index));
        assert(is_duplicate(t, key, index));
    } else {
        if t.len() < SHAMIR_SHARES {
            assert(is_duplicate(s, key, index));
        }
    }
}

/// Every submission keeps the store within its capacity and its fragments
/// distinct; a full store refuses any submission and stays as it is.
pub proof fn lemma_capacity_kept(s: Shares, key: Seq<char>, index: u32)
    requires
        store_ok(s),
    ensures
        store_ok(after_submit(s, key, index)),
        after_submit(s, key, index).len() <= SHAMIR_SHARES,
        s.len() == SHAMIR_SHARES ==> submit_outcome(s, key, index) == StoreOutcome::CapacityReached
            && after_submit(s, key, index) == s,
{
    let t = after_submit(s, key, index);
    if submit_outcome(s, key, index) is Accepted {
        assert forall|i: int, j: int|
            0 <= i < t.len() && 0 <= j < t.len() && i != j implies t[i].0 != t[j].0 && t[i].1
            != t[j].1 by {
            if i == s.len() as int {
                assert(!(s[j].0 == key || s[j].1 == index));
            } else if j == s.len() as int {
                assert(!(s[i].0 == key || s[i].1 == index));
            }
        }
    }
}

/// The store after a sequence of submissions to an empty one.
pub open spec fn replay(subs: Shares) -> Shares
    decreases subs.len(),
{
    if subs.len() == 0 {
        Seq::empty()
    } else {
        let last = subs.last();
        after_submit(replay(subs.drop_last()), last.0, last.1)
    }
}

/// The values of the accepted submissions of a sequence, in order.
pub open spec fn accepted_values(subs: Shares) -> Seq<Seq<char>>
    decreases subs.len(),
{
    if subs.len() == 0 {
        Seq::empty()
    } else {
        let last = subs.last();
        let earlier = accepted_values(subs.drop_last());
        if submit_outcome(replay(subs.drop_last()), last.0, last.1) is Accepted {
            earlier.push(last.0)
        } else {
            earlier
        }
    }
}

/// After any sequence of submissions to an empty store, the held values are
/// exactly those of the accepted submissions, in the order they were made.
pub proof fn lemma_held_in_submission_order(subs: Shares)
    ensures
        replay(subs).map_values(|p: (Seq<char>, u32)| p.0) == accepted_values(subs),
        store_ok(replay(subs)),
    decreases subs.len(),
{
    if subs.len() > 0 {
        let prefix = subs.drop_last();
        let last = subs.last();
        lemma_held_in_submission_order(prefix);
        lemma_capacity_kept(replay(prefix), last.0, last.1);
        assert(replay(subs).map_values(|p: (Seq<char>, u32)| p.0) =~= accepted_values(subs));
    }
}

} // verus!
