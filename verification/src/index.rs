//! The ledger index: every posting of one ledger, addressable by its
//! identity key (account, transaction id).
//!
//! The index is built once per validation run and only read afterwards. Its
//! mathematical content is a map from key to posting; inserting under an
//! existing key overwrites, so the map holds the posting inserted last.

use vstd::prelude::*;
use crate::records::{Transaction, TransactionView, TxnKey};

verus! {

/// The map a sequence of postings induces: each posting stands under its
/// key, and a later posting under the same key overwrites an earlier one.
pub open spec fn seq_to_map(s: Seq<TransactionView>) -> Map<
    (Seq<char>, Seq<char>),
    TransactionView,
>
    decreases s.len(),
{
    if s.len() == 0 {
        Map::empty()
    } else {
        seq_to_map(s.drop_last()).insert(s.last().key(), s.last())
    }
}

/// A key is in the induced map exactly when some posting carries it.
pub proof fn lemma_seq_to_map_contains_key(s: Seq<TransactionView>, k: (Seq<char>, Seq<char>))
    ensures
        seq_to_map(s).contains_key(k) <==> exists|i: int| 0 <= i < s.len() && s[i].key() == k,
    decreases s.len(),
{
    if s.len() > 0 {
        lemma_seq_to_map_contains_key(s.drop_last(), k);
        if s.last().key() == k {
            assert(s[s.len() - 1].key() == k);
        } else if exists|i: int| 0 <= i < s.len() && s[i].key() == k {
            let i = choose|i: int| 0 <= i < s.len() && s[i].key() == k;
            assert(s.drop_last()[i] == s[i]);
        }
    }
}

/// The induced map sends a key to the last posting that carries it.
pub proof fn lemma_seq_to_map_found(s: Seq<TransactionView>, k: (Seq<char>, Seq<char>), i: int)
    requires
        0 <= i < s.len(),
        s[i].key() == k,
        forall|j: int| i < j < s.len() ==> (#[trigger] s[j].key()) != k,
    ensures
        seq_to_map(s).contains_key(k),
        seq_to_map(s)[k] == s[i],
    decreases s.len(),
{
    if i < s.len() - 1 {
        assert(s.drop_last()[i] == s[i]);
        lemma_seq_to_map_found(s.drop_last(), k, i);
    }
}

/// A key no posting carries is not in the induced map.
pub proof fn lemma_seq_to_map_absent(s: Seq<TransactionView>, k: (Seq<char>, Seq<char>))
    requires
        forall|i: int| 0 <= i < s.len() ==> (#[trigger] s[i].key()) != k,
    ensures
        !seq_to_map(s).contains_key(k),
{
    lemma_seq_to_map_contains_key(s, k);
}

/// The ledger index. Once a run has built it, it is only read: lookups are
/// the sole shared use, so concurrent readers would need no lock.
pub struct TxnIndex {
    entries: Vec<Transaction>,
}

impl View for TxnIndex {
    type V = Map<(Seq<char>, Seq<char>), TransactionView>;

    closed spec fn view(&self) -> Map<(Seq<char>, Seq<char>), TransactionView> {
        seq_to_map(self.entries@.map_values(|t: Transaction| t@))
    }
}

impl TxnIndex {
    /// An index with no postings.
    pub fn new() -> (r: TxnIndex)
        ensures
            r@ == Map::<(Seq<char>, Seq<char>), TransactionView>::empty(),
    {
        let r = TxnIndex { entries: Vec::new() };
        proof {
            assert(r.entries@.map_values(|t: Transaction| t@) =~= Seq::<TransactionView>::empty());
        }
        r
    }

    /// Add a posting under its key; an earlier posting under the same key
    /// is overwritten.
    pub fn insert(&mut self, t: Transaction)
        ensures
            final(self)@ == old(self)@.insert(t@.key(), t@),
    {
        let ghost before = self.entries@.map_values(|t: Transaction| t@);
        self.entries.push(t);
        proof {
            assert(self.entries@.map_values(|t: Transaction| t@) =~= before.push(t@));
            assert(before.push(t@).drop_last() =~= before);
        }
    }

    /// Look a key up: the posting inserted last under it, if any.
    pub fn get(&self, key: &TxnKey) -> (r: Option<&Transaction>)
        ensures
            match r {
                Some(t) => self@.contains_key(key@) && t@ == self@[key@],
                None => !self@.contains_key(key@),
            },
    {
        let ghost vs = self.entries@.map_values(|t: Transaction| t@);
        let mut i: usize = self.entries.len();
        while i > 0
            invariant
                i <= self.entries@.len(),
                vs == self.entries@.map_values(|t: Transaction| t@),
                forall|j: int| i <= j < vs.len() ==> (#[trigger] vs[j].key()) != key@,
            decreases i,
        {
            i = i - 1;
            let t = &self.entries[i];
            if t.account == key.account && t.txn_id == key.txn_id {
                proof {
                    lemma_seq_to_map_found(vs, key@, i as int);
                }
                return Some(t);
            }
        }
        proof {
            lemma_seq_to_map_absent(vs, key@);
        }
        None
    }
}

} // verus!
