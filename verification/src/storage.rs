//! The partition's storage transaction: an ordered key-value state table and
//! the per-source deduplication ledger, with the transactional interface the
//! command-application layer reads and writes through.
//!
//! Keys of the state table are kept strictly in byte-lexicographic order, so
//! prefix and range scans return pairs in key order.  The dedup ledger maps
//! each producer lane to the last applied sequence number; entries are
//! created on first sight of a lane, updated on every successful apply, and
//! never deleted.

use vstd::prelude::*;

use crate::commands::{SequenceNumberSource, SourceModel};
use crate::identifiers::ServiceId;
use crate::state_keys::{
    is_state_key_encoding, lemma_prefixed_encoding_components, lemma_state_key_bytes_stk_injective,
    lemma_state_key_splits, parse_state_key, raw_state_key_bytes, state_key_bytes,
    state_prefix_bytes, write_state_prefix, write_state_entry_key, StateKeyError,
};

verus! {

/// The contents of an association list, as a map over the views of its keys
/// and values.
pub open spec fn assoc_view<K: View, V: View>(s: Seq<(K, V)>) -> Map<K::V, V::V>
    decreases s.len(),
{
    if s.len() == 0 {
        Map::empty()
    } else {
        assoc_view(s.drop_last()).insert(s.last().0@, s.last().1@)
    }
}

/// No two entries of the list share a key.
pub open spec fn assoc_distinct<K: View, V: View>(s: Seq<(K, V)>) -> bool {
    forall|i: int, j: int| 0 <= i < j < s.len() ==> #[trigger] s[i].0@ != #[trigger] s[j].0@
}

/// The keys of the contents are exactly the keys of the entries.
pub proof fn lemma_assoc_view_keys<K: View, V: View>(s: Seq<(K, V)>)
    ensures
        forall|i: int| 0 <= i < s.len() ==> #[trigger] assoc_view(s).contains_key(s[i].0@),
        forall|k: <K as View>::V|
            assoc_view(s).contains_key(k) ==> exists|i: int| 0 <= i < s.len() && #[trigger] s[i].0@
                == k,
    decreases s.len(),
{
    if s.len() > 0 {
        lemma_assoc_view_keys(s.drop_last());
        assert forall|i: int| 0 <= i < s.len() implies #[trigger] assoc_view(s).contains_key(
            s[i].0@,
        ) by {
            if i < s.len() - 1 {
                assert(s.drop_last()[i] == s[i]);
                assert(assoc_view(s.drop_last()).contains_key(s[i].0@));
            }
        }
        assert forall|k: <K as View>::V| assoc_view(s).contains_key(k) implies exists|i: int|
            0 <= i < s.len() && #[trigger] s[i].0@ == k by {
            if k == s.last().0@ {
                assert(s[s.len() - 1].0@ == k);
            } else {
                assert(assoc_view(s.drop_last()).contains_key(k));
                let i = choose|i: int|
                    0 <= i < s.drop_last().len() && #[trigger] s.drop_last()[i].0@ == k;
                assert(s[i].0@ == k);
            }
        }
    }
}

/// In a list with distinct keys, the entry at `i` gives the value its key
/// maps to.
pub proof fn lemma_assoc_view_lookup<K: View, V: View>(s: Seq<(K, V)>, i: int)
    requires
        assoc_distinct(s),
        0 <= i < s.len(),
    ensures
        assoc_view(s).contains_key(s[i].0@),
        assoc_view(s)[s[i].0@] == s[i].1@,
    decreases s.len(),
{
    if i == s.len() - 1 {
    } else {
        assert(assoc_distinct(s.drop_last()));
        assert(s.drop_last()[i] == s[i]);
        lemma_assoc_view_lookup(s.drop_last(), i);
        assert(s[i].0@ != s.last().0@);
    }
}

/// Overwriting the entry at `i` with one of the same key updates the
/// contents at that key.
pub proof fn lemma_assoc_view_update<K: View, V: View>(s: Seq<(K, V)>, i: int, p: (K, V))
    requires
        assoc_distinct(s),
        0 <= i < s.len(),
        p.0@ == s[i].0@,
    ensures
        assoc_view(s.update(i, p)) == assoc_view(s).insert(p.0@, p.1@),
        assoc_distinct(s.update(i, p)),
    decreases s.len(),
{
    let t = s.update(i, p);
    assert forall|m: int, n: int| 0 <= m < n < t.len() implies #[trigger] t[m].0@
        != #[trigger] t[n].0@ by {
        assert(s[m].0@ != s[n].0@);
    }
    if i == s.len() - 1 {
        assert(t.drop_last() =~= s.drop_last());
        assert(t.last() == p);
        assert(assoc_view(s.drop_last()).insert(p.0@, p.1@) =~= assoc_view(s).insert(
            p.0@,
            p.1@,
        ));
    } else {
        assert(assoc_distinct(s.drop_last()));
        assert(s.drop_last()[i] == s[i]);
        lemma_assoc_view_update(s.drop_last(), i, p);
        assert(t.drop_last() =~= s.drop_last().update(i, p));
        assert(t.last() == s.last());
        assert(s[i].0@ != s.last().0@);
        assert(assoc_view(t) == assoc_view(s.drop_last()).insert(p.0@, p.1@).insert(
            s.last().0@,
            s.last().1@,
        ));
        assert(assoc_view(s.drop_last()).insert(p.0@, p.1@).insert(s.last().0@, s.last().1@)
            =~= assoc_view(s.drop_last()).insert(s.last().0@, s.last().1@).insert(p.0@, p.1@));
    }
}

/// Appending an entry inserts its key into the contents.
pub proof fn lemma_assoc_view_push<K: View, V: View>(s: Seq<(K, V)>, p: (K, V))
    ensures
        assoc_view(s.push(p)) == assoc_view(s).insert(p.0@, p.1@),
{
    assert(s.push(p).drop_last() =~= s);
    assert(s.push(p).last() == p);
}

/// Inserting an entry with a fresh key at any position inserts its key into
/// the contents.
pub proof fn lemma_assoc_view_insert_at<K: View, V: View>(s: Seq<(K, V)>, i: int, p: (K, V))
    requires
        assoc_distinct(s),
        0 <= i <= s.len(),
        forall|j: int| 0 <= j < s.len() ==> #[trigger] s[j].0@ != p.0@,
    ensures
        assoc_view(s.insert(i, p)) == assoc_view(s).insert(p.0@, p.1@),
        assoc_distinct(s.insert(i, p)),
    decreases s.len(),
{
    let t = s.insert(i, p);
    assert forall|m: int, n: int| 0 <= m < n < t.len() implies #[trigger] t[m].0@
        != #[trigger] t[n].0@ by {
        if m < i && n < i {
            assert(t[m] == s[m] && t[n] == s[n]);
        } else if m < i && n == i {
            assert(t[m] == s[m] && t[n] == p);
        } else if m < i && n > i {
            assert(t[m] == s[m] && t[n] == s[n - 1]);
        } else if m == i {
            assert(t[m] == p && t[n] == s[n - 1]);
        } else {
            assert(t[m] == s[m - 1] && t[n] == s[n - 1]);
        }
    }
    if i == s.len() {
        assert(t =~= s.push(p));
        lemma_assoc_view_push(s, p);
    } else {
        assert(t.last() == s.last());
        assert(t.drop_last() =~= s.drop_last().insert(i, p));
        assert(assoc_distinct(s.drop_last()));
        lemma_assoc_view_insert_at(s.drop_last(), i, p);
        assert(s.last().0@ != p.0@);
        assert(assoc_view(t) == assoc_view(s.drop_last()).insert(p.0@, p.1@).insert(
            s.last().0@,
            s.last().1@,
        ));
        assert(assoc_view(s.drop_last()).insert(p.0@, p.1@).insert(s.last().0@, s.last().1@)
            =~= assoc_view(s.drop_last()).insert(s.last().0@, s.last().1@).insert(p.0@, p.1@));
    }
}

/// Removing the entry at `i` removes its key from the contents.
pub proof fn lemma_assoc_view_remove<K: View, V: View>(s: Seq<(K, V)>, i: int)
    requires
        assoc_distinct(s),
        0 <= i < s.len(),
    ensures
        assoc_view(s.remove(i)) == assoc_view(s).remove(s[i].0@),
        assoc_distinct(s.remove(i)),
    decreases s.len(),
{
    let t = s.remove(i);
    assert forall|m: int, n: int| 0 <= m < n < t.len() implies #[trigger] t[m].0@
        != #[trigger] t[n].0@ by {
        if m < i && n < i {
            assert(t[m] == s[m] && t[n] == s[n]);
        } else if m < i {
            assert(t[m] == s[m] && t[n] == s[n + 1]);
        } else {
            assert(t[m] == s[m + 1] && t[n] == s[n + 1]);
        }
    }
    if i == s.len() - 1 {
        assert(t =~= s.drop_last());
        lemma_assoc_view_keys(s.drop_last());
        assert forall|j: int| 0 <= j < s.drop_last().len() implies #[trigger] s.drop_last()[j].0@
            != s.last().0@ by {
            assert(s[j].0@ != s[s.len() - 1].0@);
        }
        assert(!assoc_view(s.drop_last()).contains_key(s.last().0@));
        assert(assoc_view(s.drop_last()) =~= assoc_view(s).remove(s[i].0@));
    } else {
        assert(assoc_distinct(s.drop_last()));
        assert(s.drop_last()[i] == s[i]);
        lemma_assoc_view_remove(s.drop_last(), i);
        assert(t.last() == s.last());
        assert(t.drop_last() =~= s.drop_last().remove(i));
        assert(assoc_view(t) == assoc_view(s.drop_last()).remove(s[i].0@).insert(
            s.last().0@,
            s.last().1@,
        ));
        assert(s[i].0@ != s.last().0@);
        assert(assoc_view(s.drop_last()).remove(s[i].0@).insert(s.last().0@, s.last().1@)
            =~= assoc_view(s.drop_last()).insert(s.last().0@, s.last().1@).remove(s[i].0@));
    }
}

/// Strict byte-lexicographic order: a proper prefix comes first, otherwise
/// the first differing byte decides.
pub open spec fn lex_lt(a: Seq<u8>, b: Seq<u8>) -> bool
    decreases a.len(),
{
    if b.len() == 0 {
        false
    } else if a.len() == 0 {
        true
    } else if a[0] < b[0] {
        true
    } else if a[0] > b[0] {
        false
    } else {
        lex_lt(a.drop_first(), b.drop_first())
    }
}

/// Lexicographic order is a strict total order: exactly one of `a < b`,
/// `b < a`, `a == b` holds.
pub proof fn lemma_lex_trichotomy(a: Seq<u8>, b: Seq<u8>)
    ensures
        lex_lt(a, b) || lex_lt(b, a) || a == b,
        lex_lt(a, b) ==> !lex_lt(b, a) && a != b,
    decreases a.len() + b.len(),
{
    if a.len() == 0 && b.len() == 0 {
        assert(a =~= b);
    } else if a.len() == 0 || b.len() == 0 {
    } else {
        lemma_lex_trichotomy(a.drop_first(), b.drop_first());
        if a[0] == b[0] && a.drop_first() == b.drop_first() {
            assert forall|i: int| 0 <= i < a.len() implies a[i] == b[i] by {
                if i > 0 {
                    assert(a.drop_first()[i - 1] == a[i]);
                    assert(b.drop_first()[i - 1] == b[i]);
                }
            }
            assert(a =~= b);
        }
    }
}

/// Lexicographic order is transitive.
pub proof fn lemma_lex_transitive(a: Seq<u8>, b: Seq<u8>, c: Seq<u8>)
    requires
        lex_lt(a, b),
        lex_lt(b, c),
    ensures
        lex_lt(a, c),
    decreases a.len() + b.len() + c.len(),
{
    if a.len() == 0 {
    } else if b.len() == 0 {
    } else if c.len() == 0 {
    } else {
        if a[0] == b[0] && b[0] == c[0] {
            lemma_lex_transitive(a.drop_first(), b.drop_first(), c.drop_first());
        }
    }
}

/// Compares two byte vectors in lexicographic order.
pub fn bytes_lex_lt(a: &Vec<u8>, b: &Vec<u8>) -> (r: bool)
    ensures
        r == lex_lt(a@, b@),
{
    let alen: usize = a.len();
    let blen: usize = b.len();
    let mut i: usize = 0;
    proof {
        assert(a@.skip(0) =~= a@);
        assert(b@.skip(0) =~= b@);
    }
    loop
        invariant
            i <= alen,
            i <= blen,
            alen == a@.len(),
            blen == b@.len(),
            lex_lt(a@, b@) == lex_lt(a@.skip(i as int), b@.skip(i as int)),
            forall|j: int| 0 <= j < i ==> a@[j] == b@[j],
        decreases alen - i,
    {
        if i == blen {
            return false;
        }
        if i == alen {
            return true;
        }
        let x = a[i];
        let y = b[i];
        if x < y {
            return true;
        }
        if x > y {
            return false;
        }
        proof {
            assert(a@.skip(i as int).drop_first() =~= a@.skip(i + 1));
            assert(b@.skip(i as int).drop_first() =~= b@.skip(i + 1));
        }
        i = i + 1;
    }
}

/// Whether two byte vectors hold the same bytes.
pub fn bytes_eq(a: &Vec<u8>, b: &Vec<u8>) -> (r: bool)
    ensures
        r == (a@ == b@),
{
    let r = a == b;
    proof {
        if r {
            assert(a@ =~= b@);
        } else {
            if a@ == b@ {
                assert(a@.len() == b@.len());
                assert(forall|i: int| 0 <= i < a@.len() ==> a@[i] == b@[i]);
            }
        }
    }
    r
}

/// Whether `k` starts with the bytes of `p`.
pub open spec fn has_prefix(k: Seq<u8>, p: Seq<u8>) -> bool {
    k.len() >= p.len() && k.subrange(0, p.len() as int) == p
}

/// Whether `k` starts with the bytes of `p`.
pub fn bytes_has_prefix(k: &Vec<u8>, p: &Vec<u8>) -> (r: bool)
    ensures
        r == has_prefix(k@, p@),
{
    let klen: usize = k.len();
    let plen: usize = p.len();
    if klen < plen {
        return false;
    }
    let mut i: usize = 0;
    while i < plen
        invariant
            i <= plen,
            plen <= k@.len(),
            plen == p@.len(),
            forall|j: int| 0 <= j < i ==> k@[j] == p@[j],
        decreases plen - i,
    {
        if k[i] != p[i] {
            proof {
                assert(k@.subrange(0, plen as int)[i as int] != p@[i as int]);
            }
            return false;
        }
        i = i + 1;
    }
    proof {
        assert(k@.subrange(0, plen as int) =~= p@);
    }
    true
}

/// The state-table entries are strictly sorted by key.
pub open spec fn state_table_sorted(s: Seq<(Vec<u8>, Vec<u8>)>) -> bool {
    forall|i: int, j: int|
        0 <= i < j < s.len() ==> lex_lt(#[trigger] s[i].0@, #[trigger] s[j].0@)
}

/// Strictly sorted entries have distinct keys.
pub proof fn lemma_sorted_distinct(s: Seq<(Vec<u8>, Vec<u8>)>)
    requires
        state_table_sorted(s),
    ensures
        assoc_distinct(s),
{
    assert forall|i: int, j: int| 0 <= i < j < s.len() implies #[trigger] s[i].0@
        != #[trigger] s[j].0@ by {
        lemma_lex_trichotomy(s[i].0@, s[j].0@);
    }
}

/// Mathematical model of a partition's persisted data: the state table and
/// the deduplication ledger.
pub struct StoreModel {
    /// The ordered key-value state table, by key bytes.
    pub state: Map<Seq<u8>, Seq<u8>>,
    /// Last applied sequence number of each producer lane.
    pub dedup: Map<SourceModel, u64>,
}

/// A partition's committed data, owned by exactly one writer at a time.
pub struct PartitionStore {
    state: Vec<(Vec<u8>, Vec<u8>)>,
    dedup: Vec<(SequenceNumberSource, u64)>,
}

/// The transaction one command application reads and writes through.  Its
/// writes become the committed data only through `commit`; a caller that
/// drops the transaction instead has aborted it in full, staged effects
/// included.
pub struct PartitionTransaction {
    state: Vec<(Vec<u8>, Vec<u8>)>,
    dedup: Vec<(SequenceNumberSource, u64)>,
}

impl View for PartitionStore {
    type V = StoreModel;

    closed spec fn view(&self) -> StoreModel {
        StoreModel { state: assoc_view(self.state@), dedup: assoc_view(self.dedup@) }
    }
}

impl View for PartitionTransaction {
    type V = StoreModel;

    closed spec fn view(&self) -> StoreModel {
        StoreModel { state: assoc_view(self.state@), dedup: assoc_view(self.dedup@) }
    }
}

impl PartitionStore {
    /// The store's tables are well formed: state keys strictly sorted, ledger
    /// lanes distinct.
    pub closed spec fn wf(&self) -> bool {
        state_table_sorted(self.state@) && assoc_distinct(self.dedup@)
    }

    /// An empty partition store.
    pub fn new() -> (r: PartitionStore)
        ensures
            r.wf(),
            r@.state == Map::<Seq<u8>, Seq<u8>>::empty(),
            r@.dedup == Map::<SourceModel, u64>::empty(),
    {
        PartitionStore { state: Vec::new(), dedup: Vec::new() }
    }

    /// Opens the transaction for one command application.  The single writer
    /// of the partition hands its data to the transaction and takes it back
    /// at commit.
    pub fn begin_transaction(self) -> (t: PartitionTransaction)
        requires
            self.wf(),
        ensures
            t.wf(),
            t@ == self@,
    {
        PartitionTransaction { state: self.state, dedup: self.dedup }
    }

    /// Dumps every state entry whose partition key lies in the inclusive
    /// range: each such row exactly once, with its parsed components.
    /// Stored keys that are no state-entry encoding are refused; where every
    /// stored key is well formed, the dump succeeds.
    pub fn all_states(&self, range_start: u64, range_end: u64) -> (r: Result<
        Vec<OwnedStateRow>,
        StateKeyError,
    >)
        requires
            self.wf(),
        ensures
            r matches Ok(rows) ==> {
                &&& forall|i: int|
                    0 <= i < rows@.len() ==> range_start <= (#[trigger] rows@[i]).partition_key
                        <= range_end && self@.state.contains_pair(
                        raw_state_key_bytes(
                            rows@[i].partition_key,
                            rows@[i].service@,
                            rows@[i].service_key@,
                            rows@[i].state_key@,
                        ),
                        rows@[i].state_value@,
                    )
                &&& forall|pk: u64, nb: Seq<u8>, sk: Seq<u8>, stk: Seq<u8>, v: Seq<u8>|
                    #[trigger] self@.state.contains_pair(
                        raw_state_key_bytes(pk, nb, sk, stk),
                        v,
                    ) && range_start <= pk <= range_end ==> exists|i: int|
                        0 <= i < rows@.len() && (#[trigger] rows@[i]).partition_key == pk
                            && rows@[i].service@ == nb && rows@[i].service_key@ == sk
                            && rows@[i].state_key@ == stk && rows@[i].state_value@ == v
                &&& forall|i: int, j: int|
                    0 <= i < j < rows@.len() ==> lex_lt(
                        raw_state_key_bytes(
                            (#[trigger] rows@[i]).partition_key,
                            rows@[i].service@,
                            rows@[i].service_key@,
                            rows@[i].state_key@,
                        ),
                        raw_state_key_bytes(
                            (#[trigger] rows@[j]).partition_key,
                            rows@[j].service@,
                            rows@[j].service_key@,
                            rows@[j].state_key@,
                        ),
                    )
            },
            ((forall|k: Seq<u8>|
                #[trigger] self@.state.contains_key(k) ==> exists|
                    pk: u64,
                    nb: Seq<u8>,
                    sk: Seq<u8>,
                    stk: Seq<u8>,
                | k == #[trigger] raw_state_key_bytes(pk, nb, sk, stk)) ==> r is Ok),
    {
        proof {
            lemma_sorted_distinct(self.state@);
            lemma_assoc_view_keys::<Vec<u8>, Vec<u8>>(self.state@);
            assert forall|u: int| 0 <= u < self.state@.len() implies self@.state.contains_pair(
                (#[trigger] self.state@[u]).0@,
                self.state@[u].1@,
            ) by {
                lemma_assoc_view_lookup(self.state@, u);
            }
        }
        let mut rows: Vec<OwnedStateRow> = Vec::new();
        let ghost mut srcs: Seq<int> = Seq::empty();
        let n: usize = self.state.len();
        let mut t: usize = 0;
        while t < n
            invariant
                t <= n,
                n == self.state@.len(),
                self.wf(),
                srcs.len() == rows@.len(),
                forall|i: int| 0 <= i < rows@.len() ==> 0 <= #[trigger] srcs[i] < t,
                forall|i: int|
                    0 <= i < rows@.len() ==> self.state@[srcs[i]].0@ == raw_state_key_bytes(
                        (#[trigger] rows@[i]).partition_key,
                        rows@[i].service@,
                        rows@[i].service_key@,
                        rows@[i].state_key@,
                    ),
                forall|i: int, j: int| 0 <= i < j < rows@.len() ==> srcs[i] < srcs[j],
                forall|u: int|
                    0 <= u < self.state@.len() ==> self@.state.contains_pair(
                        (#[trigger] self.state@[u]).0@,
                        self.state@[u].1@,
                    ),
                forall|i: int|
                    0 <= i < rows@.len() ==> range_start <= (#[trigger] rows@[i]).partition_key
                        <= range_end && self@.state.contains_pair(
                        raw_state_key_bytes(
                            rows@[i].partition_key,
                            rows@[i].service@,
                            rows@[i].service_key@,
                            rows@[i].state_key@,
                        ),
                        rows@[i].state_value@,
                    ),
                forall|u: int, pk: u64, nb: Seq<u8>, sk: Seq<u8>, stk: Seq<u8>|
                    0 <= u < t && (#[trigger] self.state@[u]).0@ == #[trigger] raw_state_key_bytes(
                        pk,
                        nb,
                        sk,
                        stk,
                    ) && range_start <= pk <= range_end ==> exists|i: int|
                        0 <= i < rows@.len() && (#[trigger] rows@[i]).partition_key == pk
                            && rows@[i].service@ == nb && rows@[i].service_key@ == sk
                            && rows@[i].state_key@ == stk && rows@[i].state_value@
                            == self.state@[u].1@,
            decreases n - t,
        {
            let entry = &self.state[t];
            match parse_state_key(entry.0.as_slice()) {
                Ok(parts) => {
                    let in_range = range_start <= parts.partition_key && parts.partition_key
                        <= range_end;
                    let ghost rows_before = rows@;
                    let ghost srcs_before = srcs;
                    if in_range {
                        rows.push(
                            OwnedStateRow {
                                partition_key: parts.partition_key,
                                service: parts.service_name,
                                service_key: parts.service_key,
                                state_key: parts.state_key,
                                state_value: crate::codec::copy_bytes(&entry.1),
                            },
                        );
                        proof {
                            srcs = srcs.push(t as int);
                            assert(srcs[rows@.len() - 1] == t as int);
                            assert(self.state@[t as int].0@ == raw_state_key_bytes(
                                rows@[rows@.len() - 1].partition_key,
                                rows@[rows@.len() - 1].service@,
                                rows@[rows@.len() - 1].service_key@,
                                rows@[rows@.len() - 1].state_key@,
                            ));
                            assert forall|i: int, j: int| 0 <= i < j < rows@.len() implies srcs[i]
                                < srcs[j] by {
                                if j < rows@.len() - 1 {
                                    assert(srcs[i] == srcs_before[i] && srcs[j] == srcs_before[j]);
                                } else {
                                    assert(srcs[i] == srcs_before[i] && srcs[j] == t as int);
                                }
                            }
                            assert forall|i: int|
                                0 <= i < rows@.len() implies self.state@[srcs[i]].0@
                                == raw_state_key_bytes(
                                (#[trigger] rows@[i]).partition_key,
                                rows@[i].service@,
                                rows@[i].service_key@,
                                rows@[i].state_key@,
                            ) by {
                                if i < rows@.len() - 1 {
                                    assert(srcs[i] == srcs_before[i] && rows@[i] == rows_before[i]);
                                }
                            }
                        }
                    }
                    proof {
                        assert forall|u: int, pk: u64, nb: Seq<u8>, sk: Seq<u8>, stk: Seq<u8>|
                            0 <= u < t + 1 && (#[trigger] self.state@[u]).0@
                                == #[trigger] raw_state_key_bytes(pk, nb, sk, stk) && range_start
                                <= pk <= range_end implies exists|i: int|
                            0 <= i < rows@.len() && (#[trigger] rows@[i]).partition_key == pk
                                && rows@[i].service@ == nb && rows@[i].service_key@ == sk
                                && rows@[i].state_key@ == stk && rows@[i].state_value@
                                == self.state@[u].1@ by {
                            if u == t {
                                assert(is_state_key_encoding(entry.0@, pk, nb, sk, stk));
                                assert(rows@[rows@.len() - 1].partition_key == pk);
                            } else {
                                let i = choose|i: int|
                                    0 <= i < rows_before.len() && (#[trigger] rows_before[
                                    i]).partition_key == pk && rows_before[i].service@ == nb
                                        && rows_before[i].service_key@ == sk && rows_before[
                                    i].state_key@ == stk && rows_before[i].state_value@
                                        == self.state@[u].1@;
                                assert(rows@[i] == rows_before[i]);
                            }
                        }
                    }
                },
                Err(e) => {
                    proof {
                        let k = entry.0@;
                        assert(self@.state.contains_key(k));
                        if forall|k2: Seq<u8>|
                            #[trigger] self@.state.contains_key(k2) ==> exists|
                                pk: u64,
                                nb: Seq<u8>,
                                sk: Seq<u8>,
                                stk: Seq<u8>,
                            | k2 == #[trigger] raw_state_key_bytes(pk, nb, sk, stk) {
                            let (pk, nb, sk, stk) = choose|
                                pk: u64,
                                nb: Seq<u8>,
                                sk: Seq<u8>,
                                stk: Seq<u8>,
                            | k == raw_state_key_bytes(pk, nb, sk, stk);
                            assert(is_state_key_encoding(k, pk, nb, sk, stk));
                            assert(false);
                        }
                    }
                    return Err(e);
                },
            }
            t = t + 1;
        }
        let r: Result<Vec<OwnedStateRow>, StateKeyError> = Ok(rows);
        proof {
            let rows_v = r->Ok_0;
            assert forall|pk: u64, nb: Seq<u8>, sk: Seq<u8>, stk: Seq<u8>, v: Seq<u8>|
                #[trigger] self@.state.contains_pair(
                    raw_state_key_bytes(pk, nb, sk, stk),
                    v,
                ) && range_start <= pk <= range_end implies exists|i: int|
                0 <= i < rows_v@.len() && (#[trigger] rows_v@[i]).partition_key == pk
                    && rows_v@[i].service@ == nb && rows_v@[i].service_key@ == sk
                    && rows_v@[i].state_key@ == stk && rows_v@[i].state_value@ == v by {
                let k = raw_state_key_bytes(pk, nb, sk, stk);
                assert(self@.state.contains_key(k));
                let u = choose|u: int| 0 <= u < self.state@.len() && #[trigger] self.state@[u].0@
                    == k;
                assert(self@.state.contains_pair(self.state@[u].0@, self.state@[u].1@));
                assert(self.state@[u].1@ == v);
            }
            assert forall|i: int, j: int| 0 <= i < j < rows_v@.len() implies lex_lt(
                raw_state_key_bytes(
                    (#[trigger] rows_v@[i]).partition_key,
                    rows_v@[i].service@,
                    rows_v@[i].service_key@,
                    rows_v@[i].state_key@,
                ),
                raw_state_key_bytes(
                    (#[trigger] rows_v@[j]).partition_key,
                    rows_v@[j].service@,
                    rows_v@[j].service_key@,
                    rows_v@[j].state_key@,
                ),
            ) by {
                assert(state_table_sorted(self.state@));
                assert(lex_lt(self.state@[srcs[i]].0@, self.state@[srcs[j]].0@));
            }
        }
        r
    }
}

/// One row of a partition-range dump of the state table, with the service
/// name as its UTF-8 bytes.
#[derive(Debug, Clone, PartialEq, Eq)]
pub struct OwnedStateRow {
    /// Routing hash of the service key.
    pub partition_key: u64,
    /// UTF-8 bytes of the service name.
    pub service: Vec<u8>,
    /// Key of the service instance.
    pub service_key: Vec<u8>,
    /// The user state key within the instance.
    pub state_key: Vec<u8>,
    /// The value persisted under the key.
    pub state_value: Vec<u8>,
}

impl PartitionTransaction {
    /// The transaction's tables are well formed.
    pub closed spec fn wf(&self) -> bool {
        state_table_sorted(self.state@) && assoc_distinct(self.dedup@)
    }

    /// Commits the transaction: all writes of this command application, and
    /// the effects staged alongside them, become observable atomically.
    pub fn commit(self) -> (r: PartitionStore)
        requires
            self.wf(),
        ensures
            r.wf(),
            r@ == self@,
    {
        PartitionStore { state: self.state, dedup: self.dedup }
    }

    /// Index of the ledger entry for a lane, if one exists.
    fn find_dedup_index(&self, source: &SequenceNumberSource) -> (r: Option<usize>)
        ensures
            r matches Some(i) ==> i < self.dedup@.len() && self.dedup@[i as int].0@ == source@,
            r is None ==> forall|j: int|
                0 <= j < self.dedup@.len() ==> #[trigger] self.dedup@[j].0@ != source@,
    {
        let mut i: usize = 0;
        while i < self.dedup.len()
            invariant
                i <= self.dedup@.len(),
                forall|j: int| 0 <= j < i ==> #[trigger] self.dedup@[j].0@ != source@,
            decreases self.dedup@.len() - i,
        {
            let entry = &self.dedup[i];
            if entry.0.same_source(source) {
                return Some(i);
            }
            i = i + 1;
        }
        None
    }

    /// Reads the last applied sequence number of a lane, if the lane was
    /// ever seen.
    pub fn load_dedup_seq_number(&self, source: &SequenceNumberSource) -> (r: Option<u64>)
        requires
            self.wf(),
        ensures
            r == if self@.dedup.contains_key(source@) {
                Some(self@.dedup[source@])
            } else {
                None::<u64>
            },
    {
        match self.find_dedup_index(source) {
            Some(i) => {
                let entry = &self.dedup[i];
                proof {
                    lemma_assoc_view_lookup(self.dedup@, i as int);
                }
                Some(entry.1)
            },
            None => {
                proof {
                    lemma_assoc_view_keys::<SequenceNumberSource, u64>(self.dedup@);
                }
                None
            },
        }
    }

    /// Writes the last applied sequence number of a lane, creating the
    /// ledger entry on first sight of the lane.  Nothing ever deletes one.
    pub fn store_dedup_seq_number(&mut self, source: SequenceNumberSource, seq_number: u64)
        requires
            old(self).wf(),
        ensures
            final(self).wf(),
            final(self)@.dedup == old(self)@.dedup.insert(source@, seq_number),
            final(self)@.state == old(self)@.state,
    {
        match self.find_dedup_index(&source) {
            Some(i) => {
                proof {
                    lemma_assoc_view_update(self.dedup@, i as int, (source, seq_number));
                }
                self.dedup[i] = (source, seq_number);
            },
            None => {
                proof {
                    lemma_assoc_view_push(self.dedup@, (source, seq_number));
                    let t = self.dedup@.push((source, seq_number));
                    assert forall|m: int, n: int| 0 <= m < n < t.len() implies #[trigger] t[m].0@
                        != #[trigger] t[n].0@ by {
                        if n < t.len() - 1 {
                            assert(t[m] == self.dedup@[m] && t[n] == self.dedup@[n]);
                        } else {
                            assert(t[m] == self.dedup@[m] && t[n] == (source, seq_number));
                        }
                    }
                }
                self.dedup.push((source, seq_number));
            },
        }
    }

    /// Index of the first state entry whose key is not below `key`; entries
    /// before it are strictly below.
    fn find_state_slot(&self, key: &Vec<u8>) -> (i: usize)
        requires
            self.wf(),
        ensures
            i <= self.state@.len(),
            forall|j: int| 0 <= j < i ==> lex_lt(#[trigger] self.state@[j].0@, key@),
            i < self.state@.len() ==> !lex_lt(self.state@[i as int].0@, key@),
    {
        let mut i: usize = 0;
        while i < self.state.len()
            invariant
                i <= self.state@.len(),
                forall|j: int| 0 <= j < i ==> lex_lt(#[trigger] self.state@[j].0@, key@),
            decreases self.state@.len() - i,
        {
            let entry = &self.state[i];
            if !bytes_lex_lt(&entry.0, key) {
                return i;
            }
            i = i + 1;
        }
        i
    }

    /// Point read of the state table by key bytes.
    pub fn get_kv(&self, key: &Vec<u8>) -> (r: Option<Vec<u8>>)
        requires
            self.wf(),
        ensures
            self@.state.contains_key(key@) ==> (r matches Some(v) && v@ == self@.state[key@]),
            !self@.state.contains_key(key@) ==> r is None,
    {
        let i = self.find_state_slot(key);
        proof {
            lemma_sorted_distinct(self.state@);
            lemma_assoc_view_keys::<Vec<u8>, Vec<u8>>(self.state@);
        }
        if i < self.state.len() {
            let entry = &self.state[i];
            if bytes_eq(&entry.0, key) {
                proof {
                    lemma_assoc_view_lookup(self.state@, i as int);
                }
                return Some(crate::codec::copy_bytes(&entry.1));
            }
            proof {
                assert forall|j: int| 0 <= j < self.state@.len() implies #[trigger] self.state@[
                    j
                ].0@ != key@ by {
                    if j < i {
                        lemma_lex_trichotomy(self.state@[j].0@, key@);
                    } else if j == i {
                    } else {
                        lemma_lex_trichotomy(self.state@[i as int].0@, key@);
                        lemma_lex_transitive(key@, self.state@[i as int].0@, self.state@[j].0@);
                        lemma_lex_trichotomy(key@, self.state@[j].0@);
                    }
                }
            }
            return None;
        }
        proof {
            assert forall|j: int| 0 <= j < self.state@.len() implies #[trigger] self.state@[j].0@
                != key@ by {
                lemma_lex_trichotomy(self.state@[j].0@, key@);
            }
        }
        None
    }

    /// Point write of the state table by key bytes.
    pub fn put_kv(&mut self, key: Vec<u8>, value: Vec<u8>)
        requires
            old(self).wf(),
        ensures
            final(self).wf(),
            final(self)@.state == old(self)@.state.insert(key@, value@),
            final(self)@.dedup == old(self)@.dedup,
    {
        let i = self.find_state_slot(&key);
        proof {
            lemma_sorted_distinct(self.state@);
        }
        if i < self.state.len() {
            let same = bytes_eq(&self.state[i].0, &key);
            if same {
                proof {
                    lemma_assoc_view_update(self.state@, i as int, (key, value));
                    let t = self.state@.update(i as int, (key, value));
                    assert forall|m: int, n: int| 0 <= m < n < t.len() implies lex_lt(
                        #[trigger] t[m].0@,
                        #[trigger] t[n].0@,
                    ) by {
                        assert(t[m].0@ == self.state@[m].0@ && t[n].0@ == self.state@[n].0@);
                    }
                }
                self.state[i] = (key, value);
                return;
            }
            proof {
                lemma_lex_trichotomy(self.state@[i as int].0@, key@);
                assert(lex_lt(key@, self.state@[i as int].0@));
                assert forall|j: int| 0 <= j < self.state@.len() implies #[trigger] self.state@[
                    j
                ].0@ != key@ by {
                    if j < i {
                        lemma_lex_trichotomy(self.state@[j].0@, key@);
                    } else if j > i {
                        lemma_lex_transitive(key@, self.state@[i as int].0@, self.state@[j].0@);
                        lemma_lex_trichotomy(key@, self.state@[j].0@);
                    } else {
                        lemma_lex_trichotomy(key@, self.state@[j].0@);
                    }
                }
                lemma_assoc_view_insert_at(self.state@, i as int, (key, value));
                let t = self.state@.insert(i as int, (key, value));
                assert forall|m: int, n: int| 0 <= m < n < t.len() implies lex_lt(
                    #[trigger] t[m].0@,
                    #[trigger] t[n].0@,
                ) by {
                    if m < i && n < i {
                        assert(t[m] == self.state@[m] && t[n] == self.state@[n]);
                    } else if m < i && n == i {
                        assert(t[m] == self.state@[m] && t[n].0@ == key@);
                    } else if m < i && n > i {
                        assert(t[m] == self.state@[m] && t[n] == self.state@[n - 1]);
                    } else if m == i {
                        assert(t[m].0@ == key@ && t[n] == self.state@[n - 1]);
                        if n - 1 > i {
                            lemma_lex_transitive(
                                key@,
                                self.state@[i as int].0@,
                                self.state@[n - 1].0@,
                            );
                        }
                    } else {
                        assert(t[m] == self.state@[m - 1] && t[n] == self.state@[n - 1]);
                    }
                }
            }
            self.state.insert(i, (key, value));
            return;
        }
        proof {
            lemma_assoc_view_push(self.state@, (key, value));
            let t = self.state@.push((key, value));
            assert forall|m: int, n: int| 0 <= m < n < t.len() implies lex_lt(
                #[trigger] t[m].0@,
                #[trigger] t[n].0@,
            ) by {
                if n < t.len() - 1 {
                    assert(t[m] == self.state@[m] && t[n] == self.state@[n]);
                } else {
                    assert(t[n].0@ == key@);
                    if m < t.len() - 1 {
                        assert(t[m] == self.state@[m]);
                    }
                }
            }
        }
        self.state.push((key, value));
    }

    /// Point delete of the state table by key bytes; deleting an absent key
    /// changes nothing.
    pub fn delete_kv(&mut self, key: &Vec<u8>)
        requires
            old(self).wf(),
        ensures
            final(self).wf(),
            final(self)@.state == old(self)@.state.remove(key@),
            final(self)@.dedup == old(self)@.dedup,
    {
        let i = self.find_state_slot(key);
        proof {
            lemma_sorted_distinct(self.state@);
            lemma_assoc_view_keys::<Vec<u8>, Vec<u8>>(self.state@);
        }
        if i < self.state.len() {
            let same = bytes_eq(&self.state[i].0, key);
            if same {
                proof {
                    lemma_assoc_view_remove(self.state@, i as int);
                    let t = self.state@.remove(i as int);
                    assert forall|m: int, n: int| 0 <= m < n < t.len() implies lex_lt(
                        #[trigger] t[m].0@,
                        #[trigger] t[n].0@,
                    ) by {
                        if m < i && n < i {
                            assert(t[m] == self.state@[m] && t[n] == self.state@[n]);
                        } else if m < i {
                            assert(t[m] == self.state@[m] && t[n] == self.state@[n + 1]);
                        } else {
                            assert(t[m] == self.state@[m + 1] && t[n] == self.state@[n + 1]);
                        }
                    }
                }
                self.state.remove(i);
                return;
            }
            proof {
                assert forall|j: int| 0 <= j < self.state@.len() implies #[trigger] self.state@[
                    j
                ].0@ != key@ by {
                    if j < i {
                        lemma_lex_trichotomy(self.state@[j].0@, key@);
                    } else if j > i {
                        lemma_lex_trichotomy(self.state@[i as int].0@, key@);
                        lemma_lex_transitive(key@, self.state@[i as int].0@, self.state@[j].0@);
                        lemma_lex_trichotomy(key@, self.state@[j].0@);
                    } else {
                        lemma_lex_trichotomy(self.state@[i as int].0@, key@);
                        lemma_lex_trichotomy(key@, self.state@[j].0@);
                    }
                }
                assert(!self@.state.contains_key(key@));
                assert(self@.state.remove(key@) =~= self@.state);
            }
            return;
        }
        proof {
            assert forall|j: int| 0 <= j < self.state@.len() implies #[trigger] self.state@[j].0@
                != key@ by {
                lemma_lex_trichotomy(self.state@[j].0@, key@);
            }
            assert(!self@.state.contains_key(key@));
            assert(self@.state.remove(key@) =~= self@.state);
        }
    }

    /// Ordered prefix scan of the state table: every stored pair whose key
    /// starts with `prefix`, exactly once each, strictly in byte-lexicographic
    /// key order.
    pub fn scan_prefix(&self, prefix: &Vec<u8>) -> (r: Vec<(Vec<u8>, Vec<u8>)>)
        requires
            self.wf(),
        ensures
            forall|i: int|
                0 <= i < r@.len() ==> has_prefix(#[trigger] r@[i].0@, prefix@)
                    && self@.state.contains_pair(r@[i].0@, r@[i].1@),
            forall|k: Seq<u8>|
                #[trigger] self@.state.contains_key(k) && has_prefix(k, prefix@) ==> exists|i: int|
                    0 <= i < r@.len() && #[trigger] r@[i].0@ == k,
            forall|i: int, j: int| 0 <= i < j < r@.len() ==> lex_lt(r@[i].0@, r@[j].0@),
    {
        proof {
            lemma_sorted_distinct(self.state@);
            lemma_assoc_view_keys::<Vec<u8>, Vec<u8>>(self.state@);
        }
        let mut out: Vec<(Vec<u8>, Vec<u8>)> = Vec::new();
        let ghost mut srcs: Seq<int> = Seq::empty();
        let n: usize = self.state.len();
        let mut t: usize = 0;
        while t < n
            invariant
                t <= n,
                n == self.state@.len(),
                self.wf(),
                srcs.len() == out@.len(),
                forall|i: int| 0 <= i < out@.len() ==> 0 <= #[trigger] srcs[i] < t,
                forall|i: int|
                    0 <= i < out@.len() ==> (#[trigger] out@[i]).0@ == self.state@[srcs[i]].0@
                        && out@[i].1@ == self.state@[srcs[i]].1@ && has_prefix(
                        out@[i].0@,
                        prefix@,
                    ),
                forall|i: int, j: int| 0 <= i < j < out@.len() ==> srcs[i] < srcs[j],
                forall|u: int|
                    0 <= u < t && has_prefix(#[trigger] self.state@[u].0@, prefix@)
                        ==> exists|i: int| 0 <= i < out@.len() && #[trigger] srcs[i] == u,
            decreases n - t,
        {
            let entry = &self.state[t];
            if bytes_has_prefix(&entry.0, prefix) {
                let ghost old_srcs = srcs;
                out.push(
                    (crate::codec::copy_bytes(&entry.0), crate::codec::copy_bytes(&entry.1)),
                );
                proof {
                    srcs = srcs.push(t as int);
                    assert(srcs[out@.len() - 1] == t as int);
                    assert forall|i: int, j: int| 0 <= i < j < out@.len() implies srcs[i]
                        < srcs[j] by {
                        if j < out@.len() - 1 {
                            assert(srcs[i] == old_srcs[i] && srcs[j] == old_srcs[j]);
                        } else {
                            assert(srcs[i] == old_srcs[i] && srcs[j] == t as int);
                        }
                    }
                    assert forall|u: int|
                        0 <= u < t + 1 && has_prefix(
                            #[trigger] self.state@[u].0@,
                            prefix@,
                        ) implies exists|i: int| 0 <= i < out@.len() && #[trigger] srcs[i]
                        == u by {
                        if u == t {
                            assert(srcs[out@.len() - 1] == u);
                        } else {
                            let i = choose|i: int|
                                0 <= i < old_srcs.len() && #[trigger] old_srcs[i] == u;
                            assert(srcs[i] == u);
                        }
                    }
                }
            }
            t = t + 1;
        }
        proof {
            assert forall|i: int| 0 <= i < out@.len() implies has_prefix(
                #[trigger] out@[i].0@,
                prefix@,
            ) && self@.state.contains_pair(out@[i].0@, out@[i].1@) by {
                lemma_assoc_view_lookup(self.state@, srcs[i]);
            }
            assert forall|k: Seq<u8>|
                #[trigger] self@.state.contains_key(k) && has_prefix(k, prefix@) implies exists|
                i: int,
            | 0 <= i < out@.len() && #[trigger] out@[i].0@ == k by {
                let u = choose|u: int| 0 <= u < self.state@.len() && #[trigger] self.state@[u].0@
                    == k;
                let i = choose|i: int| 0 <= i < out@.len() && #[trigger] srcs[i] == u;
                assert(out@[i].0@ == k);
            }
        }
        out
    }

    /// Persists a value under one of the service instance's state keys.
    pub fn put_user_state(
        &mut self,
        service_id: &ServiceId,
        state_key: &[u8],
        state_value: &[u8],
    )
        requires
            old(self).wf(),
        ensures
            final(self).wf(),
            final(self)@.state == old(self)@.state.insert(
                state_key_bytes(
                    service_id.partition_key,
                    service_id.service_name@,
                    service_id.key@,
                    state_key@,
                ),
                state_value@,
            ),
            final(self)@.dedup == old(self)@.dedup,
    {
        let k = write_state_entry_key(service_id, state_key).serialize();
        self.put_kv(k, vstd::slice::slice_to_vec(state_value));
    }

    /// Reads a value of one of the service instance's state keys.
    pub fn get_user_state(&self, service_id: &ServiceId, state_key: &[u8]) -> (r: Option<Vec<u8>>)
        requires
            self.wf(),
        ensures
            ({
                let k = state_key_bytes(
                    service_id.partition_key,
                    service_id.service_name@,
                    service_id.key@,
                    state_key@,
                );
                &&& self@.state.contains_key(k) ==> (r matches Some(v) && v@ == self@.state[k])
                &&& !self@.state.contains_key(k) ==> r is None
            }),
    {
        let k = write_state_entry_key(service_id, state_key).serialize();
        self.get_kv(&k)
    }

    /// Deletes one of the service instance's state keys.
    pub fn delete_user_state(&mut self, service_id: &ServiceId, state_key: &[u8])
        requires
            old(self).wf(),
        ensures
            final(self).wf(),
            final(self)@.state == old(self)@.state.remove(
                state_key_bytes(
                    service_id.partition_key,
                    service_id.service_name@,
                    service_id.key@,
                    state_key@,
                ),
            ),
            final(self)@.dedup == old(self)@.dedup,
    {
        let k = write_state_entry_key(service_id, state_key).serialize();
        self.delete_kv(&k)
    }

    /// All user state of one service instance, as (state key, value) pairs:
    /// every pair the instance holds, exactly once each.  Stored keys under
    /// the instance's prefix that are no state-entry encoding are refused;
    /// where every such key is well formed, the read succeeds.
    #[verifier::rlimit(60)]
    pub fn get_all_user_states(&self, service_id: &ServiceId) -> (r: Result<
        Vec<(Vec<u8>, Vec<u8>)>,
        StateKeyError,
    >)
        requires
            self.wf(),
        ensures
            ({
                let pk = service_id.partition_key;
                let name = service_id.service_name@;
                let skey = service_id.key@;
                &&& (r matches Ok(rows) ==> {
                    &&& forall|i: int|
                        0 <= i < rows@.len() ==> self@.state.contains_pair(
                            state_key_bytes(pk, name, skey, (#[trigger] rows@[i]).0@),
                            rows@[i].1@,
                        )
                    &&& forall|stk: Seq<u8>, v: Seq<u8>|
                        #[trigger] self@.state.contains_pair(
                            state_key_bytes(pk, name, skey, stk),
                            v,
                        ) ==> exists|i: int|
                            0 <= i < rows@.len() && (#[trigger] rows@[i]).0@ == stk && rows@[i].1@
                                == v
                    &&& forall|i: int, j: int|
                        0 <= i < j < rows@.len() ==> lex_lt(
                            state_key_bytes(pk, name, skey, (#[trigger] rows@[i]).0@),
                            state_key_bytes(pk, name, skey, (#[trigger] rows@[j]).0@),
                        )
                })
                &&& ((forall|k: Seq<u8>|
                    #[trigger] self@.state.contains_key(k) && has_prefix(
                        k,
                        state_prefix_bytes(pk, name, skey),
                    ) ==> exists|stk: Seq<u8>| k == #[trigger] state_key_bytes(
                        pk,
                        name,
                        skey,
                    stk)) ==> r is Ok)
            }),
    {
        let prefix = write_state_prefix(service_id);
        let plen: usize = prefix.len();
        let scanned = self.scan_prefix(&prefix);
        let mut rows: Vec<(Vec<u8>, Vec<u8>)> = Vec::new();
        let n: usize = scanned.len();
        let mut t: usize = 0;
        while t < n
            invariant
                t <= n,
                n == scanned@.len(),
                rows@.len() == t,
                prefix@ == state_prefix_bytes(service_id.partition_key, service_id.service_name@, service_id.key@),
                plen == prefix@.len(),
                forall|i: int|
                    0 <= i < scanned@.len() ==> has_prefix(#[trigger] scanned@[i].0@, prefix@)
                        && self@.state.contains_pair(scanned@[i].0@, scanned@[i].1@),
                forall|i: int|
                    0 <= i < t ==> (#[trigger] scanned@[i]).0@ == state_key_bytes(
                            service_id.partition_key,
                            service_id.service_name@,
                            service_id.key@,
                        rows@[i].0@,
                    ) && rows@[i].1@ == scanned@[i].1@,
            decreases n - t,
        {
            let entry = &scanned[t];
            match parse_state_key(entry.0.as_slice()) {
                Ok(parts) => {
                    let nb_len: usize = parts.service_name.len();
                    let sk_len: usize = parts.service_key.len();
                    let stk_len: usize = parts.state_key.len();
                    proof {
                        assert(prefix@.len() == 24 + vstd::utf8::encode_utf8(service_id.service_name@).len()
                            + service_id.key@.len());
                        assert(prefix@.len() <= usize::MAX);
                        assert(vstd::utf8::encode_utf8(service_id.service_name@).len() <= u64::MAX && service_id.key@.len()
                            <= u64::MAX);
                        assert(parts.service_name@.len() <= u64::MAX && parts.service_key@.len()
                            <= u64::MAX && parts.state_key@.len() <= u64::MAX);
                        assert(has_prefix(entry.0@, state_prefix_bytes(service_id.partition_key, service_id.service_name@, service_id.key@)));
                        lemma_prefixed_encoding_components(
                            entry.0@,
                            service_id.partition_key,
                            service_id.service_name@,
                            service_id.key@,
                            parts.partition_key,
                            parts.service_name@,
                            parts.service_key@,
                            parts.state_key@,
                        );
                    }
                    rows.push((parts.state_key, crate::codec::copy_bytes(&entry.1)));
                },
                Err(e) => {
                    proof {
                        let k = entry.0@;
                        assert forall|stk: Seq<u8>| k != #[trigger] state_key_bytes(
                            service_id.partition_key,
                            service_id.service_name@,
                            service_id.key@,
                            stk,
                        ) by {
                            if k == state_key_bytes(
                            service_id.partition_key,
                            service_id.service_name@,
                            service_id.key@, stk) {
                                assert(is_state_key_encoding(
                                    k,
                                    service_id.partition_key,
                                    vstd::utf8::encode_utf8(service_id.service_name@),
                                    service_id.key@,
                                    stk,
                                ));
                            }
                        }
                        assert(self@.state.contains_key(k) && has_prefix(
                            k,
                            state_prefix_bytes(service_id.partition_key, service_id.service_name@, service_id.key@),
                        ));
                        if forall|k2: Seq<u8>|
                            #[trigger] self@.state.contains_key(k2) && has_prefix(
                                k2,
                                state_prefix_bytes(service_id.partition_key, service_id.service_name@, service_id.key@),
                            ) ==> exists|stk: Seq<u8>| k2 == #[trigger] state_key_bytes(
                            service_id.partition_key,
                            service_id.service_name@,
                            service_id.key@,
                                stk,
                            ) {
                            let stk0 = choose|stk: Seq<u8>| k == state_key_bytes(
                            service_id.partition_key,
                            service_id.service_name@,
                            service_id.key@,
                                stk,
                            );
                            assert(k != state_key_bytes(
                            service_id.partition_key,
                            service_id.service_name@,
                            service_id.key@, stk0));
                            assert(false);
                        }
                    }
                    return Err(e);
                },
            }
            t = t + 1;
        }
        let r: Result<Vec<(Vec<u8>, Vec<u8>)>, StateKeyError> = Ok(rows);
        proof {
            let rows_v = r->Ok_0;
            assert forall|i: int| 0 <= i < rows_v@.len() implies self@.state.contains_pair(
                state_key_bytes(
                            service_id.partition_key,
                            service_id.service_name@,
                            service_id.key@, (#[trigger] rows_v@[i]).0@),
                rows_v@[i].1@,
            ) by {
                assert(scanned@[i].0@ == state_key_bytes(
                            service_id.partition_key,
                            service_id.service_name@,
                            service_id.key@, rows_v@[i].0@));
                assert(self@.state.contains_pair(scanned@[i].0@, scanned@[i].1@));
            }
            assert forall|stk: Seq<u8>, v: Seq<u8>|
                #[trigger] self@.state.contains_pair(
                    state_key_bytes(
                            service_id.partition_key,
                            service_id.service_name@,
                            service_id.key@, stk),
                    v,
                ) implies exists|i: int|
                0 <= i < rows_v@.len() && (#[trigger] rows_v@[i]).0@ == stk && rows_v@[i].1@
                    == v by {
                let full = state_key_bytes(
                            service_id.partition_key,
                            service_id.service_name@,
                            service_id.key@, stk);
                lemma_state_key_splits(service_id.partition_key, service_id.service_name@, service_id.key@, stk);
                assert(self@.state.contains_key(full));
                let i = choose|i: int| 0 <= i < scanned@.len() && #[trigger] scanned@[i].0@
                    == full;
                lemma_state_key_bytes_stk_injective(service_id.partition_key, service_id.service_name@, service_id.key@, rows_v@[i].0@, stk);
                assert(rows_v@[i].1@ == v);
            }
            assert forall|i: int, j: int| 0 <= i < j < rows_v@.len() implies lex_lt(
                state_key_bytes(
                    service_id.partition_key,
                    service_id.service_name@,
                    service_id.key@,
                    (#[trigger] rows_v@[i]).0@,
                ),
                state_key_bytes(
                    service_id.partition_key,
                    service_id.service_name@,
                    service_id.key@,
                    (#[trigger] rows_v@[j]).0@,
                ),
            ) by {
                assert(scanned@[i].0@ == state_key_bytes(
                    service_id.partition_key,
                    service_id.service_name@,
                    service_id.key@,
                    rows_v@[i].0@,
                ));
                assert(scanned@[j].0@ == state_key_bytes(
                    service_id.partition_key,
                    service_id.service_name@,
                    service_id.key@,
                    rows_v@[j].0@,
                ));
                assert(lex_lt(scanned@[i].0@, scanned@[j].0@));
            }
        }
        r
    }
}

} // verus!
