//! Byte layout of user-state keys in the partition's state table.
//!
//! A state entry key is the 8 big-endian bytes of the partition key, then the
//! service name, the service key and the user state key, each preceded by its
//! 8-byte big-endian length.  The partition key comes first so a scan can be
//! restricted to a partition-key range; within one service instance the
//! length-prefixed layout keeps keys of the same instance adjacent.

use vstd::prelude::*;
use vstd::string::*;

use crate::codec::{append_bytes, push_u64_be, read_u64_be, u64_be_bytes, u64_from_be};
use crate::identifiers::ServiceId;

verus! {

/// The state-entry encoding of the given components: the partition key, then
/// each variable component behind its 8-byte big-endian length.
pub open spec fn raw_state_key_bytes(
    partition_key: u64,
    name_bytes: Seq<u8>,
    service_key: Seq<u8>,
    state_key: Seq<u8>,
) -> Seq<u8> {
    u64_be_bytes(partition_key) + u64_be_bytes(name_bytes.len() as u64) + name_bytes
        + u64_be_bytes(service_key.len() as u64) + service_key + u64_be_bytes(
        state_key.len() as u64,
    ) + state_key
}

/// Whether `b` is the state-entry encoding of the given components.
pub open spec fn is_state_key_encoding(
    b: Seq<u8>,
    partition_key: u64,
    name_bytes: Seq<u8>,
    service_key: Seq<u8>,
    state_key: Seq<u8>,
) -> bool {
    b == raw_state_key_bytes(partition_key, name_bytes, service_key, state_key)
}

/// The state-entry key bytes for a service instance, with the service name
/// as its UTF-8 bytes.
pub open spec fn state_key_bytes(
    partition_key: u64,
    service_name: Seq<char>,
    service_key: Seq<u8>,
    state_key: Seq<u8>,
) -> Seq<u8> {
    u64_be_bytes(partition_key) + u64_be_bytes(
        vstd::utf8::encode_utf8(service_name).len() as u64,
    ) + vstd::utf8::encode_utf8(service_name) + u64_be_bytes(service_key.len() as u64)
        + service_key + u64_be_bytes(state_key.len() as u64) + state_key
}

/// The serialized prefix shared by every state entry of one service
/// instance: everything of the entry key up to the user state key.
pub open spec fn state_prefix_bytes(
    partition_key: u64,
    service_name: Seq<char>,
    service_key: Seq<u8>,
) -> Seq<u8> {
    u64_be_bytes(partition_key) + u64_be_bytes(
        vstd::utf8::encode_utf8(service_name).len() as u64,
    ) + vstd::utf8::encode_utf8(service_name) + u64_be_bytes(service_key.len() as u64)
        + service_key
}

/// A state-entry key is the instance prefix, then the length-prefixed user
/// state key; in particular it starts with the instance prefix.
pub proof fn lemma_state_key_splits(
    partition_key: u64,
    service_name: Seq<char>,
    service_key: Seq<u8>,
    state_key: Seq<u8>,
)
    ensures
        state_key_bytes(partition_key, service_name, service_key, state_key) == state_prefix_bytes(
            partition_key,
            service_name,
            service_key,
        ) + u64_be_bytes(state_key.len() as u64) + state_key,
        crate::storage::has_prefix(
            state_key_bytes(partition_key, service_name, service_key, state_key),
            state_prefix_bytes(partition_key, service_name, service_key),
        ),
{
    let full = state_key_bytes(partition_key, service_name, service_key, state_key);
    let prefix = state_prefix_bytes(partition_key, service_name, service_key);
    assert(full =~= prefix + u64_be_bytes(state_key.len() as u64) + state_key);
    assert(full.subrange(0, prefix.len() as int) =~= prefix);
}

/// A state-table key before serialization.
#[derive(Debug, Clone, PartialEq, Eq)]
pub struct StateKey {
    /// Routing hash of the service key.
    pub partition_key: u64,
    /// Name of the service.
    pub service_name: String,
    /// Key of the service instance.
    pub service_key: Vec<u8>,
    /// The user state key within the instance.
    pub state_key: Vec<u8>,
}

/// Raised when state-table bytes do not parse as a state-entry key.
#[derive(Debug, Clone, Copy, PartialEq, Eq, Structural)]
pub enum StateKeyError {
    /// The bytes are not a state-entry encoding.
    DataIntegrity,
}

impl StateKey {
    /// The serialized form of this key.
    pub fn serialize(&self) -> (r: Vec<u8>)
        ensures
            r@ == state_key_bytes(
                self.partition_key,
                self.service_name@,
                self.service_key@,
                self.state_key@,
            ),
            is_state_key_encoding(
                r@,
                self.partition_key,
                vstd::utf8::encode_utf8(self.service_name@),
                self.service_key@,
                self.state_key@,
            ),
    {
        let mut out: Vec<u8> = Vec::new();
        push_u64_be(&mut out, self.partition_key);
        let name_bytes: &[u8] = self.service_name.as_str().as_bytes();
        push_u64_be(&mut out, name_bytes.len() as u64);
        append_bytes(&mut out, name_bytes);
        push_u64_be(&mut out, self.service_key.len() as u64);
        append_bytes(&mut out, self.service_key.as_slice());
        push_u64_be(&mut out, self.state_key.len() as u64);
        append_bytes(&mut out, self.state_key.as_slice());
        proof {
            assert(out@ =~= state_key_bytes(
                self.partition_key,
                self.service_name@,
                self.service_key@,
                self.state_key@,
            ));
        }
        out
    }
}

/// The serialized prefix shared by every state entry of a service instance.
pub fn write_state_prefix(service_id: &ServiceId) -> (r: Vec<u8>)
    ensures
        r@ == state_prefix_bytes(
            service_id.partition_key,
            service_id.service_name@,
            service_id.key@,
        ),
{
    let mut out: Vec<u8> = Vec::new();
    push_u64_be(&mut out, service_id.partition_key);
    let name_bytes: &[u8] = service_id.service_name.as_str().as_bytes();
    push_u64_be(&mut out, name_bytes.len() as u64);
    append_bytes(&mut out, name_bytes);
    push_u64_be(&mut out, service_id.key.len() as u64);
    append_bytes(&mut out, service_id.key.as_slice());
    proof {
        assert(out@ =~= state_prefix_bytes(
            service_id.partition_key,
            service_id.service_name@,
            service_id.key@,
        ));
    }
    out
}

/// The state-entry key for one user state key of a service instance.
pub fn write_state_entry_key(service_id: &ServiceId, state_key: &[u8]) -> (r: StateKey)
    ensures
        r.partition_key == service_id.partition_key,
        r.service_name@ == service_id.service_name@,
        r.service_key@ == service_id.key@,
        r.state_key@ == state_key@,
{
    StateKey {
        partition_key: service_id.partition_key,
        service_name: service_id.service_name.clone(),
        service_key: crate::codec::copy_bytes(&service_id.key),
        state_key: vstd::slice::slice_to_vec(state_key),
    }
}

/// The components of a parsed state-entry key, the service name as its
/// UTF-8 bytes.
#[derive(Debug, Clone, PartialEq, Eq)]
pub struct StateKeyParts {
    /// Routing hash of the service key.
    pub partition_key: u64,
    /// UTF-8 bytes of the service name.
    pub service_name: Vec<u8>,
    /// Key of the service instance.
    pub service_key: Vec<u8>,
    /// The user state key within the instance.
    pub state_key: Vec<u8>,
}

/// Parses serialized state-entry bytes into their components; bytes that are
/// no such encoding are refused.
#[verifier::rlimit(60)]
pub fn parse_state_key(key: &[u8]) -> (r: Result<StateKeyParts, StateKeyError>)
    ensures
        forall|pk: u64, nb: Seq<u8>, sk: Seq<u8>, stk: Seq<u8>|
            is_state_key_encoding(key@, pk, nb, sk, stk) ==> (r matches Ok(p) && p.partition_key
                == pk && p.service_name@ == nb && p.service_key@ == sk && p.state_key@ == stk),
        r is Ok ==> is_state_key_encoding(
            key@,
            r->Ok_0.partition_key,
            r->Ok_0.service_name@,
            r->Ok_0.service_key@,
            r->Ok_0.state_key@,
        ),
{
    let len: usize = key.len();
    if len < 16 {
        proof {
            lemma_encoding_bounds(key@);
        }
        return Err(StateKeyError::DataIntegrity);
    }
    let n1 = read_u64_be(key, 8);
    if n1 > (len - 16) as u64 {
        proof {
            lemma_encoding_reads(key@);
        }
        return Err(StateKeyError::DataIntegrity);
    }
    let n1s = n1 as usize;
    let pos1: usize = 16 + n1s;
    if len - pos1 < 8 {
        proof {
            lemma_encoding_reads(key@);
        }
        return Err(StateKeyError::DataIntegrity);
    }
    let n2 = read_u64_be(key, pos1);
    if n2 > (len - pos1 - 8) as u64 {
        proof {
            lemma_encoding_reads(key@);
        }
        return Err(StateKeyError::DataIntegrity);
    }
    let n2s = n2 as usize;
    let pos2: usize = pos1 + 8 + n2s;
    if len - pos2 < 8 {
        proof {
            lemma_encoding_reads(key@);
        }
        return Err(StateKeyError::DataIntegrity);
    }
    let n3 = read_u64_be(key, pos2);
    if n3 != (len - pos2 - 8) as u64 {
        proof {
            lemma_encoding_reads(key@);
        }
        return Err(StateKeyError::DataIntegrity);
    }
    let partition_key = read_u64_be(key, 0);
    let parts = StateKeyParts {
        partition_key,
        service_name: vstd::slice::slice_to_vec(vstd::slice::slice_subrange(key, 16, pos1)),
        service_key: vstd::slice::slice_to_vec(
            vstd::slice::slice_subrange(key, pos1 + 8, pos2),
        ),
        state_key: vstd::slice::slice_to_vec(vstd::slice::slice_subrange(key, pos2 + 8, len)),
    };
    let r: Result<StateKeyParts, StateKeyError> = Ok(parts);
    proof {
        let pk = u64_from_be(key@.subrange(0, 8));
        let nb = key@.subrange(16, pos1 as int);
        let sk = key@.subrange(pos1 + 8, pos2 as int);
        let stk = key@.subrange(pos2 + 8, len as int);
        crate::codec::lemma_u64_be_bytes_of_from(key@.subrange(0, 8));
        assert(u64_be_bytes(nb.len() as u64) =~= key@.subrange(8, 16)) by {
            assert(nb.len() == n1);
            crate::codec::lemma_u64_be_bytes_of_from(key@.subrange(8, 16));
        }
        assert(u64_be_bytes(sk.len() as u64) =~= key@.subrange(pos1 as int, pos1 + 8)) by {
            assert(sk.len() == n2);
            crate::codec::lemma_u64_be_bytes_of_from(key@.subrange(pos1 as int, pos1 + 8));
        }
        assert(u64_be_bytes(stk.len() as u64) =~= key@.subrange(pos2 as int, pos2 + 8)) by {
            assert(stk.len() == n3);
            crate::codec::lemma_u64_be_bytes_of_from(key@.subrange(pos2 as int, pos2 + 8));
        }
        assert(key@ =~= u64_be_bytes(pk) + u64_be_bytes(nb.len() as u64) + nb + u64_be_bytes(
            sk.len() as u64,
        ) + sk + u64_be_bytes(stk.len() as u64) + stk);
        assert(is_state_key_encoding(key@, pk, nb, sk, stk));
        assert(r->Ok_0.partition_key == pk && r->Ok_0.service_name@ == nb && r->Ok_0.service_key@
            == sk && r->Ok_0.state_key@ == stk);
        assert(is_state_key_encoding(
            key@,
            r->Ok_0.partition_key,
            r->Ok_0.service_name@,
            r->Ok_0.service_key@,
            r->Ok_0.state_key@,
        ));
        lemma_encoding_reads(key@);
    }
    r
}

/// Extracts the user state key from serialized state-entry bytes; bytes that
/// are no such encoding are refused.
pub fn user_state_key_from_slice(key: &[u8]) -> (r: Result<Vec<u8>, StateKeyError>)
    ensures
        forall|pk: u64, nb: Seq<u8>, sk: Seq<u8>, stk: Seq<u8>|
            is_state_key_encoding(key@, pk, nb, sk, stk) ==> (r matches Ok(v) && v@ == stk),
        r is Ok ==> exists|pk: u64, nb: Seq<u8>, sk: Seq<u8>|
            #[trigger] is_state_key_encoding(key@, pk, nb, sk, r->Ok_0@),
{
    match parse_state_key(key) {
        Ok(parts) => {
            let r: Result<Vec<u8>, StateKeyError> = Ok(parts.state_key);
            proof {
                assert(is_state_key_encoding(
                    key@,
                    parts.partition_key,
                    parts.service_name@,
                    parts.service_key@,
                    r->Ok_0@,
                ));
                assert(exists|pk: u64, nb: Seq<u8>, sk: Seq<u8>|
                    #[trigger] is_state_key_encoding(key@, pk, nb, sk, r->Ok_0@));
            }
            r
        },
        Err(e) => Err(e),
    }
}

/// An encoding that starts with a service instance's prefix is the state
/// entry of exactly that instance: the decomposition's leading components
/// are the instance's own, and the whole key is the instance's entry for the
/// decomposition's state key.
pub proof fn lemma_prefixed_encoding_components(
    k: Seq<u8>,
    partition_key: u64,
    service_name: Seq<char>,
    service_key: Seq<u8>,
    pk2: u64,
    nb2: Seq<u8>,
    sk2: Seq<u8>,
    stk2: Seq<u8>,
)
    requires
        is_state_key_encoding(k, pk2, nb2, sk2, stk2),
        nb2.len() <= u64::MAX,
        sk2.len() <= u64::MAX,
        stk2.len() <= u64::MAX,
        vstd::utf8::encode_utf8(service_name).len() <= u64::MAX,
        service_key.len() <= u64::MAX,
        crate::storage::has_prefix(
            k,
            state_prefix_bytes(partition_key, service_name, service_key),
        ),
    ensures
        pk2 == partition_key,
        nb2 == vstd::utf8::encode_utf8(service_name),
        sk2 == service_key,
        k == state_key_bytes(partition_key, service_name, service_key, stk2),
{
    lemma_prefixed_leading(
        k,
        partition_key,
        service_name,
        service_key,
        pk2,
        nb2,
        sk2,
        stk2,
    );
    assert(state_key_bytes(partition_key, service_name, service_key, stk2) == u64_be_bytes(pk2)
        + u64_be_bytes(nb2.len() as u64) + nb2 + u64_be_bytes(sk2.len() as u64) + sk2
        + u64_be_bytes(stk2.len() as u64) + stk2);
}

/// A byte range of the prefix reads the same through the longer key.
proof fn lemma_subrange_transfer(k: Seq<u8>, p: Seq<u8>, x: int, y: int)
    requires
        crate::storage::has_prefix(k, p),
        0 <= x <= y <= p.len(),
    ensures
        k.subrange(x, y) == p.subrange(x, y),
{
    assert(k.subrange(x, y) =~= p.subrange(x, y)) by {
        assert forall|i: int| 0 <= i < y - x implies k.subrange(x, y)[i] == p.subrange(
            x,
            y,
        )[i] by {
            assert(k.subrange(0, p.len() as int)[x + i] == p[x + i]);
        }
    }
}

/// The components of an instance prefix sit at their computed offsets.
proof fn lemma_prefix_reads(partition_key: u64, service_name: Seq<char>, service_key: Seq<u8>)
    ensures
        ({
            let nb0 = vstd::utf8::encode_utf8(service_name);
            let p = state_prefix_bytes(partition_key, service_name, service_key);
            let o1 = 16 + nb0.len() as int;
            &&& p.len() == 24 + nb0.len() + service_key.len()
            &&& p.subrange(0, 8) == u64_be_bytes(partition_key)
            &&& p.subrange(8, 16) == u64_be_bytes(nb0.len() as u64)
            &&& p.subrange(16, o1) == nb0
            &&& p.subrange(o1, o1 + 8) == u64_be_bytes(service_key.len() as u64)
            &&& p.subrange(o1 + 8, p.len() as int) == service_key
        }),
{
    let nb0 = vstd::utf8::encode_utf8(service_name);
    let p = state_prefix_bytes(partition_key, service_name, service_key);
    let o1 = 16 + nb0.len() as int;
    assert(p.subrange(0, 8) =~= u64_be_bytes(partition_key));
    assert(p.subrange(8, 16) =~= u64_be_bytes(nb0.len() as u64));
    assert(p.subrange(16, o1) =~= nb0);
    assert(p.subrange(o1, o1 + 8) =~= u64_be_bytes(service_key.len() as u64));
    assert(p.subrange(o1 + 8, p.len() as int) =~= service_key);
}

/// The instance prefix pins the decomposition's leading components.
proof fn lemma_prefixed_leading(
    k: Seq<u8>,
    partition_key: u64,
    service_name: Seq<char>,
    service_key: Seq<u8>,
    pk2: u64,
    nb2: Seq<u8>,
    sk2: Seq<u8>,
    stk2: Seq<u8>,
)
    requires
        is_state_key_encoding(k, pk2, nb2, sk2, stk2),
        nb2.len() <= u64::MAX,
        sk2.len() <= u64::MAX,
        stk2.len() <= u64::MAX,
        vstd::utf8::encode_utf8(service_name).len() <= u64::MAX,
        service_key.len() <= u64::MAX,
        crate::storage::has_prefix(
            k,
            state_prefix_bytes(partition_key, service_name, service_key),
        ),
    ensures
        pk2 == partition_key,
        nb2 == vstd::utf8::encode_utf8(service_name),
        sk2 == service_key,
{
    lemma_encoding_reads(k);
    let nb0 = vstd::utf8::encode_utf8(service_name);
    let p = state_prefix_bytes(partition_key, service_name, service_key);
    let o1 = 16 + nb0.len() as int;
    assert(encoding_facts(k, pk2, nb2, sk2, stk2));
    lemma_prefix_reads(partition_key, service_name, service_key);
    lemma_subrange_transfer(k, p, 0, 8);
    crate::codec::lemma_u64_be_roundtrip(partition_key);
    assert(pk2 == partition_key);
    lemma_subrange_transfer(k, p, 8, 16);
    crate::codec::lemma_u64_be_roundtrip(nb0.len() as u64);
    assert(nb2.len() == nb0.len());
    lemma_subrange_transfer(k, p, 16, o1);
    assert(nb2 == nb0);
    lemma_subrange_transfer(k, p, o1, o1 + 8);
    crate::codec::lemma_u64_be_roundtrip(service_key.len() as u64);
    assert(sk2.len() == service_key.len());
    lemma_subrange_transfer(k, p, o1 + 8, p.len() as int);
    assert(sk2 == service_key);
}

/// Two state entries of one service instance with equal keys name the same
/// user state key.
pub proof fn lemma_state_key_bytes_stk_injective(
    partition_key: u64,
    service_name: Seq<char>,
    service_key: Seq<u8>,
    a: Seq<u8>,
    b: Seq<u8>,
)
    requires
        state_key_bytes(partition_key, service_name, service_key, a) == state_key_bytes(
            partition_key,
            service_name,
            service_key,
            b,
        ),
    ensures
        a == b,
{
    lemma_state_key_splits(partition_key, service_name, service_key, a);
    lemma_state_key_splits(partition_key, service_name, service_key, b);
    let p = state_prefix_bytes(partition_key, service_name, service_key);
    let full = state_key_bytes(partition_key, service_name, service_key, a);
    assert(full.len() == p.len() + 8 + a.len() && full.len() == p.len() + 8 + b.len());
    assert(a.len() == b.len());
    assert(a =~= full.subrange(p.len() + 8 as int, full.len() as int));
    assert(b =~= full.subrange(p.len() + 8 as int, full.len() as int));
}

/// A state-entry encoding is at least 32 bytes long.
proof fn lemma_encoding_bounds(b: Seq<u8>)
    ensures
        forall|pk: u64, nb: Seq<u8>, sk: Seq<u8>, stk: Seq<u8>|
            #[trigger] is_state_key_encoding(b, pk, nb, sk, stk) ==> b.len() == 32 + nb.len()
                + sk.len() + stk.len(),
{
}

/// The offsets at which the components of a state-entry encoding sit, given
/// the lengths of the first two variable components.
pub open spec fn encoding_facts(b: Seq<u8>, pk: u64, nb: Seq<u8>, sk: Seq<u8>, stk: Seq<u8>) -> bool {
    let o1 = 16 + nb.len() as int;
    let o2 = o1 + 8 + sk.len() as int;
    &&& b.len() == 32 + nb.len() + sk.len() + stk.len()
    &&& u64_from_be(b.subrange(0, 8)) == pk
    &&& u64_from_be(b.subrange(8, 16)) == nb.len()
    &&& b.subrange(16, o1) == nb
    &&& u64_from_be(b.subrange(o1, o1 + 8)) == sk.len()
    &&& b.subrange(o1 + 8, o2) == sk
    &&& u64_from_be(b.subrange(o2, o2 + 8)) == stk.len()
    &&& b.subrange(o2 + 8, b.len() as int) == stk
}

/// In a state-entry encoding, the length fields read back the component
/// lengths and the components sit at their computed offsets.
proof fn lemma_encoding_reads(b: Seq<u8>)
    ensures
        forall|pk: u64, nb: Seq<u8>, sk: Seq<u8>, stk: Seq<u8>|
            #[trigger] is_state_key_encoding(b, pk, nb, sk, stk) && nb.len() <= u64::MAX
                && sk.len() <= u64::MAX && stk.len() <= u64::MAX ==> encoding_facts(
                b,
                pk,
                nb,
                sk,
                stk,
            ),
{
    assert forall|pk: u64, nb: Seq<u8>, sk: Seq<u8>, stk: Seq<u8>|
        #[trigger] is_state_key_encoding(b, pk, nb, sk, stk) && nb.len() <= u64::MAX && sk.len()
            <= u64::MAX && stk.len() <= u64::MAX implies encoding_facts(b, pk, nb, sk, stk) by {
        let o1 = 16 + nb.len() as int;
        let o2 = o1 + 8 + sk.len() as int;
        crate::codec::lemma_u64_be_roundtrip(pk);
        assert(b.subrange(0, 8) =~= u64_be_bytes(pk));
        crate::codec::lemma_u64_be_roundtrip(nb.len() as u64);
        crate::codec::lemma_u64_be_roundtrip(sk.len() as u64);
        crate::codec::lemma_u64_be_roundtrip(stk.len() as u64);
        assert(b.subrange(8, 16) =~= u64_be_bytes(nb.len() as u64));
        assert(b.subrange(16, o1) =~= nb);
        assert(b.subrange(o1, o1 + 8) =~= u64_be_bytes(sk.len() as u64));
        assert(b.subrange(o1 + 8, o2) =~= sk);
        assert(b.subrange(o2, o2 + 8) =~= u64_be_bytes(stk.len() as u64));
        assert(b.subrange(o2 + 8, b.len() as int) =~= stk);
    }
}

} // verus!
