//! Layered identity types for service instances and their invocations, with
//! their canonical byte and string encodings.
//!
//! An invocation id carries an 8-byte big-endian partition key followed by the
//! 16 bytes of a time-ordered uuid: 24 bytes in all, so byte-lexicographic
//! order on the encoding matches numeric order on the partition-key prefix.
//! The string form is two fixed-width, padding-free base64url segments (11
//! characters for the partition key, then 22 for the uuid), which lets callers
//! prefix-match on the partition key without decoding.

use vstd::prelude::*;
use vstd::string::*;

use crate::base64url::{b64url_decode, b64url_encode, b64url_of};
use crate::codec::{
    lemma_u128_be_bytes_of_from, lemma_u128_be_roundtrip, lemma_u64_be_bytes_of_from,
    lemma_u64_be_roundtrip, push_u128_be, push_u64_be, read_u128_be, read_u64_be, u128_be_bytes,
    u128_from_be, u64_be_bytes, u64_from_be,
};
use crate::partitioner::{compute_partition_key, partition_hash};
use crate::PartitionKey;

verus! {

/// Trait for data structures that carry a partition key.
pub trait WithPartitionKey {
    /// The partition key the value routes to.
    spec fn spec_partition_key(&self) -> PartitionKey;

    /// Returns the partition key.
    fn partition_key(&self) -> (r: PartitionKey)
        ensures
            r == self.spec_partition_key(),
    ;
}

/// Discriminator for invocation instances: a time-ordered uuid, held as the
/// big-endian reading of its 16 bytes.
#[derive(Eq, Hash, PartialEq, Clone, Copy, Debug, Ord, PartialOrd, Default, Structural)]
pub struct InvocationUuid(pub u128);

#[verifier::external_type_specification]
#[verifier::external_body]
pub struct ExUuidError(uuid::Error);

/// Relies on uuid::Uuid::from_slice, which errs exactly when the slice is not
/// 16 bytes long, and on uuid::Uuid::as_u128, the big-endian reading of the
/// uuid's 16 bytes.
#[verifier::external_body]
fn uuid_value_from_slice(b: &[u8]) -> (r: Result<u128, uuid::Error>)
    ensures
        b@.len() == 16 ==> r is Ok && r->Ok_0 == u128_from_be(b@),
        b@.len() != 16 ==> r is Err,
{
    uuid::Uuid::from_slice(b).map(|u| u.as_u128())
}

/// Relies on uuid::Uuid::now_v7: mints a fresh time-ordered uuid.  The value
/// depends on the clock and on random bits, so only the fixed bits are
/// stated: every minted uuid carries version 7 in the high nibble of its
/// seventh byte and the two-bit variant marker atop its ninth.
#[verifier::external_body]
fn uuid_mint_now_v7() -> (r: u128)
    ensures
        (r >> 76) & 0xf == 7,
        (r >> 62) & 0x3 == 2,
{
    uuid::Uuid::now_v7().as_u128()
}

impl InvocationUuid {
    /// Reads a uuid from its 16 raw bytes; errs on any other length.
    pub fn from_slice(b: &[u8]) -> (r: Result<Self, uuid::Error>)
        ensures
            b@.len() == 16 ==> (r matches Ok(v) && v == (InvocationUuid(u128_from_be(b@)))),
            b@.len() != 16 ==> r is Err,
    {
        match uuid_value_from_slice(b) {
            Ok(v) => Ok(InvocationUuid(v)),
            Err(e) => Err(e),
        }
    }

    /// The 16 raw bytes of the uuid, big-endian.
    pub fn as_bytes(&self) -> (r: Vec<u8>)
        ensures
            r@ == u128_be_bytes(self.0),
            r@.len() == 16,
    {
        let mut out: Vec<u8> = Vec::new();
        push_u128_be(&mut out, self.0);
        proof {
            assert(out@ =~= u128_be_bytes(self.0));
        }
        out
    }

    /// Mints a fresh, time-ordered uuid, carrying the fixed version-7 and
    /// variant bits.
    pub fn now_v7() -> (r: Self)
        ensures
            (r.0 >> 76) & 0xf == 7,
            (r.0 >> 62) & 0x3 == 2,
    {
        InvocationUuid(uuid_mint_now_v7())
    }
}

/// Id of a keyed service instance.
///
/// Services are isolated by key: there cannot be two concurrent invocations
/// for the same (service name, key) pair.
#[derive(Eq, Hash, PartialEq, PartialOrd, Ord, Clone, Debug)]
pub struct ServiceId {
    /// Identifies the service.
    pub service_name: String,
    /// Identifies the service instance for the given service name.
    pub key: Vec<u8>,
    /// Cached routing hash of `key`; `new` computes it, `with_partition_key`
    /// trusts its caller to pass the hash of `key`.
    pub partition_key: PartitionKey,
}

impl ServiceId {
    /// Builds a service id, deriving the partition key from the key bytes.
    pub fn new(service_name: String, key: Vec<u8>) -> (r: ServiceId)
        ensures
            r.service_name == service_name,
            r.key == key,
            r.partition_key == partition_hash(key@),
    {
        let partition_key = compute_partition_key(key.as_slice());
        Self::with_partition_key(partition_key, service_name, key)
    }

    /// Builds a service id from an already-computed partition key.  The
    /// caller must pass the routing hash of `key` for routing to be stable;
    /// nothing here recomputes or checks it.
    pub fn with_partition_key(
        partition_key: PartitionKey,
        service_name: String,
        key: Vec<u8>,
    ) -> (r: ServiceId)
        ensures
            r == (ServiceId { service_name, key, partition_key }),
    {
        ServiceId { service_name, key, partition_key }
    }
}

impl WithPartitionKey for ServiceId {
    open spec fn spec_partition_key(&self) -> PartitionKey {
        self.partition_key
    }

    fn partition_key(&self) -> (r: PartitionKey)
        ensures
            r == self.spec_partition_key(),
    {
        self.partition_key
    }
}

/// Unique identifier of an invocation, carrying enough routing information to
/// reach the owning partition.
#[derive(Eq, Hash, PartialEq, Clone, Copy, Debug, Structural)]
pub struct InvocationId {
    /// Partition key of the called service instance.
    pub partition_key: PartitionKey,
    /// Uniquely identifies this invocation instance.
    pub invocation_uuid: InvocationUuid,
}

/// The canonical 24-byte encoding: 8 big-endian partition-key bytes, then the
/// 16 uuid bytes.
pub open spec fn encoded_invocation_id(partition_key: u64, uuid: u128) -> Seq<u8> {
    u64_be_bytes(partition_key) + u128_be_bytes(uuid)
}

/// The canonical string encoding, over the string's UTF-8 bytes: the
/// base64url segment of the partition-key bytes (11 bytes), then the segment
/// of the uuid bytes (22 bytes).
pub open spec fn is_invocation_id_string(s: Seq<u8>, partition_key: u64, uuid: u128) -> bool {
    &&& s.len() == 33
    &&& s.subrange(0, 11) == b64url_of(u64_be_bytes(partition_key))
    &&& s.subrange(11, 33) == b64url_of(u128_be_bytes(uuid))
}

/// UTF-8 encoding distributes over concatenation.
proof fn lemma_encode_utf8_append(a: Seq<char>, b: Seq<char>)
    ensures
        vstd::utf8::encode_utf8(a + b) == vstd::utf8::encode_utf8(a) + vstd::utf8::encode_utf8(b),
    decreases a.len(),
{
    if a.len() == 0 {
        assert(a + b =~= b);
        assert(vstd::utf8::encode_utf8(a) + vstd::utf8::encode_utf8(b)
            =~= vstd::utf8::encode_utf8(b));
    } else {
        assert((a + b).len() > 0);
        assert((a + b)[0] == a[0]);
        assert((a + b).drop_first() =~= a.drop_first() + b);
        lemma_encode_utf8_append(a.drop_first(), b);
        assert(vstd::utf8::encode_scalar(a[0] as u32) + (vstd::utf8::encode_utf8(a.drop_first())
            + vstd::utf8::encode_utf8(b)) =~= (vstd::utf8::encode_scalar(a[0] as u32)
            + vstd::utf8::encode_utf8(a.drop_first())) + vstd::utf8::encode_utf8(b));
    }
}

/// Reasons the parse of an invocation id can fail.  All are caller-local,
/// non-fatal parse errors.
#[derive(Debug, PartialEq, Eq)]
pub enum InvocationIdParseError {
    /// The byte slice was not exactly 24 bytes.
    BadSliceLength,
    /// The uuid bytes could not be read.
    Uuid(uuid::Error),
    /// The string form did not have the fixed total length.
    BadBase64Length,
    /// A base64url segment was corrupt.
    Base64(base64::DecodeError),
}

impl InvocationId {
    /// Pairs a partition key with an invocation uuid.
    pub fn new(partition_key: PartitionKey, invocation_uuid: InvocationUuid) -> (r: InvocationId)
        ensures
            r == (InvocationId { partition_key, invocation_uuid }),
    {
        InvocationId { partition_key, invocation_uuid }
    }

    /// The invocation uuid part.
    pub fn invocation_uuid(&self) -> (r: InvocationUuid)
        ensures
            r == self.invocation_uuid,
    {
        self.invocation_uuid
    }

    /// The canonical 24-byte encoding of this id.
    pub fn as_bytes(&self) -> (r: Vec<u8>)
        ensures
            r@ == encoded_invocation_id(self.partition_key, self.invocation_uuid.0),
            r@.len() == 24,
    {
        let mut out: Vec<u8> = Vec::new();
        push_u64_be(&mut out, self.partition_key);
        push_u128_be(&mut out, self.invocation_uuid.0);
        proof {
            assert(out@ =~= encoded_invocation_id(self.partition_key, self.invocation_uuid.0));
        }
        out
    }

    /// Decodes an id from its canonical 24-byte form.  Every 24-byte slice
    /// decodes to exactly one id; any other length is refused.
    pub fn from_slice(b: &[u8]) -> (r: Result<InvocationId, InvocationIdParseError>)
        ensures
            b@.len() == 24 ==> (r matches Ok(id) && id == (InvocationId {
                partition_key: u64_from_be(b@.subrange(0, 8)),
                invocation_uuid: InvocationUuid(u128_from_be(b@.subrange(8, 24))),
            })),
            b@.len() != 24 ==> (r matches Err(e) && e is BadSliceLength),
    {
        let blen: usize = b.len();
        if blen != 24 {
            return Err(InvocationIdParseError::BadSliceLength);
        }
        let partition_key = read_u64_be(b, 0);
        let uuid_bytes = vstd::slice::slice_subrange(b, 8, 24);
        match InvocationUuid::from_slice(uuid_bytes) {
            Ok(invocation_uuid) => Ok(InvocationId { partition_key, invocation_uuid }),
            Err(e) => {
                proof {
                    assert(false);
                }
                Err(InvocationIdParseError::Uuid(e))
            },
        }
    }
}

impl WithPartitionKey for InvocationId {
    open spec fn spec_partition_key(&self) -> PartitionKey {
        self.partition_key
    }

    fn partition_key(&self) -> (r: PartitionKey)
        ensures
            r == self.spec_partition_key(),
    {
        self.partition_key
    }
}

/// Encoding then decoding an invocation id gives it back, and the encoding is
/// always exactly 24 bytes.
pub proof fn lemma_invocation_id_byte_roundtrip(partition_key: u64, uuid: u128)
    ensures
        encoded_invocation_id(partition_key, uuid).len() == 24,
        u64_from_be(encoded_invocation_id(partition_key, uuid).subrange(0, 8)) == partition_key,
        u128_from_be(encoded_invocation_id(partition_key, uuid).subrange(8, 24)) == uuid,
{
    let enc = encoded_invocation_id(partition_key, uuid);
    assert(enc.subrange(0, 8) =~= u64_be_bytes(partition_key));
    assert(enc.subrange(8, 24) =~= u128_be_bytes(uuid));
    lemma_u64_be_roundtrip(partition_key);
    lemma_u128_be_roundtrip(uuid);
}

/// The 24-byte encoding is injective: equal encodings name equal ids.
pub proof fn lemma_invocation_id_encoding_injective(
    partition_key1: u64,
    uuid1: u128,
    partition_key2: u64,
    uuid2: u128,
)
    requires
        encoded_invocation_id(partition_key1, uuid1) == encoded_invocation_id(
            partition_key2,
            uuid2,
        ),
    ensures
        partition_key1 == partition_key2,
        uuid1 == uuid2,
{
    lemma_invocation_id_byte_roundtrip(partition_key1, uuid1);
    lemma_invocation_id_byte_roundtrip(partition_key2, uuid2);
}

/// Renders the two-segment base64url string form of an id.
fn render_invocation_id_string(partition_key: u64, uuid: u128) -> (r: String)
    ensures
        is_invocation_id_string(vstd::utf8::encode_utf8(r@), partition_key, uuid),
{
    let mut pk_bytes: Vec<u8> = Vec::new();
    push_u64_be(&mut pk_bytes, partition_key);
    let mut uuid_bytes: Vec<u8> = Vec::new();
    push_u128_be(&mut uuid_bytes, uuid);
    proof {
        assert(pk_bytes@ =~= u64_be_bytes(partition_key));
        assert(uuid_bytes@ =~= u128_be_bytes(uuid));
    }
    let seg1 = b64url_encode(pk_bytes.as_slice());
    let seg2 = b64url_encode(uuid_bytes.as_slice());
    let r = seg1.concat(seg2.as_str());
    proof {
        lemma_encode_utf8_append(seg1@, seg2@);
        let rb = vstd::utf8::encode_utf8(r@);
        assert(rb == b64url_of(u64_be_bytes(partition_key)) + b64url_of(u128_be_bytes(uuid)));
        assert(rb.subrange(0, 11) =~= b64url_of(u64_be_bytes(partition_key)));
        assert(rb.subrange(11, 33) =~= b64url_of(u128_be_bytes(uuid)));
    }
    r
}

impl InvocationId {
    /// The canonical string encoding of this id: partition-key segment, then
    /// uuid segment, each un-padded base64url of fixed width.
    pub fn to_id_string(&self) -> (r: String)
        ensures
            is_invocation_id_string(
                vstd::utf8::encode_utf8(r@),
                self.partition_key,
                self.invocation_uuid.0,
            ),
    {
        render_invocation_id_string(self.partition_key, self.invocation_uuid.0)
    }

    /// Parses the two-segment string form.  A string whose byte length is not
    /// the fixed total is refused up front as `BadBase64Length`; a corrupt
    /// segment fails with the underlying base64 decode error; the canonical
    /// string of any id parses back to exactly that id.
    pub fn from_str(s: &str) -> (r: Result<InvocationId, InvocationIdParseError>)
        ensures
            (r matches Err(e) && e is BadBase64Length) <==> vstd::utf8::encode_utf8(s@).len()
                != 33,
            vstd::utf8::encode_utf8(s@).len() == 33 ==> (r matches Err(e) ==> e is Base64),
            r matches Ok(id) ==> is_invocation_id_string(
                vstd::utf8::encode_utf8(s@),
                id.partition_key,
                id.invocation_uuid.0,
            ),
            forall|pk: u64, u: u128| #[trigger]
                is_invocation_id_string(vstd::utf8::encode_utf8(s@), pk, u) ==> (r matches Ok(id)
                    && id == (InvocationId {
                    partition_key: pk,
                    invocation_uuid: InvocationUuid(u),
                })),
    {
        let bytes: &[u8] = s.as_bytes();
        let ghost sb = vstd::utf8::encode_utf8(s@);
        let n: usize = bytes.len();
        if n != 33 {
            return Err(InvocationIdParseError::BadBase64Length);
        }
        let seg1 = vstd::slice::slice_subrange(bytes, 0, 11);
        let seg2 = vstd::slice::slice_subrange(bytes, 11, 33);
        let v1 = match b64url_decode(seg1) {
            Ok(v1) => v1,
            Err(e) => {
                proof {
                    assert forall|pk: u64, u: u128| !is_invocation_id_string(sb, pk, u) by {
                        if is_invocation_id_string(sb, pk, u) {
                            assert(seg1@ == b64url_of(u64_be_bytes(pk)));
                        }
                    }
                }
                return Err(InvocationIdParseError::Base64(e));
            },
        };
        let v2 = match b64url_decode(seg2) {
            Ok(v2) => v2,
            Err(e) => {
                proof {
                    assert forall|pk: u64, u: u128| !is_invocation_id_string(sb, pk, u) by {
                        if is_invocation_id_string(sb, pk, u) {
                            assert(seg2@ == b64url_of(u128_be_bytes(u)));
                        }
                    }
                }
                return Err(InvocationIdParseError::Base64(e));
            },
        };
        proof {
            assert(v1@.len() == 8);
            assert(v2@.len() == 16);
        }
        let partition_key = read_u64_be(v1.as_slice(), 0);
        let uuid_value = read_u128_be(v2.as_slice(), 0);
        let id = InvocationId {
            partition_key,
            invocation_uuid: InvocationUuid(uuid_value),
        };
        proof {
            assert(v1@.subrange(0, 8) =~= v1@);
            assert(v2@.subrange(0, 16) =~= v2@);
            lemma_u64_be_bytes_of_from(v1@);
            lemma_u128_be_bytes_of_from(v2@);
            assert(is_invocation_id_string(sb, id.partition_key, id.invocation_uuid.0));
            assert forall|pk: u64, u: u128| #[trigger]
                is_invocation_id_string(sb, pk, u) implies id == (InvocationId {
                partition_key: pk,
                invocation_uuid: InvocationUuid(u),
            }) by {
                assert(seg1@ == b64url_of(u64_be_bytes(pk)));
                assert(v1@ == u64_be_bytes(pk));
                lemma_u64_be_roundtrip(pk);
                assert(seg2@ == b64url_of(u128_be_bytes(u)));
                assert(v2@ == u128_be_bytes(u));
                lemma_u128_be_roundtrip(u);
            }
        }
        Ok(id)
    }
}

/// Id of a single service invocation: a service id plus the uuid that makes
/// the invocation unique.  Reducible to an `InvocationId` by dropping the
/// service name and key.
#[derive(Eq, Hash, PartialEq, Clone, Debug)]
pub struct FullInvocationId {
    /// Identifies the invoked service instance.
    pub service_id: ServiceId,
    /// Uniquely identifies this invocation instance.
    pub invocation_uuid: InvocationUuid,
}

impl FullInvocationId {
    /// Builds a full id, deriving the partition key from the key bytes.
    pub fn new(service_name: String, key: Vec<u8>, invocation_uuid: InvocationUuid) -> (r:
        FullInvocationId)
        ensures
            r.service_id.service_name == service_name,
            r.service_id.key == key,
            r.service_id.partition_key == partition_hash(key@),
            r.invocation_uuid == invocation_uuid,
    {
        Self::with_service_id(ServiceId::new(service_name, key), invocation_uuid)
    }

    /// Builds a full id with a freshly minted uuid.
    pub fn generate(service_name: String, key: Vec<u8>) -> (r: FullInvocationId)
        ensures
            r.service_id.service_name == service_name,
            r.service_id.key == key,
            r.service_id.partition_key == partition_hash(key@),
    {
        Self::with_service_id(ServiceId::new(service_name, key), InvocationUuid::now_v7())
    }

    /// Pairs an existing service id with an invocation uuid.
    pub fn with_service_id(service_id: ServiceId, invocation_uuid: InvocationUuid) -> (r:
        FullInvocationId)
        ensures
            r == (FullInvocationId { service_id, invocation_uuid }),
    {
        FullInvocationId { service_id, invocation_uuid }
    }

    /// The canonical 24-byte encoding of the reduced invocation id.
    pub fn to_invocation_id_bytes(&self) -> (r: Vec<u8>)
        ensures
            r@ == encoded_invocation_id(self.service_id.partition_key, self.invocation_uuid.0),
            r@.len() == 24,
    {
        let id = InvocationId {
            partition_key: self.service_id.partition_key,
            invocation_uuid: self.invocation_uuid,
        };
        id.as_bytes()
    }

    /// Drops the service name and key, keeping the routing information.
    pub fn to_invocation_id(&self) -> (r: InvocationId)
        ensures
            r == (InvocationId {
                partition_key: self.service_id.partition_key,
                invocation_uuid: self.invocation_uuid,
            }),
    {
        InvocationId {
            partition_key: self.service_id.partition_key,
            invocation_uuid: self.invocation_uuid,
        }
    }

    /// The canonical string encoding of the reduced invocation id.
    pub fn to_id_string(&self) -> (r: String)
        ensures
            is_invocation_id_string(
                vstd::utf8::encode_utf8(r@),
                self.service_id.partition_key,
                self.invocation_uuid.0,
            ),
    {
        render_invocation_id_string(self.service_id.partition_key, self.invocation_uuid.0)
    }
}

impl WithPartitionKey for FullInvocationId {
    open spec fn spec_partition_key(&self) -> PartitionKey {
        self.service_id.partition_key
    }

    fn partition_key(&self) -> (r: PartitionKey)
        ensures
            r == self.spec_partition_key(),
    {
        self.service_id.partition_key
    }
}

/// Mathematical model of a service id: its name and key as sequences.
pub struct ServiceIdModel {
    pub service_name: Seq<char>,
    pub key: Seq<u8>,
    pub partition_key: PartitionKey,
}

impl View for ServiceId {
    type V = ServiceIdModel;

    open spec fn view(&self) -> ServiceIdModel {
        ServiceIdModel {
            service_name: self.service_name@,
            key: self.key@,
            partition_key: self.partition_key,
        }
    }
}

impl ServiceId {
    /// A by-value copy of this service id.
    pub fn duplicate(&self) -> (r: ServiceId)
        ensures
            r@ == self@,
    {
        ServiceId {
            service_name: self.service_name.clone(),
            key: crate::codec::copy_bytes(&self.key),
            partition_key: self.partition_key,
        }
    }
}

/// Mathematical model of a full invocation id.
pub struct FullInvocationIdModel {
    pub service_id: ServiceIdModel,
    pub invocation_uuid: InvocationUuid,
}

impl View for FullInvocationId {
    type V = FullInvocationIdModel;

    open spec fn view(&self) -> FullInvocationIdModel {
        FullInvocationIdModel { service_id: self.service_id@, invocation_uuid: self.invocation_uuid }
    }
}

impl FullInvocationId {
    /// A by-value copy of this full invocation id.
    pub fn duplicate(&self) -> (r: FullInvocationId)
        ensures
            r@ == self@,
    {
        FullInvocationId {
            service_id: self.service_id.duplicate(),
            invocation_uuid: self.invocation_uuid,
        }
    }
}

} // verus!
