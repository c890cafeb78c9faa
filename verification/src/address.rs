//! Address paths: ordered sequences of typed segments, their byte form, and
//! the signature that authenticates a reply path.

use vstd::bytes::{
    lemma_auto_spec_u64_to_from_le_bytes, spec_u64_from_le_bytes, spec_u64_to_le_bytes,
    u64_to_le_bytes,
};
use vstd::prelude::*;
use vstd::string::StringSliceAdditionalSpecFns;

use crate::bytes::{bytes_eq, copy_bytes, extend_bytes};
use crate::error::RelayError;
use crate::identity::{ed25519_accepts, ed25519_signature, verify_signature, Keypair, PeerId};

verus! {

/// One segment of an address path.
#[derive(Debug)]
pub enum Protocol {
    /// A node, by its identity.
    Peer(PeerId),
    /// A client endpoint hosted behind a peer.
    Client(PeerId),
    /// A named service at the last hop; the name as UTF-8 bytes.
    Service(Vec<u8>),
    /// A detached signature over everything before it.
    Signature(Vec<u8>),
}

/// The mathematical value of a segment.
pub enum Segment {
    Peer(Seq<u8>),
    Client(Seq<u8>),
    Service(Seq<u8>),
    Signature(Seq<u8>),
}

impl View for Protocol {
    type V = Segment;

    open spec fn view(&self) -> Segment {
        match self {
            Protocol::Peer(id) => Segment::Peer(id@),
            Protocol::Client(id) => Segment::Client(id@),
            Protocol::Service(name) => Segment::Service(name@),
            Protocol::Signature(sig) => Segment::Signature(sig@),
        }
    }
}

/// The byte that tells the kinds of segment apart.
pub open spec fn tag(seg: Segment) -> u8 {
    match seg {
        Segment::Peer(_) => 0,
        Segment::Client(_) => 1,
        Segment::Service(_) => 2,
        Segment::Signature(_) => 3,
    }
}

/// The bytes that a segment carries.
pub open spec fn payload(seg: Segment) -> Seq<u8> {
    match seg {
        Segment::Peer(b) => b,
        Segment::Client(b) => b,
        Segment::Service(b) => b,
        Segment::Signature(b) => b,
    }
}

/// A segment's byte form: its tag, the length of its payload as eight
/// little-endian bytes, then the payload.
pub open spec fn encode_segment(seg: Segment) -> Seq<u8> {
    seq![tag(seg)] + spec_u64_to_le_bytes(payload(seg).len() as u64) + payload(seg)
}

/// A path's byte form: the byte forms of its segments, one after another.
pub open spec fn encode(path: Seq<Segment>) -> Seq<u8>
    decreases path.len(),
{
    if path.len() == 0 {
        Seq::empty()
    } else {
        encode_segment(path[0]) + encode(path.drop_first())
    }
}

/// Every payload's length fits the eight bytes that carry it.
pub open spec fn bounded(path: Seq<Segment>) -> bool {
    forall|i: int| 0 <= i < path.len() ==> payload(#[trigger] path[i]).len() <= u64::MAX
}

/// No segment of the path is a signature.
pub open spec fn unsigned(path: Seq<Segment>) -> bool {
    forall|i: int| 0 <= i < path.len() ==> !(#[trigger] path[i] is Signature)
}

/// The peer in whose name a path speaks: its last peer or client segment.
pub open spec fn signer_of(path: Seq<Segment>) -> Option<Seq<u8>>
    decreases path.len(),
{
    if path.len() == 0 {
        None
    } else {
        match path.last() {
            Segment::Peer(id) => Some(id),
            Segment::Client(id) => Some(id),
            _ => signer_of(path.drop_last()),
        }
    }
}

/// A path verifies when its last segment is its only signature, and that
/// signature is accepted, under the key of the peer the rest speaks for, for
/// the byte form of the rest.
pub open spec fn verifies(path: Seq<Segment>) -> bool {
    &&& path.len() > 0
    &&& path.last() matches Segment::Signature(sig)
    &&& unsigned(path.drop_last())
    &&& signer_of(path.drop_last()) matches Some(signer)
    &&& ed25519_accepts(signer, encode(path.drop_last()), sig)
}

/// Appending a segment appends its byte form.
pub proof fn lemma_encode_push(path: Seq<Segment>, seg: Segment)
    ensures
        encode(path.push(seg)) == encode(path) + encode_segment(seg),
    decreases path.len(),
{
    let longer = path.push(seg);
    if path.len() == 0 {
        assert(longer.drop_first() =~= Seq::<Segment>::empty());
        assert(encode(longer.drop_first()) =~= Seq::<u8>::empty());
        assert(encode(longer) =~= encode(path) + encode_segment(seg));
    } else {
        lemma_encode_push(path.drop_first(), seg);
        assert(longer.drop_first() =~= path.drop_first().push(seg));
        assert(encode(longer) =~= encode(path) + encode_segment(seg));
    }
}

/// The byte form is unambiguous: two paths with the same byte form are the
/// same path, segment by segment. So a signature over the byte form of one
/// path is a signature over no other path.
pub proof fn lemma_encode_injective(a: Seq<Segment>, b: Seq<Segment>)
    requires
        bounded(a),
        bounded(b),
        encode(a) == encode(b),
    ensures
        a == b,
    decreases a.len(),
{
    lemma_auto_spec_u64_to_from_le_bytes();
    if a.len() == 0 || b.len() == 0 {
        if a.len() > 0 {
            assert(encode(a).len() >= encode_segment(a[0]).len());
        }
        if b.len() > 0 {
            assert(encode(b).len() >= encode_segment(b[0]).len());
        }
        assert(a =~= b);
    } else {
        let whole = encode(a);
        let rest_a = encode(a.drop_first());
        let rest_b = encode(b.drop_first());
        let len_a: int = payload(a[0]).len() as int;
        let len_b: int = payload(b[0]).len() as int;
        let width_a = spec_u64_to_le_bytes(len_a as u64);
        let width_b = spec_u64_to_le_bytes(len_b as u64);
        assert(whole == encode_segment(a[0]) + rest_a);
        assert(whole == encode_segment(b[0]) + rest_b);
        assert(whole[0] == tag(a[0]));
        assert(whole[0] == tag(b[0]));
        assert(whole.subrange(1, 9) =~= width_a);
        assert(whole.subrange(1, 9) =~= width_b);
        assert(spec_u64_from_le_bytes(width_a) == len_a as u64);
        assert(spec_u64_from_le_bytes(width_b) == len_b as u64);
        assert(len_a == len_b);
        assert(whole.subrange(9, 9 + len_a) =~= payload(a[0]));
        assert(whole.subrange(9, 9 + len_b) =~= payload(b[0]));
        assert(a[0] == b[0]);
        assert(whole.subrange(9 + len_a, whole.len() as int) =~= rest_a);
        assert(whole.subrange(9 + len_b, whole.len() as int) =~= rest_b);
        assert forall|i: int| 0 <= i < a.drop_first().len() implies payload(
            #[trigger] a.drop_first()[i],
        ).len() <= u64::MAX by {
            assert(a.drop_first()[i] == a[i + 1]);
        }
        assert forall|i: int| 0 <= i < b.drop_first().len() implies payload(
            #[trigger] b.drop_first()[i],
        ).len() <= u64::MAX by {
            assert(b.drop_first()[i] == b[i + 1]);
        }
        lemma_encode_injective(a.drop_first(), b.drop_first());
        assert(a =~= b) by {
            assert(a.len() == b.len());
            assert forall|i: int| 0 <= i < a.len() implies a[i] == b[i] by {
                if i > 0 {
                    assert(a[i] == a.drop_first()[i - 1]);
                    assert(b[i] == b.drop_first()[i - 1]);
                }
            }
        }
    }
}

impl Protocol {
    /// A service segment for `name`.
    pub fn service(name: &str) -> (r: Protocol)
        ensures
            r@ == Segment::Service(name.spec_bytes()),
    {
        Protocol::Service(vstd::slice::slice_to_vec(name.as_bytes()))
    }

    /// A copy of this segment.
    pub fn duplicate(&self) -> (r: Protocol)
        ensures
            r@ == self@,
    {
        match self {
            Protocol::Peer(id) => Protocol::Peer(copy_bytes(id)),
            Protocol::Client(id) => Protocol::Client(copy_bytes(id)),
            Protocol::Service(name) => Protocol::Service(copy_bytes(name)),
            Protocol::Signature(sig) => Protocol::Signature(copy_bytes(sig)),
        }
    }

    /// Whether two segments are of the same kind and carry the same bytes.
    pub fn same_as(&self, other: &Protocol) -> (r: bool)
        ensures
            r == (self@ == other@),
    {
        match (self, other) {
            (Protocol::Peer(a), Protocol::Peer(b)) => bytes_eq(a, b),
            (Protocol::Client(a), Protocol::Client(b)) => bytes_eq(a, b),
            (Protocol::Service(a), Protocol::Service(b)) => bytes_eq(a, b),
            (Protocol::Signature(a), Protocol::Signature(b)) => bytes_eq(a, b),
            _ => false,
        }
    }

    /// Appends this segment's byte form to `out`.
    pub fn encode_into(&self, out: &mut Vec<u8>)
        ensures
            final(out)@ == old(out)@ + encode_segment(self@),
    {
        let (kind, body): (u8, &Vec<u8>) = match self {
            Protocol::Peer(b) => (0u8, b),
            Protocol::Client(b) => (1u8, b),
            Protocol::Service(b) => (2u8, b),
            Protocol::Signature(b) => (3u8, b),
        };
        out.push(kind);
        let width = u64_to_le_bytes(body.len() as u64);
        extend_bytes(out, &width);
        extend_bytes(out, body);
        assert(out@ =~= old(out)@ + encode_segment(self@));
    }
}

/// An ordered path of segments. A path is never changed in place: appending
/// consumes it and gives a new one.
#[derive(Debug)]
pub struct Address {
    segments: Vec<Protocol>,
}

impl View for Address {
    type V = Seq<Segment>;

    closed spec fn view(&self) -> Seq<Segment> {
        Seq::new(self.segments@.len(), |i: int| self.segments@[i]@)
    }
}

impl Address {
    /// The payloads of a path in memory fit the eight bytes of their length.
    pub proof fn lemma_bounded(&self)
        ensures
            bounded(self@),
    {
        assert forall|i: int| 0 <= i < self@.len() implies payload(#[trigger] self@[i]).len()
            <= u64::MAX by {
            let seg = self.segments@[i];
            assert(self@[i] == seg@);
            match seg {
                Protocol::Peer(v) => {
                    assert(v@.len() == v.len());
                },
                Protocol::Client(v) => {
                    assert(v@.len() == v.len());
                },
                Protocol::Service(v) => {
                    assert(v@.len() == v.len());
                },
                Protocol::Signature(v) => {
                    assert(v@.len() == v.len());
                },
            }
        }
    }

    /// Two paths in memory with the same byte form are the same path.
    pub proof fn lemma_same_bytes_same_path(&self, other: &Address)
        requires
            encode(self@) == encode(other@),
        ensures
            self@ == other@,
    {
        self.lemma_bounded();
        other.lemma_bounded();
        lemma_encode_injective(self@, other@);
    }

    /// The path with no segment.
    pub fn empty() -> (r: Address)
        ensures
            r@ == Seq::<Segment>::empty(),
    {
        let r = Address { segments: Vec::new() };
        assert(r@ =~= Seq::<Segment>::empty());
        r
    }

    /// The path of one segment.
    pub fn from_protocol(seg: Protocol) -> (r: Address)
        ensures
            r@ == seq![seg@],
    {
        Address::empty().append(seg)
    }

    /// The number of segments.
    pub fn len(&self) -> (r: usize)
        ensures
            r == self@.len(),
    {
        self.segments.len()
    }

    /// The segment at `index`.
    pub fn get(&self, index: usize) -> (r: &Protocol)
        requires
            index < self@.len(),
        ensures
            r@ == self@[index as int],
    {
        &self.segments[index]
    }

    /// The path with `seg` after its last segment.
    pub fn append(self, seg: Protocol) -> (r: Address)
        ensures
            r@ == self@.push(seg@),
    {
        let mut segments = self.segments;
        segments.push(seg);
        let r = Address { segments };
        assert(r@ =~= self@.push(seg@));
        r
    }

    /// The path with the signature `sig` as its last segment.
    pub fn with_signature(self, sig: Vec<u8>) -> (r: Address)
        ensures
            r@ == self@.push(Segment::Signature(sig@)),
    {
        self.append(Protocol::Signature(sig))
    }

    /// A copy of the first `n` segments.
    pub fn prefix(&self, n: usize) -> (r: Address)
        requires
            n <= self@.len(),
        ensures
            r@ == self@.subrange(0, n as int),
    {
        let mut segments: Vec<Protocol> = Vec::new();
        let mut i: usize = 0;
        while i < n
            invariant
                i <= n <= self.segments@.len(),
                segments@.len() == i,
                forall|j: int| 0 <= j < i ==> segments@[j]@ == self.segments@[j]@,
            decreases n - i,
        {
            segments.push(self.segments[i].duplicate());
            i = i + 1;
        }
        let r = Address { segments };
        assert(r@ =~= self@.subrange(0, n as int));
        r
    }

    /// A copy of the whole path.
    pub fn duplicate(&self) -> (r: Address)
        ensures
            r@ == self@,
    {
        let r = self.prefix(self.segments.len());
        assert(self@.subrange(0, self@.len() as int) =~= self@);
        r
    }

    /// Whether some segment of the path equals `seg`.
    pub fn contains(&self, seg: &Protocol) -> (r: bool)
        ensures
            r == self@.contains(seg@),
    {
        let mut i: usize = 0;
        while i < self.segments.len()
            invariant
                i <= self.segments@.len(),
                forall|j: int| 0 <= j < i ==> self@[j] != seg@,
            decreases self.segments@.len() - i,
        {
            if self.segments[i].same_as(seg) {
                assert(self@[i as int] == seg@);
                return true;
            }
            i = i + 1;
        }
        false
    }

    /// Whether two paths have the same segments in the same order.
    pub fn same_as(&self, other: &Address) -> (r: bool)
        ensures
            r == (self@ == other@),
    {
        if self.segments.len() != other.segments.len() {
            assert(self@.len() != other@.len());
            return false;
        }
        let mut i: usize = 0;
        while i < self.segments.len()
            invariant
                self.segments@.len() == other.segments@.len(),
                i <= self.segments@.len(),
                forall|j: int| 0 <= j < i ==> self@[j] == other@[j],
            decreases self.segments@.len() - i,
        {
            if !self.segments[i].same_as(&other.segments[i]) {
                assert(self@[i as int] != other@[i as int]);
                return false;
            }
            i = i + 1;
        }
        assert(self@ =~= other@);
        true
    }

    /// The byte form of the path: what a signature signs.
    pub fn to_bytes(&self) -> (r: Vec<u8>)
        ensures
            r@ == encode(self@),
    {
        let mut out: Vec<u8> = Vec::new();
        let mut i: usize = 0;
        while i < self.segments.len()
            invariant
                i <= self.segments@.len(),
                out@ == encode(self@.subrange(0, i as int)),
            decreases self.segments@.len() - i,
        {
            self.segments[i].encode_into(&mut out);
            proof {
                lemma_encode_push(self@.subrange(0, i as int), self@[i as int]);
                assert(self@.subrange(0, i + 1) =~= self@.subrange(0, i as int).push(
                    self@[i as int],
                ));
            }
            i = i + 1;
        }
        assert(self@.subrange(0, self@.len() as int) =~= self@);
        out
    }

    /// Whether no segment is a signature.
    pub fn is_unsigned(&self) -> (r: bool)
        ensures
            r == unsigned(self@),
    {
        let mut i: usize = 0;
        while i < self.segments.len()
            invariant
                i <= self.segments@.len(),
                forall|j: int| 0 <= j < i ==> !(#[trigger] self@[j] is Signature),
            decreases self.segments@.len() - i,
        {
            if let Protocol::Signature(_) = &self.segments[i] {
                assert(self@[i as int] is Signature);
                return false;
            }
            i = i + 1;
        }
        true
    }

    /// The peer in whose name the path speaks, if it names one.
    pub fn signer(&self) -> (r: Option<PeerId>)
        ensures
            r is Some <==> signer_of(self@) is Some,
            r matches Some(id) ==> signer_of(self@) == Some(id@),
    {
        let mut i: usize = self.segments.len();
        assert(self@.subrange(0, i as int) =~= self@);
        while i > 0
            invariant
                i <= self.segments@.len(),
                signer_of(self@) == signer_of(self@.subrange(0, i as int)),
            decreases i,
        {
            let ghost part = self@.subrange(0, i as int);
            assert(part.last() == self@[i - 1]);
            assert(part.drop_last() =~= self@.subrange(0, i - 1));
            match &self.segments[i - 1] {
                Protocol::Peer(id) => {
                    return Some(copy_bytes(id));
                },
                Protocol::Client(id) => {
                    return Some(copy_bytes(id));
                },
                _ => {},
            }
            i = i - 1;
        }
        None
    }

    /// Signs the byte form of the path with `keypair`. The path must carry no
    /// signature yet and speak for the keypair's own peer.
    pub fn sign(&self, keypair: &Keypair) -> (r: Result<Vec<u8>, RelayError>)
        ensures
            r is Ok <==> unsigned(self@) && signer_of(self@) == Some(keypair.public_bytes()),
            r matches Ok(sig) ==> sig@ == ed25519_signature(
                keypair.secret_bytes(),
                encode(self@),
            ) && verifies(self@.push(Segment::Signature(sig@))),
            r matches Err(e) ==> e == RelayError::InvalidAddress,
    {
        if !self.is_unsigned() {
            return Err(RelayError::InvalidAddress);
        }
        let own = keypair.peer_id();
        match self.signer() {
            Some(id) => {
                if !bytes_eq(&id, &own) {
                    return Err(RelayError::InvalidAddress);
                }
            },
            None => {
                return Err(RelayError::InvalidAddress);
            },
        }
        let msg = self.to_bytes();
        let sig = keypair.sign(&msg);
        proof {
            let whole = self@.push(Segment::Signature(sig@));
            assert(whole.drop_last() =~= self@);
        }
        Ok(sig)
    }

    /// The path with the signature of `keypair` appended.
    pub fn signed(self, keypair: &Keypair) -> (r: Result<Address, RelayError>)
        ensures
            r is Ok <==> unsigned(self@) && signer_of(self@) == Some(keypair.public_bytes()),
            r matches Ok(a) ==> verifies(a@) && a@ == self@.push(
                Segment::Signature(ed25519_signature(keypair.secret_bytes(), encode(self@))),
            ),
            r matches Err(e) ==> e == RelayError::InvalidAddress,
    {
        match self.sign(keypair) {
            Ok(sig) => Ok(self.with_signature(sig)),
            Err(e) => Err(e),
        }
    }

    /// Whether the path ends in a signature that its signer made of the rest.
    /// Anything else is refused: no signature, one that is not last, no
    /// signer, or a signature that does not fit.
    pub fn verify(&self) -> (r: bool)
        ensures
            r == verifies(self@),
    {
        let n = self.segments.len();
        if n == 0 {
            return false;
        }
        let body = self.prefix(n - 1);
        assert(self@.drop_last() =~= self@.subrange(0, n - 1));
        match &self.segments[n - 1] {
            Protocol::Signature(sig) => {
                if !body.is_unsigned() {
                    return false;
                }
                match body.signer() {
                    Some(id) => {
                        let msg = body.to_bytes();
                        verify_signature(&id, &msg, sig)
                    },
                    None => false,
                }
            },
            _ => false,
        }
    }
}

/// The path to `client` through `relay`: the relay's peer segment, then the
/// client's.
pub fn relay_path(relay: PeerId, client: PeerId) -> (r: Address)
    ensures
        r@ == seq![Segment::Peer(relay@), Segment::Peer(client@)],
{
    let r = Address::from_protocol(Protocol::Peer(relay)).append(Protocol::Peer(client));
    assert(r@ =~= seq![Segment::Peer(relay@), Segment::Peer(client@)]);
    r
}

} // verus!
