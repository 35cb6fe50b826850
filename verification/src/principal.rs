//! Principals (user, canister and subnet identities) as the library holds them:
//! the raw bytes, at most 29 of them, as on the Internet Computer.
use vstd::prelude::*;
use vstd::slice::slice_to_vec;

verus! {

/// The largest number of bytes a principal may have.
pub const MAX_PRINCIPAL_LENGTH: usize = 29;

/// An identity on the Internet Computer, held as its byte representation.
#[derive(Debug, PartialEq, Eq, Hash)]
pub struct Principal {
    bytes: Vec<u8>,
}

impl View for Principal {
    type V = Seq<u8>;

    closed spec fn view(&self) -> Seq<u8> {
        self.bytes@
    }
}

/// Whether two byte sequences of the same length differ first at a place where `a` has the
/// smaller byte.
pub open spec fn bytes_lt(a: Seq<u8>, b: Seq<u8>) -> bool {
    exists|i: int| 0 <= i < a.len() && #[trigger] a.take(i) == b.take(i) && a[i] < b[i]
}

/// The order of principals (that of `candid::Principal`): the shorter first, and among
/// principals of the same length, the one that has the smaller byte where they first differ.
pub open spec fn principal_lt(a: Seq<u8>, b: Seq<u8>) -> bool {
    a.len() < b.len() || (a.len() == b.len() && bytes_lt(a, b))
}

/// The order of principals is a strict total order.
pub proof fn lemma_principal_order(a: Seq<u8>, b: Seq<u8>, c: Seq<u8>)
    ensures
        !principal_lt(a, a),
        principal_lt(a, b) ==> !principal_lt(b, a),
        principal_lt(a, b) && principal_lt(b, c) ==> principal_lt(a, c),
        a != b ==> principal_lt(a, b) || principal_lt(b, a),
{
    if principal_lt(a, b) && principal_lt(b, a) {
        let i = choose|i: int| 0 <= i < a.len() && #[trigger] a.take(i) == b.take(i) && a[i] < b[i];
        let j = choose|j: int| 0 <= j < b.len() && #[trigger] b.take(j) == a.take(j) && b[j] < a[j];
        if i < j {
            assert(b.take(j)[i] == a.take(j)[i]);
        } else if j < i {
            assert(a.take(i)[j] == b.take(i)[j]);
        }
    }
    if principal_lt(a, a) {
        let i = choose|i: int| 0 <= i < a.len() && #[trigger] a.take(i) == a.take(i) && a[i] < a[i];
    }
    if principal_lt(a, b) && principal_lt(b, c) && a.len() == b.len() && b.len() == c.len() {
        let i = choose|i: int| 0 <= i < a.len() && #[trigger] a.take(i) == b.take(i) && a[i] < b[i];
        let j = choose|j: int| 0 <= j < b.len() && #[trigger] b.take(j) == c.take(j) && b[j] < c[j];
        if i < j {
            assert(b.take(j).take(i) =~= b.take(i));
            assert(c.take(j).take(i) =~= c.take(i));
            assert(b[i] == b.take(j)[i] && c[i] == c.take(j)[i]);
            assert(a.take(i) == c.take(i));
        } else if j < i {
            assert(a.take(i).take(j) =~= a.take(j));
            assert(b.take(i).take(j) =~= b.take(j));
            assert(a[j] == a.take(i)[j] && b[j] == b.take(i)[j]);
            assert(a.take(j) == c.take(j));
        } else {
            assert(a.take(i) == c.take(i));
        }
    }
    if a != b && a.len() == b.len() {
        assert(a.take(0) =~= b.take(0));
        lemma_first_difference(a, b, 0);
    }
}

/// Two different byte sequences of the same length that agree below `from` differ first
/// somewhere at or after it.
proof fn lemma_first_difference(a: Seq<u8>, b: Seq<u8>, from: int)
    requires
        a != b,
        a.len() == b.len(),
        0 <= from <= a.len(),
        a.take(from) == b.take(from),
    ensures
        bytes_lt(a, b) || bytes_lt(b, a),
    decreases a.len() - from,
{
    if from == a.len() {
        assert(a =~= a.take(from));
        assert(b =~= b.take(from));
    } else if a[from] < b[from] {
        assert(a.take(from) == b.take(from));
    } else if b[from] < a[from] {
        assert(b.take(from) == a.take(from));
    } else {
        assert(a.take(from + 1) =~= a.take(from).push(a[from]));
        assert(b.take(from + 1) =~= b.take(from).push(b[from]));
        lemma_first_difference(a, b, from + 1);
    }
}

impl Principal {
    #[verifier::type_invariant]
    spec fn well_sized(self) -> bool {
        self.bytes@.len() <= MAX_PRINCIPAL_LENGTH
    }

    /// The identity of the IC management canister: no bytes at all.
    pub fn management_canister() -> (p: Principal)
        ensures
            p@ == Seq::<u8>::empty(),
    {
        Principal { bytes: Vec::new() }
    }

    /// The anonymous identity: the single byte 4.
    pub fn anonymous() -> (p: Principal)
        ensures
            p@ == seq![4u8],
    {
        let mut bytes: Vec<u8> = Vec::new();
        bytes.push(4u8);
        proof {
            assert(bytes@ =~= seq![4u8]);
        }
        Principal { bytes }
    }

    /// A principal with the given bytes, or `None` if there are more than 29 of them.
    pub fn try_from_slice(slice: &[u8]) -> (p: Option<Principal>)
        ensures
            p is Some <==> slice@.len() <= MAX_PRINCIPAL_LENGTH,
            p matches Some(q) ==> q@ == slice@,
    {
        if slice.len() <= MAX_PRINCIPAL_LENGTH {
            let bytes = slice_to_vec(slice);
            Some(Principal { bytes })
        } else {
            None
        }
    }

    /// The principal's bytes.
    pub fn as_slice(&self) -> (s: &[u8])
        ensures
            s@ == self@,
    {
        self.bytes.as_slice()
    }

    /// The principal's bytes, copied out.
    pub fn to_vec(&self) -> (v: Vec<u8>)
        ensures
            v@ == self@,
            v@.len() <= MAX_PRINCIPAL_LENGTH,
    {
        proof {
            use_type_invariant(self);
        }
        slice_to_vec(self.bytes.as_slice())
    }

    /// Whether this principal comes before `other` in the order of principals.
    pub fn precedes(&self, other: &Principal) -> (b: bool)
        ensures
            b == principal_lt(self@, other@),
    {
        let a = self.bytes.as_slice();
        let o = other.bytes.as_slice();
        if a.len() != o.len() {
            return a.len() < o.len();
        }
        let mut i: usize = 0;
        while i < a.len()
            invariant
                a@ == self@,
                o@ == other@,
                a@.len() == o@.len(),
                i <= a@.len(),
                forall|j: int| 0 <= j < i ==> a@[j] == o@[j],
            decreases a@.len() - i,
        {
            if a[i] < o[i] {
                proof {
                    assert(a@.take(i as int) =~= o@.take(i as int));
                }
                return true;
            }
            if a[i] > o[i] {
                proof {
                    assert forall|k: int|
                        0 <= k < a@.len() && a@.take(k) == o@.take(k) implies !(a@[k] < o@[k]) by {
                        if k > i {
                            assert(a@.take(k)[i as int] == o@.take(k)[i as int]);
                        }
                    }
                }
                return false;
            }
            i = i + 1;
        }
        false
    }

    /// Whether two principals have the same bytes.
    pub fn same_as(&self, other: &Principal) -> (b: bool)
        ensures
            b == (self@ == other@),
    {
        let a = self.bytes.as_slice();
        let o = other.bytes.as_slice();
        if a.len() != o.len() {
            return false;
        }
        let mut i: usize = 0;
        while i < a.len()
            invariant
                a@ == self@,
                o@ == other@,
                a@.len() == o@.len(),
                i <= a@.len(),
                forall|j: int| 0 <= j < i ==> a@[j] == o@[j],
            decreases a@.len() - i,
        {
            if a[i] != o[i] {
                return false;
            }
            i = i + 1;
        }
        proof {
            assert(a@ =~= o@);
        }
        true
    }

}

/// The textual form of the principal with the given bytes: the lower-case base32 encoding
/// of its CRC32 checksum followed by its bytes, in groups of five separated by dashes.
pub uninterp spec fn principal_text(bytes: Seq<u8>) -> Seq<char>;

/// The bytes of the principal that a text denotes, or `None` if the text denotes none.
pub uninterp spec fn principal_of_text(text: Seq<char>) -> Option<Seq<u8>>;

/// `candid::Principal::to_text` on the principal with the given bytes (at most 29 of them,
/// else `candid::Principal::from_slice` panics). The contract says only that the text is
/// the one the name `principal_text` gives for these bytes.
#[verifier::external_body]
fn text_of_principal_bytes(bytes: &[u8]) -> (s: String)
    requires
        bytes@.len() <= MAX_PRINCIPAL_LENGTH,
    ensures
        s@ == principal_text(bytes@),
{
    candid::Principal::from_slice(bytes).to_text()
}

/// `candid::Principal::from_text`: the bytes of the parsed principal, or `None` where the
/// crate returns an error. A parsed principal has at most 29 bytes, as the crate checks
/// before it builds one.
#[verifier::external_body]
fn principal_bytes_of_text(text: &str) -> (r: Option<Vec<u8>>)
    ensures
        r is Some <==> principal_of_text(text@) is Some,
        r matches Some(b) ==> b@ == principal_of_text(text@)->0 && b@.len() <= MAX_PRINCIPAL_LENGTH,
{
    match candid::Principal::from_text(text) {
        Ok(p) => Some(p.as_slice().to_vec()),
        Err(_) => None,
    }
}

impl Principal {
    /// The textual form of the principal.
    pub fn to_text(&self) -> (s: String)
        ensures
            s@ == principal_text(self@),
    {
        proof {
            use_type_invariant(self);
        }
        text_of_principal_bytes(self.bytes.as_slice())
    }

    /// The principal that a text denotes, or `None` if it denotes none.
    pub fn from_text(text: &str) -> (p: Option<Principal>)
        ensures
            p is Some <==> principal_of_text(text@) is Some,
            p matches Some(q) ==> q@ == principal_of_text(text@)->0,
    {
        match principal_bytes_of_text(text) {
            Some(bytes) => Some(Principal { bytes }),
            None => None,
        }
    }
}

impl Clone for Principal {
    fn clone(&self) -> (p: Principal)
        ensures
            p@ == self@,
    {
        proof {
            use_type_invariant(self);
        }
        let bytes = slice_to_vec(self.bytes.as_slice());
        Principal { bytes }
    }
}

} // verus!
