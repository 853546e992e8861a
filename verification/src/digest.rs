//! BLAKE3 digests, of a whole block and of content that comes in pieces.
use vstd::prelude::*;

verus! {

/// The incremental hasher of the `blake3` crate.
#[verifier::external_type_specification]
#[verifier::external_body]
pub struct ExBlake3Hasher(blake3::Hasher);

/// The bytes that an incremental hasher has taken in, in order.
pub uninterp spec fn hasher_input(hasher: blake3::Hasher) -> Seq<u8>;

/// Whether an incremental hasher is one for the regular hash function, with neither a key nor a
/// context nor an offset of its input.
pub uninterp spec fn hasher_is_regular(hasher: blake3::Hasher) -> bool;

/// The BLAKE3 digest of some bytes.
pub uninterp spec fn blake3_digest(bytes: Seq<u8>) -> Seq<u8>;

/// `blake3::Hasher::new`: a hasher for the regular hash function that has taken in nothing.
#[verifier::external_body]
fn hasher_new() -> (hasher: blake3::Hasher)
    ensures
        hasher_is_regular(hasher),
        hasher_input(hasher) == Seq::<u8>::empty(),
{
    blake3::Hasher::new()
}

/// `blake3::Hasher::update`, on a hasher for the regular hash function: the bytes go behind those
/// taken in before.
#[verifier::external_body]
fn hasher_update(hasher: &mut blake3::Hasher, bytes: &[u8])
    requires
        hasher_is_regular(*old(hasher)),
    ensures
        hasher_is_regular(*final(hasher)),
        hasher_input(*final(hasher)) == hasher_input(*old(hasher)) + bytes@,
    no_unwind
{
    hasher.update(bytes);
}

/// `blake3::Hasher::finalize`, on a hasher for the regular hash function: the digest of all that
/// was taken in, whatever the pieces it came in.
#[verifier::external_body]
fn hasher_finalize(hasher: &blake3::Hasher) -> (digest: [u8; 32])
    requires
        hasher_is_regular(*hasher),
    ensures
        digest@ == blake3_digest(hasher_input(*hasher)),
{
    *hasher.finalize().as_bytes()
}

/// A digest of content that comes in pieces.
pub struct ContentHasher {
    inner: blake3::Hasher,
}

impl View for ContentHasher {
    type V = Seq<u8>;

    /// The content taken in so far.
    closed spec fn view(&self) -> Seq<u8> {
        hasher_input(self.inner)
    }
}

impl ContentHasher {
    /// The hasher is one for the regular hash function.
    #[verifier::type_invariant]
    spec fn regular(&self) -> bool {
        hasher_is_regular(self.inner)
    }

    /// A hasher that has taken in nothing.
    pub fn new() -> (hasher: ContentHasher)
        ensures
            hasher@ == Seq::<u8>::empty(),
    {
        ContentHasher { inner: hasher_new() }
    }

    /// Takes in the next piece.
    pub fn update(&mut self, bytes: &[u8])
        ensures
            final(self)@ == old(self)@ + bytes@,
    {
        proof {
            use_type_invariant(&*self);
        }
        hasher_update(&mut self.inner, bytes);
    }

    /// The digest of all that was taken in.
    pub fn finish(&self) -> (digest: [u8; 32])
        ensures
            digest@ == blake3_digest(self@),
    {
        proof {
            use_type_invariant(self);
        }
        hasher_finalize(&self.inner)
    }
}

/// The digest of one block.
pub fn digest_of(bytes: &[u8]) -> (digest: [u8; 32])
    ensures
        digest@ == blake3_digest(bytes@),
{
    let mut hasher = ContentHasher::new();
    hasher.update(bytes);
    proof {
        assert(Seq::<u8>::empty() + bytes@ =~= bytes@);
    }
    hasher.finish()
}

/// Whether two runs of bytes are the same.
pub fn same_bytes(left: &[u8], right: &[u8]) -> (same: bool)
    ensures
        same == (left@ == right@),
{
    if left.len() != right.len() {
        return false;
    }
    let mut i: usize = 0;
    while i < left.len()
        invariant
            i <= left@.len() == right@.len(),
            forall|j: int| 0 <= j < i ==> left@[j] == right@[j],
        decreases left.len() - i,
    {
        if left[i] != right[i] {
            return false;
        }
        i += 1;
    }
    proof {
        assert(left@ =~= right@);
    }
    true
}

} // verus!
