//! Identifiers of files and folders.
use vstd::prelude::*;

verus! {

/// The sixteen bytes that identify a file or a folder.
#[derive(Clone, Copy, Debug, PartialEq, Eq)]
pub struct Uuid {
    pub bytes: [u8; 16],
}

/// Whether an identifier carries the version and the variant of a random one.
pub open spec fn is_random_id(id: Uuid) -> bool {
    id.bytes@[6] / 16 == 4 && id.bytes@[8] / 64 == 2
}

impl Uuid {
    /// `uuid::Uuid::new_v4`: a random identifier. Of its bytes only the version and the variant are
    /// fixed; the others are left open. The call panics where the system has no randomness.
    #[verifier::external_body]
    pub(crate) fn new_v4() -> (id: Uuid)
        ensures
            is_random_id(id),
    {
        Uuid { bytes: *uuid::Uuid::new_v4().as_bytes() }
    }

    /// The identifier of sixteen zero bytes.
    pub fn nil() -> (id: Uuid)
        ensures
            id.bytes@ == Seq::new(16, |i: int| 0u8),
    {
        let id = Uuid { bytes: [0u8; 16] };
        proof {
            assert(id.bytes@ =~= Seq::new(16, |i: int| 0u8));
        }
        id
    }

    /// The identifier with the given bytes, where there are sixteen of them.
    pub fn from_slice(bytes: &[u8]) -> (id: Option<Uuid>)
        ensures
            id is Some <==> bytes@.len() == 16,
            id matches Some(u) ==> u.bytes@ == bytes@,
    {
        if bytes.len() != 16 {
            return None;
        }
        let mut copy = [0u8; 16];
        let mut i: usize = 0;
        while i < 16
            invariant
                i <= 16,
                bytes@.len() == 16,
                forall|j: int| 0 <= j < i ==> copy@[j] == bytes@[j],
            decreases 16 - i,
        {
            copy[i] = bytes[i];
            i += 1;
        }
        proof {
            assert(copy@ =~= bytes@);
        }
        Some(Uuid { bytes: copy })
    }

    /// The identifier with the given bytes, or the nil one where there are not sixteen.
    pub fn from_slice_or_nil(bytes: &[u8]) -> (id: Uuid)
        ensures
            id.bytes@ == (if bytes@.len() == 16 {
                bytes@
            } else {
                Seq::new(16, |i: int| 0u8)
            }),
    {
        match Uuid::from_slice(bytes) {
            Some(id) => id,
            None => Uuid::nil(),
        }
    }

    /// Whether two identifiers are the same.
    pub fn same_as(&self, other: &Uuid) -> (same: bool)
        ensures
            same == (*self == *other),
    {
        let mut i: usize = 0;
        while i < 16
            invariant
                i <= 16,
                forall|j: int| 0 <= j < i ==> self.bytes[j] == other.bytes[j],
            decreases 16 - i,
        {
            if self.bytes[i] != other.bytes[i] {
                return false;
            }
            i += 1;
        }
        proof {
            assert(self.bytes =~= other.bytes);
        }
        true
    }

    /// The bytes of the identifier.
    pub fn to_vec(&self) -> (bytes: Vec<u8>)
        ensures
            bytes@ == self.bytes@,
    {
        vstd::slice::slice_to_vec(self.bytes.as_slice())
    }
}

} // verus!
