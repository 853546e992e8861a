//! Password-based sealing of a byte payload: Argon2id derives the key, AES-256-GCM seals the
//! bytes, and the salt and the nonce travel in front of the ciphertext.
use rand::RngCore;
use vstd::prelude::*;
use vstd::slice::slice_subrange;
use zeroize::Zeroize;

verus! {

/// Bytes of salt at the front of a payload.
pub const SALT_LEN: usize = 16;

/// Bytes of nonce behind the salt.
pub const NONCE_LEN: usize = 12;

/// Memory that Argon2id fills, in blocks of one KiB.
pub const KDF_MEMORY_KIB: u32 = 65_536;

/// Passes that Argon2id makes over its memory.
pub const KDF_PASSES: u32 = 3;

/// Lanes that Argon2id works in.
pub const KDF_LANES: u32 = 4;

/// Longest password, and longest salt, that Argon2id takes, in bytes.
pub const KDF_INPUT_MAX: usize = 0xFFFF_FFFF;

/// Shortest salt that Argon2id takes, in bytes.
pub const KDF_SALT_MIN: usize = 8;

/// Longest plaintext that AES-GCM seals, in bytes.
pub const PLAINTEXT_MAX: u64 = 0x10_0000_0000;

/// Why a payload could not be sealed or opened.
#[derive(Clone, Copy, Debug, PartialEq, Eq, Structural)]
pub enum CryptoError {
    PasswordTooLong,
    SaltTooShort,
    SaltTooLong,
    PayloadTooShort,
    SealFailed,
    OpenFailed,
}

impl CryptoError {
    /// The text of the error, as a spec value.
    pub open spec fn text(self) -> Seq<char> {
        match self {
            CryptoError::PasswordTooLong => "password is too long"@,
            CryptoError::SaltTooShort => "salt is too short"@,
            CryptoError::SaltTooLong => "salt is too long"@,
            CryptoError::PayloadTooShort => "Encrypted data is malformed or too short"@,
            CryptoError::SealFailed => "aead::Error"@,
            CryptoError::OpenFailed =>
                "Decryption failed: Incorrect password or corrupted vault"@,
        }
    }

    /// The text shown to the user.
    pub fn message(&self) -> (text: String)
        ensures
            text@ == self.text(),
            text@ == (match *self {
                CryptoError::PasswordTooLong => "password is too long"@,
                CryptoError::SaltTooShort => "salt is too short"@,
                CryptoError::SaltTooLong => "salt is too long"@,
                CryptoError::PayloadTooShort => "Encrypted data is malformed or too short"@,
                CryptoError::SealFailed => "aead::Error"@,
                CryptoError::OpenFailed =>
                    "Decryption failed: Incorrect password or corrupted vault"@,
            }),
    {
        match self {
            CryptoError::PasswordTooLong => "password is too long".to_string(),
            CryptoError::SaltTooShort => "salt is too short".to_string(),
            CryptoError::SaltTooLong => "salt is too long".to_string(),
            CryptoError::PayloadTooShort =>
                "Encrypted data is malformed or too short".to_string(),
            CryptoError::SealFailed => "aead::Error".to_string(),
            CryptoError::OpenFailed =>
                "Decryption failed: Incorrect password or corrupted vault".to_string(),
        }
    }
}

/// The error type of the `argon2` crate.
#[verifier::external_type_specification]
#[verifier::external_body]
pub struct ExArgon2Error(argon2::Error);

/// The error type of the `aes-gcm` crate.
#[verifier::external_type_specification]
#[verifier::external_body]
pub struct ExAeadError(aes_gcm::Error);

/// The thirty-two bytes that Argon2id, version 0x13, derives from a password and a salt.
pub uninterp spec fn argon2id(
    password: Seq<u8>,
    salt: Seq<u8>,
    memory_kib: u32,
    passes: u32,
    lanes: u32,
) -> Seq<u8>;

/// What AES-256-GCM makes of a plaintext under a key and a nonce: ciphertext, then tag.
pub uninterp spec fn aes256gcm_sealed(key: Seq<u8>, nonce: Seq<u8>, plaintext: Seq<u8>) -> Seq<u8>;

/// The plaintext that AES-256-GCM gives back under a key and a nonce, if the tag fits.
pub uninterp spec fn aes256gcm_opened(
    key: Seq<u8>,
    nonce: Seq<u8>,
    sealed: Seq<u8>,
) -> Option<Seq<u8>>;

/// The lengths of password and salt that Argon2id takes.
pub open spec fn kdf_accepts(password: Seq<u8>, salt: Seq<u8>) -> bool {
    password.len() <= KDF_INPUT_MAX && KDF_SALT_MIN <= salt.len() <= KDF_INPUT_MAX
}

/// `argon2::Argon2::hash_password_into` with `Algorithm::Argon2id`, `Version::V0x13` and the given
/// costs, into thirty-two bytes. Within the cost bounds it fails only on a password or a salt whose
/// length is out of range; what it derives depends on its arguments alone.
#[verifier::external_body]
fn argon2id_hash(
    password: &[u8],
    salt: &[u8],
    memory_kib: u32,
    passes: u32,
    lanes: u32,
    key: &mut [u8; 32],
) -> (res: Result<(), argon2::Error>)
    requires
        1 <= passes,
        1 <= lanes <= 0xFF_FFFF,
        8 * lanes <= memory_kib <= KDF_MEMORY_KIB,
    ensures
        res is Ok <==> kdf_accepts(password@, salt@),
        res is Ok ==> final(key)@ == argon2id(password@, salt@, memory_kib, passes, lanes),
{
    let params = argon2::Params::new(memory_kib, passes, lanes, Some(key.len()))?;
    argon2::Argon2::new(argon2::Algorithm::Argon2id, argon2::Version::V0x13, params)
        .hash_password_into(password, salt, key)
}

/// `Aead::encrypt` of `aes_gcm::Aes256Gcm`, without associated data. It fails only on a plaintext
/// that is longer than `aes_gcm::P_MAX`, puts a tag of sixteen bytes behind the ciphertext, and
/// what it made opens again, under the same key and nonce, to the plaintext.
#[verifier::external_body]
fn aes256gcm_encrypt(key: &[u8; 32], nonce: &[u8; 12], plaintext: &[u8]) -> (res: Result<
    Vec<u8>,
    aes_gcm::Error,
>)
    ensures
        res is Ok <==> plaintext@.len() <= PLAINTEXT_MAX,
        res matches Ok(sealed) ==> {
            &&& sealed@ == aes256gcm_sealed(key@, nonce@, plaintext@)
            &&& sealed@.len() == plaintext@.len() + 16
            &&& aes256gcm_opened(key@, nonce@, sealed@) == Some(plaintext@)
        },
{
    let cipher = <aes_gcm::Aes256Gcm as aes_gcm::KeyInit>::new(key.into());
    aes_gcm::aead::Aead::encrypt(&cipher, nonce.into(), plaintext)
}

/// `Aead::decrypt` of `aes_gcm::Aes256Gcm`, without associated data. Whether it succeeds, and what
/// it gives back, depends on its arguments alone. It refuses what is shorter than the tag of sixteen
/// bytes, and gives back sixteen bytes fewer than it was given.
#[verifier::external_body]
fn aes256gcm_decrypt(key: &[u8; 32], nonce: &[u8; 12], sealed: &[u8]) -> (res: Result<
    Vec<u8>,
    aes_gcm::Error,
>)
    ensures
        res is Ok <==> aes256gcm_opened(key@, nonce@, sealed@) is Some,
        res matches Ok(plaintext) ==> {
            &&& aes256gcm_opened(key@, nonce@, sealed@) == Some(plaintext@)
            &&& sealed@.len() == plaintext@.len() + 16
        },
{
    let cipher = <aes_gcm::Aes256Gcm as aes_gcm::KeyInit>::new(key.into());
    aes_gcm::aead::Aead::decrypt(&cipher, nonce.into(), sealed)
}

/// `RngCore::fill_bytes` of `OsRng`: the operating system's random bytes. Nothing is promised of
/// them but that the slice keeps its length. The call panics where the system has no randomness.
#[verifier::external_body]
fn fill_random(bytes: &mut [u8])
    ensures
        final(bytes)@.len() == old(bytes)@.len(),
{
    aes_gcm::aead::OsRng.fill_bytes(bytes)
}

/// `Zeroize::zeroize` on a key: every byte becomes zero, in a way that is not optimised away.
#[verifier::external_body]
fn wipe_key(key: &mut [u8; 32])
    ensures
        final(key)@ == Seq::new(32, |i: int| 0u8),
    opens_invariants none
    no_unwind
{
    key.zeroize()
}

/// A key derived from a password. It is wiped when it is dropped.
pub struct DerivedKey {
    bytes: [u8; 32],
}

impl View for DerivedKey {
    type V = Seq<u8>;

    /// The bytes of the key.
    closed spec fn view(&self) -> Seq<u8> {
        self.bytes@
    }
}

impl DerivedKey {
    /// The bytes of the key.
    pub fn as_bytes(&self) -> (bytes: &[u8; 32])
        ensures
            bytes@ == self@,
    {
        &self.bytes
    }
}

impl Drop for DerivedKey {
    /// Wipes the key.
    fn drop(&mut self)
        ensures
            final(self)@ == Seq::new(32, |i: int| 0u8),
        opens_invariants none
        no_unwind
    {
        wipe_key(&mut self.bytes);
    }
}

/// The key for a password and a salt, or why there is none.
pub open spec fn derived_key(password: Seq<u8>, salt: Seq<u8>) -> Result<Seq<u8>, CryptoError> {
    if password.len() > KDF_INPUT_MAX {
        Err(CryptoError::PasswordTooLong)
    } else if salt.len() < KDF_SALT_MIN {
        Err(CryptoError::SaltTooShort)
    } else if salt.len() > KDF_INPUT_MAX {
        Err(CryptoError::SaltTooLong)
    } else {
        Ok(argon2id(password, salt, KDF_MEMORY_KIB, KDF_PASSES, KDF_LANES))
    }
}

/// The payload for a plaintext: salt, nonce, then ciphertext with its tag.
pub open spec fn sealed_payload(
    data: Seq<u8>,
    password: Seq<u8>,
    salt: Seq<u8>,
    nonce: Seq<u8>,
) -> Result<Seq<u8>, CryptoError> {
    match derived_key(password, salt) {
        Err(e) => Err(e),
        Ok(key) => if data.len() > PLAINTEXT_MAX {
            Err(CryptoError::SealFailed)
        } else {
            Ok(salt + nonce + aes256gcm_sealed(key, nonce, data))
        },
    }
}

/// The plaintext of a payload under a password, or why it does not open.
pub open spec fn opened_payload(encrypted: Seq<u8>, password: Seq<u8>) -> Result<
    Seq<u8>,
    CryptoError,
> {
    if encrypted.len() < SALT_LEN + NONCE_LEN {
        Err(CryptoError::PayloadTooShort)
    } else {
        let salt = encrypted.subrange(0, SALT_LEN as int);
        let nonce = encrypted.subrange(SALT_LEN as int, SALT_LEN + NONCE_LEN);
        let sealed = encrypted.subrange(SALT_LEN + NONCE_LEN, encrypted.len() as int);
        match derived_key(password, salt) {
            Err(e) => Err(e),
            Ok(key) => match aes256gcm_opened(key, nonce, sealed) {
                Some(data) => Ok(data),
                None => Err(CryptoError::OpenFailed),
            },
        }
    }
}

/// A result of this module with its bytes taken by their view.
pub open spec fn bytes_of(res: Result<Vec<u8>, CryptoError>) -> Result<Seq<u8>, CryptoError> {
    match res {
        Ok(bytes) => Ok(bytes@),
        Err(e) => Err(e),
    }
}

/// Derives the key for a password and a salt.
pub fn derive_key(password: &[u8], salt: &[u8]) -> (res: Result<DerivedKey, CryptoError>)
    ensures
        match res {
            Ok(key) => derived_key(password@, salt@) == Ok::<Seq<u8>, CryptoError>(key@),
            Err(e) => derived_key(password@, salt@) == Err::<Seq<u8>, CryptoError>(e),
        },
        res is Ok <==> password@.len() <= 0xFFFF_FFFF && 8 <= salt@.len() <= 0xFFFF_FFFF,
        res matches Ok(key) ==> key@ == argon2id(password@, salt@, 65536, 3, 4),
        res matches Err(e) ==> match e {
            CryptoError::PasswordTooLong => password@.len() > 0xFFFF_FFFF,
            CryptoError::SaltTooShort => password@.len() <= 0xFFFF_FFFF && salt@.len() < 8,
            CryptoError::SaltTooLong => password@.len() <= 0xFFFF_FFFF && salt@.len() > 0xFFFF_FFFF,
            _ => false,
        },
{
    let mut key = DerivedKey { bytes: [0u8; 32] };
    match argon2id_hash(
        password,
        salt,
        KDF_MEMORY_KIB,
        KDF_PASSES,
        KDF_LANES,
        &mut key.bytes,
    ) {
        Ok(_) => Ok(key),
        Err(_) => if password.len() > KDF_INPUT_MAX {
            Err(CryptoError::PasswordTooLong)
        } else if salt.len() < KDF_SALT_MIN {
            Err(CryptoError::SaltTooShort)
        } else {
            Err(CryptoError::SaltTooLong)
        },
    }
}

/// Seals a plaintext with a given salt and nonce. What it returns opens again under the same
/// password to the same plaintext.
pub fn encrypt_with(data: &[u8], password: &str, salt: &[u8; 16], nonce: &[u8; 12]) -> (res: Result<
    Vec<u8>,
    CryptoError,
>)
    ensures
        bytes_of(res) == sealed_payload(data@, vstd::utf8::encode_utf8(password@), salt@, nonce@),
        res matches Ok(payload) ==> payload@.len() == SALT_LEN + NONCE_LEN + data@.len() + 16,
        res matches Ok(payload) ==> opened_payload(payload@, vstd::utf8::encode_utf8(password@)) == Ok::<
            Seq<u8>,
            CryptoError,
        >(data@),
        res is Ok <==> vstd::utf8::encode_utf8(password@).len() <= 0xFFFF_FFFF && data@.len()
            <= 0x10_0000_0000,
        res matches Ok(payload) ==> {
            let key = argon2id(vstd::utf8::encode_utf8(password@), salt@, 65536, 3, 4);
            &&& payload@.len() == 44 + data@.len()
            &&& payload@.subrange(0, 16) == salt@
            &&& payload@.subrange(16, 28) == nonce@
            &&& payload@.subrange(28, payload@.len() as int) == aes256gcm_sealed(key, nonce@, data@)
            &&& aes256gcm_opened(key, nonce@, payload@.subrange(28, payload@.len() as int)) == Some(
                data@,
            )
        },
        res matches Err(e) ==> match e {
            CryptoError::PasswordTooLong => vstd::utf8::encode_utf8(password@).len() > 0xFFFF_FFFF,
            CryptoError::SealFailed => data@.len() > 0x10_0000_0000,
            _ => false,
        },
{
    let key = match derive_key(password.as_bytes(), salt.as_slice()) {
        Ok(key) => key,
        Err(e) => {
            return Err(e);
        },
    };
    match aes256gcm_encrypt(key.as_bytes(), nonce, data) {
        Ok(sealed) => {
            let mut payload: Vec<u8> = Vec::new();
            payload.extend_from_slice(salt.as_slice());
            payload.extend_from_slice(nonce.as_slice());
            payload.extend_from_slice(sealed.as_slice());
            proof {
                assert(payload@ =~= salt@ + nonce@ + sealed@);
                assert(payload@.subrange(0, SALT_LEN as int) =~= salt@);
                assert(payload@.subrange(SALT_LEN as int, SALT_LEN + NONCE_LEN) =~= nonce@);
                assert(payload@.subrange(SALT_LEN + NONCE_LEN, payload@.len() as int) =~= sealed@);
            }
            Ok(payload)
        },
        Err(_) => Err(CryptoError::SealFailed),
    }
}

/// Seals a plaintext under a password, with a fresh random salt and nonce. Whatever salt and nonce
/// were drawn, the payload opens again under the same password to the same plaintext.
pub fn encrypt_payload(data: &[u8], password: &str) -> (res: Result<Vec<u8>, CryptoError>)
    ensures
        exists|salt: Seq<u8>, nonce: Seq<u8>|
            salt.len() == SALT_LEN && nonce.len() == NONCE_LEN && bytes_of(res)
                == #[trigger] sealed_payload(data@, vstd::utf8::encode_utf8(password@), salt, nonce),
        res is Ok <==> vstd::utf8::encode_utf8(password@).len() <= KDF_INPUT_MAX && data@.len()
            <= PLAINTEXT_MAX,
        res matches Ok(payload) ==> payload@.len() == SALT_LEN + NONCE_LEN + data@.len() + 16,
        res matches Ok(payload) ==> opened_payload(payload@, vstd::utf8::encode_utf8(password@)) == Ok::<
            Seq<u8>,
            CryptoError,
        >(data@),
        res matches Ok(payload) ==> {
            let key = argon2id(
                vstd::utf8::encode_utf8(password@),
                payload@.subrange(0, 16),
                65536,
                3,
                4,
            );
            &&& payload@.len() == 44 + data@.len()
            &&& payload@.subrange(28, payload@.len() as int) == aes256gcm_sealed(
                key,
                payload@.subrange(16, 28),
                data@,
            )
        },
{
    let mut salt = [0u8; 16];
    fill_random(&mut salt);
    let mut nonce = [0u8; 12];
    fill_random(&mut nonce);
    encrypt_with(data, password, &salt, &nonce)
}

/// Opens a payload under a password. What opens is as much shorter than the payload as salt, nonce
/// and tag are long; a payload shorter than these never opens.
pub fn decrypt_payload(encrypted: &[u8], password: &str) -> (res: Result<Vec<u8>, CryptoError>)
    ensures
        bytes_of(res) == opened_payload(encrypted@, vstd::utf8::encode_utf8(password@)),
        res matches Ok(data) ==> encrypted@.len() == SALT_LEN + NONCE_LEN + data@.len() + 16,
        encrypted@.len() < 28 <==> res == Err::<Vec<u8>, CryptoError>(CryptoError::PayloadTooShort),
        encrypted@.len() >= 28 ==> (vstd::utf8::encode_utf8(password@).len() > 0xFFFF_FFFF <==> res
            == Err::<Vec<u8>, CryptoError>(CryptoError::PasswordTooLong)),
        encrypted@.len() >= 28 && vstd::utf8::encode_utf8(password@).len() <= 0xFFFF_FFFF ==> {
            let key = argon2id(
                vstd::utf8::encode_utf8(password@),
                encrypted@.subrange(0, 16),
                65536,
                3,
                4,
            );
            match aes256gcm_opened(
                key,
                encrypted@.subrange(16, 28),
                encrypted@.subrange(28, encrypted@.len() as int),
            ) {
                Some(data) => res is Ok && res->Ok_0@ == data,
                None => res == Err::<Vec<u8>, CryptoError>(CryptoError::OpenFailed),
            }
        },
{
    if encrypted.len() < SALT_LEN + NONCE_LEN {
        return Err(CryptoError::PayloadTooShort);
    }
    let salt = slice_subrange(encrypted, 0, SALT_LEN);
    let sealed = slice_subrange(encrypted, SALT_LEN + NONCE_LEN, encrypted.len());
    let mut nonce = [0u8; 12];
    let mut i: usize = 0;
    while i < NONCE_LEN
        invariant
            i <= NONCE_LEN,
            encrypted@.len() >= SALT_LEN + NONCE_LEN,
            forall|j: int| 0 <= j < i ==> nonce@[j] == encrypted@[SALT_LEN + j],
        decreases NONCE_LEN - i,
    {
        nonce[i] = encrypted[SALT_LEN + i];
        i += 1;
    }
    proof {
        assert(nonce@ =~= encrypted@.subrange(SALT_LEN as int, SALT_LEN + NONCE_LEN));
    }
    let key = match derive_key(password.as_bytes(), salt) {
        Ok(key) => key,
        Err(e) => {
            return Err(e);
        },
    };
    match aes256gcm_decrypt(key.as_bytes(), &nonce, sealed) {
        Ok(data) => Ok(data),
        Err(_) => Err(CryptoError::OpenFailed),
    }
}

} // verus!
