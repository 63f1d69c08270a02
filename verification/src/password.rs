//! Salts and password hashes.
//!
//! A password is hashed with Argon2i under fixed costs, and the hash is
//! kept in its encoded form, which names the costs and holds the salt.
//! Hashing and verifying are done by the `argon2` crate and drawing a salt
//! by `openssl`; this module fixes what is handed to them and says what
//! becomes of each answer.

use vstd::prelude::*;
use vstd::utf8::encode_utf8;
use crate::errors::Failure;

verus! {

/// Number of bytes in a salt.
pub const SALT_LEN: usize = 32;

/// Argon2 variant with data-independent addressing, "i", as the `argon2`
/// crate numbers it.
pub const HASH_VARIANT: u32 = 1;

/// Argon2 version 0x13.
pub const HASH_VERSION: u32 = 0x13;

/// Memory cost in KiB.
pub const HASH_MEM_COST: u32 = 4096;

/// Number of passes.
pub const HASH_TIME_COST: u32 = 10;

/// Number of lanes.
pub const HASH_LANES: u32 = 4;

/// Length of the digest in bytes.
pub const HASH_LENGTH: u32 = 32;

/// Longest password, in bytes, that Argon2 takes.
pub const MAX_PASSWORD_BYTES: usize = 0xFFFF_FFFF;

#[verifier::external_type_specification]
#[verifier::external_body]
pub struct ExArgon2Error(argon2::Error);

#[verifier::external_type_specification]
#[verifier::external_body]
pub struct ExErrorStack(openssl::error::ErrorStack);

/// The encoded hash that `argon2::hash_encoded` gives for a password and a
/// salt under the given variant, version, costs and digest length, with no
/// secret and no associated data.
pub uninterp spec fn argon2_encoded(
    variant: u32,
    version: u32,
    mem_cost: u32,
    time_cost: u32,
    lanes: u32,
    hash_length: u32,
    pwd: Seq<u8>,
    salt: Seq<u8>,
) -> Seq<char>;

/// What `argon2::verify_encoded` answers for an encoded hash and a
/// password: `Some` of its verdict, or `None` where it reports an error.
pub uninterp spec fn argon2_verify_outcome(encoded: Seq<char>, pwd: Seq<u8>) -> Option<bool>;

/// The inputs that `argon2::hash_encoded` accepts, with no secret and no
/// associated data.
pub open spec fn argon2_accepts(
    variant: u32,
    version: u32,
    mem_cost: u32,
    time_cost: u32,
    lanes: u32,
    hash_length: u32,
    pwd_len: nat,
    salt_len: nat,
) -> bool {
    &&& variant <= 2
    &&& (version == 0x10 || version == 0x13)
    &&& 1 <= lanes <= 0x00FF_FFFF
    &&& 8 * lanes <= mem_cost
    &&& 1 <= time_cost
    &&& 4 <= hash_length
    &&& pwd_len <= 0xFFFF_FFFF
    &&& 8 <= salt_len <= 0xFFFF_FFFF
}

/// Calls `argon2::hash_encoded` with a configuration made of the given
/// numbers, no secret, no associated data, and one thread per lane.
///
/// Trusted: the call succeeds exactly on the inputs that pass the crate's
/// checks of its configuration, password and salt; its answer is a
/// function of the arguments; and `argon2::verify_encoded` accepts that
/// answer together with the same password. The memory cost is held under
/// 2 GiB, the most that the crate takes on every machine.
#[verifier::external_body]
fn argon2_hash_encoded(
    variant: u32,
    version: u32,
    mem_cost: u32,
    time_cost: u32,
    lanes: u32,
    hash_length: u32,
    pwd: &[u8],
    salt: &[u8],
) -> (r: Result<String, argon2::Error>)
    requires
        mem_cost <= 0x20_0000,
    ensures
        r is Ok <==> argon2_accepts(
            variant,
            version,
            mem_cost,
            time_cost,
            lanes,
            hash_length,
            pwd@.len(),
            salt@.len(),
        ),
        r matches Ok(h) ==> h@ == argon2_encoded(
            variant,
            version,
            mem_cost,
            time_cost,
            lanes,
            hash_length,
            pwd@,
            salt@,
        ),
        r matches Ok(h) ==> argon2_verify_outcome(h@, pwd@) == Some(true),
{
    let config = argon2::Config {
        variant: argon2::Variant::from_u32(variant)?,
        version: argon2::Version::from_u32(version)?,
        mem_cost,
        time_cost,
        lanes,
        thread_mode: argon2::ThreadMode::from_threads(lanes),
        secret: &[],
        ad: &[],
        hash_length,
    };
    argon2::hash_encoded(pwd, salt, &config)
}

/// Calls `argon2::verify_encoded`.
///
/// Trusted: its answer is a function of the encoded hash and the password.
#[verifier::external_body]
fn argon2_verify_encoded(encoded: &str, pwd: &[u8]) -> (r: Result<bool, argon2::Error>)
    ensures
        argon2_verify_outcome(encoded@, pwd@) == (match r {
            Ok(b) => Some(b),
            Err(_) => None::<bool>,
        }),
{
    argon2::verify_encoded(encoded, pwd)
}

/// Calls `openssl::rand::rand_bytes` on the buffer.
///
/// Trusted: nothing is said of the bytes. The buffer is no longer than the
/// largest C `int`, beyond which the call panics.
#[verifier::external_body]
fn fill_random<const N: usize>(buf: &mut [u8; N]) -> (r: Result<(), openssl::error::ErrorStack>)
    requires
        N <= 0x7FFF_FFFF,
{
    openssl::rand::rand_bytes(buf)
}

/// The encoded hash of a password under this library's fixed costs.
pub open spec fn encoded_hash(password: Seq<char>, salt: Seq<u8>) -> Seq<char> {
    argon2_encoded(
        HASH_VARIANT,
        HASH_VERSION,
        HASH_MEM_COST,
        HASH_TIME_COST,
        HASH_LANES,
        HASH_LENGTH,
        encode_utf8(password),
        salt,
    )
}

/// Whether an encoded hash is well-formed and the password is the one it
/// was made from.
pub open spec fn password_verifies(encoded: Seq<char>, password: Seq<char>) -> bool {
    argon2_verify_outcome(encoded, encode_utf8(password)) == Some(true)
}

/// Whether a password is short enough to be hashed.
pub open spec fn hashable(password: Seq<char>) -> bool {
    encode_utf8(password).len() <= MAX_PASSWORD_BYTES
}

/// A text of `n` characters takes at most `4 * n` bytes.
pub proof fn lemma_utf8_length(text: Seq<char>)
    ensures
        encode_utf8(text).len() <= 4 * text.len(),
    decreases text.len(),
{
    if text.len() > 0 {
        lemma_utf8_length(text.drop_first());
    }
}

/// Turns the answer of the random source into a salt: the filled buffer
/// where the source succeeded, `Failure::Crypto` where it did not.
pub fn salt_from(
    outcome: Result<(), openssl::error::ErrorStack>,
    buf: [u8; SALT_LEN],
) -> (r: Result<[u8; SALT_LEN], Failure>)
    ensures
        outcome is Ok ==> r == Ok::<[u8; SALT_LEN], Failure>(buf),
        outcome is Err ==> r == Err::<[u8; SALT_LEN], Failure>(Failure::Crypto),
{
    match outcome {
        Ok(_) => Ok(buf),
        Err(_) => Err(Failure::Crypto),
    }
}

/// Draws a fresh salt from the cryptographic random source. A source that
/// reports an error gives `Failure::Crypto`, never a weaker salt.
pub fn generate_random_salt() -> (r: Result<[u8; SALT_LEN], Failure>)
    ensures
        r matches Err(e) ==> e == Failure::Crypto,
{
    let mut salt = [0u8; SALT_LEN];
    let outcome = fill_random(&mut salt);
    salt_from(outcome, salt)
}

/// Turns the answer of the hasher into the library's result.
pub fn hash_from(outcome: Result<String, argon2::Error>) -> (r: Result<String, Failure>)
    ensures
        outcome matches Ok(h) ==> r == Ok::<String, Failure>(h),
        outcome is Err ==> r == Err::<String, Failure>(Failure::Crypto),
{
    match outcome {
        Ok(h) => Ok(h),
        Err(_) => Err(Failure::Crypto),
    }
}

/// Hashes a password with a salt under the fixed costs and returns the
/// encoded hash. Every password of at most `MAX_PASSWORD_BYTES` bytes is
/// hashed; a longer one gives `Failure::Crypto`. The hash that comes back
/// verifies against the same password.
pub fn hash_password(password: &str, salt: &[u8; SALT_LEN]) -> (r: Result<String, Failure>)
    ensures
        r is Ok <==> hashable(password@),
        r matches Ok(h) ==> h@ == encoded_hash(password@, salt@) && password_verifies(
            h@,
            password@,
        ),
        r matches Err(e) ==> e == Failure::Crypto,
{
    let outcome = argon2_hash_encoded(
        HASH_VARIANT,
        HASH_VERSION,
        HASH_MEM_COST,
        HASH_TIME_COST,
        HASH_LANES,
        HASH_LENGTH,
        password.as_bytes(),
        salt.as_slice(),
    );
    hash_from(outcome)
}

/// Reads the verifier's answer: only a plain "yes" counts. An answer of
/// "no" and a report that the encoded hash is malformed both give `false`.
pub fn verdict(outcome: Result<bool, argon2::Error>) -> (ok: bool)
    ensures
        ok <==> (outcome matches Ok(b) && b),
{
    match outcome {
        Ok(b) => b,
        Err(_) => false,
    }
}

/// Checks a password against an encoded hash, with the costs and the salt
/// that the hash itself names. A malformed hash gives `false`.
pub fn verify_password(encoded_password: &str, password: &str) -> (ok: bool)
    ensures
        ok == password_verifies(encoded_password@, password@),
{
    verdict(argon2_verify_encoded(encoded_password, password.as_bytes()))
}

} // verus!
