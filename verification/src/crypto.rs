//! Password-based key derivation for the Noise PSK.

use vstd::prelude::*;
use vstd::utf8::*;

verus! {

/// Fixed application salt. The password is the real secret; this salt only
/// provides domain separation, and both peers must derive an identical key, so
/// a constant is correct here.
pub const PSK_SALT: &'static str = "rs_srp/noise-psk/v1";

/// Memory, in KiB, that one derivation takes.
pub const PSK_MEMORY: u32 = 65536;

/// Passes over that memory.
pub const PSK_PASSES: u32 = 3;

/// Lanes the memory is divided into.
pub const PSK_LANES: u32 = 1;

/// What went wrong inside `argon2`.
#[verifier::external_type_specification]
#[verifier::external_body]
pub struct ExArgon2Error(argon2::Error);

/// The Argon2id hash, version 0x13, of a password under a salt, with the given
/// memory (KiB), passes, lanes and length.
pub uninterp spec fn argon2id_hash(
    password: Seq<u8>,
    salt: Seq<u8>,
    memory: u32,
    passes: u32,
    lanes: u32,
    len: nat,
) -> Seq<u8>;

/// Hashes a password: `argon2::Argon2::hash_password_into`, on a context for
/// Argon2id, version 0x13, with the given parameters.
///
/// Claims that the hash depends on the arguments alone and has the length asked
/// for, and that it fails exactly when `argon2` rejects a parameter, the salt or
/// the length of the password. More lanes or memory than the bounds admit could
/// overflow or exhaust the address space in `argon2`; longer hashes are not
/// needed.
#[verifier::external_body]
fn argon2id(
    password: &[u8],
    salt: &[u8],
    memory: u32,
    passes: u32,
    lanes: u32,
    len: usize,
) -> (r: Result<Vec<u8>, argon2::Error>)
    requires
        memory <= 0x10_0000,
        lanes <= 0xFF_FFFF,
        len <= 64,
    ensures
        r is Ok <==> {
            &&& 8 <= memory
            &&& lanes * 8 <= memory
            &&& 1 <= passes
            &&& 1 <= lanes
            &&& 4 <= len
            &&& 8 <= salt@.len() <= 0xFFFF_FFFF
            &&& password@.len() <= 0xFFFF_FFFF
        },
        r matches Ok(hash) ==> hash@.len() == len && hash@ == argon2id_hash(
            password@,
            salt@,
            memory,
            passes,
            lanes,
            len as nat,
        ),
{
    let params = argon2::Params::new(memory, passes, lanes, Some(len))?;
    let context = argon2::Argon2::new(argon2::Algorithm::Argon2id, argon2::Version::V0x13, params);
    let mut hash = vec![0u8; len];
    context.hash_password_into(password, salt, &mut hash)?;
    Ok(hash)
}

/// The PSK that a password stands for.
pub open spec fn psk_of(password: Seq<char>) -> Seq<u8> {
    argon2id_hash(
        encode_utf8(password),
        encode_utf8(PSK_SALT@),
        PSK_MEMORY,
        PSK_PASSES,
        PSK_LANES,
        32,
    )
}

/// Derives the 32-byte Noise PSK from the shared password with Argon2id.
///
/// The parameters are deliberately expensive (64 MiB, 3 passes) so that a
/// captured handshake is costly to brute-force offline. Fails exactly for
/// passwords of 4 GiB and more.
pub fn derive_psk(password: &str) -> (r: Result<[u8; 32], argon2::Error>)
    ensures
        r is Ok <==> encode_utf8(password@).len() <= 0xFFFF_FFFF,
        r matches Ok(psk) ==> psk@ == psk_of(password@),
        r matches Ok(psk) ==> psk@ == argon2id_hash(
            encode_utf8(password@),
            encode_utf8("rs_srp/noise-psk/v1"@),
            65536,
            3,
            1,
            32,
        ),
{
    let salt = PSK_SALT.as_bytes();
    proof {
        reveal_strlit("rs_srp/noise-psk/v1");
        assert(is_ascii_chars(PSK_SALT@));
        is_ascii_chars_encode_utf8(PSK_SALT@);
    }
    let hash = match argon2id(
        password.as_bytes(),
        salt,
        PSK_MEMORY,
        PSK_PASSES,
        PSK_LANES,
        32,
    ) {
        Ok(hash) => hash,
        Err(e) => return Err(e),
    };
    let mut psk: [u8; 32] = [0u8; 32];
    let mut i: usize = 0;
    while i < 32
        invariant
            i <= 32,
            hash@.len() == 32,
            forall|k: int| 0 <= k < i ==> psk@[k] == hash@[k],
        decreases 32 - i,
    {
        psk[i] = hash[i];
        i += 1;
    }
    assert(psk@ =~= hash@);
    Ok(psk)
}

} // verus!
