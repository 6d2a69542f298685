//! The outside functions and types the library relies on, each with the
//! contract it is trusted to meet.

use vstd::arithmetic::power2::pow2;
use vstd::prelude::*;

verus! {

/// std's I/O error, carried through unread.
#[verifier::external_type_specification]
#[verifier::external_body]
pub struct ExIoError(std::io::Error);

/// The AEAD error, which by design says nothing of its cause.
#[verifier::external_type_specification]
#[verifier::external_body]
pub struct ExAeadError(aead::Error);

/// The error of the operating system's random source.
#[verifier::external_type_specification]
#[verifier::external_body]
pub struct ExRandError(rand_core::Error);

/// Length of the derived key, in bytes.
pub const KEY_LEN: usize = 32;

/// Largest plaintext AES-GCM seals, in bytes.
pub const AEAD_MAX_PLAINTEXT: u64 = 0x10_0000_0000;

/// Largest plaintext AES-GCM opens, in bytes: the ciphertext bound less the tag.
pub const AEAD_MAX_OPENED: u64 = 0x10_0000_0010;

/// Bytes the authentication tag adds to a sealed payload.
pub const AEAD_TAG_LEN: usize = 16;

/// The constraints scrypt puts on its cost parameters, for a 32-byte key:
/// positive `r` and `p`, `N = 2^log_n` below `2^(16 r)`, `r p < 2^30`, and
/// the working buffers `128 r N` and `128 r p` addressable.
pub open spec fn scrypt_params_valid(log_n: u8, r: u32, p: u32) -> bool {
    &&& r > 0
    &&& p > 0
    &&& (log_n as int) < 16 * (r as int)
    &&& (r as int) * (p as int) < 0x4000_0000
    &&& 128 * (r as int) * pow2(log_n as nat) <= usize::MAX
    &&& 128 * (r as int) * (p as int) <= usize::MAX
}

/// The 32-byte key scrypt derives from a password and salt.
pub uninterp spec fn scrypt_key(password: Seq<u8>, salt: Seq<u8>, log_n: u8, r: u32, p: u32) -> Seq<u8>;

/// The AES-256-GCM sealing (ciphertext then tag) of a plaintext under a key
/// and nonce, as aes_gcm computes it.
pub uninterp spec fn aes_gcm_seal(key: Seq<u8>, nonce: Seq<u8>, plaintext: Seq<u8>) -> Seq<u8>;

/// The zlib stream flate2 produces at its default level.
pub uninterp spec fn zlib_of(data: Seq<u8>) -> Seq<u8>;

/// What flate2's zlib decoder inflates a buffer to, or `None` where it
/// reports an error.
pub uninterp spec fn inflate_of(data: Seq<u8>) -> Option<Seq<u8>>;

/// Relies on scrypt::Params::new: it accepts exactly the parameters of
/// `scrypt_params_valid` for a 32-byte output.
#[verifier::external_body]
pub(crate) fn scrypt_params_check(log_n: u8, r: u32, p: u32) -> (ok: bool)
    ensures
        ok == scrypt_params_valid(log_n, r, p),
{
    scrypt::Params::new(log_n, r, p, KEY_LEN).is_ok()
}

/// Relies on scrypt::scrypt (with its parameters built by scrypt::Params::new):
/// for valid parameters and a 32-byte output it fills the output with the
/// derived key, a function of its inputs alone.
#[verifier::external_body]
pub(crate) fn scrypt_derive(password: &[u8], salt: &[u8], log_n: u8, r: u32, p: u32) -> (key: [u8; 32])
    requires
        scrypt_params_valid(log_n, r, p),
    ensures
        key@ == scrypt_key(password@, salt@, log_n, r, p),
{
    let mut key = [0u8; 32];
    if let Ok(params) = scrypt::Params::new(log_n, r, p, KEY_LEN) {
        let _ = scrypt::scrypt(password, salt, &params, &mut key);
    }
    key
}

/// Relies on aes_gcm's Aead::encrypt for Aes256Gcm: it refuses plaintexts
/// over 2^36 bytes and otherwise appends a 16-byte tag to the ciphertext.
#[verifier::external_body]
pub(crate) fn aes_gcm_encrypt(key: &[u8; 32], nonce: &[u8; 12], plaintext: &[u8]) -> (r: Result<Vec<u8>, aead::Error>)
    ensures
        r is Ok <==> plaintext@.len() <= AEAD_MAX_PLAINTEXT,
        r is Ok ==> r->Ok_0@ == aes_gcm_seal(key@, nonce@, plaintext@),
        r is Ok ==> r->Ok_0@.len() == plaintext@.len() + AEAD_TAG_LEN,
{
    let cipher = <aes_gcm::Aes256Gcm as aead::KeyInit>::new(aead::generic_array::GenericArray::from_slice(key));
    aead::Aead::encrypt(&cipher, aead::generic_array::GenericArray::from_slice(nonce), plaintext)
}

/// Relies on aes_gcm's Aead::decrypt for Aes256Gcm: it opens exactly what
/// the same key and nonce sealed, and what it opens seals back to its input;
/// it refuses a message part (ciphertext less tag) over 2^36 + 16 bytes.
#[verifier::external_body]
pub(crate) fn aes_gcm_decrypt(key: &[u8; 32], nonce: &[u8; 12], ciphertext: &[u8]) -> (r: Result<Vec<u8>, aead::Error>)
    ensures
        r is Ok ==> aes_gcm_seal(key@, nonce@, r->Ok_0@) == ciphertext@,
        r is Ok ==> r->Ok_0@.len() <= AEAD_MAX_OPENED,
        forall|pt: Seq<u8>|
            #![trigger aes_gcm_seal(key@, nonce@, pt)]
            pt.len() <= AEAD_MAX_OPENED && aes_gcm_seal(key@, nonce@, pt) == ciphertext@
                ==> r is Ok && r->Ok_0@ == pt,
{
    let cipher = <aes_gcm::Aes256Gcm as aead::KeyInit>::new(aead::generic_array::GenericArray::from_slice(key));
    aead::Aead::decrypt(&cipher, aead::generic_array::GenericArray::from_slice(nonce), ciphertext)
}

/// Relies on flate2::write::ZlibEncoder (default level) writing into a `Vec`:
/// the stream it finishes with is a function of the input alone. A fresh
/// compressor writing into memory reports no error, so none is handed on.
#[verifier::external_body]
pub(crate) fn zlib_compress(data: &[u8]) -> (r: Vec<u8>)
    ensures
        r@ == zlib_of(data@),
{
    let mut encoder = flate2::write::ZlibEncoder::new(Vec::new(), flate2::Compression::default());
    let _ = std::io::Write::write_all(&mut encoder, data);
    encoder.finish().unwrap_or_default()
}

/// Relies on flate2::bufread::ZlibDecoder read to the end: the outcome is a
/// function of the input alone, and a stream that the encoder produced
/// inflates back to the encoder's input.
#[verifier::external_body]
pub(crate) fn zlib_decompress(data: &[u8]) -> (r: Result<Vec<u8>, std::io::Error>)
    ensures
        r is Ok <==> inflate_of(data@) is Some,
        r is Ok ==> inflate_of(data@) == Some(r->Ok_0@),
        forall|d: Seq<u8>| #[trigger] zlib_of(d) == data@ ==> r is Ok && r->Ok_0@ == d,
{
    let mut out = Vec::new();
    std::io::Read::read_to_end(&mut flate2::bufread::ZlibDecoder::new(data), &mut out)?;
    Ok(out)
}

/// Relies on rand_core's OsRng::try_fill_bytes: `n` bytes from the
/// operating system's secure source. Nothing is known of their values.
#[verifier::external_body]
pub(crate) fn os_random_bytes(n: usize) -> (r: Result<Vec<u8>, rand_core::Error>)
    ensures
        r is Ok ==> r->Ok_0@.len() == n,
{
    let mut buf = vec![0u8; n];
    rand_core::RngCore::try_fill_bytes(&mut rand_core::OsRng, &mut buf)?;
    Ok(buf)
}

/// Relies on String::from_utf8: it accepts exactly the valid UTF-8 byte
/// sequences and decodes them.
#[verifier::external_body]
pub(crate) fn string_from_utf8(bytes: Vec<u8>) -> (r: Option<String>)
    ensures
        r is Some <==> vstd::utf8::valid_utf8(bytes@),
        r is Some ==> r->0@ == vstd::utf8::decode_utf8(bytes@),
{
    String::from_utf8(bytes).ok()
}

} // verus!
