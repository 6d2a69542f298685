//! Credential vaults and their sealed, versioned file format.

use vstd::prelude::*;
use vstd::utf8::*;

use crate::codec::{
    entries_bytes, field_bytes, lemma_entries_bytes_append, lemma_entries_round_trip,
    lemma_u32_be_round_trip, lemma_u64_be_round_trip, parse_entries, parse_field, push_u32_be,
    push_u64_be, read_field, read_u32_be, read_u64_be, u32_be, u32_from_be, u64_be, u64_from_be,
};
use crate::primitives::{
    aes_gcm_decrypt, aes_gcm_encrypt, aes_gcm_seal, os_random_bytes, scrypt_derive, scrypt_key,
    scrypt_params_check, scrypt_params_valid, zlib_compress, zlib_decompress, zlib_of, inflate_of,
    AEAD_MAX_OPENED, AEAD_MAX_PLAINTEXT, AEAD_TAG_LEN,
};

verus! {

/// One credential: a name and its secret.
#[derive(Debug, Clone, PartialEq, Eq)]
pub struct PasswordEntry {
    name: String,
    password: String,
}

/// A vault: credentials in the order they were added.
#[derive(Debug, Clone, PartialEq, Eq)]
pub struct PasswordFile {
    entries: Vec<PasswordEntry>,
}

impl View for PasswordEntry {
    type V = (Seq<char>, Seq<char>);

    closed spec fn view(&self) -> (Seq<char>, Seq<char>) {
        (self.name@, self.password@)
    }
}

impl View for PasswordFile {
    type V = Seq<(Seq<char>, Seq<char>)>;

    closed spec fn view(&self) -> Seq<(Seq<char>, Seq<char>)> {
        self.entries@.map_values(|e: PasswordEntry| e@)
    }
}

impl PasswordEntry {
    pub fn new(name: String, password: String) -> (r: PasswordEntry)
        ensures
            r@ == (name@, password@),
    {
        PasswordEntry { name, password }
    }

    pub fn name(&self) -> (r: &str)
        ensures
            r@ == self@.0,
    {
        self.name.as_str()
    }

    pub fn password(&self) -> (r: &str)
        ensures
            r@ == self@.1,
    {
        self.password.as_str()
    }
}

impl PasswordFile {
    pub fn new(entries: Vec<PasswordEntry>) -> (r: PasswordFile)
        ensures
            r@ == entries@.map_values(|e: PasswordEntry| e@),
    {
        PasswordFile { entries }
    }

    pub fn entries(&self) -> (r: &[PasswordEntry])
        ensures
            r@.map_values(|e: PasswordEntry| e@) == self@,
    {
        self.entries.as_slice()
    }

    /// The compact byte encoding of the entries.
    pub fn to_payload(&self) -> (r: Vec<u8>)
        ensures
            r@ == entries_bytes(self@),
            entries_fit(self@),
    {
        let mut out: Vec<u8> = Vec::new();
        let mut i: usize = 0;
        while i < self.entries.len()
            invariant
                i <= self.entries@.len(),
                out@ == entries_bytes(self@.take(i as int)),
                entries_fit(self@.take(i as int)),
                self@ == self.entries@.map_values(|e: PasswordEntry| e@),
            decreases self.entries@.len() - i,
        {
            let e = &self.entries[i];
            let name = e.name.as_str().as_bytes();
            let secret = e.password.as_str().as_bytes();
            push_u64_be(&mut out, name.len() as u64);
            out.extend_from_slice(name);
            push_u64_be(&mut out, secret.len() as u64);
            out.extend_from_slice(secret);
            proof {
                let one = seq![e@];
                assert(self@.take(i + 1) =~= self@.take(i as int) + one);
                lemma_entries_bytes_append(self@.take(i as int), one);
                assert(one.drop_first() =~= Seq::<(Seq<char>, Seq<char>)>::empty());
                assert(entries_bytes(one.drop_first()) == Seq::<u8>::empty());
                assert(one[0] == e@);
                assert(entries_bytes(one) =~= field_bytes(e@.0) + field_bytes(e@.1));
                assert forall|j: int| 0 <= j < i + 1 implies encode_utf8(
                    #[trigger] self@.take(i + 1)[j].0,
                ).len() <= u64::MAX && encode_utf8(self@.take(i + 1)[j].1).len() <= u64::MAX by {
                    if j < i {
                        assert(self@.take(i + 1)[j] == self@.take(i as int)[j]);
                    }
                }
            }
            i = i + 1;
        }
        assert(self@.take(self.entries@.len() as int) =~= self@);
        out
    }

    /// Decodes a payload made of whole entries.
    pub fn from_payload(d: &[u8]) -> (r: Option<PasswordFile>)
        ensures
            r is Some <==> parse_entries(d@) is Some,
            r is Some ==> r->0@ == parse_entries(d@)->0,
    {
        let mut entries: Vec<PasswordEntry> = Vec::new();
        let mut pos: usize = 0;
        proof {
            assert(d@.skip(0) =~= d@);
            let start = parse_entries(d@);
            if start is Some {
                assert(Seq::empty() + start->0 =~= start->0);
            }
            assert(entries@.map_values(|e: PasswordEntry| e@) =~= Seq::empty());
        }
        while pos < d.len()
            invariant
                pos <= d@.len(),
                parse_entries(d@) == prepend(
                    entries@.map_values(|e: PasswordEntry| e@),
                    parse_entries(d@.skip(pos as int)),
                ),
            decreases d@.len() - pos,
        {
            let ghost rest = d@.skip(pos as int);
            let ghost done = entries@.map_values(|e: PasswordEntry| e@);
            match read_field(d, pos) {
                None => {
                    return None;
                },
                Some((name, mid)) => {
                    assert(d@.skip(mid as int).len() == d@.len() - mid);
                    match read_field(d, mid) {
                        None => {
                            return None;
                        },
                        Some((password, end)) => {
                            let ghost e = (name@, password@);
                            proof {
                                assert(parse_field(rest) == Some((name@, d@.skip(mid as int))));
                                assert(d@.skip(end as int).len() < rest.len());
                                assert(parse_entries(rest) == prepend(
                                    seq![e],
                                    parse_entries(d@.skip(end as int)),
                                ));
                            }
                            entries.push(PasswordEntry { name, password });
                            proof {
                                assert(entries@.map_values(|x: PasswordEntry| x@) =~= done + seq![e]);
                                let tail = parse_entries(d@.skip(end as int));
                                if tail is Some {
                                    assert(done + (seq![e] + tail->0) =~= (done + seq![e]) + tail->0);
                                }
                            }
                            pos = end;
                        },
                    }
                },
            }
        }
        assert(d@.skip(pos as int).len() == 0);
        assert(entries@.map_values(|e: PasswordEntry| e@) + Seq::empty() =~= entries@.map_values(|e: PasswordEntry| e@));
        Some(PasswordFile { entries })
    }
}

/// The current file format version.
pub const CURRENT_VERSION: u64 = 1;

/// The marker that opens a vault file: `__SKELETONSTICK` and a newline.
pub const FILE_START: [u8; 16] = [
    0x5f, 0x5f, 0x53, 0x4b, 0x45, 0x4c, 0x45, 0x54, 0x4f, 0x4e, 0x53, 0x54, 0x49, 0x43, 0x4b, 0x0a,
];

/// Bytes before the ciphertext: marker, version, cost parameters, salt,
/// nonce and ciphertext length.
pub const HEADER_LEN: usize = 85;

pub open spec fn magic() -> Seq<u8> {
    seq![
        0x5fu8, 0x5fu8, 0x53u8, 0x4bu8, 0x45u8, 0x4cu8, 0x45u8, 0x54u8, 0x4fu8, 0x4eu8, 0x53u8,
        0x54u8, 0x49u8, 0x43u8, 0x4bu8, 0x0au8,
    ]
}

/// Why a vault could not be sealed, read or opened.
#[derive(Debug, PartialEq, Eq, Structural, Clone, Copy)]
pub enum VaultError {
    /// The buffer does not open with the format's marker.
    BadMagic,
    /// The format version is not one this reader supports.
    UnsupportedVersion(u64),
    /// The buffer ends inside the header or the ciphertext.
    Truncated,
    /// The key derivation cost parameters are out of range.
    InvalidParams,
    /// The ciphertext does not verify under the derived key: a wrong
    /// password or a corrupted vault, which are not told apart.
    AuthenticationFailure,
    /// The ciphertext verified but its payload does not decode.
    MalformedPayload,
    /// The compressed payload is larger than the cipher accepts.
    PayloadTooLarge,
    /// The random source failed.
    RandomSource,
}

/// Key derivation cost parameters: `log2(N)`, `r` and `p` of scrypt.
#[derive(Debug, PartialEq, Eq, Structural, Clone, Copy)]
pub struct EncryptParams {
    log_n: u8,
    r: u32,
    p: u32,
}

impl EncryptParams {
    #[verifier::type_invariant]
    spec fn valid(&self) -> bool {
        scrypt_params_valid(self.log_n, self.r, self.p)
    }

    pub closed spec fn spec_log_n(&self) -> u8 {
        self.log_n
    }

    pub closed spec fn spec_r(&self) -> u32 {
        self.r
    }

    pub closed spec fn spec_p(&self) -> u32 {
        self.p
    }

    /// Checks the parameters against the key derivation's constraints
    /// before any cryptographic work.
    pub fn new(log_n: u8, r: u32, p: u32) -> (res: Result<EncryptParams, VaultError>)
        ensures
            res is Ok <==> scrypt_params_valid(log_n, r, p),
            res is Err ==> res->Err_0 == VaultError::InvalidParams,
            res is Ok ==> res->Ok_0.spec_log_n() == log_n && res->Ok_0.spec_r() == r
                && res->Ok_0.spec_p() == p,
    {
        if scrypt_params_check(log_n, r, p) {
            Ok(EncryptParams { log_n, r, p })
        } else {
            Err(VaultError::InvalidParams)
        }
    }

    pub fn log_n(&self) -> (v: u8)
        ensures
            v == self.spec_log_n(),
            scrypt_params_valid(self.spec_log_n(), self.spec_r(), self.spec_p()),
    {
        proof {
            use_type_invariant(self);
        }
        self.log_n
    }

    pub fn r(&self) -> (v: u32)
        ensures
            v == self.spec_r(),
    {
        self.r
    }

    pub fn p(&self) -> (v: u32)
        ensures
            v == self.spec_p(),
    {
        self.p
    }
}

/// A sealed vault as the file holds it.
pub struct SealedView {
    pub log_n: u8,
    pub r: u32,
    pub p: u32,
    pub salt: Seq<u8>,
    pub nonce: Seq<u8>,
    pub ciphertext: Seq<u8>,
}

/// A sealed vault: the ciphertext of its compressed payload, and what it
/// takes besides the password to open it again.
pub struct EncryptedPasswordFile {
    ciphertext: Vec<u8>,
    params: EncryptParams,
    nonce: [u8; 12],
    salt: [u8; 32],
}

impl View for EncryptedPasswordFile {
    type V = SealedView;

    closed spec fn view(&self) -> SealedView {
        SealedView {
            log_n: self.params.spec_log_n(),
            r: self.params.spec_r(),
            p: self.params.spec_p(),
            salt: self.salt@,
            nonce: self.nonce@,
            ciphertext: self.ciphertext@,
        }
    }
}

/// The key a password derives for a sealed vault.
pub open spec fn key_for(v: SealedView, password: Seq<u8>) -> Seq<u8> {
    scrypt_key(password, v.salt, v.log_n, v.r, v.p)
}

/// `v` holds `es` sealed under `password`: its ciphertext is the AES-GCM
/// sealing, under the derived key and its nonce, of the compressed encoding
/// of `es`.
pub open spec fn seals(v: SealedView, password: Seq<u8>, es: Seq<(Seq<char>, Seq<char>)>) -> bool {
    &&& entries_fit(es)
    &&& zlib_of(entries_bytes(es)).len() <= AEAD_MAX_PLAINTEXT
    &&& v.ciphertext == aes_gcm_seal(key_for(v, password), v.nonce, zlib_of(entries_bytes(es)))
}

/// Overwrites key material with zeros.
fn wipe(key: &mut [u8; 32])
    ensures
        forall|i: int| 0 <= i < 32 ==> final(key)@[i] == 0,
{
    let mut i: usize = 0;
    while i < 32
        invariant
            i <= 32,
            forall|j: int| 0 <= j < i ==> key@[j] == 0,
        decreases 32 - i,
    {
        key[i] = 0;
        i = i + 1;
    }
}

/// Overwrites a buffer of secret bytes with zeros, then empties it.
pub fn wipe_bytes(buf: &mut Vec<u8>)
    ensures
        final(buf)@.len() == 0,
{
    let n = buf.len();
    let mut i: usize = 0;
    while i < n
        invariant
            i <= n,
            buf@.len() == n,
        decreases n - i,
    {
        buf[i] = 0;
        i = i + 1;
    }
    buf.clear();
}

/// Copies `N` bytes from `pos` into an array.
fn read_array<const N: usize>(d: &[u8], pos: usize) -> (r: [u8; N])
    requires
        pos + N <= d@.len(),
    ensures
        r@ == d@.subrange(pos as int, pos + N),
{
    let mut a: [u8; N] = [0u8; N];
    let len = d.len();
    let mut i: usize = 0;
    while i < N
        invariant
            i <= N,
            len == d@.len(),
            pos + N <= d@.len(),
            a@.len() == N,
            forall|j: int| 0 <= j < i ==> a@[j] == d@[pos + j],
        decreases N - i,
    {
        a[i] = d[pos + i];
        i = i + 1;
    }
    assert(a@ =~= d@.subrange(pos as int, pos + N));
    a
}

impl PasswordFile {
    /// Seals the vault under `password` with a fresh random salt and nonce
    /// drawn from the operating system.
    pub fn encrypt(&self, params: EncryptParams, password: &[u8]) -> (r: Result<EncryptedPasswordFile, VaultError>)
        ensures
            r is Ok ==> seals(r->Ok_0@, password@, self@),
            r is Ok ==> r->Ok_0@.log_n == params.spec_log_n() && r->Ok_0@.r == params.spec_r()
                && r->Ok_0@.p == params.spec_p(),
            r is Ok ==> r->Ok_0@.ciphertext.len() == zlib_of(entries_bytes(self@)).len()
                + AEAD_TAG_LEN,
            r is Err ==> r->Err_0 == VaultError::RandomSource || (r->Err_0
                == VaultError::PayloadTooLarge && zlib_of(entries_bytes(self@)).len()
                > AEAD_MAX_PLAINTEXT),
            zlib_of(entries_bytes(self@)).len() > AEAD_MAX_PLAINTEXT ==> r is Err,
    {
        let salt_bytes = match os_random_bytes(32) {
            Ok(b) => b,
            Err(_) => {
                return Err(VaultError::RandomSource);
            },
        };
        let nonce_bytes = match os_random_bytes(12) {
            Ok(b) => b,
            Err(_) => {
                return Err(VaultError::RandomSource);
            },
        };
        let salt: [u8; 32] = read_array(salt_bytes.as_slice(), 0);
        let nonce: [u8; 12] = read_array(nonce_bytes.as_slice(), 0);
        self.encrypt_with(params, password, salt, nonce)
    }

    /// Seals the vault under `password` with the given salt and nonce. It
    /// succeeds exactly when the compressed payload fits the cipher.
    pub fn encrypt_with(
        &self,
        params: EncryptParams,
        password: &[u8],
        salt: [u8; 32],
        nonce: [u8; 12],
    ) -> (r: Result<EncryptedPasswordFile, VaultError>)
        ensures
            r is Ok <==> zlib_of(entries_bytes(self@)).len() <= AEAD_MAX_PLAINTEXT,
            r is Ok ==> seals(r->Ok_0@, password@, self@),
            r is Ok ==> r->Ok_0@.log_n == params.spec_log_n() && r->Ok_0@.r == params.spec_r()
                && r->Ok_0@.p == params.spec_p() && r->Ok_0@.salt == salt@
                && r->Ok_0@.nonce == nonce@,
            r is Ok ==> r->Ok_0@.ciphertext.len() == zlib_of(entries_bytes(self@)).len()
                + AEAD_TAG_LEN,
            r is Err ==> r->Err_0 == VaultError::PayloadTooLarge,
    {
        let mut payload = self.to_payload();
        let mut compressed = zlib_compress(payload.as_slice());
        wipe_bytes(&mut payload);
        let mut key = scrypt_derive(password, salt.as_slice(), params.log_n(), params.r(), params.p());
        let sealed = aes_gcm_encrypt(&key, &nonce, compressed.as_slice());
        wipe(&mut key);
        wipe_bytes(&mut compressed);
        match sealed {
            Ok(ciphertext) => Ok(EncryptedPasswordFile { ciphertext, params, nonce, salt }),
            Err(_) => Err(VaultError::PayloadTooLarge),
        }
    }

    /// Hands the entries over, so that their owner can wipe them.
    pub fn into_entries(self) -> (r: Vec<PasswordEntry>)
        ensures
            r@.map_values(|e: PasswordEntry| e@) == self@,
    {
        self.entries
    }
}

impl PasswordEntry {
    /// Hands the name and the secret over, so that their owner can wipe them.
    pub fn into_parts(self) -> (r: (String, String))
        ensures
            r.0@ == self@.0,
            r.1@ == self@.1,
    {
        (self.name, self.password)
    }
}

impl EncryptedPasswordFile {
    pub fn params(&self) -> (r: EncryptParams)
        ensures
            r.spec_log_n() == self@.log_n && r.spec_r() == self@.r && r.spec_p() == self@.p,
    {
        self.params
    }

    pub fn salt(&self) -> (r: [u8; 32])
        ensures
            r@ == self@.salt,
    {
        self.salt
    }

    pub fn nonce(&self) -> (r: [u8; 12])
        ensures
            r@ == self@.nonce,
    {
        self.nonce
    }

    pub fn ciphertext(&self) -> (r: &[u8])
        ensures
            r@ == self@.ciphertext,
    {
        self.ciphertext.as_slice()
    }

    /// Opens the vault with `password`. What `encrypt` sealed under the same
    /// password opens to the same entries; a ciphertext that does not verify
    /// under the derived key fails with `AuthenticationFailure`. The result
    /// depends on the vault and the password alone.
    pub fn decrypt(&self, password: &[u8]) -> (r: Result<PasswordFile, VaultError>)
        ensures
            r is Ok <==> unseal_spec(self@, password@) is Ok,
            r is Ok ==> r->Ok_0@ == unseal_spec(self@, password@)->Ok_0,
            r is Err ==> r->Err_0 == unseal_spec(self@, password@)->Err_0,
            forall|es: Seq<(Seq<char>, Seq<char>)>| #[trigger] seals(self@, password@, es)
                ==> r is Ok && r->Ok_0@ == es,
            r matches Err(VaultError::AuthenticationFailure) <==> !authentic(self@, password@),
    {
        proof {
            use_type_invariant(&self.params);
        }
        let mut key = scrypt_derive(
            password,
            self.salt.as_slice(),
            self.params.log_n,
            self.params.r,
            self.params.p,
        );
        let opened = aes_gcm_decrypt(&key, &self.nonce, self.ciphertext.as_slice());
        wipe(&mut key);
        let mut compressed = match opened {
            Ok(c) => c,
            Err(_) => {
                return Err(VaultError::AuthenticationFailure);
            },
        };
        proof {
            let z = choose|z: Seq<u8>| opens_to(self@, password@, z);
            assert(opens_to(self@, password@, compressed@));
            assert(z == compressed@);
        }
        let inflated = zlib_decompress(compressed.as_slice());
        wipe_bytes(&mut compressed);
        let mut payload = match inflated {
            Ok(p) => p,
            Err(_) => {
                return Err(VaultError::MalformedPayload);
            },
        };
        let file = PasswordFile::from_payload(payload.as_slice());
        proof {
            assert forall|es: Seq<(Seq<char>, Seq<char>)>| #[trigger] seals(self@, password@, es)
                implies file is Some && file->0@ == es by {
                assert(aes_gcm_seal(key_for(self@, password@), self@.nonce, zlib_of(entries_bytes(es)))
                    == self@.ciphertext);
                lemma_entries_round_trip(es);
            }
        }
        wipe_bytes(&mut payload);
        match file {
            Some(f) => Ok(f),
            None => Err(VaultError::MalformedPayload),
        }
    }
}

/// `z` is a plaintext that the cipher opens and that seals, under the key
/// `password` derives, to the vault's ciphertext.
pub open spec fn opens_to(v: SealedView, password: Seq<u8>, z: Seq<u8>) -> bool {
    &&& z.len() <= AEAD_MAX_OPENED
    &&& aes_gcm_seal(key_for(v, password), v.nonce, z) == v.ciphertext
}

/// The ciphertext verifies under the key `password` derives.
pub open spec fn authentic(v: SealedView, password: Seq<u8>) -> bool {
    exists|z: Seq<u8>| #[trigger] opens_to(v, password, z)
}

/// What opening `v` with `password` gives: authentication, then inflating,
/// then decoding the entries.
pub open spec fn unseal_spec(v: SealedView, password: Seq<u8>) -> Result<
    Seq<(Seq<char>, Seq<char>)>,
    VaultError,
> {
    if !authentic(v, password) {
        Err(VaultError::AuthenticationFailure)
    } else {
        let z = choose|z: Seq<u8>| opens_to(v, password, z);
        match inflate_of(z) {
            None => Err(VaultError::MalformedPayload),
            Some(payload) => match parse_entries(payload) {
                None => Err(VaultError::MalformedPayload),
                Some(es) => Ok(es),
            },
        }
    }
}

/// The file bytes of a sealed vault: marker, version, cost parameters,
/// salt, nonce, ciphertext length and ciphertext.
pub open spec fn frame_bytes(v: SealedView) -> Seq<u8> {
    magic() + u64_be(CURRENT_VERSION) + seq![v.log_n] + u32_be(v.r) + u32_be(v.p) + v.salt + v.nonce
        + u64_be(v.ciphertext.len() as u64) + v.ciphertext
}

/// What reading `d` gives. The marker, the version and then the cost
/// parameters are checked before anything after them is read; trailing bytes after the ciphertext are ignored.
pub open spec fn parse_frame(d: Seq<u8>) -> Result<SealedView, VaultError> {
    if d.len() < 16 {
        Err(VaultError::Truncated)
    } else if d.take(16) != magic() {
        Err(VaultError::BadMagic)
    } else if d.len() < 24 {
        Err(VaultError::Truncated)
    } else if u64_from_be(d.subrange(16, 24)) != CURRENT_VERSION {
        Err(VaultError::UnsupportedVersion(u64_from_be(d.subrange(16, 24))))
    } else if d.len() < 33 {
        Err(VaultError::Truncated)
    } else if !scrypt_params_valid(d[24], u32_from_be(d.subrange(25, 29)), u32_from_be(d.subrange(29, 33))) {
        Err(VaultError::InvalidParams)
    } else if d.len() < HEADER_LEN {
        Err(VaultError::Truncated)
    } else if d.len() - HEADER_LEN < u64_from_be(d.subrange(77, 85)) {
        Err(VaultError::Truncated)
    } else {
        Ok(SealedView {
            log_n: d[24],
            r: u32_from_be(d.subrange(25, 29)),
            p: u32_from_be(d.subrange(29, 33)),
            salt: d.subrange(33, 65),
            nonce: d.subrange(65, 77),
            ciphertext: d.subrange(85, 85 + u64_from_be(d.subrange(77, 85))),
        })
    }
}

/// A buffer whose marker or version differs is refused by reading it, which
/// derives no key and decrypts nothing.
pub proof fn lemma_magic_version_guard(d: Seq<u8>)
    ensures
        d.len() >= 16 && d.take(16) != magic() ==> parse_frame(d) == Err::<SealedView, VaultError>(
            VaultError::BadMagic,
        ),
        d.len() >= 24 && d.take(16) == magic() && u64_from_be(d.subrange(16, 24)) != CURRENT_VERSION
            ==> parse_frame(d) == Err::<SealedView, VaultError>(
            VaultError::UnsupportedVersion(u64_from_be(d.subrange(16, 24))),
        ),
{
}

/// Reading what was written gives the sealed vault back.
pub proof fn lemma_frame_round_trip(v: SealedView)
    requires
        scrypt_params_valid(v.log_n, v.r, v.p),
        v.salt.len() == 32,
        v.nonce.len() == 12,
        v.ciphertext.len() <= u64::MAX,
    ensures
        parse_frame(frame_bytes(v)) == Ok::<SealedView, VaultError>(v),
{
    let d = frame_bytes(v);
    lemma_u64_be_round_trip(CURRENT_VERSION);
    lemma_u64_be_round_trip(v.ciphertext.len() as u64);
    lemma_u32_be_round_trip(v.r);
    lemma_u32_be_round_trip(v.p);
    assert(d.take(16) =~= magic());
    assert(d.subrange(16, 24) =~= u64_be(CURRENT_VERSION));
    assert(d.subrange(25, 29) =~= u32_be(v.r));
    assert(d.subrange(29, 33) =~= u32_be(v.p));
    assert(d.subrange(33, 65) =~= v.salt);
    assert(d.subrange(65, 77) =~= v.nonce);
    assert(d.subrange(77, 85) =~= u64_be(v.ciphertext.len() as u64));
    assert(d.subrange(85, 85 + v.ciphertext.len() as int) =~= v.ciphertext);
}

impl EncryptedPasswordFile {
    /// The file bytes of this vault, in the current version.
    pub fn to_bytes(&self) -> (r: Vec<u8>)
        ensures
            r@ == frame_bytes(self@),
            parse_frame(r@) == Ok::<SealedView, VaultError>(self@),
    {
        let mut out: Vec<u8> = Vec::new();
        out.extend_from_slice(FILE_START.as_slice());
        assert(FILE_START@ =~= magic());
        push_u64_be(&mut out, CURRENT_VERSION);
        out.push(self.params.log_n);
        push_u32_be(&mut out, self.params.r);
        push_u32_be(&mut out, self.params.p);
        out.extend_from_slice(self.salt.as_slice());
        out.extend_from_slice(self.nonce.as_slice());
        push_u64_be(&mut out, self.ciphertext.len() as u64);
        out.extend_from_slice(self.ciphertext.as_slice());
        assert(out@ =~= frame_bytes(self@));
        proof {
            use_type_invariant(&self.params);
            lemma_frame_round_trip(self@);
        }
        out
    }

    /// Reads a vault from file bytes. A wrong marker or an unsupported
    /// version is refused before anything else is read.
    pub fn from_bytes(d: &[u8]) -> (r: Result<EncryptedPasswordFile, VaultError>)
        ensures
            r is Ok <==> parse_frame(d@) is Ok,
            r is Ok ==> r->Ok_0@ == parse_frame(d@)->Ok_0,
            r is Err ==> r->Err_0 == parse_frame(d@)->Err_0,
    {
        let len = d.len();
        if len < 16 {
            return Err(VaultError::Truncated);
        }
        let mut i: usize = 0;
        while i < 16
            invariant
                i <= 16,
                16 <= d@.len(),
                forall|j: int| 0 <= j < i ==> d@[j] == magic()[j],
            decreases 16 - i,
        {
            assert(FILE_START@ =~= magic());
            if d[i] != FILE_START[i] {
                assert(d@.take(16)[i as int] != magic()[i as int]);
                return Err(VaultError::BadMagic);
            }
            i = i + 1;
        }
        assert(d@.take(16) =~= magic());
        if len < 24 {
            return Err(VaultError::Truncated);
        }
        let version = read_u64_be(d, 16);
        if version != CURRENT_VERSION {
            return Err(VaultError::UnsupportedVersion(version));
        }
        if len < 33 {
            return Err(VaultError::Truncated);
        }
        let log_n = d[24];
        let r = read_u32_be(d, 25);
        let p = read_u32_be(d, 29);
        let params = match EncryptParams::new(log_n, r, p) {
            Ok(params) => params,
            Err(e) => {
                return Err(e);
            },
        };
        if len < HEADER_LEN {
            return Err(VaultError::Truncated);
        }
        let salt: [u8; 32] = read_array(d, 33);
        let nonce: [u8; 12] = read_array(d, 65);
        let body_len = read_u64_be(d, 77);
        if ((len - HEADER_LEN) as u64) < body_len {
            return Err(VaultError::Truncated);
        }
        let end = HEADER_LEN + body_len as usize;
        let ciphertext = vstd::slice::slice_to_vec(vstd::slice::slice_subrange(d, HEADER_LEN, end));
        Ok(EncryptedPasswordFile { ciphertext, params, nonce, salt })
    }
}

/// Every name and secret has a byte length that the encoding can write.
pub open spec fn entries_fit(es: Seq<(Seq<char>, Seq<char>)>) -> bool {
    forall|i: int| 0 <= i < es.len() ==> encode_utf8(#[trigger] es[i].0).len() <= u64::MAX
        && encode_utf8(es[i].1).len() <= u64::MAX
}

/// `es` put in front of the entries of `o`, if there are any.
pub open spec fn prepend(
    es: Seq<(Seq<char>, Seq<char>)>,
    o: Option<Seq<(Seq<char>, Seq<char>)>>,
) -> Option<Seq<(Seq<char>, Seq<char>)>> {
    match o {
        Some(rest) => Some(es + rest),
        None => None,
    }
}

} // verus!
