//! Export and import of the private key, protected by a password.
//!
//! The seed is encrypted before it leaves the keypair:
//!
//! ```text
//! password   --[Argon2id]-->           32-byte key
//! key + seed --[ChaCha20-Poly1305]-->  encrypted seed
//! ```
//!
//! Argon2id runs with 64 MiB of memory, 3 passes and 4 lanes. A checksum
//! (the first four bytes of SHA-256 of the seed, in hex) tells a wrong
//! password from damaged data.
//!
//! Two presentations exist: the 24 BIP-39 words of the seed, and base64 of
//! the JSON of the metadata. The JSON itself is written and read by the
//! caller that holds the serialization codec.

use vstd::prelude::*;

use crate::bytes::array_at;
use crate::crypto::{
    aead_decrypt, aead_encrypt, aead_open, aead_seal, argon2id, argon2id_derive, bip39_entropy,
    bip39_words, hex_encode, mnemonic_from_entropy, mnemonic_to_entropy, random_bytes,
    random_nonce, sha256, sha256_digest, spec_hex,
};
use crate::encoding::{base64_decode, base64_encode, lemma_decode_spec, spec_base64_decode, spec_base64_encode};
use crate::encryption::keypair::{keypair_wf, lemma_from_seed_deterministic, IdentityKeypair, KeySeed, KeypairView};
use crate::encryption::{Error, Result};
use crate::text::{contains, count_words, spec_contains, spec_count_words, spec_trim, str_eq, trim};
use vstd::utf8::encode_utf8;

verus! {

/// How an exported key is presented.
#[derive(Debug, Clone, Copy, PartialEq, Eq, Structural)]
pub enum ExportFormat {
    /// The 24 BIP-39 words of the seed, easy to write down on paper.
    Mnemonic,
    /// A base64 string, for a file or a password manager.
    Base64,
}

/// The encrypted seed with what is needed to decrypt it.
#[derive(Debug, Clone)]
pub struct KeyExport {
    /// Format version.
    pub version: u8,
    /// `"mnemonic"` or `"base64"`.
    pub format: String,
    /// The 16-byte Argon2id salt, in base64.
    pub argon2_salt: String,
    pub argon2_memory_kb: u32,
    pub argon2_iterations: u32,
    pub argon2_parallelism: u32,
    /// The 12-byte nonce, in base64.
    pub nonce: String,
    /// The encrypted seed (32 bytes and the 16-byte tag), in base64.
    pub ciphertext: String,
    /// The first four bytes of SHA-256 of the seed, in hex.
    pub checksum: String,
}

/// The result of an export.
#[derive(Debug)]
pub enum ExportedKey {
    Mnemonic {
        /// The 24 words, separated by single spaces.
        words: String,
        metadata: KeyExport,
    },
    Base64 {
        /// The base64 string to keep.
        data: String,
        metadata: KeyExport,
    },
}

/// Argon2id memory, in KiB (64 MiB).
pub const ARGON2_MEMORY_KB: u32 = 65536;

/// Argon2id passes.
pub const ARGON2_ITERATIONS: u32 = 3;

/// Argon2id lanes.
pub const ARGON2_PARALLELISM: u32 = 4;

/// The name a format is recorded under.
pub open spec fn spec_format_name(f: ExportFormat) -> Seq<char> {
    match f {
        ExportFormat::Mnemonic => "mnemonic"@,
        ExportFormat::Base64 => "base64"@,
    }
}

/// The checksum of a seed: the first four bytes of its SHA-256, in hex.
pub open spec fn spec_checksum(seed: Seq<u8>) -> Seq<char> {
    spec_hex(sha256(seed).take(4))
}

/// The key derived from a password and a salt, or `None` when Argon2id
/// refuses them (password over 2^32 - 1 bytes, salt outside 8 to 2^32 - 1 bytes).
pub open spec fn spec_derive_key(password: Seq<u8>, salt: Seq<u8>) -> Option<Seq<u8>> {
    if password.len() <= 0xffff_ffff && 8 <= salt.len() <= 0xffff_ffff {
        Some(argon2id(ARGON2_MEMORY_KB, ARGON2_ITERATIONS, ARGON2_PARALLELISM, password, salt))
    } else {
        None
    }
}

/// The outcome of decrypting the seed of an export.
pub ghost enum SeedOpen {
    Seed(Seq<u8>),
    /// The password or salt is not accepted by the key derivation.
    DerivationFailed,
    /// Damaged metadata, wrong password or checksum mismatch.
    Rejected,
}

/// What `decrypt_seed` does: decode salt, nonce and ciphertext, derive the
/// key from the password, decrypt, check the length and the checksum.
pub open spec fn spec_decrypt_seed(e: KeyExport, password: Seq<char>) -> SeedOpen {
    match (
        spec_base64_decode(e.argon2_salt@),
        spec_base64_decode(e.nonce@),
        spec_base64_decode(e.ciphertext@),
    ) {
        (Some(salt), Some(nonce), Some(ct)) => match spec_derive_key(encode_utf8(password), salt) {
            None => SeedOpen::DerivationFailed,
            Some(key) => if nonce.len() != 12 {
                SeedOpen::Rejected
            } else {
                match aead_open(key, nonce, ct) {
                    None => SeedOpen::Rejected,
                    Some(pt) => if pt.len() != 32 || spec_checksum(pt) != e.checksum@ {
                        SeedOpen::Rejected
                    } else {
                        SeedOpen::Seed(pt)
                    },
                }
            },
        },
        _ => SeedOpen::Rejected,
    }
}

/// `md` protects `seed` under `password`: Argon2id parameters as fixed
/// above, a 16-byte salt and a 12-byte nonce in base64, the seed sealed
/// under the derived key, and the seed's checksum.
pub open spec fn spec_export_of(
    seed: Seq<u8>,
    password: Seq<char>,
    format: ExportFormat,
    md: KeyExport,
) -> bool {
    &&& md.version == 1
    &&& md.format@ == spec_format_name(format)
    &&& md.argon2_memory_kb == ARGON2_MEMORY_KB
    &&& md.argon2_iterations == ARGON2_ITERATIONS
    &&& md.argon2_parallelism == ARGON2_PARALLELISM
    &&& md.checksum@ == spec_checksum(seed)
    &&& encode_utf8(password).len() <= 0xffff_ffff
    &&& exists|salt: Seq<u8>, nonce: Seq<u8>|
        {
            let key = argon2id(
                ARGON2_MEMORY_KB,
                ARGON2_ITERATIONS,
                ARGON2_PARALLELISM,
                encode_utf8(password),
                salt,
            );
            &&& salt.len() == 16
            &&& nonce.len() == 12
            &&& #[trigger] spec_base64_encode(salt) == md.argon2_salt@
            &&& #[trigger] spec_base64_encode(nonce) == md.nonce@
            &&& md.ciphertext@ == spec_base64_encode(aead_seal(key, nonce, seed))
            &&& aead_open(key, nonce, aead_seal(key, nonce, seed)) == Some(seed)
        }
}

/// The metadata of an exported key.
pub open spec fn spec_metadata(k: ExportedKey) -> KeyExport {
    match k {
        ExportedKey::Mnemonic { metadata, .. } => metadata,
        ExportedKey::Base64 { metadata, .. } => metadata,
    }
}

/// The text shown to the user: the words or the base64 string.
pub open spec fn spec_display(k: ExportedKey) -> Seq<char> {
    match k {
        ExportedKey::Mnemonic { words, .. } => words@,
        ExportedKey::Base64 { data, .. } => data@,
    }
}

impl ExportedKey {
    /// The metadata, whatever the presentation.
    pub fn metadata(&self) -> (m: &KeyExport)
        ensures
            *m == spec_metadata(*self),
    {
        match self {
            ExportedKey::Mnemonic { metadata, .. } => metadata,
            ExportedKey::Base64 { metadata, .. } => metadata,
        }
    }

    /// The text to show to the user.
    pub fn display_string(&self) -> (s: &str)
        ensures
            s@ == spec_display(*self),
    {
        match self {
            ExportedKey::Mnemonic { words, .. } => words.as_str(),
            ExportedKey::Base64 { data, .. } => data.as_str(),
        }
    }

    /// The first part of reading an exported key from text (the format is
    /// detected): the trimmed text and the JSON bytes that it encodes.
    ///
    /// 24 words without `+` or `/` are a mnemonic; a mnemonic carries no
    /// metadata and cannot be imported this way: `InvalidMnemonic` when the
    /// words are not a mnemonic of 32 bytes, `Import` otherwise. Any other
    /// text must be base64 (`Import` when it is not).
    pub fn decode_string(s: &str) -> (r: Result<(String, Vec<u8>)>)
        ensures
            ({
                let t = spec_trim(s@);
                if spec_count_words(t) == 24 && !spec_contains(t, seq!['+']) && !spec_contains(
                    t,
                    seq!['/'],
                ) {
                    match bip39_entropy(t) {
                        Some(e) => if e.len() == 32 {
                            r == Err::<(String, Vec<u8>), Error>(Error::Import)
                        } else {
                            r matches Err(Error::InvalidMnemonic(_))
                        },
                        None => r matches Err(Error::InvalidMnemonic(_)),
                    }
                } else {
                    match spec_base64_decode(t) {
                        Some(b) => r matches Ok((d, v)) && d@ == t && v@ == b,
                        None => r == Err::<(String, Vec<u8>), Error>(Error::Import),
                    }
                }
            }),
    {
        let trimmed = trim(s);
        proof {
            reveal_strlit("+");
            reveal_strlit("/");
            assert("+"@ =~= seq!['+']);
            assert("/"@ =~= seq!['/']);
        }
        if count_words(trimmed.as_str()) == 24 && !contains(trimmed.as_str(), "+") && !contains(
            trimmed.as_str(),
            "/",
        ) {
            // Only checks that the words are valid; there is no metadata to import.
            let _seed = mnemonic_to_seed(trimmed.as_str())?;
            Err(Error::Import)
        } else {
            match base64_decode(trimmed.as_str()) {
                Ok(bytes) => {
                    proof {
                        lemma_decode_spec(trimmed@, bytes@);
                    }
                    Ok((trimmed, bytes))
                },
                Err(_) => Err(Error::Import),
            }
        }
    }
}

/// The key derived from `password` and `salt` by Argon2id with the fixed
/// parameters. `Export` when Argon2id refuses the inputs.
fn derive_key(password: &str, salt: &[u8]) -> (r: Result<[u8; 32]>)
    ensures
        match spec_derive_key(encode_utf8(password@), salt@) {
            Some(k) => r matches Ok(a) && a@ == k,
            None => r matches Err(Error::Export(_)),
        },
{
    match argon2id_derive(
        ARGON2_MEMORY_KB,
        ARGON2_ITERATIONS,
        ARGON2_PARALLELISM,
        password.as_bytes(),
        salt,
    ) {
        Ok(k) => {
            let a = array_at::<32>(k.as_slice(), 0);
            assert(a@ == k@);
            Ok(a)
        },
        Err(e) => Err(Error::Export(e)),
    }
}

/// The checksum of a seed.
fn compute_checksum(seed: &[u8; 32]) -> (c: String)
    ensures
        c@ == spec_checksum(seed@),
{
    let hash = sha256_digest(seed);
    let head = array_at::<4>(&hash, 0);
    assert(head@ == sha256(seed@).take(4));
    hex_encode(&head)
}

/// The 24 BIP-39 words of a seed.
pub fn seed_to_mnemonic(seed: &[u8; 32]) -> (r: Result<String>)
    ensures
        r matches Ok(w) && w@ == bip39_words(seed@),
{
    Ok(mnemonic_from_entropy(seed))
}

/// The seed encoded by 24 BIP-39 words. `InvalidMnemonic` when the text is
/// not a mnemonic, or encodes other than 32 bytes.
pub fn mnemonic_to_seed(words: &str) -> (r: Result<[u8; 32]>)
    ensures
        match bip39_entropy(words@) {
            Some(e) => if e.len() == 32 {
                r matches Ok(s) && s@ == e
            } else {
                r matches Err(Error::InvalidMnemonic(_))
            },
            None => r matches Err(Error::InvalidMnemonic(_)),
        },
{
    let entropy = match mnemonic_to_entropy(words) {
        Ok(e) => e,
        Err(msg) => {
            return Err(Error::InvalidMnemonic(msg));
        },
    };
    if entropy.len() != 32 {
        return Err(Error::InvalidMnemonic("неверная длина entropy".to_string()));
    }
    let s = array_at::<32>(entropy.as_slice(), 0);
    assert(s@ == entropy@);
    Ok(s)
}

/// Encrypts the seed of `keypair` under `password` and records what is
/// needed to decrypt it. `Export` exactly when the password is longer than
/// Argon2id accepts (2^32 - 1 bytes).
pub fn export_metadata(keypair: &IdentityKeypair, password: &str, format: ExportFormat) -> (r:
    Result<KeyExport>)
    requires
        keypair.wf(),
    ensures
        r is Ok <==> encode_utf8(password@).len() <= 0xffff_ffff,
        match r {
            Ok(md) => spec_export_of(keypair@.seed, password@, format, md),
            Err(e) => e is Export,
        },
{
    let seed_bytes = keypair.seed().as_bytes();
    let salt_v = random_bytes(16);
    let salt = array_at::<16>(salt_v.as_slice(), 0);
    let key = derive_key(password, &salt)?;
    let nonce = random_nonce();
    let ciphertext = match aead_encrypt(&key, &nonce, seed_bytes) {
        Ok(c) => c,
        Err(e) => {
            return Err(Error::Export(e));
        },
    };
    let checksum = compute_checksum(seed_bytes);
    let format_name = match format {
        ExportFormat::Mnemonic => "mnemonic".to_owned(),
        ExportFormat::Base64 => "base64".to_owned(),
    };
    let md = KeyExport {
        version: 1,
        format: format_name,
        argon2_salt: base64_encode(&salt),
        argon2_memory_kb: ARGON2_MEMORY_KB,
        argon2_iterations: ARGON2_ITERATIONS,
        argon2_parallelism: ARGON2_PARALLELISM,
        nonce: base64_encode(&nonce),
        ciphertext: base64_encode(ciphertext.as_slice()),
        checksum,
    };
    proof {
        let k = argon2id(
            ARGON2_MEMORY_KB,
            ARGON2_ITERATIONS,
            ARGON2_PARALLELISM,
            encode_utf8(password@),
            salt@,
        );
        assert(spec_base64_encode(salt@) == md.argon2_salt@);
        assert(spec_base64_encode(nonce@) == md.nonce@);
        assert(md.ciphertext@ == spec_base64_encode(aead_seal(k, nonce@, keypair@.seed)));
    }
    Ok(md)
}

/// The mnemonic presentation of an export of `keypair`: the 24 BIP-39
/// words of its seed, which read back to the seed.
pub fn mnemonic_export(keypair: &IdentityKeypair, metadata: KeyExport) -> (k: ExportedKey)
    ensures
        k == (ExportedKey::Mnemonic { words: k->Mnemonic_words, metadata }),
        k->Mnemonic_words@ == bip39_words(keypair@.seed),
        spec_count_words(k->Mnemonic_words@) == 24,
        bip39_entropy(k->Mnemonic_words@) == Some(keypair@.seed),
{
    let words = mnemonic_from_entropy(keypair.seed().as_bytes());
    ExportedKey::Mnemonic { words, metadata }
}

/// The base64 presentation of an export whose metadata serializes to `json`.
pub fn base64_export(metadata: KeyExport, json: &str) -> (k: ExportedKey)
    ensures
        k == (ExportedKey::Base64 { data: k->Base64_data, metadata }),
        k->Base64_data@ == spec_base64_encode(encode_utf8(json@)),
{
    let data = base64_encode(json.as_bytes());
    ExportedKey::Base64 { data, metadata }
}

/// Decrypts the seed recorded in `export` with `password`.
///
/// `Export` when Argon2id refuses the password or salt; `Import` when a
/// field is not base64, the nonce is not 12 bytes, the seed does not
/// authenticate (wrong password), is not 32 bytes, or fails the checksum.
pub fn decrypt_seed(export: &KeyExport, password: &str) -> (r: Result<[u8; 32]>)
    ensures
        match spec_decrypt_seed(*export, password@) {
            SeedOpen::Seed(s) => r matches Ok(a) && a@ == s,
            SeedOpen::DerivationFailed => r matches Err(Error::Export(_)),
            SeedOpen::Rejected => r == Err::<[u8; 32], Error>(Error::Import),
        },
{
    let salt = match base64_decode(export.argon2_salt.as_str()) {
        Ok(b) => b,
        Err(_) => {
            proof {
                assert(spec_base64_decode(export.argon2_salt@) is None);
            }
            return Err(Error::Import);
        },
    };
    proof {
        lemma_decode_spec(export.argon2_salt@, salt@);
    }
    let nonce_bytes = match base64_decode(export.nonce.as_str()) {
        Ok(b) => b,
        Err(_) => {
            return Err(Error::Import);
        },
    };
    proof {
        lemma_decode_spec(export.nonce@, nonce_bytes@);
    }
    let ciphertext = match base64_decode(export.ciphertext.as_str()) {
        Ok(b) => b,
        Err(_) => {
            return Err(Error::Import);
        },
    };
    proof {
        lemma_decode_spec(export.ciphertext@, ciphertext@);
    }
    let key = derive_key(password, salt.as_slice())?;
    if nonce_bytes.len() != 12 {
        return Err(Error::Import);
    }
    let nonce = array_at::<12>(nonce_bytes.as_slice(), 0);
    assert(nonce@ == nonce_bytes@);
    let seed_bytes = match aead_decrypt(&key, &nonce, ciphertext.as_slice()) {
        Some(p) => p,
        None => {
            return Err(Error::Import);
        },
    };
    if seed_bytes.len() != 32 {
        return Err(Error::Import);
    }
    let seed = array_at::<32>(seed_bytes.as_slice(), 0);
    assert(seed@ == seed_bytes@);
    let checksum = compute_checksum(&seed);
    if !str_eq(checksum.as_str(), export.checksum.as_str()) {
        return Err(Error::Import);
    }
    Ok(seed)
}

/// Restores a keypair from an export and its password.
pub fn import_keypair(exported: &ExportedKey, password: &str) -> (r: Result<IdentityKeypair>)
    ensures
        match spec_decrypt_seed(spec_metadata(*exported), password@) {
            SeedOpen::Seed(s) => r matches Ok(k) && k.wf() && k@.seed == s,
            SeedOpen::DerivationFailed => r matches Err(Error::Export(_)),
            SeedOpen::Rejected => r matches Err(Error::Import),
        },
{
    let metadata = exported.metadata();
    let seed = decrypt_seed(metadata, password)?;
    Ok(IdentityKeypair::from_seed(KeySeed::from_bytes(seed)))
}

/// Decrypting an export with the password it was made with gives back the
/// seed it protects.
pub proof fn lemma_export_decrypts(seed: Seq<u8>, password: Seq<char>, format: ExportFormat, md: KeyExport)
    requires
        seed.len() == 32,
        spec_export_of(seed, password, format, md),
    ensures
        spec_decrypt_seed(md, password) == SeedOpen::Seed(seed),
{
    let (salt, nonce) = choose|salt: Seq<u8>, nonce: Seq<u8>|
        {
            let key = argon2id(
                ARGON2_MEMORY_KB,
                ARGON2_ITERATIONS,
                ARGON2_PARALLELISM,
                encode_utf8(password),
                salt,
            );
            &&& salt.len() == 16
            &&& nonce.len() == 12
            &&& #[trigger] spec_base64_encode(salt) == md.argon2_salt@
            &&& #[trigger] spec_base64_encode(nonce) == md.nonce@
            &&& md.ciphertext@ == spec_base64_encode(aead_seal(key, nonce, seed))
            &&& aead_open(key, nonce, aead_seal(key, nonce, seed)) == Some(seed)
        };
    let key = argon2id(
        ARGON2_MEMORY_KB,
        ARGON2_ITERATIONS,
        ARGON2_PARALLELISM,
        encode_utf8(password),
        salt,
    );
    lemma_decode_spec(md.argon2_salt@, salt);
    lemma_decode_spec(md.nonce@, nonce);
    lemma_decode_spec(md.ciphertext@, aead_seal(key, nonce, seed));
}

/// Importing an export with its password restores the very keypair that
/// was exported (its seed, hence all its keys).
pub proof fn lemma_import_restores_keypair(
    original: KeypairView,
    restored: KeypairView,
    password: Seq<char>,
    format: ExportFormat,
    md: KeyExport,
)
    requires
        keypair_wf(original),
        keypair_wf(restored),
        spec_export_of(original.seed, password, format, md),
        spec_decrypt_seed(md, password) == SeedOpen::Seed(restored.seed),
    ensures
        restored == original,
{
    lemma_export_decrypts(original.seed, password, format, md);
    lemma_from_seed_deterministic(original, restored);
}

/// The export key is Argon2id with 65536 KiB of memory, 3 iterations and
/// 4 lanes over the password and the salt, whenever Argon2id accepts them
/// (password under 2^32 bytes, salt of 8 to 2^32 - 1 bytes).
pub proof fn lemma_export_key_parameters(password: Seq<u8>, salt: Seq<u8>)
    ensures
        spec_derive_key(password, salt) == if password.len() <= 0xffff_ffff && 8 <= salt.len()
            <= 0xffff_ffff {
            Some(argon2id(65536, 3, 4, password, salt))
        } else {
            None
        },
{
}

} // verus!
