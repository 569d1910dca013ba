//! Content verification: scheme-tagged digests, hex encoding, and the
//! size-plus-digest validity rule applied to cached and downloaded bytes.

use vstd::prelude::*;

use sha1::Digest;

use crate::error::LaunchError;

verus! {

/// A cryptographic digest, tagged with its scheme and carried as a lowercase
/// hex string. Equality is scheme-aware: digests under different schemes are
/// never equal.
#[derive(Debug, Clone, PartialEq)]
pub enum HashVal {
    Sha1(String),
    Sha256(String),
}

impl HashVal {
    /// An equal copy, usable in verified code (the derived `Clone` carries
    /// no specification).
    pub fn dup(&self) -> (r: HashVal)
        ensures
            r == *self,
    {
        match self {
            HashVal::Sha1(s) => HashVal::Sha1(s.clone()),
            HashVal::Sha256(s) => HashVal::Sha256(s.clone()),
        }
    }
}

/// The SHA-1 digest of the input bytes.
pub uninterp spec fn spec_sha1(data: Seq<u8>) -> Seq<u8>;

/// The SHA-256 digest of the input bytes.
pub uninterp spec fn spec_sha256(data: Seq<u8>) -> Seq<u8>;

/// Relies on `sha1::Sha1::digest` (through `digest::Digest`): a 20-byte
/// digest that depends on the input bytes alone.
#[verifier::external_body]
fn sha1_digest(data: &Vec<u8>) -> (r: Vec<u8>)
    ensures
        r@ == spec_sha1(data@),
        r@.len() == 20,
{
    sha1::Sha1::digest(data.as_slice()).as_slice().to_vec()
}

/// Relies on `sha2::Sha256::digest` (through `digest::Digest`): a 32-byte
/// digest that depends on the input bytes alone.
#[verifier::external_body]
fn sha256_digest(data: &Vec<u8>) -> (r: Vec<u8>)
    ensures
        r@ == spec_sha256(data@),
        r@.len() == 32,
{
    sha2::Sha256::digest(data.as_slice()).as_slice().to_vec()
}

pub const HEX_DIGITS: [char; 16] = [
    '0',
    '1',
    '2',
    '3',
    '4',
    '5',
    '6',
    '7',
    '8',
    '9',
    'a',
    'b',
    'c',
    'd',
    'e',
    'f',
];

/// Lowercase hex encoding: two digits per byte, high nibble first.
pub open spec fn spec_hex(data: Seq<u8>) -> Seq<char>
    decreases data.len(),
{
    if data.len() == 0 {
        Seq::<char>::empty()
    } else {
        seq![
            HEX_DIGITS[(data.first() / 16) as int],
            HEX_DIGITS[(data.first() % 16) as int],
        ] + spec_hex(data.drop_first())
    }
}

proof fn lemma_spec_hex_take_succ(data: Seq<u8>, j: int)
    requires
        0 <= j < data.len(),
    ensures
        spec_hex(data.take(j + 1)) == spec_hex(data.take(j)) + seq![
            HEX_DIGITS[(data[j] / 16) as int],
            HEX_DIGITS[(data[j] % 16) as int],
        ],
    decreases j,
{
    if j == 0 {
        assert(data.take(1)[0] == data[0]);
        assert(data.take(1).drop_first() =~= Seq::<u8>::empty());
        assert(data.take(0) =~= Seq::<u8>::empty());
        assert(spec_hex(data.take(1)) =~= seq![
            HEX_DIGITS[(data[0] / 16) as int],
            HEX_DIGITS[(data[0] % 16) as int],
        ]);
        assert(spec_hex(data.take(0)) + spec_hex(data.take(1)) =~= spec_hex(data.take(1)));
    } else {
        lemma_spec_hex_take_succ(data.drop_first(), j - 1);
        assert(data.take(j + 1)[0] == data[0]);
        assert(data.take(j)[0] == data[0]);
        assert(data.take(j + 1).drop_first() =~= data.drop_first().take(j));
        assert(data.take(j).drop_first() =~= data.drop_first().take(j - 1));
        assert(data.drop_first()[j - 1] == data[j]);
        assert(spec_hex(data.take(j)) + seq![
            HEX_DIGITS[(data[j] / 16) as int],
            HEX_DIGITS[(data[j] % 16) as int],
        ] =~= seq![
            HEX_DIGITS[(data[0] / 16) as int],
            HEX_DIGITS[(data[0] % 16) as int],
        ] + (spec_hex(data.drop_first().take(j - 1)) + seq![
            HEX_DIGITS[(data[j] / 16) as int],
            HEX_DIGITS[(data[j] % 16) as int],
        ]));
    }
}

/// Hex-encodes bytes: lowercase, two digits per byte, high nibble first.
fn hex_lower(data: &Vec<u8>) -> (r: String)
    ensures
        r@ == spec_hex(data@),
{
    let n = data.len();
    let mut out = String::new();
    let mut i: usize = 0;
    while i < n
        invariant
            n == data@.len(),
            i <= n,
            out@ == spec_hex(data@.take(i as int)),
        decreases n - i,
    {
        let b = data[i];
        crate::strutil::push_char(&mut out, HEX_DIGITS[(b / 16) as usize]);
        crate::strutil::push_char(&mut out, HEX_DIGITS[(b % 16) as usize]);
        proof {
            lemma_spec_hex_take_succ(data@, i as int);
        }
        assert(out@ =~= spec_hex(data@.take(i as int + 1)));
        i = i + 1;
    }
    assert(data@.take(n as int) =~= data@);
    out
}

/// The hex digest of `data` under the scheme that `hash` is tagged with.
pub open spec fn spec_digest_hex(hash: HashVal, data: Seq<u8>) -> Seq<char> {
    match hash {
        HashVal::Sha1(_) => spec_hex(spec_sha1(data)),
        HashVal::Sha256(_) => spec_hex(spec_sha256(data)),
    }
}

/// Whether `data` hashes, under the scheme `hash` declares, to the digest
/// `hash` carries.
pub open spec fn spec_hash_matches(hash: HashVal, data: Seq<u8>) -> bool {
    match hash {
        HashVal::Sha1(expected) => expected@ == spec_hex(spec_sha1(data)),
        HashVal::Sha256(expected) => expected@ == spec_hex(spec_sha256(data)),
    }
}

/// Computes the digest of `buf` with the scheme that `hash` declares and
/// compares it to the declared digest. Returns the comparison and the
/// computed hex digest.
pub fn check_hash(buf: &Vec<u8>, hash: &HashVal) -> (r: (bool, String))
    ensures
        r.1@ == spec_digest_hex(*hash, buf@),
        r.0 == spec_hash_matches(*hash, buf@),
{
    match hash {
        HashVal::Sha1(expected) => {
            let actual = hex_lower(&sha1_digest(buf));
            let matches = *expected == actual;
            (matches, actual)
        },
        HashVal::Sha256(expected) => {
            let actual = hex_lower(&sha256_digest(buf));
            let matches = *expected == actual;
            (matches, actual)
        },
    }
}

/// A file's bytes are valid for an artifact exactly when the file exists,
/// has the declared length, and hashes to the declared digest.
pub open spec fn spec_file_valid(data: Option<Seq<u8>>, size: u32, hash: HashVal) -> bool {
    match data {
        Option::None => false,
        Option::Some(d) => d.len() == size && spec_hash_matches(hash, d),
    }
}

/// Validity of an already-present file, handed in as its bytes (`None` when
/// the file does not exist). A valid file is used as-is; an invalid one is
/// re-fetched.
pub fn check_file(data: &Option<Vec<u8>>, size: u32, hash: &HashVal) -> (r: bool)
    ensures
        r == spec_file_valid(
            match *data {
                Option::None => Option::None,
                Option::Some(d) => Option::Some(d@),
            },
            size,
            *hash,
        ),
{
    match data {
        Option::None => false,
        Option::Some(d) => {
            if d.len() == size as usize {
                check_hash(d, hash).0
            } else {
                false
            }
        },
    }
}

/// Checks freshly downloaded bytes against the declared size and digest.
/// On a mismatch the result is the fatal `InvalidFile` error carrying the
/// URL, the expectations, and what was actually observed — never a retry.
pub fn verify_download(url: &str, data: &Vec<u8>, size: u32, hash: &HashVal) -> (r: Result<
    (),
    LaunchError,
>)
    ensures
        r is Ok <==> (data@.len() == size && spec_hash_matches(*hash, data@)),
        r is Err ==> (match r {
            Result::Err(e) => match e {
                LaunchError::InvalidFile {
                    url: e_url,
                    expected_hash,
                    expected_size,
                    actual_hash,
                    actual_size,
                } => {
                    &&& e_url@ == url@
                    &&& expected_hash == *hash
                    &&& expected_size == size
                    &&& actual_hash@ == spec_digest_hex(*hash, data@)
                    &&& actual_size == data@.len()
                },
                _ => false,
            },
            Result::Ok(_) => false,
        }),
{
    let (hash_matches, actual_hash) = check_hash(data, hash);
    if data.len() != size as usize || !hash_matches {
        Err(LaunchError::InvalidFile {
            url: url.to_owned(),
            expected_hash: hash.dup(),
            expected_size: size,
            actual_hash,
            actual_size: data.len(),
        })
    } else {
        Ok(())
    }
}

} // verus!
