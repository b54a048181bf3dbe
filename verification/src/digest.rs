//! SHA-256 identities rendered as canonical lowercase hexadecimal.
use vstd::prelude::*;
use vstd::string::*;

verus! {

/// The SHA-256 digest of a byte string, as computed by the `sha2` crate.
pub uninterp spec fn sha256_spec(data: Seq<u8>) -> Seq<u8>;

/// The lowercase hexadecimal digit for a nibble.
pub open spec fn hex_digit(n: nat) -> char {
    if n < 10 {
        ((n + 48) as u8) as char
    } else {
        ((n + 87) as u8) as char
    }
}

/// Lowercase hexadecimal rendering, two digits per byte, high nibble first.
pub open spec fn lower_hex(bytes: Seq<u8>) -> Seq<char>
    decreases bytes.len(),
{
    if bytes.len() == 0 {
        Seq::empty()
    } else {
        lower_hex(bytes.drop_last()) + seq![
            hex_digit(bytes.last() as nat / 16),
            hex_digit(bytes.last() as nat % 16),
        ]
    }
}

/// A lowercase hexadecimal digit character.
pub open spec fn is_lower_hex_digit(c: char) -> bool {
    ('0' <= c && c <= '9') || ('a' <= c && c <= 'f')
}

/// `sha2::Sha256::digest`: the 32-byte SHA-256 digest of `data`.
#[verifier::external_body]
fn sha256(data: &[u8]) -> (out: Vec<u8>)
    ensures
        out@ == sha256_spec(data@),
        out@.len() == 32,
{
    <sha2::Sha256 as sha2::Digest>::digest(data).to_vec()
}

/// `hex::encode`: lowercase hexadecimal, high nibble first.
#[verifier::external_body]
fn hex_encode(bytes: &[u8]) -> (s: String)
    ensures
        s@ == lower_hex(bytes@),
{
    hex::encode(bytes)
}

/// A SHA-256 digest in its canonical spelling: 64 lowercase hex digits.
#[derive(Clone, Debug, PartialEq, Eq, PartialOrd, Ord, Hash)]
pub struct Sha256Digest {
    hex: String,
}

impl View for Sha256Digest {
    type V = Seq<char>;

    closed spec fn view(&self) -> Seq<char> {
        self.hex@
    }
}

impl Sha256Digest {
    /// The canonical lowercase hexadecimal rendering.
    pub fn as_str(&self) -> (s: &str)
        ensures
            s@ == self@,
    {
        self.hex.as_str()
    }
}

proof fn lemma_lower_hex_len(bytes: Seq<u8>)
    ensures
        lower_hex(bytes).len() == 2 * bytes.len(),
    decreases bytes.len(),
{
    if bytes.len() > 0 {
        lemma_lower_hex_len(bytes.drop_last());
    }
}

/// The digest of `bytes` under a NUL-terminated domain separator:
/// SHA-256 of `domain ++ [0] ++ bytes`, in lowercase hexadecimal.
pub open spec fn domain_digest_spec(domain: Seq<u8>, bytes: Seq<u8>) -> Seq<char> {
    lower_hex(sha256_spec(domain.push(0) + bytes))
}

/// Hashes `bytes` under the domain separator `domain` followed by one NUL.
pub fn domain_digest(domain: &str, bytes: &[u8]) -> (d: Sha256Digest)
    ensures
        d@ == domain_digest_spec(domain.spec_bytes(), bytes@),
        d@.len() == 64,
{
    let mut data: Vec<u8> = Vec::new();
    data.extend_from_slice(domain.as_bytes());
    data.push(0);
    data.extend_from_slice(bytes);
    proof {
        assert(data@ =~= domain.spec_bytes().push(0) + bytes@);
    }
    let out = sha256(data.as_slice());
    let hex = hex_encode(out.as_slice());
    proof {
        lemma_lower_hex_len(out@);
    }
    Sha256Digest { hex }
}

/// The canonical digest text of a byte string: `sha256:` and the lowercase
/// hexadecimal SHA-256 digest.
pub open spec fn sha256_text(bytes: Seq<u8>) -> Seq<char> {
    "sha256:"@ + lower_hex(sha256_spec(bytes))
}

/// Digests `bytes` into its canonical `sha256:` text.
pub fn sha256_bytes(bytes: &[u8]) -> (s: String)
    ensures
        s@ == sha256_text(bytes@),
        s@.len() == 71,
{
    let out = sha256(bytes);
    let hex = hex_encode(out.as_slice());
    proof {
        lemma_lower_hex_len(out@);
        reveal_strlit("sha256:");
    }
    let mut s = "sha256:".to_owned();
    s.append(hex.as_str());
    s
}

} // verus!
