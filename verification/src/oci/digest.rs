//! Content digests, `<algorithm>:<lowercase hex>`.
use crate::error::{ErrorView, LayerhouseError};
use crate::text::{chars_of, concat2, starts_with, text_of};
use vstd::prelude::*;

verus! {

/// What `sha2::Sha256::digest` returns: the SHA-256 hash of the data.
pub uninterp spec fn sha256_bytes(data: Seq<u8>) -> Seq<u8>;

/// `sha2::Sha256::digest`. Claims the named hash, which has 32 bytes.
#[verifier::external_body]
pub(crate) fn sha256_of(data: &[u8]) -> (r: Vec<u8>)
    ensures
        r@ == sha256_bytes(data@),
        r@.len() == 32,
{
    <sha2::Sha256 as sha2::Digest>::digest(data).to_vec()
}

/// The lowercase hexadecimal digit of a value below sixteen.
pub open spec fn hex_digit(v: int) -> char {
    if v < 10 {
        (48 + v) as char
    } else {
        (87 + v) as char
    }
}

/// Two lowercase hexadecimal digits for each byte, the high half first.
pub open spec fn hex_text(bytes: Seq<u8>) -> Seq<char> {
    Seq::new(
        2 * bytes.len(),
        |i: int|
            if i % 2 == 0 {
                hex_digit(bytes[i / 2] as int / 16)
            } else {
                hex_digit(bytes[i / 2] as int % 16)
            },
    )
}

/// `hex::encode`. Claims two lowercase hexadecimal digits for each byte.
#[verifier::external_body]
pub(crate) fn hex_encode(bytes: &[u8]) -> (r: String)
    ensures
        r@ == hex_text(bytes@),
{
    hex::encode(bytes)
}

pub open spec fn is_hex_char(c: char) -> bool {
    48 <= c as int <= 57 || 97 <= c as int <= 102
}

pub open spec fn all_hex(s: Seq<char>) -> bool {
    forall|i: int| 0 <= i < s.len() ==> is_hex_char(#[trigger] s[i])
}

/// The hash functions that name content.
#[derive(Debug, Clone, Copy, PartialEq, Eq, Structural)]
pub enum DigestAlgorithm {
    Sha256,
    Sha512,
}

/// The text before the hexadecimal part.
pub open spec fn algorithm_prefix(a: DigestAlgorithm) -> Seq<char> {
    match a {
        DigestAlgorithm::Sha256 => "sha256:"@,
        DigestAlgorithm::Sha512 => "sha512:"@,
    }
}

/// The number of hexadecimal digits.
pub open spec fn algorithm_hex_len(a: DigestAlgorithm) -> nat {
    match a {
        DigestAlgorithm::Sha256 => 64,
        DigestAlgorithm::Sha512 => 128,
    }
}

/// The text is a digest of the given algorithm.
pub open spec fn is_digest_of(s: Seq<char>, a: DigestAlgorithm) -> bool {
    &&& s.len() == 7 + algorithm_hex_len(a)
    &&& algorithm_prefix(a).is_prefix_of(s)
    &&& all_hex(s.skip(7))
}

/// The text is a digest.
pub open spec fn is_digest(s: Seq<char>) -> bool {
    is_digest_of(s, DigestAlgorithm::Sha256) || is_digest_of(s, DigestAlgorithm::Sha512)
}

/// The name of a piece of content.
#[derive(Debug, PartialEq, Eq)]
pub struct Digest {
    algorithm: DigestAlgorithm,
    hex: String,
}

impl View for Digest {
    type V = Seq<char>;

    closed spec fn view(&self) -> Seq<char> {
        algorithm_prefix(self.algorithm) + self.hex@
    }
}

impl DeepView for Digest {
    type V = Seq<char>;

    open spec fn deep_view(&self) -> Seq<char> {
        self@
    }
}

impl Clone for Digest {
    fn clone(&self) -> (r: Self)
        ensures
            r@ == self@,
    {
        proof {
            use_type_invariant(self);
        }
        Digest { algorithm: self.algorithm, hex: self.hex.clone() }
    }
}

impl Digest {
    #[verifier::type_invariant]
    spec fn inv(self) -> bool {
        all_hex(self.hex@) && self.hex@.len() == algorithm_hex_len(self.algorithm)
    }

    proof fn lemma_valid(&self)
        requires
            self.inv(),
        ensures
            is_digest(self@),
    {
        reveal_strlit("sha256:");
        reveal_strlit("sha512:");
        let p = algorithm_prefix(self.algorithm);
        assert(p.len() == 7);
        assert(self@.skip(7) =~= self.hex@);
        assert(self@.subrange(0, 7) =~= p);
        assert(is_digest_of(self@, self.algorithm));
    }

    /// Reads a digest.
    pub fn from_str_checked(s: &str) -> (r: Option<Self>)
        ensures
            match r {
                Some(d) => is_digest(s@) && d@ == s@,
                None => !is_digest(s@),
            },
    {
        let chars = chars_of(s);
        proof {
            reveal_strlit("sha256:");
            reveal_strlit("sha512:");
        }
        let algorithm = if chars.len() == 71 && starts_with(s, "sha256:") {
            DigestAlgorithm::Sha256
        } else if chars.len() == 135 && starts_with(s, "sha512:") {
            DigestAlgorithm::Sha512
        } else {
            return None;
        };
        let mut i: usize = 7;
        while i < chars.len()
            invariant
                chars@ == s@,
                7 <= i <= s@.len(),
                s@.len() == 7 + algorithm_hex_len(algorithm),
                forall|j: int| 7 <= j < i ==> is_hex_char(#[trigger] s@[j]),
            decreases s@.len() - i,
        {
            let c = chars[i];
            if !(('0' <= c && c <= '9') || ('a' <= c && c <= 'f')) {
                assert(s@.skip(7)[i - 7] == c);
                return None;
            }
            i = i + 1;
        }
        let hex = text_of(&chars, 7, chars.len());
        assert(hex@ =~= s@.skip(7));
        assert(algorithm_prefix(algorithm) =~= s@.subrange(0, 7));
        assert(algorithm_prefix(algorithm) + hex@ =~= s@);
        assert(is_digest_of(s@, algorithm));
        Some(Digest { algorithm, hex })
    }

    /// Reads a digest, or says which text is none.
    pub fn parse(s: &str) -> (r: Result<Self, LayerhouseError>)
        ensures
            match r {
                Ok(d) => is_digest(s@) && d@ == s@,
                Err(e) => !is_digest(s@) && e@ == ErrorView::DigestInvalid(s@),
            },
    {
        match Self::from_str_checked(s) {
            Some(d) => Ok(d),
            None => Err(LayerhouseError::DigestInvalid(s.to_owned())),
        }
    }

    /// The SHA-256 digest of some content.
    pub fn sha256(data: &[u8]) -> (r: Self)
        ensures
            r@ == sha256_name(data@),
            is_digest(r@),
    {
        let hash = sha256_of(data);
        let hex = hex_encode(hash.as_slice());
        assert forall|i: int| 0 <= i < hex@.len() implies is_hex_char(#[trigger] hex@[i]) by {
            assert(0 <= hash@[i / 2] as int / 16 < 16);
        }
        let r = Digest { algorithm: DigestAlgorithm::Sha256, hex };
        proof {
            r.lemma_valid();
        }
        r
    }

    /// The digest's text.
    pub fn to_string(&self) -> (r: String)
        ensures
            r@ == self@,
            is_digest(r@),
    {
        proof {
            use_type_invariant(self);
            self.lemma_valid();
        }
        match self.algorithm {
            DigestAlgorithm::Sha256 => concat2("sha256:", self.hex.as_str()),
            DigestAlgorithm::Sha512 => concat2("sha512:", self.hex.as_str()),
        }
    }

    /// The hexadecimal part.
    pub fn hex(&self) -> (r: &String)
        ensures
            r@ == self@.skip(7),
    {
        proof {
            reveal_strlit("sha256:");
            reveal_strlit("sha512:");
            assert(self@.skip(7) =~= self.hex@);
        }
        &self.hex
    }
}

/// The text of the SHA-256 digest of some content.
pub open spec fn sha256_name(data: Seq<u8>) -> Seq<char> {
    "sha256:"@ + hex_text(sha256_bytes(data))
}

} // verus!
