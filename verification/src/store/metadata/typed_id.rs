//! Typed, prefixed identifiers for entities of the registry.
//!
//! Every generated id has the shape `lhs<kind>-<32 lowercase hex>`, so it is
//! distinct from the opaque subjects of an identity provider and from content
//! digests. Each kind has a type of its own.
use crate::error::{ErrorView, LayerhouseError};
use crate::text::{concat2, concat3, concat4, debug_quoted, quoted, strip_prefix};
use vstd::prelude::*;
use vstd::utf8::encode_utf8;

verus! {

pub const ID_HEX_LEN: usize = 32;

pub open spec fn is_lower_hex(b: u8) -> bool {
    48 <= b <= 57 || 97 <= b <= 102
}

/// The bytes are the hexadecimal part of an id.
pub open spec fn is_id_suffix(b: Seq<u8>) -> bool {
    b.len() == ID_HEX_LEN && forall|i: int| 0 <= i < b.len() ==> is_lower_hex(#[trigger] b[i])
}

/// The text is an id with the given prefix.
pub open spec fn is_id(s: Seq<char>, prefix: Seq<char>) -> bool {
    prefix.is_prefix_of(s) && is_id_suffix(encode_utf8(s.skip(prefix.len() as int)))
}

/// What validating an id comes to.
pub open spec fn id_outcome(s: Seq<char>, prefix: Seq<char>) -> Result<Seq<char>, ErrorView> {
    let suffix = encode_utf8(s.skip(prefix.len() as int));
    if !prefix.is_prefix_of(s) {
        Err(
            ErrorView::Internal(
                "expected id prefix "@ + debug_quoted(prefix) + ", got "@ + debug_quoted(s),
            ),
        )
    } else if suffix.len() != ID_HEX_LEN {
        Err(
            ErrorView::Internal(
                "id "@ + debug_quoted(s) + " has wrong hex length: expected 32"@,
            ),
        )
    } else if !is_id_suffix(suffix) {
        Err(
            ErrorView::Internal(
                "id "@ + debug_quoted(s) + " contains non-lowercase-hex characters"@,
            ),
        )
    } else {
        Ok(s)
    }
}

/// Validates an id and hands back its text.
fn validate_id(s: &str, prefix: &str) -> (r: Result<String, LayerhouseError>)
    ensures
        match r {
            Ok(id) => id_outcome(s@, prefix@) == Ok::<Seq<char>, ErrorView>(id@),
            Err(e) => id_outcome(s@, prefix@) == Err::<Seq<char>, ErrorView>(e@),
        },
{
    let suffix = match strip_prefix(s, prefix) {
        Some(suffix) => suffix,
        None => {
            return Err(
                LayerhouseError::Internal(
                    concat4(
                        "expected id prefix ",
                        quoted(prefix).as_str(),
                        ", got ",
                        quoted(s).as_str(),
                    ),
                ),
            );
        },
    };
    let bytes = suffix.as_str().as_bytes();
    if bytes.len() != ID_HEX_LEN {
        return Err(
            LayerhouseError::Internal(
                concat3("id ", quoted(s).as_str(), " has wrong hex length: expected 32"),
            ),
        );
    }
    let mut i: usize = 0;
    while i < bytes.len()
        invariant
            prefix@.is_prefix_of(s@),
            bytes@ == encode_utf8(s@.skip(prefix@.len() as int)),
            bytes@.len() == ID_HEX_LEN,
            i <= bytes@.len(),
            forall|j: int| 0 <= j < i ==> is_lower_hex(#[trigger] bytes@[j]),
        decreases bytes@.len() - i,
    {
        let b: u8 = bytes[i];
        if !((48 <= b && b <= 57) || (97 <= b && b <= 102)) {
            return Err(
                LayerhouseError::Internal(
                    concat3("id ", quoted(s).as_str(), " contains non-lowercase-hex characters"),
                ),
            );
        }
        i = i + 1;
    }
    Ok(s.to_owned())
}

/// `uuid::Uuid::now_v7` in its simple format. The value depends on the time
/// and on chance; claims that it is 32 lowercase hexadecimal digits.
#[verifier::external_body]
fn uuid_v7_hex() -> (r: String)
    ensures
        is_id_suffix(encode_utf8(r@)),
{
    uuid::Uuid::now_v7().simple().to_string()
}

/// Stable identifier of an organization, `lhsorg-<32 lowercase hex>`.
#[derive(Debug, PartialEq, Eq, Hash, Ord, PartialOrd)]
pub struct OrgId(String);

impl View for OrgId {
    type V = Seq<char>;

    closed spec fn view(&self) -> Seq<char> {
        self.0@
    }
}

impl DeepView for OrgId {
    type V = Seq<char>;

    open spec fn deep_view(&self) -> Seq<char> {
        self@
    }
}

impl Clone for OrgId {
    fn clone(&self) -> (r: Self)
        ensures
            r@ == self@,
    {
        proof {
            use_type_invariant(self);
        }
        OrgId(self.0.clone())
    }
}

impl OrgId {
    #[verifier::type_invariant]
    spec fn inv(self) -> bool {
        is_id(self.0@, "lhsorg-"@)
    }

    /// A fresh identifier.
    pub fn generate() -> (r: Self)
        ensures
            is_id(r@, "lhsorg-"@),
    {
        let hex = uuid_v7_hex();
        let id = concat2("lhsorg-", hex.as_str());
        assert(id@.skip("lhsorg-"@.len() as int) =~= hex@);
        assert(id@.subrange(0, "lhsorg-"@.len() as int) =~= "lhsorg-"@);
        OrgId(id)
    }

    /// Reads an identifier.
    pub fn parse(s: &str) -> (r: Result<Self, LayerhouseError>)
        ensures
            r is Ok <==> is_id(s@, "lhsorg-"@),
            match r {
                Ok(id) => id_outcome(s@, "lhsorg-"@) == Ok::<Seq<char>, ErrorView>(id@),
                Err(e) => id_outcome(s@, "lhsorg-"@) == Err::<Seq<char>, ErrorView>(e@),
            },
    {
        match validate_id(s, "lhsorg-") {
            Ok(id) => Ok(OrgId(id)),
            Err(e) => Err(e),
        }
    }

    /// The identifier's text.
    pub fn as_str(&self) -> (r: &str)
        ensures
            r@ == self@,
            is_id(r@, "lhsorg-"@),
    {
        proof {
            use_type_invariant(self);
        }
        self.0.as_str()
    }
}

/// Reading the text of an identifier gives that identifier back.
pub proof fn lemma_org_id_text_parses(text: Seq<char>)
    requires
        is_id(text, "lhsorg-"@),
    ensures
        id_outcome(text, "lhsorg-"@) == Ok::<Seq<char>, ErrorView>(text),
{
}

} // verus!
