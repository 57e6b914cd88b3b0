//! Typed, prefixed, sortable resource identifiers: a 4-character uppercase
//! resource tag followed by a 26-character time-ordered unique suffix, always
//! rendered as one fixed 30-character text.

pub mod text;
pub mod ulid;

use vstd::prelude::*;
use vstd::string::{StrSliceExecFns, StringExecFns};
use vstd::std_specs::cmp::PartialEqSpec;
use vstd::utf8::encode_utf8;

use crate::text::{to_upper, upper_seq, lemma_upper_seq_idempotent};
use crate::ulid::{Ulid, DecodeError, ulid_text_of, ulid_value_of, valid_suffix_chars};

verus! {

/// The ways constructing or parsing a resource identifier can fail.
#[derive(Debug, Eq)]
pub enum ResourceIDError {
    /// The 26-character suffix segment failed to decode.
    UnableToDecodeUlid(DecodeError),
    /// The resource tag is not exactly 4 characters long.
    InvalidResourceType(String),
    /// The full identifier text is not exactly 30 characters long.
    InvalidLength(String),
}

impl PartialEq for ResourceIDError {
    fn eq(&self, other: &ResourceIDError) -> (r: bool) {
        match (self, other) {
            (
                ResourceIDError::UnableToDecodeUlid(a),
                ResourceIDError::UnableToDecodeUlid(b),
            ) => *a == *b,
            (
                ResourceIDError::InvalidResourceType(a),
                ResourceIDError::InvalidResourceType(b),
            ) => *a == *b,
            (ResourceIDError::InvalidLength(a), ResourceIDError::InvalidLength(b)) => *a == *b,
            _ => false,
        }
    }
}

impl vstd::std_specs::cmp::PartialEqSpecImpl for ResourceIDError {
    open spec fn obeys_eq_spec() -> bool {
        true
    }

    open spec fn eq_spec(&self, other: &ResourceIDError) -> bool {
        match (self, other) {
            (
                ResourceIDError::UnableToDecodeUlid(a),
                ResourceIDError::UnableToDecodeUlid(b),
            ) => a == b,
            (
                ResourceIDError::InvalidResourceType(a),
                ResourceIDError::InvalidResourceType(b),
            ) => a@ == b@,
            (ResourceIDError::InvalidLength(a), ResourceIDError::InvalidLength(b)) => a@ == b@,
            _ => false,
        }
    }
}

/// A typed resource identifier: a 4-character uppercase resource tag together
/// with a unique suffix value, rendered as one 30-character text.
#[derive(Debug, Clone, Eq, Hash)]
pub struct ResourceID {
    /// The uppercase resource tag, always exactly 4 characters.
    pub resource: String,
    ulid: Ulid,
}

impl PartialEq for ResourceID {
    fn eq(&self, other: &ResourceID) -> (r: bool) {
        self.resource == other.resource && self.ulid == other.ulid
    }
}

impl vstd::std_specs::cmp::PartialEqSpecImpl for ResourceID {
    open spec fn obeys_eq_spec() -> bool {
        true
    }

    open spec fn eq_spec(&self, other: &ResourceID) -> bool {
        self.tag() == other.tag() && self.suffix_value() == other.suffix_value()
    }
}

/// The canonical text of an identifier: its tag followed by its suffix's
/// canonical text.
pub open spec fn render_spec(id: ResourceID) -> Seq<char> {
    id.tag() + ulid_text_of(id.suffix())
}

/// True of the texts that parsing accepts: exactly 30 characters whose last
/// 26 characters are suffix-alphabet characters.
pub open spec fn parse_accepts(s: Seq<char>) -> bool {
    s.len() == 30 && valid_suffix_chars(s.subrange(4, 30))
}

/// The resource tag parsing reads from a text: its first 4 characters,
/// uppercased.
pub open spec fn parsed_resource(s: Seq<char>) -> Seq<char> {
    upper_seq(s.subrange(0, 4))
}

/// The suffix value parsing reads from a text: the decode of its last 26
/// characters.
pub open spec fn parsed_suffix(s: Seq<char>) -> u128 {
    ulid_value_of(encode_utf8(s.subrange(4, 30)))
}

impl ResourceID {
    /// The identifier's resource tag, as a character sequence.
    pub closed spec fn tag(&self) -> Seq<char> {
        self.resource@
    }

    /// The identifier's suffix value.
    pub closed spec fn suffix(&self) -> u128 {
        self.ulid@
    }

    /// The identifier's suffix, as a value.
    pub closed spec fn suffix_value(&self) -> Ulid {
        self.ulid
    }

    /// A well-formed identifier: the tag is exactly 4 characters and is its
    /// own uppercase image. Every identifier that construction or parsing
    /// returns is well-formed.
    pub open spec fn wf(&self) -> bool {
        self.tag().len() == 4 && upper_seq(self.tag()) == self.tag()
    }

    /// Builds a fresh identifier from a resource tag: the tag is uppercased
    /// and must then be exactly 4 characters, and a fresh suffix value is
    /// drawn. Fails with InvalidResourceType exactly when the tag's length
    /// is not 4.
    pub fn new(resource: &str) -> (r: Result<ResourceID, ResourceIDError>)
        ensures
            r is Ok <==> resource@.len() == 4,
            r matches Ok(id) ==> id.wf() && id.tag() == upper_seq(resource@),
            r matches Err(e) ==> e matches ResourceIDError::InvalidResourceType(v) && v@
                == upper_seq(resource@),
    {
        let ulid = Ulid::new();
        let upped = to_upper(resource);
        match Self::validate_resource(upped.as_str()) {
            Err(e) => Err(e),
            Ok(()) => {
                proof {
                    lemma_upper_seq_idempotent(resource@);
                }
                Ok(ResourceID { resource: upped, ulid })
            },
        }
    }

    /// Checks that a resource tag is exactly 4 characters long; any
    /// 4-character tag is accepted, there is no registry of known tags.
    pub fn validate_resource(resource: &str) -> (r: Result<(), ResourceIDError>)
        ensures
            r is Ok <==> resource@.len() == 4,
            r matches Err(e) ==> e matches ResourceIDError::InvalidResourceType(v) && v@
                == resource@,
    {
        if resource.unicode_len() != 4 {
            Err(ResourceIDError::InvalidResourceType(String::from_str(resource)))
        } else {
            Ok(())
        }
    }

    /// Parses the 30-character canonical text of an identifier: the first 4
    /// characters become the uppercased tag, the last 26 are decoded as the
    /// suffix. Fails with InvalidLength exactly when the text's length is
    /// not 30, and with UnableToDecodeUlid exactly when the suffix segment
    /// is not made of suffix-alphabet characters.
    pub fn from_str(s: &str) -> (r: Result<ResourceID, ResourceIDError>)
        ensures
            r is Ok <==> parse_accepts(s@),
            r matches Ok(id) ==> id.wf() && id.tag() == parsed_resource(s@) && id.suffix()
                == parsed_suffix(s@),
            r matches Err(e) ==> !(e is InvalidResourceType),
            s@.len() != 30 ==> (r matches Err(e) && e matches ResourceIDError::InvalidLength(v)
                && v@ == s@),
            s@.len() == 30 && !valid_suffix_chars(s@.subrange(4, 30)) ==> (r matches Err(e)
                && e matches ResourceIDError::UnableToDecodeUlid(d) && ((d is InvalidLength)
                <==> encode_utf8(s@.subrange(4, 30)).len() != 26)),
    {
        if s.unicode_len() != 30 {
            return Err(ResourceIDError::InvalidLength(String::from_str(s)));
        }
        let resource_str = s.substring_char(0, 4);
        match Self::validate_resource(resource_str) {
            Err(e) => {
                return Err(e);
            },
            Ok(()) => {},
        }
        let ulid_str = s.substring_char(4, 30);
        let ulid = match Ulid::from_str(ulid_str) {
            Ok(u) => u,
            Err(e) => {
                return Err(ResourceIDError::UnableToDecodeUlid(e));
            },
        };
        let upped = to_upper(resource_str);
        proof {
            lemma_upper_seq_idempotent(s@.subrange(0, 4));
        }
        Ok(ResourceID { resource: upped, ulid })
    }

    /// Renders the canonical 30-character text: the uppercase tag followed by
    /// the suffix text. For a well-formed identifier, parsing the rendered
    /// text accepts it and reads back the same tag and the same suffix value:
    /// the parse/render round trip.
    pub fn render(&self) -> (r: String)
        ensures
            r@ == render_spec(*self),
            r@.len() == self.tag().len() + 26,
            self.wf() ==> r@.len() == 30 && r@.subrange(0, 4) == self.tag(),
            self.wf() ==> parse_accepts(r@),
            self.wf() ==> parsed_resource(r@) == self.tag(),
            self.wf() ==> parsed_suffix(r@) == self.suffix(),
    {
        let suffix_text = self.ulid.render();
        let r = self.resource.clone().concat(suffix_text.as_str());
        proof {
            if self.wf() {
                assert(r@.subrange(0, 4) =~= self.tag());
                assert(r@.subrange(4, 30) =~= suffix_text@);
            }
        }
        r
    }

    /// The name the schema description advertises for this type.
    pub fn schema_name() -> (r: String)
        ensures
            r@ == "ResourceID"@,
    {
        String::from_str("ResourceID")
    }

    /// The identifier's unique suffix value.
    pub fn ulid(&self) -> (r: &Ulid)
        ensures
            r@ == self.suffix(),
    {
        &self.ulid
    }
}

/// Equality between identifiers is structural over the pair of tag and
/// suffix: two identifiers with the same tag text and the same suffix value
/// are equal. Together with the parse and render contracts this closes the
/// round trip: parsing a rendered identifier gives an equal identifier.
pub proof fn lemma_structural_eq(a: ResourceID, b: ResourceID)
    requires
        a.tag() == b.tag(),
        a.suffix() == b.suffix(),
    ensures
        a.eq_spec(&b),
{
    crate::ulid::lemma_ulid_eq(a.suffix_value(), b.suffix_value());
}

} // verus!
