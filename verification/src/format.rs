//! The two proof encodings and the tags that name them.

use vstd::prelude::*;
use vstd::string::*;
use crate::error::WorkflowError;

verus! {

/// The encoding under which a credential is signed and checked.
#[derive(Clone, Copy, Debug, PartialEq, Eq, Structural)]
pub enum ProofFormat {
    /// A single signed string: header, payload and signature.
    CompactToken,
    /// A proof block attached inside the credential document.
    EmbeddedProof,
}

/// The tag of the compact token format.
pub open spec fn compact_token_tag() -> Seq<char> {
    "jwt"@
}

/// The tag of the embedded proof format.
pub open spec fn embedded_proof_tag() -> Seq<char> {
    "ldp"@
}

/// A tag is recognized when it names one of the two formats, letter for
/// letter.
pub open spec fn recognized_tag(tag: Seq<char>) -> bool {
    tag == compact_token_tag() || tag == embedded_proof_tag()
}

/// The format that a tag names, if it names one.
pub open spec fn format_of_tag(tag: Seq<char>) -> Option<ProofFormat> {
    if tag == compact_token_tag() {
        Some(ProofFormat::CompactToken)
    } else if tag == embedded_proof_tag() {
        Some(ProofFormat::EmbeddedProof)
    } else {
        None
    }
}

/// The two tags differ, so no tag names both formats.
pub proof fn lemma_tags_differ()
    ensures
        compact_token_tag() != embedded_proof_tag(),
{
    reveal_strlit("jwt");
    reveal_strlit("ldp");
    assert("jwt"@[0] == 'j');
    assert("ldp"@[0] == 'l');
}

impl ProofFormat {
    /// The tag that names this format.
    pub open spec fn tag_spec(self) -> Seq<char> {
        match self {
            ProofFormat::CompactToken => compact_token_tag(),
            ProofFormat::EmbeddedProof => embedded_proof_tag(),
        }
    }

    /// Reads a format tag. Any tag other than the two known ones is a
    /// configuration fault.
    pub fn from_tag(tag: &str) -> (parsed: Result<ProofFormat, WorkflowError>)
        ensures
            parsed == match format_of_tag(tag@) {
                Some(format) => Ok::<ProofFormat, WorkflowError>(format),
                None => Err::<ProofFormat, WorkflowError>(WorkflowError::UnsupportedProofFormat),
            },
            parsed is Ok <==> recognized_tag(tag@),
    {
        let given = String::from_str(tag);
        if given == String::from_str("jwt") {
            Ok(ProofFormat::CompactToken)
        } else if given == String::from_str("ldp") {
            Ok(ProofFormat::EmbeddedProof)
        } else {
            Err(WorkflowError::UnsupportedProofFormat)
        }
    }

    /// The tag that names this format.
    pub fn tag(&self) -> (name: &'static str)
        ensures
            name@ == self.tag_spec(),
            format_of_tag(name@) == Some(*self),
    {
        proof {
            lemma_tags_differ();
        }
        match self {
            ProofFormat::CompactToken => "jwt",
            ProofFormat::EmbeddedProof => "ldp",
        }
    }

    /// Whether the output of issuing under this format is one opaque string
    /// rather than a credential document.
    pub fn emits_opaque_string(&self) -> (opaque: bool)
        ensures
            opaque == (*self == ProofFormat::CompactToken),
    {
        match self {
            ProofFormat::CompactToken => true,
            ProofFormat::EmbeddedProof => false,
        }
    }
}

} // verus!
