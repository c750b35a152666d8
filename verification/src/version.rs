//! The version of a record: a semantic version, kept as the text that the
//! `semver` crate writes it in.
use vstd::prelude::*;
use crate::error::CodecError;

verus! {

/// The written form of a semantic version: what `Version::parse` of the
/// `semver` crate makes of `input`, displayed, and `None` where it rejects
/// `input`.
pub uninterp spec fn semver_text(input: Seq<char>) -> Option<Seq<char>>;

/// The error of the `semver` crate's parser; its cause is not looked into.
#[verifier::external_type_specification]
#[verifier::external_body]
pub struct ExSemverError(semver::Error);

/// `Version::parse` of the `semver` crate, read through its `Display`.
/// Trusted: acceptance and the displayed text depend on the input alone.
#[verifier::external_body]
fn normalize(input: &str) -> (r: Result<String, semver::Error>)
    ensures
        match r {
            Ok(text) => semver_text(input@) == Some(text@),
            Err(_) => semver_text(input@) is None,
        },
{
    semver::Version::parse(input).map(|parsed| format!("{}", parsed))
}

/// What reading `input` as a version comes to: its written form, provided
/// that the written form reads as itself.
pub open spec fn parsed_version(input: Seq<char>) -> Result<Seq<char>, CodecError> {
    match semver_text(input) {
        Some(text) if semver_text(text) == Some(text) => Ok(text),
        _ => Err(CodecError::VersionError),
    }
}

/// A semantic version in its written form.
#[derive(Debug, PartialEq, Eq)]
pub struct Version {
    text: String,
}

impl View for Version {
    type V = Seq<char>;

    closed spec fn view(&self) -> Seq<char> {
        self.text@
    }
}

impl Clone for Version {
    fn clone(&self) -> (out: Self)
        ensures
            out@ == self@,
    {
        proof {
            use_type_invariant(self);
        }
        Version { text: self.text.clone() }
    }
}

impl Version {
    /// Every version that exists holds a text that reads as itself.
    #[verifier::type_invariant]
    spec fn fixed(self) -> bool {
        semver_text(self.text@) == Some(self.text@)
    }

    /// The text is a version that reads as itself.
    pub open spec fn wf(&self) -> bool {
        semver_text(self@) == Some(self@)
    }

    /// Reads a version. The written form of what was read is read once more
    /// to confirm that it stands for itself, so that a version that was
    /// written out always reads back unchanged.
    pub fn parse(input: &str) -> (r: Result<Version, CodecError>)
        ensures
            match r {
                Ok(version) => parsed_version(input@) == Ok::<Seq<char>, CodecError>(version@)
                    && version.wf(),
                Err(e) => parsed_version(input@) == Err::<Seq<char>, CodecError>(e),
            },
    {
        let text = match normalize(input) {
            Ok(text) => text,
            Err(_) => {
                return Err(CodecError::VersionError);
            },
        };
        match normalize(text.as_str()) {
            Ok(again) => {
                if again == text {
                    Ok(Version { text })
                } else {
                    Err(CodecError::VersionError)
                }
            },
            Err(_) => Err(CodecError::VersionError),
        }
    }

    /// The version as text.
    pub fn as_str(&self) -> (text: &str)
        ensures
            text@ == self@,
            self.wf(),
    {
        proof {
            use_type_invariant(self);
        }
        self.text.as_str()
    }
}

/// A version that was written out reads back as itself.
pub proof fn law_version_round_trip(version: Version)
    requires
        version.wf(),
    ensures
        parsed_version(version@) == Ok::<Seq<char>, CodecError>(version@),
{
}

} // verus!
