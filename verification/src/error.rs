//! The typed failures of the codec and of record decoding.
use vstd::prelude::*;

verus! {

/// Why a text or a record was rejected. Every failure is final for the one
/// decode attempt that met it; nothing is defaulted or partially built.
#[derive(Clone, Copy, Debug, PartialEq, Eq, Structural)]
pub enum CodecError {
    /// The text is not URL-safe unpadded base64.
    DecodeError,
    /// The text decodes, but not to the byte count of the target kind.
    LengthError,
    /// The bytes have the right count but are no valid material of the kind.
    FormatError,
    /// A key-pair object has no `secret` member.
    MissingFieldError,
    /// A key-pair object names `secret` or `public` twice.
    DuplicateFieldError,
    /// A state name is none of the declared variants.
    UnknownVariantError,
    /// An endpoint is not an absolute URL in normal form.
    UrlError,
    /// A version does not follow semantic-versioning syntax.
    VersionError,
}

impl CodecError {
    /// What the failure says, as a spec value.
    pub open spec fn message_spec(self) -> Seq<char> {
        match self {
            CodecError::DecodeError => "text is not URL-safe unpadded base64"@,
            CodecError::LengthError => "decoded bytes have the wrong length"@,
            CodecError::FormatError => "bytes are no valid key material"@,
            CodecError::MissingFieldError => "missing field `secret`"@,
            CodecError::DuplicateFieldError => "duplicate field"@,
            CodecError::UnknownVariantError => "unknown variant, expected `Pending` or `Complete`"@,
            CodecError::UrlError => "endpoint is not an absolute URL"@,
            CodecError::VersionError => "version is not a semantic version"@,
        }
    }

    /// What the failure says: one fixed sentence for each failure.
    pub fn message(&self) -> (text: &'static str)
        ensures
            text@ == self.message_spec(),
    {
        match self {
            CodecError::DecodeError => "text is not URL-safe unpadded base64",
            CodecError::LengthError => "decoded bytes have the wrong length",
            CodecError::FormatError => "bytes are no valid key material",
            CodecError::MissingFieldError => "missing field `secret`",
            CodecError::DuplicateFieldError => "duplicate field",
            CodecError::UnknownVariantError => "unknown variant, expected `Pending` or `Complete`",
            CodecError::UrlError => "endpoint is not an absolute URL",
            CodecError::VersionError => "version is not a semantic version",
        }
    }

    /// What the failure says, owned.
    pub fn to_string(&self) -> (text: String)
        ensures
            text@ == self.message_spec(),
    {
        self.message().to_owned()
    }
}

} // verus!
