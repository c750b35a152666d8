//! The address of an issuing authority: an absolute URL, kept in the normal
//! form that the `url` crate writes it in.
use vstd::prelude::*;
use crate::error::CodecError;

verus! {

/// The normal form of an absolute URL: the serialization of what `Url::parse`
/// of the `url` crate makes of `input`, and `None` where it rejects `input`.
pub uninterp spec fn url_normal_form(input: Seq<char>) -> Option<Seq<char>>;

/// The error of the `url` crate's parser; its cause is not looked into.
#[verifier::external_type_specification]
#[verifier::external_body]
pub struct ExParseError(url::ParseError);

/// `Url::parse` of the `url` crate, read through its conversion into a
/// `String`. Trusted: acceptance and the serialization depend on the input
/// alone. A relative reference is rejected, as no base is given.
#[verifier::external_body]
fn normalize(input: &str) -> (r: Result<String, url::ParseError>)
    ensures
        match r {
            Ok(text) => url_normal_form(input@) == Some(text@),
            Err(_) => url_normal_form(input@) is None,
        },
{
    url::Url::parse(input).map(|parsed| parsed.into())
}

/// What reading `input` as an endpoint comes to: its normal form, provided
/// that the normal form reads as itself.
pub open spec fn parsed_endpoint(input: Seq<char>) -> Result<Seq<char>, CodecError> {
    match url_normal_form(input) {
        Some(text) if url_normal_form(text) == Some(text) => Ok(text),
        _ => Err(CodecError::UrlError),
    }
}

/// An absolute URL in normal form.
#[derive(Debug, PartialEq, Eq)]
pub struct Endpoint {
    text: String,
}

impl View for Endpoint {
    type V = Seq<char>;

    closed spec fn view(&self) -> Seq<char> {
        self.text@
    }
}

impl Clone for Endpoint {
    fn clone(&self) -> (out: Self)
        ensures
            out@ == self@,
    {
        proof {
            use_type_invariant(self);
        }
        Endpoint { text: self.text.clone() }
    }
}

impl Endpoint {
    /// Every endpoint that exists holds a text that reads as itself.
    #[verifier::type_invariant]
    spec fn fixed(self) -> bool {
        url_normal_form(self.text@) == Some(self.text@)
    }

    /// The text is a URL that reads as itself.
    pub open spec fn wf(&self) -> bool {
        url_normal_form(self@) == Some(self@)
    }

    /// Reads an endpoint. The input is brought into normal form, and the
    /// normal form is read once more to confirm that it stands for itself,
    /// so that an endpoint that was written out always reads back unchanged.
    pub fn parse(input: &str) -> (r: Result<Endpoint, CodecError>)
        ensures
            match r {
                Ok(endpoint) => parsed_endpoint(input@) == Ok::<Seq<char>, CodecError>(endpoint@)
                    && endpoint.wf(),
                Err(e) => parsed_endpoint(input@) == Err::<Seq<char>, CodecError>(e),
            },
    {
        let text = match normalize(input) {
            Ok(text) => text,
            Err(_) => {
                return Err(CodecError::UrlError);
            },
        };
        match normalize(text.as_str()) {
            Ok(again) => {
                if again == text {
                    Ok(Endpoint { text })
                } else {
                    Err(CodecError::UrlError)
                }
            },
            Err(_) => Err(CodecError::UrlError),
        }
    }

    /// The URL as text.
    pub fn as_str(&self) -> (text: &str)
        ensures
            text@ == self@,
            self.wf(),
    {
        proof {
            use_type_invariant(self);
        }
        self.text.as_str()
    }
}

/// An endpoint that was written out reads back as itself.
pub proof fn law_endpoint_round_trip(endpoint: Endpoint)
    requires
        endpoint.wf(),
    ensures
        parsed_endpoint(endpoint@) == Ok::<Seq<char>, CodecError>(endpoint@),
{
}

} // verus!
