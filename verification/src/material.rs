//! The kinds of key material: fixed-length byte buffers that are never
//! interchangeable, each with the constructor that admits its bytes.
use vstd::prelude::*;
use crate::error::CodecError;

verus! {

/// Byte count of a verification key and of a secret scalar.
pub const KEY_LENGTH: usize = 32;

/// Byte count of a detached signature.
pub const SIGNATURE_LENGTH: usize = 64;

/// What the kinds share: a required byte count, a test that admits bytes of
/// that count, and the passage between a value and its bytes.
pub trait Material: Sized {
    /// The byte count of the kind.
    spec fn required_len() -> nat;

    /// Whether bytes of the required count are valid material of the kind.
    spec fn admits(bytes: Seq<u8>) -> bool;

    /// The bytes that a value holds.
    spec fn bytes(&self) -> Seq<u8>;

    /// The text of the longest kind still has a length that fits in `usize`.
    proof fn lemma_required_len_small()
        ensures
            Self::required_len() <= 64,
    ;

    /// A value is its bytes and nothing more.
    proof fn lemma_same_bytes(a: &Self, b: &Self)
        requires
            a.bytes() == b.bytes(),
        ensures
            *a == *b,
    ;

    /// The bytes of a value. A value that exists is valid: its bytes have
    /// the required count and the kind admits them.
    fn to_bytes(&self) -> (out: Vec<u8>)
        ensures
            out@ == self.bytes(),
            out@.len() == Self::required_len(),
            Self::admits(out@),
    ;

    /// Builds a value from raw bytes: `LengthError` for a wrong count,
    /// `FormatError` for bytes of the right count that the kind rejects.
    fn from_bytes(bytes: &[u8]) -> (r: Result<Self, CodecError>)
        ensures
            r is Ok <==> bytes@.len() == Self::required_len() && Self::admits(bytes@),
            r matches Ok(value) ==> value.bytes() == bytes@,
            r matches Err(e) ==> e == (if bytes@.len() != Self::required_len() {
                CodecError::LengthError
            } else {
                CodecError::FormatError
            }),
    ;
}

/// A value is valid when it holds the required count of bytes and its kind
/// admits them.
pub open spec fn valid<T: Material>(value: &T) -> bool {
    value.bytes().len() == T::required_len() && T::admits(value.bytes())
}

/// What the constructor of kind `T` makes of raw bytes.
pub open spec fn accepted<T: Material>(bytes: Seq<u8>) -> Result<Seq<u8>, CodecError> {
    if bytes.len() != T::required_len() {
        Err(CodecError::LengthError)
    } else if !T::admits(bytes) {
        Err(CodecError::FormatError)
    } else {
        Ok(bytes)
    }
}

/// Copies a slice of exactly `N` bytes into an array.
pub fn to_array<const N: usize>(bytes: &[u8]) -> (out: [u8; N])
    requires
        bytes@.len() == N,
    ensures
        out@ == bytes@,
{
    let mut out = [0u8; N];
    let mut i: usize = 0;
    while i < N
        invariant
            i <= N,
            bytes@.len() == N,
            forall|k: int| 0 <= k < i ==> out@[k] == bytes@[k],
        decreases N - i,
    {
        out[i] = bytes[i];
        i += 1;
    }
    assert(out@ =~= bytes@);
    out
}

/// Copies an array into a vector.
pub fn to_vec<const N: usize>(bytes: &[u8; N]) -> (out: Vec<u8>)
    ensures
        out@ == bytes@,
{
    let mut out: Vec<u8> = Vec::new();
    let mut i: usize = 0;
    while i < N
        invariant
            i <= N,
            out@.len() == i,
            forall|k: int| 0 <= k < i ==> out@[k] == bytes@[k],
        decreases N - i,
    {
        out.push(bytes[i]);
        i += 1;
    }
    assert(out@ =~= bytes@);
    out
}

/// Whether 32 bytes are the compressed form of a point of the curve: what
/// `VerifyingKey::from_bytes` of `ed25519_dalek` accepts.
pub uninterp spec fn curve_point(bytes: Seq<u8>) -> bool;

/// The verification key that belongs to a secret scalar: what
/// `SigningKey::from_bytes` of `ed25519_dalek` derives.
pub uninterp spec fn derived_public(secret: Seq<u8>) -> Seq<u8>;

/// The error of `ed25519_dalek`; its cause is not looked into.
#[verifier::external_type_specification]
#[verifier::external_body]
pub struct ExSignatureError(ed25519_dalek::SignatureError);

/// `VerifyingKey::from_bytes` of `ed25519_dalek`. Trusted: whether it
/// accepts depends on the 32 bytes alone, and a key that it accepts holds
/// those same bytes.
#[verifier::external_body]
fn decompress(bytes: &[u8; 32]) -> (r: Result<[u8; 32], ed25519_dalek::SignatureError>)
    ensures
        match r {
            Ok(kept) => curve_point(bytes@) && kept@ == bytes@,
            Err(_) => !curve_point(bytes@),
        },
{
    ed25519_dalek::VerifyingKey::from_bytes(bytes).map(|key| key.to_bytes())
}

/// `SigningKey::from_bytes` of `ed25519_dalek`, read through
/// `verifying_key`. Trusted: the public half depends on the secret alone,
/// and its bytes are a compressed point that `VerifyingKey::from_bytes`
/// accepts.
#[verifier::external_body]
fn derive(secret: &[u8; 32]) -> (public: [u8; 32])
    ensures
        public@ == derived_public(secret@),
        curve_point(public@),
{
    ed25519_dalek::SigningKey::from_bytes(secret).verifying_key().to_bytes()
}

/// `SigningKey::generate` of `ed25519_dalek` on the operating system's
/// generator. Nothing is known of the secret that comes back.
#[verifier::external_body]
fn fresh_secret() -> (secret: [u8; 32])
{
    ed25519_dalek::SigningKey::generate(&mut rand::rngs::OsRng).to_bytes()
}

/// A public verification key: 32 bytes that are a point of the curve.
#[derive(Clone, Copy, Debug, PartialEq, Eq)]
pub struct VerifyingKey {
    bytes: [u8; 32],
}

impl View for VerifyingKey {
    type V = Seq<u8>;

    closed spec fn view(&self) -> Seq<u8> {
        self.bytes@
    }
}

impl VerifyingKey {
    /// Every key that exists holds a point of the curve.
    #[verifier::type_invariant]
    spec fn on_curve(self) -> bool {
        curve_point(self.bytes@)
    }

    /// The key's bytes: 32 of them, a point of the curve.
    pub fn as_bytes(&self) -> (out: &[u8; 32])
        ensures
            out@ == self@,
            curve_point(out@),
    {
        proof {
            use_type_invariant(self);
        }
        &self.bytes
    }
}

impl Material for VerifyingKey {
    open spec fn required_len() -> nat {
        32
    }

    open spec fn admits(bytes: Seq<u8>) -> bool {
        curve_point(bytes)
    }

    open spec fn bytes(&self) -> Seq<u8> {
        self@
    }

    proof fn lemma_required_len_small() {
    }

    proof fn lemma_same_bytes(a: &Self, b: &Self) {
        assert(a.bytes =~= b.bytes);
    }

    fn to_bytes(&self) -> (out: Vec<u8>) {
        proof {
            use_type_invariant(self);
        }
        to_vec(&self.bytes)
    }

    fn from_bytes(bytes: &[u8]) -> (r: Result<Self, CodecError>) {
        if bytes.len() != KEY_LENGTH {
            return Err(CodecError::LengthError);
        }
        let raw: [u8; 32] = to_array(bytes);
        match decompress(&raw) {
            Ok(kept) => Ok(VerifyingKey { bytes: kept }),
            Err(_) => Err(CodecError::FormatError),
        }
    }
}

/// A private scalar: any 32 bytes.
#[derive(Clone, Copy, PartialEq, Eq)]
pub struct SecretScalar(pub [u8; 32]);

impl Material for SecretScalar {
    open spec fn required_len() -> nat {
        32
    }

    open spec fn admits(bytes: Seq<u8>) -> bool {
        true
    }

    open spec fn bytes(&self) -> Seq<u8> {
        self.0@
    }

    proof fn lemma_required_len_small() {
    }

    proof fn lemma_same_bytes(a: &Self, b: &Self) {
        assert(a.0 =~= b.0);
    }

    fn to_bytes(&self) -> (out: Vec<u8>) {
        to_vec(&self.0)
    }

    fn from_bytes(bytes: &[u8]) -> (r: Result<Self, CodecError>) {
        if bytes.len() != KEY_LENGTH {
            return Err(CodecError::LengthError);
        }
        Ok(SecretScalar(to_array(bytes)))
    }
}

/// A detached signature: any 64 bytes. It carries no key.
#[derive(Clone, Copy, Debug, PartialEq, Eq)]
pub struct SignatureBytes(pub [u8; 64]);

impl Material for SignatureBytes {
    open spec fn required_len() -> nat {
        64
    }

    open spec fn admits(bytes: Seq<u8>) -> bool {
        true
    }

    open spec fn bytes(&self) -> Seq<u8> {
        self.0@
    }

    proof fn lemma_required_len_small() {
    }

    proof fn lemma_same_bytes(a: &Self, b: &Self) {
        assert(a.0 =~= b.0);
    }

    fn to_bytes(&self) -> (out: Vec<u8>) {
        to_vec(&self.0)
    }

    fn from_bytes(bytes: &[u8]) -> (r: Result<Self, CodecError>) {
        if bytes.len() != SIGNATURE_LENGTH {
            return Err(CodecError::LengthError);
        }
        Ok(SignatureBytes(to_array(bytes)))
    }
}

/// What a key pair is, as plain values.
pub struct KeyPairView {
    /// The bytes of the secret half.
    pub secret: Seq<u8>,
    /// The bytes of the public half.
    pub public: Seq<u8>,
}

/// The pair that belongs to a secret scalar.
pub open spec fn pair_of(secret: Seq<u8>) -> KeyPairView {
    KeyPairView { secret, public: derived_public(secret) }
}

/// A secret scalar together with the verification key derived from it. The
/// public half is computed, never taken from outside.
#[derive(Clone, Copy, PartialEq, Eq)]
pub struct SigningKeyPair {
    secret: SecretScalar,
    public: VerifyingKey,
}

impl View for SigningKeyPair {
    type V = KeyPairView;

    closed spec fn view(&self) -> KeyPairView {
        KeyPairView { secret: self.secret.0@, public: self.public@ }
    }
}

impl KeyPairView {
    /// Both halves have 32 bytes, and the public half is the key derived
    /// from the secret half, a point of the curve.
    pub open spec fn wf(self) -> bool {
        &&& self.secret.len() == 32
        &&& self.public.len() == 32
        &&& self == pair_of(self.secret)
        &&& curve_point(self.public)
    }
}

impl SigningKeyPair {
    /// Every pair that exists has the public half that its secret half
    /// derives.
    #[verifier::type_invariant]
    spec fn derived(self) -> bool {
        self.public.bytes@ == derived_public(self.secret.0@)
    }

    /// A pair is its two halves and nothing more.
    pub proof fn lemma_same_view(a: &SigningKeyPair, b: &SigningKeyPair)
        requires
            a@ == b@,
        ensures
            *a == *b,
    {
        assert(a.secret.0 =~= b.secret.0);
        assert(a.public.bytes =~= b.public.bytes);
    }

    /// The pair derived anew from the secret half of a valid pair is that
    /// pair: deriving again gives the same public half.
    pub proof fn law_rederived(pair: &SigningKeyPair, again: &SigningKeyPair)
        requires
            pair@.wf(),
            again@ == pair_of(pair@.secret),
        ensures
            again@.public == pair@.public,
            *again == *pair,
    {
        SigningKeyPair::lemma_same_view(again, pair);
    }

    /// The pair of a secret scalar: the public half is derived from it.
    pub fn from_secret(secret: SecretScalar) -> (pair: SigningKeyPair)
        ensures
            pair@ == pair_of(secret.bytes()),
            pair@.wf(),
    {
        let public = derive(&secret.0);
        SigningKeyPair { secret, public: VerifyingKey { bytes: public } }
    }

    /// A new pair, its secret drawn from the operating system's generator.
    /// Whatever was drawn, the public half is the one derived from it.
    pub fn generate() -> (pair: SigningKeyPair)
        ensures
            pair@.wf(),
    {
        SigningKeyPair::from_secret(SecretScalar(fresh_secret()))
    }

    /// The secret half.
    pub fn secret(&self) -> (out: SecretScalar)
        ensures
            out.bytes() == self@.secret,
            self@.wf(),
    {
        proof {
            use_type_invariant(self);
            use_type_invariant(&self.public);
        }
        self.secret
    }

    /// The public half: a copy, the pair is unchanged. Deriving the key
    /// from the secret half anew gives this same key.
    pub fn verifying_key(&self) -> (out: VerifyingKey)
        ensures
            out@ == self@.public,
            out@ == derived_public(self@.secret),
            self@.wf(),
    {
        proof {
            use_type_invariant(self);
            use_type_invariant(&self.public);
        }
        self.public
    }
}

} // verus!
