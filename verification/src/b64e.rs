//! The envelope codec: key material as URL-safe unpadded base64 text, and a
//! key pair as an object with the members `secret` and `public`.
use vstd::prelude::*;
use vstd::string::StringExecFns;
use crate::base64url::{decode_spec, encode_spec, encoded_len, lemma_decode_encode,
    lemma_encoded_text};
use crate::error::CodecError;
use crate::material::{accepted, derived_public, pair_of, valid, KeyPairView, Material,
    SecretScalar, SignatureBytes, SigningKeyPair, VerifyingKey};

verus! {

/// Key material in its text envelope.
#[derive(Debug, Clone, Copy, PartialEq, Eq)]
pub struct Base64<T>(pub T);

/// What decoding `text` as kind `T` comes to: the bytes of the value, or the
/// failure. The checks run in this order: the text, the byte count, the
/// kind's own test.
pub open spec fn decoded<T: Material>(text: Seq<char>) -> Result<Seq<u8>, CodecError> {
    match decode_spec(text) {
        None => Err(CodecError::DecodeError),
        Some(bytes) => accepted::<T>(bytes),
    }
}

impl<T: Material> Base64<T> {
    /// The wrapped value is valid material of its kind.
    pub open spec fn wf(&self) -> bool {
        valid(&self.0)
    }

    /// The text of the value. Encoding never fails: a value that exists is
    /// valid. The length of the text is fixed by the kind.
    pub fn encode(&self) -> (text: String)
        ensures
            text@ == encode_spec(self.0.bytes()),
            text@.len() == encoded_len(T::required_len()),
            self.wf(),
    {
        proof {
            T::lemma_required_len_small();
            lemma_encoded_text(self.0.bytes());
        }
        let bytes = self.0.to_bytes();
        crate::base64url::encode(bytes.as_slice())
    }

    /// The value that `text` stands for, or why it stands for none.
    pub fn decode(text: &str) -> (r: Result<Base64<T>, CodecError>)
        ensures
            match r {
                Ok(value) => decoded::<T>(text@) == Ok::<Seq<u8>, CodecError>(value.0.bytes())
                    && value.wf(),
                Err(e) => decoded::<T>(text@) == Err::<Seq<u8>, CodecError>(e),
            },
    {
        match crate::base64url::decode(text) {
            Err(_) => Err(CodecError::DecodeError),
            Ok(bytes) => {
                match T::from_bytes(bytes.as_slice()) {
                    Ok(value) => Ok(Base64(value)),
                    Err(e) => Err(e),
                }
            },
        }
    }

    /// The plain-text rendering: the same as the encoded form.
    pub fn to_string(&self) -> (text: String)
        ensures
            text@ == encode_spec(self.0.bytes()),
    {
        self.encode()
    }
}

impl<T> Base64<T> {
    /// Takes the value out of its envelope.
    pub fn into_inner(self) -> (value: T)
        ensures
            value == self.0,
    {
        self.0
    }
}

impl From<Base64<VerifyingKey>> for VerifyingKey {
    fn from(w: Base64<VerifyingKey>) -> (value: VerifyingKey) {
        w.0
    }
}

impl vstd::std_specs::convert::FromSpecImpl<Base64<VerifyingKey>> for VerifyingKey {
    open spec fn obeys_from_spec() -> bool {
        true
    }

    open spec fn from_spec(w: Base64<VerifyingKey>) -> VerifyingKey {
        w.0
    }
}

impl From<Base64<SecretScalar>> for SecretScalar {
    fn from(w: Base64<SecretScalar>) -> (value: SecretScalar) {
        w.0
    }
}

impl vstd::std_specs::convert::FromSpecImpl<Base64<SecretScalar>> for SecretScalar {
    open spec fn obeys_from_spec() -> bool {
        true
    }

    open spec fn from_spec(w: Base64<SecretScalar>) -> SecretScalar {
        w.0
    }
}

impl From<Base64<SignatureBytes>> for SignatureBytes {
    fn from(w: Base64<SignatureBytes>) -> (value: SignatureBytes) {
        w.0
    }
}

impl vstd::std_specs::convert::FromSpecImpl<Base64<SignatureBytes>> for SignatureBytes {
    open spec fn obeys_from_spec() -> bool {
        true
    }

    open spec fn from_spec(w: Base64<SignatureBytes>) -> SignatureBytes {
        w.0
    }
}

impl From<Base64<SigningKeyPair>> for SigningKeyPair {
    fn from(w: Base64<SigningKeyPair>) -> (value: SigningKeyPair) {
        w.0
    }
}

impl vstd::std_specs::convert::FromSpecImpl<Base64<SigningKeyPair>> for SigningKeyPair {
    open spec fn obeys_from_spec() -> bool {
        true
    }

    open spec fn from_spec(w: Base64<SigningKeyPair>) -> SigningKeyPair {
        w.0
    }
}

/// The text of a valid value decodes, and to that value.
pub proof fn law_round_trip<T: Material>(x: Base64<T>, y: Base64<T>)
    requires
        x.wf(),
    ensures
        decoded::<T>(encode_spec(x.0.bytes())) == Ok::<Seq<u8>, CodecError>(x.0.bytes()),
        y.0.bytes() == x.0.bytes() ==> y == x,
{
    lemma_decode_encode(x.0.bytes());
    if y.0.bytes() == x.0.bytes() {
        T::lemma_same_bytes(&y.0, &x.0);
    }
}

/// The text of bytes of any other count than the kind's own, too few or too
/// many, is rejected with `LengthError`.
pub proof fn law_length_enforced<T: Material>(bytes: Seq<u8>)
    requires
        bytes.len() != T::required_len(),
    ensures
        decoded::<T>(encode_spec(bytes)) == Err::<Seq<u8>, CodecError>(CodecError::LengthError),
{
    lemma_decode_encode(bytes);
}

/// One member of a key-pair object, as it stands in the input.
#[derive(Debug, Clone, PartialEq, Eq)]
pub struct Member {
    /// The member's name.
    pub name: String,
    /// The member's value, a text.
    pub value: String,
}

impl View for Member {
    type V = (Seq<char>, Seq<char>);

    open spec fn view(&self) -> (Seq<char>, Seq<char>) {
        (self.name@, self.value@)
    }
}

/// The members of an object as plain values, in input order.
pub open spec fn members(object: Seq<Member>) -> Seq<(Seq<char>, Seq<char>)> {
    Seq::new(object.len(), |i: int| object[i]@)
}

/// The name of the member that carries the secret scalar.
pub const SECRET: &'static str = "secret";

/// The name of the member that carries the verification key.
pub const PUBLIC: &'static str = "public";

/// The name of the member that carries the secret scalar, as a spec value.
pub open spec fn secret_name() -> Seq<char> {
    SECRET@
}

/// The name of the member that carries the verification key, as a spec
/// value.
pub open spec fn public_name() -> Seq<char> {
    PUBLIC@
}

/// Whether the value of a member of this name is looked at: only that of
/// `secret` is. A `public` member counts by its name alone, and a member of
/// any other name not at all.
pub fn value_is_read(name: &str) -> (r: bool)
    ensures
        r == (name@ == secret_name()),
{
    name.to_owned() == String::from_str(SECRET)
}

/// Some member before position `i` has the name `name`.
pub open spec fn named_before(
    object: Seq<(Seq<char>, Seq<char>)>,
    i: int,
    name: Seq<char>,
) -> bool {
    exists|j: int| 0 <= j < i && (#[trigger] object[j]).0 == name
}

/// What is wrong with member `i`, if anything: a repeated `secret` or
/// `public`, or a `secret` whose value does not decode as a secret scalar. A
/// repeated name is found before its value is looked at. The value of
/// `public` is never looked at, and members of other names are passed over.
pub open spec fn fault_at(object: Seq<(Seq<char>, Seq<char>)>, i: int) -> Option<CodecError> {
    let (name, value) = object[i];
    if name == secret_name() {
        if named_before(object, i, name) {
            Some(CodecError::DuplicateFieldError)
        } else {
            match decoded::<SecretScalar>(value) {
                Ok(_) => None,
                Err(e) => Some(e),
            }
        }
    } else if name == public_name() {
        if named_before(object, i, name) {
            Some(CodecError::DuplicateFieldError)
        } else {
            None
        }
    } else {
        None
    }
}

/// Member `i` is at fault and no member before it is.
pub open spec fn first_fault(object: Seq<(Seq<char>, Seq<char>)>, i: int) -> bool {
    &&& 0 <= i < object.len()
    &&& fault_at(object, i) is Some
    &&& forall|j: int| 0 <= j < i ==> (#[trigger] fault_at(object, j)) is None
}

/// What decoding a key-pair object comes to. The first member at fault
/// decides the failure. Without a fault, an object with no `secret` fails
/// with `MissingFieldError`; otherwise the pair is the one that belongs to
/// the secret, whatever a `public` member holds.
pub open spec fn decoded_object(object: Seq<(Seq<char>, Seq<char>)>) -> Result<
    KeyPairView,
    CodecError,
> {
    if exists|i: int| first_fault(object, i) {
        let i = choose|i: int| first_fault(object, i);
        Err(fault_at(object, i)->0)
    } else if !named_before(object, object.len() as int, secret_name()) {
        Err(CodecError::MissingFieldError)
    } else {
        let i = choose|i: int| 0 <= i < object.len() && (#[trigger] object[i]).0 == secret_name();
        Ok(pair_of(decoded::<SecretScalar>(object[i].1)->Ok_0))
    }
}

/// The object of a key pair: `secret`, then `public`.
pub open spec fn encoded_object(pair: KeyPairView) -> Seq<(Seq<char>, Seq<char>)> {
    seq![(secret_name(), encode_spec(pair.secret)), (public_name(), encode_spec(pair.public))]
}

/// Only one member can be the first at fault.
pub proof fn lemma_first_fault_unique(object: Seq<(Seq<char>, Seq<char>)>, i: int, j: int)
    requires
        first_fault(object, i),
        first_fault(object, j),
    ensures
        i == j,
{
}

impl Base64<SigningKeyPair> {
    /// The members that a pair is written as: `secret` with the text of the
    /// secret scalar, `public` with the text of the derived key.
    pub fn to_members(&self) -> (object: Vec<Member>)
        ensures
            members(object@) == encoded_object(self.0@),
            self.0@.wf(),
    {
        let secret = Base64(self.0.secret());
        let public = Base64(self.0.verifying_key());
        let mut object: Vec<Member> = Vec::new();
        object.push(Member { name: String::from_str(SECRET), value: secret.encode() });
        object.push(Member { name: String::from_str(PUBLIC), value: public.encode() });
        assert(members(object@) =~= encoded_object(self.0@));
        object
    }

    /// The pair that an object stands for, or why it stands for none. Only
    /// `secret` is needed; the public half is derived from it. A `public`
    /// member is not read: any text may stand there, and only its name
    /// counts, which may not come twice.
    pub fn from_members(object: &Vec<Member>) -> (r: Result<Base64<SigningKeyPair>, CodecError>)
        ensures
            match r {
                Ok(pair) => decoded_object(members(object@)) == Ok::<KeyPairView, CodecError>(
                    pair.0@,
                ) && pair.0@.wf(),
                Err(e) => decoded_object(members(object@)) == Err::<KeyPairView, CodecError>(e),
            },
    {
        let ghost all = members(object@);
        let secret_key = String::from_str(SECRET);
        let public_key = String::from_str(PUBLIC);
        let mut secret: Option<Base64<SecretScalar>> = None;
        let mut public_seen = false;
        let mut i: usize = 0;
        while i < object.len()
            invariant
                i <= object.len(),
                all == members(object@),
                secret_key@ == secret_name(),
                public_key@ == public_name(),
                forall|j: int| 0 <= j < i ==> (#[trigger] fault_at(all, j)) is None,
                secret is Some <==> named_before(all, i as int, secret_name()),
                public_seen <==> named_before(all, i as int, public_name()),
                secret matches Some(s) ==> exists|j: int|
                    0 <= j < i && (#[trigger] all[j]).0 == secret_name() && decoded::<SecretScalar>(
                        all[j].1,
                    ) == Ok::<Seq<u8>, CodecError>(s.0.bytes()),
            decreases object.len() - i,
        {
            let member = &object[i];
            assert(all[i as int] == member@);
            if member.name == secret_key {
                if secret.is_some() {
                    proof {
                        lemma_fault_decides(all, i as int);
                    }
                    return Err(CodecError::DuplicateFieldError);
                }
                match Base64::<SecretScalar>::decode(member.value.as_str()) {
                    Ok(value) => {
                        secret = Some(value);
                    },
                    Err(e) => {
                        proof {
                            lemma_fault_decides(all, i as int);
                        }
                        return Err(e);
                    },
                }
            } else if member.name == public_key {
                if public_seen {
                    proof {
                        lemma_fault_decides(all, i as int);
                    }
                    return Err(CodecError::DuplicateFieldError);
                }
                public_seen = true;
            }
            proof {
                lemma_names_differ();
                assert(fault_at(all, i as int) is None);
            }
            i += 1;
        }
        proof {
            lemma_no_fault(all);
        }
        match secret {
            None => Err(CodecError::MissingFieldError),
            Some(s) => {
                proof {
                    lemma_secret_unique(all);
                }
                Ok(Base64(SigningKeyPair::from_secret(s.0)))
            },
        }
    }
}

/// The two member names are different names.
pub proof fn lemma_names_differ()
    ensures
        secret_name() != public_name(),
{
    reveal_strlit("secret");
    reveal_strlit("public");
    assert(secret_name()[0] != public_name()[0]);
}

/// A first fault decides what decoding comes to.
pub proof fn lemma_fault_decides(object: Seq<(Seq<char>, Seq<char>)>, i: int)
    requires
        first_fault(object, i),
    ensures
        decoded_object(object) == Err::<KeyPairView, CodecError>(fault_at(object, i)->0),
{
    let k = choose|k: int| first_fault(object, k);
    lemma_first_fault_unique(object, i, k);
}

/// Where no member is at fault, there is no first fault.
pub proof fn lemma_no_fault(object: Seq<(Seq<char>, Seq<char>)>)
    requires
        forall|j: int| 0 <= j < object.len() ==> (#[trigger] fault_at(object, j)) is None,
    ensures
        !exists|i: int| first_fault(object, i),
{
}

/// Where no member is at fault, all members named `secret` are one member.
pub proof fn lemma_secret_unique(object: Seq<(Seq<char>, Seq<char>)>)
    requires
        forall|j: int| 0 <= j < object.len() ==> (#[trigger] fault_at(object, j)) is None,
    ensures
        forall|i: int, j: int|
            0 <= i < object.len() && 0 <= j < object.len() && (#[trigger] object[i]).0
                == secret_name() && (#[trigger] object[j]).0 == secret_name() ==> i == j,
{
    assert forall|i: int, j: int|
        0 <= i < object.len() && 0 <= j < object.len() && (#[trigger] object[i]).0 == secret_name()
            && (#[trigger] object[j]).0 == secret_name() implies i == j by {
        if i < j {
            assert(named_before(object, j, secret_name()));
            assert(fault_at(object, j) is Some);
        } else if j < i {
            assert(named_before(object, i, secret_name()));
            assert(fault_at(object, i) is Some);
        }
    }
}

/// The object of a valid pair decodes, and to that pair.
pub proof fn law_pair_round_trip(x: SigningKeyPair, y: SigningKeyPair)
    requires
        x@.wf(),
    ensures
        decoded_object(encoded_object(x@)) == Ok::<KeyPairView, CodecError>(x@),
        y@ == x@ ==> y == x,
{
    let object = encoded_object(x@);
    lemma_names_differ();
    lemma_decode_encode(x@.secret);
    assert(fault_at(object, 0) is None);
    assert(fault_at(object, 1) is None) by {
        if named_before(object, 1, public_name()) {
            let j = choose|j: int| 0 <= j < 1 && (#[trigger] object[j]).0 == public_name();
            assert(j == 0);
        }
    }
    lemma_no_fault(object);
    assert(object[0].0 == secret_name());
    assert(named_before(object, object.len() as int, secret_name()));
    lemma_secret_unique(object);
    if y@ == x@ {
        SigningKeyPair::lemma_same_view(&y, &x);
    }
}

/// An object that holds only the `secret` of a valid pair decodes to the
/// same pair as the object with both members.
pub proof fn law_public_optional(pair: SigningKeyPair)
    requires
        pair@.wf(),
    ensures
        decoded_object(seq![(secret_name(), encode_spec(pair@.secret))]) == decoded_object(
            encoded_object(pair@),
        ),
        decoded_object(encoded_object(pair@)) == Ok::<KeyPairView, CodecError>(pair@),
{
    law_pair_round_trip(pair, pair);
    let object = seq![(secret_name(), encode_spec(pair@.secret))];
    lemma_decode_encode(pair@.secret);
    assert(fault_at(object, 0) is None);
    lemma_no_fault(object);
    assert(object[0].0 == secret_name());
    assert(named_before(object, object.len() as int, secret_name()));
    lemma_secret_unique(object);
}

/// With a `secret` that decodes and, after it, a `public` of any text
/// whatever, the pair is the one that belongs to the secret: the supplied
/// public half has no part in it, be it another valid key or no key at all.
pub proof fn law_public_not_trusted(secret: Seq<char>, public: Seq<char>)
    requires
        decoded::<SecretScalar>(secret) is Ok,
    ensures
        decoded_object(seq![(secret_name(), secret), (public_name(), public)]) == Ok::<
            KeyPairView,
            CodecError,
        >(pair_of(decoded::<SecretScalar>(secret)->Ok_0)),
        decoded_object(seq![(secret_name(), secret), (public_name(), public)])->Ok_0.public
            == derived_public(decoded::<SecretScalar>(secret)->Ok_0),
{
    let object = seq![(secret_name(), secret), (public_name(), public)];
    lemma_names_differ();
    assert(fault_at(object, 0) is None);
    assert(fault_at(object, 1) is None) by {
        if named_before(object, 1, public_name()) {
            let j = choose|j: int| 0 <= j < 1 && (#[trigger] object[j]).0 == public_name();
            assert(j == 0);
        }
    }
    lemma_no_fault(object);
    assert(object[0].0 == secret_name());
    assert(named_before(object, object.len() as int, secret_name()));
    lemma_secret_unique(object);
}

/// Whatever else a key-pair object holds, where it decodes the pair is the
/// one that belongs to its `secret` member: no other member has a part in
/// it.
pub proof fn law_pair_of_its_secret(object: Seq<(Seq<char>, Seq<char>)>, i: int)
    requires
        0 <= i < object.len(),
        object[i].0 == secret_name(),
        decoded_object(object) is Ok,
    ensures
        decoded::<SecretScalar>(object[i].1) is Ok,
        decoded_object(object) == Ok::<KeyPairView, CodecError>(
            pair_of(decoded::<SecretScalar>(object[i].1)->Ok_0),
        ),
{
    assert forall|j: int| 0 <= j < object.len() implies (#[trigger] fault_at(object, j))
        is None by {
        if fault_at(object, j) is Some {
            lemma_some_fault_first(object, j);
        }
    }
    lemma_secret_unique(object);
    assert(named_before(object, object.len() as int, secret_name()));
    assert(fault_at(object, i) is None);
}

/// A `secret` whose text stands for any other count of bytes than 32 is
/// rejected with `LengthError`, wherever in the object it stands, provided
/// that it is the first `secret` and no member before it is at fault.
pub proof fn law_pair_length_enforced(object: Seq<(Seq<char>, Seq<char>)>, i: int, bytes: Seq<u8>)
    requires
        0 <= i < object.len(),
        object[i] == (secret_name(), encode_spec(bytes)),
        bytes.len() != 32,
        !named_before(object, i, secret_name()),
        forall|j: int| 0 <= j < i ==> (#[trigger] fault_at(object, j)) is None,
    ensures
        decoded_object(object) == Err::<KeyPairView, CodecError>(CodecError::LengthError),
{
    lemma_decode_encode(bytes);
    assert(fault_at(object, i) == Some(CodecError::LengthError));
    assert(first_fault(object, i));
    lemma_fault_decides(object, i);
}

/// Some name stands at two places of the object.
pub open spec fn repeated(object: Seq<(Seq<char>, Seq<char>)>, name: Seq<char>) -> bool {
    exists|j: int| 0 <= j < object.len() && (#[trigger] object[j]).0 == name && named_before(
        object,
        j,
        name,
    )
}

/// An object without a `secret` member never decodes. The failure is
/// `MissingFieldError`, whatever the other members hold, unless `public`
/// stands there twice: a repeated name is found first.
pub proof fn law_missing_secret(object: Seq<(Seq<char>, Seq<char>)>)
    requires
        !named_before(object, object.len() as int, secret_name()),
    ensures
        decoded_object(object) == Err::<KeyPairView, CodecError>(
            if repeated(object, public_name()) {
                CodecError::DuplicateFieldError
            } else {
                CodecError::MissingFieldError
            },
        ),
{
    assert forall|k: int| 0 <= k < object.len() implies (#[trigger] object[k]).0
        != secret_name() by {
        if object[k].0 == secret_name() {
            assert(named_before(object, object.len() as int, secret_name()));
        }
    }
    if repeated(object, public_name()) {
        let j = choose|j: int|
            0 <= j < object.len() && (#[trigger] object[j]).0 == public_name() && named_before(
                object,
                j,
                public_name(),
            );
        lemma_names_differ();
        assert(fault_at(object, j) is Some);
        lemma_some_fault_first(object, j);
        let k = choose|k: int| first_fault(object, k);
        assert(object[k].0 != secret_name());
        assert(fault_at(object, k) == Some(CodecError::DuplicateFieldError));
    } else {
        assert forall|k: int| 0 <= k < object.len() implies (#[trigger] fault_at(object, k))
            is None by {
            assert(object[k].0 != secret_name());
            if fault_at(object, k) is Some {
                assert(object[k].0 == public_name() && named_before(object, k, public_name()));
                assert(repeated(object, public_name()));
            }
        }
        lemma_no_fault(object);
    }
}

/// An object with two `secret` members never decodes. Where the first of
/// them decodes, the failure is `DuplicateFieldError`, whatever the other
/// members hold; where it does not, its own failure may come first.
pub proof fn law_duplicate_secret(object: Seq<(Seq<char>, Seq<char>)>, i: int, j: int)
    requires
        0 <= i < j < object.len(),
        object[i].0 == secret_name(),
        object[j].0 == secret_name(),
        !named_before(object, i, secret_name()),
    ensures
        decoded_object(object) is Err,
        decoded::<SecretScalar>(object[i].1) is Ok ==> decoded_object(object) == Err::<
            KeyPairView,
            CodecError,
        >(CodecError::DuplicateFieldError),
{
    assert(named_before(object, j, secret_name()));
    assert(fault_at(object, j) == Some(CodecError::DuplicateFieldError));
    lemma_some_fault_first(object, j);
    let k = choose|k: int| first_fault(object, k);
    if decoded::<SecretScalar>(object[i].1) is Ok {
        lemma_names_differ();
        if object[k].0 == secret_name() && !named_before(object, k, secret_name()) {
            if k < i {
                assert(named_before(object, i, secret_name()));
            } else if i < k {
                assert(named_before(object, k, secret_name()));
            }
            assert(k == i);
        }
        assert(fault_at(object, k) == Some(CodecError::DuplicateFieldError));
    }
}

/// Where some member is at fault, some member is the first at fault.
pub proof fn lemma_some_fault_first(object: Seq<(Seq<char>, Seq<char>)>, i: int)
    requires
        0 <= i < object.len(),
        fault_at(object, i) is Some,
    ensures
        exists|k: int| first_fault(object, k),
    decreases i,
{
    if exists|j: int| 0 <= j < i && (#[trigger] fault_at(object, j)) is Some {
        let j = choose|j: int| 0 <= j < i && (#[trigger] fault_at(object, j)) is Some;
        lemma_some_fault_first(object, j);
    } else {
        assert(first_fault(object, i));
    }
}

} // verus!
