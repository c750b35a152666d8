//! The signed access-record model: the records that the services exchange,
//! each beside the text form it travels in. A record is decoded as a whole or
//! not at all: every cryptographic member passes through the envelope codec,
//! the endpoint and the version through their parsers. Nothing here verifies
//! a signature or compares an expiration with the clock.
use vstd::prelude::*;
use vstd::string::StringExecFns;
use crate::b64e::{decoded, Base64};
use crate::base64url::{encode_spec, lemma_decode_encode};
use crate::endpoint::{parsed_endpoint, url_normal_form, Endpoint};
use crate::error::CodecError;
use crate::material::{curve_point, Material, SignatureBytes, VerifyingKey};
use crate::version::{parsed_version, semver_text, Version};

verus! {

// ACCESSKEY

/// A request for an access key. On the wire `pof_type` is the member `type`.
#[derive(Clone, Debug, PartialEq, Eq)]
pub struct AccesskeyRequest {
    /// The kind of proof asked for (wire name `type`).
    pub pof_type: String,
    /// How many proofs.
    pub quantity: u64,
    /// For how many seconds each is to hold.
    pub duration: i64,
}

/// A proof of funding as plain values.
pub struct PofView {
    /// The kind of proof.
    pub pof_type: Seq<char>,
    /// The nonce.
    pub nonce: Seq<char>,
    /// Unix time in seconds after which the proof no longer holds.
    pub expiration: i64,
    /// The bytes of the signature.
    pub signature: Seq<u8>,
}

/// The text form of a proof of funding as plain values.
pub struct WirePofView {
    /// The kind of proof.
    pub pof_type: Seq<char>,
    /// The nonce.
    pub nonce: Seq<char>,
    /// Unix time in seconds after which the proof no longer holds.
    pub expiration: i64,
    /// The text of the signature.
    pub signature: Seq<char>,
}

/// The text form of a proof of funding. On the wire `pof_type` is the member
/// `type`.
#[derive(Clone, Debug, PartialEq, Eq)]
pub struct PofWire {
    /// The kind of proof (wire name `type`).
    pub pof_type: String,
    /// The nonce.
    pub nonce: String,
    /// Unix time in seconds after which the proof no longer holds.
    pub expiration: i64,
    /// The signature in its envelope.
    pub signature: String,
}

impl View for PofWire {
    type V = WirePofView;

    open spec fn view(&self) -> WirePofView {
        WirePofView {
            pof_type: self.pof_type@,
            nonce: self.nonce@,
            expiration: self.expiration,
            signature: self.signature@,
        }
    }
}

/// A proof of funding: a typed, time-bounded, signed claim.
#[derive(Clone, Debug, PartialEq, Eq)]
pub struct Pof {
    /// The kind of proof (wire name `type`).
    pub pof_type: String,
    /// The nonce.
    pub nonce: String,
    /// Unix time in seconds after which consumers treat the proof as invalid.
    pub expiration: i64,
    /// The detached signature.
    pub signature: Base64<SignatureBytes>,
}

impl View for Pof {
    type V = PofView;

    open spec fn view(&self) -> PofView {
        PofView {
            pof_type: self.pof_type@,
            nonce: self.nonce@,
            expiration: self.expiration,
            signature: self.signature.0.bytes(),
        }
    }
}

/// What decoding the text form of a proof comes to.
pub open spec fn decoded_pof(wire: WirePofView) -> Result<PofView, CodecError> {
    match decoded::<SignatureBytes>(wire.signature) {
        Ok(signature) => Ok(
            PofView {
                pof_type: wire.pof_type,
                nonce: wire.nonce,
                expiration: wire.expiration,
                signature,
            },
        ),
        Err(e) => Err(e),
    }
}

/// The text form of a proof.
pub open spec fn encoded_pof(pof: PofView) -> WirePofView {
    WirePofView {
        pof_type: pof.pof_type,
        nonce: pof.nonce,
        expiration: pof.expiration,
        signature: encode_spec(pof.signature),
    }
}

impl Pof {
    /// Decodes a proof: its signature has to decode to 64 bytes.
    pub fn decode(wire: &PofWire) -> (r: Result<Pof, CodecError>)
        ensures
            match r {
                Ok(pof) => decoded_pof(wire@) == Ok::<PofView, CodecError>(pof@),
                Err(e) => decoded_pof(wire@) == Err::<PofView, CodecError>(e),
            },
    {
        match Base64::<SignatureBytes>::decode(wire.signature.as_str()) {
            Ok(signature) => Ok(
                Pof {
                    pof_type: wire.pof_type.clone(),
                    nonce: wire.nonce.clone(),
                    expiration: wire.expiration,
                    signature,
                },
            ),
            Err(e) => Err(e),
        }
    }

    /// The text form of the proof.
    pub fn encode(&self) -> (wire: PofWire)
        ensures
            wire@ == encoded_pof(self@),
            self@.signature.len() == 64,
    {
        PofWire {
            pof_type: self.pof_type.clone(),
            nonce: self.nonce.clone(),
            expiration: self.expiration,
            signature: self.signature.encode(),
        }
    }
}

/// A contract as plain values.
pub struct ContractView {
    /// The endpoint in normal form.
    pub endpoint: Seq<char>,
    /// The bytes of the verification key.
    pub public_key: Seq<u8>,
}

/// The text form of a contract as plain values.
pub struct WireContractView {
    /// The endpoint as written.
    pub endpoint: Seq<char>,
    /// The text of the verification key.
    pub public_key: Seq<char>,
}

/// The text form of a contract.
#[derive(Clone, Debug, PartialEq, Eq)]
pub struct ContractWire {
    /// The endpoint, an absolute URL.
    pub endpoint: String,
    /// The verification key in its envelope.
    pub public_key: String,
}

impl View for ContractWire {
    type V = WireContractView;

    open spec fn view(&self) -> WireContractView {
        WireContractView { endpoint: self.endpoint@, public_key: self.public_key@ }
    }
}

/// The descriptor of the issuing authority.
#[derive(Clone, Debug, PartialEq, Eq)]
pub struct Contract {
    /// Where the authority is reached.
    pub endpoint: Endpoint,
    /// The key that its signatures verify under.
    pub public_key: Base64<VerifyingKey>,
}

impl View for Contract {
    type V = ContractView;

    open spec fn view(&self) -> ContractView {
        ContractView { endpoint: self.endpoint@, public_key: self.public_key.0.bytes() }
    }
}

/// What decoding the text form of a contract comes to: the endpoint is read
/// first, then the key.
pub open spec fn decoded_contract(wire: WireContractView) -> Result<ContractView, CodecError> {
    match parsed_endpoint(wire.endpoint) {
        Err(e) => Err(e),
        Ok(endpoint) => match decoded::<VerifyingKey>(wire.public_key) {
            Err(e) => Err(e),
            Ok(public_key) => Ok(ContractView { endpoint, public_key }),
        },
    }
}

/// The text form of a contract.
pub open spec fn encoded_contract(contract: ContractView) -> WireContractView {
    WireContractView {
        endpoint: contract.endpoint,
        public_key: encode_spec(contract.public_key),
    }
}

impl ContractView {
    /// The endpoint reads as itself and the key is a point of the curve.
    pub open spec fn wf(self) -> bool {
        &&& url_normal_form(self.endpoint) == Some(self.endpoint)
        &&& self.public_key.len() == 32
        &&& curve_point(self.public_key)
    }
}

impl Contract {
    /// Both members are valid.
    pub open spec fn wf(&self) -> bool {
        self@.wf()
    }

    /// Decodes a contract: the endpoint has to be an absolute URL, the key a
    /// point of the curve.
    pub fn decode(wire: &ContractWire) -> (r: Result<Contract, CodecError>)
        ensures
            match r {
                Ok(contract) => decoded_contract(wire@) == Ok::<ContractView, CodecError>(
                    contract@,
                ) && contract.wf(),
                Err(e) => decoded_contract(wire@) == Err::<ContractView, CodecError>(e),
            },
    {
        let endpoint = match Endpoint::parse(wire.endpoint.as_str()) {
            Ok(endpoint) => endpoint,
            Err(e) => {
                return Err(e);
            },
        };
        match Base64::<VerifyingKey>::decode(wire.public_key.as_str()) {
            Ok(public_key) => Ok(Contract { endpoint, public_key }),
            Err(e) => Err(e),
        }
    }

    /// The text form of the contract.
    pub fn encode(&self) -> (wire: ContractWire)
        ensures
            wire@ == encoded_contract(self@),
            self.wf(),
    {
        ContractWire {
            endpoint: self.endpoint.as_str().to_owned(),
            public_key: self.public_key.encode(),
        }
    }
}

/// An access key as plain values.
pub struct AccesskeyView {
    /// The version in its written form.
    pub version: Seq<char>,
    /// The contract.
    pub contract: ContractView,
    /// The proofs, in issuing order.
    pub pofs: Seq<PofView>,
}

/// The text form of an access key as plain values.
pub struct WireAccesskeyView {
    /// The version as written.
    pub version: Seq<char>,
    /// The contract.
    pub contract: WireContractView,
    /// The proofs, in issuing order.
    pub pofs: Seq<WirePofView>,
}

/// The text form of an access key.
#[derive(Clone, Debug, PartialEq, Eq)]
pub struct AccesskeyWire {
    /// The version, in semantic-versioning syntax.
    pub version: String,
    /// The contract.
    pub contract: ContractWire,
    /// The proofs, in issuing order.
    pub pofs: Vec<PofWire>,
}

/// The proofs of a text form as plain values, in order.
pub open spec fn pof_wire_views(pofs: Seq<PofWire>) -> Seq<WirePofView> {
    Seq::new(pofs.len(), |i: int| pofs[i]@)
}

/// The proofs of a record as plain values, in order.
pub open spec fn pof_views(pofs: Seq<Pof>) -> Seq<PofView> {
    Seq::new(pofs.len(), |i: int| pofs[i]@)
}

impl View for AccesskeyWire {
    type V = WireAccesskeyView;

    open spec fn view(&self) -> WireAccesskeyView {
        WireAccesskeyView {
            version: self.version@,
            contract: self.contract@,
            pofs: pof_wire_views(self.pofs@),
        }
    }
}

/// An access key: a versioned bundle of a contract and an ordered list of
/// proofs of funding. The list may be empty; its order is the issuing order
/// and is kept.
#[derive(Clone, Debug, PartialEq, Eq)]
pub struct Accesskey {
    /// The version of the record.
    pub version: Version,
    /// The issuing authority.
    pub contract: Contract,
    /// The proofs, in issuing order.
    pub pofs: Vec<Pof>,
}

impl View for Accesskey {
    type V = AccesskeyView;

    open spec fn view(&self) -> AccesskeyView {
        AccesskeyView {
            version: self.version@,
            contract: self.contract@,
            pofs: pof_views(self.pofs@),
        }
    }
}

/// Proof `i` does not decode, and every proof before it does.
pub open spec fn first_bad_pof(pofs: Seq<WirePofView>, i: int) -> bool {
    &&& 0 <= i < pofs.len()
    &&& decoded_pof(pofs[i]) is Err
    &&& forall|j: int| 0 <= j < i ==> (#[trigger] decoded_pof(pofs[j])) is Ok
}

/// What decoding a list of proofs comes to: each proof in its place, or the
/// failure of the first that does not decode.
pub open spec fn decoded_pofs(pofs: Seq<WirePofView>) -> Result<Seq<PofView>, CodecError> {
    if exists|i: int| first_bad_pof(pofs, i) {
        let i = choose|i: int| first_bad_pof(pofs, i);
        Err(decoded_pof(pofs[i])->Err_0)
    } else {
        Ok(Seq::new(pofs.len(), |i: int| decoded_pof(pofs[i])->Ok_0))
    }
}

/// The text forms of a list of proofs, each in its place.
pub open spec fn encoded_pofs(pofs: Seq<PofView>) -> Seq<WirePofView> {
    Seq::new(pofs.len(), |i: int| encoded_pof(pofs[i]))
}

/// What decoding the text form of an access key comes to. The version is
/// read first, then the contract, then the proofs in order; the first
/// failure is the record's.
pub open spec fn decoded_accesskey(wire: WireAccesskeyView) -> Result<AccesskeyView, CodecError> {
    match parsed_version(wire.version) {
        Err(e) => Err(e),
        Ok(version) => match decoded_contract(wire.contract) {
            Err(e) => Err(e),
            Ok(contract) => match decoded_pofs(wire.pofs) {
                Err(e) => Err(e),
                Ok(pofs) => Ok(AccesskeyView { version, contract, pofs }),
            },
        },
    }
}

/// The text form of an access key.
pub open spec fn encoded_accesskey(key: AccesskeyView) -> WireAccesskeyView {
    WireAccesskeyView {
        version: key.version,
        contract: encoded_contract(key.contract),
        pofs: encoded_pofs(key.pofs),
    }
}

impl AccesskeyView {
    /// The version reads as itself, the contract is valid and every
    /// signature has 64 bytes.
    pub open spec fn wf(self) -> bool {
        &&& semver_text(self.version) == Some(self.version)
        &&& self.contract.wf()
        &&& forall|i: int|
            0 <= i < self.pofs.len() ==> (#[trigger] self.pofs[i]).signature.len() == 64
    }
}

/// Only one proof can be the first that does not decode.
pub proof fn lemma_first_bad_pof_unique(pofs: Seq<WirePofView>, i: int, j: int)
    requires
        first_bad_pof(pofs, i),
        first_bad_pof(pofs, j),
    ensures
        i == j,
{
}

impl Accesskey {
    /// Every member is valid.
    pub open spec fn wf(&self) -> bool {
        self@.wf()
    }

    /// Decodes an access key, as a whole or not at all.
    pub fn decode(wire: &AccesskeyWire) -> (r: Result<Accesskey, CodecError>)
        ensures
            match r {
                Ok(key) => decoded_accesskey(wire@) == Ok::<AccesskeyView, CodecError>(key@)
                    && key.wf(),
                Err(e) => decoded_accesskey(wire@) == Err::<AccesskeyView, CodecError>(e),
            },
    {
        let version = match Version::parse(wire.version.as_str()) {
            Ok(version) => version,
            Err(e) => {
                return Err(e);
            },
        };
        let contract = match Contract::decode(&wire.contract) {
            Ok(contract) => contract,
            Err(e) => {
                return Err(e);
            },
        };
        let ghost all = pof_wire_views(wire.pofs@);
        let mut pofs: Vec<Pof> = Vec::new();
        let mut i: usize = 0;
        while i < wire.pofs.len()
            invariant
                i <= wire.pofs.len(),
                all == pof_wire_views(wire.pofs@),
                parsed_version(wire.version@) == Ok::<Seq<char>, CodecError>(version@),
                decoded_contract(wire.contract@) == Ok::<ContractView, CodecError>(contract@),
                pofs@.len() == i,
                forall|j: int|
                    0 <= j < i ==> (#[trigger] decoded_pof(all[j])) == Ok::<PofView, CodecError>(
                        pofs@[j]@,
                    ),
            decreases wire.pofs.len() - i,
        {
            assert(all[i as int] == wire.pofs@[i as int]@);
            match Pof::decode(&wire.pofs[i]) {
                Ok(pof) => {
                    pofs.push(pof);
                },
                Err(e) => {
                    proof {
                        assert(first_bad_pof(all, i as int));
                        let k = choose|k: int| first_bad_pof(all, k);
                        lemma_first_bad_pof_unique(all, i as int, k);
                    }
                    return Err(e);
                },
            }
            i += 1;
        }
        proof {
            assert(!exists|k: int| first_bad_pof(all, k));
            assert(pof_views(pofs@) =~= decoded_pofs(all)->Ok_0);
            assert forall|k: int| 0 <= k < pofs@.len() implies (#[trigger] pof_views(
                pofs@,
            )[k]).signature.len() == 64 by {
                assert(decoded_pof(all[k]) is Ok);
            }
        }
        Ok(Accesskey { version, contract, pofs })
    }

    /// The text form of the access key: the proofs in the same order.
    pub fn encode(&self) -> (wire: AccesskeyWire)
        ensures
            wire@ == encoded_accesskey(self@),
            self.wf(),
    {
        let mut pofs: Vec<PofWire> = Vec::new();
        let mut i: usize = 0;
        while i < self.pofs.len()
            invariant
                i <= self.pofs.len(),
                pofs@.len() == i,
                forall|j: int| 0 <= j < i ==> (#[trigger] pofs@[j])@ == encoded_pof(self.pofs@[j]@),
                forall|j: int| 0 <= j < i ==> (#[trigger] self.pofs@[j])@.signature.len() == 64,
            decreases self.pofs.len() - i,
        {
            pofs.push(self.pofs[i].encode());
            i += 1;
        }
        assert(pof_wire_views(pofs@) =~= encoded_pofs(pof_views(self.pofs@)));
        AccesskeyWire {
            version: self.version.as_str().to_owned(),
            contract: self.contract.encode(),
            pofs,
        }
    }
}

/// The text form of a valid access key decodes, and to the same access key.
/// The proofs come back in the order they went in, and an empty list comes
/// back empty.
pub proof fn law_accesskey_round_trip(key: AccesskeyView)
    requires
        key.wf(),
    ensures
        decoded_accesskey(encoded_accesskey(key)) == Ok::<AccesskeyView, CodecError>(key),
        encoded_accesskey(key).pofs.len() == key.pofs.len(),
        forall|i: int|
            0 <= i < key.pofs.len() ==> decoded_pof(#[trigger] encoded_accesskey(key).pofs[i])
                == Ok::<PofView, CodecError>(key.pofs[i]),
{
    let wire = encoded_accesskey(key);
    lemma_decode_encode(key.contract.public_key);
    assert forall|i: int| 0 <= i < key.pofs.len() implies decoded_pof(#[trigger] wire.pofs[i])
        == Ok::<PofView, CodecError>(key.pofs[i]) by {
        lemma_decode_encode(key.pofs[i].signature);
    }
    assert(!exists|k: int| first_bad_pof(wire.pofs, k));
    assert(decoded_pofs(wire.pofs)->Ok_0 =~= key.pofs);
}

// STATUS

/// The outcome of a request, as a code with a description. On the wire
/// `desc` is the member `description`.
#[derive(Clone, Debug, PartialEq, Eq)]
pub struct Status {
    /// The code.
    pub code: u16,
    /// What the code means (wire name `description`).
    pub desc: String,
}

// WITHDRAWAL

/// A request to withdraw. On the wire `w_type` is the member `type`.
#[derive(Debug, PartialEq, Eq)]
pub struct WithdrawalRequest {
    /// The amount.
    pub amount: i64,
    /// The kind of withdrawal (wire name `type`).
    pub w_type: String,
    /// Where the amount goes.
    pub destination: String,
}

/// A withdrawal request as plain values.
pub struct WithdrawalRequestView {
    /// The amount.
    pub amount: i64,
    /// The kind of withdrawal.
    pub w_type: Seq<char>,
    /// Where the amount goes.
    pub destination: Seq<char>,
}

impl View for WithdrawalRequest {
    type V = WithdrawalRequestView;

    open spec fn view(&self) -> WithdrawalRequestView {
        WithdrawalRequestView {
            amount: self.amount,
            w_type: self.w_type@,
            destination: self.destination@,
        }
    }
}

impl Clone for WithdrawalRequest {
    fn clone(&self) -> (out: Self)
        ensures
            out@ == self@,
    {
        WithdrawalRequest {
            amount: self.amount,
            w_type: self.w_type.clone(),
            destination: self.destination.clone(),
        }
    }
}

/// Where a withdrawal stands. There are two states and no others;
/// `Complete` is final.
#[derive(Clone, Copy, Debug, PartialEq, Eq, Structural)]
pub enum WithdrawalState {
    /// Asked for, not yet carried out.
    Pending,
    /// Carried out.
    Complete,
}

/// What reading a state name comes to. Names are matched letter for letter,
/// case included.
pub open spec fn decoded_state(name: Seq<char>) -> Result<WithdrawalState, CodecError> {
    if name == "Pending"@ {
        Ok(WithdrawalState::Pending)
    } else if name == "Complete"@ {
        Ok(WithdrawalState::Complete)
    } else {
        Err(CodecError::UnknownVariantError)
    }
}

impl WithdrawalState {
    /// The name that the state is written as.
    pub open spec fn name(self) -> Seq<char> {
        match self {
            WithdrawalState::Pending => "Pending"@,
            WithdrawalState::Complete => "Complete"@,
        }
    }

    /// The name that the state is written as.
    pub fn as_str(&self) -> (name: &'static str)
        ensures
            name@ == self.name(),
    {
        match self {
            WithdrawalState::Pending => "Pending",
            WithdrawalState::Complete => "Complete",
        }
    }

    /// The name that the state is written as, owned.
    pub fn to_string(&self) -> (name: String)
        ensures
            name@ == self.name(),
    {
        self.as_str().to_owned()
    }

    /// Reads a state name: `Pending` and `Complete` are the two names, and
    /// any other text fails with `UnknownVariantError`.
    pub fn from_str(name: &str) -> (r: Result<WithdrawalState, CodecError>)
        ensures
            r == decoded_state(name@),
    {
        let owned = name.to_owned();
        if owned == String::from_str("Pending") {
            Ok(WithdrawalState::Pending)
        } else if owned == String::from_str("Complete") {
            Ok(WithdrawalState::Complete)
        } else {
            Err(CodecError::UnknownVariantError)
        }
    }
}

/// Each state reads back from its own name, and a text that is neither name
/// is rejected with `UnknownVariantError`.
pub proof fn law_state_closed(state: WithdrawalState, other: Seq<char>)
    ensures
        decoded_state(state.name()) == Ok::<WithdrawalState, CodecError>(state),
        other != "Pending"@ && other != "Complete"@ ==> decoded_state(other) == Err::<
            WithdrawalState,
            CodecError,
        >(CodecError::UnknownVariantError),
{
    reveal_strlit("Pending");
    reveal_strlit("Complete");
    assert("Pending"@.len() != "Complete"@.len());
}

/// The state of a withdrawal with the time of its last change.
#[derive(Clone, Copy, Debug, PartialEq, Eq)]
pub struct WithdrawalStateData {
    /// The state.
    pub state: WithdrawalState,
    /// Unix time in seconds at which the state was entered.
    pub state_changed: i64,
}

impl WithdrawalStateData {
    /// Carries a pending withdrawal out at time `at`: the state becomes
    /// `Complete` and the time of change becomes `at`. A withdrawal that is
    /// complete stays as it is, time included. Returns whether the state
    /// changed.
    pub fn complete(&mut self, at: i64) -> (changed: bool)
        ensures
            changed == (old(self).state == WithdrawalState::Pending),
            final(self).state == WithdrawalState::Complete,
            final(self).state_changed == (if changed {
                at
            } else {
                old(self).state_changed
            }),
    {
        match self.state {
            WithdrawalState::Pending => {
                self.state = WithdrawalState::Complete;
                self.state_changed = at;
                true
            },
            WithdrawalState::Complete => false,
        }
    }
}

/// A withdrawal as plain values.
pub struct WithdrawalView {
    /// The identifier.
    pub id: Seq<char>,
    /// The state.
    pub state: WithdrawalState,
    /// Unix time in seconds at which the state was entered.
    pub state_changed: i64,
    /// The request.
    pub withdrawal_request: WithdrawalRequestView,
    /// The receipt.
    pub receipt: Seq<char>,
}

/// The text form of a withdrawal as plain values.
pub struct WireWithdrawalView {
    /// The identifier.
    pub id: Seq<char>,
    /// The name of the state.
    pub state: Seq<char>,
    /// Unix time in seconds at which the state was entered.
    pub state_changed: i64,
    /// The request.
    pub withdrawal_request: WithdrawalRequestView,
    /// The receipt.
    pub receipt: Seq<char>,
}

/// The text form of a withdrawal: the state and its time stand beside the
/// other members, not in an object of their own.
#[derive(Clone, Debug, PartialEq, Eq)]
pub struct WithdrawalWire {
    /// The identifier.
    pub id: String,
    /// The name of the state.
    pub state: String,
    /// Unix time in seconds at which the state was entered.
    pub state_changed: i64,
    /// The request.
    pub withdrawal_request: WithdrawalRequest,
    /// The receipt.
    pub receipt: String,
}

impl View for WithdrawalWire {
    type V = WireWithdrawalView;

    open spec fn view(&self) -> WireWithdrawalView {
        WireWithdrawalView {
            id: self.id@,
            state: self.state@,
            state_changed: self.state_changed,
            withdrawal_request: self.withdrawal_request@,
            receipt: self.receipt@,
        }
    }
}

/// A withdrawal: a request, where it stands, and its receipt.
#[derive(Clone, Debug, PartialEq, Eq)]
pub struct Withdrawal {
    /// The identifier.
    pub id: String,
    /// The state and the time of its last change.
    pub state_data: WithdrawalStateData,
    /// The request.
    pub withdrawal_request: WithdrawalRequest,
    /// The receipt.
    pub receipt: String,
}

impl View for Withdrawal {
    type V = WithdrawalView;

    open spec fn view(&self) -> WithdrawalView {
        WithdrawalView {
            id: self.id@,
            state: self.state_data.state,
            state_changed: self.state_data.state_changed,
            withdrawal_request: self.withdrawal_request@,
            receipt: self.receipt@,
        }
    }
}

/// What decoding the text form of a withdrawal comes to.
pub open spec fn decoded_withdrawal(wire: WireWithdrawalView) -> Result<
    WithdrawalView,
    CodecError,
> {
    match decoded_state(wire.state) {
        Ok(state) => Ok(
            WithdrawalView {
                id: wire.id,
                state,
                state_changed: wire.state_changed,
                withdrawal_request: wire.withdrawal_request,
                receipt: wire.receipt,
            },
        ),
        Err(e) => Err(e),
    }
}

/// The text form of a withdrawal.
pub open spec fn encoded_withdrawal(withdrawal: WithdrawalView) -> WireWithdrawalView {
    WireWithdrawalView {
        id: withdrawal.id,
        state: withdrawal.state.name(),
        state_changed: withdrawal.state_changed,
        withdrawal_request: withdrawal.withdrawal_request,
        receipt: withdrawal.receipt,
    }
}

impl Withdrawal {
    /// Decodes a withdrawal: its state has to be one of the two names.
    pub fn decode(wire: &WithdrawalWire) -> (r: Result<Withdrawal, CodecError>)
        ensures
            match r {
                Ok(withdrawal) => decoded_withdrawal(wire@) == Ok::<WithdrawalView, CodecError>(
                    withdrawal@,
                ),
                Err(e) => decoded_withdrawal(wire@) == Err::<WithdrawalView, CodecError>(e),
            },
    {
        match WithdrawalState::from_str(wire.state.as_str()) {
            Ok(state) => Ok(
                Withdrawal {
                    id: wire.id.clone(),
                    state_data: WithdrawalStateData { state, state_changed: wire.state_changed },
                    withdrawal_request: wire.withdrawal_request.clone(),
                    receipt: wire.receipt.clone(),
                },
            ),
            Err(e) => Err(e),
        }
    }

    /// The text form of the withdrawal.
    pub fn encode(&self) -> (wire: WithdrawalWire)
        ensures
            wire@ == encoded_withdrawal(self@),
    {
        WithdrawalWire {
            id: self.id.clone(),
            state: self.state_data.state.to_string(),
            state_changed: self.state_data.state_changed,
            withdrawal_request: self.withdrawal_request.clone(),
            receipt: self.receipt.clone(),
        }
    }
}

/// The text form of a withdrawal decodes, and to the same withdrawal.
pub proof fn law_withdrawal_round_trip(withdrawal: WithdrawalView)
    ensures
        decoded_withdrawal(encoded_withdrawal(withdrawal)) == Ok::<WithdrawalView, CodecError>(
            withdrawal,
        ),
{
    law_state_closed(withdrawal.state, withdrawal.state.name());
}

} // verus!
