use wireskip_common::api::{
    Accesskey, AccesskeyRequest, AccesskeyWire, Contract, ContractWire, Pof, PofWire, Status,
    Withdrawal, WithdrawalRequest, WithdrawalState, WithdrawalStateData, WithdrawalWire,
};
use wireskip_common::b64e::Base64;
use wireskip_common::endpoint::Endpoint;
use wireskip_common::error::CodecError;
use wireskip_common::material::SignatureBytes;
use wireskip_common::version::Version;

const KEY_TEXT: &str = "11qYAYKxCrfVS_7TyWQHOg7hcvPapiMlrwIaaPcHURo";
const SIG_TEXT: &str =
    "5VZDAMNgrHKQhuLMgG6CioSHfx645dl02HPgZSJJAVVfuIIVkKM7rMYeOXAc-bRr0lv18FlbviRlUUFDjnoQCw";

fn pof_wire(nonce: &str, expiration: i64, fill: u8) -> PofWire {
    PofWire {
        pof_type: "basic".to_string(),
        nonce: nonce.to_string(),
        expiration,
        signature: Base64(SignatureBytes([fill; 64])).encode(),
    }
}

fn contract_wire() -> ContractWire {
    ContractWire {
        endpoint: "https://contract.example.net/v1/".to_string(),
        public_key: KEY_TEXT.to_string(),
    }
}

fn key_wire(pofs: Vec<PofWire>) -> AccesskeyWire {
    AccesskeyWire { version: "0.1.0".to_string(), contract: contract_wire(), pofs }
}

#[test]
fn endpoint_parses_an_absolute_url() {
    let e = Endpoint::parse("https://example.net/").unwrap();
    assert_eq!(e.as_str(), "https://example.net/");
}

#[test]
fn endpoint_is_kept_in_normal_form() {
    let e = Endpoint::parse("HTTP://Example.NET:80/a/../b").unwrap();
    assert_eq!(e.as_str(), "http://example.net/b");
    let again = Endpoint::parse(e.as_str()).unwrap();
    assert_eq!(again, e);
    assert_eq!(again.clone(), e);
}

#[test]
fn endpoint_agrees_with_the_url_crate() {
    for input in [
        "https://example.net",
        "http://127.0.0.1:8080/path?x=1#frag",
        "ftp://user:pw@host.example/dir/",
        "mailto:someone@example.net",
        "https://exa mple.net/",
        "//example.net/",
        "/just/a/path",
        "",
        "not a url",
    ] {
        match (url::Url::parse(input), Endpoint::parse(input)) {
            (Ok(theirs), Ok(ours)) => assert_eq!(ours.as_str(), theirs.as_str()),
            (Err(_), Err(e)) => assert_eq!(e, CodecError::UrlError),
            (theirs, ours) => panic!("{:?}: {:?} against {:?}", input, theirs, ours),
        }
    }
}

#[test]
fn endpoint_rejects_a_relative_reference() {
    assert_eq!(Endpoint::parse("/v1/keys"), Err(CodecError::UrlError));
    assert_eq!(Endpoint::parse("example.net/v1"), Err(CodecError::UrlError));
    assert_eq!(Endpoint::parse(""), Err(CodecError::UrlError));
}

#[test]
fn version_parses_semantic_versions() {
    for text in ["0.1.0", "1.2.3", "10.20.30-alpha.1", "1.0.0+build.5", "1.0.0-rc.1+exp.sha.5114f85"] {
        let v = Version::parse(text).unwrap();
        assert_eq!(v.as_str(), text);
        assert_eq!(v.as_str(), semver::Version::parse(text).unwrap().to_string());
        assert_eq!(v.clone(), v);
    }
}

#[test]
fn version_rejects_what_is_no_semantic_version() {
    for text in ["", "1", "1.0", "1.0.01", "1.0.unknown", "1.0.0-", "1.0.0+", "v1.0.0", " 1.0.0", "1.0.0 ", "23456789999999999999.0.0"] {
        assert!(semver::Version::parse(text).is_err());
        assert_eq!(Version::parse(text), Err(CodecError::VersionError));
    }
}

#[test]
fn pof_decodes_and_encodes() {
    let wire = PofWire {
        pof_type: "basic".to_string(),
        nonce: "n0nce".to_string(),
        expiration: 1_700_000_000,
        signature: SIG_TEXT.to_string(),
    };
    let pof = Pof::decode(&wire).unwrap();
    assert_eq!(pof.pof_type, "basic");
    assert_eq!(pof.nonce, "n0nce");
    assert_eq!(pof.expiration, 1_700_000_000);
    assert_eq!(pof.signature.0 .0[0], 0xe5);
    assert_eq!(pof.signature.0 .0[63], 0x0b);
    assert_eq!(pof.encode(), wire);
}

#[test]
fn pof_keeps_a_negative_expiration() {
    let wire = pof_wire("x", -5, 1);
    let pof = Pof::decode(&wire).unwrap();
    assert_eq!(pof.expiration, -5);
    assert_eq!(pof.encode().expiration, -5);
    let wire = pof_wire("x", i64::MIN, 1);
    assert_eq!(Pof::decode(&wire).unwrap().expiration, i64::MIN);
}

#[test]
fn pof_with_a_bad_signature_fails() {
    let mut wire = pof_wire("x", 1, 1);
    wire.signature = "@".to_string();
    assert_eq!(Pof::decode(&wire), Err(CodecError::DecodeError));
    wire.signature = KEY_TEXT.to_string();
    assert_eq!(Pof::decode(&wire), Err(CodecError::LengthError));
    wire.signature = String::new();
    assert_eq!(Pof::decode(&wire), Err(CodecError::LengthError));
}

#[test]
fn contract_decodes_and_encodes() {
    let contract = Contract::decode(&contract_wire()).unwrap();
    assert_eq!(contract.endpoint.as_str(), "https://contract.example.net/v1/");
    assert_eq!(contract.public_key.encode(), KEY_TEXT);
    assert_eq!(contract.encode(), contract_wire());
}

#[test]
fn contract_writes_the_endpoint_in_normal_form() {
    let mut wire = contract_wire();
    wire.endpoint = "HTTPS://Contract.Example.net".to_string();
    let contract = Contract::decode(&wire).unwrap();
    assert_eq!(contract.encode().endpoint, "https://contract.example.net/");
    assert_eq!(Contract::decode(&contract.encode()), Ok(contract));
}

#[test]
fn contract_reads_the_endpoint_before_the_key() {
    let wire = ContractWire { endpoint: "nowhere".to_string(), public_key: "!".to_string() };
    assert_eq!(Contract::decode(&wire), Err(CodecError::UrlError));
}

#[test]
fn contract_with_a_bad_key_fails() {
    let mut wire = contract_wire();
    wire.public_key = "=".to_string();
    assert_eq!(Contract::decode(&wire), Err(CodecError::DecodeError));
    wire.public_key = SIG_TEXT.to_string();
    assert_eq!(Contract::decode(&wire), Err(CodecError::LengthError));
    wire.public_key = "AgARAAAAAAAAAAAAAAAAAAAAAAAAAAAAAAAAAAAAAAA".to_string();
    let expected = if ed25519_dalek::VerifyingKey::from_bytes(&{
        let mut raw = [0u8; 32];
        raw[0] = 2;
        raw[2] = 0x11;
        raw
    })
    .is_ok()
    {
        None
    } else {
        Some(CodecError::FormatError)
    };
    assert_eq!(Contract::decode(&wire).err(), expected);
}

#[test]
fn accesskey_without_pofs_round_trips() {
    let wire = key_wire(vec![]);
    let key = Accesskey::decode(&wire).unwrap();
    assert!(key.pofs.is_empty());
    assert_eq!(key.version.as_str(), "0.1.0");
    assert_eq!(key.encode(), wire);
    assert_eq!(Accesskey::decode(&key.encode()), Ok(key));
}

#[test]
fn accesskey_keeps_the_order_of_its_pofs() {
    let wire = key_wire(vec![
        pof_wire("third", 30, 3),
        pof_wire("first", 10, 1),
        pof_wire("second", 20, 2),
        pof_wire("first", 10, 1),
    ]);
    let key = Accesskey::decode(&wire).unwrap();
    let nonces: Vec<&str> = key.pofs.iter().map(|p| p.nonce.as_str()).collect();
    assert_eq!(nonces, vec!["third", "first", "second", "first"]);
    assert_eq!(key.pofs[0].signature, Base64(SignatureBytes([3u8; 64])));
    assert_eq!(key.pofs[2].expiration, 20);
    let written = key.encode();
    assert_eq!(written, wire);
    let again = Accesskey::decode(&written).unwrap();
    assert_eq!(again, key);
    assert_eq!(again.pofs, key.pofs);
}

#[test]
fn accesskey_with_a_bad_version_fails_first() {
    let mut wire = key_wire(vec![pof_wire("a", 1, 1)]);
    wire.version = "1.0".to_string();
    wire.contract.endpoint = "nowhere".to_string();
    assert_eq!(Accesskey::decode(&wire), Err(CodecError::VersionError));
}

#[test]
fn accesskey_with_a_bad_contract_fails() {
    let mut wire = key_wire(vec![]);
    wire.contract.endpoint = "nowhere".to_string();
    assert_eq!(Accesskey::decode(&wire), Err(CodecError::UrlError));
    let mut wire = key_wire(vec![pof_wire("a", 1, 1)]);
    wire.contract.public_key = "AAAA".to_string();
    wire.pofs[0].signature = "!".to_string();
    assert_eq!(Accesskey::decode(&wire), Err(CodecError::LengthError));
}

#[test]
fn first_pof_that_fails_decides() {
    let mut wire = key_wire(vec![pof_wire("a", 1, 1), pof_wire("b", 2, 2), pof_wire("c", 3, 3)]);
    wire.pofs[1].signature = "AAAA".to_string();
    wire.pofs[2].signature = "!".to_string();
    assert_eq!(Accesskey::decode(&wire), Err(CodecError::LengthError));
    wire.pofs[0].signature = "!".to_string();
    assert_eq!(Accesskey::decode(&wire), Err(CodecError::DecodeError));
}

#[test]
fn accesskey_request_is_plain_data() {
    let r = AccesskeyRequest { pof_type: "basic".to_string(), quantity: 3, duration: -1 };
    assert_eq!(r.clone(), r);
    assert_eq!(r.quantity, 3);
    assert_eq!(r.duration, -1);
}

#[test]
fn status_is_plain_data() {
    let s = Status { code: 404, desc: "not found".to_string() };
    assert_eq!(s.clone(), s);
    assert_eq!(s.code, 404);
}

#[test]
fn state_reads_complete() {
    assert_eq!(WithdrawalState::from_str("Complete"), Ok(WithdrawalState::Complete));
    assert_eq!(WithdrawalState::from_str("Pending"), Ok(WithdrawalState::Pending));
}

#[test]
fn state_rejects_every_other_text() {
    for text in ["", "complete", "PENDING", "pending", "Complete ", " Pending", "Done", "Pending\0", "PendingComplete", "Complet"] {
        assert_eq!(WithdrawalState::from_str(text), Err(CodecError::UnknownVariantError));
    }
}

#[test]
fn state_writes_its_name() {
    assert_eq!(WithdrawalState::Pending.to_string(), "Pending");
    assert_eq!(WithdrawalState::Complete.to_string(), "Complete");
    assert_eq!(WithdrawalState::Pending.as_str(), "Pending");
    assert_eq!(WithdrawalState::Complete.as_str(), "Complete");
    for state in [WithdrawalState::Pending, WithdrawalState::Complete] {
        assert_eq!(WithdrawalState::from_str(&state.to_string()), Ok(state));
    }
}

#[test]
fn completing_a_pending_withdrawal_updates_the_time() {
    let mut data = WithdrawalStateData { state: WithdrawalState::Pending, state_changed: 100 };
    assert!(data.complete(250));
    assert_eq!(data, WithdrawalStateData { state: WithdrawalState::Complete, state_changed: 250 });
}

#[test]
fn complete_is_terminal() {
    let mut data = WithdrawalStateData { state: WithdrawalState::Complete, state_changed: 100 };
    assert!(!data.complete(250));
    assert_eq!(data, WithdrawalStateData { state: WithdrawalState::Complete, state_changed: 100 });
    assert!(!data.complete(i64::MAX));
    assert_eq!(data.state_changed, 100);
}

fn withdrawal_wire(state: &str) -> WithdrawalWire {
    WithdrawalWire {
        id: "w-17".to_string(),
        state: state.to_string(),
        state_changed: 1_700_000_123,
        withdrawal_request: WithdrawalRequest {
            amount: 5000,
            w_type: "lightning".to_string(),
            destination: "lnbc1...".to_string(),
        },
        receipt: "".to_string(),
    }
}

#[test]
fn withdrawal_decodes_and_encodes() {
    for (name, state) in [("Pending", WithdrawalState::Pending), ("Complete", WithdrawalState::Complete)] {
        let wire = withdrawal_wire(name);
        let w = Withdrawal::decode(&wire).unwrap();
        assert_eq!(w.id, "w-17");
        assert_eq!(w.state_data, WithdrawalStateData { state, state_changed: 1_700_000_123 });
        assert_eq!(w.withdrawal_request, wire.withdrawal_request);
        assert_eq!(w.withdrawal_request.clone(), wire.withdrawal_request);
        assert_eq!(w.receipt, "");
        assert_eq!(w.encode(), wire);
        assert_eq!(Withdrawal::decode(&w.encode()), Ok(w));
    }
}

#[test]
fn withdrawal_with_an_unknown_state_fails() {
    assert_eq!(Withdrawal::decode(&withdrawal_wire("Cancelled")), Err(CodecError::UnknownVariantError));
    assert_eq!(Withdrawal::decode(&withdrawal_wire("pending")), Err(CodecError::UnknownVariantError));
}

#[test]
fn every_failure_has_its_own_message() {
    let all = [
        CodecError::DecodeError,
        CodecError::LengthError,
        CodecError::FormatError,
        CodecError::MissingFieldError,
        CodecError::DuplicateFieldError,
        CodecError::UnknownVariantError,
        CodecError::UrlError,
        CodecError::VersionError,
    ];
    for (i, a) in all.iter().enumerate() {
        assert!(!a.message().is_empty());
        assert_eq!(a.to_string(), a.message());
        for b in &all[i + 1..] {
            assert_ne!(a, b);
            assert_ne!(a.message(), b.message());
        }
    }
    assert_eq!(CodecError::MissingFieldError.message(), "missing field `secret`");
    assert_eq!(CodecError::LengthError.to_string(), "decoded bytes have the wrong length");
}
