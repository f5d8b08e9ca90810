use keypackage::ciphersuite::{CiphersuiteName, Config, SignatureScheme};
use keypackage::codec::{CodecError, Cursor};
use keypackage::credentials::{CredentialBundle, CredentialError, CredentialType};
use keypackage::extensions::Extension;
use keypackage::key_packages::{check_signature, KeyPackage, KeyPackageBundle, KeyPackageError};

fn ed25519_bundle(extensions: Vec<Extension>) -> (CredentialBundle, KeyPackageBundle) {
    let cb = CredentialBundle::new(vec![7, 7], CredentialType::Basic, SignatureScheme::ED25519)
        .unwrap();
    let kpb = KeyPackageBundle::new(
        &[CiphersuiteName::MLS10_128_DHKEMX25519_AES128GCM_SHA256_Ed25519],
        &cb,
        extensions,
    )
    .unwrap();
    (cb, kpb)
}

#[test]
fn scenario_ed25519_lifetime_and_key_id_round_trip() {
    let now = 1_700_000_000u64;
    let lifetime = Extension::lifetime_from_now(600);
    let start = match lifetime {
        Extension::Lifetime { not_before, not_after } => {
            assert_eq!(not_after, not_before + 600);
            not_before
        }
        _ => panic!("not a lifetime"),
    };
    assert!(start > now);
    let (_, kpb) = ed25519_bundle(vec![lifetime, Extension::key_id(&[1, 2, 3, 4])]);
    let enc = kpb.key_package().encode_detached().unwrap();
    let decoded = KeyPackage::decode_detached(&enc).unwrap();
    assert_eq!(decoded.key_id().unwrap(), vec![1, 2, 3, 4]);
    assert!(decoded.verify().is_ok());
    assert_eq!(&decoded, kpb.key_package());
}

#[test]
fn every_supported_suite_yields_a_verifying_package() {
    for cs in Config::supported_ciphersuites() {
        let cb = CredentialBundle::new(vec![1], CredentialType::Basic, cs.name().into()).unwrap();
        let kpb = KeyPackageBundle::new(&[cs.name()], &cb, vec![]).unwrap();
        assert!(kpb.key_package().verify().is_ok());
        assert_eq!(kpb.key_package().signature.len(), 64);
        assert_eq!(kpb.key_package().ciphersuite_name, cs.name());
    }
}

#[test]
fn lifetime_bounds_decide_verification() {
    let (_, kpb) = ed25519_bundle(vec![Extension::lifetime(100, 200)]);
    let kp = kpb.key_package();
    assert!(kp.signature_verifies());
    assert_eq!(kp.verify_at(201, true), Err(KeyPackageError::ExtensionValidationFailed));
    assert_eq!(kp.verify_at(99, true), Err(KeyPackageError::ExtensionValidationFailed));
    assert_eq!(kp.verify_at(100, true), Ok(()));
    assert_eq!(kp.verify_at(200, true), Ok(()));
    assert_eq!(kp.verify_at(150, false), Err(KeyPackageError::InvalidSignature));
    // A window that closed long ago fails against the clock.
    assert_eq!(kp.verify(), Err(KeyPackageError::ExtensionValidationFailed));
}

#[test]
fn duplicate_tags_are_refused_at_construction() {
    let cb = CredentialBundle::new(vec![1], CredentialType::Basic, SignatureScheme::ED25519).unwrap();
    let r = KeyPackageBundle::new(
        &[CiphersuiteName::MLS10_128_DHKEMX25519_AES128GCM_SHA256_Ed25519],
        &cb,
        vec![Extension::lifetime(0, u64::MAX), Extension::lifetime(1, 2)],
    );
    assert_eq!(r, Err(KeyPackageError::DuplicateExtension));
    let (_, mut kpb) = ed25519_bundle(vec![]);
    kpb.key_package_mut().extensions = vec![Extension::key_id(&[1]), Extension::key_id(&[2])];
    assert_eq!(kpb.key_package().verify_at(0, true), Err(KeyPackageError::DuplicateExtension));
}

#[test]
fn no_compatible_suite_is_a_mismatch() {
    let cb = CredentialBundle::new(vec![1], CredentialType::Basic, SignatureScheme::ED25519).unwrap();
    let r = KeyPackageBundle::new(
        &[
            CiphersuiteName::MLS10_128_DHKEMP256_AES128GCM_SHA256_P256,
            CiphersuiteName::MLS10_256_DHKEMP521_AES256GCM_SHA512_P521,
        ],
        &cb,
        vec![],
    );
    assert_eq!(r, Err(KeyPackageError::CiphersuiteSignatureSchemeMismatch));
    let r = KeyPackageBundle::new(&[], &cb, vec![]);
    assert_eq!(r, Err(KeyPackageError::CiphersuiteSignatureSchemeMismatch));
}

#[test]
fn first_compatible_suite_is_chosen() {
    let cb = CredentialBundle::new(vec![1], CredentialType::Basic, SignatureScheme::ED25519).unwrap();
    let kpb = KeyPackageBundle::new(
        &[
            CiphersuiteName::MLS10_128_DHKEMP256_AES128GCM_SHA256_P256,
            CiphersuiteName::MLS10_128_DHKEMX25519_CHACHA20POLY1305_SHA256_Ed25519,
            CiphersuiteName::MLS10_128_DHKEMX25519_AES128GCM_SHA256_Ed25519,
        ],
        &cb,
        vec![],
    )
    .unwrap();
    assert_eq!(
        kpb.key_package().ciphersuite_name,
        CiphersuiteName::MLS10_128_DHKEMX25519_CHACHA20POLY1305_SHA256_Ed25519
    );
    assert_eq!(kpb.private_key().len(), 32);
    assert_eq!(kpb.key_package().hpke_init_key().len(), 32);
}

/// A minimal package of the given suite, with the given trailing bytes.
fn raw_package(suite: u8, tail: &[u8]) -> Vec<u8> {
    let mut b = vec![1, 0, suite, 0, 2, 9, 9];
    b.extend_from_slice(&[0, 1, 0, 1, 65, 6, 3, 0, 1, 66]);
    b.extend_from_slice(&[0, 0]);
    b.extend_from_slice(tail);
    b
}

#[test]
fn unverified_suite_decodes_without_a_check() {
    let bytes = raw_package(5, &[]);
    let kp = KeyPackage::decode_detached(&bytes).unwrap();
    assert!(kp.signature.is_empty());
    assert_eq!(kp.ciphersuite_name, CiphersuiteName::MLS10_256_DHKEMP521_AES256GCM_SHA512_P521);
    assert_eq!(kp.ciphersuite().name(), CiphersuiteName::MLS10_128_DHKEMP256_AES128GCM_SHA256_P256);
    assert_eq!(kp.credential().identity, vec![65]);
    // Whatever follows is left unread.
    let bytes = raw_package(5, &[0, 3, 1, 2, 3]);
    let mut c = Cursor::new(&bytes);
    assert!(KeyPackage::decode(&mut c).is_ok());
    assert_eq!(c.pos, bytes.len() - 5);
    // The same bytes under a verified suite fail the signature check.
    let bytes = raw_package(1, &[0, 3, 1, 2, 3]);
    assert_eq!(KeyPackage::decode_detached(&bytes), Err(CodecError::Malformed));
}

#[test]
fn key_id_missing_then_present() {
    let (cb, mut kpb) = ed25519_bundle(vec![]);
    assert_eq!(kpb.key_package().key_id(), Err(KeyPackageError::MissingExtension));
    kpb.key_package_mut().add_extension(Extension::key_id(&[9, 8]));
    kpb.key_package_mut().add_extension(Extension::key_id(&[5]));
    assert_eq!(kpb.key_package().key_id(), Ok(vec![5]));
    assert_eq!(kpb.key_package().extensions().len(), 1);
    assert!(kpb.key_package().verify().is_err());
    assert_eq!(kpb.key_package_mut().sign(&cb), Ok(()));
    assert!(kpb.key_package().verify().is_ok());
}

#[test]
fn decode_errors() {
    assert_eq!(KeyPackage::decode_detached(&vec![]), Err(CodecError::TruncatedInput));
    assert_eq!(KeyPackage::decode_detached(&vec![2, 0, 1]), Err(CodecError::Malformed));
    assert_eq!(KeyPackage::decode_detached(&vec![1, 0, 9]), Err(CodecError::Malformed));
    assert_eq!(KeyPackage::decode_detached(&vec![1, 0, 1, 0, 5, 1]), Err(CodecError::TruncatedInput));
    // A lifetime body of the wrong size.
    let mut b = vec![1, 0, 1, 0, 0];
    b.extend_from_slice(&[0, 1, 0, 0, 8, 8, 0, 0]);
    b.extend_from_slice(&[0, 5, 0, 2, 0, 1, 7]);
    assert_eq!(KeyPackage::decode_detached(&b), Err(CodecError::Malformed));
    // Ed448 suites are known to the wire format but not implemented.
    let bytes = raw_package(4, &[0, 0]);
    assert_eq!(KeyPackage::decode_detached(&bytes), Err(CodecError::Malformed));
}

#[test]
fn unknown_extensions_are_kept_in_order() {
    let (cb, mut kpb) = ed25519_bundle(vec![]);
    kpb.key_package_mut().add_extension(Extension::Opaque { tag: 42, data: vec![1, 2] });
    kpb.key_package_mut().add_extension(Extension::Capabilities(vec![1, 1, 2, 0, 1]));
    kpb.key_package_mut().add_extension(Extension::lifetime(0, u64::MAX));
    kpb.key_package_mut().sign(&cb).unwrap();
    let enc = kpb.key_package().encode_detached().unwrap();
    let kp = KeyPackage::decode_detached(&enc).unwrap();
    assert_eq!(kp.extensions()[0], Extension::Opaque { tag: 42, data: vec![1, 2] });
    assert_eq!(kp.extensions()[1], Extension::Capabilities(vec![1, 1, 2, 0, 1]));
    assert_eq!(kp.extensions()[2].extension_type(), 2);
    assert_eq!(kp, kpb.key_package);
}

#[test]
fn encoding_layout_and_overflow() {
    let (_, kpb) = ed25519_bundle(vec![Extension::lifetime(1, 2)]);
    let kp = kpb.key_package();
    let payload = kp.unsigned_payload().unwrap();
    let full = kp.encode_detached().unwrap();
    assert_eq!(&full[..payload.len()], &payload[..]);
    assert_eq!(&full[payload.len()..payload.len() + 2], &[0, 64]);
    assert_eq!(&payload[..3], &[1, 0, 1]);
    let ext: Vec<u8> = vec![0, 20, 0, 2, 0, 16, 0, 0, 0, 0, 0, 0, 0, 1, 0, 0, 0, 0, 0, 0, 0, 2];
    assert_eq!(&payload[payload.len() - ext.len()..], &ext[..]);
    let mut big = kp.clone();
    big.hpke_init_key = vec![0; 70000];
    assert_eq!(big.encode_detached(), Err(CodecError::LengthOverflow));
    let mut out = Vec::new();
    assert_eq!(Extension::KeyId(vec![0; 65534]).encode(&mut out), Err(CodecError::LengthOverflow));
}

#[test]
fn signatures_check_against_their_payload() {
    let (cb, kpb) = ed25519_bundle(vec![]);
    let kp = kpb.key_package();
    let payload = kp.unsigned_payload().unwrap();
    let pk = &cb.credential.public_key;
    assert!(check_signature(SignatureScheme::ED25519, pk, &payload, &kp.signature));
    let mut tampered = payload.clone();
    tampered[0] ^= 1;
    assert!(!check_signature(SignatureScheme::ED25519, pk, &tampered, &kp.signature));
    assert!(!check_signature(SignatureScheme::ED448, pk, &payload, &kp.signature));
    let mut other = kp.clone();
    other.signature[0] ^= 1;
    assert_eq!(other.verify(), Err(KeyPackageError::InvalidSignature));
}

#[test]
fn sign_refuses_a_foreign_scheme() {
    let (_, mut kpb) = ed25519_bundle(vec![]);
    let p256 = CredentialBundle::new(vec![1], CredentialType::Basic, SignatureScheme::ECDSA_SECP256R1_SHA256)
        .unwrap();
    let before = kpb.key_package().signature.clone();
    assert_eq!(
        kpb.key_package_mut().sign(&p256),
        Err(KeyPackageError::CiphersuiteSignatureSchemeMismatch)
    );
    assert_eq!(kpb.key_package().signature, before);
    assert_eq!(
        CredentialBundle::new(vec![1], CredentialType::Basic, SignatureScheme::ED448),
        Err(CredentialError::UnsupportedSignatureScheme)
    );
    assert_eq!(p256.credential().public_key.len(), 65);
}

#[test]
fn decode_at_follows_the_lifetime_window() {
    let (_, kpb) = ed25519_bundle(vec![Extension::lifetime(100, 200)]);
    let enc = kpb.key_package().encode_detached().unwrap();
    let mut c = Cursor::new(&enc);
    assert_eq!(KeyPackage::decode_at(&mut c, 150).as_ref(), Ok(kpb.key_package()));
    assert_eq!(c.pos, enc.len());
    assert_eq!(KeyPackage::decode_at(&mut Cursor::new(&enc), 201), Err(CodecError::Malformed));
    assert_eq!(KeyPackage::decode_at(&mut Cursor::new(&enc), 99), Err(CodecError::Malformed));
    // The fields alone still read, for a caller that checks them itself.
    let kp = KeyPackage::decode_unverified(&mut Cursor::new(&enc)).unwrap();
    assert_eq!(kp.verify_at(201, kp.signature_verifies()), Err(KeyPackageError::ExtensionValidationFailed));
    assert_eq!(&kp, kpb.key_package());
}

#[test]
fn generated_keys_are_consistent() {
    let cb = CredentialBundle::new(vec![1], CredentialType::Basic, SignatureScheme::ECDSA_SECP256R1_SHA256)
        .unwrap();
    let kpb = KeyPackageBundle::new(&[CiphersuiteName::MLS10_128_DHKEMP256_AES128GCM_SHA256_P256], &cb, vec![])
        .unwrap();
    assert_eq!(kpb.private_key().len(), 32);
    assert_eq!(kpb.key_package().hpke_init_key().len(), 65);
    assert_eq!(kpb.key_package().hpke_init_key()[0], 4);
    assert!(kpb.key_package().signature_verifies());
}

#[test]
fn encode_appends_to_a_buffer() {
    let (_, kpb) = ed25519_bundle(vec![]);
    let mut buf = vec![9, 9];
    kpb.key_package().encode(&mut buf).unwrap();
    assert_eq!(&buf[..2], &[9, 9]);
    assert_eq!(&buf[2..], &kpb.key_package().encode_detached().unwrap()[..]);
    let mut big = kpb.key_package.clone();
    big.credential.identity = vec![0; 70000];
    let mut out = vec![1];
    assert_eq!(big.encode(&mut out), Err(CodecError::LengthOverflow));
    assert_eq!(out, vec![1]);
}
