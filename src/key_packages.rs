//! The key package: its fields, wire codec, verification and signing, and the
//! bundle that generates one together with its private key.
use vstd::prelude::*;
use crate::ciphersuite::{
    decoded_descriptor_of, descriptor_of, Ciphersuite, CiphersuiteName, Config, ProtocolVersion,
    SignatureScheme,
};
use crate::codec::{
    lemma_parse_u16_of, lemma_parse_vec16_of, lemma_split,
    parse_u16, parse_u8, parse_vec16, u16_be, vec16_bytes, write_vec16, write_u16, CodecError,
    Cursor, MAX_VEC16,
};
use crate::credentials::{
    lemma_parse_credential_of, parse_credential, public_key_of, signing_key_valid, Credential, CredentialBundle, CredentialModel};
use crate::crypto::{
    ed25519_sign, ed25519_signature_valid, ed25519_verify, p256_keypair, p256_sign,
    p256_public_key_of, p256_signature_valid, p256_verify, unix_time_now, x25519_keypair,
    x25519_public_key_of,
};
use crate::extensions::{
    all_extensions_valid_at, all_valid_at, contains_duplicate_tags, decode_extensions,
    encode_extensions, extensions_body, extensions_fit, extensions_wf, find_key_id,
    has_duplicate_tags, lemma_parse_extensions_of, KEY_ID_TAG, parse_extensions, Extension, ExtensionModel,
};

verus! {

/// Why a key package could not be built, signed or verified.
#[derive(Debug, Clone, Copy, PartialEq, Eq, Structural)]
pub enum KeyPackageError {
    /// The credential's signature scheme is not the one the ciphersuite mandates.
    CiphersuiteSignatureSchemeMismatch,
    /// Two extensions share a type tag.
    DuplicateExtension,
    /// The signature does not verify over the unsigned payload.
    InvalidSignature,
    /// An extension's own check failed (a lifetime that does not hold now).
    ExtensionValidationFailed,
    /// No extension of the asked kind is present.
    MissingExtension,
    /// The chosen ciphersuite has no implementation here.
    UnsupportedCiphersuite,
    /// A field is too long for its length prefix.
    EncodingFailed,
    /// The signer refused the private key.
    SigningFailed,
}

/// A signed pre-key record.
#[derive(Debug, Clone, PartialEq, Eq)]
pub struct KeyPackage {
    pub protocol_version: ProtocolVersion,
    pub ciphersuite: Ciphersuite,
    pub ciphersuite_name: CiphersuiteName,
    pub hpke_init_key: Vec<u8>,
    pub credential: Credential,
    pub extensions: Vec<Extension>,
    pub signature: Vec<u8>,
}

pub struct KeyPackageModel {
    pub protocol_version: ProtocolVersion,
    pub ciphersuite: Ciphersuite,
    pub ciphersuite_name: CiphersuiteName,
    pub hpke_init_key: Seq<u8>,
    pub credential: CredentialModel,
    pub extensions: Seq<ExtensionModel>,
    pub signature: Seq<u8>,
}

pub open spec fn extensions_view(es: Seq<Extension>) -> Seq<ExtensionModel> {
    es.map_values(|e: Extension| e@)
}

impl View for KeyPackage {
    type V = KeyPackageModel;

    open spec fn view(&self) -> KeyPackageModel {
        KeyPackageModel {
            protocol_version: self.protocol_version,
            ciphersuite: self.ciphersuite,
            ciphersuite_name: self.ciphersuite_name,
            hpke_init_key: self.hpke_init_key@,
            credential: self.credential@,
            extensions: extensions_view(self.extensions@),
            signature: self.signature@,
        }
    }
}

impl KeyPackageModel {
    /// Every field before the signature fits its length prefix.
    pub open spec fn payload_fits(self) -> bool {
        &&& self.hpke_init_key.len() <= MAX_VEC16
        &&& self.credential.fits()
        &&& extensions_fit(self.extensions)
    }

    pub open spec fn fits(self) -> bool {
        self.payload_fits() && self.signature.len() <= MAX_VEC16
    }

    /// Version, ciphersuite, init key, credential and extensions: the bytes
    /// that are signed.
    pub open spec fn payload_bytes(self) -> Seq<u8> {
        seq![self.protocol_version.spec_code()] + u16_be(self.ciphersuite_name.spec_code())
            + vec16_bytes(self.hpke_init_key) + self.credential.bytes() + vec16_bytes(
            extensions_body(self.extensions),
        )
    }

    /// The payload followed by the signature.
    pub open spec fn bytes(self) -> Seq<u8> {
        self.payload_bytes() + vec16_bytes(self.signature)
    }

    /// Whether the signature verifies over the payload under the credential's
    /// key and the scheme that the ciphersuite mandates.
    pub open spec fn signature_verifies(self) -> bool {
        self.payload_fits() && signature_valid(
            self.ciphersuite_name.spec_signature_scheme(),
            self.credential.public_key,
            self.payload_bytes(),
            self.signature,
        )
    }

    /// A key package as building or decoding leaves it: its descriptor is
    /// the one decoding attaches to its name, its opaque extensions carry
    /// unknown tags, and one of the unverified suite has no signature.
    pub open spec fn wf(self) -> bool {
        &&& decoded_descriptor_of(self.ciphersuite_name) == Some(self.ciphersuite)
        &&& extensions_wf(self.extensions)
        &&& self.ciphersuite_name.spec_is_unverified() ==> self.signature.len() == 0
        &&& self.credential.credential_type == crate::credentials::CredentialType::Basic
    }
}

/// Whether `sig` is a valid signature of `msg` under `pk` in `scheme`; a
/// scheme without an implementation here validates nothing.
pub open spec fn signature_valid(
    scheme: SignatureScheme,
    pk: Seq<u8>,
    msg: Seq<u8>,
    sig: Seq<u8>,
) -> bool {
    match scheme {
        SignatureScheme::ED25519 => ed25519_signature_valid(pk, msg, sig),
        SignatureScheme::ECDSA_SECP256R1_SHA256 => p256_signature_valid(pk, msg, sig),
        _ => false,
    }
}

/// The outcome of the checks of `verify`, in their order, at time `now`,
/// given whether the signature verifies.
pub open spec fn verdict(m: KeyPackageModel, now: u64, signature_ok: bool) -> Result<
    (),
    KeyPackageError,
> {
    if has_duplicate_tags(m.extensions) {
        Err(KeyPackageError::DuplicateExtension)
    } else if !all_valid_at(m.extensions, now) {
        Err(KeyPackageError::ExtensionValidationFailed)
    } else if !signature_ok {
        Err(KeyPackageError::InvalidSignature)
    } else {
        Ok(())
    }
}

/// Reads the fields of a key package at `p`. A package of the unverified
/// suite ends after its extensions, with no signature and the stand-in
/// descriptor; any other reads its signature and the registry's descriptor.
pub open spec fn parse_key_package(s: Seq<u8>, p: int, end: int) -> Result<
    (KeyPackageModel, int),
    CodecError,
> {
    match parse_u8(s, p, end) {
        Err(e) => Err(e),
        Ok((v, at1)) => match ProtocolVersion::from_code(v) {
            None => Err(CodecError::Malformed),
            Some(protocol_version) => match parse_u16(s, at1, end) {
                Err(e) => Err(e),
                Ok((c, at2)) => match CiphersuiteName::from_code(c) {
                    None => Err(CodecError::Malformed),
                    Some(name) => match parse_vec16(s, at2, end) {
                        Err(e) => Err(e),
                        Ok((init_key, at3)) => match parse_credential(s, at3, end) {
                            Err(e) => Err(e),
                            Ok((credential, at4)) => match parse_vec16(s, at4, end) {
                                Err(e) => Err(e),
                                Ok((_, at5)) => match parse_extensions(s, at4 + 2, at5) {
                                    Err(e) => Err(e),
                                    Ok(extensions) => parse_signature_part(
                                        s,
                                        at5,
                                        end,
                                        protocol_version,
                                        name,
                                        init_key,
                                        credential,
                                        extensions,
                                    ),
                                },
                            },
                        },
                    },
                },
            },
        },
    }
}

pub open spec fn parse_signature_part(
    s: Seq<u8>,
    p: int,
    end: int,
    protocol_version: ProtocolVersion,
    name: CiphersuiteName,
    init_key: Seq<u8>,
    credential: CredentialModel,
    extensions: Seq<ExtensionModel>,
) -> Result<(KeyPackageModel, int), CodecError> {
    if name.spec_is_unverified() {
        Ok(
            (
                KeyPackageModel {
                    protocol_version,
                    ciphersuite: decoded_descriptor_of(name)->Some_0,
                    ciphersuite_name: name,
                    hpke_init_key: init_key,
                    credential,
                    extensions,
                    signature: Seq::empty(),
                },
                p,
            ),
        )
    } else {
        match parse_vec16(s, p, end) {
            Err(e) => Err(e),
            Ok((signature, q)) => match decoded_descriptor_of(name) {
                None => Err(CodecError::Malformed),
                Some(ciphersuite) => Ok(
                    (
                        KeyPackageModel {
                            protocol_version,
                            ciphersuite,
                            ciphersuite_name: name,
                            hpke_init_key: init_key,
                            credential,
                            extensions,
                            signature,
                        },
                        q,
                    ),
                ),
            },
        }
    }
}

proof fn lemma_assemble(m: KeyPackageModel, s: Seq<u8>, q: int)
    requires
        ({
            let end = s.len() as int;
            let at3: int = 3 + vec16_bytes(m.hpke_init_key).len() as int;
            let at4: int = at3 + m.credential.bytes().len() as int;
            let at5: int = at4 + vec16_bytes(extensions_body(m.extensions)).len() as int;
            &&& at5 == m.payload_bytes().len()
            &&& parse_u8(s, 0, end) == Ok::<(u8, int), CodecError>((1, 1))
            &&& ProtocolVersion::from_code(1) == Some(m.protocol_version)
            &&& parse_u16(s, 1, end) == Ok::<(u16, int), CodecError>(
                (m.ciphersuite_name.spec_code(), 3),
            )
            &&& CiphersuiteName::from_code(m.ciphersuite_name.spec_code()) == Some(
                m.ciphersuite_name,
            )
            &&& parse_vec16(s, 3, end) == Ok::<(Seq<u8>, int), CodecError>((m.hpke_init_key, at3))
            &&& parse_credential(s, at3, end) == Ok::<(CredentialModel, int), CodecError>(
                (m.credential, at4),
            )
            &&& parse_vec16(s, at4, end) == Ok::<(Seq<u8>, int), CodecError>(
                (extensions_body(m.extensions), at5),
            )
            &&& parse_extensions(s, at4 + 2, at5) == Ok::<Seq<ExtensionModel>, CodecError>(
                m.extensions,
            )
        }),
        ({
            let at5: int = 3 + vec16_bytes(m.hpke_init_key).len() as int + m.credential.bytes().len()
                + vec16_bytes(extensions_body(m.extensions)).len();
            parse_signature_part(
                s,
                at5,
                s.len() as int,
                m.protocol_version,
                m.ciphersuite_name,
                m.hpke_init_key,
                m.credential,
                m.extensions,
            ) == Ok::<(KeyPackageModel, int), CodecError>((m, q))
        }),
    ensures
        parse_key_package(s, 0, s.len() as int) == Ok::<(KeyPackageModel, int), CodecError>((m, q)),
{
}

proof fn lemma_payload_fields(m: KeyPackageModel, s: Seq<u8>)
    requires
        m.wf(),
        m.fits(),
        m.payload_bytes().len() <= s.len(),
        s.subrange(0, m.payload_bytes().len() as int) == m.payload_bytes(),
    ensures
        ({
            let end = s.len() as int;
            let at3: int = 3 + vec16_bytes(m.hpke_init_key).len() as int;
            let at4: int = at3 + m.credential.bytes().len() as int;
            let at5: int = at4 + vec16_bytes(extensions_body(m.extensions)).len() as int;
            &&& at5 == m.payload_bytes().len()
            &&& parse_u8(s, 0, end) == Ok::<(u8, int), CodecError>((1, 1))
            &&& ProtocolVersion::from_code(1) == Some(m.protocol_version)
            &&& parse_u16(s, 1, end) == Ok::<(u16, int), CodecError>(
                (m.ciphersuite_name.spec_code(), 3),
            )
            &&& CiphersuiteName::from_code(m.ciphersuite_name.spec_code()) == Some(
                m.ciphersuite_name,
            )
            &&& parse_vec16(s, 3, end) == Ok::<(Seq<u8>, int), CodecError>((m.hpke_init_key, at3))
            &&& parse_credential(s, at3, end) == Ok::<(CredentialModel, int), CodecError>(
                (m.credential, at4),
            )
            &&& parse_vec16(s, at4, end) == Ok::<(Seq<u8>, int), CodecError>(
                (extensions_body(m.extensions), at5),
            )
            &&& parse_extensions(s, at4 + 2, at5) == Ok::<Seq<ExtensionModel>, CodecError>(
                m.extensions,
            )
        }),
{
    let end = s.len() as int;
    let a0 = seq![m.protocol_version.spec_code()];
    let a1 = u16_be(m.ciphersuite_name.spec_code());
    let a2 = vec16_bytes(m.hpke_init_key);
    let a3 = m.credential.bytes();
    let body = extensions_body(m.extensions);
    let a4 = vec16_bytes(body);
    lemma_split(s, 0, a0 + a1 + a2 + a3, a4);
    lemma_split(s, 0, a0 + a1 + a2, a3);
    lemma_split(s, 0, a0 + a1, a2);
    lemma_split(s, 0, a0, a1);
    assert(s[0] == s.subrange(0, 1)[0]);
    lemma_parse_u16_of(m.ciphersuite_name.spec_code(), s, 1, end);
    lemma_parse_vec16_of(m.hpke_init_key, s, 3, end);
    let at3: int = 3 + a2.len() as int;
    lemma_parse_credential_of(m.credential, s, at3, end);
    let at4: int = at3 + a3.len();
    lemma_parse_vec16_of(body, s, at4, end);
    let at5: int = at4 + a4.len();
    lemma_split(s, at4, u16_be(body.len() as u16), body);
    lemma_parse_extensions_of(m.extensions, s, at4 + 2, at5);
}

proof fn lemma_signature_part_of(m: KeyPackageModel, s: Seq<u8>, p: int)
    requires
        m.wf(),
        m.fits(),
        p == m.payload_bytes().len(),
        p + vec16_bytes(m.signature).len() <= s.len(),
        s.subrange(p, p + vec16_bytes(m.signature).len()) == vec16_bytes(m.signature),
    ensures
        parse_signature_part(
            s,
            p,
            s.len() as int,
            m.protocol_version,
            m.ciphersuite_name,
            m.hpke_init_key,
            m.credential,
            m.extensions,
        ) == Ok::<(KeyPackageModel, int), CodecError>(
            (
                m,
                if m.ciphersuite_name.spec_is_unverified() {
                    p
                } else {
                    p + vec16_bytes(m.signature).len()
                },
            ),
        ),
{
    if m.ciphersuite_name.spec_is_unverified() {
        assert(m.signature =~= Seq::<u8>::empty());
    } else {
        lemma_parse_vec16_of(m.signature, s, p, s.len() as int);
    }
}

/// What decoding `s` at `p` gives at time `now`: the parsed package if it is
/// of the unverified suite or passes the checks at `now`, else `Malformed`.
pub open spec fn decode_outcome(s: Seq<u8>, p: int, now: u64) -> Result<
    (KeyPackageModel, int),
    CodecError,
> {
    match parse_key_package(s, p, s.len() as int) {
        Err(e) => Err(e),
        Ok((m, q)) => if m.ciphersuite_name.spec_is_unverified() || verdict(
            m,
            now,
            m.signature_verifies(),
        ) is Ok {
            Ok((m, q))
        } else {
            Err(CodecError::Malformed)
        },
    }
}

/// Decoding inverts encoding: reading the encoding of a well-formed key
/// package, whatever bytes follow it, gives back every field, the order of
/// the extensions included. A package of the unverified suite is read up
/// to the end of its extensions; any other up to the end of its signature.
pub proof fn lemma_decode_encode_round_trip(m: KeyPackageModel, rest: Seq<u8>)
    requires
        m.wf(),
        m.fits(),
    ensures
        parse_key_package(m.bytes() + rest, 0, (m.bytes() + rest).len() as int) == Ok::<
            (KeyPackageModel, int),
            CodecError,
        >(
            (
                m,
                if m.ciphersuite_name.spec_is_unverified() {
                    m.payload_bytes().len() as int
                } else {
                    m.bytes().len() as int
                },
            ),
        ),
{
    let s = m.bytes() + rest;
    let payload = m.payload_bytes();
    let sig = vec16_bytes(m.signature);
    let at5 = payload.len() as int;
    assert(s.subrange(0, at5) == payload && s.subrange(at5, at5 + sig.len()) == sig) by {
        assert(s.subrange(0, (payload.len() + sig.len()) as int) =~= payload + sig);
        lemma_split(s, 0, payload, sig);
    }
    lemma_payload_fields(m, s);
    let q = if m.ciphersuite_name.spec_is_unverified() {
        at5
    } else {
        m.bytes().len() as int
    };
    lemma_signature_part_of(m, s, at5);
    lemma_assemble(m, s, q);
}

/// Round trip through `decode_at`: the encoding of a well-formed package that
/// passes the checks at `now` (or is of the unverified suite), followed by
/// any bytes, decodes at `now` to the same package field for field, the
/// extensions in order, and the cursor stops where the encoding ends (for
/// the unverified suite, where its extensions end).
pub proof fn lemma_decode_at_round_trip(m: KeyPackageModel, rest: Seq<u8>, now: u64)
    requires
        m.wf(),
        m.fits(),
        m.ciphersuite_name.spec_is_unverified() || verdict(m, now, m.signature_verifies()) is Ok,
    ensures
        decode_outcome(m.bytes() + rest, 0, now) == Ok::<(KeyPackageModel, int), CodecError>(
            (
                m,
                if m.ciphersuite_name.spec_is_unverified() {
                    m.payload_bytes().len() as int
                } else {
                    m.bytes().len() as int
                },
            ),
        ),
{
    lemma_decode_encode_round_trip(m, rest);
}

/// A package of a verified suite whose lifetime has closed before `now`, or
/// opens after it, is refused by `decode_at` at `now` as malformed input.
pub proof fn lemma_decode_at_refuses_lifetime(
    m: KeyPackageModel,
    rest: Seq<u8>,
    now: u64,
    i: int,
)
    requires
        m.wf(),
        m.fits(),
        !m.ciphersuite_name.spec_is_unverified(),
        0 <= i < m.extensions.len(),
        m.extensions[i] is Lifetime,
        m.extensions[i]->not_after < now || m.extensions[i]->not_before > now,
    ensures
        decode_outcome(m.bytes() + rest, 0, now) == Err::<(KeyPackageModel, int), CodecError>(
            CodecError::Malformed,
        ),
{
    lemma_decode_encode_round_trip(m, rest);
    lemma_lifetime_decides(m, now, i, m.signature_verifies());
}

/// A lifetime extension decides verification by its bounds: a window that
/// closed before `now`, or opens after it, fails the checks; a window that
/// holds `now`, in a package with unique tags and a verifying signature,
/// passes them.
pub proof fn lemma_lifetime_decides(m: KeyPackageModel, now: u64, i: int, signature_ok: bool)
    requires
        0 <= i < m.extensions.len(),
        m.extensions[i] is Lifetime,
    ensures
        m.extensions[i]->not_after < now ==> verdict(m, now, signature_ok) is Err,
        m.extensions[i]->not_before > now ==> verdict(m, now, signature_ok) is Err,
        m.extensions[i]->not_before <= now <= m.extensions[i]->not_after && !has_duplicate_tags(
            m.extensions,
        ) && signature_ok ==> verdict(m, now, signature_ok) == Ok::<(), KeyPackageError>(()),
{
    let es = m.extensions;
    if !es[i].valid_at(now) {
        assert(!all_valid_at(es, now));
    }
    if es[i].valid_at(now) && !has_duplicate_tags(es) {
        assert forall|j: int| 0 <= j < es.len() implies #[trigger] es[j].valid_at(now) by {
            if es[j] is Lifetime && j != i {
                assert(es[j].tag() == es[i].tag());
                assert(has_duplicate_tags(es));
            }
        }
    }
}

proof fn lemma_without_tag_excludes(es: Seq<ExtensionModel>, t: u16)
    ensures
        forall|j: int| 0 <= j < without_tag(es, t).len() ==> #[trigger] without_tag(es, t)[j].tag()
            != t,
    decreases es.len(),
{
    if es.len() > 0 {
        lemma_without_tag_excludes(es.drop_first(), t);
        let head: Seq<ExtensionModel> = if es[0].tag() == t {
            Seq::empty()
        } else {
            seq![es[0]]
        };
        let w = without_tag(es.drop_first(), t);
        assert forall|j: int| 0 <= j < (head + w).len() implies #[trigger] (head + w)[j].tag()
            != t by {
            if j >= head.len() {
                assert((head + w)[j] == w[j - head.len()]);
            }
        }
    }
}

proof fn lemma_find_key_id_after(ws: Seq<ExtensionModel>, k: Seq<u8>)
    requires
        forall|j: int| 0 <= j < ws.len() ==> #[trigger] ws[j].tag() != KEY_ID_TAG,
    ensures
        find_key_id(ws.push(ExtensionModel::KeyId(k))) == Some(k),
    decreases ws.len(),
{
    let l = ws.push(ExtensionModel::KeyId(k));
    if ws.len() > 0 {
        assert(ws[0].tag() != KEY_ID_TAG);
        assert(l.drop_first() =~= ws.drop_first().push(ExtensionModel::KeyId(k)));
        assert forall|j: int| 0 <= j < ws.drop_first().len() implies #[trigger] ws.drop_first()[j].tag()
            != KEY_ID_TAG by {
            assert(ws.drop_first()[j] == ws[j + 1]);
        }
        lemma_find_key_id_after(ws.drop_first(), k);
    }
}

/// After `add_extension` of a key-ID extension, `key_id` returns exactly
/// its identifier, whatever key-ID extensions the list held before.
pub proof fn lemma_key_id_after_add(es: Seq<ExtensionModel>, k: Seq<u8>)
    ensures
        find_key_id(without_tag(es, KEY_ID_TAG).push(ExtensionModel::KeyId(k))) == Some(k),
{
    lemma_without_tag_excludes(es, KEY_ID_TAG);
    lemma_find_key_id_after(without_tag(es, KEY_ID_TAG), k);
}

/// A package whose tags are unique and whose signature verifies passes
/// `verify` at every time at which its extensions hold; such is the package
/// that `KeyPackageBundle::new` returns for a well-formed credential bundle.
pub proof fn lemma_generated_package_verifies(m: KeyPackageModel, now: u64)
    requires
        m.signature_verifies(),
        !has_duplicate_tags(m.extensions),
        all_valid_at(m.extensions, now),
    ensures
        verdict(m, now, m.signature_verifies()) == Ok::<(), KeyPackageError>(()),
{
}

/// Checks `sig` over `msg` under `pk` with the primitive of `scheme`.
pub fn check_signature(scheme: SignatureScheme, pk: &[u8], msg: &[u8], sig: &[u8]) -> (r: bool)
    ensures
        r == signature_valid(scheme, pk@, msg@, sig@),
{
    match scheme {
        SignatureScheme::ED25519 => ed25519_verify(pk, msg, sig),
        SignatureScheme::ECDSA_SECP256R1_SHA256 => p256_verify(pk, msg, sig),
        _ => false,
    }
}

/// Signs `msg` with the primitive of `scheme`; none for a scheme without an
/// implementation here.
fn sign_with(scheme: SignatureScheme, sk: &[u8], msg: &[u8]) -> (r: Option<Vec<u8>>)
    ensures
        r matches Some(s) ==> s@.len() == 64 && signature_valid(
            scheme,
            public_key_of(scheme, sk@),
            msg@,
            s@,
        ),
        !(scheme == SignatureScheme::ED25519 || scheme == SignatureScheme::ECDSA_SECP256R1_SHA256)
            ==> r is None,
        signing_key_valid(scheme, sk@) ==> r is Some,
{
    match scheme {
        SignatureScheme::ED25519 => ed25519_sign(sk, msg),
        SignatureScheme::ECDSA_SECP256R1_SHA256 => p256_sign(sk, msg),
        _ => None,
    }
}

/// The extensions list, in order, with every entry of tag `t` left out.
pub open spec fn without_tag(es: Seq<ExtensionModel>, t: u16) -> Seq<ExtensionModel>
    decreases es.len(),
{
    if es.len() == 0 {
        Seq::empty()
    } else {
        (if es[0].tag() == t {
            Seq::empty()
        } else {
            seq![es[0]]
        }) + without_tag(es.drop_first(), t)
    }
}

impl KeyPackage {
    /// The bytes that are signed: every field before the signature.
    pub fn unsigned_payload(&self) -> (r: Result<Vec<u8>, CodecError>)
        ensures
            self@.payload_fits() ==> (r matches Ok(b) && b@ == self@.payload_bytes()),
            !self@.payload_fits() ==> r == Err::<Vec<u8>, CodecError>(CodecError::LengthOverflow),
    {
        let mut out: Vec<u8> = Vec::new();
        out.push(self.protocol_version.code());
        write_u16(&mut out, self.ciphersuite_name.code());
        write_vec16(&mut out, self.hpke_init_key.as_slice())?;
        self.credential.encode(&mut out)?;
        encode_extensions(&self.extensions, &mut out)?;
        assert(out@ =~= self@.payload_bytes());
        Ok(out)
    }

    /// The full wire encoding: the payload, then the signature.
    pub fn encode_detached(&self) -> (r: Result<Vec<u8>, CodecError>)
        ensures
            self@.fits() ==> (r matches Ok(b) && b@ == self@.bytes()),
            !self@.fits() ==> r == Err::<Vec<u8>, CodecError>(CodecError::LengthOverflow),
    {
        let mut out = self.unsigned_payload()?;
        write_vec16(&mut out, self.signature.as_slice())?;
        Ok(out)
    }

    /// Appends the full wire encoding to `buffer`; a field too long for its
    /// length prefix leaves `buffer` as it was.
    pub fn encode(&self, buffer: &mut Vec<u8>) -> (r: Result<(), CodecError>)
        ensures
            self@.fits() ==> r == Ok::<(), CodecError>(()) && final(buffer)@ == old(buffer)@
                + self@.bytes(),
            !self@.fits() ==> r == Err::<(), CodecError>(CodecError::LengthOverflow)
                && final(buffer)@ == old(buffer)@,
    {
        let enc = self.encode_detached()?;
        crate::codec::write_bytes(buffer, enc.as_slice());
        Ok(())
    }

    /// Runs the checks of `verify` at time `now`, given whether the
    /// signature verifies.
    pub fn verify_at(&self, now: u64, signature_ok: bool) -> (r: Result<(), KeyPackageError>)
        ensures
            r == verdict(self@, now, signature_ok),
    {
        if contains_duplicate_tags(&self.extensions) {
            Err(KeyPackageError::DuplicateExtension)
        } else if !all_extensions_valid_at(&self.extensions, now) {
            Err(KeyPackageError::ExtensionValidationFailed)
        } else if !signature_ok {
            Err(KeyPackageError::InvalidSignature)
        } else {
            Ok(())
        }
    }

    /// Whether the signature verifies over the unsigned payload.
    pub fn signature_verifies(&self) -> (r: bool)
        ensures
            r == self@.signature_verifies(),
    {
        match self.unsigned_payload() {
            Ok(payload) => check_signature(
                self.ciphersuite_name.signature_scheme(),
                self.credential.public_key.as_slice(),
                payload.as_slice(),
                self.signature.as_slice(),
            ),
            Err(_) => false,
        }
    }

    /// Checks, in order: no two extensions share a tag, each extension's
    /// own check passes now, and the signature verifies.
    pub fn verify(&self) -> (r: Result<(), KeyPackageError>)
        ensures
            exists|now: u64| r == verdict(self@, now, self@.signature_verifies()),
    {
        let now = unix_time_now();
        let r = self.verify_at(now, self.signature_verifies());
        assert(r == verdict(self@, now, self@.signature_verifies()));
        r
    }

    /// Reads the fields of a key package at the cursor, in wire order, and
    /// makes no check: for callers that tell malformed bytes from a package
    /// that does not verify.
    pub fn decode_unverified(cursor: &mut Cursor) -> (r: Result<KeyPackage, CodecError>)
        ensures
            final(cursor).bytes == old(cursor).bytes,
            match parse_key_package(
                old(cursor).bytes@,
                old(cursor).pos as int,
                old(cursor).bytes@.len() as int,
            ) {
                Ok((m, q)) => (r matches Ok(kp) && kp@ == m && final(cursor).pos == q),
                Err(e) => r == Err::<KeyPackage, CodecError>(e),
            },
    {
        let end = cursor.bytes.len();
        let v = cursor.read_u8(end)?;
        let protocol_version = match ProtocolVersion::decode_code(v) {
            Some(x) => x,
            None => {
                return Err(CodecError::Malformed);
            },
        };
        let c = cursor.read_u16(end)?;
        let ciphersuite_name = match CiphersuiteName::decode_code(c) {
            Some(x) => x,
            None => {
                return Err(CodecError::Malformed);
            },
        };
        let hpke_init_key = cursor.read_vec16(end)?;
        let credential = Credential::decode(cursor, end)?;
        let extensions = decode_extensions(cursor, end)?;
        if ciphersuite_name.is_unverified() {
            let placeholder = CiphersuiteName::MLS10_128_DHKEMP256_AES128GCM_SHA256_P256;
            return Ok(
                KeyPackage {
                    protocol_version,
                    ciphersuite: Ciphersuite {
                        name: placeholder,
                        signature_scheme: placeholder.signature_scheme(),
                    },
                    ciphersuite_name,
                    hpke_init_key,
                    credential,
                    extensions,
                    signature: Vec::new(),
                },
            );
        }
        let signature = cursor.read_vec16(end)?;
        let ciphersuite = match Config::ciphersuite(ciphersuite_name) {
            Ok(cs) => cs,
            Err(_) => {
                return Err(CodecError::Malformed);
            },
        };
        Ok(
            KeyPackage {
                protocol_version,
                ciphersuite,
                ciphersuite_name,
                hpke_init_key,
                credential,
                extensions,
                signature,
            },
        )
    }

    /// Reads a key package at the cursor and checks it as `verify` would at
    /// time `now`. A package of the unverified suite is returned as read,
    /// with no signature read and no check made; any other only if it passes
    /// the checks, and a failed check reads as malformed input.
    /// Skipping every check for the unverified suite is a deliberate stopgap
    /// until its signature algorithm is implemented; it is kept as is.
    pub fn decode_at(cursor: &mut Cursor, now: u64) -> (r: Result<KeyPackage, CodecError>)
        ensures
            final(cursor).bytes == old(cursor).bytes,
            match decode_outcome(old(cursor).bytes@, old(cursor).pos as int, now) {
                Ok((m, q)) => (r matches Ok(kp) && kp@ == m && final(cursor).pos == q),
                Err(e) => r == Err::<KeyPackage, CodecError>(e),
            },
    {
        let kp = KeyPackage::decode_unverified(cursor)?;
        if kp.ciphersuite_name.is_unverified() {
            return Ok(kp);
        }
        match kp.verify_at(now, kp.signature_verifies()) {
            Ok(()) => Ok(kp),
            Err(_) => Err(CodecError::Malformed),
        }
    }

    /// `decode_at` with the time read from the system clock.
    pub fn decode(cursor: &mut Cursor) -> (r: Result<KeyPackage, CodecError>)
        ensures
            final(cursor).bytes == old(cursor).bytes,
            exists|now: u64|
                match #[trigger] decode_outcome(old(cursor).bytes@, old(cursor).pos as int, now) {
                    Ok((m, q)) => (r matches Ok(kp) && kp@ == m && final(cursor).pos == q),
                    Err(e) => r == Err::<KeyPackage, CodecError>(e),
                },
    {
        let now = unix_time_now();
        KeyPackage::decode_at(cursor, now)
    }

    /// Reads a key package from the start of `bytes`.
    pub fn decode_detached(bytes: &Vec<u8>) -> (r: Result<KeyPackage, CodecError>)
        ensures
            exists|now: u64|
                match #[trigger] decode_outcome(bytes@, 0, now) {
                    Ok((m, _)) => (r matches Ok(kp) && kp@ == m),
                    Err(e) => r == Err::<KeyPackage, CodecError>(e),
                },
    {
        let mut cursor = Cursor::new(bytes);
        KeyPackage::decode(&mut cursor)
    }

    /// Signs the current payload with the bundle's private key and stores the
    /// signature. The bundle's scheme must be the one the ciphersuite
    /// mandates.
    pub fn sign(&mut self, credential_bundle: &CredentialBundle) -> (r: Result<(), KeyPackageError>)
        ensures
            final(self).protocol_version == old(self).protocol_version,
            final(self).ciphersuite == old(self).ciphersuite,
            final(self).ciphersuite_name == old(self).ciphersuite_name,
            final(self).hpke_init_key == old(self).hpke_init_key,
            final(self).credential == old(self).credential,
            final(self).extensions == old(self).extensions,
            !old(self)@.payload_fits() ==> r == Err::<(), KeyPackageError>(
                KeyPackageError::EncodingFailed,
            ),
            old(self)@.payload_fits() && credential_bundle.credential.signature_scheme
                != old(self).ciphersuite_name.spec_signature_scheme() ==> r == Err::<
                (),
                KeyPackageError,
            >(KeyPackageError::CiphersuiteSignatureSchemeMismatch),
            old(self)@.payload_fits() && credential_bundle.credential.signature_scheme
                == old(self).ciphersuite_name.spec_signature_scheme() ==> (r is Ok || r == Err::<
                (),
                KeyPackageError,
            >(KeyPackageError::SigningFailed)),
            old(self)@.payload_fits() && credential_bundle.credential.signature_scheme
                == old(self).ciphersuite_name.spec_signature_scheme() && signing_key_valid(
                credential_bundle.credential.signature_scheme,
                credential_bundle.private_key@,
            ) ==> r is Ok,
            r is Ok ==> final(self).signature@.len() == 64 && signature_valid(
                old(self).ciphersuite_name.spec_signature_scheme(),
                public_key_of(
                    old(self).ciphersuite_name.spec_signature_scheme(),
                    credential_bundle.private_key@,
                ),
                old(self)@.payload_bytes(),
                final(self).signature@,
            ),
            r is Err ==> final(self).signature == old(self).signature,
            r is Err ==> r == Err::<(), KeyPackageError>(KeyPackageError::EncodingFailed) || r
                == Err::<(), KeyPackageError>(KeyPackageError::CiphersuiteSignatureSchemeMismatch)
                || r == Err::<(), KeyPackageError>(KeyPackageError::SigningFailed),
    {
        let payload = match self.unsigned_payload() {
            Ok(p) => p,
            Err(_) => {
                return Err(KeyPackageError::EncodingFailed);
            },
        };
        let scheme = self.ciphersuite_name.signature_scheme();
        if credential_bundle.credential.signature_scheme != scheme {
            return Err(KeyPackageError::CiphersuiteSignatureSchemeMismatch);
        }
        match sign_with(scheme, credential_bundle.private_key.as_slice(), payload.as_slice()) {
            Some(sig) => {
                self.signature = sig;
                Ok(())
            },
            None => Err(KeyPackageError::SigningFailed),
        }
    }

    /// Adds `extension`, first taking out every extension of its tag; the
    /// signature is left as it was, so it no longer covers the payload.
    pub fn add_extension(&mut self, extension: Extension)
        ensures
            final(self).protocol_version == old(self).protocol_version,
            final(self).ciphersuite == old(self).ciphersuite,
            final(self).ciphersuite_name == old(self).ciphersuite_name,
            final(self).hpke_init_key == old(self).hpke_init_key,
            final(self).credential == old(self).credential,
            final(self).signature == old(self).signature,
            final(self)@.extensions == without_tag(old(self)@.extensions, extension@.tag()).push(
                extension@,
            ),
    {
        let t = extension.extension_type();
        let mut rest: Vec<Extension> = Vec::new();
        std::mem::swap(&mut self.extensions, &mut rest);
        let ghost orig = extensions_view(rest@);
        let mut kept: Vec<Extension> = Vec::new();
        while rest.len() > 0
            invariant
                without_tag(orig, t) == extensions_view(kept@) + without_tag(
                    extensions_view(rest@),
                    t,
                ),
            decreases rest@.len(),
        {
            let ghost rm = extensions_view(rest@);
            let e = rest.remove(0);
            proof {
                assert(extensions_view(rest@) =~= rm.drop_first());
                assert(rm[0] == e@);
            }
            if e.extension_type() != t {
                proof {
                    assert(extensions_view(kept@.push(e)) =~= extensions_view(kept@).push(e@));
                    assert(extensions_view(kept@) + (seq![e@] + without_tag(rm.drop_first(), t))
                        =~= extensions_view(kept@).push(e@) + without_tag(rm.drop_first(), t));
                }
                kept.push(e);
            } else {
                proof {
                    assert(Seq::<ExtensionModel>::empty() + without_tag(rm.drop_first(), t)
                        =~= without_tag(rm.drop_first(), t));
                }
            }
        }
        proof {
            assert(extensions_view(kept@) + Seq::<ExtensionModel>::empty() =~= extensions_view(
                kept@,
            ));
            assert(extensions_view(kept@.push(extension)) =~= extensions_view(kept@).push(
                extension@,
            ));
        }
        kept.push(extension);
        self.extensions = kept;
    }

    /// The identifier of the first key-ID extension.
    pub fn key_id(&self) -> (r: Result<Vec<u8>, KeyPackageError>)
        ensures
            match find_key_id(self@.extensions) {
                Some(k) => (r matches Ok(v) && v@ == k),
                None => r == Err::<Vec<u8>, KeyPackageError>(KeyPackageError::MissingExtension),
            },
    {
        let ghost m = self@.extensions;
        assert(m.subrange(0, m.len() as int) =~= m);
        let mut i: usize = 0;
        while i < self.extensions.len()
            invariant
                i <= self.extensions@.len(),
                m == extensions_view(self.extensions@),
                find_key_id(m) == find_key_id(m.subrange(i as int, m.len() as int)),
            decreases self.extensions@.len() - i,
        {
            proof {
                let sub = m.subrange(i as int, m.len() as int);
                assert(sub.drop_first() =~= m.subrange(i + 1, m.len() as int));
                assert(sub[0] == m[i as int]);
            }
            match &self.extensions[i] {
                Extension::KeyId(k) => {
                    let mut out: Vec<u8> = Vec::new();
                    crate::codec::write_bytes(&mut out, k.as_slice());
                    assert(out@ =~= k@);
                    return Ok(out);
                },
                _ => {},
            }
            i = i + 1;
        }
        Err(KeyPackageError::MissingExtension)
    }

    pub fn ciphersuite(&self) -> (r: &Ciphersuite)
        ensures
            r == &self.ciphersuite,
    {
        &self.ciphersuite
    }

    pub fn credential(&self) -> (r: &Credential)
        ensures
            r == &self.credential,
    {
        &self.credential
    }

    pub fn extensions(&self) -> (r: &Vec<Extension>)
        ensures
            r == &self.extensions,
    {
        &self.extensions
    }

    pub fn hpke_init_key(&self) -> (r: &Vec<u8>)
        ensures
            r == &self.hpke_init_key,
    {
        &self.hpke_init_key
    }
}

/// The first of `names` whose mandated signature scheme is `scheme`.
pub open spec fn first_matching(names: Seq<CiphersuiteName>, scheme: SignatureScheme) -> Option<
    CiphersuiteName,
>
    decreases names.len(),
{
    if names.len() == 0 {
        None
    } else if names[0].spec_signature_scheme() == scheme {
        Some(names[0])
    } else {
        first_matching(names.drop_first(), scheme)
    }
}

pub proof fn lemma_first_matching_scheme(names: Seq<CiphersuiteName>, scheme: SignatureScheme)
    ensures
        first_matching(names, scheme) matches Some(n) ==> n.spec_signature_scheme() == scheme,
    decreases names.len(),
{
    if names.len() > 0 && names[0].spec_signature_scheme() != scheme {
        lemma_first_matching_scheme(names.drop_first(), scheme);
    }
}

/// Picks the first candidate suite whose mandated scheme is `scheme`.
pub fn select_ciphersuite(names: &[CiphersuiteName], scheme: SignatureScheme) -> (r: Option<
    CiphersuiteName,
>)
    ensures
        r == first_matching(names@, scheme),
{
    let ghost m = names@;
    assert(m.subrange(0, m.len() as int) =~= m);
    let mut i: usize = 0;
    while i < names.len()
        invariant
            i <= m.len(),
            m == names@,
            first_matching(m, scheme) == first_matching(m.subrange(i as int, m.len() as int), scheme),
        decreases m.len() - i,
    {
        proof {
            let sub = m.subrange(i as int, m.len() as int);
            assert(sub.drop_first() =~= m.subrange(i + 1, m.len() as int));
            assert(sub[0] == m[i as int]);
        }
        if names[i].signature_scheme() == scheme {
            return Some(names[i]);
        }
        i = i + 1;
    }
    None
}

/// The key-exchange public key of `secret_key` in the suite `name`.
pub open spec fn hpke_public_key_of(name: CiphersuiteName, secret_key: Seq<u8>) -> Seq<u8> {
    match name {
        CiphersuiteName::MLS10_128_DHKEMX25519_AES128GCM_SHA256_Ed25519 => x25519_public_key_of(
            secret_key,
        ),
        CiphersuiteName::MLS10_128_DHKEMX25519_CHACHA20POLY1305_SHA256_Ed25519 =>
            x25519_public_key_of(secret_key),
        CiphersuiteName::MLS10_128_DHKEMP256_AES128GCM_SHA256_P256 => p256_public_key_of(
            secret_key,
        ),
        _ => Seq::empty(),
    }
}

/// A fresh key-exchange key pair for a supported suite: X25519 or P-256.
fn hpke_keypair(name: CiphersuiteName) -> (r: Option<(Vec<u8>, Vec<u8>)>)
    ensures
        r is Some <==> name.spec_is_supported(),
        r matches Some(pair) ==> pair.1@.len() <= 65 && pair.1@ == hpke_public_key_of(
            name,
            pair.0@,
        ),
{
    match name {
        CiphersuiteName::MLS10_128_DHKEMX25519_AES128GCM_SHA256_Ed25519
        | CiphersuiteName::MLS10_128_DHKEMX25519_CHACHA20POLY1305_SHA256_Ed25519 => Some(
            x25519_keypair(),
        ),
        CiphersuiteName::MLS10_128_DHKEMP256_AES128GCM_SHA256_P256 => Some(p256_keypair()),
        _ => None,
    }
}

/// A signed key package and the private key of its init key.
#[derive(Debug, Clone, PartialEq, Eq)]
pub struct KeyPackageBundle {
    pub key_package: KeyPackage,
    pub private_key: Vec<u8>,
}

impl KeyPackageBundle {
    /// Builds and signs a key package for the first of `ciphersuites` whose
    /// mandated scheme is the credential's, with a fresh init key pair and
    /// the given extensions. Nothing is generated unless the extensions have
    /// unique tags and such a suite exists.
    pub fn new(
        ciphersuites: &[CiphersuiteName],
        credential_bundle: &CredentialBundle,
        extensions: Vec<Extension>,
    ) -> (r: Result<KeyPackageBundle, KeyPackageError>)
        ensures
            has_duplicate_tags(extensions_view(extensions@)) ==> r == Err::<
                KeyPackageBundle,
                KeyPackageError,
            >(KeyPackageError::DuplicateExtension),
            !has_duplicate_tags(extensions_view(extensions@)) && first_matching(
                ciphersuites@,
                credential_bundle.credential.signature_scheme,
            ) is None ==> r == Err::<KeyPackageBundle, KeyPackageError>(
                KeyPackageError::CiphersuiteSignatureSchemeMismatch,
            ),
            !has_duplicate_tags(extensions_view(extensions@)) && first_matching(
                ciphersuites@,
                credential_bundle.credential.signature_scheme,
            ) is Some && !first_matching(ciphersuites@, credential_bundle.credential.signature_scheme)->Some_0.spec_is_supported() ==> r == Err::<
                KeyPackageBundle,
                KeyPackageError,
            >(KeyPackageError::UnsupportedCiphersuite),
            !has_duplicate_tags(extensions_view(extensions@)) && first_matching(
                ciphersuites@,
                credential_bundle.credential.signature_scheme,
            ) is Some && first_matching(ciphersuites@, credential_bundle.credential.signature_scheme)->Some_0.spec_is_supported() && credential_bundle.credential@.fits()
                && extensions_fit(extensions_view(extensions@)) ==> (r is Ok || r == Err::<
                KeyPackageBundle,
                KeyPackageError,
            >(KeyPackageError::SigningFailed)),
            r matches Ok(b) ==> {
                let kp = b.key_package@;
                &&& !has_duplicate_tags(kp.extensions)
                &&& first_matching(ciphersuites@, credential_bundle.credential.signature_scheme)
                    == Some(kp.ciphersuite_name)
                &&& kp.ciphersuite_name.spec_is_supported()
                &&& kp.ciphersuite == descriptor_of(kp.ciphersuite_name)
                &&& kp.protocol_version == ProtocolVersion::Mls10
                &&& kp.credential == credential_bundle.credential@
                &&& kp.extensions == extensions_view(extensions@)
                &&& kp.signature.len() == 64
                &&& kp.hpke_init_key == hpke_public_key_of(kp.ciphersuite_name, b.private_key@)
                &&& credential_bundle.wf() ==> kp.signature_verifies()
            },
            credential_bundle.wf() && !has_duplicate_tags(extensions_view(extensions@))
                && first_matching(ciphersuites@, credential_bundle.credential.signature_scheme) is Some
                && first_matching(
                ciphersuites@,
                credential_bundle.credential.signature_scheme,
            )->Some_0.spec_is_supported() && credential_bundle.credential@.fits() && extensions_fit(
                extensions_view(extensions@),
            ) ==> r is Ok,
    {
        if contains_duplicate_tags(&extensions) {
            return Err(KeyPackageError::DuplicateExtension);
        }
        let name = match select_ciphersuite(
            ciphersuites,
            credential_bundle.credential.signature_scheme,
        ) {
            Some(n) => n,
            None => {
                return Err(KeyPackageError::CiphersuiteSignatureSchemeMismatch);
            },
        };
        let ciphersuite = match Config::ciphersuite(name) {
            Ok(c) => c,
            Err(_) => {
                return Err(KeyPackageError::UnsupportedCiphersuite);
            },
        };
        let (private_key, public_key) = match hpke_keypair(name) {
            Some(pair) => pair,
            None => {
                return Err(KeyPackageError::UnsupportedCiphersuite);
            },
        };
        let mut key_package = KeyPackage {
            protocol_version: ProtocolVersion::Mls10,
            ciphersuite,
            ciphersuite_name: name,
            hpke_init_key: public_key,
            credential: credential_bundle.credential.duplicate(),
            extensions,
            signature: Vec::new(),
        };
        proof {
            lemma_first_matching_scheme(ciphersuites@, credential_bundle.credential.signature_scheme);
        }
        match key_package.sign(credential_bundle) {
            Ok(()) => {},
            Err(e) => {
                return Err(e);
            },
        }
        Ok(KeyPackageBundle { key_package, private_key })
    }

    pub fn key_package(&self) -> (r: &KeyPackage)
        ensures
            r == &self.key_package,
    {
        &self.key_package
    }

    pub fn key_package_mut(&mut self) -> (r: &mut KeyPackage)
        ensures
            *r == old(self).key_package,
    {
        &mut self.key_package
    }

    pub fn private_key(&self) -> (r: &Vec<u8>)
        ensures
            r == &self.private_key,
    {
        &self.private_key
    }
}

} // verus!
