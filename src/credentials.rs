//! Credentials: an identity bound to a public verification key, and the
//! bundle that also holds the matching private key.
use vstd::prelude::*;
use crate::ciphersuite::SignatureScheme;
use crate::codec::{
    lemma_parse_u16_of, lemma_parse_vec16_of, lemma_split,
    parse_u16, parse_vec16, u16_be, vec16_bytes, write_bytes, write_u16, write_vec16, CodecError, Cursor,
    MAX_VEC16,
};
use crate::crypto::{
    ed25519_keypair, ed25519_public_key_of, p256_keypair, p256_public_key_of, p256_scalar_valid,
};

verus! {

#[derive(Debug, Clone, Copy, PartialEq, Eq, Structural)]
pub enum CredentialType {
    Basic,
}

impl CredentialType {
    pub open spec fn from_code(c: u16) -> Option<CredentialType> {
        if c == 1 {
            Some(CredentialType::Basic)
        } else {
            None
        }
    }
}

/// An identity and the key that verifies its signatures.
#[derive(Debug, Clone, PartialEq, Eq)]
pub struct Credential {
    pub credential_type: CredentialType,
    pub identity: Vec<u8>,
    pub signature_scheme: SignatureScheme,
    pub public_key: Vec<u8>,
}

pub struct CredentialModel {
    pub credential_type: CredentialType,
    pub identity: Seq<u8>,
    pub signature_scheme: SignatureScheme,
    pub public_key: Seq<u8>,
}

impl View for Credential {
    type V = CredentialModel;

    open spec fn view(&self) -> CredentialModel {
        CredentialModel {
            credential_type: self.credential_type,
            identity: self.identity@,
            signature_scheme: self.signature_scheme,
            public_key: self.public_key@,
        }
    }
}

impl CredentialModel {
    pub open spec fn fits(self) -> bool {
        self.identity.len() <= MAX_VEC16 && self.public_key.len() <= MAX_VEC16
    }

    /// Credential type, identity, signature scheme and public key, each
    /// vector behind a two-byte length.
    pub open spec fn bytes(self) -> Seq<u8> {
        u16_be(1) + vec16_bytes(self.identity) + u16_be(self.signature_scheme.spec_code())
            + vec16_bytes(self.public_key)
    }
}

pub open spec fn parse_credential(s: Seq<u8>, p: int, end: int) -> Result<
    (CredentialModel, int),
    CodecError,
> {
    match parse_u16(s, p, end) {
        Err(e) => Err(e),
        Ok((t, at1)) => match CredentialType::from_code(t) {
            None => Err(CodecError::Malformed),
            Some(credential_type) => match parse_vec16(s, at1, end) {
                Err(e) => Err(e),
                Ok((identity, at2)) => match parse_u16(s, at2, end) {
                    Err(e) => Err(e),
                    Ok((c, at3)) => match SignatureScheme::from_code(c) {
                        None => Err(CodecError::Malformed),
                        Some(signature_scheme) => match parse_vec16(s, at3, end) {
                            Err(e) => Err(e),
                            Ok((public_key, at4)) => Ok(
                                (
                                    CredentialModel {
                                        credential_type,
                                        identity,
                                        signature_scheme,
                                        public_key,
                                    },
                                    at4,
                                ),
                            ),
                        },
                    },
                },
            },
        },
    }
}

/// Where `s` holds the encoding of a basic credential `c` at `p`, reading
/// there gives `c` back.
pub proof fn lemma_parse_credential_of(c: CredentialModel, s: Seq<u8>, p: int, end: int)
    requires
        c.fits(),
        c.credential_type == CredentialType::Basic,
        0 <= p,
        p + c.bytes().len() <= end <= s.len(),
        s.subrange(p, p + c.bytes().len()) == c.bytes(),
    ensures
        parse_credential(s, p, end) == Ok::<(CredentialModel, int), CodecError>(
            (c, p + c.bytes().len()),
        ),
{
    let a = u16_be(1);
    let b = vec16_bytes(c.identity);
    let d = u16_be(c.signature_scheme.spec_code());
    let e = vec16_bytes(c.public_key);
    lemma_split(s, p, a + b + d, e);
    lemma_split(s, p, a + b, d);
    lemma_split(s, p, a, b);
    lemma_parse_u16_of(1, s, p, end);
    lemma_parse_vec16_of(c.identity, s, p + 2, end);
    let at2 = p + 2 + b.len();
    lemma_parse_u16_of(c.signature_scheme.spec_code(), s, at2, end);
    assert(SignatureScheme::from_code(c.signature_scheme.spec_code()) == Some(c.signature_scheme));
    lemma_parse_vec16_of(c.public_key, s, at2 + 2, end);
}

impl Credential {
    /// A copy of the credential.
    pub fn duplicate(&self) -> (r: Credential)
        ensures
            r@ == self@,
    {
        let mut identity: Vec<u8> = Vec::new();
        write_bytes(&mut identity, self.identity.as_slice());
        let mut public_key: Vec<u8> = Vec::new();
        write_bytes(&mut public_key, self.public_key.as_slice());
        assert(identity@ =~= self.identity@);
        assert(public_key@ =~= self.public_key@);
        Credential {
            credential_type: self.credential_type,
            identity,
            signature_scheme: self.signature_scheme,
            public_key,
        }
    }

    pub fn encode(&self, out: &mut Vec<u8>) -> (r: Result<(), CodecError>)
        ensures
            self@.fits() ==> r == Ok::<(), CodecError>(()) && final(out)@ == old(out)@
                + self@.bytes(),
            !self@.fits() ==> r == Err::<(), CodecError>(CodecError::LengthOverflow),
    {
        if self.identity.len() > MAX_VEC16 || self.public_key.len() > MAX_VEC16 {
            return Err(CodecError::LengthOverflow);
        }
        write_u16(out, 1);
        let _ = write_vec16(out, self.identity.as_slice());
        write_u16(out, self.signature_scheme.code());
        let _ = write_vec16(out, self.public_key.as_slice());
        assert(final(out)@ =~= old(out)@ + self@.bytes());
        Ok(())
    }

    pub fn decode(cursor: &mut Cursor, end: usize) -> (r: Result<Credential, CodecError>)
        requires
            end <= old(cursor).bytes@.len(),
        ensures
            final(cursor).bytes == old(cursor).bytes,
            match parse_credential(old(cursor).bytes@, old(cursor).pos as int, end as int) {
                Ok((m, q)) => (r matches Ok(c) && c@ == m && final(cursor).pos == q),
                Err(e) => r == Err::<Credential, CodecError>(e),
            },
    {
        let t = cursor.read_u16(end)?;
        if t != 1 {
            return Err(CodecError::Malformed);
        }
        let identity = cursor.read_vec16(end)?;
        let c = cursor.read_u16(end)?;
        let signature_scheme = match SignatureScheme::decode_code(c) {
            Some(s) => s,
            None => {
                return Err(CodecError::Malformed);
            },
        };
        let public_key = cursor.read_vec16(end)?;
        Ok(Credential { credential_type: CredentialType::Basic, identity, signature_scheme, public_key })
    }
}

/// Why a credential bundle could not be made.
#[derive(Debug, Clone, Copy, PartialEq, Eq, Structural)]
pub enum CredentialError {
    UnsupportedSignatureScheme,
}

/// A credential with the private key that signs for it.
#[derive(Debug, Clone, PartialEq, Eq)]
pub struct CredentialBundle {
    pub credential: Credential,
    pub private_key: Vec<u8>,
}

/// The schemes for which keys can be generated and signatures made.
pub open spec fn scheme_implemented(s: SignatureScheme) -> bool {
    s == SignatureScheme::ED25519 || s == SignatureScheme::ECDSA_SECP256R1_SHA256
}

/// The public key that belongs to `secret_key` in `scheme`.
pub open spec fn public_key_of(scheme: SignatureScheme, secret_key: Seq<u8>) -> Seq<u8> {
    match scheme {
        SignatureScheme::ED25519 => ed25519_public_key_of(secret_key),
        SignatureScheme::ECDSA_SECP256R1_SHA256 => p256_public_key_of(secret_key),
        _ => Seq::empty(),
    }
}

/// A private key that the signer of `scheme` accepts.
pub open spec fn signing_key_valid(scheme: SignatureScheme, secret_key: Seq<u8>) -> bool {
    match scheme {
        SignatureScheme::ED25519 => secret_key.len() == 32,
        SignatureScheme::ECDSA_SECP256R1_SHA256 => p256_scalar_valid(secret_key),
        _ => false,
    }
}

impl CredentialBundle {
    /// The private key is one the signer accepts, and the credential's public
    /// key belongs to it.
    pub open spec fn wf(&self) -> bool {
        &&& scheme_implemented(self.credential.signature_scheme)
        &&& signing_key_valid(self.credential.signature_scheme, self.private_key@)
        &&& self.credential.public_key@ == public_key_of(
            self.credential.signature_scheme,
            self.private_key@,
        )
    }

    /// Generates a fresh signature key pair of `scheme` for `identity`.
    pub fn new(identity: Vec<u8>, credential_type: CredentialType, scheme: SignatureScheme) -> (r:
        Result<CredentialBundle, CredentialError>)
        ensures
            scheme_implemented(scheme) ==> (r matches Ok(b) && b.wf() && b.credential.identity@ == identity@
                && b.credential.credential_type == credential_type
                && b.credential.signature_scheme == scheme),
            !scheme_implemented(scheme) ==> r == Err::<CredentialBundle, CredentialError>(
                CredentialError::UnsupportedSignatureScheme,
            ),
    {
        let (private_key, public_key) = match scheme {
            SignatureScheme::ED25519 => ed25519_keypair(),
            SignatureScheme::ECDSA_SECP256R1_SHA256 => p256_keypair(),
            _ => {
                return Err(CredentialError::UnsupportedSignatureScheme);
            },
        };
        Ok(
            CredentialBundle {
                credential: Credential {
                    credential_type,
                    identity,
                    signature_scheme: scheme,
                    public_key,
                },
                private_key,
            },
        )
    }

    pub fn credential(&self) -> (r: &Credential)
        ensures
            r == &self.credential,
    {
        &self.credential
    }
}

} // verus!
