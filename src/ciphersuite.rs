//! Ciphersuite names, signature schemes and the registry that resolves a
//! name to its descriptor.
use vstd::prelude::*;

verus! {

/// The wire-format version of a key package.
#[derive(Debug, Clone, Copy, PartialEq, Eq, Structural)]
pub enum ProtocolVersion {
    Mls10,
}

impl ProtocolVersion {
    pub open spec fn spec_code(self) -> u8 {
        1
    }

    pub open spec fn from_code(c: u8) -> Option<ProtocolVersion> {
        if c == 1 {
            Some(ProtocolVersion::Mls10)
        } else {
            None
        }
    }

    pub fn code(self) -> (r: u8)
        ensures
            r == self.spec_code(),
    {
        1
    }

    pub fn decode_code(c: u8) -> (r: Option<ProtocolVersion>)
        ensures
            r == ProtocolVersion::from_code(c),
    {
        if c == 1 {
            Some(ProtocolVersion::Mls10)
        } else {
            None
        }
    }
}

/// Signature schemes, by their two-byte wire codes.
#[allow(non_camel_case_types)]
#[derive(Debug, Clone, Copy, PartialEq, Eq, Structural)]
pub enum SignatureScheme {
    ECDSA_SECP256R1_SHA256,
    ECDSA_SECP521R1_SHA512,
    ED25519,
    ED448,
}

impl SignatureScheme {
    pub open spec fn spec_code(self) -> u16 {
        match self {
            SignatureScheme::ECDSA_SECP256R1_SHA256 => 0x0403,
            SignatureScheme::ECDSA_SECP521R1_SHA512 => 0x0603,
            SignatureScheme::ED25519 => 0x0807,
            SignatureScheme::ED448 => 0x0808,
        }
    }

    pub open spec fn from_code(c: u16) -> Option<SignatureScheme> {
        if c == 0x0403 {
            Some(SignatureScheme::ECDSA_SECP256R1_SHA256)
        } else if c == 0x0603 {
            Some(SignatureScheme::ECDSA_SECP521R1_SHA512)
        } else if c == 0x0807 {
            Some(SignatureScheme::ED25519)
        } else if c == 0x0808 {
            Some(SignatureScheme::ED448)
        } else {
            None
        }
    }

    pub fn code(self) -> (r: u16)
        ensures
            r == self.spec_code(),
            SignatureScheme::from_code(r) == Some(self),
    {
        match self {
            SignatureScheme::ECDSA_SECP256R1_SHA256 => 0x0403,
            SignatureScheme::ECDSA_SECP521R1_SHA512 => 0x0603,
            SignatureScheme::ED25519 => 0x0807,
            SignatureScheme::ED448 => 0x0808,
        }
    }

    pub fn decode_code(c: u16) -> (r: Option<SignatureScheme>)
        ensures
            r == SignatureScheme::from_code(c),
    {
        if c == 0x0403 {
            Some(SignatureScheme::ECDSA_SECP256R1_SHA256)
        } else if c == 0x0603 {
            Some(SignatureScheme::ECDSA_SECP521R1_SHA512)
        } else if c == 0x0807 {
            Some(SignatureScheme::ED25519)
        } else if c == 0x0808 {
            Some(SignatureScheme::ED448)
        } else {
            None
        }
    }
}

/// Named bundles of algorithm choices, by their two-byte wire codes.
#[allow(non_camel_case_types)]
#[derive(Debug, Clone, Copy, PartialEq, Eq, Structural)]
pub enum CiphersuiteName {
    MLS10_128_DHKEMX25519_AES128GCM_SHA256_Ed25519,
    MLS10_128_DHKEMP256_AES128GCM_SHA256_P256,
    MLS10_128_DHKEMX25519_CHACHA20POLY1305_SHA256_Ed25519,
    MLS10_256_DHKEMX448_AES256GCM_SHA512_Ed448,
    MLS10_256_DHKEMP521_AES256GCM_SHA512_P521,
    MLS10_256_DHKEMX448_CHACHA20POLY1305_SHA512_Ed448,
}

impl CiphersuiteName {
    pub open spec fn spec_code(self) -> u16 {
        match self {
            CiphersuiteName::MLS10_128_DHKEMX25519_AES128GCM_SHA256_Ed25519 => 1,
            CiphersuiteName::MLS10_128_DHKEMP256_AES128GCM_SHA256_P256 => 2,
            CiphersuiteName::MLS10_128_DHKEMX25519_CHACHA20POLY1305_SHA256_Ed25519 => 3,
            CiphersuiteName::MLS10_256_DHKEMX448_AES256GCM_SHA512_Ed448 => 4,
            CiphersuiteName::MLS10_256_DHKEMP521_AES256GCM_SHA512_P521 => 5,
            CiphersuiteName::MLS10_256_DHKEMX448_CHACHA20POLY1305_SHA512_Ed448 => 6,
        }
    }

    pub open spec fn from_code(c: u16) -> Option<CiphersuiteName> {
        if c == 1 {
            Some(CiphersuiteName::MLS10_128_DHKEMX25519_AES128GCM_SHA256_Ed25519)
        } else if c == 2 {
            Some(CiphersuiteName::MLS10_128_DHKEMP256_AES128GCM_SHA256_P256)
        } else if c == 3 {
            Some(CiphersuiteName::MLS10_128_DHKEMX25519_CHACHA20POLY1305_SHA256_Ed25519)
        } else if c == 4 {
            Some(CiphersuiteName::MLS10_256_DHKEMX448_AES256GCM_SHA512_Ed448)
        } else if c == 5 {
            Some(CiphersuiteName::MLS10_256_DHKEMP521_AES256GCM_SHA512_P521)
        } else if c == 6 {
            Some(CiphersuiteName::MLS10_256_DHKEMX448_CHACHA20POLY1305_SHA512_Ed448)
        } else {
            None
        }
    }

    /// The signature scheme that the suite mandates.
    pub open spec fn spec_signature_scheme(self) -> SignatureScheme {
        match self {
            CiphersuiteName::MLS10_128_DHKEMX25519_AES128GCM_SHA256_Ed25519 => SignatureScheme::ED25519,
            CiphersuiteName::MLS10_128_DHKEMP256_AES128GCM_SHA256_P256 => SignatureScheme::ECDSA_SECP256R1_SHA256,
            CiphersuiteName::MLS10_128_DHKEMX25519_CHACHA20POLY1305_SHA256_Ed25519 => SignatureScheme::ED25519,
            CiphersuiteName::MLS10_256_DHKEMX448_AES256GCM_SHA512_Ed448 => SignatureScheme::ED448,
            CiphersuiteName::MLS10_256_DHKEMP521_AES256GCM_SHA512_P521 => SignatureScheme::ECDSA_SECP521R1_SHA512,
            CiphersuiteName::MLS10_256_DHKEMX448_CHACHA20POLY1305_SHA512_Ed448 => SignatureScheme::ED448,
        }
    }

    /// The suite that the wire format knows but whose signature algorithm has
    /// no implementation here: its key packages are carried without any
    /// signature check (see `KeyPackage::decode`).
    pub open spec fn spec_is_unverified(self) -> bool {
        self == CiphersuiteName::MLS10_256_DHKEMP521_AES256GCM_SHA512_P521
    }

    /// The suites whose primitives this library has.
    pub open spec fn spec_is_supported(self) -> bool {
        ||| self == CiphersuiteName::MLS10_128_DHKEMX25519_AES128GCM_SHA256_Ed25519
        ||| self == CiphersuiteName::MLS10_128_DHKEMP256_AES128GCM_SHA256_P256
        ||| self == CiphersuiteName::MLS10_128_DHKEMX25519_CHACHA20POLY1305_SHA256_Ed25519
    }

    pub fn code(self) -> (r: u16)
        ensures
            r == self.spec_code(),
            CiphersuiteName::from_code(r) == Some(self),
    {
        match self {
            CiphersuiteName::MLS10_128_DHKEMX25519_AES128GCM_SHA256_Ed25519 => 1,
            CiphersuiteName::MLS10_128_DHKEMP256_AES128GCM_SHA256_P256 => 2,
            CiphersuiteName::MLS10_128_DHKEMX25519_CHACHA20POLY1305_SHA256_Ed25519 => 3,
            CiphersuiteName::MLS10_256_DHKEMX448_AES256GCM_SHA512_Ed448 => 4,
            CiphersuiteName::MLS10_256_DHKEMP521_AES256GCM_SHA512_P521 => 5,
            CiphersuiteName::MLS10_256_DHKEMX448_CHACHA20POLY1305_SHA512_Ed448 => 6,
        }
    }

    pub fn decode_code(c: u16) -> (r: Option<CiphersuiteName>)
        ensures
            r == CiphersuiteName::from_code(c),
    {
        if c == 1 {
            Some(CiphersuiteName::MLS10_128_DHKEMX25519_AES128GCM_SHA256_Ed25519)
        } else if c == 2 {
            Some(CiphersuiteName::MLS10_128_DHKEMP256_AES128GCM_SHA256_P256)
        } else if c == 3 {
            Some(CiphersuiteName::MLS10_128_DHKEMX25519_CHACHA20POLY1305_SHA256_Ed25519)
        } else if c == 4 {
            Some(CiphersuiteName::MLS10_256_DHKEMX448_AES256GCM_SHA512_Ed448)
        } else if c == 5 {
            Some(CiphersuiteName::MLS10_256_DHKEMP521_AES256GCM_SHA512_P521)
        } else if c == 6 {
            Some(CiphersuiteName::MLS10_256_DHKEMX448_CHACHA20POLY1305_SHA512_Ed448)
        } else {
            None
        }
    }

    pub fn signature_scheme(self) -> (r: SignatureScheme)
        ensures
            r == self.spec_signature_scheme(),
    {
        match self {
            CiphersuiteName::MLS10_128_DHKEMX25519_AES128GCM_SHA256_Ed25519 => SignatureScheme::ED25519,
            CiphersuiteName::MLS10_128_DHKEMP256_AES128GCM_SHA256_P256 => SignatureScheme::ECDSA_SECP256R1_SHA256,
            CiphersuiteName::MLS10_128_DHKEMX25519_CHACHA20POLY1305_SHA256_Ed25519 => SignatureScheme::ED25519,
            CiphersuiteName::MLS10_256_DHKEMX448_AES256GCM_SHA512_Ed448 => SignatureScheme::ED448,
            CiphersuiteName::MLS10_256_DHKEMP521_AES256GCM_SHA512_P521 => SignatureScheme::ECDSA_SECP521R1_SHA512,
            CiphersuiteName::MLS10_256_DHKEMX448_CHACHA20POLY1305_SHA512_Ed448 => SignatureScheme::ED448,
        }
    }

    pub fn is_unverified(self) -> (r: bool)
        ensures
            r == self.spec_is_unverified(),
    {
        matches!(self, CiphersuiteName::MLS10_256_DHKEMP521_AES256GCM_SHA512_P521)
    }
}

impl From<CiphersuiteName> for SignatureScheme {
    fn from(name: CiphersuiteName) -> (r: SignatureScheme) {
        name.signature_scheme()
    }
}

impl vstd::std_specs::convert::FromSpecImpl<CiphersuiteName> for SignatureScheme {
    open spec fn obeys_from_spec() -> bool {
        true
    }

    open spec fn from_spec(name: CiphersuiteName) -> SignatureScheme {
        name.spec_signature_scheme()
    }
}

/// What a ciphersuite name resolves to.
#[derive(Debug, Clone, Copy, PartialEq, Eq, Structural)]
pub struct Ciphersuite {
    pub name: CiphersuiteName,
    pub signature_scheme: SignatureScheme,
}

impl Ciphersuite {
    pub fn name(&self) -> (r: CiphersuiteName)
        ensures
            r == self.name,
    {
        self.name
    }

    pub fn signature_scheme(&self) -> (r: SignatureScheme)
        ensures
            r == self.signature_scheme,
    {
        self.signature_scheme
    }
}

/// A name that the registry does not resolve.
#[derive(Debug, Clone, Copy, PartialEq, Eq, Structural)]
pub enum ConfigError {
    UnsupportedCiphersuite,
}

/// The registry of the suites this library implements.
#[derive(Debug, Clone, Copy, PartialEq, Eq, Structural)]
pub struct Config {}

/// The descriptor of a supported suite.
pub open spec fn descriptor_of(name: CiphersuiteName) -> Ciphersuite {
    Ciphersuite { name, signature_scheme: name.spec_signature_scheme() }
}

/// The stand-in descriptor that a key package of the unverified suite
/// carries after decoding: that of the P-256 suite, never used to check a
/// signature.
pub open spec fn placeholder_descriptor() -> Ciphersuite {
    descriptor_of(CiphersuiteName::MLS10_128_DHKEMP256_AES128GCM_SHA256_P256)
}

impl Config {
    /// Resolves a name to its descriptor.
    pub fn ciphersuite(name: CiphersuiteName) -> (r: Result<Ciphersuite, ConfigError>)
        ensures
            name.spec_is_supported() ==> r == Ok::<Ciphersuite, ConfigError>(descriptor_of(name)),
            !name.spec_is_supported() ==> r == Err::<Ciphersuite, ConfigError>(
                ConfigError::UnsupportedCiphersuite,
            ),
    {
        match name {
            CiphersuiteName::MLS10_128_DHKEMX25519_AES128GCM_SHA256_Ed25519
            | CiphersuiteName::MLS10_128_DHKEMP256_AES128GCM_SHA256_P256
            | CiphersuiteName::MLS10_128_DHKEMX25519_CHACHA20POLY1305_SHA256_Ed25519 => Ok(
                Ciphersuite { name, signature_scheme: name.signature_scheme() },
            ),
            _ => Err(ConfigError::UnsupportedCiphersuite),
        }
    }

    /// The descriptors of all supported suites, in code order.
    pub fn supported_ciphersuites() -> (r: Vec<Ciphersuite>)
        ensures
            r@ == seq![
                descriptor_of(CiphersuiteName::MLS10_128_DHKEMX25519_AES128GCM_SHA256_Ed25519),
                descriptor_of(CiphersuiteName::MLS10_128_DHKEMP256_AES128GCM_SHA256_P256),
                descriptor_of(CiphersuiteName::MLS10_128_DHKEMX25519_CHACHA20POLY1305_SHA256_Ed25519),
            ],
    {
        let mut v: Vec<Ciphersuite> = Vec::new();
        let a = CiphersuiteName::MLS10_128_DHKEMX25519_AES128GCM_SHA256_Ed25519;
        let b = CiphersuiteName::MLS10_128_DHKEMP256_AES128GCM_SHA256_P256;
        let c = CiphersuiteName::MLS10_128_DHKEMX25519_CHACHA20POLY1305_SHA256_Ed25519;
        v.push(Ciphersuite { name: a, signature_scheme: a.signature_scheme() });
        v.push(Ciphersuite { name: b, signature_scheme: b.signature_scheme() });
        v.push(Ciphersuite { name: c, signature_scheme: c.signature_scheme() });
        assert(v@ =~= seq![descriptor_of(a), descriptor_of(b), descriptor_of(c)]);
        v
    }

    /// The descriptor that decoding attaches to a key package of `name`:
    /// the registry's for a supported suite, the stand-in for the unverified
    /// one, and none for the rest.
    pub fn decoded_descriptor(name: CiphersuiteName) -> (r: Option<Ciphersuite>)
        ensures
            r == decoded_descriptor_of(name),
    {
        if name.is_unverified() {
            let p = CiphersuiteName::MLS10_128_DHKEMP256_AES128GCM_SHA256_P256;
            Some(Ciphersuite { name: p, signature_scheme: p.signature_scheme() })
        } else {
            match Config::ciphersuite(name) {
                Ok(c) => Some(c),
                Err(_) => None,
            }
        }
    }
}

pub open spec fn decoded_descriptor_of(name: CiphersuiteName) -> Option<Ciphersuite> {
    if name.spec_is_unverified() {
        Some(placeholder_descriptor())
    } else if name.spec_is_supported() {
        Some(descriptor_of(name))
    } else {
        None
    }
}

} // verus!
