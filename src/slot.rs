use crate::error::PivError;
use vstd::prelude::*;

verus! {

/// Key algorithms a PIV slot can hold.
#[derive(Debug, Clone, Copy, PartialEq, Eq, Structural)]
pub enum PivAlgorithm {
    Rsa1024,
    Rsa2048,
    EcP256,
    EcP384,
    Ed25519,
}

/// The algorithm byte used on the wire.
pub open spec fn algorithm_byte(alg: PivAlgorithm) -> u8 {
    match alg {
        PivAlgorithm::Rsa1024 => 0x06,
        PivAlgorithm::Rsa2048 => 0x07,
        PivAlgorithm::EcP256 => 0x11,
        PivAlgorithm::EcP384 => 0x14,
        PivAlgorithm::Ed25519 => 0x22,
    }
}

impl PivAlgorithm {
    pub fn to_byte(&self) -> (r: u8)
        ensures
            r == algorithm_byte(*self),
    {
        match self {
            PivAlgorithm::Rsa1024 => 0x06,
            PivAlgorithm::Rsa2048 => 0x07,
            PivAlgorithm::EcP256 => 0x11,
            PivAlgorithm::EcP384 => 0x14,
            PivAlgorithm::Ed25519 => 0x22,
        }
    }
}

/// The data-object tag that holds the certificate of a slot, if the slot is
/// one of PIV's key slots.
pub open spec fn cert_tag_of(slot_id: u8) -> Option<u32> {
    if slot_id == 0x9A {
        Some(0x5FC105)
    } else if slot_id == 0x9C {
        Some(0x5FC10A)
    } else if slot_id == 0x9D {
        Some(0x5FC10B)
    } else if slot_id == 0x9E {
        Some(0x5FC101)
    } else if 0x82 <= slot_id <= 0x95 {
        Some((0x5FC10D + (slot_id - 0x82)) as u32)
    } else {
        None
    }
}

/// Map a PIV slot ID to the data-object tag of its certificate.
pub fn slot_to_cert_tag(slot_id: u8) -> (r: Option<u32>)
    ensures
        r == cert_tag_of(slot_id),
{
    if slot_id == 0x9A {
        Some(0x5FC105)
    } else if slot_id == 0x9C {
        Some(0x5FC10A)
    } else if slot_id == 0x9D {
        Some(0x5FC10B)
    } else if slot_id == 0x9E {
        Some(0x5FC101)
    } else if 0x82 <= slot_id && slot_id <= 0x95 {
        Some(0x5FC10D + (slot_id - 0x82) as u32)
    } else {
        None
    }
}

/// Standard PIV slots, probed before the retired ones.
pub const STANDARD_SLOTS: [u8; 4] = [0x9A, 0x9C, 0x9D, 0x9E];

/// The slots in the order they are read: the standard slots, then the retired
/// key-management slots 0x82 to 0x95.
pub open spec fn slot_order() -> Seq<u8> {
    seq![0x9Au8, 0x9Cu8, 0x9Du8, 0x9Eu8] + Seq::new(20, |i: int| (0x82 + i) as u8)
}

/// The slots in the order they are read.
pub fn all_slot_ids() -> (r: Vec<u8>)
    ensures
        r@ == slot_order(),
{
    let mut r: Vec<u8> = Vec::new();
    let mut i: usize = 0;
    while i < 4
        invariant
            i <= 4,
            r@ == seq![0x9Au8, 0x9Cu8, 0x9Du8, 0x9Eu8].subrange(0, i as int),
        decreases 4 - i,
    {
        r.push(STANDARD_SLOTS[i]);
        i = i + 1;
        assert(r@ =~= seq![0x9Au8, 0x9Cu8, 0x9Du8, 0x9Eu8].subrange(0, i as int));
    }
    let mut s: u8 = 0x82;
    while s <= 0x95
        invariant
            0x82 <= s <= 0x96,
            r@ == seq![0x9Au8, 0x9Cu8, 0x9Du8, 0x9Eu8] + Seq::new(
                (s - 0x82) as nat,
                |i: int| (0x82 + i) as u8,
            ),
        decreases 0x96 - s,
    {
        r.push(s);
        s = s + 1;
        assert(r@ =~= seq![0x9Au8, 0x9Cu8, 0x9Du8, 0x9Eu8] + Seq::new(
            (s - 0x82) as nat,
            |i: int| (0x82 + i) as u8,
        ));
    }
    r
}

/// Object identifiers of the two supported curves, as OpenSSL numbers them.
pub const NID_P256: i32 = 415;
pub const NID_P384: i32 = 715;

/// The algorithm of an RSA key from the byte length of its modulus (a
/// leading zero byte allowed): 128 for RSA-1024, 256 for RSA-2048.
pub fn rsa_algorithm(modulus_len: usize) -> (r: Result<PivAlgorithm, PivError>)
    ensures
        modulus_len == 128 || modulus_len == 129 ==> r == Ok::<PivAlgorithm, PivError>(
            PivAlgorithm::Rsa1024,
        ),
        modulus_len == 256 || modulus_len == 257 ==> r == Ok::<PivAlgorithm, PivError>(
            PivAlgorithm::Rsa2048,
        ),
        !(modulus_len == 128 || modulus_len == 129 || modulus_len == 256 || modulus_len == 257)
            ==> r is Err && r->Err_0 is UnsupportedAlgorithm,
{
    if modulus_len == 128 || modulus_len == 129 {
        Ok(PivAlgorithm::Rsa1024)
    } else if modulus_len == 256 || modulus_len == 257 {
        Ok(PivAlgorithm::Rsa2048)
    } else {
        Err(PivError::UnsupportedAlgorithm("RSA key size".to_owned()))
    }
}

/// The algorithm of an EC key from its named curve.
pub fn ec_algorithm(curve_nid: i32) -> (r: Result<PivAlgorithm, PivError>)
    ensures
        curve_nid == NID_P256 ==> r == Ok::<PivAlgorithm, PivError>(PivAlgorithm::EcP256),
        curve_nid == NID_P384 ==> r == Ok::<PivAlgorithm, PivError>(PivAlgorithm::EcP384),
        curve_nid != NID_P256 && curve_nid != NID_P384 ==> r is Err && r->Err_0 is UnsupportedAlgorithm,
{
    if curve_nid == NID_P256 {
        Ok(PivAlgorithm::EcP256)
    } else if curve_nid == NID_P384 {
        Ok(PivAlgorithm::EcP384)
    } else {
        Err(PivError::UnsupportedAlgorithm("EC curve".to_owned()))
    }
}

/// What a certificate's public key is, as far as choosing the algorithm goes.
pub enum CertKeyKind {
    /// An RSA key whose modulus takes `modulus_len` bytes.
    Rsa { modulus_len: usize },
    /// An EC key on the named curve, if the curve is named.
    Ec { curve_nid: Option<i32> },
    /// Any other key type.
    Other,
}

/// The slot algorithm of a certificate's key: RSA by modulus size, EC by
/// named curve; anything else is unsupported.
pub fn cert_key_algorithm(kind: &CertKeyKind) -> (r: Result<PivAlgorithm, PivError>)
    ensures
        match *kind {
            CertKeyKind::Rsa { modulus_len } => if modulus_len == 128 || modulus_len == 129 {
                r == Ok::<PivAlgorithm, PivError>(PivAlgorithm::Rsa1024)
            } else if modulus_len == 256 || modulus_len == 257 {
                r == Ok::<PivAlgorithm, PivError>(PivAlgorithm::Rsa2048)
            } else {
                r is Err && r->Err_0 is UnsupportedAlgorithm
            },
            CertKeyKind::Ec { curve_nid: Some(nid) } => if nid == NID_P256 {
                r == Ok::<PivAlgorithm, PivError>(PivAlgorithm::EcP256)
            } else if nid == NID_P384 {
                r == Ok::<PivAlgorithm, PivError>(PivAlgorithm::EcP384)
            } else {
                r is Err && r->Err_0 is UnsupportedAlgorithm
            },
            _ => r is Err && r->Err_0 is UnsupportedAlgorithm,
        },
{
    match kind {
        CertKeyKind::Rsa { modulus_len } => rsa_algorithm(*modulus_len),
        CertKeyKind::Ec { curve_nid: Some(nid) } => ec_algorithm(*nid),
        CertKeyKind::Ec { curve_nid: None } => Err(
            PivError::UnsupportedAlgorithm("unnamed EC curve".to_owned()),
        ),
        CertKeyKind::Other => Err(PivError::UnsupportedAlgorithm("not an RSA or EC key".to_owned())),
    }
}

/// A key slot read from a card: its ID, algorithm, certificate, and public
/// key in SSH wire encoding.
pub struct PivSlot {
    id: u8,
    algorithm: PivAlgorithm,
    cert_der: Vec<u8>,
    public_key: Vec<u8>,
}

impl PivSlot {
    pub closed spec fn spec_id(&self) -> u8 {
        self.id
    }

    pub closed spec fn spec_algorithm(&self) -> PivAlgorithm {
        self.algorithm
    }

    pub closed spec fn spec_cert_der(&self) -> Seq<u8> {
        self.cert_der@
    }

    pub closed spec fn spec_public_key(&self) -> Seq<u8> {
        self.public_key@
    }

    pub fn new(id: u8, algorithm: PivAlgorithm, cert_der: Vec<u8>, public_key: Vec<u8>) -> (r: Self)
        ensures
            r.spec_id() == id,
            r.spec_algorithm() == algorithm,
            r.spec_cert_der() == cert_der@,
            r.spec_public_key() == public_key@,
    {
        PivSlot { id, algorithm, cert_der, public_key }
    }

    pub fn id(&self) -> (r: u8)
        ensures
            r == self.spec_id(),
    {
        self.id
    }

    pub fn algorithm(&self) -> (r: PivAlgorithm)
        ensures
            r == self.spec_algorithm(),
    {
        self.algorithm
    }

    /// The public key in SSH wire encoding.
    pub fn public_key(&self) -> (r: &[u8])
        ensures
            r@ == self.spec_public_key(),
    {
        self.public_key.as_slice()
    }

    pub fn cert_der(&self) -> (r: &[u8])
        ensures
            r@ == self.spec_cert_der(),
    {
        self.cert_der.as_slice()
    }
}

} // verus!
