use crate::error::SignError;
use crate::slot::PivAlgorithm;
use sha2::Digest;
use vstd::prelude::*;
use vstd::slice::slice_subrange;

verus! {

/// Agent sign-request flag: RSA signature with SHA-256.
pub const RSA_SHA2_256: u32 = 0x02;

/// Agent sign-request flag: RSA signature with SHA-512.
pub const RSA_SHA2_512: u32 = 0x04;

/// DigestInfo DER prefix for SHA-256:
/// SEQUENCE { SEQUENCE { OID sha256, NULL }, OCTET STRING (32) }.
pub const RSA_DIGEST_PREFIX_SHA256: [u8; 19] = [
    0x30, 0x31, 0x30, 0x0d, 0x06, 0x09, 0x60, 0x86, 0x48, 0x01, 0x65, 0x03, 0x04, 0x02, 0x01,
    0x05, 0x00, 0x04, 0x20,
];

/// DigestInfo DER prefix for SHA-512:
/// SEQUENCE { SEQUENCE { OID sha512, NULL }, OCTET STRING (64) }.
pub const RSA_DIGEST_PREFIX_SHA512: [u8; 19] = [
    0x30, 0x51, 0x30, 0x0d, 0x06, 0x09, 0x60, 0x86, 0x48, 0x01, 0x65, 0x03, 0x04, 0x02, 0x03,
    0x05, 0x00, 0x04, 0x40,
];

/// The SHA-256 digest of a message.
pub uninterp spec fn sha256_of(data: Seq<u8>) -> Seq<u8>;

/// The SHA-384 digest of a message.
pub uninterp spec fn sha384_of(data: Seq<u8>) -> Seq<u8>;

/// The SHA-512 digest of a message.
pub uninterp spec fn sha512_of(data: Seq<u8>) -> Seq<u8>;

/// Relies on sha2::Sha256::digest: a function of the message, 32 bytes long.
#[verifier::external_body]
fn sha256(data: &[u8]) -> (r: Vec<u8>)
    ensures
        r@ == sha256_of(data@),
        r@.len() == 32,
{
    sha2::Sha256::digest(data).to_vec()
}

/// Relies on sha2::Sha384::digest: a function of the message, 48 bytes long.
#[verifier::external_body]
fn sha384(data: &[u8]) -> (r: Vec<u8>)
    ensures
        r@ == sha384_of(data@),
        r@.len() == 48,
{
    sha2::Sha384::digest(data).to_vec()
}

/// Relies on sha2::Sha512::digest: a function of the message, 64 bytes long.
#[verifier::external_body]
fn sha512(data: &[u8]) -> (r: Vec<u8>)
    ensures
        r@ == sha512_of(data@),
        r@.len() == 64,
{
    sha2::Sha512::digest(data).to_vec()
}

/// Whether the flags ask for an RSA signature with SHA-512; anything else,
/// no flag included, means SHA-256.
pub open spec fn wants_sha512(flags: u32) -> bool {
    flags & RSA_SHA2_512 != 0
}

/// The RSA key size in bytes, for the RSA algorithms.
pub open spec fn rsa_key_size(alg: PivAlgorithm) -> nat {
    match alg {
        PivAlgorithm::Rsa1024 => 128,
        _ => 256,
    }
}

/// The DigestInfo of a message for an RSA signature with the hash the flags choose.
pub open spec fn rsa_digest_info(data: Seq<u8>, flags: u32) -> Seq<u8> {
    if wants_sha512(flags) {
        RSA_DIGEST_PREFIX_SHA512@ + sha512_of(data)
    } else {
        RSA_DIGEST_PREFIX_SHA256@ + sha256_of(data)
    }
}

/// The PKCS#1 v1.5 signing block of `key_size` bytes around a DigestInfo:
/// `00 01 | FF ... FF | 00 | digest_info`.
pub open spec fn pkcs1_block(digest_info: Seq<u8>, key_size: nat) -> Seq<u8> {
    seq![0x00u8, 0x01u8] + Seq::new(
        (key_size - digest_info.len() - 3) as nat,
        |i: int| 0xFFu8,
    ) + seq![0x00u8] + digest_info
}

/// The shape of a PKCS#1 v1.5 signing block: `key_size` bytes, `00 01`, a
/// run of at least 8 `FF` bytes, one `00` separator, then `prefix || hash`.
pub open spec fn is_pkcs1_block(b: Seq<u8>, key_size: nat, prefix: Seq<u8>, hash: Seq<u8>) -> bool {
    let pad = key_size - prefix.len() - hash.len() - 3;
    &&& b.len() == key_size
    &&& b[0] == 0x00 && b[1] == 0x01
    &&& pad >= 8
    &&& forall|i: int| 2 <= i < 2 + pad ==> b[i] == 0xFF
    &&& b[2 + pad] == 0x00
    &&& b.subrange(3 + pad, key_size as int) == prefix + hash
    &&& b.subrange(key_size - hash.len(), key_size as int) == hash
}

/// A PKCS#1 v1.5 block built for a key of at least the DigestInfo plus 11
/// bytes has the full block shape, and ends in the digest it was built from.
pub proof fn lemma_pkcs1_block_shape(prefix: Seq<u8>, hash: Seq<u8>, key_size: nat)
    requires
        key_size >= prefix.len() + hash.len() + 11,
    ensures
        is_pkcs1_block(pkcs1_block(prefix + hash, key_size), key_size, prefix, hash),
{
    let b = pkcs1_block(prefix + hash, key_size);
    let pad = key_size - prefix.len() - hash.len() - 3;
    assert(b.subrange(3 + pad, key_size as int) =~= prefix + hash);
    assert(b.subrange(key_size - hash.len(), key_size as int) =~= hash);
}

/// What the card is asked to sign for a message: the SHA-256 or SHA-384
/// digest for ECDSA, the padded DigestInfo for RSA, the message itself for
/// Ed25519.
pub open spec fn prepared_input(alg: PivAlgorithm, data: Seq<u8>, flags: u32) -> Seq<u8> {
    match alg {
        PivAlgorithm::EcP256 => sha256_of(data),
        PivAlgorithm::EcP384 => sha384_of(data),
        PivAlgorithm::Ed25519 => data,
        _ => pkcs1_block(rsa_digest_info(data, flags), rsa_key_size(alg)),
    }
}

/// Build the PKCS#1 v1.5 block of `key_size` bytes for `prefix || hash`.
/// Fails when the key is smaller than the DigestInfo plus 11 bytes.
pub fn pkcs1_v15_pad(hash: &[u8], digest_prefix: &[u8], key_size: usize) -> (r: Result<
    Vec<u8>,
    SignError,
>)
    ensures
        key_size < digest_prefix@.len() + hash@.len() + 11 ==> r == Err::<Vec<u8>, SignError>(
            SignError::KeyTooSmall,
        ),
        key_size >= digest_prefix@.len() + hash@.len() + 11 ==> r is Ok && r->Ok_0@
            == pkcs1_block(digest_prefix@ + hash@, key_size as nat),
{
    if key_size < 11 || key_size - 11 < digest_prefix.len() || key_size - 11 - digest_prefix.len()
        < hash.len() {
        return Err(SignError::KeyTooSmall);
    }
    let pad_len = key_size - digest_prefix.len() - hash.len() - 3;
    let mut block: Vec<u8> = Vec::new();
    block.push(0x00);
    block.push(0x01);
    let mut i: usize = 0;
    while i < pad_len
        invariant
            i <= pad_len,
            block@ == seq![0x00u8, 0x01u8] + Seq::new(i as nat, |j: int| 0xFFu8),
        decreases pad_len - i,
    {
        block.push(0xFF);
        i = i + 1;
        assert(block@ =~= seq![0x00u8, 0x01u8] + Seq::new(i as nat, |j: int| 0xFFu8));
    }
    block.push(0x00);
    let ghost head = block@;
    let mut k: usize = 0;
    while k < digest_prefix.len()
        invariant
            k <= digest_prefix@.len(),
            block@ == head + digest_prefix@.subrange(0, k as int),
        decreases digest_prefix@.len() - k,
    {
        block.push(digest_prefix[k]);
        k = k + 1;
        assert(digest_prefix@.subrange(0, k as int) =~= digest_prefix@.subrange(0, k - 1) + seq![
            digest_prefix@[k - 1],
        ]);
        assert(block@ =~= head + digest_prefix@.subrange(0, k as int));
    }
    assert(digest_prefix@.subrange(0, k as int) =~= digest_prefix@);
    let ghost mid = block@;
    k = 0;
    while k < hash.len()
        invariant
            k <= hash@.len(),
            block@ == mid + hash@.subrange(0, k as int),
        decreases hash@.len() - k,
    {
        block.push(hash[k]);
        k = k + 1;
        assert(hash@.subrange(0, k as int) =~= hash@.subrange(0, k - 1) + seq![hash@[k - 1]]);
        assert(block@ =~= mid + hash@.subrange(0, k as int));
    }
    assert(hash@.subrange(0, k as int) =~= hash@);
    assert(block@ =~= pkcs1_block(digest_prefix@ + hash@, key_size as nat));
    Ok(block)
}

/// Hash and pad a message into what the card signs for `alg`: the digest for
/// ECDSA, the PKCS#1 v1.5 block with SHA-512 when the flags ask for it and
/// SHA-256 otherwise for RSA, and the message itself for Ed25519.
pub fn prepare_sign_data(alg: PivAlgorithm, data: &[u8], flags: u32) -> (r: Result<
    Vec<u8>,
    SignError,
>)
    ensures
        r is Ok,
        r->Ok_0@ == prepared_input(alg, data@, flags),
        alg == PivAlgorithm::Rsa1024 || alg == PivAlgorithm::Rsa2048 ==> if wants_sha512(flags) {
            is_pkcs1_block(r->Ok_0@, rsa_key_size(alg), RSA_DIGEST_PREFIX_SHA512@, sha512_of(data@))
        } else {
            is_pkcs1_block(r->Ok_0@, rsa_key_size(alg), RSA_DIGEST_PREFIX_SHA256@, sha256_of(data@))
        },
{
    match alg {
        PivAlgorithm::EcP256 => Ok(sha256(data)),
        PivAlgorithm::EcP384 => Ok(sha384(data)),
        PivAlgorithm::Ed25519 => Ok(vstd::slice::slice_to_vec(data)),
        PivAlgorithm::Rsa1024 | PivAlgorithm::Rsa2048 => {
            let key_size: usize = match alg {
                PivAlgorithm::Rsa1024 => 128,
                _ => 256,
            };
            if flags & RSA_SHA2_512 != 0 {
                let hash = sha512(data);
                proof {
                    lemma_pkcs1_block_shape(RSA_DIGEST_PREFIX_SHA512@, hash@, key_size as nat);
                }
                pkcs1_v15_pad(hash.as_slice(), RSA_DIGEST_PREFIX_SHA512.as_slice(), key_size)
            } else {
                let hash = sha256(data);
                proof {
                    lemma_pkcs1_block_shape(RSA_DIGEST_PREFIX_SHA256@, hash@, key_size as nat);
                }
                pkcs1_v15_pad(hash.as_slice(), RSA_DIGEST_PREFIX_SHA256.as_slice(), key_size)
            }
        },
    }
}

/// The `(r, s)` integers of a DER ECDSA signature
/// `30 len 02 rlen r 02 slen s` with one-byte lengths, or `None`.
pub open spec fn der_ecdsa(d: Seq<u8>) -> Option<(Seq<u8>, Seq<u8>)> {
    if d.len() < 6 || d[0] != 0x30 || d[2] != 0x02 {
        None
    } else {
        let rl = d[3] as int;
        if 4 + rl + 2 > d.len() || d[4 + rl] != 0x02 {
            None
        } else {
            let sl = d[5 + rl] as int;
            if 6 + rl + sl > d.len() {
                None
            } else {
                Some((d.subrange(4, 4 + rl), d.subrange(6 + rl, 6 + rl + sl)))
            }
        }
    }
}

/// Decode a DER ECDSA signature `SEQUENCE { INTEGER r, INTEGER s }` into the
/// big-endian bytes of `r` and `s`, kept as they are.
pub fn decode_der_ecdsa_signature(der: &[u8]) -> (r: Result<(Vec<u8>, Vec<u8>), SignError>)
    ensures
        match der_ecdsa(der@) {
            Some((rr, ss)) => r is Ok && r->Ok_0.0@ == rr && r->Ok_0.1@ == ss,
            None => r == Err::<(Vec<u8>, Vec<u8>), SignError>(SignError::MalformedSignature),
        },
{
    let len = der.len();
    if len < 6 || der[0] != 0x30 || der[2] != 0x02 {
        return Err(SignError::MalformedSignature);
    }
    let r_len = der[3] as usize;
    if r_len + 6 > len || der[4 + r_len] != 0x02 {
        return Err(SignError::MalformedSignature);
    }
    let s_len = der[5 + r_len] as usize;
    if 6 + r_len + s_len > len {
        return Err(SignError::MalformedSignature);
    }
    let r = vstd::slice::slice_to_vec(slice_subrange(der, 4, 4 + r_len));
    let s = vstd::slice::slice_to_vec(slice_subrange(der, 6 + r_len, 6 + r_len + s_len));
    Ok((r, s))
}

/// The four big-endian bytes of a 32-bit length.
pub open spec fn be32(n: nat) -> Seq<u8> {
    seq![
        (n / 0x100_0000) as u8,
        ((n / 0x1_0000) % 0x100) as u8,
        ((n / 0x100) % 0x100) as u8,
        (n % 0x100) as u8,
    ]
}

/// The SSH ECDSA signature blob: each integer as a length-prefixed string.
pub open spec fn ssh_ecdsa_blob(r: Seq<u8>, s: Seq<u8>) -> Seq<u8> {
    be32(r.len()) + r + be32(s.len()) + s
}

fn push_be32(buf: &mut Vec<u8>, n: u32)
    ensures
        final(buf)@ == old(buf)@ + be32(n as nat),
{
    buf.push((n / 0x100_0000) as u8);
    buf.push(((n / 0x1_0000) % 0x100) as u8);
    buf.push(((n / 0x100) % 0x100) as u8);
    buf.push((n % 0x100) as u8);
    assert(buf@ =~= old(buf)@ + be32(n as nat));
}

fn push_bytes(buf: &mut Vec<u8>, s: &[u8])
    ensures
        final(buf)@ == old(buf)@ + s@,
{
    let mut i: usize = 0;
    while i < s.len()
        invariant
            i <= s@.len(),
            buf@ == old(buf)@ + s@.subrange(0, i as int),
        decreases s@.len() - i,
    {
        buf.push(s[i]);
        i = i + 1;
        assert(s@.subrange(0, i as int) =~= s@.subrange(0, i - 1) + seq![s@[i - 1]]);
        assert(buf@ =~= old(buf)@ + s@.subrange(0, i as int));
    }
    assert(s@.subrange(0, i as int) =~= s@);
}

/// Encode `(r, s)` as the SSH ECDSA signature blob:
/// `len(r) || r || len(s) || s` with 32-bit big-endian lengths.
pub fn encode_ecdsa_ssh_signature(r: &[u8], s: &[u8]) -> (out: Vec<u8>)
    requires
        r@.len() <= u32::MAX,
        s@.len() <= u32::MAX,
    ensures
        out@ == ssh_ecdsa_blob(r@, s@),
{
    let mut buf: Vec<u8> = Vec::new();
    push_be32(&mut buf, r.len() as u32);
    push_bytes(&mut buf, r);
    push_be32(&mut buf, s.len() as u32);
    push_bytes(&mut buf, s);
    assert(buf@ =~= ssh_ecdsa_blob(r@, s@));
    buf
}

/// A signature in SSH form: the algorithm name and the signature blob.
pub struct SshSignature {
    pub algorithm: String,
    pub blob: Vec<u8>,
}

/// The SSH algorithm name of a signature made by `alg` under `flags`.
pub open spec fn ssh_algorithm_name(alg: PivAlgorithm, flags: u32) -> Seq<char> {
    match alg {
        PivAlgorithm::EcP256 => "ecdsa-sha2-nistp256"@,
        PivAlgorithm::EcP384 => "ecdsa-sha2-nistp384"@,
        PivAlgorithm::Ed25519 => "ssh-ed25519"@,
        _ => if wants_sha512(flags) {
            "rsa-sha2-512"@
        } else {
            "rsa-sha2-256"@
        },
    }
}

/// Convert the card's signature to SSH form: DER ECDSA becomes the SSH
/// ECDSA blob; RSA and Ed25519 signatures pass through unchanged.
pub fn to_ssh_signature(alg: PivAlgorithm, sig_bytes: &[u8], flags: u32) -> (r: Result<
    SshSignature,
    SignError,
>)
    ensures
        match alg {
            PivAlgorithm::EcP256 | PivAlgorithm::EcP384 => match der_ecdsa(sig_bytes@) {
                Some((rr, ss)) => r is Ok && r->Ok_0.algorithm@ == ssh_algorithm_name(alg, flags)
                    && r->Ok_0.blob@ == ssh_ecdsa_blob(rr, ss),
                None => r == Err::<SshSignature, SignError>(SignError::MalformedSignature),
            },
            _ => r is Ok && r->Ok_0.algorithm@ == ssh_algorithm_name(alg, flags) && r->Ok_0.blob@
                == sig_bytes@,
        },
{
    match alg {
        PivAlgorithm::EcP256 | PivAlgorithm::EcP384 => {
            let name = match alg {
                PivAlgorithm::EcP256 => "ecdsa-sha2-nistp256".to_owned(),
                _ => "ecdsa-sha2-nistp384".to_owned(),
            };
            match decode_der_ecdsa_signature(sig_bytes) {
                Ok((rr, ss)) => {
                    let blob = encode_ecdsa_ssh_signature(rr.as_slice(), ss.as_slice());
                    Ok(SshSignature { algorithm: name, blob })
                },
                Err(e) => Err(e),
            }
        },
        PivAlgorithm::Rsa1024 | PivAlgorithm::Rsa2048 => {
            let name = if flags & RSA_SHA2_512 != 0 {
                "rsa-sha2-512".to_owned()
            } else {
                "rsa-sha2-256".to_owned()
            };
            Ok(SshSignature { algorithm: name, blob: vstd::slice::slice_to_vec(sig_bytes) })
        },
        PivAlgorithm::Ed25519 => Ok(
            SshSignature {
                algorithm: "ssh-ed25519".to_owned(),
                blob: vstd::slice::slice_to_vec(sig_bytes),
            },
        ),
    }
}

/// The DER encoding of an ECDSA signature with one-byte lengths.
pub open spec fn der_ecdsa_encoding(r: Seq<u8>, s: Seq<u8>) -> Seq<u8> {
    seq![0x30u8, (4 + r.len() + s.len()) as u8, 0x02u8, r.len() as u8] + r + seq![
        0x02u8,
        s.len() as u8,
    ] + s
}

/// DER to SSH conversion keeps `r` and `s` byte for byte, leading zero bytes
/// included: the DER encoding of any `(r, s)` with one-byte lengths decodes
/// to the same `(r, s)`, and the SSH blob holds each behind its 32-bit length.
pub proof fn lemma_der_to_ssh_keeps_integers(r: Seq<u8>, s: Seq<u8>)
    requires
        r.len() < 0x80,
        s.len() < 0x80,
    ensures
        der_ecdsa(der_ecdsa_encoding(r, s)) == Some((r, s)),
        ({
            let b = ssh_ecdsa_blob(r, s);
            let rl = r.len() as int;
            let sl = s.len() as int;
            &&& b.subrange(0, 4) == be32(r.len())
            &&& b.subrange(4, 4 + rl) == r
            &&& b.subrange(4 + rl, 8 + rl) == be32(s.len())
            &&& b.subrange(8 + rl, 8 + rl + sl) == s
            &&& b.len() == 8 + r.len() + s.len()
        }),
{
    let d = der_ecdsa_encoding(r, s);
    let rl = r.len() as int;
    assert(d[3] as int == rl);
    assert(d[4 + rl] == 0x02);
    assert(d[5 + rl] as int == s.len());
    assert(d.subrange(4, 4 + rl) =~= r);
    assert(d.subrange(6 + rl, 6 + rl + s.len() as int) =~= s);
    let b = ssh_ecdsa_blob(r, s);
    assert(b.subrange(0, 4) =~= be32(r.len()));
    assert(b.subrange(4, 4 + rl) =~= r);
    assert(b.subrange(4 + rl, 8 + rl) =~= be32(s.len()));
    assert(b.subrange(8 + rl, 8 + rl + s.len() as int) =~= s);
}

} // verus!
