use vstd::prelude::*;
use crate::ossl::{
    ec_key_generate, ec_private_key_from_pem, ec_private_key_to_pem, ec_private_pem_header,
    ec_public_key_to_pem, has_byte_prefix, p256_group, pem_key_on_p256, pkey_from_ec_key,
    public_pem_header, public_pem_of, signature_verifies, signer_sign_to_vec, signer_update,
    signer_without_digest,
};
use crate::text::{hex_spec, signed_decimal, signed_decimal_chars, string_of};

verus! {

broadcast use vstd::string::group_string_axioms;

/// `hex::encode`: each byte as two lowercase hexadecimal digits, high nibble first, as the
/// crate's documentation states.
#[verifier::external_body]
fn hex_encode(data: &[u8]) -> (r: String)
    ensures
        r@ == hex_spec(data@),
{
    hex::encode(data)
}

/// Why a cryptographic step failed.
#[derive(Debug, Clone, Copy, PartialEq, Eq, Structural)]
pub enum CryptoError {
    /// OpenSSL reported an error.
    OpenSsl,
    /// A PEM key text is longer than OpenSSL reads (`i32::MAX` bytes).
    KeyTooLarge,
}

/// A freshly generated signing key, in PEM.
pub struct KeyPair {
    pub private_pem: Vec<u8>,
    pub public_pem: Vec<u8>,
}

/// Generates an ECDSA key pair on the NIST P-256 curve and returns its private part as a PEM
/// `EC PRIVATE KEY` and the public key that belongs to it as a PEM `PUBLIC KEY`. Whether it
/// succeeds is up to OpenSSL.
pub fn generate_key_pair() -> (r: Result<KeyPair, CryptoError>)
    ensures
        r matches Ok(k) ==> {
            &&& has_byte_prefix(k.private_pem@, ec_private_pem_header())
            &&& pem_key_on_p256(k.private_pem@)
            &&& k.public_pem@ == public_pem_of(k.private_pem@)
            &&& has_byte_prefix(k.public_pem@, public_pem_header())
        },
{
    let group = match p256_group() {
        Ok(g) => g,
        Err(_) => return Err(CryptoError::OpenSsl),
    };
    let key = match ec_key_generate(&group) {
        Ok(k) => k,
        Err(_) => return Err(CryptoError::OpenSsl),
    };
    let private_pem = match ec_private_key_to_pem(&key) {
        Ok(p) => p,
        Err(_) => return Err(CryptoError::OpenSsl),
    };
    if private_pem.len() > 2147483647 {
        return Err(CryptoError::KeyTooLarge);
    }
    let stored = match ec_private_key_from_pem(private_pem.as_slice()) {
        Ok(k) => k,
        Err(_) => return Err(CryptoError::OpenSsl),
    };
    let public_pem = match ec_public_key_to_pem(&stored) {
        Ok(p) => p,
        Err(_) => return Err(CryptoError::OpenSsl),
    };
    Ok(KeyPair { private_pem, public_pem })
}

/// Signs `payload` with the PEM private key, through a signing context that names no digest,
/// and returns the signature in lowercase hexadecimal. Whether it succeeds is up to OpenSSL.
pub fn sign_payload(private_key_pem: &[u8], payload: &[u8]) -> (r: Result<String, CryptoError>)
    requires
        private_key_pem@.len() <= i32::MAX,
    ensures
        r matches Ok(s) ==> exists|sig: Seq<u8>|
            #![trigger hex_spec(sig)]
            s@ == hex_spec(sig) && signature_verifies(private_key_pem@, payload@, sig),
        r matches Err(e) ==> e == CryptoError::OpenSsl,
{
    let ec_key = match ec_private_key_from_pem(private_key_pem) {
        Ok(k) => k,
        Err(_) => return Err(CryptoError::OpenSsl),
    };
    let pkey = match pkey_from_ec_key(ec_key) {
        Ok(k) => k,
        Err(_) => return Err(CryptoError::OpenSsl),
    };
    let mut signer = match signer_without_digest(&pkey) {
        Ok(s) => s,
        Err(_) => return Err(CryptoError::OpenSsl),
    };
    match signer_update(&mut signer, payload) {
        Ok(()) => {},
        Err(_) => return Err(CryptoError::OpenSsl),
    }
    assert(signer.fed() =~= payload@);
    let signature = match signer_sign_to_vec(&signer) {
        Ok(s) => s,
        Err(_) => return Err(CryptoError::OpenSsl),
    };
    let hex = hex_encode(signature.as_slice());
    assert(hex@ == hex_spec(signature@));
    Ok(hex)
}

/// The file that a certificate for `device_name` made at Unix time `timestamp` is written to:
/// `<dir>/wipe_cert_<device name>_<timestamp>.json`.
pub open spec fn certificate_file_name_spec(out_dir: Seq<char>, device_name: Seq<char>, timestamp: int) -> Seq<
    char,
> {
    out_dir + "/wipe_cert_"@ + device_name + "_"@ + signed_decimal(timestamp) + ".json"@
}

/// The file that a certificate for `device_name` made at Unix time `timestamp` is written to.
pub fn certificate_file_name(out_dir: &str, device_name: &str, timestamp: i64) -> (r: String)
    ensures
        r@ == certificate_file_name_spec(out_dir@, device_name@, timestamp as int),
{
    let mut r = String::from_str(out_dir);
    r.append("/wipe_cert_");
    r.append(device_name);
    r.append("_");
    let digits = signed_decimal_chars(timestamp);
    let ds = string_of(digits.as_slice());
    r.append(ds.as_str());
    r.append(".json");
    r
}

} // verus!
