//! The certificate offered to clients that ask for `STARTTLS`.
use vstd::prelude::*;
use vstd::utf8::is_ascii_chars;

verus! {

/// A certificate and its private key, both DER-encoded.
pub struct TlsIdentity {
    pub cert_der: Vec<u8>,
    pub key_der: Vec<u8>,
}

/// Why no certificate could be made.
#[derive(Clone, Copy, Debug, PartialEq, Eq, Structural)]
pub enum TlsSetupError {
    /// Generating the self-signed certificate failed.
    CertificateGeneration,
}

#[verifier::external_type_specification]
#[verifier::external_body]
pub struct ExRcgenError(rcgen::Error);

/// The DER encoding of an ASN.1 `SEQUENCE`: it starts with the identifier byte `0x30`.
pub open spec fn is_der_sequence(bytes: Seq<u8>) -> bool {
    bytes.len() > 0 && bytes[0] == 0x30u8
}

/// A character that can occur in the text of an IP address: a hexadecimal digit, `.` or
/// `:`.
pub open spec fn is_ip_text_char(c: char) -> bool {
    ('0' <= c && c <= '9') || ('a' <= c && c <= 'f') || ('A' <= c && c <= 'F') || c == '.' || c
        == ':'
}

/// A name that `rcgen` records as a DNS name: non-empty ASCII text holding a character that
/// no IP address text holds, so `IpAddr::from_str` refuses it.
pub open spec fn is_dns_name_text(name: Seq<char>) -> bool {
    &&& name.len() > 0
    &&& is_ascii_chars(name)
    &&& exists|i: int| 0 <= i < name.len() && !is_ip_text_char(#[trigger] name[i])
}

/// The bytes of an ASCII text.
pub open spec fn ascii_bytes(text: Seq<char>) -> Seq<u8> {
    text.map_values(|c: char| c as u8)
}

/// `part` occurs as a contiguous run in `bytes`.
pub open spec fn contains_run(bytes: Seq<u8>, part: Seq<u8>) -> bool {
    exists|i: int| 0 <= i && i + part.len() <= bytes.len() && #[trigger] bytes.subrange(i, i + part.len()) == part
}

/// A fresh self-signed certificate for the given subject alternative names, from
/// `rcgen::generate_simple_self_signed`, as the DER bytes of the certificate and of its
/// newly generated key pair.
///
/// Both are DER `SEQUENCE`s: rcgen writes the certificate with yasna's `write_sequence`,
/// and the P-256 key (rcgen's default) is ring's PKCS#8 document, whose template starts
/// with `0x30`. A name that is no IP address becomes a DNS name of the subject alternative
/// name extension, written with yasna's `write_ia5_string`, which copies its bytes
/// unchanged into the certificate. The key is random, so nothing more is claimed of the
/// bytes.
#[verifier::external_body]
fn generate_simple_self_signed(names: Vec<String>) -> (r: Result<(Vec<u8>, Vec<u8>), rcgen::Error>)
    ensures
        r matches Ok((cert, key)) ==> {
            &&& is_der_sequence(cert@)
            &&& is_der_sequence(key@)
            &&& forall|i: int|
                0 <= i < names@.len() && is_dns_name_text(#[trigger] names@[i]@) ==> contains_run(
                    cert@,
                    ascii_bytes(names@[i]@),
                )
        },
{
    let certified = rcgen::generate_simple_self_signed(names)?;
    Ok((certified.cert.der().to_vec(), certified.key_pair.serialize_der()))
}

/// The subject alternative names of the receiver's certificate: `localhost` alone.
pub fn localhost_names() -> (names: Vec<String>)
    ensures
        names@.len() == 1,
        names@[0]@ == "localhost"@,
{
    let mut names: Vec<String> = Vec::new();
    names.push(String::from_str("localhost"));
    names
}

/// A fresh self-signed certificate for `localhost`, with its key: the certificate DER, which
/// holds the name `localhost`, and the PKCS#8 DER of the key, each an ASN.1 `SEQUENCE`.
pub fn localhost_identity() -> (r: Result<TlsIdentity, TlsSetupError>)
    ensures
        r matches Ok(id) ==> {
            &&& is_der_sequence(id.cert_der@)
            &&& is_der_sequence(id.key_der@)
            &&& contains_run(id.cert_der@, ascii_bytes("localhost"@))
        },
        r matches Err(e) ==> e == TlsSetupError::CertificateGeneration,
{
    let names = localhost_names();
    proof {
        reveal_strlit("localhost");
        assert(!is_ip_text_char(names@[0]@[0]));
        assert(is_dns_name_text(names@[0]@));
    }
    match generate_simple_self_signed(names) {
        Ok((cert_der, key_der)) => Ok(TlsIdentity { cert_der, key_der }),
        Err(_) => Err(TlsSetupError::CertificateGeneration),
    }
}

} // verus!
