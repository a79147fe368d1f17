//! Expiry of the local TLS certificate.

use vstd::prelude::*;
use x509_parser::prelude::{FromDer, X509Certificate};
use crate::cluster::checks::{failed_with, verdict, Verdict, VerdictView};

verus! {

/// The bytes inside a PEM block, or the error text where the data is none.
pub uninterp spec fn pem_contents(data: Seq<u8>) -> Result<Seq<u8>, Seq<char>>;

/// The end of validity of a DER certificate in seconds since 1970, or the error text where the
/// bytes are no certificate.
pub uninterp spec fn certificate_end(der: Seq<u8>) -> Result<i64, Seq<char>>;

/// The views of a result with bytes.
pub open spec fn bytes_view(r: Result<Vec<u8>, String>) -> Result<Seq<u8>, Seq<char>> {
    match r {
        Ok(v) => Ok(v@),
        Err(e) => Err(e@),
    }
}

/// The views of a result with a time.
pub open spec fn time_view(r: Result<i64, String>) -> Result<i64, Seq<char>> {
    match r {
        Ok(t) => Ok(t),
        Err(e) => Err(e@),
    }
}

/// Calls `pem::parse`. Its result, the contents of the first block or the text of the error, is
/// a function of the data alone; nothing more is claimed of it.
#[verifier::external_body]
fn parse_pem(data: &Vec<u8>) -> (r: Result<Vec<u8>, String>)
    ensures
        bytes_view(r) == pem_contents(data@),
{
    match pem::parse(data) {
        Ok(block) => Ok(block.into_contents()),
        Err(e) => Err(e.to_string()),
    }
}

/// Calls `X509Certificate::from_der` and reads the `not_after` time of the certificate. The
/// result is a function of the bytes alone; nothing more is claimed of it.
#[verifier::external_body]
fn parse_certificate_end(der: &Vec<u8>) -> (r: Result<i64, String>)
    ensures
        time_view(r) == certificate_end(der@),
{
    match X509Certificate::from_der(der) {
        Ok((_, cert)) => Ok(cert.validity().not_after.timestamp()),
        Err(e) => Err(e.to_string()),
    }
}

/// The local certificate and its key, as they were found.
#[derive(Debug)]
pub struct CertificateFiles {
    pub cert_path: String,
    pub key_path: String,
    pub cert_exists: bool,
    pub key_exists: bool,
    pub data: Result<Vec<u8>, String>,
}

/// What the time left says: a certificate with less than a day is as bad as an expired one.
pub open spec fn end_verdict(not_after: int, now: int) -> VerdictView {
    if not_after - now < 0 {
        Err("certificate expired"@)
    } else if not_after - now < 86400 {
        Err("certificate expiring within 24h"@)
    } else {
        Ok(Some("valid, not expiring within 24h"@))
    }
}

/// What a parsed certificate says.
pub open spec fn parsed_verdict(end: Result<i64, Seq<char>>, now: int) -> VerdictView {
    match end {
        Err(e) => Err("failed to parse certificate: "@ + e),
        Ok(t) => end_verdict(t as int, now),
    }
}

pub open spec fn certificate_verdict(files: CertificateFiles, now: int) -> VerdictView {
    if !files.cert_exists {
        Err("cert not found: "@ + files.cert_path@)
    } else if !files.key_exists {
        Err("key not found: "@ + files.key_path@)
    } else {
        match files.data {
            Err(e) => Err("failed to read cert: "@ + e@),
            Ok(data) => match pem_contents(data@) {
                Err(e) => Err("failed to parse PEM: "@ + e),
                Ok(der) => parsed_verdict(certificate_end(der), now),
            },
        }
    }
}

/// Whether a certificate that ends at `not_after` is good for at least a day at the time `now`.
pub fn check_certificate_end(not_after: i64, now: i64) -> (r: Verdict)
    ensures
        verdict(r) == end_verdict(not_after as int, now as int),
{
    let left: i128 = not_after as i128 - now as i128;
    if left < 0 {
        Err("certificate expired".to_owned())
    } else if left < 86400 {
        Err("certificate expiring within 24h".to_owned())
    } else {
        Ok(Some("valid, not expiring within 24h".to_owned()))
    }
}

/// Whether certificate and key exist and the certificate is good for at least a day.
pub fn check_tls_certificate(files: &CertificateFiles, now: i64) -> (r: Verdict)
    ensures
        verdict(r) == certificate_verdict(*files, now as int),
{
    if !files.cert_exists {
        return failed_with("cert not found: ", files.cert_path.as_str());
    }
    if !files.key_exists {
        return failed_with("key not found: ", files.key_path.as_str());
    }
    match &files.data {
        Err(e) => failed_with("failed to read cert: ", e.as_str()),
        Ok(data) => match parse_pem(data) {
            Err(e) => failed_with("failed to parse PEM: ", e.as_str()),
            Ok(der) => match parse_certificate_end(&der) {
                Err(e) => failed_with("failed to parse certificate: ", e.as_str()),
                Ok(t) => check_certificate_end(t, now),
            },
        },
    }
}

/// More time left never turns a good certificate bad.
pub proof fn law_longer_validity_is_no_worse(a: int, b: int, now: int)
    requires
        a <= b,
        end_verdict(a, now) is Ok,
    ensures
        end_verdict(b, now) is Ok,
{
}

/// A certificate is good if and only if it lasts for another day of eighty-six thousand and four
/// hundred seconds; one that is past its end is told apart from one that is near it.
pub proof fn law_certificates_last_for_a_day(not_after: int, now: int)
    ensures
        end_verdict(not_after, now) is Ok <==> not_after >= now + 86400,
        end_verdict(not_after, now) == Err::<Option<Seq<char>>, Seq<char>>("certificate expired"@)
            <==> not_after < now,
{
    reveal_strlit("certificate expired");
    reveal_strlit("certificate expiring within 24h");
    assert("certificate expired"@.len() != "certificate expiring within 24h"@.len());
}

/// A certificate passes only where it and its key are there, it can be read, and it lasts.
pub proof fn law_certificates_need_their_files(files: CertificateFiles, now: int)
    ensures
        certificate_verdict(files, now) is Ok ==> files.cert_exists && files.key_exists && files.data
            is Ok && pem_contents(files.data->Ok_0@) is Ok && certificate_end(
            pem_contents(files.data->Ok_0@)->Ok_0,
        ) is Ok && certificate_end(pem_contents(files.data->Ok_0@)->Ok_0)->Ok_0 >= now + 86400,
        files.cert_exists && files.key_exists && files.data is Ok && pem_contents(
            files.data->Ok_0@,
        ) is Ok && certificate_end(pem_contents(files.data->Ok_0@)->Ok_0) is Ok && certificate_end(
            pem_contents(files.data->Ok_0@)->Ok_0,
        )->Ok_0 >= now + 86400 ==> certificate_verdict(files, now) is Ok,
{
}

} // verus!
