//! Certificates and keys in PEM text (read by the `rustls-pemfile` crate),
//! and where a TLS setting says to find them.

use vstd::prelude::*;
use crate::encoding::{base64_standard_decode, decode_base64};
use vstd::utf8::encode_utf8;
use tokio_rustls::rustls::pki_types::PrivateKeyDer;

verus! {

/// The encoding of a private key.
#[derive(Debug, Clone, Copy, PartialEq, Eq, Structural)]
pub enum KeyFormat {
    Pkcs1,
    Sec1,
    Pkcs8,
}

/// The certificate sections of PEM text, in order: the DER bytes of each,
/// or the text of the error met where a section could not be read.
pub uninterp spec fn pem_certificates(pem: Seq<u8>) -> Seq<Result<Seq<u8>, Seq<char>>>;

/// The first private key of PEM text, with its encoding (`None` when the
/// text holds no key), or the text of the error met while reading.
pub uninterp spec fn pem_private_key(pem: Seq<u8>) -> Result<Option<(KeyFormat, Seq<u8>)>, Seq<char>>;

/// A certificate item as bytes, or its error as text.
pub open spec fn cert_item_view(item: Result<Vec<u8>, String>) -> Result<Seq<u8>, Seq<char>> {
    match item {
        Ok(c) => Ok(c@),
        Err(e) => Err(e@),
    }
}

/// `rustls_pemfile::certs`, every item collected. Trusted: item `i` is
/// item `i` that `pem_certificates` names: the DER of that certificate
/// section, or the error, shown as text.
#[verifier::external_body]
pub(crate) fn read_certificates(pem: &[u8]) -> (r: Vec<Result<Vec<u8>, String>>)
    ensures
        r@.len() == pem_certificates(pem@).len(),
        forall|i: int|
            0 <= i < r@.len() ==> pem_certificates(pem@)[i] == cert_item_view(#[trigger] r@[i]),
{
    let mut cursor = std::io::Cursor::new(pem);
    rustls_pemfile::certs(&mut cursor).map(|item| match item {
        Ok(cert) => Ok(cert.as_ref().to_vec()),
        Err(e) => Err(e.to_string()),
    }).collect()
}

/// `rustls_pemfile::private_key`. Trusted: the result is what
/// `pem_private_key` names: the key with its encoding, none, or the error,
/// shown as text. (That function only ever yields PKCS#1, SEC1 or PKCS#8
/// keys, so the last but one arm below is never taken.)
#[verifier::external_body]
pub(crate) fn read_private_key(pem: &[u8]) -> (r: Result<Option<(KeyFormat, Vec<u8>)>, String>)
    ensures
        match r {
            Ok(None) => pem_private_key(pem@) == Ok::<Option<(KeyFormat, Seq<u8>)>, Seq<char>>(None),
            Ok(Some((f, k))) => pem_private_key(pem@) == Ok::<Option<(KeyFormat, Seq<u8>)>, Seq<char>>(Some((f, k@))),
            Err(e) => pem_private_key(pem@) == Err::<Option<(KeyFormat, Seq<u8>)>, Seq<char>>(e@),
        },
{
    let mut cursor = std::io::Cursor::new(pem);
    match rustls_pemfile::private_key(&mut cursor) {
        Ok(None) => Ok(None),
        Ok(Some(PrivateKeyDer::Pkcs1(k))) => Ok(Some((KeyFormat::Pkcs1, k.secret_pkcs1_der().to_vec()))),
        Ok(Some(PrivateKeyDer::Sec1(k))) => Ok(Some((KeyFormat::Sec1, k.secret_sec1_der().to_vec()))),
        Ok(Some(PrivateKeyDer::Pkcs8(k))) => Ok(Some((KeyFormat::Pkcs8, k.secret_pkcs8_der().to_vec()))),
        Ok(Some(_)) => Err(String::from("unsupported private key encoding")),
        Err(e) => Err(e.to_string()),
    }
}

/// Where a TLS setting says PEM text is found.
#[derive(Debug, Clone, PartialEq, Eq)]
pub enum PemSource {
    /// In the file at this path.
    File(String),
    /// Inline, as base64 of the PEM text.
    Inline(String),
}

/// The PEM text that an inline setting holds (it is base64 of that text);
/// the decoder's error, as text, where it is not base64.
pub fn decode_inline(data: &String) -> (r: Result<Vec<u8>, String>)
    ensures
        match r {
            Ok(v) => base64_standard_decode(encode_utf8(data@)) == Ok::<Seq<u8>, Seq<char>>(v@),
            Err(e) => base64_standard_decode(encode_utf8(data@)) == Err::<Seq<u8>, Seq<char>>(e@),
        },
{
    decode_base64(data.as_str().as_bytes())
}

/// Some section of the PEM text could not be read.
pub open spec fn some_unreadable(items: Seq<Result<Seq<u8>, Seq<char>>>) -> bool {
    exists|i: int| 0 <= i < items.len() && (#[trigger] items[i]) is Err
}

/// Section `i` is the first that could not be read.
pub open spec fn first_unreadable_at(items: Seq<Result<Seq<u8>, Seq<char>>>, i: int) -> bool {
    &&& 0 <= i < items.len()
    &&& items[i] is Err
    &&& forall|j: int| 0 <= j < i ==> (#[trigger] items[j]) is Ok
}

/// All certificates of PEM text, in order; where a section could not be
/// read, the error of the first such section.
pub fn certificates_from_pem(pem: &[u8]) -> (r: Result<Vec<Vec<u8>>, String>)
    ensures
        r is Err <==> some_unreadable(pem_certificates(pem@)),
        r matches Ok(certs) ==> certs@.len() == pem_certificates(pem@).len() && forall|i: int|
            0 <= i < certs@.len() ==> pem_certificates(pem@)[i] == Ok::<Seq<u8>, Seq<char>>(
                (#[trigger] certs@[i])@,
            ),
        r matches Err(e) ==> exists|i: int|
            first_unreadable_at(pem_certificates(pem@), i) && pem_certificates(pem@)[i]
                == Err::<Seq<u8>, Seq<char>>(e@),
{
    let items = read_certificates(pem);
    let ghost named = pem_certificates(pem@);
    let mut certs: Vec<Vec<u8>> = Vec::new();
    let mut i: usize = 0;
    while i < items.len()
        invariant
            i <= items@.len(),
            items@.len() == named.len(),
            named == pem_certificates(pem@),
            forall|j: int|
                0 <= j < items@.len() ==> named[j] == cert_item_view(#[trigger] items@[j]),
            certs@.len() == i,
            forall|j: int| 0 <= j < i ==> named[j] == Ok::<Seq<u8>, Seq<char>>((#[trigger] certs@[j])@),
        decreases items@.len() - i,
    {
        match &items[i] {
            Ok(c) => {
                assert(named[i as int] == cert_item_view(items@[i as int]));
                certs.push(c.clone());
            },
            Err(e) => {
                assert(named[i as int] == cert_item_view(items@[i as int]));
                assert(first_unreadable_at(named, i as int)) by {
                    assert forall|j: int| 0 <= j < i implies (#[trigger] named[j]) is Ok by {
                        assert(named[j] == Ok::<Seq<u8>, Seq<char>>(certs@[j]@));
                    }
                }
                assert(some_unreadable(named));
                return Err(e.clone());
            },
        }
        i = i + 1;
    }
    assert(!some_unreadable(named)) by {
        assert forall|j: int| 0 <= j < named.len() implies (#[trigger] named[j]) is Ok by {
            assert(named[j] == Ok::<Seq<u8>, Seq<char>>(certs@[j]@));
        }
    }
    Ok(certs)
}

/// The last certificate of PEM text, if any; the error met there if that
/// last section could not be read.
pub fn last_certificate(pem: &[u8]) -> (r: Result<Option<Vec<u8>>, String>)
    ensures
        pem_certificates(pem@).len() == 0 ==> r == Ok::<Option<Vec<u8>>, String>(None),
        pem_certificates(pem@).len() > 0 ==> match pem_certificates(pem@).last() {
            Ok(c) => r matches Ok(Some(v)) && v@ == c,
            Err(t) => r matches Err(e) && e@ == t,
        },
{
    let mut items = read_certificates(pem);
    let n = items.len();
    if n == 0 {
        return Ok(None);
    }
    assert(pem_certificates(pem@)[n - 1] == cert_item_view(items@[n - 1]));
    match items.pop() {
        Some(Ok(c)) => Ok(Some(c)),
        Some(Err(e)) => Err(e),
        None => Ok(None),
    }
}

/// The reason given when PEM text from `source` holds no private key.
pub open spec fn missing_key_reason(source: PemSource) -> Seq<char> {
    match source {
        PemSource::File(path) => "No key found in '"@ + path@ + "'"@,
        PemSource::Inline(_) => "Invalid or malformed key in tls.key_b64"@,
    }
}

/// The first private key of PEM text read from `source`; the reader's
/// error if the text cannot be read, the reason of `missing_key_reason` if
/// it holds no key.
pub fn private_key_from_pem(pem: &[u8], source: &PemSource) -> (r: Result<
    (KeyFormat, Vec<u8>),
    String,
>)
    ensures
        match pem_private_key(pem@) {
            Err(t) => r matches Err(e) && e@ == t,
            Ok(None) => r matches Err(e) && e@ == missing_key_reason(*source),
            Ok(Some((f, k))) => r matches Ok((rf, rk)) && rf == f && rk@ == k,
        },
{
    match read_private_key(pem) {
        Ok(Some(key)) => Ok(key),
        Ok(None) => match source {
            PemSource::File(path) => {
                let s = String::from_str("No key found in '");
                let s = s.concat(path.as_str());
                Err(s.concat("'"))
            },
            PemSource::Inline(_) => Err(String::from_str("Invalid or malformed key in tls.key_b64")),
        },
        Err(e) => Err(e),
    }
}

} // verus!
