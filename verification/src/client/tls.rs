//! Which extra certificate the client trusts.

use vstd::prelude::*;
use crate::client::config::TlsConfig;
use crate::pem::PemSource;

verus! {

/// Where the extra trusted certificate is read from: nowhere when neither
/// `tls.cert_b64` nor `tls.cert_file` is given; both may not be given.
pub fn trusted_cert_source(config: &TlsConfig) -> (r: Result<Option<PemSource>, String>)
    ensures
        match (config.cert_b64, config.cert_file) {
            (None, None) => r == Ok::<Option<PemSource>, String>(None),
            (Some(_), Some(_)) => r matches Err(e) && e@
                == "You cannot specify both tls.cert_b64 and tls.cert_file"@,
            (None, Some(path)) => r == Ok::<Option<PemSource>, String>(Some(PemSource::File(path))),
            (Some(data), None) => r == Ok::<Option<PemSource>, String>(
                Some(PemSource::Inline(data)),
            ),
        },
{
    match (&config.cert_b64, &config.cert_file) {
        (None, None) => Ok(None),
        (Some(_), Some(_)) => Err(String::from_str("You cannot specify both tls.cert_b64 and tls.cert_file")),
        (None, Some(path)) => Ok(Some(PemSource::File(path.clone()))),
        (Some(data), None) => Ok(Some(PemSource::Inline(data.clone()))),
    }
}

} // verus!
