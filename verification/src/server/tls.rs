//! Where the server's certificate chain and private key are read from.

use vstd::prelude::*;
use crate::pem::PemSource;
use crate::server::config::TlsConfig;

verus! {

/// The single source that a pair of inline/file settings names; `None`
/// when both or neither are given.
pub open spec fn single_source(inline: Option<String>, file: Option<String>) -> Option<PemSource> {
    match (inline, file) {
        (Some(data), None) => Some(PemSource::Inline(data)),
        (None, Some(path)) => Some(PemSource::File(path)),
        _ => None,
    }
}

/// Where the certificate chain is read from: exactly one of
/// `tls.fullchain_b64` and `tls.fullchain_file` must be given.
pub fn fullchain_source(config: &TlsConfig) -> (r: Result<PemSource, String>)
    ensures
        match single_source(config.fullchain_b64, config.fullchain_file) {
            Some(s) => r == Ok::<PemSource, String>(s),
            None => r matches Err(e) && e@
                == "You have to specify one of tls.fullchain_b64 or tls.fullchain_file"@,
        },
{
    match (&config.fullchain_b64, &config.fullchain_file) {
        (Some(data), None) => Ok(PemSource::Inline(data.clone())),
        (None, Some(path)) => Ok(PemSource::File(path.clone())),
        _ => Err(String::from_str("You have to specify one of tls.fullchain_b64 or tls.fullchain_file")),
    }
}

/// Where the private key is read from: exactly one of `tls.key_b64` and
/// `tls.key_file` must be given.
pub fn key_source(config: &TlsConfig) -> (r: Result<PemSource, String>)
    ensures
        match single_source(config.key_b64, config.key_file) {
            Some(s) => r == Ok::<PemSource, String>(s),
            None => r matches Err(e) && e@ == "You have to specify one of tls.key_b64 or tls.key_file"@,
        },
{
    match (&config.key_b64, &config.key_file) {
        (Some(data), None) => Ok(PemSource::Inline(data.clone())),
        (None, Some(path)) => Ok(PemSource::File(path.clone())),
        _ => Err(String::from_str("You have to specify one of tls.key_b64 or tls.key_file")),
    }
}

} // verus!
