//! Who may use the admin web API: HTTP basic authentication against the
//! configured credentials.

use vstd::prelude::*;
use crate::encoding::{base64_standard_decode, decode_base64, from_utf8_lossy, utf8_lossy};
use crate::server::config::WebServerAuthConfig;
use crate::text::{
    byte_range, find_first_byte, find_first_char, is_first_at, lemma_first_at_unique, split_once,
};

verus! {

/// A byte that an HTTP header value may hold to be read as text: visible
/// ASCII or a tab.
pub open spec fn visible_ascii(b: u8) -> bool {
    (32 <= b && b < 127) || b == 9
}

/// A header value that reads as text.
pub open spec fn header_is_text(h: Seq<u8>) -> bool {
    forall|i: int| 0 <= i < h.len() ==> visible_ascii(#[trigger] h[i])
}

/// ASCII lower case of a byte.
pub open spec fn ascii_lower(b: u8) -> u8 {
    if 65 <= b && b <= 90 {
        (b + 32) as u8
    } else {
        b
    }
}

/// An authorization scheme that is `basic` in any case.
pub open spec fn is_basic_scheme(scheme: Seq<u8>) -> bool {
    scheme.map_values(|b: u8| ascii_lower(b)) == seq![98u8, 97u8, 115u8, 105u8, 99u8]
}

/// `user:password` text naming the configured credentials (split at the
/// first colon).
pub open spec fn credentials_match_text(text: Seq<char>, auth: WebServerAuthConfig) -> bool {
    match split_once(text, ':') {
        Some((user, password)) => user == auth.username@ && password == auth.password@,
        None => false,
    }
}

/// The parameter of a basic authorization: base64 of `user:password`.
pub open spec fn basic_param_accepted(param: Seq<u8>, auth: WebServerAuthConfig) -> bool {
    match base64_standard_decode(param) {
        Ok(decoded) => credentials_match_text(utf8_lossy(decoded), auth),
        Err(_) => false,
    }
}

/// The `Authorization` header value that lets a request through: text of
/// the form `<scheme> <param>` with scheme `basic` (any case) and `param`
/// the base64 of the configured `user:password`.
pub open spec fn authorization_accepted(header: Option<Seq<u8>>, auth: WebServerAuthConfig) -> bool {
    match header {
        None => false,
        Some(h) => header_is_text(h) && match split_once(h, 32u8) {
            None => false,
            Some((scheme, param)) => is_basic_scheme(scheme) && basic_param_accepted(param, auth),
        },
    }
}

/// An optional byte vector taken as bytes.
pub open spec fn opt_bytes(o: Option<Vec<u8>>) -> Option<Seq<u8>> {
    match o {
        Some(v) => Some(v@),
        None => None,
    }
}

fn strings_equal(a: &String, b: &String) -> (r: bool)
    ensures
        r == (a@ == b@),
{
    a.eq(b)
}

/// Does `user:password` text name the configured credentials?
pub fn credentials_match(text: &str, auth: &WebServerAuthConfig) -> (r: bool)
    ensures
        r == credentials_match_text(text@, *auth),
{
    match find_first_char(text, ':') {
        None => {
            assert(!exists|k: int| is_first_at(text@, ':', k));
            false
        },
        Some(k) => {
            proof {
                let kk = choose|kk: int| is_first_at(text@, ':', kk);
                lemma_first_at_unique(text@, ':', kk, k as int);
            }
            let n = text.unicode_len();
            let user = String::from_str(text.substring_char(0, k));
            let password = String::from_str(text.substring_char(k + 1, n));
            assert(user@ =~= text@.take(k as int));
            assert(password@ =~= text@.skip(k + 1));
            strings_equal(&user, &auth.username) && strings_equal(&password, &auth.password)
        },
    }
}

/// Does the decoded parameter of a basic authorization name the
/// configured credentials (read as lossy UTF-8)?
pub fn decoded_credentials_match(decoded: &[u8], auth: &WebServerAuthConfig) -> (r: bool)
    ensures
        r == credentials_match_text(utf8_lossy(decoded@), *auth),
{
    let text = from_utf8_lossy(decoded);
    credentials_match(text.as_str(), auth)
}

fn is_basic(scheme: &[u8]) -> (r: bool)
    ensures
        r == is_basic_scheme(scheme@),
{
    let ghost lowered = scheme@.map_values(|b: u8| ascii_lower(b));
    let basic: [u8; 5] = [98u8, 97u8, 115u8, 105u8, 99u8];
    if scheme.len() != 5 {
        assert(lowered.len() != 5);
        assert(lowered != seq![98u8, 97u8, 115u8, 105u8, 99u8]);
        return false;
    }
    let mut i: usize = 0;
    while i < 5
        invariant
            scheme@.len() == 5,
            i <= 5,
            lowered == scheme@.map_values(|b: u8| ascii_lower(b)),
            basic@ == seq![98u8, 97u8, 115u8, 105u8, 99u8],
            forall|j: int| 0 <= j < i ==> lowered[j] == basic@[j],
        decreases 5 - i,
    {
        let b = scheme[i];
        let low = if 65 <= b && b <= 90 {
            b + 32
        } else {
            b
        };
        if low != basic[i] {
            assert(lowered[i as int] != seq![98u8, 97u8, 115u8, 105u8, 99u8][i as int]);
            return false;
        }
        i = i + 1;
    }
    assert(lowered =~= seq![98u8, 97u8, 115u8, 105u8, 99u8]);
    true
}

fn is_header_text(value: &[u8]) -> (r: bool)
    ensures
        r == header_is_text(value@),
{
    let mut i: usize = 0;
    while i < value.len()
        invariant
            i <= value@.len(),
            forall|j: int| 0 <= j < i ==> visible_ascii(#[trigger] value@[j]),
        decreases value@.len() - i,
    {
        let b = value[i];
        if !((32 <= b && b < 127) || b == 9) {
            assert(!visible_ascii(value@[i as int]));
            return false;
        }
        i = i + 1;
    }
    true
}

/// Lets a request through when its `Authorization` header (the raw value,
/// if present) carries the configured credentials in basic form.
pub fn is_authenticated(authorization: Option<Vec<u8>>, auth_config: &WebServerAuthConfig) -> (r:
    bool)
    ensures
        r == authorization_accepted(opt_bytes(authorization), *auth_config),
{
    let value = match authorization {
        Some(v) => v,
        None => {
            return false;
        },
    };
    if !is_header_text(value.as_slice()) {
        return false;
    }
    let k = match find_first_byte(value.as_slice(), 32u8) {
        Some(k) => k,
        None => {
            assert(!exists|k: int| is_first_at(value@, 32u8, k));
            return false;
        },
    };
    proof {
        let kk = choose|kk: int| is_first_at(value@, 32u8, kk);
        lemma_first_at_unique(value@, 32u8, kk, k as int);
    }
    let n = value.len();
    assert(k < n);
    let scheme = byte_range(value.as_slice(), 0, k);
    let param = byte_range(value.as_slice(), k + 1, n);
    assert(scheme@ =~= value@.take(k as int));
    assert(param@ =~= value@.skip(k + 1));
    if !is_basic(scheme.as_slice()) {
        return false;
    }
    match decode_base64(param.as_slice()) {
        Ok(decoded) => decoded_credentials_match(decoded.as_slice(), auth_config),
        Err(_) => false,
    }
}

/// Whether the admin web API serves a request: always when no credentials
/// are configured, otherwise only when its `Authorization` header (the raw
/// value, if present) carries them in basic form; a request refused here
/// is answered 401 with a basic-auth challenge.
pub fn request_allowed(auth_config: &Option<WebServerAuthConfig>, authorization: Option<Vec<u8>>) -> (r:
    bool)
    ensures
        r == match *auth_config {
            None => true,
            Some(auth) => authorization_accepted(opt_bytes(authorization), auth),
        },
{
    match auth_config {
        None => true,
        Some(auth) => is_authenticated(authorization, auth),
    }
}

/// Law: credentials given as a user name without a colon, a colon and a
/// password are accepted exactly when the user name and the password are
/// the configured ones, character for character (the password may hold
/// colons).
pub proof fn lemma_credentials_exact(user: Seq<char>, password: Seq<char>, auth: WebServerAuthConfig)
    requires
        !user.contains(':'),
    ensures
        credentials_match_text(user + seq![':'] + password, auth) <==> (user == auth.username@
            && password == auth.password@),
{
    let text = user + seq![':'] + password;
    let k = user.len() as int;
    assert(text[k] == ':');
    assert forall|j: int| 0 <= j < k implies text[j] != ':' by {
        assert(text[j] == user[j]);
    }
    assert(is_first_at(text, ':', k));
    let kk = choose|kk: int| is_first_at(text, ':', kk);
    lemma_first_at_unique(text, ':', kk, k);
    assert(text.take(k) =~= user);
    assert(text.skip(k + 1) =~= password);
}

} // verus!
