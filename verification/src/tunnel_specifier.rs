//! Tunnel specifiers: what a client asks the server to open, and what the
//! server answers it has opened; their text form `client[:server]`.

use vstd::prelude::*;
use crate::text::{
    all_digits, decimal, is_digit, lemma_decimal_digits, lemma_parse_decimal, parse_u16,
    parse_u16_str, push_decimal,
};

verus! {

/// The kind of traffic a tunnel carries.
#[derive(Debug, Clone, Copy, PartialEq, Eq, Hash, Structural)]
pub enum TunnelType {
    Tcp,
    Ssl,
}

/// The name by which a tunnel type is shown to users.
pub open spec fn tunnel_type_name(t: TunnelType) -> Seq<char> {
    match t {
        TunnelType::Tcp => "tcp"@,
        TunnelType::Ssl => "ssl"@,
    }
}

impl TunnelType {
    /// The name by which this tunnel type is shown to users.
    pub fn to_string(&self) -> (r: String)
        ensures
            r@ == tunnel_type_name(*self),
    {
        match self {
            TunnelType::Tcp => String::from_str("tcp"),
            TunnelType::Ssl => String::from_str("ssl"),
        }
    }
}

/// A tunnel that the client asks for: the local port it forwards to, and
/// the server port to listen on (any free port when `None`).
#[derive(Debug, Clone, Copy, PartialEq, Eq, Structural)]
pub struct TunnelSpecifier {
    pub tunnel_type: TunnelType,
    pub client_port: u16,
    pub server_port: Option<u16>,
}

/// A tunnel that the server has opened, with the port it listens on.
#[derive(Debug, Clone, Copy, PartialEq, Eq, Hash, Structural)]
pub struct ResolvedTunnelSpecifier {
    pub tunnel_type: TunnelType,
    pub client_port: u16,
    pub server_port: u16,
}

/// The text form of a specifier: `client` or `client:server`.
pub open spec fn specifier_text(t: TunnelSpecifier) -> Seq<char> {
    match t.server_port {
        Some(p) => decimal(t.client_port as nat) + seq![':'] + decimal(p as nat),
        None => decimal(t.client_port as nat),
    }
}

/// No character of `s` is a colon.
pub open spec fn has_no_colon(s: Seq<char>) -> bool {
    forall|i: int| 0 <= i < s.len() ==> s[i] != ':'
}

/// `s` holds exactly one colon, at index `k`.
pub open spec fn sole_colon_at(s: Seq<char>, k: int) -> bool {
    &&& 0 <= k < s.len()
    &&& s[k] == ':'
    &&& has_no_colon(s.take(k))
    &&& has_no_colon(s.skip(k + 1))
}

/// The specifier of `client:server` once both halves are split off; the
/// server half is read first, and an empty client half means the client
/// port equals the server port.
pub open spec fn parse_two_parts(client: Seq<char>, server: Seq<char>) -> Result<
    TunnelSpecifier,
    Seq<char>,
> {
    match parse_u16(server) {
        None => Err("Invalid server port"@),
        Some(sp) => if client.len() == 0 {
            Ok(TunnelSpecifier { tunnel_type: TunnelType::Tcp, client_port: sp, server_port: Some(sp) })
        } else {
            match parse_u16(client) {
                None => Err("Invalid client port"@),
                Some(cp) => Ok(
                    TunnelSpecifier {
                        tunnel_type: TunnelType::Tcp,
                        client_port: cp,
                        server_port: Some(sp),
                    },
                ),
            }
        },
    }
}

/// How a specifier is read from text: `80` forwards local port 80 from a
/// server port of the server's choice, `80:8080` from server port 8080,
/// `:80` is `80:80`; anything with more than one colon is refused.
pub open spec fn parse_specifier(s: Seq<char>) -> Result<TunnelSpecifier, Seq<char>> {
    if has_no_colon(s) {
        match parse_u16(s) {
            Some(p) => Ok(TunnelSpecifier { tunnel_type: TunnelType::Tcp, client_port: p, server_port: None }),
            None => Err("Invalid port"@),
        }
    } else if exists|k: int| sole_colon_at(s, k) {
        let k = choose|k: int| sole_colon_at(s, k);
        parse_two_parts(s.take(k), s.skip(k + 1))
    } else {
        Err("Invalid tunnel specifier format"@)
    }
}

/// A parse result with its error message taken as text.
pub open spec fn parse_result_view(r: Result<TunnelSpecifier, String>) -> Result<
    TunnelSpecifier,
    Seq<char>,
> {
    match r {
        Ok(t) => Ok(t),
        Err(e) => Err(e@),
    }
}

/// At most one index holds the sole colon of a string.
pub proof fn lemma_sole_colon_unique(s: Seq<char>, k1: int, k2: int)
    requires
        sole_colon_at(s, k1),
        sole_colon_at(s, k2),
    ensures
        k1 == k2,
{
    if k1 < k2 {
        assert(s.take(k2)[k1] == s[k1]);
    } else if k2 < k1 {
        assert(s.take(k1)[k2] == s[k2]);
    }
}

/// A string of digits holds no colon.
proof fn lemma_digits_no_colon(s: Seq<char>)
    requires
        all_digits(s),
    ensures
        has_no_colon(s),
{
    assert forall|i: int| 0 <= i < s.len() implies s[i] != ':' by {
        assert(is_digit(s[i]));
    }
}

/// Law: every TCP specifier reads back, unchanged, from its text form.
pub proof fn lemma_specifier_text_round_trip(t: TunnelSpecifier)
    requires
        t.tunnel_type == TunnelType::Tcp,
    ensures
        parse_specifier(specifier_text(t)) == Ok::<TunnelSpecifier, Seq<char>>(t),
{
    let c = decimal(t.client_port as nat);
    lemma_decimal_digits(t.client_port as nat);
    lemma_parse_decimal(t.client_port as nat);
    lemma_digits_no_colon(c);
    match t.server_port {
        None => {},
        Some(p) => {
            let d = decimal(p as nat);
            lemma_decimal_digits(p as nat);
            lemma_parse_decimal(p as nat);
            lemma_digits_no_colon(d);
            let s = specifier_text(t);
            let k = c.len() as int;
            assert(s.take(k) =~= c);
            assert(s.skip(k + 1) =~= d);
            assert(s[k] == ':');
            assert(sole_colon_at(s, k));
            assert(!has_no_colon(s));
            let kk = choose|kk: int| sole_colon_at(s, kk);
            lemma_sole_colon_unique(s, kk, k);
        },
    }
}

/// Law: `:p` reads as `p:p`, whatever the text `p` (without colons) holds.
pub proof fn lemma_empty_client_port(p: Seq<char>)
    requires
        has_no_colon(p),
    ensures
        parse_specifier(seq![':'] + p) == parse_specifier(p + seq![':'] + p),
{
    let a = seq![':'] + p;
    let b = p + seq![':'] + p;
    let k = p.len() as int;
    assert(a.take(0) =~= Seq::<char>::empty());
    assert(a.skip(1) =~= p);
    assert(a[0] == ':');
    assert(sole_colon_at(a, 0));
    assert(b.take(k) =~= p);
    assert(b.skip(k + 1) =~= p);
    assert(b[k] == ':');
    assert(sole_colon_at(b, k));
    assert(!has_no_colon(a));
    assert(!has_no_colon(b));
    let ka = choose|kk: int| sole_colon_at(a, kk);
    lemma_sole_colon_unique(a, ka, 0);
    let kb = choose|kk: int| sole_colon_at(b, kk);
    lemma_sole_colon_unique(b, kb, k);
    if p.len() == 0 {
        assert(parse_u16(p).is_none());
    }
}

impl TunnelSpecifier {
    /// The text form `client` or `client:server`.
    pub fn to_string(&self) -> (r: String)
        ensures
            r@ == specifier_text(*self),
    {
        let mut s = String::new();
        push_decimal(&mut s, self.client_port as u64);
        match self.server_port {
            Some(server_port) => {
                s.append(":");
                proof {
                    reveal_strlit(":");
                }
                push_decimal(&mut s, server_port as u64);
            },
            None => {},
        }
        proof {
            assert(Seq::<char>::empty() + decimal(self.client_port as nat) =~= decimal(self.client_port as nat));
        }
        s
    }

    /// Reads a specifier from its text form (see `parse_specifier`).
    pub fn parse(s: &str) -> (r: Result<TunnelSpecifier, String>)
        ensures
            parse_result_view(r) == parse_specifier(s@),
    {
        let n = s.unicode_len();
        let mut first: Option<usize> = None;
        let mut second: Option<usize> = None;
        let mut i: usize = 0;
        while i < n && second.is_none()
            invariant
                n == s@.len(),
                i <= n,
                match first {
                    None => has_no_colon(s@.take(i as int)) && second.is_none(),
                    Some(f) => {
                        &&& f < i
                        &&& s@[f as int] == ':'
                        &&& has_no_colon(s@.take(f as int))
                        &&& match second {
                            None => has_no_colon(s@.subrange(f + 1, i as int)),
                            Some(g) => f < g < i && s@[g as int] == ':',
                        }
                    },
                },
            decreases n - i,
        {
            let c = s.get_char(i);
            if c == ':' {
                if first.is_none() {
                    first = Some(i);
                    assert(s@.subrange(i + 1, i + 1) =~= Seq::<char>::empty());
                } else {
                    second = Some(i);
                }
            }
            proof {
                match first {
                    None => {
                        assert forall|j: int| 0 <= j < i + 1 implies #[trigger] s@.take(i + 1)[j] != ':' by {
                            if j < i {
                                assert(s@.take(i + 1)[j] == s@.take(i as int)[j]);
                            }
                        }
                    },
                    Some(f) => {
                        if second.is_none() {
                            let f = f as int;
                            assert forall|j: int| 0 <= j < i + 1 - (f + 1) implies
                                #[trigger] s@.subrange(f + 1, i + 1)[j] != ':' by {
                                if f + 1 + j < i {
                                    assert(s@.subrange(f + 1, i + 1)[j] == s@.subrange(f + 1, i as int)[j]);
                                }
                            }
                        }
                    },
                }
            }
            i = i + 1;
        }
        match first {
            None => {
                assert(s@.take(n as int) =~= s@);
                match parse_u16_str(s) {
                    Some(p) => Ok(
                        TunnelSpecifier {
                            tunnel_type: TunnelType::Tcp,
                            client_port: p,
                            server_port: None,
                        },
                    ),
                    None => Err(String::from_str("Invalid port")),
                }
            },
            Some(k) => {
                if second.is_some() {
                    proof {
                        let g = second->0 as int;
                        assert forall|j: int| !sole_colon_at(s@, j) by {
                            if sole_colon_at(s@, j) {
                                if j != k as int {
                                    if j < k as int {
                                        assert(s@.skip(j + 1)[k - j - 1] == s@[k as int]);
                                    } else {
                                        assert(s@.take(j)[k as int] == s@[k as int]);
                                    }
                                } else {
                                    assert(s@.skip(j + 1)[g - j - 1] == s@[g]);
                                }
                            }
                        }
                        assert(!has_no_colon(s@));
                    }
                    return Err(String::from_str("Invalid tunnel specifier format"));
                }
                proof {
                    assert(s@.subrange(k + 1, n as int) =~= s@.skip(k + 1));
                    assert(sole_colon_at(s@, k as int));
                    assert(!has_no_colon(s@));
                    let kk = choose|kk: int| sole_colon_at(s@, kk);
                    lemma_sole_colon_unique(s@, kk, k as int);
                }
                let client = s.substring_char(0, k);
                let server = s.substring_char(k + 1, n);
                proof {
                    assert(client@ =~= s@.take(k as int));
                    assert(server@ =~= s@.skip(k + 1));
                }
                let server_port = match parse_u16_str(server) {
                    Some(p) => p,
                    None => {
                        return Err(String::from_str("Invalid server port"));
                    },
                };
                let client_port = if k == 0 {
                    server_port
                } else {
                    match parse_u16_str(client) {
                        Some(p) => p,
                        None => {
                            return Err(String::from_str("Invalid client port"));
                        },
                    }
                };
                Ok(
                    TunnelSpecifier {
                        tunnel_type: TunnelType::Tcp,
                        client_port,
                        server_port: Some(server_port),
                    },
                )
            },
        }
    }
}

impl std::str::FromStr for TunnelSpecifier {
    type Err = String;

    fn from_str(s: &str) -> (r: Result<TunnelSpecifier, String>)
        ensures
            parse_result_view(r) == parse_specifier(s@),
    {
        TunnelSpecifier::parse(s)
    }
}

} // verus!
