//! The first-generation server: its configuration, and its answer once the
//! tunnels a client asked for are bound.

use vstd::prelude::*;
use crate::legacy::protocol::ServerControlHello;
use crate::tunnel_specifier::ResolvedTunnelSpecifier;

verus! {

/// Where the server listens, and the host name told to clients.
#[derive(Debug)]
pub struct BindConfig {
    pub host: String,
    pub port: u16,
    pub public_host: Option<String>,
}

/// The whole server configuration.
#[derive(Debug)]
pub struct Config {
    pub bind: BindConfig,
}

/// The `[bind]` section as the file gives it.
#[derive(Debug)]
pub struct BindSection {
    pub host: Option<String>,
    pub port: Option<u16>,
    pub public_host: Option<String>,
}

/// The configuration file as read, before defaults are applied.
#[derive(Debug)]
pub struct ConfigFile {
    pub bind: BindSection,
}

/// The port the server listens on unless told otherwise.
pub const DEFAULT_BIND_PORT: u16 = 7267;

impl Config {
    /// Fills in the defaults: the server binds to `0.0.0.0:7267` unless
    /// told otherwise.
    pub fn load(file: ConfigFile) -> (r: Config)
        ensures
            r.bind.host@ == match file.bind.host {
                Some(h) => h@,
                None => "0.0.0.0"@,
            },
            r.bind.port == match file.bind.port {
                Some(p) => p,
                None => DEFAULT_BIND_PORT,
            },
            r.bind.public_host == file.bind.public_host,
    {
        let BindSection { host, port, public_host } = file.bind;
        let host = match host {
            Some(h) => h,
            None => String::from_str("0.0.0.0"),
        };
        let port = match port {
            Some(p) => p,
            None => DEFAULT_BIND_PORT,
        };
        Config { bind: BindConfig { host, port, public_host } }
    }
}

/// The first failure among the listeners' outcomes, in the order given.
pub open spec fn first_failure(results: Seq<Result<ResolvedTunnelSpecifier, String>>) -> Option<
    Seq<char>,
>
    decreases results.len(),
{
    if results.len() == 0 {
        None
    } else {
        match first_failure(results.drop_last()) {
            Some(e) => Some(e),
            None => match results.last() {
                Err(e) => Some(e@),
                Ok(_) => None,
            },
        }
    }
}

/// The tunnels that were opened, in the order given.
pub open spec fn bound_tunnels(results: Seq<Result<ResolvedTunnelSpecifier, String>>) -> Seq<
    ResolvedTunnelSpecifier,
>
    decreases results.len(),
{
    if results.len() == 0 {
        seq![]
    } else {
        let rest = bound_tunnels(results.drop_last());
        match results.last() {
            Ok(t) => rest.push(t),
            Err(_) => rest,
        }
    }
}

/// An error among the first `k` outcomes is the first error of all.
proof fn lemma_first_failure_prefix(results: Seq<Result<ResolvedTunnelSpecifier, String>>, k: int)
    requires
        0 <= k <= results.len(),
        first_failure(results.take(k)).is_some(),
    ensures
        first_failure(results) == first_failure(results.take(k)),
    decreases results.len() - k,
{
    if k < results.len() {
        assert(results.take(k + 1).drop_last() =~= results.take(k));
        lemma_first_failure_prefix(results, k + 1);
    } else {
        assert(results.take(k) =~= results);
    }
}

/// Law: the bind outcomes hold no failure exactly when every outcome is an
/// opened tunnel, and then the answer reports exactly those tunnels, one
/// per outcome and in the same order.
pub proof fn lemma_listening_reports_every_tunnel(results: Seq<Result<ResolvedTunnelSpecifier, String>>)
    ensures
        first_failure(results).is_none() <==> forall|i: int|
            0 <= i < results.len() ==> (#[trigger] results[i]) is Ok,
        first_failure(results).is_none() ==> bound_tunnels(results).len() == results.len(),
        first_failure(results).is_none() ==> forall|i: int|
            0 <= i < results.len() ==> (#[trigger] results[i]) == Ok::<
                ResolvedTunnelSpecifier,
                String,
            >(bound_tunnels(results)[i]),
    decreases results.len(),
{
    if results.len() > 0 {
        let init = results.drop_last();
        lemma_listening_reports_every_tunnel(init);
        assert forall|i: int| 0 <= i < init.len() implies #[trigger] results[i] == init[i] by {}
        if first_failure(results).is_none() {
            assert forall|i: int| 0 <= i < results.len() implies (#[trigger] results[i]) == Ok::<
                ResolvedTunnelSpecifier,
                String,
            >(bound_tunnels(results)[i]) by {
                if i < results.len() - 1 {
                    assert(results[i] == init[i]);
                }
            }
        }
        if forall|i: int| 0 <= i < results.len() ==> (#[trigger] results[i]) is Ok {
            assert forall|i: int| 0 <= i < init.len() implies (#[trigger] init[i]) is Ok by {
                assert(results[i] == init[i]);
            }
            assert(results[results.len() - 1] is Ok);
        }
        if first_failure(results).is_none() {
        } else if first_failure(init).is_some() {
            let j = choose|j: int| 0 <= j < init.len() && (#[trigger] init[j]) is Err;
            assert(results[j] == init[j]);
        } else {
            assert(results[results.len() - 1] is Err);
        }
    }
}

/// The server's answer once the tunnels are bound, their outcomes given in
/// the order they finished: the first failure ends the connection without
/// an answer; otherwise the opened tunnels, in that order, with the public
/// host.
pub fn listening_reply(
    public_host: Option<String>,
    results: Vec<Result<ResolvedTunnelSpecifier, String>>,
) -> (r: Result<ServerControlHello, String>)
    ensures
        match first_failure(results@) {
            Some(e) => r matches Err(re) && re@ == e,
            None => r matches Ok(ServerControlHello::Listening { specifiers, public_host: h })
                && specifiers@ == bound_tunnels(results@) && h == public_host,
        },
{
    let mut opened: Vec<ResolvedTunnelSpecifier> = Vec::new();
    let mut i: usize = 0;
    while i < results.len()
        invariant
            i <= results@.len(),
            first_failure(results@.take(i as int)).is_none(),
            opened@ == bound_tunnels(results@.take(i as int)),
        decreases results@.len() - i,
    {
        proof {
            assert(results@.take(i + 1).drop_last() =~= results@.take(i as int));
        }
        match &results[i] {
            Ok(t) => {
                opened.push(*t);
            },
            Err(e) => {
                proof {
                    lemma_first_failure_prefix(results@, i + 1);
                }
                return Err(e.clone());
            },
        }
        i = i + 1;
    }
    assert(results@.take(results@.len() as int) =~= results@);
    Ok(ServerControlHello::Listening { specifiers: opened, public_host })
}

} // verus!
