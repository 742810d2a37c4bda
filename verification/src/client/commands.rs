//! The client's commands: `init` writes a configuration, `run` opens the
//! tunnels it is given.

use vstd::prelude::*;
use crate::client::config::{Config, GeneralConfig, ServerConfig, TlsConfig};
use crate::tunnel_specifier::{parse_result_view, parse_specifier, TunnelSpecifier};

verus! {

/// `init`: set up a configuration for a server.
#[derive(Debug)]
pub struct InitCommand {
    /// Server host
    pub host: String,
    /// Server port
    pub port: u16,
    /// Overwrite config if it already exists
    pub overwrite: bool,
    /// Authentication token
    pub token: Option<String>,
    /// Use unencrypted connection
    pub no_tls: bool,
}

/// The configuration that `init` writes: the given server and token, and
/// TLS (trusting the usual roots only) unless `no_tls`.
pub open spec fn init_config(cmd: InitCommand, c: Config) -> bool {
    &&& c.server.host == cmd.host
    &&& c.server.port == cmd.port
    &&& c.general == Some(GeneralConfig { token: cmd.token })
    &&& if cmd.no_tls {
        c.tls.is_none()
    } else {
        c.tls == Some(TlsConfig { cert_b64: None, cert_file: None })
    }
}

impl InitCommand {
    /// The configuration to save: the given server and token, with TLS
    /// unless `no_tls`. An existing configuration is kept unless
    /// `overwrite` is set.
    pub fn run(self, config_exists: bool) -> (r: Result<Config, String>)
        ensures
            if !self.overwrite && config_exists {
                r matches Err(e) && e@
                    == "Config path already exists - use --overwite to overwrite config"@
            } else {
                r matches Ok(c) && init_config(self, c)
            },
    {
        if !self.overwrite && config_exists {
            return Err(String::from_str("Config path already exists - use --overwite to overwrite config"));
        }
        let InitCommand { host, port, overwrite: _, token, no_tls } = self;
        Ok(
            Config {
                general: Some(GeneralConfig { token }),
                server: ServerConfig { host, port },
                tls: if no_tls {
                    None
                } else {
                    Some(TlsConfig::default())
                },
            },
        )
    }
}

/// `run`: open the given tunnels.
#[derive(Debug)]
pub struct RunCommand {
    /// Which tunnels to create
    pub tunnel_specifiers: Vec<String>,
}

/// Reads every specifier in order; the first that cannot be read makes
/// the error.
pub open spec fn parse_all(texts: Seq<Seq<char>>) -> Result<Seq<TunnelSpecifier>, Seq<char>>
    decreases texts.len(),
{
    if texts.len() == 0 {
        Ok(seq![])
    } else {
        match parse_all(texts.drop_last()) {
            Err(e) => Err(e),
            Ok(done) => match parse_specifier(texts.last()) {
                Ok(t) => Ok(done.push(t)),
                Err(e) => Err(e),
            },
        }
    }
}

/// The texts of a list of strings.
pub open spec fn texts_of(v: Seq<String>) -> Seq<Seq<char>> {
    v.map_values(|s: String| s@)
}

/// What `run` does with a configuration: connect to this server, with
/// TLS settings if any, present this token, and ask for these tunnels.
#[derive(Debug)]
pub struct RunPlan {
    pub server_addr: (String, u16),
    pub tls: Option<TlsConfig>,
    pub token: Option<String>,
    pub tunnel_specifiers: Vec<TunnelSpecifier>,
}

impl RunCommand {
    /// The tunnels asked for; an error naming the first one that cannot
    /// be read.
    pub fn parse_specifiers(&self) -> (r: Result<Vec<TunnelSpecifier>, String>)
        ensures
            match parse_all(texts_of(self.tunnel_specifiers@)) {
                Ok(v) => r matches Ok(rv) && rv@ == v,
                Err(e) => r matches Err(re) && re@ == "Failed to parse tunnel specifier: "@ + e,
            },
    {
        let ghost texts = texts_of(self.tunnel_specifiers@);
        let mut out: Vec<TunnelSpecifier> = Vec::new();
        let mut i: usize = 0;
        while i < self.tunnel_specifiers.len()
            invariant
                i <= self.tunnel_specifiers@.len(),
                texts == texts_of(self.tunnel_specifiers@),
                parse_all(texts.take(i as int)) == Ok::<Seq<TunnelSpecifier>, Seq<char>>(out@),
            decreases self.tunnel_specifiers@.len() - i,
        {
            proof {
                assert(texts.take(i + 1).drop_last() =~= texts.take(i as int));
                assert(texts.take(i + 1).last() == self.tunnel_specifiers@[i as int]@);
            }
            match TunnelSpecifier::parse(self.tunnel_specifiers[i].as_str()) {
                Ok(t) => {
                    out.push(t);
                },
                Err(e) => {
                    proof {
                        lemma_parse_all_error_prefix(texts, i + 1);
                    }
                    let msg = String::from_str("Failed to parse tunnel specifier: ");
                    return Err(msg.concat(e.as_str()));
                },
            }
            i = i + 1;
        }
        assert(texts.take(i as int) =~= texts);
        Ok(out)
    }

    /// Plans the run under `config`: the server of the configuration, its
    /// TLS settings, its token, and the tunnels asked for.
    pub fn run(&self, config: Config) -> (r: Result<RunPlan, String>)
        ensures
            match parse_all(texts_of(self.tunnel_specifiers@)) {
                Ok(v) => r matches Ok(plan) && plan.tunnel_specifiers@ == v && plan.server_addr == (
                config.server.host,
                config.server.port,
            ) && plan.tls == config.tls && plan.token == match config.general {
                    Some(g) => g.token,
                    None => None,
                },
                Err(e) => r matches Err(re) && re@ == "Failed to parse tunnel specifier: "@ + e,
            },
    {
        let tunnel_specifiers = match self.parse_specifiers() {
            Ok(v) => v,
            Err(e) => {
                return Err(e);
            },
        };
        let token = config.token();
        let Config { server, tls, general: _ } = config;
        Ok(RunPlan { server_addr: (server.host, server.port), tls, token, tunnel_specifiers })
    }
}

/// An error among the first `k` texts is the error of the whole list.
proof fn lemma_parse_all_error_prefix(texts: Seq<Seq<char>>, k: int)
    requires
        0 <= k <= texts.len(),
        parse_all(texts.take(k)) is Err,
    ensures
        parse_all(texts) == parse_all(texts.take(k)),
    decreases texts.len() - k,
{
    if k < texts.len() {
        assert(texts.take(k + 1).drop_last() =~= texts.take(k));
        lemma_parse_all_error_prefix(texts, k + 1);
    } else {
        assert(texts.take(k) =~= texts);
    }
}

/// Law: the list of specifiers reads exactly when every text reads, and
/// then it holds one specifier per text, in order, each the reading of its
/// text; when some text does not read, the error is that of the first such
/// text.
pub proof fn lemma_parse_all_one_per_text(texts: Seq<Seq<char>>)
    ensures
        parse_all(texts) is Ok <==> forall|i: int|
            0 <= i < texts.len() ==> parse_specifier(#[trigger] texts[i]) is Ok,
        parse_all(texts) is Ok ==> parse_all(texts)->Ok_0.len() == texts.len(),
        parse_all(texts) is Ok ==> forall|i: int|
            0 <= i < texts.len() ==> parse_specifier(#[trigger] texts[i]) == Ok::<
                TunnelSpecifier,
                Seq<char>,
            >(parse_all(texts)->Ok_0[i]),
        parse_all(texts) is Err ==> exists|k: int|
            0 <= k < texts.len() && parse_specifier(#[trigger] texts[k]) == Err::<
                TunnelSpecifier,
                Seq<char>,
            >(parse_all(texts)->Err_0) && forall|j: int|
                0 <= j < k ==> parse_specifier(#[trigger] texts[j]) is Ok,
    decreases texts.len(),
{
    if texts.len() > 0 {
        let init = texts.drop_last();
        let n = texts.len() - 1;
        lemma_parse_all_one_per_text(init);
        assert forall|i: int| 0 <= i < init.len() implies #[trigger] texts[i] == init[i] by {}
        assert(texts[n] == texts.last());
        if parse_all(init) is Ok {
            let done = parse_all(init)->Ok_0;
            if parse_specifier(texts.last()) is Ok {
                assert forall|i: int| 0 <= i < texts.len() implies parse_specifier(
                    #[trigger] texts[i],
                ) == Ok::<TunnelSpecifier, Seq<char>>(parse_all(texts)->Ok_0[i]) by {
                    if i < n {
                        assert(texts[i] == init[i]);
                    }
                }
            } else {
                assert forall|j: int| 0 <= j < n implies parse_specifier(#[trigger] texts[j]) is Ok by {
                    assert(texts[j] == init[j]);
                }
            }
        } else {
            let k = choose|k: int|
                0 <= k < init.len() && parse_specifier(#[trigger] init[k]) == Err::<
                    TunnelSpecifier,
                    Seq<char>,
                >(parse_all(init)->Err_0) && forall|j: int|
                    0 <= j < k ==> parse_specifier(#[trigger] init[j]) is Ok;
            assert(texts[k] == init[k]);
            assert forall|j: int| 0 <= j < k implies parse_specifier(#[trigger] texts[j]) is Ok by {
                assert(texts[j] == init[j]);
            }
            assert(parse_specifier(texts[k]) is Err);
        }
        if forall|i: int| 0 <= i < texts.len() ==> parse_specifier(#[trigger] texts[i]) is Ok {
            assert forall|i: int| 0 <= i < init.len() implies parse_specifier(#[trigger] init[i]) is Ok by {
                assert(texts[i] == init[i]);
            }
        }
    }
}

} // verus!
