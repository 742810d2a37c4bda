//! The server's side of a control connection's handshake: whether a
//! client's hello is accepted, and what the server answers.

use vstd::prelude::*;
use crate::protocol::{ClientControlHello, ServerControlHello};
use crate::server::config::GeneralConfig;
use crate::text::{decimal, push_decimal};
use crate::server::tunnel_listener::{requested_port, resolved_tunnel};
use crate::tunnel_specifier::{ResolvedTunnelSpecifier, TunnelSpecifier};

verus! {

/// The verdict on a client's hello.
#[derive(Debug, Clone, PartialEq, Eq)]
pub enum HelloValidation {
    Success,
    InvalidToken,
    /// The server ports the client may not have, in the order asked for;
    /// `0` stands for a request of a port of the server's choice.
    ForbiddenPorts(Vec<u16>),
}

/// A string option taken as text.
pub open spec fn opt_text(o: Option<String>) -> Option<Seq<char>> {
    match o {
        Some(s) => Some(s@),
        None => None,
    }
}

/// The server requires a token and the client did not send that token.
pub open spec fn token_rejected(required: Option<Seq<char>>, given: Option<Seq<char>>) -> bool {
    match required {
        None => false,
        Some(t) => match given {
            None => true,
            Some(g) => g != t,
        },
    }
}

/// The server ports asked for by `specs` that are not in `allowed`, in
/// order; a request of any port counts as port `0`.
pub open spec fn forbidden_ports(allowed: Seq<u16>, specs: Seq<TunnelSpecifier>) -> Seq<u16>
    decreases specs.len(),
{
    if specs.len() == 0 {
        seq![]
    } else {
        let rest = forbidden_ports(allowed, specs.drop_last());
        match specs.last().server_port {
            Some(p) => if allowed.contains(p) {
                rest
            } else {
                rest.push(p)
            },
            None => rest.push(0),
        }
    }
}

/// The verdict on `hello` under `config`: the token is checked first, then
/// the ports, if the server restricts them.
pub open spec fn hello_verdict(config: GeneralConfig, hello: ClientControlHello) -> Option<
    Option<Seq<u16>>,
> {
    if token_rejected(opt_text(config.token), opt_text(hello.token)) {
        None
    } else {
        match config.allowed_ports {
            None => Some(None),
            Some(allowed) => {
                let f = forbidden_ports(allowed@, hello.specifiers@);
                if f.len() == 0 {
                    Some(None)
                } else {
                    Some(Some(f))
                }
            },
        }
    }
}

/// The port `spec` asks for is refused under `allowed`: a fixed port that
/// is not one of the allowed ports, or a port of the server's choice (`0`).
pub open spec fn refuses(allowed: Seq<u16>, spec: TunnelSpecifier, port: u16) -> bool {
    ||| (spec.server_port == Some(port) && !allowed.contains(port))
    ||| (spec.server_port is None && port == 0)
}

/// Some request of `specs` has its port `port` refused under `allowed`.
pub open spec fn refused_in(allowed: Seq<u16>, specs: Seq<TunnelSpecifier>, port: u16) -> bool {
    exists|i: int| 0 <= i < specs.len() && #[trigger] refuses(allowed, specs[i], port)
}

/// Law: a port is let through only by being one of the allowed ports.
/// Every request of a fixed port that is not allowed, and every request of
/// a port of the server's choice, has its port listed as forbidden, and
/// every port listed answers such a request.
pub proof fn lemma_forbidden_ports_by_membership(allowed: Seq<u16>, specs: Seq<TunnelSpecifier>)
    ensures
        forbidden_ports(allowed, specs).len() <= specs.len(),
        forall|i: int, p: u16|
            0 <= i < specs.len() && #[trigger] refuses(allowed, specs[i], p) ==> forbidden_ports(
                allowed,
                specs,
            ).contains(p),
        forall|k: int|
            0 <= k < forbidden_ports(allowed, specs).len() ==> #[trigger] refused_in(
                allowed,
                specs,
                forbidden_ports(allowed, specs)[k],
            ),
    decreases specs.len(),
{
    if specs.len() > 0 {
        let init = specs.drop_last();
        let n = specs.len() - 1;
        let rest = forbidden_ports(allowed, init);
        let f = forbidden_ports(allowed, specs);
        lemma_forbidden_ports_by_membership(allowed, init);
        assert forall|i: int| 0 <= i < init.len() implies #[trigger] specs[i] == init[i] by {}
        assert(specs[n] == specs.last());
        assert(f == rest || f == rest.push(f.last()));
        assert forall|k: int| 0 <= k < rest.len() implies f[k] == rest[k] by {}
        assert forall|i: int, p: u16|
            0 <= i < specs.len() && #[trigger] refuses(allowed, specs[i], p) implies f.contains(p) by {
            if i < n {
                assert(refuses(allowed, init[i], p));
                let k = choose|k: int| 0 <= k < rest.len() && rest[k] == p;
                assert(f[k] == p);
            } else {
                assert(f[f.len() - 1] == p);
            }
        }
        assert forall|k: int| 0 <= k < f.len() implies #[trigger] refused_in(allowed, specs, f[k]) by {
            if k < rest.len() {
                assert(refused_in(allowed, init, rest[k]));
                let i = choose|i: int| 0 <= i < init.len() && #[trigger] refuses(allowed, init[i], rest[k]);
                assert(refuses(allowed, specs[i], f[k]));
            } else {
                assert(refuses(allowed, specs[n], f[k]));
            }
        }
    }
}

/// Law: under a port restriction, a hello whose token passes is accepted
/// exactly when every tunnel asks for a fixed port that is one of the
/// allowed ports; a hello asking for a port that is not allowed is refused
/// with that port among those listed.
pub proof fn lemma_hello_ports_by_membership(config: GeneralConfig, hello: ClientControlHello, i: int, p: u16)
    requires
        config.allowed_ports is Some,
        !token_rejected(opt_text(config.token), opt_text(hello.token)),
    ensures
        hello_verdict(config, hello) == Some(None::<Seq<u16>>) <==> forall|j: int|
            0 <= j < hello.specifiers@.len() ==> (#[trigger] hello.specifiers@[j]).server_port is Some
                && config.allowed_ports->Some_0@.contains(hello.specifiers@[j].server_port->Some_0),
        0 <= i < hello.specifiers@.len() && hello.specifiers@[i].server_port == Some(p)
            && !config.allowed_ports->Some_0@.contains(p) ==> hello_verdict(config, hello) is Some
            && hello_verdict(config, hello)->Some_0 is Some && hello_verdict(
            config,
            hello,
        )->Some_0->Some_0.contains(p),
{
    let allowed = config.allowed_ports->Some_0@;
    let specs = hello.specifiers@;
    let f = forbidden_ports(allowed, specs);
    lemma_forbidden_ports_by_membership(allowed, specs);
    if 0 <= i < specs.len() && specs[i].server_port == Some(p) && !allowed.contains(p) {
        assert(refuses(allowed, specs[i], p));
    }
    if f.len() == 0 {
        assert forall|j: int| 0 <= j < specs.len() implies (#[trigger] specs[j]).server_port is Some
            && allowed.contains(specs[j].server_port->Some_0) by {
            if specs[j].server_port is None {
                assert(refuses(allowed, specs[j], 0));
            } else {
                let q = specs[j].server_port->Some_0;
                if !allowed.contains(q) {
                    assert(refuses(allowed, specs[j], q));
                }
            }
        }
    } else {
        assert(refused_in(allowed, specs, f[0]));
        let j = choose|j: int| 0 <= j < specs.len() && #[trigger] refuses(allowed, specs[j], f[0]);
        assert(!(specs[j].server_port is Some && allowed.contains(specs[j].server_port->Some_0)));
    }
}

/// The outcome of a validation: `None` when the token is refused,
/// `Some(None)` when the hello is accepted, `Some(Some(ports))` when ports
/// are refused.
pub open spec fn validation_view(v: HelloValidation) -> Option<Option<Seq<u16>>> {
    match v {
        HelloValidation::InvalidToken => None,
        HelloValidation::Success => Some(None),
        HelloValidation::ForbiddenPorts(p) => Some(Some(p@)),
    }
}

/// Port numbers written out and separated by `, `.
pub open spec fn port_list_text(ports: Seq<u16>) -> Seq<char>
    decreases ports.len(),
{
    if ports.len() == 0 {
        seq![]
    } else if ports.len() == 1 {
        decimal(ports[0] as nat)
    } else {
        port_list_text(ports.drop_last()) + ", "@ + decimal(ports.last() as nat)
    }
}

/// The reason given to a client that asked for forbidden ports.
pub open spec fn forbidden_ports_reason(ports: Seq<u16>) -> Seq<char> {
    "Cannot bind to following port(s): "@ + port_list_text(ports)
}

fn strings_equal(a: &String, b: &String) -> (r: bool)
    ensures
        r == (a@ == b@),
{
    a.eq(b)
}

fn vec_contains(v: &Vec<u16>, x: u16) -> (r: bool)
    ensures
        r == v@.contains(x),
{
    let mut i: usize = 0;
    while i < v.len()
        invariant
            i <= v.len(),
            forall|j: int| 0 <= j < i ==> v@[j] != x,
        decreases v.len() - i,
    {
        if v[i] == x {
            return true;
        }
        i = i + 1;
    }
    false
}

/// Decides whether a client's hello is accepted: a server that requires a
/// token refuses a hello without that token; a server that restricts ports
/// refuses a hello asking for other ports, and names them.
pub fn validate_hello(config: &GeneralConfig, hello: &ClientControlHello) -> (r: HelloValidation)
    ensures
        validation_view(r) == hello_verdict(*config, *hello),
{
    match &config.token {
        Some(token) => {
            let ok = match &hello.token {
                Some(given) => strings_equal(given, token),
                None => false,
            };
            if !ok {
                return HelloValidation::InvalidToken;
            }
        },
        None => {},
    }
    match &config.allowed_ports {
        None => HelloValidation::Success,
        Some(allowed) => {
            let mut forbidden: Vec<u16> = Vec::new();
            let mut i: usize = 0;
            while i < hello.specifiers.len()
                invariant
                    i <= hello.specifiers@.len(),
                    forbidden@ == forbidden_ports(allowed@, hello.specifiers@.take(i as int)),
                decreases hello.specifiers@.len() - i,
            {
                let specifier = hello.specifiers[i];
                proof {
                    assert(hello.specifiers@.take(i + 1).drop_last() =~= hello.specifiers@.take(
                        i as int,
                    ));
                }
                match specifier.server_port {
                    Some(port) => {
                        if !vec_contains(allowed, port) {
                            forbidden.push(port);
                        }
                    },
                    None => {
                        forbidden.push(0);
                    },
                }
                i = i + 1;
            }
            assert(hello.specifiers@.take(hello.specifiers@.len() as int) =~= hello.specifiers@);
            if forbidden.len() == 0 {
                HelloValidation::Success
            } else {
                HelloValidation::ForbiddenPorts(forbidden)
            }
        },
    }
}

/// Writes out port numbers separated by `, `.
pub fn port_list(ports: &Vec<u16>) -> (r: String)
    ensures
        r@ == port_list_text(ports@),
{
    let mut s = String::new();
    let mut i: usize = 0;
    while i < ports.len()
        invariant
            i <= ports@.len(),
            s@ == port_list_text(ports@.take(i as int)),
        decreases ports@.len() - i,
    {
        proof {
            assert(ports@.take(i + 1).drop_last() =~= ports@.take(i as int));
            reveal_strlit(", ");
        }
        if i > 0 {
            s.append(", ");
        }
        push_decimal(&mut s, ports[i] as u64);
        proof {
            if i == 0 {
                assert(s@ =~= decimal(ports@[0] as nat));
            }
        }
        i = i + 1;
    }
    assert(ports@.take(ports@.len() as int) =~= ports@);
    s
}

impl HelloValidation {
    /// The answer that ends the handshake when the hello is refused.
    pub fn rejection(&self) -> (r: Option<ServerControlHello>)
        ensures
            match self {
                HelloValidation::Success => r.is_none(),
                HelloValidation::InvalidToken => r matches Some(ServerControlHello::Error { reason })
                    && reason@ == "Invalid token"@,
                HelloValidation::ForbiddenPorts(ports) => r matches Some(
                    ServerControlHello::Error { reason },
                ) && reason@ == forbidden_ports_reason(ports@),
            },
    {
        match self {
            HelloValidation::Success => None,
            HelloValidation::InvalidToken => Some(
                ServerControlHello::error(String::from_str("Invalid token")),
            ),
            HelloValidation::ForbiddenPorts(ports) => {
                let s = String::from_str("Cannot bind to following port(s): ");
                let list = port_list(ports);
                Some(ServerControlHello::error(s.concat(list.as_str())))
            },
        }
    }
}

/// Why a tunnel listener could not be bound.
#[derive(Debug, Clone, Copy, PartialEq, Eq, Structural)]
pub enum BindError {
    PermissionDenied,
    AddrInUse,
    Other,
}

/// The reason told to a client when one of its tunnels could not be bound.
pub open spec fn bind_error_reason(e: BindError) -> Seq<char> {
    match e {
        BindError::PermissionDenied => "Permission denied - cannot bind to one or more ports"@,
        BindError::AddrInUse => "One or more ports are already in use"@,
        BindError::Other => "Unknown error!"@,
    }
}

/// The first failure among the listeners' outcomes, in the order given.
pub open spec fn first_bind_error(results: Seq<Result<ResolvedTunnelSpecifier, BindError>>) -> Option<
    BindError,
>
    decreases results.len(),
{
    if results.len() == 0 {
        None
    } else {
        match first_bind_error(results.drop_last()) {
            Some(e) => Some(e),
            None => match results.last() {
                Err(e) => Some(e),
                Ok(_) => None,
            },
        }
    }
}

/// The tunnels that were opened, in the order given.
pub open spec fn opened_tunnels(results: Seq<Result<ResolvedTunnelSpecifier, BindError>>) -> Seq<
    ResolvedTunnelSpecifier,
>
    decreases results.len(),
{
    if results.len() == 0 {
        seq![]
    } else {
        let rest = opened_tunnels(results.drop_last());
        match results.last() {
            Ok(t) => rest.push(t),
            Err(_) => rest,
        }
    }
}

fn bind_error_message(e: BindError) -> (r: String)
    ensures
        r@ == bind_error_reason(e),
{
    match e {
        BindError::PermissionDenied => String::from_str(
            "Permission denied - cannot bind to one or more ports",
        ),
        BindError::AddrInUse => String::from_str("One or more ports are already in use"),
        BindError::Other => String::from_str("Unknown error!"),
    }
}

fn clone_opt_string(o: &Option<String>) -> (r: Option<String>)
    ensures
        r == *o,
{
    match o {
        Some(s) => Some(s.clone()),
        None => None,
    }
}

/// The server's answer once it has tried to open every tunnel, the
/// outcomes given in the order they finished. If one failed, the answer
/// is an error naming the first failure (`Err`: the connection then ends
/// in failure); otherwise it lists the opened tunnels, in that order,
/// with the configured public host.
pub fn handshake_reply(
    config: &GeneralConfig,
    results: Vec<Result<ResolvedTunnelSpecifier, BindError>>,
) -> (r: Result<ServerControlHello, ServerControlHello>)
    ensures
        match first_bind_error(results@) {
            Some(e) => r matches Err(ServerControlHello::Error { reason }) && reason@
                == bind_error_reason(e),
            None => r matches Ok(ServerControlHello::Listening { specifiers, public_host })
                && specifiers@ == opened_tunnels(results@) && public_host == config.public_host,
        },
{
    let mut opened: Vec<ResolvedTunnelSpecifier> = Vec::new();
    let mut i: usize = 0;
    while i < results.len()
        invariant
            i <= results@.len(),
            first_bind_error(results@.take(i as int)).is_none(),
            opened@ == opened_tunnels(results@.take(i as int)),
        decreases results@.len() - i,
    {
        proof {
            assert(results@.take(i + 1).drop_last() =~= results@.take(i as int));
        }
        match &results[i] {
            Ok(t) => {
                opened.push(*t);
            },
            Err(e) => {
                let reason = bind_error_message(*e);
                proof {
                    lemma_first_error_prefix(results@, i + 1);
                }
                return Err(ServerControlHello::error(reason));
            },
        }
        i = i + 1;
    }
    assert(results@.take(results@.len() as int) =~= results@);
    Ok(
        ServerControlHello::Listening {
            specifiers: opened,
            public_host: clone_opt_string(&config.public_host),
        },
    )
}

/// What became of one requested tunnel: opened on the port it was bound
/// to, or the reason it could not be bound.
pub open spec fn bind_result(request: TunnelSpecifier, outcome: Result<u16, BindError>) -> Result<
    ResolvedTunnelSpecifier,
    BindError,
> {
    match outcome {
        Ok(port) => Ok(resolved_tunnel(request, port)),
        Err(e) => Err(e),
    }
}

/// The outcome of each request, in the order given.
pub open spec fn bind_results(binds: Seq<(TunnelSpecifier, Result<u16, BindError>)>) -> Seq<
    Result<ResolvedTunnelSpecifier, BindError>,
> {
    binds.map_values(|b: (TunnelSpecifier, Result<u16, BindError>)| bind_result(b.0, b.1))
}

/// With no failure among the outcomes, every outcome opened a tunnel and
/// the opened tunnels are the outcomes themselves, in order.
proof fn lemma_no_error_all_opened(results: Seq<Result<ResolvedTunnelSpecifier, BindError>>)
    requires
        first_bind_error(results).is_none(),
    ensures
        opened_tunnels(results).len() == results.len(),
        forall|i: int|
            0 <= i < results.len() ==> (#[trigger] results[i]) == Ok::<
                ResolvedTunnelSpecifier,
                BindError,
            >(opened_tunnels(results)[i]),
    decreases results.len(),
{
    if results.len() > 0 {
        lemma_no_error_all_opened(results.drop_last());
        assert forall|i: int| 0 <= i < results.len() implies (#[trigger] results[i]) == Ok::<
            ResolvedTunnelSpecifier,
            BindError,
        >(opened_tunnels(results)[i]) by {
            if i < results.len() - 1 {
                assert(results[i] == results.drop_last()[i]);
            }
        }
    }
}

/// The server's answer once it has tried to bind every requested tunnel,
/// each request given with its outcome (the port bound, or why not) in
/// the order they finished. If one failed, the answer is an error naming
/// the first failure (`Err`); otherwise it lists, for each request in that
/// order, the tunnel opened for it on the port it was bound to, with the
/// configured public host.
pub fn handshake_reply_for_binds(
    config: &GeneralConfig,
    binds: Vec<(TunnelSpecifier, Result<u16, BindError>)>,
) -> (r: Result<ServerControlHello, ServerControlHello>)
    ensures
        match first_bind_error(bind_results(binds@)) {
            Some(e) => r matches Err(ServerControlHello::Error { reason }) && reason@
                == bind_error_reason(e),
            None => r matches Ok(ServerControlHello::Listening { specifiers, public_host })
                && public_host == config.public_host && specifiers@.len() == binds@.len() && (
            forall|i: int|
                0 <= i < binds@.len() ==> (#[trigger] binds@[i]).1 is Ok && specifiers@[i]
                    == resolved_tunnel(binds@[i].0, binds@[i].1->Ok_0)),
        },
{
    let mut results: Vec<Result<ResolvedTunnelSpecifier, BindError>> = Vec::new();
    let mut i: usize = 0;
    while i < binds.len()
        invariant
            i <= binds@.len(),
            results@ == bind_results(binds@).take(i as int),
        decreases binds@.len() - i,
    {
        let (request, outcome) = binds[i];
        let r = match outcome {
            Ok(port) => Ok(
                ResolvedTunnelSpecifier {
                    tunnel_type: request.tunnel_type,
                    client_port: request.client_port,
                    server_port: port,
                },
            ),
            Err(e) => Err(e),
        };
        results.push(r);
        proof {
            assert(bind_results(binds@).take(i + 1) =~= bind_results(binds@).take(i as int).push(
                bind_result(binds@[i as int].0, binds@[i as int].1),
            ));
        }
        i = i + 1;
    }
    let ghost all = bind_results(binds@);
    assert(results@ =~= all);
    let r = handshake_reply(config, results);
    proof {
        if first_bind_error(all).is_none() {
            lemma_no_error_all_opened(all);
            assert forall|i: int| 0 <= i < binds@.len() implies (#[trigger] binds@[i]).1 is Ok
                && opened_tunnels(all)[i] == resolved_tunnel(binds@[i].0, binds@[i].1->Ok_0) by {
                assert(all[i] == bind_result(binds@[i].0, binds@[i].1));
            }
        }
    }
    r
}

/// Request `k` is among those that `order` lists.
pub open spec fn listed(order: Seq<int>, k: int) -> bool {
    exists|i: int| 0 <= i < order.len() && order[i] == k
}

/// `order` lists each of the `n` requests exactly once.
pub open spec fn is_ordering(order: Seq<int>, n: int) -> bool {
    &&& order.len() == n
    &&& forall|i: int| 0 <= i < order.len() ==> 0 <= #[trigger] order[i] < n
    &&& forall|i: int, j: int|
        0 <= i < order.len() && 0 <= j < order.len() && i != j ==> order[i] != order[j]
    &&& forall|k: int| 0 <= k < n ==> #[trigger] listed(order, k)
}

/// Law: when every requested tunnel was bound, the tunnels the server
/// reports match the requests of the hello one to one, up to the order in
/// which the binds finished: with the binds finishing in `order` (reported
/// tunnel `i` answers request `order[i]`, and each request is answered
/// once), each reported tunnel has its request's type and local port, and
/// the port the request asked for whenever it asked for a fixed one (a
/// bind on a fixed port succeeds only on that port).
pub proof fn lemma_reply_matches_requests(
    requested: Seq<TunnelSpecifier>,
    binds: Seq<(TunnelSpecifier, Result<u16, BindError>)>,
    order: Seq<int>,
)
    requires
        is_ordering(order, requested.len() as int),
        binds.len() == requested.len(),
        forall|i: int| 0 <= i < binds.len() ==> (#[trigger] binds[i]).0 == requested[order[i]],
        forall|i: int|
            0 <= i < binds.len() ==> (requested_port((#[trigger] binds[i]).0) != 0 && binds[i].1 is Ok
                ==> binds[i].1->Ok_0 == requested_port(binds[i].0)),
        first_bind_error(bind_results(binds)).is_none(),
    ensures
        opened_tunnels(bind_results(binds)).len() == requested.len(),
        forall|i: int|
            0 <= i < requested.len() ==> {
                let t = #[trigger] opened_tunnels(bind_results(binds))[i];
                let q = requested[order[i]];
                &&& t.tunnel_type == q.tunnel_type
                &&& t.client_port == q.client_port
                &&& (requested_port(q) != 0 ==> t.server_port == requested_port(q))
            },
{
    let all = bind_results(binds);
    lemma_no_error_all_opened(all);
    assert forall|i: int| 0 <= i < requested.len() implies {
        let t = #[trigger] opened_tunnels(all)[i];
        let q = requested[order[i]];
        &&& t.tunnel_type == q.tunnel_type
        &&& t.client_port == q.client_port
        &&& (requested_port(q) != 0 ==> t.server_port == requested_port(q))
    } by {
        assert(all[i] == bind_result(binds[i].0, binds[i].1));
        assert(binds[i].0 == requested[order[i]]);
    }
}

/// A failure among the first `k` outcomes is the first failure of all.
proof fn lemma_first_error_prefix(results: Seq<Result<ResolvedTunnelSpecifier, BindError>>, k: int)
    requires
        0 <= k <= results.len(),
        first_bind_error(results.take(k)).is_some(),
    ensures
        first_bind_error(results) == first_bind_error(results.take(k)),
    decreases results.len() - k,
{
    if k < results.len() {
        assert(results.take(k + 1).drop_last() =~= results.take(k));
        lemma_first_error_prefix(results, k + 1);
    } else {
        assert(results.take(k) =~= results);
    }
}

/// Law: a server that requires no token never refuses a hello for its
/// token.
pub proof fn lemma_no_token_required(config: GeneralConfig, hello: ClientControlHello)
    requires
        config.token.is_none(),
    ensures
        hello_verdict(config, hello).is_some(),
{
}

/// Law: a server that allows all ports never refuses a hello for its
/// ports.
pub proof fn lemma_all_ports_allowed(config: GeneralConfig, hello: ClientControlHello)
    requires
        config.allowed_ports.is_none(),
    ensures
        hello_verdict(config, hello) is Some ==> hello_verdict(config, hello) == Some(
            None::<Seq<u16>>,
        ),
{
}

/// A specifier asks for a fixed server port that is in `allowed`.
pub open spec fn port_allowed(allowed: Seq<u16>, spec: TunnelSpecifier) -> bool {
    match spec.server_port {
        Some(p) => allowed.contains(p),
        None => false,
    }
}

/// Law: with the right token, a hello whose server ports are all allowed
/// is accepted.
pub proof fn lemma_allowed_ports_accepted(config: GeneralConfig, hello: ClientControlHello)
    requires
        !token_rejected(opt_text(config.token), opt_text(hello.token)),
        config.allowed_ports.is_some(),
        forall|i: int|
            0 <= i < hello.specifiers@.len() ==> port_allowed(
                config.allowed_ports->0@,
                #[trigger] hello.specifiers@[i],
            ),
    ensures
        hello_verdict(config, hello) == Some(None::<Seq<u16>>),
{
    lemma_none_forbidden(config.allowed_ports->0@, hello.specifiers@);
}

proof fn lemma_none_forbidden(allowed: Seq<u16>, specs: Seq<TunnelSpecifier>)
    requires
        forall|i: int| 0 <= i < specs.len() ==> port_allowed(allowed, #[trigger] specs[i]),
    ensures
        forbidden_ports(allowed, specs).len() == 0,
    decreases specs.len(),
{
    if specs.len() > 0 {
        let t = specs.drop_last();
        assert forall|i: int| 0 <= i < t.len() implies port_allowed(allowed, #[trigger] t[i]) by {
            assert(t[i] == specs[i]);
        }
        lemma_none_forbidden(allowed, t);
        assert(specs[specs.len() - 1] == specs.last());
    }
}

} // verus!
