use vstd::prelude::*;

use crate::text::{decimal, decimal_string, push_char};

verus! {

/// What the deployment scripts need to know of a chain: its identifier and
/// the gRPC endpoints of its nodes.
#[derive(Debug, Clone, PartialEq, Eq)]
pub struct ChainInfo {
    pub chain_id: String,
    pub grpc_urls: Vec<String>,
}

pub open spec fn strings_view(v: Seq<String>) -> Seq<Seq<char>> {
    v.map_values(|s: String| s@)
}

impl View for ChainInfo {
    type V = (Seq<char>, Seq<Seq<char>>);

    open spec fn view(&self) -> (Seq<char>, Seq<Seq<char>>) {
        (self.chain_id@, strings_view(self.grpc_urls@))
    }
}

/// A copy of a list of strings.
fn copy_strings(v: &Vec<String>) -> (r: Vec<String>)
    ensures
        strings_view(r@) == strings_view(v@),
{
    let mut r: Vec<String> = Vec::new();
    let n = v.len();
    for i in 0..n
        invariant
            n == v@.len(),
            r@.len() == i,
            strings_view(r@) == strings_view(v@.subrange(0, i as int)),
    {
        let ghost old_r = r@;
        r.push(v[i].clone());
        assert forall|k: int| 0 <= k < i + 1 implies #[trigger] strings_view(r@)[k]
            == strings_view(v@.subrange(0, i + 1))[k] by {
            if k < i {
                assert(strings_view(old_r)[k] == strings_view(v@.subrange(0, i as int))[k]);
            }
        }
        assert(strings_view(r@) =~= strings_view(v@.subrange(0, i + 1)));
    }
    assert(v@.subrange(0, n as int) =~= v@);
    r
}

impl ChainInfo {
    /// A copy of the chain's description.
    pub fn copy(&self) -> (r: ChainInfo)
        ensures
            r@ == self@,
    {
        ChainInfo { chain_id: self.chain_id.clone(), grpc_urls: copy_strings(&self.grpc_urls) }
    }
}

/// How a daemon is to be built for a chain: the state to share with
/// another daemon, the mnemonic to sign with and the deployment to use,
/// each only where one is given.
#[derive(Debug, Clone, PartialEq, Eq)]
pub struct DaemonSettings<C, S> {
    pub chain: C,
    pub state: Option<S>,
    pub mnemonic: Option<String>,
    pub deployment_id: Option<String>,
}

/// The settings of a daemon for `chain`: a state, a mnemonic and a
/// deployment identifier are set exactly where they are given.
pub fn get_daemon<C, S>(
    chain: C,
    mnemonic: Option<String>,
    deployment_id: Option<String>,
    state: Option<S>,
) -> (d: DaemonSettings<C, S>)
    ensures
        d.chain == chain,
        d.state == state,
        d.mnemonic == mnemonic,
        d.deployment_id == deployment_id,
{
    let mut settings = DaemonSettings { chain, state: None, mnemonic: None, deployment_id: None };
    if let Some(state) = state {
        settings.state = Some(state);
    }
    if let Some(mnemonic) = mnemonic {
        settings.mnemonic = Some(mnemonic);
    }
    if let Some(deployment_id) = deployment_id {
        settings.deployment_id = Some(deployment_id);
    }
    settings
}

/// The separator between the two chains of a deployment identifier.
pub open spec fn deployment_arrow() -> Seq<char> {
    seq!['-', '-', '>']
}

/// The identifier of the deployment that links `src_chain` to `dst_chain`:
/// the source's chain id, `-->`, then the destination's.
pub fn get_deployment_id(src_chain: &ChainInfo, dst_chain: &ChainInfo) -> (id: String)
    ensures
        id@ == src_chain.chain_id@ + deployment_arrow() + dst_chain.chain_id@,
{
    let mut id = src_chain.chain_id.clone();
    push_char(&mut id, '-');
    push_char(&mut id, '-');
    push_char(&mut id, '>');
    id.append(dst_chain.chain_id.as_str());
    id
}

/// The only state a daemon of the IBC connection borrows: that of the
/// daemon of the source chain, built first.
#[derive(Debug, Clone, Copy, PartialEq, Eq)]
pub enum SharedState {
    SourceDaemon,
}

/// The daemons of an IBC connection.
#[derive(Debug, Clone, Copy, PartialEq, Eq)]
pub enum DaemonRole {
    /// The daemon of the source chain.
    Source,
    /// The daemon of the destination chain.
    Destination,
    /// The daemon on the source chain that holds the polytone deployment
    /// between the two chains.
    Polytone,
}

/// One step of an IBC connection.
#[derive(Debug, Clone, Copy, PartialEq, Eq)]
pub enum ConnectStep {
    /// Build the daemon with this role from its settings.
    BuildDaemon(DaemonRole),
    /// Load the Abstract deployment on the chain of this daemon.
    LoadAbstract(DaemonRole),
    /// Connect the Abstract deployment of `from` to that of `to`, through
    /// the interchain environment made of the two daemons.
    ConnectAbstract { from: DaemonRole, to: DaemonRole },
}

/// How to connect two chains over IBC: the settings of the three daemons,
/// and the steps to take, in order.
#[derive(Debug, Clone, PartialEq, Eq)]
pub struct ConnectPlan {
    pub source: DaemonSettings<ChainInfo, SharedState>,
    pub destination: DaemonSettings<ChainInfo, SharedState>,
    pub polytone: DaemonSettings<ChainInfo, SharedState>,
    pub steps: Vec<ConnectStep>,
}

/// The steps of an IBC connection: build the source and destination
/// daemons, load their Abstract deployments, build the polytone daemon,
/// then connect the source's deployment to the destination's.
pub open spec fn connect_steps() -> Seq<ConnectStep> {
    seq![
        ConnectStep::BuildDaemon(DaemonRole::Source),
        ConnectStep::BuildDaemon(DaemonRole::Destination),
        ConnectStep::LoadAbstract(DaemonRole::Source),
        ConnectStep::LoadAbstract(DaemonRole::Destination),
        ConnectStep::BuildDaemon(DaemonRole::Polytone),
        ConnectStep::ConnectAbstract { from: DaemonRole::Source, to: DaemonRole::Destination },
    ]
}

pub open spec fn string_opt_view(s: Option<String>) -> Option<Seq<char>> {
    match s {
        Some(s) => Some(s@),
        None => None,
    }
}

/// Settings for `chain` with the given mnemonic, deployment and state.
pub open spec fn settings_are(
    d: DaemonSettings<ChainInfo, SharedState>,
    chain: (Seq<char>, Seq<Seq<char>>),
    mnemonic: Option<Seq<char>>,
    deployment_id: Option<Seq<char>>,
    state: Option<SharedState>,
) -> bool {
    &&& d.chain@ == chain
    &&& string_opt_view(d.mnemonic) == mnemonic
    &&& string_opt_view(d.deployment_id) == deployment_id
    &&& d.state == state
}

fn copy_opt_string(s: &Option<String>) -> (r: Option<String>)
    ensures
        string_opt_view(r) == string_opt_view(*s),
{
    match s {
        Some(s) => Some(s.clone()),
        None => None,
    }
}

/// Plans the IBC connection of `src` to `dst` (each a chain with an
/// optional mnemonic): the source daemon on its own, the destination
/// daemon sharing the source's state, and the polytone daemon on the
/// source chain, with the source's mnemonic, the deployment identifier of
/// the pair and the source's state; the steps are those of
/// `connect_steps`, ending with the connection of the source's Abstract
/// deployment to the destination's.
pub fn connect(src: (ChainInfo, Option<String>), dst: (ChainInfo, Option<String>)) -> (p:
    ConnectPlan)
    ensures
        settings_are(p.source, src.0@, string_opt_view(src.1), None, None),
        settings_are(
            p.destination,
            dst.0@,
            string_opt_view(dst.1),
            None,
            Some(SharedState::SourceDaemon),
        ),
        settings_are(
            p.polytone,
            src.0@,
            string_opt_view(src.1),
            Some(src.0.chain_id@ + deployment_arrow() + dst.0.chain_id@),
            Some(SharedState::SourceDaemon),
        ),
        p.steps@ == connect_steps(),
{
    let (src_chain, src_mnemonic) = src;
    let (dst_chain, dst_mnemonic) = dst;
    let deployment_id = get_deployment_id(&src_chain, &dst_chain);
    let source = get_daemon(src_chain.copy(), copy_opt_string(&src_mnemonic), None, None);
    let destination = get_daemon(
        dst_chain,
        dst_mnemonic,
        None,
        Some(SharedState::SourceDaemon),
    );
    let polytone = get_daemon(
        src_chain,
        src_mnemonic,
        Some(deployment_id),
        Some(SharedState::SourceDaemon),
    );
    let steps = vec![
        ConnectStep::BuildDaemon(DaemonRole::Source),
        ConnectStep::BuildDaemon(DaemonRole::Destination),
        ConnectStep::LoadAbstract(DaemonRole::Source),
        ConnectStep::LoadAbstract(DaemonRole::Destination),
        ConnectStep::BuildDaemon(DaemonRole::Polytone),
        ConnectStep::ConnectAbstract { from: DaemonRole::Source, to: DaemonRole::Destination },
    ];
    proof {
        assert(steps@ =~= connect_steps());
    }
    ConnectPlan { source, destination, polytone, steps }
}

/// The chains to deploy on: those asked for, or all supported chains when
/// none is.
pub fn networks_to_deploy<C>(networks: Vec<C>, supported: Vec<C>) -> (r: Vec<C>)
    ensures
        r == (if networks@.len() == 0 {
            supported
        } else {
            networks
        }),
{
    if networks.len() == 0 {
        supported
    } else {
        networks
    }
}

/// The parts of a URL as a tuple: host, port, scheme.
pub type UrlPartsView = (Option<Seq<char>>, Option<u16>, Seq<char>);

/// What `Url::parse` of the url crate (which reqwest re-exports) yields
/// for a text, as the gRPC ping reads it: on success the host if there is
/// one, the explicit port or else the scheme's default port if there is
/// one, and the scheme; on failure the parse error's message (its
/// `Display`).
pub uninterp spec fn url_parse(input: Seq<char>) -> Result<(Option<Seq<char>>, Option<u16>, Seq<char>), Seq<char>>;

/// The parts of a parsed URL.
#[derive(Debug, Clone, PartialEq, Eq)]
pub struct UrlParts {
    pub host: Option<String>,
    pub port: Option<u16>,
    pub scheme: String,
}

pub open spec fn url_parts_view(p: UrlParts) -> UrlPartsView {
    (string_opt_view(p.host), p.port, p.scheme@)
}

/// A parse result with its texts taken by their views.
pub open spec fn parsed_view(r: Result<UrlParts, String>) -> Result<UrlPartsView, Seq<char>> {
    match r {
        Ok(p) => Ok(url_parts_view(p)),
        Err(e) => Err(e@),
    }
}

/// `reqwest::Url::parse`, read through `host_str`, `port_or_known_default`
/// and `scheme`, with a parse error turned into its message. The result is
/// the name `url_parse` of the input.
#[verifier::external_body]
fn parse_url(input: &str) -> (r: Result<UrlParts, String>)
    ensures
        parsed_view(r) == url_parse(input@),
{
    match reqwest::Url::parse(input) {
        Ok(url) => Ok(
            UrlParts {
                host: url.host_str().map(String::from),
                port: url.port_or_known_default(),
                scheme: String::from(url.scheme()),
            },
        ),
        Err(e) => Err(e.to_string()),
    }
}

/// Why a gRPC endpoint cannot be pinged.
#[derive(Debug, Clone, PartialEq, Eq)]
pub enum PingError {
    /// The endpoint is not a URL; the parser's explanation.
    InvalidUrl { reason: String },
    /// The URL names no host.
    NoHost,
    /// The URL has no port, and its scheme has no default one.
    NoPort { scheme: String },
}

/// The socket address `host:port`.
pub open spec fn socket_addr_text(host: Seq<char>, port: u16) -> Seq<char> {
    host.push(':') + decimal(port as nat)
}

/// What pinging an endpoint with the given parse result connects to, if
/// anything.
pub open spec fn ping_target(parsed: Result<UrlPartsView, Seq<char>>) -> Option<Seq<char>> {
    match parsed {
        Ok((Some(host), Some(port), _)) => Some(socket_addr_text(host, port)),
        _ => None,
    }
}

/// The error that pinging an endpoint with the given parse result meets:
/// the parser's message for an unparsable URL, no host, or no port (with
/// the scheme).
pub open spec fn ping_failure_is(parsed: Result<UrlPartsView, Seq<char>>, e: PingError) -> bool {
    match parsed {
        Err(reason) => e matches PingError::InvalidUrl { reason: r } && r@ == reason,
        Ok((None, _, _)) => e is NoHost,
        Ok((Some(_), None, scheme)) => e matches PingError::NoPort { scheme: s } && s@ == scheme,
        Ok((Some(_), Some(_), _)) => false,
    }
}

/// The socket address to ping for a parsed URL: its host and port, or the
/// error for a URL that did not parse, names no host or has no port.
pub fn socket_addr_of(parsed: Result<UrlParts, String>) -> (r: Result<String, PingError>)
    ensures
        match ping_target(parsed_view(parsed)) {
            Some(addr) => r matches Ok(s) && s@ == addr,
            None => r matches Err(e) && ping_failure_is(parsed_view(parsed), e),
        },
{
    match parsed {
        Err(reason) => Err(PingError::InvalidUrl { reason }),
        Ok(parts) => match parts.host {
            None => Err(PingError::NoHost),
            Some(host) => match parts.port {
                None => Err(PingError::NoPort { scheme: parts.scheme }),
                Some(port) => {
                    let mut addr = host;
                    push_char(&mut addr, ':');
                    let digits = decimal_string(port as u128);
                    addr.append(digits.as_str());
                    Ok(addr)
                },
            },
        },
    }
}

/// The socket address that pinging the gRPC endpoint `url` connects to:
/// the URL's host and its port (or its scheme's default port), or why
/// there is none.
pub fn grpc_socket_addr(url: &str) -> (r: Result<String, PingError>)
    ensures
        match ping_target(url_parse(url@)) {
            Some(addr) => r matches Ok(s) && s@ == addr,
            None => r matches Err(e) && ping_failure_is(url_parse(url@), e),
        },
{
    socket_addr_of(parse_url(url))
}

/// The networks that the deployment script can target.
#[derive(Debug, Clone, Copy, PartialEq, Eq)]
pub enum Network {
    Mainnet,
    Testnet,
    Local,
}

/// The network named on the command line: `main`, `testnet` or `local`;
/// `None` for any other name.
pub fn parse_network(name: &str) -> (r: Option<Network>)
    ensures
        r == (if name@ == seq!['m', 'a', 'i', 'n'] {
            Some(Network::Mainnet)
        } else if name@ == seq!['t', 'e', 's', 't', 'n', 'e', 't'] {
            Some(Network::Testnet)
        } else if name@ == seq!['l', 'o', 'c', 'a', 'l'] {
            Some(Network::Local)
        } else {
            None
        }),
{
    let main = crate::text::text_of(&['m', 'a', 'i', 'n']);
    let testnet = crate::text::text_of(&['t', 'e', 's', 't', 'n', 'e', 't']);
    let local = crate::text::text_of(&['l', 'o', 'c', 'a', 'l']);
    if crate::text::text_eq(name, main.as_str()) {
        Some(Network::Mainnet)
    } else if crate::text::text_eq(name, testnet.as_str()) {
        Some(Network::Testnet)
    } else if crate::text::text_eq(name, local.as_str()) {
        Some(Network::Local)
    } else {
        None
    }
}

} // verus!
