use bs_nfts::account::BitsongAccountCollection;
use bs_nfts::deploy::{
    ChainInfo, ConnectStep, DaemonRole, Network, PingError, SharedState, UrlParts, connect, get_daemon, get_deployment_id,
    grpc_socket_addr, networks_to_deploy, parse_network, socket_addr_of,
};

fn chain(id: &str, urls: &[&str]) -> ChainInfo {
    ChainInfo {
        chain_id: String::from(id),
        grpc_urls: urls.iter().map(|u| String::from(*u)).collect(),
    }
}

#[test]
fn deployment_id_joins_chain_ids() {
    let src = chain("bitsong-2b", &[]);
    let dst = chain("juno-1", &[]);
    assert_eq!(get_deployment_id(&src, &dst), "bitsong-2b-->juno-1");
}

#[test]
fn daemon_settings_follow_the_options() {
    let d = get_daemon("chain", Some(String::from("words")), None, Some(7u8));
    assert_eq!(d.chain, "chain");
    assert_eq!(d.mnemonic, Some(String::from("words")));
    assert_eq!(d.deployment_id, None);
    assert_eq!(d.state, Some(7u8));
    let d = get_daemon::<&str, u8>("chain", None, Some(String::from("a-->b")), None);
    assert_eq!(d.mnemonic, None);
    assert_eq!(d.deployment_id, Some(String::from("a-->b")));
    assert_eq!(d.state, None);
}

#[test]
fn connect_plans_three_daemons() {
    let src = chain("bitsong-2b", &["https://grpc.bitsong.io"]);
    let dst = chain("juno-1", &["https://grpc.juno.io"]);
    let plan = connect((src.clone(), Some(String::from("mnemonic"))), (dst.clone(), None));
    assert_eq!(plan.source.chain, src);
    assert_eq!(plan.source.mnemonic, Some(String::from("mnemonic")));
    assert_eq!(plan.source.state, None);
    assert_eq!(plan.source.deployment_id, None);
    assert_eq!(plan.destination.chain, dst);
    assert_eq!(plan.destination.mnemonic, None);
    assert_eq!(plan.destination.state, Some(SharedState::SourceDaemon));
    assert_eq!(plan.polytone.chain, src);
    assert_eq!(plan.polytone.mnemonic, Some(String::from("mnemonic")));
    assert_eq!(plan.polytone.deployment_id, Some(String::from("bitsong-2b-->juno-1")));
    assert_eq!(plan.polytone.state, Some(SharedState::SourceDaemon));
    assert_eq!(
        plan.steps,
        vec![
            ConnectStep::BuildDaemon(DaemonRole::Source),
            ConnectStep::BuildDaemon(DaemonRole::Destination),
            ConnectStep::LoadAbstract(DaemonRole::Source),
            ConnectStep::LoadAbstract(DaemonRole::Destination),
            ConnectStep::BuildDaemon(DaemonRole::Polytone),
            ConnectStep::ConnectAbstract { from: DaemonRole::Source, to: DaemonRole::Destination },
        ]
    );
}

#[test]
fn empty_network_list_means_all_supported() {
    let supported = vec![chain("a", &["x"]), chain("b", &[])];
    assert_eq!(networks_to_deploy(vec![], supported.clone()), supported);
    let asked = vec![chain("c", &[])];
    assert_eq!(networks_to_deploy(asked.clone(), supported), asked);
}

#[test]
fn socket_address_uses_known_default_port() {
    assert_eq!(grpc_socket_addr("https://grpc.bitsong.io"), Ok(String::from("grpc.bitsong.io:443")));
    assert_eq!(grpc_socket_addr("http://localhost"), Ok(String::from("localhost:80")));
    assert_eq!(
        grpc_socket_addr("http://127.0.0.1:9090/path"),
        Ok(String::from("127.0.0.1:9090"))
    );
}

#[test]
fn socket_address_errors() {
    assert_eq!(
        grpc_socket_addr("not a url"),
        Err(PingError::InvalidUrl { reason: String::from("relative URL without a base") })
    );
    assert_eq!(grpc_socket_addr("unix:/run/socket"), Err(PingError::NoHost));
    assert_eq!(
        grpc_socket_addr("grpc://node.example:"),
        Err(PingError::NoPort { scheme: String::from("grpc") })
    );
}

#[test]
fn socket_address_from_parts() {
    let parts = UrlParts {
        host: Some(String::from("h")),
        port: Some(65535),
        scheme: String::from("s"),
    };
    assert_eq!(socket_addr_of(Ok(parts)), Ok(String::from("h:65535")));
    let parts = UrlParts { host: Some(String::from("h")), port: None, scheme: String::from("s") };
    assert_eq!(socket_addr_of(Ok(parts)), Err(PingError::NoPort { scheme: String::from("s") }));
    let parts = UrlParts { host: None, port: Some(1), scheme: String::from("s") };
    assert_eq!(socket_addr_of(Ok(parts)), Err(PingError::NoHost));
    assert_eq!(
        socket_addr_of(Err(String::from("bad"))),
        Err(PingError::InvalidUrl { reason: String::from("bad") })
    );
}

#[test]
fn network_names() {
    assert_eq!(parse_network("main"), Some(Network::Mainnet));
    assert_eq!(parse_network("testnet"), Some(Network::Testnet));
    assert_eq!(parse_network("local"), Some(Network::Local));
    assert_eq!(parse_network("Main"), None);
    assert_eq!(parse_network(""), None);
}

#[test]
fn account_collection_artifact() {
    assert_eq!(BitsongAccountCollection::wasm_artifact_name(), "bs721_accounts");
}
