use base_core::config::{
    BaseDatadir, BuiltInChain, ChainArg, ChainResolver, ConfigError, ConsensusChainConfig,
    ExecutionChainConfig, ResolvedChainConfig, ResolvedChainSource, ResolvedChainValues,
};

#[test]
fn base_config_env_preserves_execution_prefixed_top_level_keys() {
    assert_eq!(ChainResolver::env_override_key("execution_chain"), "execution_chain");
    assert_eq!(ChainResolver::env_override_key("execution_genesis"), "execution_genesis");
    assert_eq!(
        ChainResolver::env_override_key("execution_genesis_path"),
        "execution.genesis_path"
    );
    assert_eq!(
        ChainResolver::env_override_key("consensus_rollup_config_path"),
        "consensus.rollup_config_path"
    );
}

#[test]
fn env_override_key_keeps_other_names() {
    assert_eq!(ChainResolver::env_override_key("l1_slot_duration_override"), "l1_slot_duration_override");
    assert_eq!(ChainResolver::env_override_key("execution_sequencer_url"), "execution.sequencer_url");
    assert_eq!(ChainResolver::env_override_key("execution_"), "execution.");
    assert_eq!(ChainResolver::env_override_key("consensus"), "consensus");
    assert_eq!(ChainResolver::env_override_key(""), "");
}

#[test]
fn built_in_chain_names_and_selectors() {
    assert_eq!(BuiltInChain::Mainnet.as_str(), "mainnet");
    assert_eq!(BuiltInChain::Sepolia.as_str(), "sepolia");
    assert_eq!(BuiltInChain::Zeronet.as_str(), "zeronet");
    assert_eq!(BuiltInChain::Mainnet.execution_chain(), "base");
    assert_eq!(BuiltInChain::Sepolia.execution_chain(), "base-sepolia");
    assert_eq!(BuiltInChain::Zeronet.execution_chain(), "base-zeronet");
}

#[test]
fn built_in_chain_from_l2_chain_id() {
    assert_eq!(BuiltInChain::from_l2_chain_id(8453), Some(BuiltInChain::Mainnet));
    assert_eq!(BuiltInChain::from_l2_chain_id(84532), Some(BuiltInChain::Sepolia));
    assert_eq!(BuiltInChain::from_l2_chain_id(763360), Some(BuiltInChain::Zeronet));
    assert_eq!(BuiltInChain::from_l2_chain_id(999), None);
}

#[test]
fn built_in_chain_parses_ignoring_ascii_case() {
    assert_eq!(BuiltInChain::parse("mainnet"), Ok(BuiltInChain::Mainnet));
    assert_eq!(BuiltInChain::parse("SePoLiA"), Ok(BuiltInChain::Sepolia));
    assert_eq!("ZERONET".parse::<BuiltInChain>(), Ok(BuiltInChain::Zeronet));
    assert_eq!(
        BuiltInChain::parse("devnet"),
        Err("unsupported built-in chain `devnet`; expected one of mainnet, sepolia, zeronet"
            .to_owned())
    );
    assert!(BuiltInChain::parse("mainnet ").is_err());
}

#[test]
fn chain_arg_falls_back_to_a_file_path() {
    assert!(matches!(ChainArg::parse("Mainnet"), ChainArg::BuiltIn(BuiltInChain::Mainnet)));
    match ChainArg::parse("/tmp/chain.toml") {
        ChainArg::File(p) => assert_eq!(p, "/tmp/chain.toml"),
        ChainArg::BuiltIn(_) => panic!("expected a file selection"),
    }
    assert!(matches!(ChainArg::default(), ChainArg::BuiltIn(BuiltInChain::Mainnet)));
}

fn values(name: &str, l2: u64, l1: u64) -> ResolvedChainValues {
    ResolvedChainValues {
        name: name.to_owned(),
        l2_chain_id: l2,
        l1_chain_id: l1,
        execution_chain: None,
        rollup_config_path: None,
        l1_config_path: None,
        l1_slot_duration_override: None,
        execution: ExecutionChainConfig {
            genesis_path: None,
            sequencer_url: None,
            flashblocks_url: None,
        },
        consensus: ConsensusChainConfig {
            rollup_config_path: None,
            l1_config_path: None,
            l1_slot_duration_override: None,
        },
    }
}

#[test]
fn validate_rejects_missing_identity() {
    assert!(matches!(values(" \t", 1, 1).validate(), Err(ConfigError::MissingName)));
    assert!(matches!(values("custom", 0, 1).validate(), Err(ConfigError::MissingL2ChainId)));
    assert!(matches!(values("custom", 999, 0).validate(), Err(ConfigError::MissingL1ChainId)));
    assert!(values("custom", 999, 1).validate().is_ok());
}

#[test]
fn execution_chain_input_prefers_explicit_then_genesis_then_built_in() {
    let mut v = values("sepolia", 84532, 11155111);
    let cfg = ResolvedChainConfig::new(v.clone(), ResolvedChainSource::File("/tmp/c.toml".into()));
    assert_eq!(cfg.execution_chain_input().unwrap(), "base-sepolia");

    v.execution.genesis_path = Some("/tmp/nested-genesis.json".to_owned());
    let cfg = ResolvedChainConfig::new(v.clone(), ResolvedChainSource::File("/tmp/c.toml".into()));
    assert_eq!(cfg.execution_chain_input().unwrap(), "/tmp/nested-genesis.json");

    v.execution_chain = Some("/tmp/genesis.json".to_owned());
    let cfg = ResolvedChainConfig::new(v, ResolvedChainSource::File("/tmp/c.toml".into()));
    assert_eq!(cfg.execution_chain_input().unwrap(), "/tmp/genesis.json");

    let cfg = ResolvedChainConfig::new(
        values("custom", 999, 1),
        ResolvedChainSource::File("/tmp/c.toml".into()),
    );
    assert!(matches!(
        cfg.execution_chain_input(),
        Err(ConfigError::MissingExecutionChain { l2_chain_id: 999 })
    ));
}

#[test]
fn slot_duration_override_prefers_top_level() {
    let mut v = values("custom", 999, 11155111);
    v.consensus.l1_slot_duration_override = Some(8);
    let cfg = ResolvedChainConfig::new(v.clone(), ResolvedChainSource::BuiltIn(BuiltInChain::Mainnet));
    assert_eq!(cfg.l1_slot_duration_override(), Some(8));
    v.l1_slot_duration_override = Some(4);
    let cfg = ResolvedChainConfig::new(v, ResolvedChainSource::BuiltIn(BuiltInChain::Mainnet));
    assert_eq!(cfg.l1_slot_duration_override(), Some(4));
    assert_eq!(cfg.sequencer_url(), None);
}

#[test]
fn datadir_paths_join_the_root() {
    let d = BaseDatadir::new("/data/base".to_owned());
    assert_eq!(d.db_path(), "/data/base/db");
    assert_eq!(d.execution_genesis_path(), "/data/base/base-genesis.json");
    assert_eq!(d.p2p_key_path(), "/data/base/base-p2p-key.txt");
    assert_eq!(d.safedb_path(), "/data/base/base-safedb.redb");
    assert_eq!(d.jwt_secret_path(), "/data/base/jwt.hex");
    assert_eq!(BaseDatadir::new("/data/".to_owned()).db_path(), "/data/db");
    assert_eq!(BaseDatadir::new(String::new()).db_path(), "db");
}

#[test]
fn default_datadir_uses_home_directory() {
    let home = dirs::home_dir().expect("home directory should be available for tests");
    let datadir = BaseDatadir::default_for_chain("devnet").unwrap();

    assert_eq!(std::path::PathBuf::from(datadir.path), home.join(".base").join("devnet"));
}

#[test]
fn datadir_under_home_joins_like_paths() {
    let d = BaseDatadir::under_home(Some("/home/op".to_owned()), "devnet").unwrap();
    assert_eq!(d.path, "/home/op/.base/devnet");
    let d = BaseDatadir::under_home(Some("/home/op/".to_owned()), "devnet").unwrap();
    assert_eq!(d.path, "/home/op/.base/devnet");
    let d = BaseDatadir::under_home(Some("/home/op".to_owned()), "/srv/chain").unwrap();
    assert_eq!(d.path, "/srv/chain");
    assert!(matches!(
        BaseDatadir::under_home(None, "devnet"),
        Err(ConfigError::MissingHomeDirectory)
    ));
}

#[test]
fn flashblocks_url_is_parsed_and_normalized() {
    let mut v = values("custom-chain", 999, 11155111);
    let cfg = ResolvedChainConfig::new(v.clone(), ResolvedChainSource::File("/tmp/c.toml".into()));
    assert!(matches!(cfg.flashblocks_url(), Ok(None)));

    v.execution.flashblocks_url = Some("ws://flashblocks.example".to_owned());
    let cfg = ResolvedChainConfig::new(v.clone(), ResolvedChainSource::File("/tmp/c.toml".into()));
    assert_eq!(cfg.flashblocks_url().unwrap(), Some("ws://flashblocks.example/".to_owned()));

    v.execution.flashblocks_url = Some("not a url".to_owned());
    let cfg = ResolvedChainConfig::new(v, ResolvedChainSource::File("/tmp/c.toml".into()));
    match cfg.flashblocks_url() {
        Err(ConfigError::InvalidFlashblocksUrl { raw }) => assert_eq!(raw, "not a url"),
        other => panic!("expected an invalid URL error, got {other:?}"),
    }
}

#[test]
fn builtin_values_name_the_chain_and_its_execution_chain() {
    let v = ResolvedChainValues::from_builtin(BuiltInChain::Sepolia, 84532, 11155111);
    assert_eq!(v.name, "sepolia");
    assert_eq!(v.l2_chain_id, 84532);
    assert_eq!(v.l1_chain_id, 11155111);
    assert!(v.validate().is_ok());
    let cfg = ResolvedChainConfig::new(v, ResolvedChainSource::BuiltIn(BuiltInChain::Sepolia));
    assert_eq!(cfg.execution_chain_input().unwrap(), "base-sepolia");
    assert_eq!(cfg.sequencer_url(), None);
    assert!(matches!(cfg.flashblocks_url(), Ok(None)));
    assert_eq!(cfg.l1_slot_duration_override(), None);
}

#[test]
fn rejects_zero_l2_chain_id_with_a_message_naming_it() {
    let err = values("custom-chain", 0, 1).validate().unwrap_err();
    assert!(err.message().contains("missing a non-zero `l2_chain_id`"));
    assert_eq!(
        ConfigError::MissingExecutionChain { l2_chain_id: 999 }.message(),
        "missing execution chain for L2 chain ID 999; set `execution_chain` or `execution.genesis_path` in the chain TOML"
    );
    assert_eq!(
        ConfigError::InvalidFlashblocksUrl { raw: "x y".to_owned() }.message(),
        "failed to parse `execution.flashblocks_url` URL `x y`"
    );
    assert_eq!(ConfigError::MissingExecutionChain { l2_chain_id: 0 }.message().contains(" 0;"), true);
}

#[test]
fn built_in_chain_ids_name_their_chains() {
    for chain in [BuiltInChain::Mainnet, BuiltInChain::Sepolia, BuiltInChain::Zeronet] {
        assert_eq!(BuiltInChain::from_l2_chain_id(chain.l2_chain_id()), Some(chain));
    }
    assert_eq!(BuiltInChain::Zeronet.l2_chain_id(), 763360);
    assert_eq!(BuiltInChain::Mainnet.l1_chain_id(), Some(1));
    assert_eq!(BuiltInChain::Sepolia.l1_chain_id(), Some(11155111));
    assert_eq!(BuiltInChain::Zeronet.l1_chain_id(), None);
}
