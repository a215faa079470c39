use lipnode::config::{split_argument, Config};
use lipnode::error::Error;

fn args(texts: &[&str]) -> Vec<String> {
    texts.iter().map(|t| t.to_string()).collect()
}

#[test]
fn defaults_hold_the_consensus_settings() {
    let config = Config::defaults("/home/me/.lipnode".to_string());
    assert_eq!(config.datadir, "/home/me/.lipnode");
    assert_eq!(config.cliurl, "127.0.0.1:9443");
    assert_eq!(config.rpcurl, "http://localhost:8332");
    assert_eq!(config.rpcpassword, "");
    assert_eq!(config.rpcuser, "");
    assert_eq!(config.wallet, "");
    assert_eq!(config.watchonlywallet, "librarywatchonly");
    assert_eq!(config.blockheight, 0);
    assert_eq!(config.address, "37gsHDLSG5TJvApGfiUZDaDo9mSr6rjLv6");
    assert_eq!(config.descriptor, "addr(37gsHDLSG5TJvApGfiUZDaDo9mSr6rjLv6)#gs8ecs39");
    assert_eq!(config.min_page_n_value, 100);
}

#[test]
fn arguments_set_their_settings() {
    let mut config = Config::defaults("d".to_string());
    let parsed = config.parse_args(args(&[
        "-datadir=/tmp/x",
        "rpcurl=http://node:1",
        "-rpcpassword=pw",
        "-rpcuser=me",
        "wallet=w",
        "-watchonlywallet=watch",
        "-blockheight=818100",
    ]));
    assert_eq!(parsed, Ok(()));
    assert_eq!(config.datadir, "/tmp/x");
    assert_eq!(config.rpcurl, "http://node:1");
    assert_eq!(config.rpcpassword, "pw");
    assert_eq!(config.rpcuser, "me");
    assert_eq!(config.wallet, "w");
    assert_eq!(config.watchonlywallet, "watch");
    assert_eq!(config.blockheight, 818100);
    assert_eq!(config.cliurl, "127.0.0.1:9443");
    assert_eq!(config.min_page_n_value, 100);
}

#[test]
fn cliurl_sets_the_rpc_user() {
    let mut config = Config::defaults("d".to_string());
    assert_eq!(config.parse_args(args(&["-cliurl=1.2.3.4:5"])), Ok(()));
    assert_eq!(config.rpcuser, "1.2.3.4:5");
    assert_eq!(config.cliurl, "127.0.0.1:9443");
}

#[test]
fn later_argument_wins() {
    let mut config = Config::defaults("d".to_string());
    assert_eq!(config.parse_args(args(&["wallet=a", "wallet=b"])), Ok(()));
    assert_eq!(config.wallet, "b");
}

#[test]
fn argument_without_one_equals_sign_is_refused() {
    for bad in ["wallet", "wallet=a=b", "", "=="] {
        let mut config = Config::defaults("d".to_string());
        assert_eq!(config.parse_args(args(&[bad])), Err(Error::NodeHelpMessage), "{:?}", bad);
    }
}

#[test]
fn unknown_key_is_named_without_its_hyphen() {
    let mut config = Config::defaults("d".to_string());
    assert_eq!(
        config.parse_args(args(&["-color=red"])),
        Err(Error::UnknownArgument("color".to_string()))
    );
    assert_eq!(
        config.parse_args(args(&["--wallet=w"])),
        Err(Error::UnknownArgument("-wallet".to_string()))
    );
    assert_eq!(config.parse_args(args(&["=w"])), Err(Error::UnknownArgument("".to_string())));
    assert_eq!(config.parse_args(args(&["Wallet=w"])), Err(Error::UnknownArgument("Wallet".to_string())));
}

#[test]
fn arguments_before_a_bad_one_stay_applied() {
    let mut config = Config::defaults("d".to_string());
    let parsed = config.parse_args(args(&["wallet=a", "nonsense", "wallet=b"]));
    assert_eq!(parsed, Err(Error::NodeHelpMessage));
    assert_eq!(config.wallet, "a");
}

#[test]
fn block_height_must_be_a_number() {
    let mut config = Config::defaults("d".to_string());
    assert_eq!(config.parse_args(args(&["blockheight=+5"])), Ok(()));
    assert_eq!(config.blockheight, 5);
    assert_eq!(config.parse_args(args(&["blockheight=18446744073709551615"])), Ok(()));
    assert_eq!(config.blockheight, u64::MAX);
    for bad in ["blockheight=", "blockheight=-1", "blockheight=12x", "blockheight=18446744073709551616", "blockheight=+"] {
        let parsed = config.parse_args(args(&[bad]));
        assert_eq!(parsed, Err(Error::ParseError(bad[12..].to_string())), "{:?}", bad);
        assert_eq!(config.blockheight, u64::MAX);
    }
}

#[test]
fn empty_value_is_taken() {
    let mut config = Config::defaults("d".to_string());
    assert_eq!(config.parse_args(args(&["wallet=w", "wallet="])), Ok(()));
    assert_eq!(config.wallet, "");
}

#[test]
fn wallet_is_required() {
    let mut config = Config::defaults("d".to_string());
    assert_eq!(config.require_wallet(), Err(Error::NoWallet));
    config.apply_argument("-wallet=w").unwrap();
    assert_eq!(config.require_wallet(), Ok(()));
}

#[test]
fn argument_splits_at_its_equals_sign() {
    assert_eq!(split_argument("-a=b"), Some(("a".to_string(), "b".to_string())));
    assert_eq!(split_argument("a=b"), Some(("a".to_string(), "b".to_string())));
    assert_eq!(split_argument("-=b"), Some(("".to_string(), "b".to_string())));
    assert_eq!(split_argument("\u{e4}=\u{4e2d}-"), Some(("\u{e4}".to_string(), "\u{4e2d}-".to_string())));
    assert_eq!(split_argument("ab"), None);
    assert_eq!(split_argument("a=b=c"), None);
}

#[test]
fn command_line_wins_over_the_file() {
    let mut config = Config::defaults("d".to_string());
    let command_line = args(&["-wallet=mine", "-rpcuser=me"]);
    config.parse_args(command_line.clone()).unwrap();
    let file = args(&["wallet=theirs", "rpcpassword=pw", "nonsense", "rpcurl=never"]);
    assert_eq!(config.complete(Some(file), command_line), Ok(()));
    assert_eq!(config.wallet, "mine");
    assert_eq!(config.rpcuser, "me");
    assert_eq!(config.rpcpassword, "pw");
    assert_eq!(config.rpcurl, "http://localhost:8332");
}

#[test]
fn settings_without_a_wallet_are_not_complete() {
    let mut config = Config::defaults("d".to_string());
    assert_eq!(config.complete(None, args(&["rpcuser=me"])), Err(Error::NoWallet));
    assert_eq!(config.rpcuser, "me");
    let mut config = Config::defaults("d".to_string());
    assert_eq!(config.complete(Some(args(&["wallet=w"])), args(&[])), Ok(()));
    assert_eq!(config.wallet, "w");
    let mut config = Config::defaults("d".to_string());
    assert_eq!(
        config.complete(Some(args(&["wallet=w"])), args(&["bad"])),
        Err(Error::NodeHelpMessage)
    );
}
