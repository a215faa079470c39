use lipnode::chain::{Transaction, TxOutput};
use lipnode::error::Error;
use lipnode::encoding::HexError;
use lipnode::tbpub::sending::{
    did_output_script, hash_output_script, patch_raw_transaction, send_next, send_transaction,
    with_price, RpcCall, RpcReply, SendState, SendStep,
};
use lipnode::tbpub::cli::{
    check_argument, mempool_conflict_reply, ArgValue, ArgumentType, Command, Handled, JsonRequest,
    JsonResponse, RequestMethod,
};
use lipnode::tbpub::config::Config;
use lipnode::tbpub::transaction::{did_from_bytes, TBPubTransaction};

const SUFFIX: &str = "abcdefghijklmnopqrstuvwxyzabcdefghijklmnopqrstuvwxyz";

fn tagged_script(flag: u8, payload: &[u8]) -> Vec<u8> {
    let mut script = vec![0x6a, (6 + payload.len()) as u8, 0x54, 0x42, 0x50, 0x55, 0x42, flag];
    script.extend_from_slice(payload);
    script
}

fn tx(outputs: Vec<(u64, Vec<u8>)>) -> Transaction {
    Transaction {
        txid: "t".to_string(),
        output: outputs
            .into_iter()
            .map(|(value, script_pubkey)| TxOutput { value, script_pubkey })
            .collect(),
    }
}

fn request(method: &str, args: &[&str]) -> JsonRequest {
    JsonRequest {
        method: method.to_string(),
        args: args.iter().map(|a| a.to_string()).collect(),
    }
}

fn error(message: &str) -> JsonResponse {
    JsonResponse { status: 0, message: message.to_string() }
}

#[test]
fn identifier_gives_its_last_part() {
    assert_eq!(SUFFIX.len(), 52);
    let did = format!("did:dht:{}", SUFFIX);
    assert_eq!(did_from_bytes(did.as_bytes()), Some(SUFFIX));
    let longer = format!("did:dht:{}:more:parts", SUFFIX);
    assert_eq!(did_from_bytes(longer.as_bytes()), Some(SUFFIX));
}

#[test]
fn identifier_of_another_shape_gives_nothing() {
    let short = format!("did:dht:{}", &SUFFIX[1..]);
    let long = format!("did:dht:{}x", SUFFIX);
    let other = format!("did:web:{}", SUFFIX);
    let upper = format!("DID:dht:{}", SUFFIX);
    let glued = format!("did:dht{}", SUFFIX);
    for bad in [short.as_str(), long.as_str(), other.as_str(), upper.as_str(), glued.as_str(), "did:dht:", "did:dht", "did", ""] {
        assert_eq!(did_from_bytes(bad.as_bytes()), None, "{:?}", bad);
    }
}

#[test]
fn identifier_is_measured_in_bytes() {
    let wide = format!("did:dht:{}", "\u{e4}".repeat(26));
    assert_eq!(did_from_bytes(wide.as_bytes()), Some("\u{e4}".repeat(26).as_str()));
    let chars = format!("did:dht:{}", "\u{e4}".repeat(52));
    assert_eq!(did_from_bytes(chars.as_bytes()), None);
}

#[test]
fn bytes_that_are_no_text_give_nothing() {
    let mut bytes = format!("did:dht:{}", SUFFIX).into_bytes();
    bytes.push(0xff);
    assert_eq!(did_from_bytes(&bytes), None);
    assert_eq!(did_from_bytes(&[0xc3]), None);
}

#[test]
fn tagged_hash_is_read() {
    let script = tagged_script(0, &[0xab; 20]);
    assert_eq!(script.len(), 28);
    let found = TBPubTransaction::from_transaction(&tx(vec![(5, vec![0x51]), (10000, script)]));
    assert_eq!(
        found,
        Some(TBPubTransaction { price: 10000, data: "ab".repeat(20), is_hash: true })
    );
}

#[test]
fn tagged_identifier_is_read() {
    let did = format!("did:dht:{}", SUFFIX);
    let script = tagged_script(1, did.as_bytes());
    let found = TBPubTransaction::from_transaction(&tx(vec![(20000, script)]));
    let data: String = did.bytes().map(|b| format!("{:02x}", b)).collect();
    assert_eq!(found, Some(TBPubTransaction { price: 20000, data, is_hash: false }));
}

#[test]
fn untagged_transaction_is_none() {
    assert_eq!(TBPubTransaction::from_transaction(&tx(vec![])), None);
    assert_eq!(TBPubTransaction::from_transaction(&tx(vec![(10000, vec![0x51])])), None);
    let mut wrong_tag = tagged_script(0, &[0xab; 20]);
    wrong_tag[6] = 0x43;
    assert_eq!(TBPubTransaction::from_transaction(&tx(vec![(10000, wrong_tag)])), None);
    let mut no_return = tagged_script(0, &[0xab; 20]);
    no_return[0] = 0x6b;
    assert_eq!(TBPubTransaction::from_transaction(&tx(vec![(10000, no_return)])), None);
    let short = vec![0x6a, 6, 0x54, 0x42, 0x50, 0x55, 0x42, 0];
    assert_eq!(TBPubTransaction::from_transaction(&tx(vec![(10000, short)])), None);
}

#[test]
fn tagged_transaction_must_pay_and_carry_one_payload() {
    let script = tagged_script(0, &[0xab; 20]);
    assert_eq!(TBPubTransaction::from_transaction(&tx(vec![(9999, script.clone())])), None);
    assert_eq!(
        TBPubTransaction::from_transaction(&tx(vec![(10000, script.clone()), (10000, script.clone())])),
        None
    );
    assert_eq!(
        TBPubTransaction::from_transaction(&tx(vec![(10000, tagged_script(0, &[0xab; 21]))])),
        None
    );
    assert_eq!(
        TBPubTransaction::from_transaction(&tx(vec![(10000, tagged_script(2, &[0xab; 20]))])),
        None
    );
    assert_eq!(
        TBPubTransaction::from_transaction(&tx(vec![(10000, tagged_script(1, b"did:web:x"))])),
        None
    );
    assert_eq!(
        TBPubTransaction::from_transaction(&tx(vec![(10000, script), (1, tagged_script(9, &[1, 2]))])),
        None
    );
}

#[test]
fn price_replaces_the_amount_before_the_op_return() {
    let mut raw = vec![2, 0, 0, 0, 0, 1];
    raw.extend_from_slice(&[0; 8]);
    raw.extend_from_slice(&[3, 0x6a, 1, 0x6a, 0, 0, 0, 0]);
    let patched = with_price(&raw, 0x0102030405060708).unwrap();
    let mut expected = vec![2, 0, 0, 0, 0, 1];
    expected.extend_from_slice(&[8, 7, 6, 5, 4, 3, 2, 1]);
    expected.extend_from_slice(&[3, 0x6a, 1, 0x6a, 0, 0, 0, 0]);
    assert_eq!(patched, expected);
}

#[test]
fn price_needs_an_op_return_with_room_before_it() {
    assert_eq!(with_price(&vec![], 5), None);
    assert_eq!(with_price(&vec![1, 2, 3, 4, 5, 6, 7, 8, 9, 10], 5), None);
    assert_eq!(with_price(&vec![0, 0, 0, 0, 0, 0, 0, 0, 0x6a], 5), None);
    assert_eq!(
        with_price(&vec![0, 0, 0, 0, 0, 0, 0, 0, 9, 0x6a], 5),
        Some(vec![5, 0, 0, 0, 0, 0, 0, 0, 9, 0x6a])
    );
}

#[test]
fn raw_transaction_is_patched_in_hexadecimal() {
    let raw = "02000000000100000000000000000c6A0a54425055420001020300000000";
    assert_eq!(
        patch_raw_transaction(raw, 10000),
        Ok("02000000000110270000000000000c6a0a54425055420001020300000000".to_string())
    );
    assert_eq!(patch_raw_transaction("0011", 1), Err(Error::MalformedRawTransaction));
    assert_eq!(patch_raw_transaction("001", 1), Err(Error::HexError(HexError::OddLength)));
    assert_eq!(
        patch_raw_transaction("00zz", 1),
        Err(Error::HexError(HexError::InvalidHexCharacter { c: 'z', index: 2 }))
    );
    assert_eq!(
        patch_raw_transaction("0g0h", 1),
        Err(Error::HexError(HexError::InvalidHexCharacter { c: 'g', index: 1 }))
    );
}

#[test]
fn output_scripts_carry_tag_flag_and_payload() {
    assert_eq!(hash_output_script("ab"), "5442505542006162");
    assert_eq!(did_output_script("did:x"), "5442505542016469643a78");
    assert_eq!(hash_output_script(""), "544250554200");
}

#[test]
fn sending_goes_through_every_call() {
    let (state, call) = send_transaction("5442505542006162".to_string(), 10000);
    assert_eq!(state, SendState::Creating { price: 10000 });
    assert_eq!(call, RpcCall::CreateRawTransaction { data: "5442505542006162".to_string() });
    let raw = "02000000000100000000000000000c6a0a54425055420001020300000000".to_string();
    let patched = "02000000000110270000000000000c6a0a54425055420001020300000000".to_string();
    let (state, step) = send_next(state, RpcReply::Created { hex: raw });
    assert_eq!(state, SendState::Decoding { hex: patched.clone() });
    assert!(matches!(step, SendStep::Call(RpcCall::DecodeRawTransaction { hex }) if hex == patched));
    let (state, step) = send_next(state, RpcReply::Decoded);
    assert_eq!(state, SendState::Funding);
    assert!(matches!(step, SendStep::Call(RpcCall::FundRawTransaction { hex }) if hex == patched));
    let (state, step) = send_next(state, RpcReply::Funded { hex: "f0".to_string() });
    assert_eq!(state, SendState::Signing);
    assert!(matches!(step, SendStep::Call(RpcCall::SignRawTransactionWithWallet { hex }) if hex == "f0"));
    let (state, step) = send_next(state, RpcReply::Signed { hex: "51".to_string(), complete: true });
    assert_eq!(state, SendState::Sending);
    assert!(matches!(step, SendStep::Call(RpcCall::SendRawTransaction { hex }) if hex == "51"));
    let (state, step) = send_next(state, RpcReply::Sent { txid: "id".to_string() });
    assert_eq!(state, SendState::Closed);
    assert!(matches!(step, SendStep::Done(txid) if txid == "id"));
}

#[test]
fn sending_fails_on_what_cannot_go_on() {
    let (state, step) =
        send_next(SendState::Signing, RpcReply::Signed { hex: "51".to_string(), complete: false });
    assert_eq!(state, SendState::Closed);
    assert!(matches!(step, SendStep::Failed(Error::CouldNotSignTransaction)));
    let (state, step) =
        send_next(SendState::Creating { price: 1 }, RpcReply::Created { hex: "0011".to_string() });
    assert_eq!(state, SendState::Closed);
    assert!(matches!(step, SendStep::Failed(Error::MalformedRawTransaction)));
    let (_, step) =
        send_next(SendState::Creating { price: 1 }, RpcReply::Created { hex: "xy".to_string() });
    assert!(matches!(step, SendStep::Failed(Error::HexError(_))));
    let (state, step) = send_next(SendState::Funding, RpcReply::Decoded);
    assert_eq!(state, SendState::Closed);
    assert!(matches!(step, SendStep::Failed(Error::UnexpectedReply)));
    let (_, step) = send_next(SendState::Closed, RpcReply::Sent { txid: "id".to_string() });
    assert!(matches!(step, SendStep::Failed(Error::UnexpectedReply)));
}

#[test]
fn broadcasting_methods_are_found_by_name() {
    assert_eq!(RequestMethod::from_string("broadcastdid"), Some(RequestMethod::BroadcastDID));
    assert_eq!(RequestMethod::from_string("broadcasthash"), Some(RequestMethod::BroadcastHash));
    assert_eq!(RequestMethod::from_string("getinfo"), Some(RequestMethod::GetInfo));
    assert_eq!(RequestMethod::from_string("help"), Some(RequestMethod::Help));
    assert_eq!(RequestMethod::from_string("?"), Some(RequestMethod::Help));
    assert_eq!(RequestMethod::from_string("addpage"), None);
    assert_eq!(
        RequestMethod::BroadcastHash.argument_types(),
        vec![
            ("hash", ArgumentType::String),
            ("price", ArgumentType::Number),
            ("check_mempool", ArgumentType::Bool),
        ]
    );
    assert_eq!(
        RequestMethod::BroadcastDID.argument_types(),
        vec![
            ("did", ArgumentType::String),
            ("price", ArgumentType::Number),
            ("check_mempool", ArgumentType::Bool),
        ]
    );
    assert_eq!(RequestMethod::GetInfo.argument_types(), vec![]);
    assert_eq!(RequestMethod::Help.argument_types(), vec![("method", ArgumentType::String)]);
    assert_eq!(
        RequestMethod::GetInfo.help(),
        JsonResponse { status: 2, message: "Help Message".to_string() }
    );
}

#[test]
fn broadcasting_arguments_are_checked() {
    assert_eq!(
        check_argument("did", ArgumentType::String, &"any thing!".to_string()),
        Ok(ArgValue::Text("any thing!".to_string()))
    );
    assert_eq!(
        check_argument("price", ArgumentType::Number, &"18446744073709551615".to_string()),
        Ok(ArgValue::Number(u64::MAX))
    );
    for bad in ["", "-1", "1e3", "18446744073709551616"] {
        assert_eq!(
            check_argument("price", ArgumentType::Number, &bad.to_string()),
            Err(error("Argument(price) is not Numeric"))
        );
    }
    assert_eq!(
        check_argument("check_mempool", ArgumentType::Bool, &"true".to_string()),
        Ok(ArgValue::Bool(true))
    );
    assert_eq!(
        check_argument("check_mempool", ArgumentType::Bool, &"false".to_string()),
        Ok(ArgValue::Bool(false))
    );
    assert_eq!(
        check_argument("check_mempool", ArgumentType::Bool, &"True".to_string()),
        Err(error("Argument(check_mempool) is not a Boolean"))
    );
}

#[test]
fn broadcasting_requests_are_verified() {
    assert_eq!(
        request("broadcastdid", &["did:x", "10000", "true"]).verify_request(),
        Ok((
            RequestMethod::BroadcastDID,
            vec![
                ("did", ArgValue::Text("did:x".to_string())),
                ("price", ArgValue::Number(10000)),
                ("check_mempool", ArgValue::Bool(true)),
            ]
        ))
    );
    assert_eq!(request("nothing", &[]).verify_request(), Err(error("Unknown Method(nothing)")));
    assert_eq!(
        request("getinfo", &["x"]).verify_request(),
        Err(JsonResponse { status: 2, message: "Help Message".to_string() })
    );
    assert_eq!(
        request("broadcasthash", &["ab", "x", "maybe"]).verify_request(),
        Err(error("Argument(price) is not Numeric"))
    );
}

#[test]
fn broadcasting_requests_become_commands() {
    let hash = "ab".repeat(20);
    let script: String =
        format!("544250554200{}", hash.bytes().map(|b| format!("{:02x}", b)).collect::<String>());
    assert_eq!(
        request("broadcasthash", &[&hash, "10000", "true"]).handel_request(),
        Handled::Run(Command::BroadcastHash { output_script: script, price: 10000 })
    );
    assert_eq!(
        request("broadcastdid", &["did:x", "7", "false"]).handel_request(),
        Handled::Run(Command::BroadcastDID {
            output_script: "5442505542016469643a78".to_string(),
            price: 7
        })
    );
    assert_eq!(request("getinfo", &[]).handel_request(), Handled::Run(Command::GetInfo));
    assert_eq!(
        request("help", &["getinfo"]).handel_request(),
        Handled::Reply(JsonResponse { status: 2, message: "Help Message".to_string() })
    );
    assert_eq!(
        request("help", &["x y"]).handel_request(),
        Handled::Reply(error("Unknown Method(x y)"))
    );
}

#[test]
fn hash_to_broadcast_must_be_twenty_bytes_of_hexadecimal() {
    assert_eq!(
        request("broadcasthash", &["xyz", "10000", "true"]).handel_request(),
        Handled::Reply(error("Argument(hash) is not a valid Hex String"))
    );
    assert_eq!(
        request("broadcasthash", &["abab", "10000", "true"]).handel_request(),
        Handled::Reply(error("Argument(hash) must be 20 bytes long"))
    );
    assert_eq!(
        request("broadcasthash", &[&"ab".repeat(21), "10000", "true"]).handel_request(),
        Handled::Reply(error("Argument(hash) must be 20 bytes long"))
    );
}

#[test]
fn waiting_tagged_transaction_is_reported() {
    assert_eq!(
        mempool_conflict_reply("abc"),
        error("TBPUB Transaction found in mempool with txid(abc)")
    );
}

#[test]
fn broadcasting_settings_are_parsed() {
    let mut config = Config::defaults("/home/me/.tbpub".to_string());
    assert_eq!(config.datadir, "/home/me/.tbpub");
    assert_eq!(config.cliurl, "127.0.0.1:9443");
    assert_eq!(config.rpcurl, "http://localhost:8332");
    assert_eq!(config.require_wallet(), Err(Error::NoWallet));
    let parsed = config.parse_args(vec![
        "-wallet=w".to_string(),
        "rpcuser=me".to_string(),
        "-cliurl=x".to_string(),
        "-datadir=/d".to_string(),
        "rpcurl=u".to_string(),
        "rpcpassword=p".to_string(),
    ]);
    assert_eq!(parsed, Ok(()));
    assert_eq!(config.wallet, "w");
    assert_eq!(config.rpcuser, "x");
    assert_eq!(config.cliurl, "127.0.0.1:9443");
    assert_eq!(config.datadir, "/d");
    assert_eq!(config.rpcurl, "u");
    assert_eq!(config.rpcpassword, "p");
    assert_eq!(config.require_wallet(), Ok(()));
    assert_eq!(
        config.parse_args(vec!["-blockheight=5".to_string()]),
        Err(Error::UnknownArgument("blockheight".to_string()))
    );
    assert_eq!(config.parse_args(vec!["wallet".to_string()]), Err(Error::NodeHelpMessage));
}

#[test]
fn broadcasting_settings_are_completed_from_the_file() {
    let mut config = Config::defaults("d".to_string());
    let file = vec!["wallet=w".to_string(), "blockheight=1".to_string(), "rpcurl=x".to_string()];
    assert_eq!(config.complete(Some(file), vec!["rpcuser=me".to_string()]), Ok(()));
    assert_eq!(config.wallet, "w");
    assert_eq!(config.rpcuser, "me");
    assert_eq!(config.rpcurl, "http://localhost:8332");
}

#[test]
fn block_publishes_its_best_paying_tagged_transaction() {
    let low = tx(vec![(10000, tagged_script(0, &[0x01; 20]))]);
    let high = tx(vec![(30000, tagged_script(0, &[0x02; 20]))]);
    let tie = tx(vec![(30000, tagged_script(0, &[0x03; 20]))]);
    let plain = tx(vec![(90000, vec![0x51])]);
    let cheap = tx(vec![(9999, tagged_script(0, &[0x04; 20]))]);
    let best = TBPubTransaction::best_of_block(&vec![plain, low, cheap, high, tie]);
    assert_eq!(
        best,
        Some(TBPubTransaction { price: 30000, data: "02".repeat(20), is_hash: true })
    );
    assert_eq!(TBPubTransaction::best_of_block(&vec![]), None);
    assert_eq!(
        TBPubTransaction::best_of_block(&vec![tx(vec![(90000, vec![0x51])])]),
        None
    );
}
