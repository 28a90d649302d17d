use arbitrum_cli::agent_deposit::{selectors, Action, AgentDepositError, CallEncodingError};
use arbitrum_cli::commands::{
    agent_deposit_on_reply, annotate_block, balance_watch_step, block_param, chain_inventory,
    check_transaction_found, decimals_from_reply, exec_params, parse_watch_target,
    plan_agent_deposit, resolve_contract, start_agent_deposit, token_balance_query,
    watch_request, watch_step, BalanceWatchStep, CommandError, DepositPhase, DepositProgress,
    DepositReport, DepositStep, WatchStep, WatchTarget,
};
use arbitrum_cli::rpc::{rpc_result, RpcParam, RpcReplyError};
use arbitrum_cli::numeral::IntErrorKind;
use arbitrum_cli::output::Mode;
use arbitrum_cli::rpc::{hex_to_u64, hex_u128_or_zero, wei_hex_to_wei, RpcValueError};

#[test]
fn block_param_tags_and_numbers() {
    assert_eq!(block_param("latest").unwrap(), "latest");
    assert_eq!(block_param("earliest").unwrap(), "earliest");
    assert_eq!(block_param("pending").unwrap(), "pending");
    assert_eq!(block_param("0").unwrap(), "0x0");
    assert_eq!(block_param("255").unwrap(), "0xff");
    assert_eq!(block_param("+16").unwrap(), "0x10");
    assert_eq!(block_param("18446744073709551615").unwrap(), "0xffffffffffffffff");
    assert_eq!(block_param("18446744073709551616").unwrap_err(), CommandError::InvalidBlockNumber);
    assert_eq!(block_param("Latest").unwrap_err(), CommandError::InvalidBlockNumber);
    assert_eq!(block_param("").unwrap_err(), CommandError::InvalidBlockNumber);
    assert_eq!(block_param("0x10").unwrap_err().message(), "invalid block number");
}

#[test]
fn block_param_reads_back() {
    for n in [0u64, 1, 255, 1_000_000, u64::MAX] {
        let p = block_param(&n.to_string()).unwrap();
        assert_eq!(hex_to_u64(&p).unwrap(), n);
    }
}

#[test]
fn hex_quantities() {
    assert_eq!(hex_to_u64("0x1b4").unwrap(), 436);
    assert_eq!(hex_to_u64("1B4").unwrap(), 436);
    assert_eq!(hex_to_u64("0x").unwrap_err(), RpcValueError::InvalidHex(IntErrorKind::Empty));
    assert_eq!(
        hex_to_u64("0x10000000000000000").unwrap_err(),
        RpcValueError::InvalidHex(IntErrorKind::PosOverflow)
    );
    assert_eq!(
        hex_to_u64("0x").unwrap_err().message(),
        "Invalid hex: cannot parse integer from empty string"
    );
    assert_eq!(wei_hex_to_wei("0xde0b6b3a7640000").unwrap(), 1_000_000_000_000_000_000);
    assert_eq!(
        wei_hex_to_wei("0x-1").unwrap_err().message(),
        "Invalid wei: invalid digit found in string"
    );
    assert_eq!(
        wei_hex_to_wei("0x1ffffffffffffffffffffffffffffffff").unwrap_err().message(),
        "Invalid wei: number too large to fit in target type"
    );
    assert_eq!(hex_u128_or_zero("0x3b9aca00"), 1_000_000_000);
    assert_eq!(hex_u128_or_zero("garbage"), 0);
}

#[test]
fn supported_chains() {
    let chains = chain_inventory();
    assert_eq!(chains.len(), 2);
    assert_eq!(chains[0].chain_id, 42_161);
    assert_eq!(chains[0].name, "Arbitrum One");
    assert_eq!(chains[0].rpc_default, "https://arb1.arbitrum.io/rpc");
    assert_eq!(chains[0].contracts.usdc, "0xaf88d065e77c8cC2239327C5EDb3A432268e5831");
    assert_eq!(
        chains[0].contracts.uniswap_v3_quoter.as_deref(),
        Some("0xb27308f9F90D607463bb33eA1BeBb41C27CE5AB6")
    );
    assert_eq!(chains[1].chain_id, 421_614);
    assert_eq!(chains[1].name, "Arbitrum Sepolia");
    assert_eq!(chains[1].explorer, "https://sepolia.arbiscan.io");
    assert_eq!(chains[1].contracts.uniswap_v3_quoter, None);
    for c in &chains {
        assert_eq!(
            c.contracts.agent_deposit.as_deref(),
            arbitrum_cli::agent_deposit::agent_deposit_address(c.chain_id)
        );
    }
}

#[test]
fn token_query() {
    let q = token_balance_query("0xC75020d5f669F5D15Afcb81b0e5F6d21bCDa9664");
    assert_eq!(q.address, "C75020d5f669F5D15Afcb81b0e5F6d21bCDa9664");
    assert_eq!(
        q.data,
        "0x70a08231000000000000000000000000C75020d5f669F5D15Afcb81b0e5F6d21bCDa9664"
    );
    let long: String = std::iter::repeat('a').take(70).collect();
    let q = token_balance_query(&long);
    assert_eq!(q.data, format!("0x70a08231{long}"));
}

#[test]
fn token_decimals() {
    assert_eq!(decimals_from_reply(Some("0x6")), 6);
    assert_eq!(decimals_from_reply(Some("0x")), 18);
    assert_eq!(decimals_from_reply(None), 18);
}

#[test]
fn watching_blocks() {
    assert_eq!(parse_watch_target("blocks").unwrap(), WatchTarget::Blocks);
    assert_eq!(parse_watch_target("pending").unwrap(), WatchTarget::Pending);
    let addr = "0xC75020d5f669F5D15Afcb81b0e5F6d21bCDa9664";
    assert_eq!(
        parse_watch_target(addr).unwrap(),
        WatchTarget::Address(addr.to_string())
    );
    let err = parse_watch_target("mempool").unwrap_err();
    assert_eq!(err, CommandError::UnsupportedWatchTarget("mempool".to_string()));
    assert_eq!(
        err.message(),
        "Unsupported watch target: mempool. Use 'blocks', 'pending' or an address."
    );
    assert!(parse_watch_target("0xdeadbeef").is_err());
    assert_eq!(watch_request(&WatchTarget::Blocks).method, "eth_blockNumber");
    assert!(watch_request(&WatchTarget::Blocks).params.is_empty());
    let p = watch_request(&WatchTarget::Pending);
    assert_eq!(p.method, "eth_getBlockByNumber");
    assert_eq!(p.params, vec![RpcParam::Text("pending".to_string()), RpcParam::Flag(false)]);
    let a = watch_request(&WatchTarget::Address(addr.to_string()));
    assert_eq!(a.method, "eth_getBalance");
    assert_eq!(a.params, vec![RpcParam::Text(addr.to_string()), RpcParam::Text("latest".to_string())]);
    let b = balance_watch_step(None, Some("0x10"));
    assert_eq!(b, BalanceWatchStep { last: Some(16), changed: Some(16) });
    let b = balance_watch_step(Some(16), Some("0x10"));
    assert_eq!(b, BalanceWatchStep { last: Some(16), changed: None });
    let b = balance_watch_step(Some(16), Some("0x11"));
    assert_eq!(b, BalanceWatchStep { last: Some(17), changed: Some(17) });
    let b = balance_watch_step(Some(16), Some("zz"));
    assert_eq!(b, BalanceWatchStep { last: Some(16), changed: None });
    let b = balance_watch_step(None, None);
    assert_eq!(b, BalanceWatchStep { last: None, changed: None });
    let s = watch_step(0, Some("0x10"));
    assert_eq!(s, WatchStep { last: 16, new_block: Some(16) });
    let s = watch_step(16, Some("0x10"));
    assert_eq!(s, WatchStep { last: 16, new_block: None });
    let s = watch_step(16, None);
    assert_eq!(s, WatchStep { last: 16, new_block: None });
    let s = watch_step(16, Some("oops"));
    assert_eq!(s, WatchStep { last: 0, new_block: Some(0) });
}

#[test]
fn contract_resolution() {
    assert_eq!(resolve_contract(Some("0xabc"), 1).unwrap(), "0xabc");
    assert_eq!(
        resolve_contract(None, 42_161).unwrap(),
        "0x0000000000000000000000000000000000000000"
    );
    let err = resolve_contract(None, 1).unwrap_err();
    assert_eq!(err, AgentDepositError::NoDeployment(1));
    assert_eq!(
        err.message(),
        "No AgentDeposit deployment registered for chain id 1. Pass --contract <address> or use an Arbitrum RPC."
    );
}

#[test]
fn planning_agent_deposit() {
    let agent = "0xC75020d5f669F5D15Afcb81b0e5F6d21bCDa9664";
    let contract = "0x0000000000000000000000000000000000000000";
    match plan_agent_deposit(agent, Action::Balance, None, contract, 42_161).unwrap() {
        DepositStep::ReadBalance { contract: c, calldata } => {
            assert_eq!(c, contract);
            assert_eq!(
                calldata,
                "0x70a08231000000000000000000000000c75020d5f669f5d15afcb81b0e5f6d21bcda9664"
            );
        }
        other => panic!("unexpected {other:?}"),
    }
    match plan_agent_deposit(agent, Action::Registered, None, contract, 42_161).unwrap() {
        DepositStep::ReadRegistered { calldata, .. } => {
            assert!(calldata.starts_with(selectors::IS_REGISTERED));
        }
        other => panic!("unexpected {other:?}"),
    }
    match plan_agent_deposit(agent, Action::Deposit, Some(1_000_000), contract, 42_161).unwrap() {
        DepositStep::Unsigned { label, response } => {
            assert_eq!(label, "Agent Deposit (unsigned)");
            assert_eq!(response.action, "deposit");
            assert_eq!(
                response.tx.data,
                "0xb6b55f2500000000000000000000000000000000000000000000000000000000000f4240"
            );
            assert_eq!(response.amount_raw, "1000000");
        }
        other => panic!("unexpected {other:?}"),
    }
    match plan_agent_deposit(agent, Action::Withdraw, Some(42), contract, 1).unwrap() {
        DepositStep::Unsigned { label, response } => {
            assert_eq!(label, "Agent Withdraw (unsigned)");
            assert_eq!(response.action, "withdraw");
            assert_eq!(response.chain_id, 1);
        }
        other => panic!("unexpected {other:?}"),
    }
    assert_eq!(
        plan_agent_deposit(agent, Action::Withdraw, None, contract, 1).unwrap_err(),
        AgentDepositError::AmountRequired
    );
    assert_eq!(
        plan_agent_deposit(agent, Action::Withdraw, None, contract, 1).unwrap_err().message(),
        "--amount is required for deposit/withdraw (raw units; USDC = 6 decimals)"
    );
    assert_eq!(
        plan_agent_deposit("0x12", Action::Balance, None, contract, 1).unwrap_err(),
        AgentDepositError::Encoding(CallEncodingError::AddressLength(2))
    );
}

#[test]
fn output_modes_differ() {
    assert_ne!(Mode::Json, Mode::Human);
}

#[test]
fn exec_params_parse() {
    let v = exec_params("[1, \"a\"]").unwrap();
    assert_eq!(v, serde_json::Value::Array(vec![serde_json::Value::from(1), serde_json::Value::from("a")]));
    let err = exec_params("[1,").unwrap_err();
    assert!(matches!(err, CommandError::InvalidParamsJson(_)));
    assert!(err.message().starts_with("Invalid params JSON: "));
    let expected = serde_json::from_str::<serde_json::Value>("[1,").unwrap_err().to_string();
    assert_eq!(err.message(), format!("Invalid params JSON: {expected}"));
}

#[test]
fn rpc_reply_decision() {
    let v = serde_json::Value::from("0x1");
    assert_eq!(rpc_result(None, Some(v.clone())).unwrap(), v);
    let e = rpc_result(Some("{\"code\":-32000}".to_string()), Some(v)).unwrap_err();
    assert_eq!(e, RpcReplyError::Node("{\"code\":-32000}".to_string()));
    assert_eq!(e.message(), "RPC error: {\"code\":-32000}");
    let e = rpc_result(None, None).unwrap_err();
    assert_eq!(e.message(), "No result field in RPC response");
}

#[test]
fn block_annotations_and_missing_tx() {
    let a = annotate_block(Some("0x10"), Some("0x5f5e100"));
    assert_eq!(a.number_decimal, Some(16));
    assert_eq!(a.timestamp_decimal, Some(100_000_000));
    let a = annotate_block(None, Some("nope"));
    assert_eq!(a.number_decimal, None);
    assert_eq!(a.timestamp_decimal, None);
    assert!(check_transaction_found("0xabc", false).is_ok());
    let e = check_transaction_found("0xabc", true).unwrap_err();
    assert_eq!(e.message(), "Transaction not found: 0xabc");
}

#[test]
fn agent_deposit_session() {
    let agent = "0xC75020d5f669F5D15Afcb81b0e5F6d21bCDa9664";
    // Balance: chain id first, then balanceOf, then the report.
    let (s, req) = start_agent_deposit(agent, "balance", None, None).unwrap();
    assert_eq!(req.method, "eth_chainId");
    assert!(req.params.is_empty());
    assert_eq!(s.phase, DepositPhase::AwaitingChainId);
    let (s, req) = match agent_deposit_on_reply(s, Some("0xa4b1")).unwrap() {
        DepositProgress::Next { session, request } => (session, request),
        other => panic!("unexpected {other:?}"),
    };
    assert_eq!(req.method, "eth_call");
    assert_eq!(
        req.params,
        vec![
            RpcParam::Call {
                to: "0x0000000000000000000000000000000000000000".to_string(),
                data: "0x70a08231000000000000000000000000c75020d5f669f5d15afcb81b0e5f6d21bcda9664".to_string(),
            },
            RpcParam::Text("latest".to_string()),
        ]
    );
    match agent_deposit_on_reply(s, Some("0x2625a0")).unwrap() {
        DepositProgress::Finished(DepositReport::Balance(b)) => {
            assert_eq!(b.balance_raw, "2500000");
            assert_eq!(b.chain_id, 42_161);
        }
        other => panic!("unexpected {other:?}"),
    }
    // Registered, with a contract given: the chain id is still asked for.
    let (s, req) = start_agent_deposit(agent, "is-registered", None, Some("0xabc")).unwrap();
    assert_eq!(req.method, "eth_chainId");
    let s = match agent_deposit_on_reply(s, Some("0x1")).unwrap() {
        DepositProgress::Next { session, request } => {
            assert!(matches!(&request.params[0], RpcParam::Call { to, .. } if to == "0xabc"));
            session
        }
        other => panic!("unexpected {other:?}"),
    };
    match agent_deposit_on_reply(s, Some("0x8000000000000000000000000000000000000000000000000000000000000000")).unwrap() {
        DepositProgress::Finished(DepositReport::Registered(g)) => {
            assert!(g.registered);
            assert_eq!(g.chain_id, 1);
            assert_eq!(g.contract, "0xabc");
        }
        other => panic!("unexpected {other:?}"),
    }
    // Withdraw finishes after the chain id.
    let (s, _) = start_agent_deposit(agent, "WITHDRAW", Some(42), None).unwrap();
    match agent_deposit_on_reply(s, Some("0x66eee")).unwrap() {
        DepositProgress::Finished(DepositReport::Unsigned { label, response }) => {
            assert_eq!(label, "Agent Withdraw (unsigned)");
            assert_eq!(response.chain_id, 421_614);
            assert_eq!(
                response.tx.data,
                "0x2e1a7d4d000000000000000000000000000000000000000000000000000000000000002a"
            );
        }
        other => panic!("unexpected {other:?}"),
    }
    // Errors: unknown action, unknown chain, missing amount, bad chain-id reply.
    assert!(start_agent_deposit(agent, "yeet", None, None).is_err());
    let (s, _) = start_agent_deposit(agent, "balance", None, None).unwrap();
    assert_eq!(
        agent_deposit_on_reply(s, Some("0x1")).unwrap_err(),
        AgentDepositError::NoDeployment(1)
    );
    let (s, _) = start_agent_deposit(agent, "deposit", None, None).unwrap();
    assert_eq!(
        agent_deposit_on_reply(s, Some("0xa4b1")).unwrap_err(),
        AgentDepositError::AmountRequired
    );
    let (s, _) = start_agent_deposit(agent, "deposit", Some(1), None).unwrap();
    assert_eq!(
        agent_deposit_on_reply(s, None).unwrap_err(),
        AgentDepositError::ChainIdNotString
    );
}

#[test]
fn hex_to_u64_reads_every_spelling() {
    for n in [0u64, 9, 10, 255, 0xdead_beef, u64::MAX] {
        assert_eq!(hex_to_u64(&format!("0x{n:x}")).unwrap(), n);
        assert_eq!(hex_to_u64(&format!("0x{n:X}")).unwrap(), n);
        assert_eq!(hex_to_u64(&format!("{n:x}")).unwrap(), n);
    }
}
