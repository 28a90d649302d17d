use arbitrum_cli::agent_deposit::{
    agent_deposit_address, balance_from_reply, chain_id_from_reply, decode_uint_result,
    encode_address_call, encode_uint256_call, format_balance_response, format_registered_response,
    format_unsigned_tx, registered_from_reply, selectors, Action, AgentDepositError,
    CallEncodingError, HexError,
};
use arbitrum_cli::numeral::IntErrorKind;
use arbitrum_cli::rpc::RpcValueError;

#[test]
fn encodes_balance_of_call() {
    let data = encode_address_call(
        selectors::BALANCE_OF,
        "0xC75020d5f669F5D15Afcb81b0e5F6d21bCDa9664",
    )
    .expect("encode");
    assert_eq!(
        data,
        "0x70a08231000000000000000000000000c75020d5f669f5d15afcb81b0e5f6d21bcda9664"
    );
    assert_eq!(data.len(), 2 + 8 + 64);
}

#[test]
fn encodes_is_registered_call() {
    let data = encode_address_call(
        selectors::IS_REGISTERED,
        "0x0000000000000000000000000000000000000001",
    )
    .expect("encode");
    assert!(data.starts_with("0xc3c5a547"));
    assert!(data.ends_with("0000000000000000000000000000000000000001"));
}

#[test]
fn encodes_deposit_amount() {
    // 1 USDC = 1_000_000 (6 decimals)
    let data = encode_uint256_call(selectors::DEPOSIT, 1_000_000).expect("encode");
    assert_eq!(
        data,
        "0xb6b55f2500000000000000000000000000000000000000000000000000000000000f4240"
    );
}

#[test]
fn encodes_withdraw_amount() {
    let data = encode_uint256_call(selectors::WITHDRAW, 42).expect("encode");
    assert_eq!(
        data,
        "0x2e1a7d4d000000000000000000000000000000000000000000000000000000000000002a"
    );
}

#[test]
fn rejects_bad_address_length() {
    let err = encode_address_call(selectors::BALANCE_OF, "0xdeadbeef").unwrap_err();
    assert!(err.message().contains("20 bytes"));
}

#[test]
fn rejects_bad_hex() {
    let err = encode_address_call(
        selectors::BALANCE_OF,
        "0xZZZZZZZZZZZZZZZZZZZZZZZZZZZZZZZZZZZZZZZZ",
    )
    .unwrap_err();
    assert!(err.message().to_lowercase().contains("hex"));
}

#[test]
fn decodes_uint_result() {
    assert_eq!(decode_uint_result("0x0").unwrap(), 0);
    assert_eq!(decode_uint_result("0x").unwrap(), 0);
    assert_eq!(decode_uint_result("0xf4240").unwrap(), 1_000_000);
}

#[test]
fn action_parses_aliases() {
    assert_eq!(Action::parse("balance").unwrap(), Action::Balance);
    assert_eq!(Action::parse("Deposit").unwrap(), Action::Deposit);
    assert_eq!(Action::parse("WITHDRAW").unwrap(), Action::Withdraw);
    assert_eq!(Action::parse("registered").unwrap(), Action::Registered);
    assert_eq!(Action::parse("is-registered").unwrap(), Action::Registered);
    assert!(Action::parse("yeet").is_err());
}

#[test]
fn known_chains_resolve_address() {
    // Both arms return Some: the value is a placeholder until Phase 1, but
    // the resolver must stay stable.
    assert!(agent_deposit_address(42_161).is_some());
    assert!(agent_deposit_address(421_614).is_some());
    assert!(agent_deposit_address(1).is_none());
}

#[test]
fn balance_response_scales_usdc_decimals() {
    let v = format_balance_response(
        "0xC75020d5f669F5D15Afcb81b0e5F6d21bCDa9664",
        "0x0000000000000000000000000000000000000000",
        42161,
        2_500_000, // 2.5 USDC raw
    );
    assert_eq!(v.balance_raw, "2500000");
    assert_eq!(v.balance_units, 2_500_000);
    assert_eq!(v.decimals, 6);
    let balance_usdc = v.balance_units as f64 / 10f64.powi(v.decimals as i32);
    assert_eq!(balance_usdc, 2.5);
    assert_eq!(v.action, "balance");
}

#[test]
fn unsigned_tx_response_has_expected_shape() {
    let v = format_unsigned_tx(
        "deposit",
        "0xC75020d5f669F5D15Afcb81b0e5F6d21bCDa9664",
        "0x0000000000000000000000000000000000000000",
        42161,
        1_000_000,
        "0xb6b55f2500000000000000000000000000000000000000000000000000000000000f4240",
    );
    assert_eq!(v.tx.value, "0x0");
    assert_eq!(v.tx.to, "0x0000000000000000000000000000000000000000");
    assert_eq!(v.amount_raw, "1000000");
    assert!(v.note.contains("Unsigned"));
}

// ── further cases ──

#[test]
fn placeholder_deployment_is_the_zero_address() {
    assert_eq!(
        agent_deposit_address(421_614),
        Some("0x0000000000000000000000000000000000000000")
    );
    assert_eq!(agent_deposit_address(10), None);
}

#[test]
fn bare_hex_and_repeated_prefix_are_accepted() {
    let a = encode_address_call("70a08231", "c75020d5f669f5d15afcb81b0e5f6d21bcda9664").unwrap();
    let b = encode_address_call("0x0x70a08231", "0x0xC75020D5F669F5D15AFCB81B0E5F6D21BCDA9664").unwrap();
    assert_eq!(a, b);
    assert_eq!(
        a,
        "0x70a08231000000000000000000000000c75020d5f669f5d15afcb81b0e5f6d21bcda9664"
    );
}

#[test]
fn selector_case_is_kept() {
    let a = encode_address_call("0xABCDEF01", "0x0000000000000000000000000000000000000001").unwrap();
    assert!(a.starts_with("0xABCDEF01"));
}

#[test]
fn address_errors_name_length_and_position() {
    assert_eq!(
        encode_address_call(selectors::BALANCE_OF, "0xdeadbeef").unwrap_err(),
        CallEncodingError::AddressLength(8)
    );
    assert_eq!(
        encode_address_call(selectors::BALANCE_OF, "0xdeadbeef").unwrap_err().message(),
        "address must be 20 bytes (40 hex chars); got 8 chars"
    );
    let err = encode_address_call(
        selectors::BALANCE_OF,
        "0x00000000000000000000000000000000000000g1",
    )
    .unwrap_err();
    assert_eq!(
        err,
        CallEncodingError::AddressNotHex(HexError::InvalidHexCharacter { c: 'g', index: 38 })
    );
    assert_eq!(
        err.message(),
        "address is not valid hex: Invalid character 'g' at position 38"
    );
}

#[test]
fn address_length_counts_bytes() {
    // 20 two-byte characters are 40 bytes: the length passes, the hex check does not.
    let addr: String = std::iter::repeat('é').take(20).collect();
    let err = encode_address_call(selectors::BALANCE_OF, &addr).unwrap_err();
    assert!(matches!(
        err,
        CallEncodingError::AddressNotHex(HexError::InvalidHexCharacter { index: 0, .. })
    ));
}

#[test]
fn selector_errors() {
    let addr = "0x0000000000000000000000000000000000000001";
    assert_eq!(
        encode_address_call("0x1234", addr).unwrap_err(),
        CallEncodingError::SelectorLength(4)
    );
    assert_eq!(
        encode_address_call("0x1234", addr).unwrap_err().message(),
        "selector must be 4 bytes (8 hex chars); got 4"
    );
    assert_eq!(
        encode_uint256_call("0x1234567z", 1).unwrap_err(),
        CallEncodingError::SelectorNotHex(HexError::InvalidHexCharacter { c: 'z', index: 7 })
    );
    assert_eq!(
        encode_uint256_call("0x1234567z", 1).unwrap_err().message(),
        "selector is not valid hex: Invalid character 'z' at position 7"
    );
}

#[test]
fn address_is_checked_before_selector() {
    assert_eq!(
        encode_address_call("0x12", "0x12").unwrap_err(),
        CallEncodingError::AddressLength(2)
    );
}

#[test]
fn uint256_word_extremes() {
    assert_eq!(
        encode_uint256_call(selectors::DEPOSIT, 0).unwrap(),
        "0xb6b55f250000000000000000000000000000000000000000000000000000000000000000"
    );
    assert_eq!(
        encode_uint256_call(selectors::DEPOSIT, u128::MAX).unwrap(),
        "0xb6b55f2500000000000000000000000000000000ffffffffffffffffffffffffffffffff"
    );
}

#[test]
fn uint256_word_decodes_back() {
    for amount in [0u128, 1, 42, 1_000_000, u128::MAX] {
        let data = encode_uint256_call(selectors::WITHDRAW, amount).unwrap();
        assert_eq!(decode_uint_result(&data[10..]).unwrap(), amount);
    }
}

#[test]
fn decode_uint_result_errors() {
    assert_eq!(
        decode_uint_result("0xzz").unwrap_err(),
        AgentDepositError::InvalidHexUint(IntErrorKind::InvalidDigit)
    );
    assert_eq!(
        decode_uint_result("0x1ffffffffffffffffffffffffffffffff").unwrap_err(),
        AgentDepositError::InvalidHexUint(IntErrorKind::PosOverflow)
    );
    assert_eq!(
        decode_uint_result("0xzz").unwrap_err().message(),
        "invalid hex uint: invalid digit found in string"
    );
    assert_eq!(decode_uint_result("+ff").unwrap(), 255);
    assert_eq!(
        decode_uint_result("+").unwrap_err(),
        AgentDepositError::InvalidHexUint(IntErrorKind::InvalidDigit)
    );
}

#[test]
fn unknown_action_reports_lowercased_name() {
    let err = Action::parse("YEET").unwrap_err();
    assert_eq!(err, AgentDepositError::UnknownAction("yeet".to_string()));
    assert_eq!(
        err.message(),
        "unknown agent-deposit action 'yeet'. Try: balance | deposit | withdraw | registered"
    );
    assert_eq!(Action::parse("Is-Registered").unwrap(), Action::Registered);
}

#[test]
fn chain_id_reply() {
    assert_eq!(chain_id_from_reply(Some("0xa4b1")).unwrap(), 42_161);
    assert_eq!(
        chain_id_from_reply(None).unwrap_err(),
        AgentDepositError::ChainIdNotString
    );
    assert_eq!(
        chain_id_from_reply(None).unwrap_err().message(),
        "eth_chainId returned non-string"
    );
    assert_eq!(
        chain_id_from_reply(Some("0x")).unwrap_err(),
        AgentDepositError::Rpc(RpcValueError::InvalidHex(IntErrorKind::Empty))
    );
}

#[test]
fn balance_and_registered_replies() {
    assert_eq!(balance_from_reply(None).unwrap(), 0);
    assert_eq!(balance_from_reply(Some("0x2625a0")).unwrap(), 2_500_000);
    assert!(balance_from_reply(Some("0xq")).is_err());
    assert!(!registered_from_reply(None));
    assert!(!registered_from_reply(Some("0x")));
    assert!(!registered_from_reply(Some("0xnot-a-number")));
    assert!(!registered_from_reply(Some(
        "0x0000000000000000000000000000000000000000000000000000000000000000"
    )));
    assert!(registered_from_reply(Some(
        "0x0000000000000000000000000000000000000000000000000000000000000001"
    )));
    // A non-zero word wider than a u128 still counts.
    assert!(registered_from_reply(Some(
        "0x8000000000000000000000000000000000000000000000000000000000000000"
    )));
    assert!(registered_from_reply(Some(
        "0x80000000000000000000000000000000000000000000000000000000000000"
    )));
    assert!(registered_from_reply(Some("0x00A0")));
    // One leading `+` is read as the sign of an unsigned number.
    assert!(registered_from_reply(Some("+1")));
    assert!(registered_from_reply(Some("0x+1")));
    assert!(registered_from_reply(Some("+01")));
    assert!(!registered_from_reply(Some("+")));
    assert!(!registered_from_reply(Some("++1")));
    assert!(!registered_from_reply(Some("+0")));
    assert!(!registered_from_reply(Some("0x000")));
}

#[test]
fn registered_response_shape() {
    let v = format_registered_response("0xabc", "0xdef", 421_614, true);
    assert_eq!(v.action, "registered");
    assert_eq!(v.agent, "0xabc");
    assert_eq!(v.contract, "0xdef");
    assert_eq!(v.chain_id, 421_614);
    assert!(v.registered);
}

#[test]
fn unsigned_tx_response_fields() {
    let v = format_unsigned_tx("withdraw", "0xa", "0xc", 1, 340282366920938463463374607431768211455, "0xdata");
    assert_eq!(v.action, "withdraw");
    assert_eq!(v.agent, "0xa");
    assert_eq!(v.tx.from, "0xa");
    assert_eq!(v.contract, "0xc");
    assert_eq!(v.tx.data, "0xdata");
    assert_eq!(v.chain_id, 1);
    assert_eq!(v.amount_raw, "340282366920938463463374607431768211455");
    assert_eq!(v.amount_raw.parse::<u128>().unwrap(), u128::MAX);
}

#[test]
fn hex_error_texts() {
    assert_eq!(HexError::OddLength.message(), "Odd number of digits");
    assert_eq!(HexError::InvalidStringLength.message(), "Invalid string length");
    assert_eq!(
        HexError::InvalidHexCharacter { c: '\n', index: 5 }.message(),
        "Invalid character '\\n' at position 5"
    );
}

#[test]
fn address_prefix_and_case_do_not_matter() {
    let bare = "C75020d5f669F5D15Afcb81b0e5F6d21bCDa9664";
    let with_prefix = format!("0x{bare}");
    assert_eq!(
        encode_address_call(selectors::BALANCE_OF, bare),
        encode_address_call(selectors::BALANCE_OF, &with_prefix)
    );
    assert_eq!(
        encode_address_call(selectors::BALANCE_OF, &with_prefix),
        encode_address_call(selectors::BALANCE_OF, &with_prefix.to_ascii_lowercase())
    );
    // Both spellings of a bad address are refused.
    let bad = "0xG75020d5f669F5D15Afcb81b0e5F6d21bCDa9664";
    assert!(encode_address_call(selectors::BALANCE_OF, bad).is_err());
    assert!(encode_address_call(selectors::BALANCE_OF, &bad.to_ascii_lowercase()).is_err());
}
