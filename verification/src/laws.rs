//! Properties that relate several functions of the library.

use vstd::prelude::*;
use vstd::string::StringSliceAdditionalSpecFns;
use vstd::utf8::{encode_utf8, is_ascii_chars, is_ascii_chars_encode_utf8};
use crate::numeral::{
    ASCII_UPPER_X, all_digits, ascii_bytes, decimal, digit_value, digits_value, fixed_hex, lemma_decimal_value,
    lemma_fixed_hex_value, lemma_minimal_hex_value, lemma_pow16_monotone, lemma_scan_digits,
    lemma_u128_fits_32_hex_digits, minimal_hex, scan_digits, spec_parse_uint, strip_0x,
    IntErrorKind, ASCII_0, ASCII_LOWER_X, ASCII_PLUS,
};
use crate::rpc::{spec_hex_to_u64, spec_wei_hex_to_wei};
use crate::agent_deposit::{
    ascii_lower, ascii_lower_byte, ascii_lower_char, bytes_as_chars, spec_check_selector,
    spec_balance_from_reply, spec_decode_uint_result, spec_encode_address_call, spec_encode_uint256_call, spec_parse_action,
    zeros,
};
use crate::commands::{is_block_tag, read_selector, spec_block_param, spec_resolve_contract};
use crate::agent_deposit::Action;
use crate::output::{deeper, item_lines, member_lines, spec_human_lines, HumanLine, JsonTree};

verus! {

/// The bytes of ASCII characters are the characters themselves.
proof fn lemma_ascii_encoding(cs: Seq<char>)
    requires
        is_ascii_chars(cs),
    ensures
        encode_utf8(cs) == ascii_bytes(cs),
{
    is_ascii_chars_encode_utf8(cs);
    assert(encode_utf8(cs) =~= ascii_bytes(cs));
}

/// Digits never begin with `0x`, so stripping that prefix leaves them alone.
proof fn lemma_strip_digits(ds: Seq<u8>, radix: nat)
    requires
        all_digits(ds, radix),
        radix <= 16,
    ensures
        strip_0x(ds) == ds,
{
    if ds.len() >= 2 {
        assert(digit_value(ds[1], radix) is Some);
    }
}

/// A successful scan never passes its limit.
proof fn lemma_scan_bound(ds: Seq<u8>, radix: nat, limit: nat, acc: nat)
    requires
        acc <= limit,
        scan_digits(ds, radix, limit, acc) is Ok,
    ensures
        scan_digits(ds, radix, limit, acc)->Ok_0 <= limit,
    decreases ds.len(),
{
    if ds.len() > 0 {
        let d = digit_value(ds[0], radix).unwrap();
        lemma_scan_bound(ds.drop_first(), radix, limit, acc * radix + d);
    }
}

/// Digits in `radix` whose value fits read back as that value.
proof fn lemma_parse_digits(ds: Seq<u8>, radix: nat, limit: nat)
    requires
        2 <= radix <= 16,
        ds.len() > 0,
        all_digits(ds, radix),
        digits_value(ds, radix, 0) <= limit,
    ensures
        spec_parse_uint(ds, radix, limit) == Ok::<nat, IntErrorKind>(digits_value(ds, radix, 0)),
{
    assert(digit_value(ds[0], radix) is Some);
    assert(ds[0] != ASCII_PLUS);
    lemma_scan_digits(ds, radix, limit, 0);
}

/// The amount word of `selector(uint256)` calldata (everything after `0x`
/// and the selector) decodes with `decode_uint_result` to the amount encoded.
pub proof fn law_uint256_word_decodes_to_amount(selector: Seq<u8>, amount: u128)
    requires
        spec_encode_uint256_call(selector, amount) is Ok,
    ensures
        spec_encode_uint256_call(selector, amount)->Ok_0.len() == 74,
        spec_decode_uint_result(encode_utf8(spec_encode_uint256_call(selector, amount)->Ok_0.skip(10)))
            == Ok::<u128, IntErrorKind>(amount),
{
    let sel = spec_check_selector(selector)->Ok_0;
    let out = spec_encode_uint256_call(selector, amount)->Ok_0;
    let word = fixed_hex(amount as nat, 64);
    lemma_u128_fits_32_hex_digits(amount);
    lemma_pow16_monotone(32, 64);
    lemma_fixed_hex_value(amount as nat, 64);
    assert(bytes_as_chars(sel).len() == 8);
    assert(out.skip(10) =~= word);
    lemma_ascii_encoding(word);
    let bytes = ascii_bytes(word);
    lemma_strip_digits(bytes, 16);
    lemma_parse_digits(bytes, 16, u128::MAX as nat);
}

/// A decimal block number becomes a `0x` hexadecimal block parameter that
/// `hex_to_u64` reads back as the same number.
pub proof fn law_block_param_round_trip(block: &str, n: nat)
    requires
        !is_block_tag(block@),
        spec_parse_uint(block.spec_bytes(), 10, u64::MAX as nat) == Ok::<nat, IntErrorKind>(n),
    ensures
        spec_block_param(block) == Ok::<Seq<char>, crate::commands::CommandError>(seq!['0', 'x'] + minimal_hex(n)),
        spec_hex_to_u64(encode_utf8(seq!['0', 'x'] + minimal_hex(n))) == Ok::<u64, crate::rpc::RpcValueError>(n as u64),
{
    let s = block.spec_bytes();
    if s[0] == ASCII_PLUS && s.len() > 1 {
        lemma_scan_bound(s.drop_first(), 10, u64::MAX as nat, 0);
    } else {
        lemma_scan_bound(s, 10, u64::MAX as nat, 0);
    }
    let text = seq!['0', 'x'] + minimal_hex(n);
    lemma_minimal_hex_value(n);
    let digits = ascii_bytes(minimal_hex(n));
    assert(is_ascii_chars(text)) by {
        assert forall|i: int| 0 <= i < text.len() implies '\0' <= #[trigger] text[i] <= '\u{7f}' by {
            if i >= 2 {
                assert(text[i] == minimal_hex(n)[i - 2]);
            }
        }
    }
    lemma_ascii_encoding(text);
    let bytes = ascii_bytes(text);
    assert(bytes.skip(2) =~= digits);
    assert(strip_0x(bytes) == strip_0x(digits));
    lemma_strip_digits(digits, 16);
    lemma_parse_digits(digits, 16, u64::MAX as nat);
}

/// The decimal text of an amount (as the responses report it) reads back as
/// the amount with `u128`'s own parser.
pub proof fn law_decimal_round_trip(amount: u128)
    ensures
        spec_parse_uint(encode_utf8(decimal(amount as nat)), 10, u128::MAX as nat)
            == Ok::<nat, IntErrorKind>(amount as nat),
{
    lemma_decimal_value(amount as nat);
    lemma_ascii_encoding(decimal(amount as nat));
    lemma_parse_digits(ascii_bytes(decimal(amount as nat)), 10, u128::MAX as nat);
}

proof fn lemma_ascii_lower_char_idempotent(c: char)
    ensures
        ascii_lower_char(ascii_lower_char(c)) == ascii_lower_char(c),
{
}

/// Action names are read without regard to ASCII case: lowercasing a name
/// first changes nothing.
pub proof fn law_parse_action_ignores_case(s: Seq<char>)
    ensures
        spec_parse_action(ascii_lower(s)) == spec_parse_action(s),
{
    assert forall|i: int| 0 <= i < s.len() implies #[trigger] ascii_lower(ascii_lower(s))[i] == ascii_lower(s)[i] by {
        lemma_ascii_lower_char_idempotent(s[i]);
    }
    assert(ascii_lower(ascii_lower(s)) =~= ascii_lower(s));
}


proof fn lemma_hex_digit_ignores_case(b: u8)
    ensures
        (digit_value(b, 16) is Some) == (digit_value(ascii_lower_byte(b), 16) is Some),
{
}

/// `selector(address)` calldata is 74 characters: `0x`, the 8 selector
/// digits, then one 64-digit word.
pub proof fn law_address_call_length(selector: Seq<u8>, address: Seq<u8>)
    requires
        spec_encode_address_call(selector, address) is Ok,
    ensures
        spec_encode_address_call(selector, address)->Ok_0.len() == 74,
{
}

/// The case of the address's letters does not matter: two spellings of an
/// address that agree once lowercased (leading `0x` aside) either both fail
/// to encode or both encode to the same calldata.
pub proof fn law_address_case_does_not_matter(selector: Seq<u8>, a1: Seq<u8>, a2: Seq<u8>)
    requires
        strip_0x(a1).map_values(|b: u8| ascii_lower_byte(b)) == strip_0x(a2).map_values(
            |b: u8| ascii_lower_byte(b),
        ),
    ensures
        (spec_encode_address_call(selector, a1) is Ok) == (spec_encode_address_call(selector, a2) is Ok),
        spec_encode_address_call(selector, a1) is Ok ==> spec_encode_address_call(selector, a2)
            == spec_encode_address_call(selector, a1),
{
    let x1 = strip_0x(a1);
    let x2 = strip_0x(a2);
    let l1 = x1.map_values(|b: u8| ascii_lower_byte(b));
    let l2 = x2.map_values(|b: u8| ascii_lower_byte(b));
    assert(x1.len() == l1.len() && x2.len() == l2.len());
    assert(x1.len() == x2.len());
    assert forall|i: int| 0 <= i < x1.len() implies (digit_value(x1[i], 16) is Some) == (digit_value(x2[i], 16) is Some) by {
        lemma_hex_digit_ignores_case(x1[i]);
        lemma_hex_digit_ignores_case(x2[i]);
        assert(l1[i] == l2[i]);
    }
    if all_digits(x1, 16) {
        assert forall|i: int| 0 <= i < x2.len() implies (#[trigger] digit_value(x2[i], 16)) is Some by {
            assert(digit_value(x1[i], 16) is Some);
        }
    }
    if all_digits(x2, 16) {
        assert forall|i: int| 0 <= i < x1.len() implies (#[trigger] digit_value(x1[i], 16)) is Some by {
            assert(digit_value(x2[i], 16) is Some);
        }
    }
}

/// A leading `0x` does not change the calldata of an address.
pub proof fn law_address_prefix_does_not_matter(selector: Seq<u8>, address: Seq<u8>)
    ensures
        spec_encode_address_call(selector, seq![ASCII_0, ASCII_LOWER_X] + address)
            == spec_encode_address_call(selector, address),
{
    let p = seq![ASCII_0, ASCII_LOWER_X] + address;
    assert(p.skip(2) =~= address);
    assert(strip_0x(p) == strip_0x(address));
}

/// The bytes of `s` with ASCII capitals turned into small letters
/// (`str::to_ascii_lowercase`).
pub open spec fn lowercase_bytes(s: Seq<u8>) -> Seq<u8> {
    s.map_values(|b: u8| ascii_lower_byte(b))
}

proof fn lemma_strip_lowercase(a: Seq<u8>)
    requires
        !(strip_0x(a).len() >= 2 && strip_0x(a)[0] == ASCII_0 && strip_0x(a)[1] == ASCII_UPPER_X),
    ensures
        strip_0x(lowercase_bytes(a)) == lowercase_bytes(strip_0x(a)),
    decreases a.len(),
{
    let l = lowercase_bytes(a);
    if a.len() >= 2 && a[0] == ASCII_0 && a[1] == ASCII_LOWER_X {
        assert(l[0] == ASCII_0 && l[1] == ASCII_LOWER_X);
        assert(l.skip(2) =~= lowercase_bytes(a.skip(2)));
        lemma_strip_lowercase(a.skip(2));
    } else {
        if a.len() >= 2 {
            assert(l[0] == ascii_lower_byte(a[0]) && l[1] == ascii_lower_byte(a[1]));
        }
    }
}

/// Lowercasing an address (whose leading `0x`, if any, is lowercase, so
/// that lowercasing does not make a new prefix) does not change whether it
/// encodes, nor the calldata it encodes to.
pub proof fn law_lowercasing_address_does_not_matter(selector: Seq<u8>, address: Seq<u8>)
    requires
        !(strip_0x(address).len() >= 2 && strip_0x(address)[0] == ASCII_0 && strip_0x(address)[1]
            == ASCII_UPPER_X),
    ensures
        (spec_encode_address_call(selector, address) is Ok) == (spec_encode_address_call(
            selector,
            lowercase_bytes(address),
        ) is Ok),
        spec_encode_address_call(selector, address) is Ok ==> spec_encode_address_call(
            selector,
            lowercase_bytes(address),
        ) == spec_encode_address_call(selector, address),
{
    lemma_strip_lowercase(address);
    let x = strip_0x(address);
    assert(lowercase_bytes(lowercase_bytes(x)) =~= lowercase_bytes(x));
    law_address_case_does_not_matter(selector, address, lowercase_bytes(address));
}

/// The ASCII small letters of `s` turned into capitals.
pub open spec fn ascii_upper(s: Seq<char>) -> Seq<char> {
    s.map_values(|c: char| if 'a' <= c <= 'z' { ((c as u32) - 32) as char } else { c })
}

proof fn lemma_digits_value_congruent(x: Seq<u8>, y: Seq<u8>, radix: nat, acc: nat)
    requires
        x.len() == y.len(),
        forall|i: int| 0 <= i < x.len() ==> digit_value(x[i], radix) == digit_value(y[i], radix),
    ensures
        digits_value(x, radix, acc) == digits_value(y, radix, acc),
    decreases x.len(),
{
    if x.len() > 0 {
        assert(digit_value(x[0], radix) == digit_value(y[0], radix));
        lemma_digits_value_congruent(x.drop_first(), y.drop_first(), radix, acc * radix + digit_value(x[0], radix).unwrap());
    }
}

/// Hexadecimal digits (with value at most `u64::MAX`) read back as their value
/// through `hex_to_u64`'s reading, with or without `0x`.
proof fn lemma_hex_text_reads(digits: Seq<char>, n: nat)
    requires
        digits.len() > 0,
        is_ascii_chars(digits),
        all_digits(ascii_bytes(digits), 16),
        digits_value(ascii_bytes(digits), 16, 0) == n,
        n <= u64::MAX,
    ensures
        spec_hex_to_u64(encode_utf8(digits)) == Ok::<u64, crate::rpc::RpcValueError>(n as u64),
        spec_hex_to_u64(encode_utf8(seq!['0', 'x'] + digits)) == Ok::<u64, crate::rpc::RpcValueError>(n as u64),
{
    let text = seq!['0', 'x'] + digits;
    assert(is_ascii_chars(text)) by {
        assert forall|i: int| 0 <= i < text.len() implies '\0' <= #[trigger] text[i] <= '\u{7f}' by {
            if i >= 2 {
                assert(text[i] == digits[i - 2]);
            }
        }
    }
    lemma_ascii_encoding(digits);
    lemma_ascii_encoding(text);
    let d = ascii_bytes(digits);
    assert(ascii_bytes(text).skip(2) =~= d);
    assert(strip_0x(ascii_bytes(text)) == strip_0x(d));
    lemma_strip_digits(d, 16);
    lemma_parse_digits(d, 16, u64::MAX as nat);
}

/// `hex_to_u64` reads back every `u64` written in hexadecimal: lowercase
/// with `0x` (`format!("0x{n:x}")`), bare (`format!("{n:x}")`), and
/// uppercase with `0x` (`format!("0x{n:X}")`).
pub proof fn law_hex_to_u64_round_trip(n: u64)
    ensures
        spec_hex_to_u64(encode_utf8(seq!['0', 'x'] + minimal_hex(n as nat))) == Ok::<u64, crate::rpc::RpcValueError>(n),
        spec_hex_to_u64(encode_utf8(minimal_hex(n as nat))) == Ok::<u64, crate::rpc::RpcValueError>(n),
        spec_hex_to_u64(encode_utf8(seq!['0', 'x'] + ascii_upper(minimal_hex(n as nat)))) == Ok::<u64, crate::rpc::RpcValueError>(n),
{
    let m = minimal_hex(n as nat);
    lemma_minimal_hex_value(n as nat);
    lemma_hex_text_reads(m, n as nat);
    let u = ascii_upper(m);
    assert forall|i: int| 0 <= i < u.len() implies '\0' <= #[trigger] u[i] <= '\u{7f}' && digit_value(u[i] as u8, 16) == digit_value(m[i] as u8, 16) by {
        assert(ascii_bytes(m)[i] == m[i] as u8);
        assert(digit_value(ascii_bytes(m)[i], 16) is Some);
    }
    assert(is_ascii_chars(u));
    assert forall|i: int| 0 <= i < ascii_bytes(u).len() implies digit_value(ascii_bytes(u)[i], 16) == digit_value(ascii_bytes(m)[i], 16) by {
        assert(digit_value(u[i] as u8, 16) == digit_value(m[i] as u8, 16));
    }
    assert forall|i: int| 0 <= i < ascii_bytes(u).len() implies (#[trigger] digit_value(ascii_bytes(u)[i], 16)) is Some by {
        assert(digit_value(ascii_bytes(u)[i], 16) == digit_value(ascii_bytes(m)[i], 16));
    }
    lemma_digits_value_congruent(ascii_bytes(u), ascii_bytes(m), 16, 0);
    lemma_hex_text_reads(u, n as nat);
}

proof fn lemma_selector_valid(sel: &str)
    requires
        sel@.len() == 10,
        sel@[0] == '0',
        sel@[1] == 'x',
        forall|i: int| 2 <= i < 10 ==> #[trigger] digit_value(sel@[i] as u8, 16) is Some && '\0' <= sel@[i] <= '\u{7f}',
    ensures
        spec_check_selector(sel.spec_bytes()) is Ok,
{
    let cs = sel@;
    assert(is_ascii_chars(cs)) by {
        assert forall|i: int| 0 <= i < cs.len() implies '\0' <= #[trigger] cs[i] <= '\u{7f}' by {
            if i >= 2 {
                assert(digit_value(cs[i] as u8, 16) is Some);
            }
        }
    }
    lemma_ascii_encoding(cs);
    let b = ascii_bytes(cs);
    let d = b.skip(2);
    assert(d.len() == 8);
    assert forall|i: int| 0 <= i < d.len() implies (#[trigger] digit_value(d[i], 16)) is Some by {
        assert(d[i] == cs[i + 2] as u8);
        assert(digit_value(cs[i + 2] as u8, 16) is Some);
    }
    lemma_strip_digits(d, 16);
    assert(strip_0x(b) == strip_0x(d));
}

/// The four `AgentDeposit` selectors are well-formed, so encoding calldata
/// with them fails only on a bad address.
pub proof fn law_selectors_are_valid()
    ensures
        spec_check_selector(crate::agent_deposit::selectors::BALANCE_OF.spec_bytes()) is Ok,
        spec_check_selector(crate::agent_deposit::selectors::DEPOSIT.spec_bytes()) is Ok,
        spec_check_selector(crate::agent_deposit::selectors::WITHDRAW.spec_bytes()) is Ok,
        spec_check_selector(crate::agent_deposit::selectors::IS_REGISTERED.spec_bytes()) is Ok,
{
    reveal_strlit("0x70a08231");
    reveal_strlit("0xb6b55f25");
    reveal_strlit("0x2e1a7d4d");
    reveal_strlit("0xc3c5a547");
    lemma_selector_valid(crate::agent_deposit::selectors::BALANCE_OF);
    lemma_selector_valid(crate::agent_deposit::selectors::DEPOSIT);
    lemma_selector_valid(crate::agent_deposit::selectors::WITHDRAW);
    lemma_selector_valid(crate::agent_deposit::selectors::IS_REGISTERED);
}


/// `0x` followed by digits (any case) of value `n`, with `n` at most `limit`,
/// reads back as `n` after the `0x` is stripped.
proof fn lemma_prefixed_digits_read(digits: Seq<char>, n: nat, limit: nat)
    requires
        digits.len() > 0,
        is_ascii_chars(digits),
        all_digits(ascii_bytes(digits), 16),
        digits_value(ascii_bytes(digits), 16, 0) == n,
        n <= limit,
    ensures
        strip_0x(encode_utf8(seq!['0', 'x'] + digits)) == ascii_bytes(digits),
        strip_0x(encode_utf8(digits)) == ascii_bytes(digits),
        spec_parse_uint(ascii_bytes(digits), 16, limit) == Ok::<nat, IntErrorKind>(n),
{
    let text = seq!['0', 'x'] + digits;
    assert(is_ascii_chars(text)) by {
        assert forall|i: int| 0 <= i < text.len() implies '\0' <= #[trigger] text[i] <= '\u{7f}' by {
            if i >= 2 {
                assert(text[i] == digits[i - 2]);
            }
        }
    }
    lemma_ascii_encoding(digits);
    lemma_ascii_encoding(text);
    let d = ascii_bytes(digits);
    assert(ascii_bytes(text).skip(2) =~= d);
    assert(strip_0x(ascii_bytes(text)) == strip_0x(d));
    lemma_strip_digits(d, 16);
    lemma_parse_digits(d, 16, limit);
}

/// Every `u128` amount of wei written as `0x` and lowercase hexadecimal
/// (`format!("0x{n:x}")`, as `eth_getBalance` answers) reads back as that
/// amount, over the whole `u128` range; `hex_u128_or_zero` reads it the same.
pub proof fn law_wei_round_trip(n: u128)
    ensures
        spec_wei_hex_to_wei(encode_utf8(seq!['0', 'x'] + minimal_hex(n as nat)))
            == Ok::<u128, crate::rpc::RpcValueError>(n),
        spec_wei_hex_to_wei(encode_utf8(minimal_hex(n as nat)))
            == Ok::<u128, crate::rpc::RpcValueError>(n),
{
    lemma_minimal_hex_value(n as nat);
    lemma_prefixed_digits_read(minimal_hex(n as nat), n as nat, u128::MAX as nat);
}

/// The balance read from a `balanceOf` reply that is one ABI word (`0x` and
/// 64 hexadecimal digits) is the word's value: every digit counts, high and
/// low half alike.
pub proof fn law_balance_reads_abi_word(h: &str, v: u128)
    requires
        h@ == seq!['0', 'x'] + fixed_hex(v as nat, 64),
    ensures
        spec_balance_from_reply(Some(h)) == Ok::<u128, crate::agent_deposit::AgentDepositError>(v),
{
    lemma_u128_fits_32_hex_digits(v);
    lemma_pow16_monotone(32, 64);
    lemma_fixed_hex_value(v as nat, 64);
    lemma_prefixed_digits_read(fixed_hex(v as nat, 64), v as nat, u128::MAX as nat);
}

/// An override always wins: whatever the chain (the Arbitrum ones
/// included), the contract resolved is the one given.
pub proof fn law_contract_override_wins(contract: Seq<char>, chain_id: u64)
    ensures
        spec_resolve_contract(Some(contract), chain_id) == Ok::<Seq<char>, crate::agent_deposit::AgentDepositError>(contract),
{
}

/// Without an override, the contract is the chain's registered deployment,
/// and a chain without one is refused.
pub proof fn law_contract_without_override(chain_id: u64)
    ensures
        (chain_id == 42_161 || chain_id == 421_614) ==> spec_resolve_contract(None, chain_id)
            == Ok::<Seq<char>, crate::agent_deposit::AgentDepositError>(
            crate::agent_deposit::PLACEHOLDER_DEPLOYMENT@,
        ),
        !(chain_id == 42_161 || chain_id == 421_614) ==> spec_resolve_contract(None, chain_id)
            == Err::<Seq<char>, crate::agent_deposit::AgentDepositError>(
            crate::agent_deposit::AgentDepositError::NoDeployment(chain_id),
        ),
{
}


/// Address calldata begins with `0x` and the selector's eight digits as the
/// selector spells them.
pub(crate) proof fn lemma_calldata_prefix(sel: &str, address: Seq<u8>)
    requires
        sel@.len() == 10,
        sel@[0] == '0',
        sel@[1] == 'x',
        forall|i: int| 2 <= i < 10 ==> #[trigger] digit_value(sel@[i] as u8, 16) is Some && '\0' <= sel@[i] <= '\u{7f}',
        spec_encode_address_call(sel.spec_bytes(), address) is Ok,
    ensures
        spec_encode_address_call(sel.spec_bytes(), address)->Ok_0.take(10) == sel@,
{
    let cs = sel@;
    assert(is_ascii_chars(cs)) by {
        assert forall|i: int| 0 <= i < cs.len() implies '\0' <= #[trigger] cs[i] <= '\u{7f}' by {
            if i >= 2 {
                assert(digit_value(cs[i] as u8, 16) is Some);
            }
        }
    }
    lemma_ascii_encoding(cs);
    let b = ascii_bytes(cs);
    let d = b.skip(2);
    assert forall|i: int| 0 <= i < d.len() implies (#[trigger] digit_value(d[i], 16)) is Some by {
        assert(d[i] == cs[i + 2] as u8);
        assert(digit_value(cs[i + 2] as u8, 16) is Some);
    }
    lemma_strip_digits(d, 16);
    assert(strip_0x(b) == strip_0x(d));
    let cd = spec_encode_address_call(sel.spec_bytes(), address)->Ok_0;
    assert forall|i: int| 0 <= i < 10 implies #[trigger] cd[i] == cs[i] by {
        if i >= 2 {
            assert(cd[i] == bytes_as_chars(d)[i - 2]);
            assert(d[i - 2] == cs[i] as u8);
        }
    }
    assert(cd.take(10) =~= cs);
}

/// The read actions call the right function: `registered` sends
/// `isRegistered(address)` (selector `0xc3c5a547`), `balance` sends
/// `balanceOf(address)` (selector `0x70a08231`).
pub proof fn law_read_calldata_selector(address: Seq<u8>)
    ensures
        spec_encode_address_call(read_selector(Action::Registered).spec_bytes(), address) matches Ok(cd)
            ==> cd.take(10) == "0xc3c5a547"@,
        spec_encode_address_call(read_selector(Action::Balance).spec_bytes(), address) matches Ok(cd)
            ==> cd.take(10) == "0x70a08231"@,
{
    reveal_strlit("0x70a08231");
    reveal_strlit("0xc3c5a547");
    if spec_encode_address_call(read_selector(Action::Registered).spec_bytes(), address) is Ok {
        lemma_calldata_prefix(read_selector(Action::Registered), address);
    }
    if spec_encode_address_call(read_selector(Action::Balance).spec_bytes(), address) is Ok {
        lemma_calldata_prefix(read_selector(Action::Balance), address);
    }
}


/// The number of scalar and string leaves of a JSON value.
pub open spec fn leaf_count(t: JsonTree) -> nat
    decreases t,
{
    match t {
        JsonTree::Scalar(_) => 1,
        JsonTree::Text { .. } => 1,
        JsonTree::Array(items) => items_leaf_count(items@),
        JsonTree::Object(members) => members_leaf_count(members@),
    }
}

/// The leaves of array items.
pub open spec fn items_leaf_count(items: Seq<JsonTree>) -> nat
    decreases items,
{
    if items.len() == 0 {
        0
    } else {
        leaf_count(items[0]) + items_leaf_count(items.subrange(1, items.len() as int))
    }
}

/// The leaves of object members.
pub open spec fn members_leaf_count(members: Seq<(String, JsonTree)>) -> nat
    decreases members,
{
    if members.len() == 0 {
        0
    } else {
        let (_k, v) = members[0];
        leaf_count(v) + members_leaf_count(members.subrange(1, members.len() as int))
    }
}

/// Whether a JSON value is an object or an array.
pub open spec fn is_composite(t: JsonTree) -> bool {
    t is Object || t is Array
}

/// The number of array items and of object members holding an object or an
/// array, over the whole value: the places where a value is shown below.
pub open spec fn branch_count(t: JsonTree) -> nat
    decreases t,
{
    match t {
        JsonTree::Scalar(_) => 0,
        JsonTree::Text { .. } => 0,
        JsonTree::Array(items) => items_branch_count(items@),
        JsonTree::Object(members) => members_branch_count(members@),
    }
}

/// The branches of array items.
pub open spec fn items_branch_count(items: Seq<JsonTree>) -> nat
    decreases items,
{
    if items.len() == 0 {
        0
    } else {
        1 + branch_count(items[0]) + items_branch_count(items.subrange(1, items.len() as int))
    }
}

/// The branches of object members.
pub open spec fn members_branch_count(members: Seq<(String, JsonTree)>) -> nat
    decreases members,
{
    if members.len() == 0 {
        0
    } else {
        let (_k, v) = members[0];
        (if is_composite(v) { 1 + branch_count(v) } else { 0nat })
            + members_branch_count(members.subrange(1, members.len() as int))
    }
}

/// Whether a line shows a value (`key: value` or a value alone), as opposed
/// to announcing one below (a key or an `[index]`).
pub open spec fn shows_value(l: HumanLine) -> bool {
    l is Field || l is Plain
}

/// The number of lines that show values (`values`) or that announce them.
pub open spec fn count_lines(lines: Seq<HumanLine>, values: bool) -> nat
    decreases lines.len(),
{
    if lines.len() == 0 {
        0
    } else {
        count_lines(lines.drop_last(), values) + if shows_value(lines.last()) == values {
            1nat
        } else {
            0nat
        }
    }
}

proof fn lemma_count_lines_append(a: Seq<HumanLine>, b: Seq<HumanLine>, values: bool)
    ensures
        count_lines(a + b, values) == count_lines(a, values) + count_lines(b, values),
    decreases b.len(),
{
    if b.len() == 0 {
        assert(a + b =~= a);
    } else {
        assert((a + b).drop_last() =~= a + b.drop_last());
        assert((a + b).last() == b.last());
        lemma_count_lines_append(a, b.drop_last(), values);
    }
}

proof fn lemma_count_one(l: HumanLine, values: bool)
    ensures
        count_lines(seq![l], values) == if shows_value(l) == values { 1nat } else { 0nat },
{
    assert(seq![l].drop_last() =~= Seq::<HumanLine>::empty());
    assert(seq![l].last() == l);
    assert(count_lines(Seq::<HumanLine>::empty(), values) == 0);
}

proof fn lemma_tree_lines(t: JsonTree, indent: usize)
    ensures
        count_lines(spec_human_lines(t, indent), true) == leaf_count(t),
        count_lines(spec_human_lines(t, indent), false) == branch_count(t),
    decreases t, 1nat,
{
    match t {
        JsonTree::Object(members) => {
            assert(decreases_to!(t => t->Object_0));
            assert(decreases_to!(t->Object_0 => members@));
            lemma_member_lines(members@, indent);
        },
        JsonTree::Array(items) => {
            assert(decreases_to!(t => t->Array_0));
            assert(decreases_to!(t->Array_0 => items@));
            lemma_item_lines(items@, indent, 0);
        },
        JsonTree::Scalar(x) => {
            lemma_count_one(HumanLine::Plain { indent, text: x }, true);
            lemma_count_one(HumanLine::Plain { indent, text: x }, false);
        },
        JsonTree::Text { json, .. } => {
            lemma_count_one(HumanLine::Plain { indent, text: json }, true);
            lemma_count_one(HumanLine::Plain { indent, text: json }, false);
        },
    }
}

proof fn lemma_member_lines(members: Seq<(String, JsonTree)>, indent: usize)
    ensures
        count_lines(member_lines(members, indent), true) == members_leaf_count(members),
        count_lines(member_lines(members, indent), false) == members_branch_count(members),
    decreases members, 0nat,
{
    if members.len() > 0 {
        let (k, v) = members[0];
        let rest = members.subrange(1, members.len() as int);
        assert(decreases_to!(members => members[0]));
        assert(decreases_to!(members[0] => members[0].1));
        lemma_member_lines(rest, indent);
        let first = match v {
            JsonTree::Object(_) | JsonTree::Array(_) => seq![HumanLine::Key { indent, key: k }]
                + spec_human_lines(v, deeper(indent)),
            JsonTree::Scalar(t) => seq![HumanLine::Field { indent, key: k, value: t }],
            JsonTree::Text { value: text, .. } => seq![HumanLine::Field { indent, key: k, value: text }],
        };
        assert(member_lines(members, indent) == first + member_lines(rest, indent));
        assert(members_leaf_count(members) == leaf_count(v) + members_leaf_count(rest));
        assert(members_branch_count(members) == (if is_composite(v) { 1 + branch_count(v) } else { 0nat })
            + members_branch_count(rest));
        lemma_count_lines_append(first, member_lines(rest, indent), true);
        lemma_count_lines_append(first, member_lines(rest, indent), false);
        match v {
            JsonTree::Object(_) | JsonTree::Array(_) => {
                lemma_tree_lines(v, deeper(indent));
                lemma_count_one(HumanLine::Key { indent, key: k }, true);
                lemma_count_one(HumanLine::Key { indent, key: k }, false);
                lemma_count_lines_append(seq![HumanLine::Key { indent, key: k }], spec_human_lines(v, deeper(indent)), true);
                lemma_count_lines_append(seq![HumanLine::Key { indent, key: k }], spec_human_lines(v, deeper(indent)), false);
            },
            JsonTree::Scalar(t) => {
                lemma_count_one(HumanLine::Field { indent, key: k, value: t }, true);
                lemma_count_one(HumanLine::Field { indent, key: k, value: t }, false);
            },
            JsonTree::Text { value: text, .. } => {
                lemma_count_one(HumanLine::Field { indent, key: k, value: text }, true);
                lemma_count_one(HumanLine::Field { indent, key: k, value: text }, false);
            },
        }
    }
}

proof fn lemma_item_lines(items: Seq<JsonTree>, indent: usize, index: nat)
    ensures
        count_lines(item_lines(items, indent, index), true) == items_leaf_count(items),
        count_lines(item_lines(items, indent, index), false) == items_branch_count(items),
    decreases items, 0nat,
{
    if items.len() > 0 {
        let rest = items.subrange(1, items.len() as int);
        assert(decreases_to!(items => items[0]));
        lemma_item_lines(rest, indent, index + 1);
        lemma_tree_lines(items[0], deeper(indent));
        let head = seq![HumanLine::Index { indent, index: index as usize }];
        let sub = spec_human_lines(items[0], deeper(indent));
        lemma_count_one(HumanLine::Index { indent, index: index as usize }, true);
        lemma_count_one(HumanLine::Index { indent, index: index as usize }, false);
        lemma_count_lines_append(head, sub, true);
        lemma_count_lines_append(head, sub, false);
        lemma_count_lines_append(head + sub, item_lines(rest, indent, index + 1), true);
        lemma_count_lines_append(head + sub, item_lines(rest, indent, index + 1), false);
    }
}

/// The human output shows every leaf of a JSON value (scalar or string, at
/// any depth, nested objects and arrays included) on exactly one line of its
/// own, and announces every nested value (an array item, or a member holding
/// an object or an array) with exactly one key or `[index]` line: nothing is
/// dropped and nothing shown twice.
pub proof fn law_human_lines_show_every_leaf(value: JsonTree, indent: usize)
    ensures
        count_lines(spec_human_lines(value, indent), true) == leaf_count(value),
        count_lines(spec_human_lines(value, indent), false) == branch_count(value),
        spec_human_lines(value, indent).len() == leaf_count(value) + branch_count(value),
{
    lemma_tree_lines(value, indent);
    lemma_count_total(spec_human_lines(value, indent));
}

proof fn lemma_count_total(lines: Seq<HumanLine>)
    ensures
        lines.len() == count_lines(lines, true) + count_lines(lines, false),
    decreases lines.len(),
{
    if lines.len() > 0 {
        lemma_count_total(lines.drop_last());
    }
}

} // verus!
