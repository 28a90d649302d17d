//! `AgentDeposit`, the agent funding primitive of Create Protocol Phase 1:
//! resolving its deployment, parsing what the user asked for, encoding the
//! calldata of its calls, and reading what they return.
//!
//! Write actions (`deposit`, `withdraw`) are prepared as unsigned calldata
//! only: signing and broadcasting happen elsewhere, and no key is handled here.

use vstd::prelude::*;
use vstd::string::{StrSliceExecFns, StringExecFns, StringSliceAdditionalSpecFns};
use crate::numeral::{
    all_digits, decimal, decimal_string, digit_value, fixed_hex, int_error_text, parse_uint,
    push_char, push_decimal, push_fixed_hex, spec_parse_uint, strip_0x, strip_0x_bytes,
    IntErrorKind, ASCII_0, ASCII_9, ASCII_LOWER_A, ASCII_PLUS, ASCII_UPPER_A,
};

pub mod selectors;

verus! {

/// Chain id of Arbitrum One.
pub const ARBITRUM_ONE: u64 = 42_161;

/// Chain id of Arbitrum Sepolia.
pub const ARBITRUM_SEPOLIA: u64 = 421_614;

/// The address registered for `AgentDeposit` on the Arbitrum chains until the
/// Phase 1 deployments land (the zero address).
pub const PLACEHOLDER_DEPLOYMENT: &'static str = "0x0000000000000000000000000000000000000000";

/// Resolves the `AgentDeposit` contract address for a chain id: the Arbitrum
/// chains have one, every other chain has none.
pub fn agent_deposit_address(chain_id: u64) -> (r: Option<&'static str>)
    ensures
        r is Some <==> (chain_id == ARBITRUM_ONE || chain_id == ARBITRUM_SEPOLIA),
        r matches Some(a) ==> a@ == PLACEHOLDER_DEPLOYMENT@,
{
    if chain_id == ARBITRUM_ONE || chain_id == ARBITRUM_SEPOLIA {
        Some(PLACEHOLDER_DEPLOYMENT)
    } else {
        None
    }
}

/// What the user asked to do with the `AgentDeposit` contract.
#[derive(Clone, Copy, Debug, PartialEq, Eq, Structural)]
pub enum Action {
    /// Read `balanceOf(agent)`: USDC on deposit.
    Balance,
    /// Prepare unsigned calldata for `deposit(amount)`.
    Deposit,
    /// Prepare unsigned calldata for `withdraw(amount)`.
    Withdraw,
    /// Read `isRegistered(agent)`.
    Registered,
}

/// `c` with an ASCII capital letter turned into its small letter.
pub open spec fn ascii_lower_char(c: char) -> char {
    if 'A' <= c <= 'Z' {
        ((c as u32) + 32) as char
    } else {
        c
    }
}

/// `str::to_ascii_lowercase` on the characters of a string.
pub open spec fn ascii_lower(s: Seq<char>) -> Seq<char> {
    s.map_values(|c: char| ascii_lower_char(c))
}

/// The action named by `s`, compared without regard to ASCII case.
pub open spec fn spec_parse_action(s: Seq<char>) -> Option<Action> {
    let l = ascii_lower(s);
    if l == "balance"@ {
        Some(Action::Balance)
    } else if l == "deposit"@ {
        Some(Action::Deposit)
    } else if l == "withdraw"@ {
        Some(Action::Withdraw)
    } else if l == "registered"@ || l == "is-registered"@ {
        Some(Action::Registered)
    } else {
        None
    }
}

fn ascii_lowercase(s: &str) -> (r: String)
    ensures
        r@ == ascii_lower(s@),
{
    let n = s.unicode_len();
    let mut out = String::new();
    let mut i: usize = 0;
    while i < n
        invariant
            i <= n,
            n == s@.len(),
            out@ == ascii_lower(s@.take(i as int)),
        decreases n - i,
    {
        let c = s.get_char(i);
        let lc = if 'A' <= c && c <= 'Z' {
            ((c as u8) + 32) as char
        } else {
            c
        };
        assert(lc == ascii_lower_char(c));
        push_char(&mut out, lc);
        assert(ascii_lower(s@.take(i + 1)) =~= ascii_lower(s@.take(i as int)).push(ascii_lower_char(c)));
        i = i + 1;
    }
    assert(s@.take(n as int) =~= s@);
    out
}

impl Action {
    /// Parses an action name without regard to ASCII case; `is-registered`
    /// is another name of `registered`.
    pub fn parse(s: &str) -> (r: Result<Action, AgentDepositError>)
        ensures
            match r {
                Ok(a) => spec_parse_action(s@) == Some(a),
                Err(e) => spec_parse_action(s@) is None && (e matches AgentDepositError::UnknownAction(l) && l@ == ascii_lower(s@)),
            },
    {
        let l = ascii_lowercase(s);
        if l == String::from_str("balance") {
            Ok(Action::Balance)
        } else if l == String::from_str("deposit") {
            Ok(Action::Deposit)
        } else if l == String::from_str("withdraw") {
            Ok(Action::Withdraw)
        } else if l == String::from_str("registered") || l == String::from_str("is-registered") {
            Ok(Action::Registered)
        } else {
            Err(AgentDepositError::UnknownAction(l))
        }
    }
}


/// What `hex::decode` reports on bytes it cannot decode.
#[derive(Clone, Copy, Debug, PartialEq, Eq, Structural)]
pub enum HexError {
    /// The byte at `index` (shown as the character `c`) is not a hexadecimal digit.
    InvalidHexCharacter { c: char, index: usize },
    /// An odd number of digits.
    OddLength,
    /// The digits do not fill the fixed-size output.
    InvalidStringLength,
}

/// `k` is the position of the first byte of `s` that is not a hexadecimal digit.
pub open spec fn is_first_non_hex(s: Seq<u8>, k: int) -> bool {
    &&& 0 <= k < s.len()
    &&& digit_value(s[k], 16) is None
    &&& forall|j: int| 0 <= j < k ==> (#[trigger] digit_value(s[j], 16)) is Some
}

/// The position of the first byte of `s` that is not a hexadecimal digit.
pub open spec fn first_non_hex(s: Seq<u8>) -> int {
    choose|k: int| is_first_non_hex(s, k)
}

/// The error `hex::decode` gives on bytes of even length that are not all
/// hexadecimal digits.
pub open spec fn invalid_hex_at_first(s: Seq<u8>) -> HexError {
    HexError::InvalidHexCharacter {
        c: s[first_non_hex(s)] as char,
        index: first_non_hex(s) as usize,
    }
}

/// The bytes that a string of hexadecimal digits stands for, two digits each.
pub open spec fn hex_decoded(s: Seq<u8>) -> Seq<u8> {
    Seq::new(
        s.len() / 2,
        |i: int|
            (digit_value(s[2 * i], 16).unwrap() * 16 + digit_value(s[2 * i + 1], 16).unwrap()) as u8,
    )
}

/// `hex::decode` (hex 0.4) on a byte slice. Trusted: an odd length is
/// `OddLength`; otherwise the first byte that is not `0-9`, `a-f` or `A-F`
/// is `InvalidHexCharacter` with that byte as a character and its index;
/// otherwise every pair of digits becomes one byte, high digit first.
#[verifier::external_body]
fn hex_decode(data: &[u8]) -> (r: Result<Vec<u8>, HexError>)
    ensures
        match r {
            Ok(v) => data@.len() % 2 == 0 && all_digits(data@, 16) && v@ == hex_decoded(data@),
            Err(HexError::OddLength) => data@.len() % 2 == 1,
            Err(HexError::InvalidHexCharacter { c, index }) => {
                &&& data@.len() % 2 == 0
                &&& is_first_non_hex(data@, index as int)
                &&& c == data@[index as int] as char
            },
            Err(HexError::InvalidStringLength) => false,
        },
{
    match hex::decode(data) {
        Ok(v) => Ok(v),
        Err(hex::FromHexError::InvalidHexCharacter { c, index }) => Err(
            HexError::InvalidHexCharacter { c, index },
        ),
        Err(hex::FromHexError::OddLength) => Err(HexError::OddLength),
        Err(hex::FromHexError::InvalidStringLength) => Err(HexError::InvalidStringLength),
    }
}

proof fn lemma_first_non_hex(s: Seq<u8>, k: int)
    requires
        is_first_non_hex(s, k),
    ensures
        first_non_hex(s) == k,
        !all_digits(s, 16),
{
    let j = first_non_hex(s);
    assert(is_first_non_hex(s, j));
    if j < k {
        assert(digit_value(s[j], 16) is Some);
    } else if k < j {
        assert(digit_value(s[k], 16) is Some);
    }
    assert(digit_value(s[k], 16) is None);
}

/// Validates bytes with `hex::decode`, saying which error it gives.
pub(crate) fn check_hex(s: &[u8]) -> (r: Result<(), HexError>)
    requires
        s@.len() % 2 == 0,
    ensures
        r is Ok <==> all_digits(s@, 16),
        r matches Err(e) ==> e == invalid_hex_at_first(s@),
{
    match hex_decode(s) {
        Ok(_) => Ok(()),
        Err(e) => {
            proof {
                if let HexError::InvalidHexCharacter { c, index } = e {
                    lemma_first_non_hex(s@, index as int);
                }
            }
            Err(e)
        },
    }
}

/// Why calldata could not be encoded.
#[derive(Clone, Copy, Debug, PartialEq, Eq, Structural)]
pub enum CallEncodingError {
    /// The address is not 40 bytes long (its length is given).
    AddressLength(usize),
    /// The address is not hexadecimal.
    AddressNotHex(HexError),
    /// The selector is not 8 bytes long (its length is given).
    SelectorLength(usize),
    /// The selector is not hexadecimal.
    SelectorNotHex(HexError),
}

/// The `0x`-less bytes of a selector, or why they are not 4 hexadecimal bytes.
pub open spec fn spec_check_selector(selector: Seq<u8>) -> Result<Seq<u8>, CallEncodingError> {
    let sel = strip_0x(selector);
    if sel.len() != 8 {
        Err(CallEncodingError::SelectorLength(sel.len() as usize))
    } else if !all_digits(sel, 16) {
        Err(CallEncodingError::SelectorNotHex(invalid_hex_at_first(sel)))
    } else {
        Ok(sel)
    }
}

/// Each byte read as the character of the same code.
pub open spec fn bytes_as_chars(b: Seq<u8>) -> Seq<char> {
    b.map_values(|x: u8| x as char)
}

/// A byte with an ASCII capital letter turned into its small letter.
pub open spec fn ascii_lower_byte(b: u8) -> u8 {
    if 0x41 <= b <= 0x5a {
        (b + 32) as u8
    } else {
        b
    }
}

/// `n` copies of the character `0`.
pub open spec fn zeros(n: nat) -> Seq<char> {
    Seq::new(n, |_i: int| '0')
}

/// The calldata of `selector(address)`: `0x`, the selector as given, then
/// the address in lowercase, left-padded with zeros to one 32-byte word.
/// Leading `0x` of either input are ignored; the address must be 40
/// hexadecimal digits and the selector 8, checked in that order.
pub open spec fn spec_encode_address_call(selector: Seq<u8>, address: Seq<u8>) -> Result<Seq<char>, CallEncodingError> {
    let addr = strip_0x(address);
    if addr.len() != 40 {
        Err(CallEncodingError::AddressLength(addr.len() as usize))
    } else if !all_digits(addr, 16) {
        Err(CallEncodingError::AddressNotHex(invalid_hex_at_first(addr)))
    } else {
        match spec_check_selector(selector) {
            Err(e) => Err(e),
            Ok(sel) => Ok(
                seq!['0', 'x'] + bytes_as_chars(sel) + zeros(24) + bytes_as_chars(
                    addr.map_values(|b: u8| ascii_lower_byte(b)),
                ),
            ),
        }
    }
}

/// The calldata of `selector(uint256)`: `0x`, the selector as given, then
/// the amount as 64 lowercase hexadecimal digits.
pub open spec fn spec_encode_uint256_call(selector: Seq<u8>, amount: u128) -> Result<Seq<char>, CallEncodingError> {
    match spec_check_selector(selector) {
        Err(e) => Err(e),
        Ok(sel) => Ok(seq!['0', 'x'] + bytes_as_chars(sel) + fixed_hex(amount as nat, 64)),
    }
}

fn check_selector(selector: &str) -> (r: Result<&[u8], CallEncodingError>)
    ensures
        match r {
            Ok(sel) => spec_check_selector(selector.spec_bytes()) == Ok::<Seq<u8>, CallEncodingError>(sel@),
            Err(e) => spec_check_selector(selector.spec_bytes()) == Err::<Seq<u8>, CallEncodingError>(e),
        },
{
    let sel = strip_0x_bytes(selector.as_bytes());
    if sel.len() != 8 {
        return Err(CallEncodingError::SelectorLength(sel.len()));
    }
    match check_hex(sel) {
        Ok(()) => Ok(sel),
        Err(e) => Err(CallEncodingError::SelectorNotHex(e)),
    }
}

fn push_bytes_as_chars(out: &mut String, b: &[u8])
    ensures
        final(out)@ == old(out)@ + bytes_as_chars(b@),
{
    let n = b.len();
    let mut i: usize = 0;
    while i < n
        invariant
            i <= n,
            n == b@.len(),
            out@ == old(out)@ + bytes_as_chars(b@.take(i as int)),
        decreases n - i,
    {
        push_char(out, b[i] as char);
        assert(bytes_as_chars(b@.take(i + 1)) =~= bytes_as_chars(b@.take(i as int)).push(b@[i as int] as char));
        i = i + 1;
    }
    assert(b@.take(n as int) =~= b@);
}

fn push_lowercase_bytes(out: &mut String, b: &[u8])
    ensures
        final(out)@ == old(out)@ + bytes_as_chars(b@.map_values(|x: u8| ascii_lower_byte(x))),
{
    let n = b.len();
    let mut i: usize = 0;
    while i < n
        invariant
            i <= n,
            n == b@.len(),
            out@ == old(out)@ + bytes_as_chars(b@.take(i as int).map_values(|x: u8| ascii_lower_byte(x))),
        decreases n - i,
    {
        let x = b[i];
        let lx = if 0x41 <= x && x <= 0x5a {
            x + 32
        } else {
            x
        };
        push_char(out, lx as char);
        assert(bytes_as_chars(b@.take(i + 1).map_values(|x: u8| ascii_lower_byte(x))) =~= bytes_as_chars(
            b@.take(i as int).map_values(|x: u8| ascii_lower_byte(x)),
        ).push(lx as char));
        i = i + 1;
    }
    assert(b@.take(n as int) =~= b@);
}

fn push_zeros(out: &mut String, n: usize)
    ensures
        final(out)@ == old(out)@ + zeros(n as nat),
{
    let mut i: usize = 0;
    while i < n
        invariant
            i <= n,
            out@ == old(out)@ + zeros(i as nat),
        decreases n - i,
    {
        push_char(out, '0');
        assert(zeros((i + 1) as nat) =~= zeros(i as nat).push('0'));
        i = i + 1;
    }
}

/// Encodes `selector(address)` calldata: one 32-byte word holding the
/// address, left-padded with zeros. Accepts `0x…` and bare hex, and checks
/// both lengths and that both are hexadecimal.
pub fn encode_address_call(selector: &str, address: &str) -> (r: Result<String, CallEncodingError>)
    ensures
        match r {
            Ok(s) => spec_encode_address_call(selector.spec_bytes(), address.spec_bytes()) == Ok::<Seq<char>, CallEncodingError>(s@),
            Err(e) => spec_encode_address_call(selector.spec_bytes(), address.spec_bytes()) == Err::<Seq<char>, CallEncodingError>(e),
        },
{
    let addr = strip_0x_bytes(address.as_bytes());
    if addr.len() != 40 {
        return Err(CallEncodingError::AddressLength(addr.len()));
    }
    match check_hex(addr) {
        Ok(()) => {},
        Err(e) => {
            return Err(CallEncodingError::AddressNotHex(e));
        },
    }
    let sel = match check_selector(selector) {
        Ok(sel) => sel,
        Err(e) => {
            return Err(e);
        },
    };
    let mut out = String::new();
    push_char(&mut out, '0');
    push_char(&mut out, 'x');
    push_bytes_as_chars(&mut out, sel);
    push_zeros(&mut out, 24);
    push_lowercase_bytes(&mut out, addr);
    assert(out@ =~= seq!['0', 'x'] + bytes_as_chars(sel@) + zeros(24) + bytes_as_chars(
        addr@.map_values(|b: u8| ascii_lower_byte(b)),
    ));
    Ok(out)
}

/// Encodes `selector(uint256)` calldata. The amount is a raw on-chain
/// integer (USDC has 6 decimals, so $1.00 is `1_000_000`): no scaling happens.
pub fn encode_uint256_call(selector: &str, amount: u128) -> (r: Result<String, CallEncodingError>)
    ensures
        match r {
            Ok(s) => spec_encode_uint256_call(selector.spec_bytes(), amount) == Ok::<Seq<char>, CallEncodingError>(s@),
            Err(e) => spec_encode_uint256_call(selector.spec_bytes(), amount) == Err::<Seq<char>, CallEncodingError>(e),
        },
{
    let sel = match check_selector(selector) {
        Ok(sel) => sel,
        Err(e) => {
            return Err(e);
        },
    };
    let mut out = String::new();
    push_char(&mut out, '0');
    push_char(&mut out, 'x');
    push_bytes_as_chars(&mut out, sel);
    push_fixed_hex(&mut out, amount, 64);
    assert(out@ =~= seq!['0', 'x'] + bytes_as_chars(sel@) + fixed_hex(amount as nat, 64));
    Ok(out)
}

/// A 32-byte word read as an unsigned integer: leading `0x` removed, nothing
/// left is zero, otherwise hexadecimal digits that must fit in a `u128`.
pub open spec fn spec_decode_uint_result(word: Seq<u8>) -> Result<u128, IntErrorKind> {
    let d = strip_0x(word);
    if d.len() == 0 {
        Ok(0)
    } else {
        match spec_parse_uint(d, 16, u128::MAX as nat) {
            Ok(v) => Ok(v as u128),
            Err(k) => Err(k),
        }
    }
}

/// Decodes a 32-byte hex word as a `u128` (USDC amounts up to about 3.4e20 raw).
pub fn decode_uint_result(hex_word: &str) -> (r: Result<u128, AgentDepositError>)
    ensures
        r == match spec_decode_uint_result(hex_word.spec_bytes()) {
            Ok(v) => Ok::<u128, AgentDepositError>(v),
            Err(k) => Err::<u128, AgentDepositError>(AgentDepositError::InvalidHexUint(k)),
        },
{
    let d = strip_0x_bytes(hex_word.as_bytes());
    if d.len() == 0 {
        return Ok(0);
    }
    match parse_uint(d, 16, u128::MAX) {
        Ok(v) => Ok(v),
        Err(k) => Err(AgentDepositError::InvalidHexUint(k)),
    }
}

/// Why an `AgentDeposit` request failed.
#[derive(Clone, Debug, PartialEq, Eq)]
pub enum AgentDepositError {
    /// The action name (lowercased) is not one of the known actions.
    UnknownAction(String),
    /// Calldata could not be encoded.
    Encoding(CallEncodingError),
    /// A returned word is not a hexadecimal `u128`.
    InvalidHexUint(IntErrorKind),
    /// `eth_chainId` returned something other than a string.
    ChainIdNotString,
    /// The chain id returned is not a hexadecimal `u64`.
    Rpc(crate::rpc::RpcValueError),
    /// No deployment is registered for this chain id and none was given.
    NoDeployment(u64),
    /// A deposit or a withdrawal was asked for without an amount.
    AmountRequired,
}


/// What `format!("{c:?}")` gives for a character: std's `Debug` form, the
/// character quoted and escaped.
pub uninterp spec fn char_debug_text(c: char) -> Seq<char>;

/// `format!("{c:?}")` for a character (std's `impl Debug for char`).
#[verifier::external_body]
fn char_debug(c: char) -> (r: String)
    ensures
        r@ == char_debug_text(c),
{
    format!("{c:?}")
}

/// The text of a `HexError`, as `hex::FromHexError` displays it.
pub open spec fn hex_error_text(e: HexError) -> Seq<char> {
    match e {
        HexError::InvalidHexCharacter { c, index } => "Invalid character "@ + char_debug_text(c)
            + " at position "@ + decimal(index as nat),
        HexError::OddLength => "Odd number of digits"@,
        HexError::InvalidStringLength => "Invalid string length"@,
    }
}

impl HexError {
    /// The error as a line of text.
    pub fn message(&self) -> (r: String)
        ensures
            r@ == hex_error_text(*self),
    {
        match self {
            HexError::InvalidHexCharacter { c, index } => {
                let mut s = String::from_str("Invalid character ");
                let d = char_debug(*c);
                s.append(d.as_str());
                s.append(" at position ");
                push_decimal(&mut s, *index as u128);
                s
            },
            HexError::OddLength => String::from_str("Odd number of digits"),
            HexError::InvalidStringLength => String::from_str("Invalid string length"),
        }
    }
}

/// The text of a `CallEncodingError`.
pub open spec fn call_encoding_error_text(e: CallEncodingError) -> Seq<char> {
    match e {
        CallEncodingError::AddressLength(n) => "address must be 20 bytes (40 hex chars); got "@
            + decimal(n as nat) + " chars"@,
        CallEncodingError::AddressNotHex(h) => "address is not valid hex: "@ + hex_error_text(h),
        CallEncodingError::SelectorLength(n) => "selector must be 4 bytes (8 hex chars); got "@
            + decimal(n as nat),
        CallEncodingError::SelectorNotHex(h) => "selector is not valid hex: "@ + hex_error_text(h),
    }
}

impl CallEncodingError {
    /// The error as a line of text.
    pub fn message(&self) -> (r: String)
        ensures
            r@ == call_encoding_error_text(*self),
    {
        match self {
            CallEncodingError::AddressLength(n) => {
                let mut s = String::from_str("address must be 20 bytes (40 hex chars); got ");
                push_decimal(&mut s, *n as u128);
                s.append(" chars");
                s
            },
            CallEncodingError::AddressNotHex(h) => {
                let mut s = String::from_str("address is not valid hex: ");
                let m = h.message();
                s.append(m.as_str());
                s
            },
            CallEncodingError::SelectorLength(n) => {
                let mut s = String::from_str("selector must be 4 bytes (8 hex chars); got ");
                push_decimal(&mut s, *n as u128);
                s
            },
            CallEncodingError::SelectorNotHex(h) => {
                let mut s = String::from_str("selector is not valid hex: ");
                let m = h.message();
                s.append(m.as_str());
                s
            },
        }
    }
}

/// The text of an `AgentDepositError`.
pub open spec fn agent_deposit_error_text(e: AgentDepositError) -> Seq<char> {
    match e {
        AgentDepositError::UnknownAction(a) => "unknown agent-deposit action '"@ + a@
            + "'. Try: balance | deposit | withdraw | registered"@,
        AgentDepositError::Encoding(c) => call_encoding_error_text(c),
        AgentDepositError::InvalidHexUint(k) => "invalid hex uint: "@ + int_error_text(k),
        AgentDepositError::ChainIdNotString => "eth_chainId returned non-string"@,
        AgentDepositError::Rpc(r) => crate::rpc::rpc_value_error_text(r),
        AgentDepositError::NoDeployment(id) => "No AgentDeposit deployment registered for chain id "@
            + decimal(id as nat) + ". Pass --contract <address> or use an Arbitrum RPC."@,
        AgentDepositError::AmountRequired => "--amount is required for deposit/withdraw (raw units; USDC = 6 decimals)"@,
    }
}

impl AgentDepositError {
    /// The error as a line of text.
    pub fn message(&self) -> (r: String)
        ensures
            r@ == agent_deposit_error_text(*self),
    {
        match self {
            AgentDepositError::UnknownAction(a) => {
                let mut s = String::from_str("unknown agent-deposit action '");
                s.append(a.as_str());
                s.append("'. Try: balance | deposit | withdraw | registered");
                s
            },
            AgentDepositError::Encoding(c) => c.message(),
            AgentDepositError::InvalidHexUint(k) => {
                let mut s = String::from_str("invalid hex uint: ");
                s.append(k.message());
                s
            },
            AgentDepositError::ChainIdNotString => String::from_str("eth_chainId returned non-string"),
            AgentDepositError::Rpc(r) => r.message(),
            AgentDepositError::NoDeployment(id) => {
                let mut s = String::from_str("No AgentDeposit deployment registered for chain id ");
                push_decimal(&mut s, *id as u128);
                s.append(". Pass --contract <address> or use an Arbitrum RPC.");
                s
            },
            AgentDepositError::AmountRequired => String::from_str(
                "--amount is required for deposit/withdraw (raw units; USDC = 6 decimals)",
            ),
        }
    }
}

/// The chain id in an `eth_chainId` reply: the reply must be a string
/// (`None` stands for any other JSON value) holding a hex `u64`.
pub open spec fn spec_chain_id_from_reply(reply: Option<&str>) -> Result<u64, AgentDepositError> {
    match reply {
        None => Err(AgentDepositError::ChainIdNotString),
        Some(h) => match crate::rpc::spec_hex_to_u64(h.spec_bytes()) {
            Ok(v) => Ok(v),
            Err(e) => Err(AgentDepositError::Rpc(e)),
        },
    }
}

/// Reads the chain id in an `eth_chainId` reply.
pub fn chain_id_from_reply(reply: Option<&str>) -> (r: Result<u64, AgentDepositError>)
    ensures
        r == spec_chain_id_from_reply(reply),
{
    match reply {
        None => Err(AgentDepositError::ChainIdNotString),
        Some(h) => match crate::rpc::hex_to_u64(h) {
            Ok(v) => Ok(v),
            Err(e) => Err(AgentDepositError::Rpc(e)),
        },
    }
}

/// The raw USDC balance in a `balanceOf` reply; a reply that is not a string
/// (`None`) counts as `0x0`.
pub open spec fn spec_balance_from_reply(reply: Option<&str>) -> Result<u128, AgentDepositError> {
    match reply {
        None => Ok(0),
        Some(h) => match spec_decode_uint_result(h.spec_bytes()) {
            Ok(v) => Ok(v),
            Err(k) => Err(AgentDepositError::InvalidHexUint(k)),
        },
    }
}

/// Reads the raw USDC balance in a `balanceOf` reply.
pub fn balance_from_reply(reply: Option<&str>) -> (r: Result<u128, AgentDepositError>)
    ensures
        r == spec_balance_from_reply(reply),
{
    match reply {
        None => Ok(0),
        Some(h) => decode_uint_result(h),
    }
}

/// The digits of a returned word: leading `0x` removed, then one leading `+`
/// when more follows (as Rust's integer parser reads an unsigned number).
pub open spec fn word_digits(w: Seq<u8>) -> Seq<u8> {
    let d = strip_0x(w);
    if d.len() > 1 && d[0] == ASCII_PLUS {
        d.drop_first()
    } else {
        d
    }
}

/// The word `w` is hexadecimal digits (see `word_digits`), at least one of
/// them non-zero: a non-zero return value.
pub open spec fn is_nonzero_word(w: Seq<u8>) -> bool {
    let d = word_digits(w);
    &&& all_digits(d, 16)
    &&& exists|i: int| 0 <= i < d.len() && #[trigger] digit_value(d[i], 16) != Some(0nat)
}

/// Whether an `isRegistered` reply says the agent is registered: the reply
/// is a string (`None` stands for any other JSON value) of hexadecimal
/// digits (after `0x`, and one `+` as an unsigned number may carry), at
/// least one of them non-zero. The word is not read as a number,
/// so a non-zero word of any width counts.
pub fn registered_from_reply(reply: Option<&str>) -> (r: bool)
    ensures
        r == match reply {
            None => false,
            Some(h) => is_nonzero_word(h.spec_bytes()),
        },
{
    match reply {
        None => false,
        Some(h) => {
            let stripped = strip_0x_bytes(h.as_bytes());
            let d = if stripped.len() > 1 && stripped[0] == ASCII_PLUS {
                let (_, rest) = stripped.split_at(1);
                assert(rest@ =~= stripped@.drop_first());
                rest
            } else {
                stripped
            };
            let n = d.len();
            let mut nonzero = false;
            let mut i: usize = 0;
            while i < n
                invariant
                    i <= n,
                    n == d@.len(),
                    reply == Some(h),
                    d@ == word_digits(h.spec_bytes()),
                    forall|j: int| 0 <= j < i ==> (#[trigger] digit_value(d@[j], 16)) is Some,
                    nonzero == exists|j: int| 0 <= j < i && #[trigger] digit_value(d@[j], 16) != Some(0nat),
                decreases n - i,
            {
                let b = d[i];
                let is_zero = b == ASCII_0;
                let is_digit = (ASCII_0 <= b && b <= ASCII_9) || (ASCII_LOWER_A <= b && b <= 0x66)
                    || (ASCII_UPPER_A <= b && b <= 0x46);
                if !is_digit {
                    assert(digit_value(d@[i as int], 16) is None);
                    assert(!all_digits(d@, 16));
                    return false;
                }
                if !is_zero {
                    nonzero = true;
                }
                assert(digit_value(d@[i as int], 16) is Some);
                assert(is_zero <==> digit_value(d@[i as int], 16) == Some(0nat));
                i = i + 1;
            }
            nonzero
        },
    }
}

/// Decimals of USDC, in which `AgentDeposit` settles.
pub const USDC_DECIMALS: u32 = 6;

/// The response of the `agent-deposit` balance action. Scaling to USDC
/// (`balance_units / 10^decimals`) is a floating-point step left to the
/// presentation; the raw value is the source of truth.
#[derive(Clone, Debug, PartialEq, Eq)]
pub struct BalanceResponse {
    pub agent: String,
    pub contract: String,
    pub chain_id: u64,
    /// Always `balance`.
    pub action: String,
    /// The raw balance in decimal.
    pub balance_raw: String,
    /// The raw balance.
    pub balance_units: u128,
    /// Decimals of the token (USDC: 6).
    pub decimals: u32,
}

/// Builds the response of the balance action.
pub fn format_balance_response(agent: &str, contract: &str, chain_id: u64, balance_raw: u128) -> (r: BalanceResponse)
    ensures
        r.agent@ == agent@,
        r.contract@ == contract@,
        r.chain_id == chain_id,
        r.action@ == "balance"@,
        r.balance_raw@ == decimal(balance_raw as nat),
        r.balance_units == balance_raw,
        r.decimals == USDC_DECIMALS,
{
    BalanceResponse {
        agent: agent.to_owned(),
        contract: contract.to_owned(),
        chain_id,
        action: String::from_str("balance"),
        balance_raw: decimal_string(balance_raw),
        balance_units: balance_raw,
        decimals: USDC_DECIMALS,
    }
}

/// The response of the registered action.
#[derive(Clone, Debug, PartialEq, Eq)]
pub struct RegisteredResponse {
    pub agent: String,
    pub contract: String,
    pub chain_id: u64,
    /// Always `registered`.
    pub action: String,
    pub registered: bool,
}

/// Builds the response of the registered action.
pub fn format_registered_response(agent: &str, contract: &str, chain_id: u64, registered: bool) -> (r: RegisteredResponse)
    ensures
        r.agent@ == agent@,
        r.contract@ == contract@,
        r.chain_id == chain_id,
        r.action@ == "registered"@,
        r.registered == registered,
{
    RegisteredResponse {
        agent: agent.to_owned(),
        contract: contract.to_owned(),
        chain_id,
        action: String::from_str("registered"),
        registered,
    }
}

/// An unsigned transaction: sent from the agent to the contract, carrying
/// no ether.
#[derive(Clone, Debug, PartialEq, Eq)]
pub struct UnsignedTx {
    pub to: String,
    pub from: String,
    pub data: String,
    /// Always `0x0`.
    pub value: String,
}

/// The response of a write action (deposit or withdraw).
#[derive(Clone, Debug, PartialEq, Eq)]
pub struct UnsignedTxResponse {
    pub agent: String,
    pub contract: String,
    pub chain_id: u64,
    pub action: String,
    /// The raw amount in decimal.
    pub amount_raw: String,
    pub tx: UnsignedTx,
    pub note: String,
}

/// The note that goes with every unsigned transaction.
pub const UNSIGNED_TX_NOTE: &'static str = "Unsigned tx. Sign with your agent key (e.g., via kcolbchain switchboard) and broadcast via eth_sendRawTransaction.";

/// Builds the response of an unsigned write (deposit or withdraw).
pub fn format_unsigned_tx(action: &str, agent: &str, contract: &str, chain_id: u64, amount_raw: u128, data: &str) -> (r: UnsignedTxResponse)
    ensures
        r.agent@ == agent@,
        r.contract@ == contract@,
        r.chain_id == chain_id,
        r.action@ == action@,
        r.amount_raw@ == decimal(amount_raw as nat),
        r.tx.to@ == contract@,
        r.tx.from@ == agent@,
        r.tx.data@ == data@,
        r.tx.value@ == "0x0"@,
        r.note@ == UNSIGNED_TX_NOTE@,
{
    UnsignedTxResponse {
        agent: agent.to_owned(),
        contract: contract.to_owned(),
        chain_id,
        action: action.to_owned(),
        amount_raw: decimal_string(amount_raw),
        tx: UnsignedTx {
            to: contract.to_owned(),
            from: agent.to_owned(),
            data: data.to_owned(),
            value: String::from_str("0x0"),
        },
        note: String::from_str(UNSIGNED_TX_NOTE),
    }
}

} // verus!
