//! The decisions the commands make between their RPC round trips: which
//! chains are supported, what block parameter and calldata to send, how to
//! read the replies, when a polled block is new, and how an `agent-deposit`
//! request is resolved into a read or an unsigned transaction.

use vstd::prelude::*;
use vstd::string::{StrSliceExecFns, StringExecFns, StringSliceAdditionalSpecFns};
use crate::agent_deposit::{
    agent_deposit_address, encode_address_call, encode_uint256_call, format_unsigned_tx, selectors,
    spec_encode_address_call, spec_encode_uint256_call, Action, AgentDepositError, UnsignedTxResponse,
    ARBITRUM_ONE, ARBITRUM_SEPOLIA, PLACEHOLDER_DEPLOYMENT, UNSIGNED_TX_NOTE, zeros,
};
use crate::numeral::{decimal, minimal_hex, parse_uint, push_char, push_minimal_hex, spec_parse_uint};
use crate::agent_deposit::{
    ascii_lower, balance_from_reply, chain_id_from_reply, check_hex, format_balance_response,
    format_registered_response, is_nonzero_word, registered_from_reply, spec_balance_from_reply,
    spec_chain_id_from_reply, spec_parse_action, BalanceResponse, RegisteredResponse, USDC_DECIMALS,
};
use crate::rpc::{eth_call_request, is_eth_call};
use vstd::utf8::encode_utf8;
use crate::numeral::{all_digits, strip_0x, strip_0x_bytes};
use crate::rpc::{
    bare_request, hex_to_u64, is_bare_request, json_parse, parse_json, spec_hex_to_u64,
    spec_wei_hex_to_wei, wei_hex_to_wei, RpcParam, RpcRequest,
};

verus! {

/// Whether two strings hold the same characters.
fn same_text(a: &str, b: &str) -> (r: bool)
    ensures
        r == (a@ == b@),
{
    a.to_owned() == b.to_owned()
}

/// Why a command was refused.
#[derive(Clone, Debug, PartialEq, Eq)]
pub enum CommandError {
    /// The block is neither a tag nor a decimal `u64`.
    InvalidBlockNumber,
    /// The watch target is neither `blocks`, `pending` nor an address (the
    /// target given is kept).
    UnsupportedWatchTarget(String),
    /// The params of `exec` are not JSON (the parser's message is kept).
    InvalidParamsJson(String),
    /// The node knows no transaction with this hash.
    TransactionNotFound(String),
}

/// The text of a `CommandError`.
pub open spec fn command_error_text(e: CommandError) -> Seq<char> {
    match e {
        CommandError::InvalidBlockNumber => "invalid block number"@,
        CommandError::UnsupportedWatchTarget(t) => "Unsupported watch target: "@ + t@
            + ". Use 'blocks', 'pending' or an address."@,
        CommandError::InvalidParamsJson(m) => "Invalid params JSON: "@ + m@,
        CommandError::TransactionNotFound(h) => "Transaction not found: "@ + h@,
    }
}

impl CommandError {
    /// The error as a line of text.
    pub fn message(&self) -> (r: String)
        ensures
            r@ == command_error_text(*self),
    {
        match self {
            CommandError::InvalidBlockNumber => String::from_str("invalid block number"),
            CommandError::UnsupportedWatchTarget(t) => {
                let mut s = String::from_str("Unsupported watch target: ");
                s.append(t.as_str());
                s.append(". Use 'blocks', 'pending' or an address.");
                s
            },
            CommandError::InvalidParamsJson(m) => {
                let mut s = String::from_str("Invalid params JSON: ");
                s.append(m.as_str());
                s
            },
            CommandError::TransactionNotFound(h) => {
                let mut s = String::from_str("Transaction not found: ");
                s.append(h.as_str());
                s
            },
        }
    }
}

// ── exec ──

/// The params of `exec`: the text parsed as JSON (passed on to the node
/// unchanged), or why it is not JSON.
pub fn exec_params(params: &str) -> (r: Result<serde_json::Value, CommandError>)
    ensures
        match r {
            Ok(v) => json_parse(params@) matches Ok(w) && w == v,
            Err(e) => json_parse(params@) matches Err(m) && command_error_text(e) == "Invalid params JSON: "@ + m,
        },
{
    match parse_json(params) {
        Ok(v) => Ok(v),
        Err(m) => Err(CommandError::InvalidParamsJson(m)),
    }
}

// ── tx ──

/// The `tx` command's check on the node's answer: a `null` result means the
/// transaction is not known.
pub fn check_transaction_found(hash: &str, result_is_null: bool) -> (r: Result<(), CommandError>)
    ensures
        r is Ok <==> !result_is_null,
        r matches Err(e) ==> (e matches CommandError::TransactionNotFound(h) && h@ == hash@),
{
    if result_is_null {
        Err(CommandError::TransactionNotFound(hash.to_owned()))
    } else {
        Ok(())
    }
}

// ── chains ──

/// Contracts known on a supported chain.
#[derive(Clone, Debug, PartialEq, Eq)]
pub struct ChainContracts {
    pub usdc: String,
    /// The `AgentDeposit` deployment, as `agent_deposit_address` resolves it.
    pub agent_deposit: Option<String>,
    pub uniswap_v3_quoter: Option<String>,
}

/// A supported chain.
#[derive(Clone, Debug, PartialEq, Eq)]
pub struct ChainInfo {
    pub chain_id: u64,
    pub name: String,
    pub rpc_default: String,
    pub explorer: String,
    pub contracts: ChainContracts,
}

/// The view of an optional string.
pub open spec fn opt_view(o: Option<String>) -> Option<Seq<char>> {
    match o {
        Some(s) => Some(s@),
        None => None,
    }
}

/// The `AgentDeposit` deployment registered for a chain id.
pub open spec fn spec_agent_deposit_address(chain_id: u64) -> Option<Seq<char>> {
    if chain_id == ARBITRUM_ONE || chain_id == ARBITRUM_SEPOLIA {
        Some(PLACEHOLDER_DEPLOYMENT@)
    } else {
        None
    }
}

fn agent_deposit_string(chain_id: u64) -> (r: Option<String>)
    ensures
        opt_view(r) == spec_agent_deposit_address(chain_id),
{
    match agent_deposit_address(chain_id) {
        Some(a) => Some(a.to_owned()),
        None => None,
    }
}

/// The supported chains: Arbitrum One and Arbitrum Sepolia, with their
/// default RPC, explorer and known contracts. Each chain's `AgentDeposit`
/// entry is what `agent_deposit_address` resolves for its chain id.
pub fn chain_inventory() -> (r: Vec<ChainInfo>)
    ensures
        r.len() == 2,
        r[0].chain_id == ARBITRUM_ONE,
        r[0].name@ == "Arbitrum One"@,
        r[0].rpc_default@ == "https://arb1.arbitrum.io/rpc"@,
        r[0].explorer@ == "https://arbiscan.io"@,
        r[0].contracts.usdc@ == "0xaf88d065e77c8cC2239327C5EDb3A432268e5831"@,
        opt_view(r[0].contracts.uniswap_v3_quoter) == Some("0xb27308f9F90D607463bb33eA1BeBb41C27CE5AB6"@),
        r[1].chain_id == ARBITRUM_SEPOLIA,
        r[1].name@ == "Arbitrum Sepolia"@,
        r[1].rpc_default@ == "https://sepolia-rollup.arbitrum.io/rpc"@,
        r[1].explorer@ == "https://sepolia.arbiscan.io"@,
        r[1].contracts.usdc@ == "0x75faf114eafb1BDbe2F0316DF893fd58CE46AA4d"@,
        r[1].contracts.uniswap_v3_quoter is None,
        forall|i: int|
            0 <= i < r.len() ==> opt_view(#[trigger] r[i].contracts.agent_deposit)
                == spec_agent_deposit_address(r[i].chain_id),
{
    let one = ChainInfo {
        chain_id: ARBITRUM_ONE,
        name: String::from_str("Arbitrum One"),
        rpc_default: String::from_str("https://arb1.arbitrum.io/rpc"),
        explorer: String::from_str("https://arbiscan.io"),
        contracts: ChainContracts {
            usdc: String::from_str("0xaf88d065e77c8cC2239327C5EDb3A432268e5831"),
            agent_deposit: agent_deposit_string(ARBITRUM_ONE),
            uniswap_v3_quoter: Some(String::from_str("0xb27308f9F90D607463bb33eA1BeBb41C27CE5AB6")),
        },
    };
    let sepolia = ChainInfo {
        chain_id: ARBITRUM_SEPOLIA,
        name: String::from_str("Arbitrum Sepolia"),
        rpc_default: String::from_str("https://sepolia-rollup.arbitrum.io/rpc"),
        explorer: String::from_str("https://sepolia.arbiscan.io"),
        contracts: ChainContracts {
            usdc: String::from_str("0x75faf114eafb1BDbe2F0316DF893fd58CE46AA4d"),
            agent_deposit: agent_deposit_string(ARBITRUM_SEPOLIA),
            uniswap_v3_quoter: None,
        },
    };
    let mut v = Vec::new();
    v.push(one);
    v.push(sepolia);
    v
}

// ── info ──

/// How a line of the `info` report is shown.
#[derive(Clone, Copy, Debug, PartialEq, Eq, Structural)]
pub enum InfoStyle {
    /// The title, after a blank line and a check mark.
    Title,
    /// A horizontal rule.
    Rule,
    /// A labelled value: `label text`.
    Field,
    /// A section heading, after a blank line.
    Heading,
    /// Text as it is (already indented and padded).
    Plain,
    /// An empty line.
    Blank,
}

/// A line of the `info` report.
#[derive(Clone, Debug, PartialEq, Eq)]
pub struct InfoLine {
    pub style: InfoStyle,
    /// The label of a `Field` line; empty otherwise.
    pub label: String,
    pub text: String,
}

/// A subcommand as the `info` report lists it.
#[derive(Clone, Debug, PartialEq, Eq)]
pub struct SubcommandInfo {
    pub name: String,
    pub description: Option<String>,
}

/// What a line is made of: its style, label and text.
pub open spec fn line_view(l: InfoLine) -> (InfoStyle, Seq<char>, Seq<char>) {
    (l.style, l.label@, l.text@)
}

/// `n` spaces.
pub open spec fn spaces(n: nat) -> Seq<char> {
    Seq::new(n, |_i: int| ' ')
}

/// `s` left-aligned in `width` characters (`format!("{s:<width$}")`).
pub open spec fn pad_right(s: Seq<char>, width: nat) -> Seq<char> {
    if s.len() >= width {
        s
    } else {
        s + spaces((width - s.len()) as nat)
    }
}

/// An optional address, or `not configured`.
pub open spec fn or_not_configured(o: Option<String>) -> Seq<char> {
    match o {
        Some(a) => a@,
        None => "not configured"@,
    }
}

/// A plain line of the report.
pub open spec fn plain(text: Seq<char>) -> (InfoStyle, Seq<char>, Seq<char>) {
    (InfoStyle::Plain, Seq::empty(), text)
}

/// The rows of one chain: its table row (name, chain id and default RPC
/// padded to 18, 8 and 38 columns, then the explorer), then its USDC,
/// AgentDeposit and Uniswap V3 Quoter contracts.
pub open spec fn chain_info_lines(c: ChainInfo) -> Seq<(InfoStyle, Seq<char>, Seq<char>)> {
    seq![
        plain("  "@ + pad_right(c.name@, 18) + " "@ + pad_right(decimal(c.chain_id as nat), 8) + " "@
            + pad_right(c.rpc_default@, 38) + " "@ + c.explorer@),
        plain("    USDC: "@ + c.contracts.usdc@),
        plain("    AgentDeposit: "@ + or_not_configured(c.contracts.agent_deposit)),
        plain("    Uniswap V3 Quoter: "@ + or_not_configured(c.contracts.uniswap_v3_quoter)),
    ]
}

/// The rows of all chains, in order.
pub open spec fn chains_info_lines(chains: Seq<ChainInfo>) -> Seq<(InfoStyle, Seq<char>, Seq<char>)>
    decreases chains.len(),
{
    if chains.len() == 0 {
        Seq::empty()
    } else {
        chains_info_lines(chains.drop_last()) + chain_info_lines(chains.last())
    }
}

/// The row of one subcommand: its name padded to 16 columns, then its
/// description (empty when it has none).
pub open spec fn subcommand_info_line(c: SubcommandInfo) -> (InfoStyle, Seq<char>, Seq<char>) {
    plain("  "@ + pad_right(c.name@, 16) + " "@ + match c.description {
        Some(d) => d@,
        None => Seq::empty(),
    })
}

/// The rows of all subcommands, in order.
pub open spec fn subcommands_info_lines(subs: Seq<SubcommandInfo>) -> Seq<(InfoStyle, Seq<char>, Seq<char>)>
    decreases subs.len(),
{
    if subs.len() == 0 {
        Seq::empty()
    } else {
        subcommands_info_lines(subs.drop_last()).push(subcommand_info_line(subs.last()))
    }
}

/// The human `info` report: title, rule, version, the chains table and the
/// subcommands table, then a blank line.
pub open spec fn spec_info_lines(version: Seq<char>, chains: Seq<ChainInfo>, subs: Seq<SubcommandInfo>) -> Seq<(InfoStyle, Seq<char>, Seq<char>)> {
    seq![
        (InfoStyle::Title, Seq::empty(), "arbitrum-cli info"@),
        (InfoStyle::Rule, Seq::empty(), Seq::new(72, |_i: int| '─')),
        (InfoStyle::Field, "version:"@, version),
        (InfoStyle::Heading, Seq::empty(), "Chains"@),
        plain("  "@ + pad_right("Name"@, 18) + " "@ + pad_right("Chain"@, 8)
            + " RPC                                    Explorer"@),
    ] + chains_info_lines(chains) + seq![
        (InfoStyle::Heading, Seq::empty(), "Subcommands"@),
        plain("  Name             Description"@),
    ] + subcommands_info_lines(subs) + seq![(InfoStyle::Blank, Seq::empty(), Seq::empty())]
}

fn push_padded(s: &mut String, text: &str, width: usize)
    ensures
        final(s)@ == old(s)@ + pad_right(text@, width as nat),
{
    s.append(text);
    let n = text.unicode_len();
    if n < width {
        let mut i: usize = 0;
        while i < width - n
            invariant
                n < width,
                i <= width - n,
                s@ == old(s)@ + text@ + spaces(i as nat),
            decreases width - n - i,
        {
            push_char(s, ' ');
            assert(spaces((i + 1) as nat) =~= spaces(i as nat).push(' '));
            i = i + 1;
        }
    } else {
        assert(old(s)@ + text@ =~= old(s)@ + pad_right(text@, width as nat));
    }
}

fn info_line(style: InfoStyle, label: String, text: String) -> (r: InfoLine)
    ensures
        line_view(r) == (style, label@, text@),
{
    InfoLine { style, label, text }
}

fn plain_line(text: String) -> (r: InfoLine)
    ensures
        line_view(r) == plain(text@),
{
    InfoLine { style: InfoStyle::Plain, label: String::new(), text }
}

fn prefixed(prefix: &str, text: &str) -> (r: String)
    ensures
        r@ == prefix@ + text@,
{
    let mut s = String::from_str(prefix);
    s.append(text);
    s
}

fn address_or_not_configured(o: &Option<String>) -> (r: &str)
    ensures
        r@ == or_not_configured(*o),
{
    match o {
        Some(a) => a.as_str(),
        None => "not configured",
    }
}

fn push_info_line(out: &mut Vec<InfoLine>, line: InfoLine)
    ensures
        final(out)@ == old(out)@.push(line),
{
    out.push(line);
}

/// The human `info` report, line by line (colors are the printer's).
pub fn info_lines(version: &str, chains: &[ChainInfo], subcommands: &[SubcommandInfo]) -> (r: Vec<InfoLine>)
    ensures
        r@.map_values(|l: InfoLine| line_view(l)) == spec_info_lines(version@, chains@, subcommands@),
{
    let mut out: Vec<InfoLine> = Vec::new();
    out.push(info_line(InfoStyle::Title, String::new(), String::from_str("arbitrum-cli info")));
    let mut rule = String::new();
    let mut k: usize = 0;
    while k < 72
        invariant
            k <= 72,
            rule@ == Seq::new(k as nat, |_i: int| '─'),
        decreases 72 - k,
    {
        push_char(&mut rule, '─');
        assert(Seq::new((k + 1) as nat, |_i: int| '─') =~= Seq::new(k as nat, |_i: int| '─').push('─'));
        k = k + 1;
    }
    out.push(info_line(InfoStyle::Rule, String::new(), rule));
    out.push(info_line(InfoStyle::Field, String::from_str("version:"), version.to_owned()));
    out.push(info_line(InfoStyle::Heading, String::new(), String::from_str("Chains")));
    let mut header = String::from_str("  ");
    push_padded(&mut header, "Name", 18);
    header.append(" ");
    push_padded(&mut header, "Chain", 8);
    header.append(" RPC                                    Explorer");
    out.push(plain_line(header));
    let ghost head = out@.map_values(|l: InfoLine| line_view(l));
    assert(head =~= seq![
        (InfoStyle::Title, Seq::<char>::empty(), "arbitrum-cli info"@),
        (InfoStyle::Rule, Seq::<char>::empty(), Seq::new(72, |_i: int| '─')),
        (InfoStyle::Field, "version:"@, version@),
        (InfoStyle::Heading, Seq::<char>::empty(), "Chains"@),
        plain("  "@ + pad_right("Name"@, 18) + " "@ + pad_right("Chain"@, 8)
            + " RPC                                    Explorer"@),
    ]);
    let n = chains.len();
    let mut i: usize = 0;
    while i < n
        invariant
            i <= n,
            n == chains@.len(),
            out@.map_values(|l: InfoLine| line_view(l)) == head + chains_info_lines(chains@.take(i as int)),
        decreases n - i,
    {
        let c = &chains[i];
        let mut row = String::from_str("  ");
        push_padded(&mut row, c.name.as_str(), 18);
        row.append(" ");
        let mut id = String::new();
        crate::numeral::push_decimal(&mut id, c.chain_id as u128);
        assert(id@ =~= decimal(c.chain_id as nat));
        push_padded(&mut row, id.as_str(), 8);
        row.append(" ");
        push_padded(&mut row, c.rpc_default.as_str(), 38);
        row.append(" ");
        row.append(c.explorer.as_str());
        let ghost before = out@;
        push_info_line(&mut out, plain_line(row));
        push_info_line(&mut out, plain_line(prefixed("    USDC: ", c.contracts.usdc.as_str())));
        push_info_line(&mut out, plain_line(prefixed("    AgentDeposit: ", address_or_not_configured(&c.contracts.agent_deposit))));
        push_info_line(&mut out, plain_line(prefixed("    Uniswap V3 Quoter: ", address_or_not_configured(&c.contracts.uniswap_v3_quoter))));
        assert(chains@.take(i + 1).drop_last() =~= chains@.take(i as int));
        assert(chains@.take(i + 1).last() == chains@[i as int]);
        assert(out@.map_values(|l: InfoLine| line_view(l)) =~= before.map_values(|l: InfoLine| line_view(l))
            + chain_info_lines(chains@[i as int]));
        i = i + 1;
    }
    assert(chains@.take(n as int) =~= chains@);
    let ghost mid = out@.map_values(|l: InfoLine| line_view(l));
    push_info_line(&mut out, info_line(InfoStyle::Heading, String::new(), String::from_str("Subcommands")));
    push_info_line(&mut out, plain_line(String::from_str("  Name             Description")));
    let ghost mid2 = out@.map_values(|l: InfoLine| line_view(l));
    assert(mid2 =~= mid + seq![
        (InfoStyle::Heading, Seq::<char>::empty(), "Subcommands"@),
        plain("  Name             Description"@),
    ]);
    let m = subcommands.len();
    let mut j: usize = 0;
    while j < m
        invariant
            j <= m,
            m == subcommands@.len(),
            out@.map_values(|l: InfoLine| line_view(l)) == mid2 + subcommands_info_lines(subcommands@.take(j as int)),
        decreases m - j,
    {
        let c = &subcommands[j];
        let mut row = String::from_str("  ");
        push_padded(&mut row, c.name.as_str(), 16);
        row.append(" ");
        match &c.description {
            Some(d) => row.append(d.as_str()),
            None => {},
        }
        assert(row@ =~= subcommand_info_line(*c).2);
        let ghost before = out@;
        push_info_line(&mut out, plain_line(row));
        assert(subcommands@.take(j + 1).drop_last() =~= subcommands@.take(j as int));
        assert(subcommands@.take(j + 1).last() == subcommands@[j as int]);
        assert(out@.map_values(|l: InfoLine| line_view(l)) =~= before.map_values(|l: InfoLine| line_view(l))
            .push(subcommand_info_line(subcommands@[j as int])));
        j = j + 1;
    }
    assert(subcommands@.take(m as int) =~= subcommands@);
    let ghost end = out@.map_values(|l: InfoLine| line_view(l));
    push_info_line(&mut out, InfoLine { style: InfoStyle::Blank, label: String::new(), text: String::new() });
    assert(out@.map_values(|l: InfoLine| line_view(l)) =~= end.push((InfoStyle::Blank, Seq::<char>::empty(), Seq::<char>::empty())));
    assert(out@.map_values(|l: InfoLine| line_view(l)) =~= spec_info_lines(version@, chains@, subcommands@));
    out
}

// ── block ──

/// The block tags a node understands by name.
pub open spec fn is_block_tag(s: Seq<char>) -> bool {
    s == "latest"@ || s == "earliest"@ || s == "pending"@
}

/// The block parameter of `eth_getBlockByNumber`: a tag as given, or a
/// decimal block number rewritten as `0x` and lowercase hexadecimal.
pub open spec fn spec_block_param(block: &str) -> Result<Seq<char>, CommandError> {
    if is_block_tag(block@) {
        Ok(block@)
    } else {
        match spec_parse_uint(block.spec_bytes(), 10, u64::MAX as nat) {
            Ok(n) => Ok(seq!['0', 'x'] + minimal_hex(n)),
            Err(_) => Err(CommandError::InvalidBlockNumber),
        }
    }
}

/// Chooses the block parameter for the `block` command.
pub fn block_param(block: &str) -> (r: Result<String, CommandError>)
    ensures
        match r {
            Ok(p) => spec_block_param(block) == Ok::<Seq<char>, CommandError>(p@),
            Err(e) => spec_block_param(block) == Err::<Seq<char>, CommandError>(e),
        },
{
    if same_text(block, "latest") || same_text(block, "earliest") || same_text(block, "pending") {
        return Ok(block.to_owned());
    }
    match parse_uint(block.as_bytes(), 10, u64::MAX as u128) {
        Ok(n) => {
            let mut s = String::new();
            push_char(&mut s, '0');
            push_char(&mut s, 'x');
            push_minimal_hex(&mut s, n);
            assert(s@ =~= seq!['0', 'x'] + minimal_hex(n as nat));
            Ok(s)
        },
        Err(_) => Err(CommandError::InvalidBlockNumber),
    }
}


// ── token balance ──

/// `s` with every leading `0x` removed (`str::trim_start_matches("0x")`).
pub open spec fn strip_0x_chars(s: Seq<char>) -> Seq<char>
    decreases s.len(),
{
    if s.len() >= 2 && s[0] == '0' && s[1] == 'x' {
        strip_0x_chars(s.skip(2))
    } else {
        s
    }
}

/// `s` left-padded with `0` to `width` characters (`format!("{s:0>width$}")`).
pub open spec fn pad_left_zeros(s: Seq<char>, width: nat) -> Seq<char> {
    if s.len() >= width {
        s
    } else {
        zeros((width - s.len()) as nat) + s
    }
}

/// What the `token` command asks an ERC-20 contract for its balance.
#[derive(Clone, Debug, PartialEq, Eq)]
pub struct TokenBalanceQuery {
    /// The holder's address with its leading `0x` removed (as reported back).
    pub address: String,
    /// `balanceOf(address)` calldata. The address is neither checked nor
    /// lowercased here, only left-padded to 64 characters.
    pub data: String,
}

/// Builds the `balanceOf(address)` query of the `token` command.
pub fn token_balance_query(address: &str) -> (r: TokenBalanceQuery)
    ensures
        r.address@ == strip_0x_chars(address@),
        r.data@ == selectors::BALANCE_OF@ + pad_left_zeros(strip_0x_chars(address@), 64),
{
    let n = address.unicode_len();
    let mut pos: usize = 0;
    assert(address@.subrange(0, n as int) =~= address@);
    while n - pos >= 2 && address.get_char(pos) == '0' && address.get_char(pos + 1) == 'x'
        invariant
            pos <= n,
            n == address@.len(),
            strip_0x_chars(address@) == strip_0x_chars(address@.subrange(pos as int, n as int)),
        decreases n - pos,
    {
        assert(address@.subrange(pos as int, n as int).skip(2) =~= address@.subrange(pos + 2, n as int));
        pos = pos + 2;
    }
    let stripped = address.substring_char(pos, n);
    let len = n - pos;
    let mut data = String::from_str(selectors::BALANCE_OF);
    if len < 64 {
        let mut i: usize = 0;
        while i < 64 - len
            invariant
                i <= 64 - len,
                len < 64,
                data@ == selectors::BALANCE_OF@ + zeros(i as nat),
            decreases 64 - len - i,
        {
            push_char(&mut data, '0');
            assert(zeros((i + 1) as nat) =~= zeros(i as nat).push('0'));
            i = i + 1;
        }
    }
    data.append(stripped);
    proof {
        if len < 64 {
            assert(data@ =~= selectors::BALANCE_OF@ + pad_left_zeros(stripped@, 64));
        } else {
            assert(data@ =~= selectors::BALANCE_OF@ + pad_left_zeros(stripped@, 64));
        }
    }
    TokenBalanceQuery { address: stripped.to_owned(), data }
}

/// The decimals of a token from its `decimals()` reply: a hex `u64`, or 18
/// when the call failed, the reply is not a string (`None` for both), or it
/// cannot be read.
pub fn decimals_from_reply(reply: Option<&str>) -> (r: u64)
    ensures
        r == match reply {
            None => 18,
            Some(h) => match spec_hex_to_u64(h.spec_bytes()) {
                Ok(d) => d,
                Err(_) => 18,
            },
        },
{
    match reply {
        None => 18,
        Some(h) => match hex_to_u64(h) {
            Ok(d) => d,
            Err(_) => 18,
        },
    }
}

// ── watch ──

/// What the `watch` command follows.
#[derive(Clone, Debug, PartialEq, Eq)]
pub enum WatchTarget {
    /// New blocks (`eth_blockNumber`).
    Blocks,
    /// The pending block (`eth_getBlockByNumber("pending")`).
    Pending,
    /// The ether balance of an address (`eth_getBalance`), as given.
    Address(String),
}

/// `s` (leading `0x` removed) is 40 hexadecimal digits: an address.
pub open spec fn is_address(s: Seq<u8>) -> bool {
    strip_0x(s).len() == 40 && all_digits(strip_0x(s), 16)
}

/// Reads the target of the `watch` command: `blocks`, `pending`, or an
/// address (`0x` and 40 hexadecimal digits, or the bare digits).
pub fn parse_watch_target(target: &str) -> (r: Result<WatchTarget, CommandError>)
    ensures
        target@ == "blocks"@ ==> r == Ok::<WatchTarget, CommandError>(WatchTarget::Blocks),
        target@ != "blocks"@ && target@ == "pending"@ ==> r == Ok::<WatchTarget, CommandError>(WatchTarget::Pending),
        target@ != "blocks"@ && target@ != "pending"@ ==> {
            if is_address(target.spec_bytes()) {
                r matches Ok(WatchTarget::Address(a)) && a@ == target@
            } else {
                r matches Err(e) && (e matches CommandError::UnsupportedWatchTarget(t) && t@ == target@)
            }
        },
{
    if same_text(target, "blocks") {
        return Ok(WatchTarget::Blocks);
    }
    if same_text(target, "pending") {
        return Ok(WatchTarget::Pending);
    }
    let digits = strip_0x_bytes(target.as_bytes());
    if digits.len() == 40 {
        if let Ok(()) = check_hex(digits) {
            return Ok(WatchTarget::Address(target.to_owned()));
        }
    }
    Err(CommandError::UnsupportedWatchTarget(target.to_owned()))
}

/// `r` asks for the pending block, without its transactions.
pub open spec fn is_pending_block_request(r: RpcRequest) -> bool {
    &&& r.method@ == "eth_getBlockByNumber"@
    &&& r.params@.len() == 2
    &&& r.params@[0] matches RpcParam::Text(t) && t@ == "pending"@
    &&& r.params@[1] == RpcParam::Flag(false)
}

/// `r` asks for the latest ether balance of `address`.
pub open spec fn is_balance_request(r: RpcRequest, address: Seq<char>) -> bool {
    &&& r.method@ == "eth_getBalance"@
    &&& r.params@.len() == 2
    &&& r.params@[0] matches RpcParam::Text(a) && a@ == address
    &&& r.params@[1] matches RpcParam::Text(t) && t@ == "latest"@
}

/// The request each poll of a watch sends.
pub fn watch_request(target: &WatchTarget) -> (r: RpcRequest)
    ensures
        match target {
            WatchTarget::Blocks => is_bare_request(r, "eth_blockNumber"@),
            WatchTarget::Pending => is_pending_block_request(r),
            WatchTarget::Address(a) => is_balance_request(r, a@),
        },
{
    match target {
        WatchTarget::Blocks => bare_request("eth_blockNumber"),
        WatchTarget::Pending => {
            let mut params = Vec::new();
            params.push(RpcParam::Text(String::from_str("pending")));
            params.push(RpcParam::Flag(false));
            RpcRequest { method: String::from_str("eth_getBlockByNumber"), params }
        },
        WatchTarget::Address(a) => {
            let mut params = Vec::new();
            params.push(RpcParam::Text(a.clone()));
            params.push(RpcParam::Text(String::from_str("latest")));
            RpcRequest { method: String::from_str("eth_getBalance"), params }
        },
    }
}

/// The outcome of one poll of `eth_blockNumber` while watching blocks.
#[derive(Clone, Copy, Debug, PartialEq, Eq, Structural)]
pub struct WatchStep {
    /// The last block number seen, after this poll.
    pub last: u64,
    /// The block to report, when this poll saw a new one.
    pub new_block: Option<u64>,
}

/// The block number a poll reply stands for: its hex `u64`, or 0 when it
/// cannot be read.
pub open spec fn polled_block(h: Seq<u8>) -> u64 {
    match spec_hex_to_u64(h) {
        Ok(n) => n,
        Err(_) => 0,
    }
}

/// One poll of `watch blocks` (the reply of `eth_blockNumber`) or of
/// `watch pending` (the `number` of the pending block): a reply that is not
/// a string (`None`) changes nothing; otherwise its block number is reported
/// and remembered exactly when it differs from the last one.
pub fn watch_step(last: u64, reply: Option<&str>) -> (r: WatchStep)
    ensures
        match reply {
            None => r == WatchStep { last, new_block: None },
            Some(h) => if polled_block(h.spec_bytes()) != last {
                r == WatchStep { last: polled_block(h.spec_bytes()), new_block: Some(polled_block(h.spec_bytes())) }
            } else {
                r == WatchStep { last, new_block: None }
            },
        },
{
    match reply {
        None => WatchStep { last, new_block: None },
        Some(h) => {
            let n = match hex_to_u64(h) {
                Ok(n) => n,
                Err(_) => 0,
            };
            if n != last {
                WatchStep { last: n, new_block: Some(n) }
            } else {
                WatchStep { last, new_block: None }
            }
        },
    }
}

/// The outcome of one poll of an address's balance.
#[derive(Clone, Copy, Debug, PartialEq, Eq, Structural)]
pub struct BalanceWatchStep {
    /// The last balance seen, in wei, after this poll.
    pub last: Option<u128>,
    /// The balance to report, when this poll saw it change.
    pub changed: Option<u128>,
}

/// One poll of `watch <address>` (the reply of `eth_getBalance`): a reply
/// that is not a string (`None`) or not a hexadecimal `u128` changes
/// nothing; otherwise the balance is reported and remembered exactly when it
/// differs from the last one seen (the first reading always differs).
pub fn balance_watch_step(last: Option<u128>, reply: Option<&str>) -> (r: BalanceWatchStep)
    ensures
        match reply {
            None => r == BalanceWatchStep { last, changed: None },
            Some(h) => match spec_wei_hex_to_wei(h.spec_bytes()) {
                Err(_) => r == BalanceWatchStep { last, changed: None },
                Ok(v) => if last != Some(v) {
                    r == BalanceWatchStep { last: Some(v), changed: Some(v) }
                } else {
                    r == BalanceWatchStep { last, changed: None }
                },
            },
        },
{
    match reply {
        None => BalanceWatchStep { last, changed: None },
        Some(h) => match wei_hex_to_wei(h) {
            Err(_) => BalanceWatchStep { last, changed: None },
            Ok(v) => {
                let same = match last {
                    Some(l) => l == v,
                    None => false,
                };
                if !same {
                    BalanceWatchStep { last: Some(v), changed: Some(v) }
                } else {
                    BalanceWatchStep { last, changed: None }
                }
            },
        },
    }
}

// ── block annotations ──

/// Decimal forms of a block's fields, added for readers.
#[derive(Clone, Copy, Debug, PartialEq, Eq, Structural)]
pub struct BlockAnnotations {
    pub number_decimal: Option<u64>,
    pub timestamp_decimal: Option<u64>,
}

/// A hex quantity as a `u64` when it is a string that reads as one.
pub open spec fn readable_u64(field: Option<&str>) -> Option<u64> {
    match field {
        Some(h) => match spec_hex_to_u64(h.spec_bytes()) {
            Ok(n) => Some(n),
            Err(_) => None,
        },
        None => None,
    }
}

fn read_u64_field(field: Option<&str>) -> (r: Option<u64>)
    ensures
        r == readable_u64(field),
{
    match field {
        Some(h) => match hex_to_u64(h) {
            Ok(n) => Some(n),
            Err(_) => None,
        },
        None => None,
    }
}

/// The decimal forms of a block's `number` and `timestamp` (each given when
/// it is a string), present where they read as hex `u64`s.
pub fn annotate_block(number: Option<&str>, timestamp: Option<&str>) -> (r: BlockAnnotations)
    ensures
        r.number_decimal == readable_u64(number),
        r.timestamp_decimal == readable_u64(timestamp),
{
    BlockAnnotations { number_decimal: read_u64_field(number), timestamp_decimal: read_u64_field(timestamp) }
}

// ── agent-deposit ──

/// The contract to talk to: an explicit override wins; otherwise the
/// deployment registered for the chain, or an error naming the chain.
pub fn resolve_contract(contract_override: Option<&str>, chain_id: u64) -> (r: Result<String, AgentDepositError>)
    ensures
        match contract_override {
            Some(c) => r matches Ok(s) && s@ == c@,
            None => match spec_agent_deposit_address(chain_id) {
                Some(a) => r matches Ok(s) && s@ == a,
                None => r == Err::<String, AgentDepositError>(AgentDepositError::NoDeployment(chain_id)),
            },
        },
{
    match contract_override {
        Some(c) => Ok(c.to_owned()),
        None => match agent_deposit_address(chain_id) {
            Some(a) => Ok(a.to_owned()),
            None => Err(AgentDepositError::NoDeployment(chain_id)),
        },
    }
}

/// What to do next for an `agent-deposit` request.
#[derive(Clone, Debug, PartialEq, Eq)]
pub enum DepositStep {
    /// Call `contract` with `calldata` (`balanceOf(agent)`); read the reply
    /// with `balance_from_reply` and report it with `format_balance_response`.
    ReadBalance { contract: String, calldata: String },
    /// Call `contract` with `calldata` (`isRegistered(agent)`); read the reply
    /// with `registered_from_reply` and report it with `format_registered_response`.
    ReadRegistered { contract: String, calldata: String },
    /// Report an unsigned transaction under `label`; nothing is sent.
    Unsigned { label: String, response: UnsignedTxResponse },
}

/// The label under which a write action is reported.
pub open spec fn write_label(action: Action) -> Seq<char> {
    if action == Action::Deposit {
        "Agent Deposit (unsigned)"@
    } else {
        "Agent Withdraw (unsigned)"@
    }
}

/// The action name reported with a write action.
pub open spec fn write_tag(action: Action) -> Seq<char> {
    if action == Action::Deposit {
        "deposit"@
    } else {
        "withdraw"@
    }
}

/// `response` is the unsigned transaction of the write `action` of `amount`
/// by `agent` on `contract` (chain `chain_id`), carrying the calldata `data`.
pub open spec fn unsigned_response_for(
    response: UnsignedTxResponse,
    action: Action,
    agent: Seq<char>,
    contract: Seq<char>,
    chain_id: u64,
    amount: u128,
    data: Seq<char>,
) -> bool {
    &&& response.action@ == write_tag(action)
    &&& response.agent@ == agent
    &&& response.contract@ == contract
    &&& response.chain_id == chain_id
    &&& response.amount_raw@ == decimal(amount as nat)
    &&& response.tx.to@ == contract
    &&& response.tx.from@ == agent
    &&& response.tx.data@ == data
    &&& response.tx.value@ == "0x0"@
    &&& response.note@ == UNSIGNED_TX_NOTE@
}

/// The selector of a write action.
pub open spec fn write_selector(action: Action) -> &'static str {
    if action == Action::Deposit {
        selectors::DEPOSIT
    } else {
        selectors::WITHDRAW
    }
}

/// Decides what an `agent-deposit` request does once its action is parsed
/// and its contract and chain are known: reads encode the agent's address
/// into calldata; writes need an amount and become unsigned transactions.
pub fn plan_agent_deposit(address: &str, action: Action, amount: Option<u128>, contract: &str, chain_id: u64) -> (r: Result<DepositStep, AgentDepositError>)
    ensures
        action == Action::Balance ==> match spec_encode_address_call(selectors::BALANCE_OF.spec_bytes(), address.spec_bytes()) {
            Ok(cd) => r matches Ok(DepositStep::ReadBalance { contract: c, calldata }) && c@ == contract@ && calldata@ == cd,
            Err(e) => r == Err::<DepositStep, AgentDepositError>(AgentDepositError::Encoding(e)),
        },
        action == Action::Registered ==> match spec_encode_address_call(selectors::IS_REGISTERED.spec_bytes(), address.spec_bytes()) {
            Ok(cd) => r matches Ok(DepositStep::ReadRegistered { contract: c, calldata }) && c@ == contract@ && calldata@ == cd,
            Err(e) => r == Err::<DepositStep, AgentDepositError>(AgentDepositError::Encoding(e)),
        },
        (action == Action::Deposit || action == Action::Withdraw) ==> match amount {
            None => r == Err::<DepositStep, AgentDepositError>(AgentDepositError::AmountRequired),
            Some(a) => match spec_encode_uint256_call(write_selector(action).spec_bytes(), a) {
                Ok(cd) => r matches Ok(DepositStep::Unsigned { label, response }) && label@ == write_label(action)
                    && unsigned_response_for(response, action, address@, contract@, chain_id, a, cd),
                Err(e) => r == Err::<DepositStep, AgentDepositError>(AgentDepositError::Encoding(e)),
            },
        },
        (action == Action::Deposit || action == Action::Withdraw) && amount is Some ==> r is Ok,
{
    proof {
        crate::laws::law_selectors_are_valid();
    }
    match action {
        Action::Balance => match encode_address_call(selectors::BALANCE_OF, address) {
            Ok(calldata) => Ok(DepositStep::ReadBalance { contract: contract.to_owned(), calldata }),
            Err(e) => Err(AgentDepositError::Encoding(e)),
        },
        Action::Registered => match encode_address_call(selectors::IS_REGISTERED, address) {
            Ok(calldata) => Ok(DepositStep::ReadRegistered { contract: contract.to_owned(), calldata }),
            Err(e) => Err(AgentDepositError::Encoding(e)),
        },
        Action::Deposit | Action::Withdraw => {
            let amt = match amount {
                Some(a) => a,
                None => {
                    return Err(AgentDepositError::AmountRequired);
                },
            };
            let (selector, label, tag) = match action {
                Action::Deposit => (selectors::DEPOSIT, "Agent Deposit (unsigned)", "deposit"),
                _ => (selectors::WITHDRAW, "Agent Withdraw (unsigned)", "withdraw"),
            };
            let data = match encode_uint256_call(selector, amt) {
                Ok(d) => d,
                Err(e) => {
                    return Err(AgentDepositError::Encoding(e));
                },
            };
            let response = format_unsigned_tx(tag, address, contract, chain_id, amt, data.as_str());
            Ok(DepositStep::Unsigned { label: label.to_owned(), response })
        },
    }
}


/// The view of an optional string slice.
pub open spec fn opt_str_view(o: Option<&str>) -> Option<Seq<char>> {
    match o {
        Some(s) => Some(s@),
        None => None,
    }
}

/// The contract an `agent-deposit` request talks to: the override when one
/// is given, else the deployment registered for the chain.
pub open spec fn spec_resolve_contract(contract_override: Option<Seq<char>>, chain_id: u64) -> Result<Seq<char>, AgentDepositError> {
    match contract_override {
        Some(c) => Ok(c),
        None => match spec_agent_deposit_address(chain_id) {
            Some(a) => Ok(a),
            None => Err(AgentDepositError::NoDeployment(chain_id)),
        },
    }
}

/// Where an `agent-deposit` request stands between two RPC replies.
#[derive(Clone, Debug, PartialEq, Eq)]
pub enum DepositPhase {
    /// The chain id has been asked for.
    AwaitingChainId,
    /// `balanceOf(agent)` has been called on `contract`.
    AwaitingBalance { chain_id: u64, contract: String },
    /// `isRegistered(agent)` has been called on `contract`.
    AwaitingRegistered { chain_id: u64, contract: String },
}

/// An `agent-deposit` request in progress.
#[derive(Clone, Debug, PartialEq, Eq)]
pub struct DepositSession {
    /// The agent's address, as given.
    pub address: String,
    pub action: Action,
    pub amount: Option<u128>,
    pub contract_override: Option<String>,
    pub phase: DepositPhase,
}

/// What an `agent-deposit` request reports at its end.
#[derive(Clone, Debug, PartialEq, Eq)]
pub enum DepositReport {
    Balance(BalanceResponse),
    Registered(RegisteredResponse),
    /// An unsigned transaction, reported under `label`.
    Unsigned { label: String, response: UnsignedTxResponse },
}

/// The next move of an `agent-deposit` request.
#[derive(Clone, Debug, PartialEq, Eq)]
pub enum DepositProgress {
    /// Send `request` and hand its reply back with `session`.
    Next { session: DepositSession, request: RpcRequest },
    /// Report this; the request is done.
    Finished(DepositReport),
}

/// Starts an `agent-deposit` request: the action is parsed first, then the
/// chain id is asked for (always, so the report names the chain actually
/// talked to, even when a contract is given).
pub fn start_agent_deposit(address: &str, action_str: &str, amount: Option<u128>, contract_override: Option<&str>) -> (r: Result<(DepositSession, RpcRequest), AgentDepositError>)
    ensures
        match spec_parse_action(action_str@) {
            None => r matches Err(AgentDepositError::UnknownAction(l)) && l@ == ascii_lower(action_str@),
            Some(a) => r matches Ok((s, req)) && {
                &&& s.address@ == address@
                &&& s.action == a
                &&& s.amount == amount
                &&& opt_view(s.contract_override) == opt_str_view(contract_override)
                &&& s.phase == DepositPhase::AwaitingChainId
                &&& is_bare_request(req, "eth_chainId"@)
            },
        },
{
    let action = Action::parse(action_str)?;
    let contract_override = match contract_override {
        Some(c) => Some(c.to_owned()),
        None => None,
    };
    let session = DepositSession {
        address: address.to_owned(),
        action,
        amount,
        contract_override,
        phase: DepositPhase::AwaitingChainId,
    };
    Ok((session, bare_request("eth_chainId")))
}

/// The calldata of an `eth_call` request.
pub open spec fn call_data(r: RpcRequest) -> Seq<char> {
    match r.params@[0] {
        RpcParam::Call { data, .. } => data@,
        _ => Seq::empty(),
    }
}

/// The contract an `eth_call` request goes to.
pub open spec fn call_to(r: RpcRequest) -> Seq<char> {
    match r.params@[0] {
        RpcParam::Call { to, .. } => to@,
        _ => Seq::empty(),
    }
}

/// The contract a session in this phase talks to.
pub open spec fn phase_contract(p: DepositPhase) -> Option<Seq<char>> {
    match p {
        DepositPhase::AwaitingChainId => None,
        DepositPhase::AwaitingBalance { contract, .. } => Some(contract@),
        DepositPhase::AwaitingRegistered { contract, .. } => Some(contract@),
    }
}

/// `s2` carries the same request as `s` (its phase aside).
pub open spec fn same_request(s2: DepositSession, s: DepositSession) -> bool {
    &&& s2.address == s.address
    &&& s2.action == s.action
    &&& s2.amount == s.amount
    &&& s2.contract_override == s.contract_override
}

/// The selector of a read action.
pub open spec fn read_selector(action: Action) -> &'static str {
    if action == Action::Balance {
        selectors::BALANCE_OF
    } else {
        selectors::IS_REGISTERED
    }
}

/// Takes the reply to the last request of an `agent-deposit` session (the
/// reply's result when it is a string; `None` for any other JSON value) and
/// decides what comes next.
///
/// - After the chain id: the contract is resolved; a read calls
///   `balanceOf` or `isRegistered` on it with the agent's encoded address; a
///   write needs an amount and finishes with the unsigned transaction.
/// - After a read: the balance or the registration is reported.
pub fn agent_deposit_on_reply(session: DepositSession, reply: Option<&str>) -> (r: Result<DepositProgress, AgentDepositError>)
    ensures
        match session.phase {
            DepositPhase::AwaitingChainId => match spec_chain_id_from_reply(reply) {
                Err(e) => r == Err::<DepositProgress, AgentDepositError>(e),
                Ok(chain) => match spec_resolve_contract(opt_view(session.contract_override), chain) {
                    Err(e) => r == Err::<DepositProgress, AgentDepositError>(e),
                    Ok(contract) => if session.action == Action::Balance || session.action == Action::Registered {
                        match spec_encode_address_call(read_selector(session.action).spec_bytes(), encode_utf8(session.address@)) {
                            Err(e) => r == Err::<DepositProgress, AgentDepositError>(AgentDepositError::Encoding(e)),
                            Ok(cd) => r matches Ok(DepositProgress::Next { session: s2, request }) && {
                                &&& same_request(s2, session)
                                &&& is_eth_call(request, contract, cd)
                                &&& if session.action == Action::Balance {
                                    s2.phase matches DepositPhase::AwaitingBalance { chain_id: c, contract: k } && c == chain && k@ == contract
                                } else {
                                    s2.phase matches DepositPhase::AwaitingRegistered { chain_id: c, contract: k } && c == chain && k@ == contract
                                }
                            },
                        }
                    } else {
                        match session.amount {
                            None => r == Err::<DepositProgress, AgentDepositError>(AgentDepositError::AmountRequired),
                            Some(a) => r matches Ok(DepositProgress::Finished(DepositReport::Unsigned { label, response }))
                                && label@ == write_label(session.action)
                                && unsigned_response_for(
                                    response,
                                    session.action,
                                    session.address@,
                                    contract,
                                    chain,
                                    a,
                                    spec_encode_uint256_call(write_selector(session.action).spec_bytes(), a)->Ok_0,
                                ),
                        }
                    },
                },
            },
            DepositPhase::AwaitingBalance { chain_id, contract } => match spec_balance_from_reply(reply) {
                Err(e) => r == Err::<DepositProgress, AgentDepositError>(e),
                Ok(v) => r matches Ok(DepositProgress::Finished(DepositReport::Balance(b))) && {
                    &&& b.agent@ == session.address@
                    &&& b.contract@ == contract@
                    &&& b.chain_id == chain_id
                    &&& b.action@ == "balance"@
                    &&& b.balance_raw@ == decimal(v as nat)
                    &&& b.balance_units == v
                    &&& b.decimals == USDC_DECIMALS
                },
            },
            DepositPhase::AwaitingRegistered { chain_id, contract } => r matches Ok(
                DepositProgress::Finished(DepositReport::Registered(g)),
            ) && {
                &&& g.agent@ == session.address@
                &&& g.contract@ == contract@
                &&& g.chain_id == chain_id
                &&& g.action@ == "registered"@
                &&& g.registered == match reply {
                    None => false,
                    Some(h) => is_nonzero_word(h.spec_bytes()),
                }
            },
        },
        session.phase == DepositPhase::AwaitingChainId ==> (r matches Ok(DepositProgress::Next { request, .. })
            ==> (session.action == Action::Registered ==> call_data(request).take(10) == "0xc3c5a547"@)),
        session.phase == DepositPhase::AwaitingChainId ==> (r matches Ok(DepositProgress::Next { request, .. })
            ==> (session.action == Action::Balance ==> call_data(request).take(10) == "0x70a08231"@)),
        session.phase == DepositPhase::AwaitingChainId ==> (r matches Ok(DepositProgress::Next { session: s2, request })
            ==> (session.contract_override matches Some(c) ==> call_to(request) == c@ && phase_contract(s2.phase) == Some(c@))),
        session.phase == DepositPhase::AwaitingChainId ==> (r matches Ok(DepositProgress::Finished(DepositReport::Unsigned { response, .. }))
            ==> (session.contract_override matches Some(c) ==> response.contract@ == c@ && response.tx.to@ == c@)),
{
    proof {
        crate::laws::law_selectors_are_valid();
        reveal_strlit("0x70a08231");
        reveal_strlit("0xc3c5a547");
        let address_bytes = encode_utf8(session.address@);
        if (session.action == Action::Balance || session.action == Action::Registered)
            && spec_encode_address_call(read_selector(session.action).spec_bytes(), address_bytes) is Ok {
            crate::laws::lemma_calldata_prefix(read_selector(session.action), address_bytes);
        }
    }
    match &session.phase {
        DepositPhase::AwaitingChainId => {
            let chain = chain_id_from_reply(reply)?;
            let over = match &session.contract_override {
                Some(c) => Some(c.as_str()),
                None => None,
            };
            let contract = resolve_contract(over, chain)?;
            let step = plan_agent_deposit(session.address.as_str(), session.action, session.amount, contract.as_str(), chain)?;
            match step {
                DepositStep::ReadBalance { contract: c, calldata } => {
                    let request = eth_call_request(c.as_str(), calldata.as_str());
                    let s2 = DepositSession {
                        address: session.address,
                        action: session.action,
                        amount: session.amount,
                        contract_override: session.contract_override,
                        phase: DepositPhase::AwaitingBalance { chain_id: chain, contract: c },
                    };
                    Ok(DepositProgress::Next { session: s2, request })
                },
                DepositStep::ReadRegistered { contract: c, calldata } => {
                    let request = eth_call_request(c.as_str(), calldata.as_str());
                    let s2 = DepositSession {
                        address: session.address,
                        action: session.action,
                        amount: session.amount,
                        contract_override: session.contract_override,
                        phase: DepositPhase::AwaitingRegistered { chain_id: chain, contract: c },
                    };
                    Ok(DepositProgress::Next { session: s2, request })
                },
                DepositStep::Unsigned { label, response } => Ok(
                    DepositProgress::Finished(DepositReport::Unsigned { label, response }),
                ),
            }
        },
        DepositPhase::AwaitingBalance { chain_id, contract } => {
            let raw = balance_from_reply(reply)?;
            let b = format_balance_response(session.address.as_str(), contract.as_str(), *chain_id, raw);
            Ok(DepositProgress::Finished(DepositReport::Balance(b)))
        },
        DepositPhase::AwaitingRegistered { chain_id, contract } => {
            let reg = registered_from_reply(reply);
            let g = format_registered_response(session.address.as_str(), contract.as_str(), *chain_id, reg);
            Ok(DepositProgress::Finished(DepositReport::Registered(g)))
        },
    }
}

} // verus!
