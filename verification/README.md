# arbitrum_cli

An agent-first Arbitrum command-line tool (JSON in, JSON out) whose core is
verified with Verus.

- `src/` — the verified library:
  - `numeral.rs`: unsigned numerals, parsed as Rust's `from_str_radix` does
    and written in lowercase hexadecimal or decimal, with the lemmas that
    relate the two.
  - `rpc.rs`: hexadecimal JSON-RPC quantities (`hex_to_u64`, wei amounts),
    the requests the library decides on, how a reply is answered, and the
    JSON parse of `exec`'s params (through serde_json).
  - `agent_deposit.rs` (and `agent_deposit/selectors.rs`): the Create
    Protocol `AgentDeposit` contract — deployment lookup, action parsing,
    calldata encoding (with `hex::decode` as the hex check), reply decoding
    and the response records.
  - `commands.rs`: the decisions the commands take between RPC calls
    (supported chains, block parameter and annotations, token query,
    watching blocks, the pending block or an address, and the
    `agent-deposit` session from its first request to its report).
  - `output.rs`: the output mode, and the lines of the human output of a
    JSON value (`commands.rs` builds the lines of the human `info` report).
  - `laws.rs`: properties across functions (round trips of the encodings,
    case-insensitivity, well-formed selectors).
- `app/` — the binary: argument parsing (clap), the JSON-RPC client
  (reqwest, tokio), printing (JSON, and the library's lines in color), and
  the floating-point scaling of balances.
- `tests/` — tests of the library.
