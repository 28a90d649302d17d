use arbitrum_cli::commands::{chain_inventory, info_lines, InfoStyle, SubcommandInfo};
use arbitrum_cli::output::{human_lines, HumanLine, JsonTree};

fn text(s: &str) -> JsonTree {
    JsonTree::Text { value: s.to_string(), json: format!("\"{s}\"") }
}

#[test]
fn human_lines_walk_the_tree() {
    let tree = JsonTree::Object(vec![
        ("name".to_string(), text("x")),
        ("n".to_string(), JsonTree::Scalar("3".to_string())),
        (
            "list".to_string(),
            JsonTree::Array(vec![JsonTree::Scalar("true".to_string()), text("y")]),
        ),
        ("empty".to_string(), JsonTree::Object(vec![])),
    ]);
    let lines = human_lines(&tree, 2);
    assert_eq!(
        lines,
        vec![
            HumanLine::Field { indent: 2, key: "name".to_string(), value: "x".to_string() },
            HumanLine::Field { indent: 2, key: "n".to_string(), value: "3".to_string() },
            HumanLine::Key { indent: 2, key: "list".to_string() },
            HumanLine::Index { indent: 4, index: 0 },
            HumanLine::Plain { indent: 6, text: "true".to_string() },
            HumanLine::Index { indent: 4, index: 1 },
            HumanLine::Plain { indent: 6, text: "\"y\"".to_string() },
            HumanLine::Key { indent: 2, key: "empty".to_string() },
        ]
    );
    assert_eq!(
        human_lines(&text("top"), 0),
        vec![HumanLine::Plain { indent: 0, text: "\"top\"".to_string() }]
    );
    assert_eq!(
        human_lines(&JsonTree::Scalar("null".to_string()), usize::MAX),
        vec![HumanLine::Plain { indent: usize::MAX, text: "null".to_string() }]
    );
}

#[test]
fn info_report_lines() {
    let subs = vec![
        SubcommandInfo { name: "block".to_string(), description: Some("Query block info".to_string()) },
        SubcommandInfo { name: "gas".to_string(), description: None },
    ];
    let lines = info_lines("0.1.0", &chain_inventory(), &subs);
    let texts: Vec<(InfoStyle, &str, &str)> =
        lines.iter().map(|l| (l.style, l.label.as_str(), l.text.as_str())).collect();
    let rule: String = std::iter::repeat('─').take(72).collect();
    let one = format!(
        "  {:<18} {:<8} {:<38} {}",
        "Arbitrum One", 42161, "https://arb1.arbitrum.io/rpc", "https://arbiscan.io"
    );
    let sepolia = format!(
        "  {:<18} {:<8} {:<38} {}",
        "Arbitrum Sepolia", 421614, "https://sepolia-rollup.arbitrum.io/rpc", "https://sepolia.arbiscan.io"
    );
    let header = format!("  {:<18} {:<8} RPC                                    Explorer", "Name", "Chain");
    let expected: Vec<(InfoStyle, &str, &str)> = vec![
        (InfoStyle::Title, "", "arbitrum-cli info"),
        (InfoStyle::Rule, "", &rule),
        (InfoStyle::Field, "version:", "0.1.0"),
        (InfoStyle::Heading, "", "Chains"),
        (InfoStyle::Plain, "", &header),
        (InfoStyle::Plain, "", &one),
        (InfoStyle::Plain, "", "    USDC: 0xaf88d065e77c8cC2239327C5EDb3A432268e5831"),
        (InfoStyle::Plain, "", "    AgentDeposit: 0x0000000000000000000000000000000000000000"),
        (InfoStyle::Plain, "", "    Uniswap V3 Quoter: 0xb27308f9F90D607463bb33eA1BeBb41C27CE5AB6"),
        (InfoStyle::Plain, "", &sepolia),
        (InfoStyle::Plain, "", "    USDC: 0x75faf114eafb1BDbe2F0316DF893fd58CE46AA4d"),
        (InfoStyle::Plain, "", "    AgentDeposit: 0x0000000000000000000000000000000000000000"),
        (InfoStyle::Plain, "", "    Uniswap V3 Quoter: not configured"),
        (InfoStyle::Heading, "", "Subcommands"),
        (InfoStyle::Plain, "", "  Name             Description"),
        (InfoStyle::Plain, "", "  block            Query block info"),
        (InfoStyle::Plain, "", "  gas              "),
        (InfoStyle::Blank, "", ""),
    ];
    assert_eq!(texts, expected);
}
