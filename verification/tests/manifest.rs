use sudo_ops::manifest::sniff_branch;

#[test]
fn test_sniff_branch() {
    let toml = r#"sp-io = { git = "https://github.com/paritytech/polkadot-sdk", branch = "polkadot-v0.9.38" }"#;
    assert_eq!(sniff_branch(toml), Some("polkadot-v0.9.38"));
}

#[test]
fn sniff_branch_of_empty_manifest() {
    assert_eq!(sniff_branch(""), None);
}

#[test]
fn sniff_branch_without_sdk_dependency() {
    let toml = "[package]\nname = \"runtime\"\n\n[dependencies]\nserde = { version = \"1\", branch = \"main\" }\n";
    assert_eq!(sniff_branch(toml), None);
}

#[test]
fn sniff_branch_takes_the_first_sdk_line() {
    let toml = "[dependencies]\n\
        log = \"0.4\"\n\
        sp-io = { git = \"https://github.com/paritytech/polkadot-sdk\", branch = \"release-a\" }\n\
        sp-std = { git = \"https://github.com/paritytech/polkadot-sdk\", branch = \"release-b\" }\n";
    assert_eq!(sniff_branch(toml), Some("release-a"));
}

#[test]
fn sniff_branch_stops_at_first_sdk_line_without_branch() {
    let toml = "sp-io = { git = \"https://github.com/paritytech/polkadot-sdk\", tag = \"v1\" }\n\
        sp-std = { git = \"https://github.com/paritytech/polkadot-sdk\", branch = \"release-b\" }\n";
    assert_eq!(sniff_branch(toml), None);
}

#[test]
fn sniff_branch_with_key_before_marker() {
    let toml = "x = { branch = \"early\", git = \"https://github.com/paritytech/polkadot-sdk\" }";
    assert_eq!(sniff_branch(toml), Some("early"));
}

#[test]
fn sniff_branch_without_closing_quote_runs_to_end_of_line() {
    let toml = "x = { git = \"https://github.com/paritytech/polkadot-sdk\", branch = \"open\nnext = 1\n";
    assert_eq!(sniff_branch(toml), Some("open"));
}

#[test]
fn sniff_branch_drops_carriage_return_before_line_feed() {
    let toml = "x = { git = \"https://github.com/paritytech/polkadot-sdk\", branch = \"open\r\nnext = 1\r\n";
    assert_eq!(sniff_branch(toml), Some("open"));
}

#[test]
fn sniff_branch_keeps_carriage_return_of_unended_last_line() {
    let toml = "x = { git = \"https://github.com/paritytech/polkadot-sdk\", branch = \"open\r";
    assert_eq!(sniff_branch(toml), Some("open\r"));
}

#[test]
fn sniff_branch_of_empty_name() {
    let toml = "x = { git = \"https://github.com/paritytech/polkadot-sdk\", branch = \"\" }";
    assert_eq!(sniff_branch(toml), Some(""));
}

#[test]
fn sniff_branch_with_text_beyond_ascii() {
    let toml = "# d\u{e9}pendances \u{2014} \u{1f980}\n\
        x = { git = \"https://github.com/paritytech/polkadot-sdk\", branch = \"\u{e9}t\u{e9}-\u{1f980}\" } # fin";
    assert_eq!(sniff_branch(toml), Some("\u{e9}t\u{e9}-\u{1f980}"));
}

#[test]
fn sniff_branch_agrees_with_line_by_line_search() {
    let samples = [
        "",
        "\n",
        "\n\n",
        "git = \"https://github.com/paritytech/polkadot-sdk\"",
        "git = \"https://github.com/paritytech/polkadot-sdk\" branch = \"a\" branch = \"b\"",
        "branch = \"z\"\ngit = \"https://github.com/paritytech/polkadot-sdk\"\nbranch = \"y\"\n",
        "a\r\nb git = \"https://github.com/paritytech/polkadot-sdk\", branch = \"q\"x\r\n",
        "git = \"https://github.com/paritytech/polkadot-sdk\"branch = \"",
    ];
    for sample in samples {
        let expected = sample
            .lines()
            .find(|line| line.contains("git = \"https://github.com/paritytech/polkadot-sdk\""))
            .and_then(|line| {
                let key = "branch = \"";
                line.find(key).map(|at| &line[at + key.len()..])
            })
            .and_then(|rest| rest.split('"').next());
        assert_eq!(sniff_branch(sample), expected);
    }
}
