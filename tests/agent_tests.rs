use tunneldash::agent::{version_args, version_from_output, version_outcome, AGENT_PROGRAM};
use tunneldash::text::{first_line_of, push_decimal, same_text, trim_text};

#[test]
fn version_parse() {
    assert_eq!(
        version_from_output("cloudflared version 2024.1.0\nBuild date: 2024-01-10"),
        "cloudflared version 2024.1.0"
    );
}

#[test]
fn version_edges() {
    assert_eq!(version_from_output(""), "unknown");
    assert_eq!(version_from_output("\nsecond"), "");
    assert_eq!(version_from_output("  v1 \r\nrest"), "v1");
    assert_eq!(version_from_output("only line"), "only line");
}

#[test]
fn version_failure() {
    assert_eq!(version_outcome(false, "exit status: 1", "ignored"), Err("cloudflared --version failed: status exit status: 1".to_string()));
    assert_eq!(version_outcome(true, "exit status: 0", "v2\n"), Ok("v2".to_string()));
    assert_eq!(version_args(), vec!["--version".to_string()]);
    assert_eq!(AGENT_PROGRAM, "cloudflared");
}

#[test]
fn text_helpers() {
    assert_eq!(trim_text("\u{3000}\t x y \u{a0}\n"), "x y");
    assert_eq!(trim_text("   "), "");
    assert_eq!(first_line_of("ab\ncd"), "ab");
    assert!(same_text("é", "é"));
    assert!(!same_text("ab", "abc"));
    let mut out = String::from("n=");
    push_decimal(&mut out, 407);
    assert_eq!(out, "n=407");
}
