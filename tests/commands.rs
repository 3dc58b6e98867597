use meritocrab::commands::{parse_credit_command, CreditCommand};

#[test]
fn test_parse_check_command() {
    let comment = "/credit check @user123";
    let cmd = parse_credit_command(comment);
    assert_eq!(
        cmd,
        Some(CreditCommand::Check {
                username: "user123".to_string()
        })
    );
}

#[test]
fn test_parse_check_command_with_whitespace() {
    let comment = "/credit check @user123  ";
    let cmd = parse_credit_command(comment);
    assert_eq!(
        cmd,
        Some(CreditCommand::Check {
                username: "user123".to_string()
        })
    );
}

#[test]
fn test_parse_override_positive() {
    let comment = r#"/credit override @user123 +10 "good first contribution""#;
    let cmd = parse_credit_command(comment);
    assert_eq!(
        cmd,
        Some(CreditCommand::Override {
                username: "user123".to_string(),
                delta: 10,
                reason: "good first contribution".to_string()
        })
    );
}

#[test]
fn test_parse_override_negative() {
    let comment = r#"/credit override @spammer -20 "spam PR""#;
    let cmd = parse_credit_command(comment);
    assert_eq!(
        cmd,
        Some(CreditCommand::Override {
                username: "spammer".to_string(),
                delta: -20,
                reason: "spam PR".to_string()
        })
    );
}

#[test]
fn test_parse_blacklist_command() {
    let comment = "/credit blacklist @badactor";
    let cmd = parse_credit_command(comment);
    assert_eq!(
        cmd,
        Some(CreditCommand::Blacklist {
                username: "badactor".to_string()
        })
    );
}

#[test]
fn test_parse_no_command() {
    let comment = "This is just a regular comment";
    let cmd = parse_credit_command(comment);
    assert_eq!(cmd, None);
}

#[test]
fn test_parse_invalid_command() {
    let comment = "/credit unknown @user";
    let cmd = parse_credit_command(comment);
    assert_eq!(cmd, None);
}

#[test]
fn test_parse_command_in_multi_line_comment() {
    let comment = r#"Some context before

/credit check @user123

Some context after"#;
    let cmd = parse_credit_command(comment);
    assert_eq!(
        cmd,
        Some(CreditCommand::Check {
                username: "user123".to_string()
        })
    );
}

#[test]
fn test_parse_override_with_multiword_reason() {
    let comment = r#"/credit override @user +5 "excellent bug fix with detailed explanation""#;
    let cmd = parse_credit_command(comment);
    assert_eq!(
        cmd,
        Some(CreditCommand::Override {
                username: "user".to_string(),
                delta: 5,
                reason: "excellent bug fix with detailed explanation".to_string()
        })
    );
}

#[test]
fn parse_command_first_line_wins_within_kind() {
    let comment = "/credit blacklist @first\n/credit blacklist @second";
    assert_eq!(
        parse_credit_command(comment),
        Some(CreditCommand::Blacklist { username: "first".to_string() })
    );
}

#[test]
fn parse_check_wins_over_earlier_override() {
    let comment = "/credit override @a +1 \"r\"\n/credit check @b";
    assert_eq!(
        parse_credit_command(comment),
        Some(CreditCommand::Check { username: "b".to_string() })
    );
}

#[test]
fn parse_override_out_of_range_falls_back_to_blacklist() {
    let comment = "/credit override @a +99999999999 \"r\"\n/credit blacklist @b";
    assert_eq!(
        parse_credit_command(comment),
        Some(CreditCommand::Blacklist { username: "b".to_string() })
    );
}

#[test]
fn parse_override_at_i32_bounds() {
    assert_eq!(
        parse_credit_command("/credit override @a -2147483648 \"min\""),
        Some(CreditCommand::Override { username: "a".to_string(), delta: i32::MIN, reason: "min".to_string() })
    );
    assert_eq!(parse_credit_command("/credit override @a +2147483648 \"too big\""), None);
}

#[test]
fn parse_command_must_start_a_line() {
    assert_eq!(parse_credit_command("please /credit check @user"), None);
    assert_eq!(parse_credit_command("/credit check @user trailing"), None);
    assert_eq!(parse_credit_command("/credit override @user 10 \"no sign\""), None);
    assert_eq!(parse_credit_command(""), None);
}

#[test]
fn test_parse_credit_check_command() {
    let comment = "/credit check @user123";
    let cmd = parse_credit_command(comment);
    assert!(matches!(cmd, Some(CreditCommand::Check { .. })));
    if let Some(CreditCommand::Check { username }) = cmd {
        assert_eq!(username, "user123");
    }
}

#[test]
fn test_parse_credit_override_command() {
    let comment = r#"/credit override @user123 +10 "good work""#;
    let cmd = parse_credit_command(comment);
    assert!(matches!(cmd, Some(CreditCommand::Override { .. })));
    if let Some(CreditCommand::Override { username, delta, reason }) = cmd {
        assert_eq!(username, "user123");
        assert_eq!(delta, 10);
        assert_eq!(reason, "good work");
    }
}

#[test]
fn test_parse_credit_override_negative() {
    let comment = r#"/credit override @spammer -25 "spam content""#;
    let cmd = parse_credit_command(comment);
    assert!(matches!(cmd, Some(CreditCommand::Override { .. })));
    if let Some(CreditCommand::Override { username, delta, reason }) = cmd {
        assert_eq!(username, "spammer");
        assert_eq!(delta, -25);
        assert_eq!(reason, "spam content");
    }
}

#[test]
fn test_parse_credit_blacklist_command() {
    let comment = "/credit blacklist @badactor";
    let cmd = parse_credit_command(comment);
    assert!(matches!(cmd, Some(CreditCommand::Blacklist { .. })));
    if let Some(CreditCommand::Blacklist { username }) = cmd {
        assert_eq!(username, "badactor");
    }
}

#[test]
fn test_credit_command_not_found() {
    let comment = "This is a regular comment without any credit command";
    let cmd = parse_credit_command(comment);
    assert!(cmd.is_none());
}

#[test]
fn test_credit_command_in_multiline_comment() {
    let comment = r#"Some discussion here

/credit check @user123

More discussion after the command"#;
    let cmd = parse_credit_command(comment);
    assert!(matches!(cmd, Some(CreditCommand::Check { .. })));
}

#[test]
fn command_tokens_may_span_line_breaks() {
    assert_eq!(
        parse_credit_command("/credit\ncheck @u"),
        Some(CreditCommand::Check { username: "u".to_string() })
    );
    assert_eq!(
        parse_credit_command("/credit check @u  \r\nnext line"),
        Some(CreditCommand::Check { username: "u".to_string() })
    );
    assert_eq!(
        parse_credit_command("/credit override @u +3 \"two\nlines\""),
        Some(CreditCommand::Override { username: "u".to_string(), delta: 3, reason: "two\nlines".to_string() })
    );
}
