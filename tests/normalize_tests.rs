use campus_api::models::ChatMessage;
use campus_api::normalize::trim_messages;

fn msg(role: &str, content: &str) -> ChatMessage {
    ChatMessage { role: role.to_string(), content: content.to_string() }
}

fn pairs(v: &[ChatMessage]) -> Vec<(String, String)> {
    v.iter().map(|m| (m.role.clone(), m.content.clone())).collect()
}

#[test]
fn system_prompt_comes_first() {
    let out = trim_messages(vec![msg("user", "hello")], 100, "be precise");
    assert_eq!(
        pairs(&out),
        vec![("system".to_string(), "be precise".to_string()), ("user".to_string(), "hello".to_string())]
    );
}

#[test]
fn empty_input_gives_only_system() {
    let out = trim_messages(vec![], 100, "p");
    assert_eq!(pairs(&out), vec![("system".to_string(), "p".to_string())]);
}

#[test]
fn blank_messages_dropped_and_roles_defaulted() {
    let out = trim_messages(
        vec![msg("", "first"), msg("assistant", "   \n\t"), msg("assistant", "second")],
        100,
        "p",
    );
    assert_eq!(
        pairs(&out),
        vec![
            ("system".to_string(), "p".to_string()),
            ("user".to_string(), "first".to_string()),
            ("assistant".to_string(), "second".to_string()),
        ]
    );
}

#[test]
fn reinserting_blank_messages_changes_nothing() {
    let base = vec![msg("user", "a"), msg("assistant", "b"), msg("user", "c")];
    let with_blanks = vec![
        msg("user", " "),
        msg("user", "a"),
        msg("", ""),
        msg("assistant", "b"),
        msg("user", "c"),
        msg("system", "\n"),
    ];
    assert_eq!(pairs(&trim_messages(base, 2, "p")), pairs(&trim_messages(with_blanks, 2, "p")));
}

#[test]
fn budget_keeps_newest_messages() {
    let out = trim_messages(vec![msg("user", "aaaa"), msg("user", "bbb"), msg("user", "cc")], 5, "p");
    assert_eq!(
        pairs(&out),
        vec![
            ("system".to_string(), "p".to_string()),
            ("user".to_string(), "bbb".to_string()),
            ("user".to_string(), "cc".to_string()),
        ]
    );
}

#[test]
fn stops_at_first_message_crossing_budget() {
    let out = trim_messages(vec![msg("user", "a"), msg("user", "bbbbbb"), msg("user", "cc")], 5, "p");
    assert_eq!(pairs(&out), vec![("system".to_string(), "p".to_string()), ("user".to_string(), "cc".to_string())]);
}

#[test]
fn single_oversized_message_leaves_only_system() {
    let out = trim_messages(vec![msg("user", "abcdef")], 5, "p");
    assert_eq!(pairs(&out), vec![("system".to_string(), "p".to_string())]);
}

#[test]
fn budget_counts_utf8_bytes() {
    let out = trim_messages(vec![msg("user", "ééé")], 5, "p");
    assert_eq!(out.len(), 1);
    let out = trim_messages(vec![msg("user", "ééé")], 6, "p");
    assert_eq!(out.len(), 2);
}
