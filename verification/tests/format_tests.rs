use qotd_core::config::ConfigStore;
use qotd_core::config::MentionPolicy;
use qotd_core::format::format_for_pings;
use qotd_core::format::policy_display;

#[test]
fn no_ping_leaves_body_unchanged() {
    let text = format_for_pings(MentionPolicy::NoPing, "What is the answer?");
    assert_eq!(text.as_str(), "What is the answer?");
}

#[test]
fn everyone_prefixes_everyone() {
    let text = format_for_pings(MentionPolicy::Everyone, "What is the answer?");
    assert_eq!(text.as_str(), "@everyone What is the answer?");
}

#[test]
fn role_prefixes_role_mention() {
    let text = format_for_pings(MentionPolicy::Role(555), "Hello");
    assert_eq!(text.as_str(), "<@&555> Hello");
}

#[test]
fn stored_role_feeds_the_formatter() {
    let mut store = ConfigStore::new();
    assert!(store.set_mention_policy(1, MentionPolicy::Role(555)).is_ok());
    let policy = store.get_mention_policy(1);
    assert_eq!(policy, MentionPolicy::Role(555));
    let text = format_for_pings(policy, "Hello");
    assert!(text.contains("<@&555>"));
    assert!(text.ends_with("Hello"));
    assert_eq!(text.as_str(), "<@&555> Hello");
}

#[test]
fn policy_display_forms() {
    assert_eq!(policy_display(MentionPolicy::NoPing).as_str(), "0");
    assert_eq!(policy_display(MentionPolicy::Everyone).as_str(), "1");
    assert_eq!(policy_display(MentionPolicy::Role(12)).as_str(), "<@&12>");
}
