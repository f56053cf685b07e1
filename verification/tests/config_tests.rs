use qotd_core::config::ConfigStore;
use qotd_core::config::MentionPolicy;

#[test]
fn unset_defaults() {
    let store = ConfigStore::new();
    assert_eq!(store.get_channel(1), None);
    assert_eq!(store.get_mention_policy(1), MentionPolicy::NoPing);
}

#[test]
fn set_and_get_channel() {
    let mut store = ConfigStore::new();
    assert!(store.set_channel(1, 42).is_ok());
    assert_eq!(store.get_channel(1), Some(42));
    assert_eq!(store.get_channel(2), None);
}

#[test]
fn set_channel_twice_is_idempotent() {
    let mut once = ConfigStore::new();
    assert!(once.set_channel(7, 99).is_ok());

    let mut twice = ConfigStore::new();
    assert!(twice.set_channel(7, 99).is_ok());
    assert!(twice.set_channel(7, 99).is_ok());

    assert_eq!(once.get_channel(7), twice.get_channel(7));
    assert_eq!(twice.get_channel(7), Some(99));
}

#[test]
fn upsert_replaces_channel() {
    let mut store = ConfigStore::new();
    assert!(store.set_channel(1, 10).is_ok());
    assert!(store.set_channel(1, 20).is_ok());
    assert_eq!(store.get_channel(1), Some(20));
}

#[test]
fn channel_is_per_community() {
    let mut store = ConfigStore::new();
    assert!(store.set_channel(1, 10).is_ok());
    assert!(store.set_channel(2, 20).is_ok());
    assert_eq!(store.get_channel(1), Some(10));
    assert_eq!(store.get_channel(2), Some(20));
}

#[test]
fn set_and_get_mention_policy() {
    let mut store = ConfigStore::new();
    assert!(store.set_mention_policy(1, MentionPolicy::Everyone).is_ok());
    assert_eq!(store.get_mention_policy(1), MentionPolicy::Everyone);
    assert!(store.set_mention_policy(1, MentionPolicy::Role(555)).is_ok());
    assert_eq!(store.get_mention_policy(1), MentionPolicy::Role(555));
    assert_eq!(store.get_mention_policy(2), MentionPolicy::NoPing);
}

#[test]
fn policy_does_not_disturb_channel() {
    let mut store = ConfigStore::new();
    assert!(store.set_channel(1, 10).is_ok());
    assert!(store.set_mention_policy(1, MentionPolicy::Role(5)).is_ok());
    assert_eq!(store.get_channel(1), Some(10));
    assert!(store.set_channel(1, 11).is_ok());
    assert_eq!(store.get_mention_policy(1), MentionPolicy::Role(5));
}
