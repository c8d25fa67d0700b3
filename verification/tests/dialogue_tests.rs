use aftiktuna::dialogue::{TextResolutionContext, setup_context};

#[test]
fn resolve() {
    let context = setup_context(
        Some("foo".to_owned()),
        "the speaker".to_owned(),
        "the target".to_owned(),
        Some("bar".to_owned()),
        None,
    );

    assert_eq!(context.resolve("a {name} b {crew_loss_memory_name}"), "a foo b bar");
    assert_eq!(context.resolve("{unknown}"), "???");
}

#[test]
fn resolve_missing_values_read_unknown() {
    let context = setup_context(None, "Mint".to_owned(), "the goblin".to_owned(), None, None);
    assert_eq!(context.resolve("{name} and {reward}"), "??? and ???");
    assert_eq!(context.resolve("{the_speaker} greets {the_target}."), "Mint greets the goblin.");
}

#[test]
fn resolve_later_binding_wins() {
    let mut context = TextResolutionContext::new();
    context.add_resolver("key", "first".to_owned());
    context.add_resolver("key", "second".to_owned());
    assert_eq!(context.resolve("<{key}>"), "<second>");
}

#[test]
fn resolve_unclosed_brace_is_kept() {
    let mut context = TextResolutionContext::new();
    context.add_resolver("a", "x".to_owned());
    assert_eq!(context.resolve("{a} {b"), "x {b");
    assert_eq!(context.resolve("plain text"), "plain text");
    assert_eq!(context.resolve(""), "");
}
