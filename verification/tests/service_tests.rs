use augmcp::indexer::Aliases;
use augmcp::service::{resolve_target, retrieval_reply, search_path, SearchArgs, ServiceError};

#[test]
fn resolve_target_requires_a_path_or_an_alias() {
    let mut aliases = Aliases::new();
    let r = resolve_target(&mut aliases, None, None);
    assert!(matches!(r, Err(ServiceError::NoTarget)));
}

#[test]
fn resolve_target_rejects_an_unbound_alias() {
    let mut aliases = Aliases::new();
    let r = resolve_target(&mut aliases, Some("work".to_string()), None);
    assert!(matches!(r, Err(ServiceError::AliasNotFound)));
}

#[test]
fn resolve_target_normalizes_a_given_path() {
    let mut aliases = Aliases::new();
    let (key, path) = resolve_target(&mut aliases, None, Some("/".to_string())).unwrap();
    assert_eq!(path, "/");
    assert!(!key.contains('\\'));
    assert!(aliases.resolve(&"anything".to_string()).is_none());
}

#[test]
fn resolve_target_reports_an_unresolvable_path() {
    let mut aliases = Aliases::new();
    let r = resolve_target(&mut aliases, None, Some("/no/such/path/here".to_string()));
    assert!(matches!(r, Err(ServiceError::Path(_))));
}

#[test]
fn resolve_target_binds_an_alias_to_the_normalized_path() {
    let mut aliases = Aliases::new();
    let (key, path) =
        resolve_target(&mut aliases, Some("rootfs".to_string()), Some("/".to_string())).unwrap();
    assert_eq!(path, "/");
    assert_eq!(aliases.resolve(&"rootfs".to_string()).unwrap(), key);
    // and the bound alias resolves on its own afterwards
    let (key2, path2) = resolve_target(&mut aliases, Some("rootfs".to_string()), None).unwrap();
    assert_eq!(path2, key);
    assert_eq!(key2, key);
}

#[test]
fn search_path_prefers_the_alias() {
    let mut aliases = Aliases::new();
    aliases.set("work".to_string(), "/srv/project".to_string());
    let by_alias = SearchArgs {
        project_root_path: Some("/elsewhere".to_string()),
        alias: Some("work".to_string()),
        skip_index_if_indexed: None,
        query: "hello".to_string(),
    };
    assert_eq!(search_path(&aliases, &by_alias).unwrap(), "/srv/project");

    let unknown_alias = SearchArgs {
        project_root_path: Some("/elsewhere".to_string()),
        alias: Some("other".to_string()),
        skip_index_if_indexed: None,
        query: "hello".to_string(),
    };
    assert!(search_path(&aliases, &unknown_alias).is_none());

    let by_path = SearchArgs {
        project_root_path: Some("/elsewhere".to_string()),
        alias: None,
        skip_index_if_indexed: None,
        query: "hello".to_string(),
    };
    assert_eq!(search_path(&aliases, &by_path).unwrap(), "/elsewhere");

    let neither = SearchArgs {
        project_root_path: None,
        alias: None,
        skip_index_if_indexed: None,
        query: "hello".to_string(),
    };
    assert!(search_path(&aliases, &neither).is_none());
}

#[test]
fn retrieval_reply_passes_text_through_and_covers_blank_responses() {
    let ans = retrieval_reply("OK: hello".to_string());
    assert!(ans.starts_with("OK: hello"));
    assert_eq!(
        retrieval_reply("  \n\t ".to_string()),
        "No relevant code context found for your query."
    );
    assert_eq!(
        retrieval_reply(String::new()),
        "No relevant code context found for your query."
    );
}

#[test]
fn retrieval_reply_treats_all_unicode_whitespace_as_blank() {
    // replies that trim to nothing: form feed, vertical tab, no-break and
    // ideographic spaces, line separator
    for blank in ["\u{000C}", "\u{000B}", "\u{00A0}\u{3000}", "\u{2028} \u{2009}"] {
        assert!(blank.trim().is_empty());
        assert_eq!(
            retrieval_reply(blank.to_string()),
            "No relevant code context found for your query."
        );
    }
    // a non-whitespace character anywhere keeps the reply verbatim
    assert_eq!(retrieval_reply("\u{000C}x".to_string()), "\u{000C}x");
}
