//! End-to-end behaviour of the archival coordinator and the renderer.

use ripcord::archive::Archive;
use ripcord::archive::WindowMessage;
use ripcord::render::AuthorDisplay;
use ripcord::ArchiveError;
use ripcord::ConsentState;

fn msg(
    message_id: u64,
    author_id: u64,
    name: Option<&str>,
    content: &str,
    ts: i64,
) -> WindowMessage {
    WindowMessage {
        message_id,
        author_id,
        author_name: name.map(|s| s.to_string()),
        author_automated: false,
        content: content.to_string(),
        timestamp_ms: ts,
    }
}

/// Community 42 with users {1: opted_in, 2: pending}.
fn setup() -> Archive {
    let mut a = Archive::new();
    a.register_community(42, "testers".to_string(), None);
    a.register_user(1, false);
    a.set_user_consent(1, ConsentState::OptedIn).unwrap();
    a.register_user(2, false);
    a
}

fn three_messages() -> Vec<WindowMessage> {
    vec![
        msg(101, 1, Some("alice"), "hi", 1000),
        msg(102, 2, Some("bob"), "yo", 2000),
        msg(103, 1, Some("alice"), "bye", 3000),
    ]
}

#[test]
fn register_is_idempotent() {
    let mut a = Archive::new();
    assert!(a.register_user(7, false));
    assert_eq!(a.user_consent(7), Ok(ConsentState::Pending));
    a.set_user_consent(7, ConsentState::OptedIn).unwrap();
    assert!(!a.register_user(7, true));
    assert_eq!(a.user_consent(7), Ok(ConsentState::OptedIn));
}

#[test]
fn automated_accounts_start_opted_in() {
    let mut a = Archive::new();
    assert!(a.register_user(9, true));
    assert_eq!(a.user_consent(9), Ok(ConsentState::OptedIn));
}

#[test]
fn pending_author_does_not_block_archive() {
    let mut a = setup();
    let id = a.archive(42, &three_messages(), "").unwrap();
    assert_eq!(id, 1);
    assert_eq!(a.message_count(), 3);
    assert_eq!(a.conversation_count(), 1);

    let rc = a.render(1).unwrap();
    assert_eq!(rc.community_name, "testers");
    assert_eq!(rc.messages.len(), 3);
    let contents: Vec<&str> = rc.messages.iter().map(|m| m.content.as_str()).collect();
    assert_eq!(contents, vec!["hi", "yo", "bye"]);
    // The pending author's real stored name shows: anonymization triggers
    // only on an absent stored name, not on consent state.
    match &rc.messages[1].author {
        AuthorDisplay::Named { name, .. } => assert_eq!(name, "bob"),
        AuthorDisplay::Anonymous { .. } => panic!("pending author must not be anonymized"),
    }
}

#[test]
fn opted_out_author_blocks_archive_without_trace() {
    let mut a = setup();
    a.set_user_consent(2, ConsentState::OptedOut).unwrap();
    let msgs_before = a.message_count();
    let convs_before = a.conversation_count();

    let r = a.archive(42, &three_messages(), "");
    assert_eq!(r, Err(ArchiveError::ConsentDenied(2)));
    assert_eq!(a.message_count(), msgs_before);
    assert_eq!(a.message_count(), 0);
    assert_eq!(a.conversation_count(), convs_before);
    assert_eq!(a.render(1), Err(ArchiveError::NotFound));
}

#[test]
fn first_opted_out_author_in_window_order_is_reported() {
    let mut a = setup();
    a.register_user(3, false);
    a.set_user_consent(2, ConsentState::OptedOut).unwrap();
    a.set_user_consent(3, ConsentState::OptedOut).unwrap();
    let w = vec![
        msg(201, 3, Some("carol"), "first", 1),
        msg(202, 2, Some("bob"), "second", 2),
    ];
    assert_eq!(a.archive(42, &w, ""), Err(ArchiveError::ConsentDenied(3)));
}

#[test]
fn unseen_authors_are_registered_pending_by_archival() {
    let mut a = setup();
    let w = vec![msg(301, 77, Some("dave"), "hello", 1)];
    a.archive(42, &w, "").unwrap();
    assert_eq!(a.user_consent(77), Ok(ConsentState::Pending));
}

#[test]
fn empty_window_is_rejected() {
    let mut a = setup();
    let w: Vec<WindowMessage> = Vec::new();
    assert_eq!(a.archive(42, &w, ""), Err(ArchiveError::InvalidWindow));
    assert_eq!(a.conversation_count(), 0);
}

#[test]
fn oversized_window_is_rejected() {
    let mut a = setup();
    let mut w = Vec::new();
    for i in 0..256u64 {
        w.push(msg(1000 + i, 1, Some("alice"), "spam", i as i64));
    }
    assert_eq!(a.archive(42, &w, ""), Err(ArchiveError::InvalidWindow));
    assert_eq!(a.message_count(), 0);
}

#[test]
fn overlapping_windows_deduplicate_messages() {
    let mut a = setup();
    a.archive(42, &three_messages(), "").unwrap();
    let id = a.archive(42, &three_messages(), "").unwrap();
    assert_eq!(id, 2);
    assert_eq!(a.message_count(), 3);
    assert_eq!(a.conversation_count(), 2);
    assert_eq!(a.render(2).unwrap().messages.len(), 3);
}

#[test]
fn render_is_deterministic_and_restarts_anon_numbering() {
    let mut a = setup();
    let w = vec![
        msg(401, 1, Some("alice"), "one", 1),
        msg(402, 2, None, "two", 2),
        msg(403, 2, None, "three", 3),
    ];
    a.archive(42, &w, "").unwrap();

    let r1 = a.render(1).unwrap();
    let r2 = a.render(1).unwrap();
    assert_eq!(r1.messages.len(), r2.messages.len());
    for (m1, m2) in r1.messages.iter().zip(r2.messages.iter()) {
        match (&m1.author, &m2.author) {
            (
                AuthorDisplay::Named { name: n1, color: c1, hue_shift: h1 },
                AuthorDisplay::Named { name: n2, color: c2, hue_shift: h2 },
            ) => {
                assert_eq!(n1, n2);
                assert_eq!(c1.as_bytes(), c2.as_bytes());
                assert_eq!(h1, h2);
                assert_eq!(c1.len(), 6);
            }
            (
                AuthorDisplay::Anonymous { ordinal: o1 },
                AuthorDisplay::Anonymous { ordinal: o2 },
            ) => assert_eq!(o1, o2),
            _ => panic!("author kinds differ between renders"),
        }
    }
    let ordinals = |rc: &ripcord::render::RenderedConversation| -> Vec<u64> {
        rc.messages
            .iter()
            .filter_map(|m| match &m.author {
                AuthorDisplay::Anonymous { ordinal } => Some(*ordinal),
                AuthorDisplay::Named { .. } => None,
            })
            .collect()
    };
    assert_eq!(ordinals(&r1), vec![1, 2]);
    assert_eq!(ordinals(&r2), vec![1, 2]);
}

#[test]
fn same_name_gets_same_color_across_messages() {
    let mut a = setup();
    let w = vec![
        msg(501, 1, Some("alice"), "x", 1),
        msg(502, 2, Some("bob"), "y", 2),
        msg(503, 1, Some("alice"), "z", 3),
    ];
    a.archive(42, &w, "").unwrap();
    let rc = a.render(1).unwrap();
    let color_of = |i: usize| -> String {
        match &rc.messages[i].author {
            AuthorDisplay::Named { color, .. } => color.clone(),
            AuthorDisplay::Anonymous { .. } => panic!("expected a named author"),
        }
    };
    assert_eq!(color_of(0), color_of(2));
    assert_ne!(color_of(0), color_of(1));
}

#[test]
fn space_delimited_tags_round_trip() {
    let mut a = setup();
    let w = vec![msg(601, 1, Some("alice"), "quip", 1)];
    a.archive(42, &w, "funny serious").unwrap();
    let rc = a.render(1).unwrap();
    assert!(rc.tags.iter().any(|t| t == "funny"));
    assert!(rc.tags.iter().any(|t| t == "serious"));
    assert_eq!(rc.tags, vec!["funny", "serious"]);
}

#[test]
fn conversation_tags_precede_community_tags() {
    let mut a = setup();
    a.set_community_tags(42, "games,casual").unwrap();
    let w = vec![msg(701, 1, Some("alice"), "gg", 1)];
    a.archive(42, &w, "funny").unwrap();
    let rc = a.render(1).unwrap();
    assert_eq!(rc.tags, vec!["funny", "games", "casual"]);
}

#[test]
fn empty_tags_are_stored_as_absent() {
    let mut a = setup();
    let w = vec![msg(801, 1, Some("alice"), "silence", 1)];
    a.archive(42, &w, "").unwrap();
    let rc = a.render(1).unwrap();
    assert!(rc.tags.is_empty());
}

#[test]
fn render_unknown_conversation_is_not_found() {
    let a = setup();
    assert_eq!(a.render(0), Err(ArchiveError::NotFound));
    assert_eq!(a.render(1), Err(ArchiveError::NotFound));
    assert_eq!(a.render(u64::MAX), Err(ArchiveError::NotFound));
}

#[test]
fn render_of_unregistered_community_is_storage_failure() {
    let mut a = Archive::new();
    a.register_user(1, false);
    a.set_user_consent(1, ConsentState::OptedIn).unwrap();
    let w = vec![msg(901, 1, Some("alice"), "lost", 1)];
    a.archive(7, &w, "").unwrap();
    assert_eq!(a.render(1), Err(ArchiveError::StorageFailure));
}

#[test]
fn consent_queries_on_unknown_users_fail() {
    let mut a = Archive::new();
    assert_eq!(a.user_consent(5), Err(ArchiveError::NotFound));
    assert_eq!(
        a.set_user_consent(5, ConsentState::OptedIn),
        Err(ArchiveError::NotFound)
    );
    assert_eq!(a.set_community_tags(5, "x"), Err(ArchiveError::NotFound));
}
