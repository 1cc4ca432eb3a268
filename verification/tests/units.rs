//! Unit behaviour of the registries, the store, the codecs, and the colors.

use ripcord::codec::decode_message_ids;
use ripcord::codec::encode_message_ids;
use ripcord::codec::fmt_u64;
use ripcord::codec::normalize_tags;
use ripcord::codec::split_tags;
use ripcord::colors::color_hex_of;
use ripcord::colors::hue_shift_of;
use ripcord::colors::name_hash_of;
use ripcord::consent::ConsentRegistry;
use ripcord::directory::DirectoryRegistry;
use ripcord::store::MessageRecord;
use ripcord::store::MessageStore;
use ripcord::ArchiveError;
use ripcord::ConsentState;

fn rec(message_id: u64, community_id: u64) -> MessageRecord {
    MessageRecord {
        message_id,
        community_id,
        author_name: Some("someone".to_string()),
        author_automated: false,
        content: "text".to_string(),
        timestamp_ms: 0,
    }
}

#[test]
fn consent_registry_transitions() {
    let mut c = ConsentRegistry::new();
    assert_eq!(c.get(3), Err(ArchiveError::NotFound));
    assert_eq!(
        c.set_consent(3, ConsentState::OptedIn),
        Err(ArchiveError::NotFound)
    );
    assert!(c.register(3, false));
    assert_eq!(c.get(3), Ok(ConsentState::Pending));
    c.set_consent(3, ConsentState::OptedOut).unwrap();
    assert_eq!(c.get(3), Ok(ConsentState::OptedOut));
    assert!(!c.register(3, true));
    assert_eq!(c.get(3), Ok(ConsentState::OptedOut));
}

#[test]
fn directory_register_is_insert_or_ignore() {
    let mut d = DirectoryRegistry::new();
    assert!(d.register(42, "first".to_string(), None));
    assert!(!d.register(42, "second".to_string(), None));
    assert_eq!(d.lookup(42).unwrap().name, "first");
    assert!(d.lookup(9).is_none());
    assert!(d.get_tags(42).is_empty());
    d.set_tags(42, "a,b").unwrap();
    assert_eq!(d.get_tags(42), vec!["a", "b"]);
    d.set_tags(42, "").unwrap();
    assert!(d.get_tags(42).is_empty());
}

#[test]
fn store_deduplicates_by_message_and_community() {
    let mut s = MessageStore::new();
    s.stage(rec(1, 42));
    s.stage(rec(1, 42));
    s.stage(rec(1, 43));
    assert_eq!(s.row_count(), 2);
    assert!(s.contains(1, 42));
    assert!(!s.contains(2, 42));
    assert!(s.get(1, 42).is_ok());
    assert_eq!(s.get(9, 42).err(), Some(ArchiveError::NotFound));
}

#[test]
fn formats_decimal() {
    assert_eq!(fmt_u64(0), "0");
    assert_eq!(fmt_u64(7), "7");
    assert_eq!(fmt_u64(1024), "1024");
    assert_eq!(fmt_u64(u64::MAX), "18446744073709551615");
}

#[test]
fn encodes_with_trailing_separator() {
    assert_eq!(encode_message_ids(&vec![1, 22, 333]), "1,22,333,");
    assert_eq!(encode_message_ids(&Vec::new()), "");
}

#[test]
fn decode_round_trips() {
    let ids: Vec<u64> = vec![5, 10, 18446744073709551615];
    let s = encode_message_ids(&ids);
    assert_eq!(decode_message_ids(&s), Some(ids));
}

#[test]
fn decode_tolerates_trailing_separator() {
    assert_eq!(decode_message_ids("1,2,3"), Some(vec![1, 2, 3]));
    assert_eq!(decode_message_ids("1,2,3,"), Some(vec![1, 2, 3]));
    assert_eq!(decode_message_ids(""), Some(Vec::new()));
}

#[test]
fn decode_rejects_garbage() {
    assert_eq!(decode_message_ids("12,x"), None);
    assert_eq!(decode_message_ids("18446744073709551616,"), None);
}

#[test]
fn normalizes_tag_input() {
    assert_eq!(
        normalize_tags("funny serious"),
        Some("funny,serious".to_string())
    );
    assert_eq!(normalize_tags("solo"), Some("solo".to_string()));
    assert_eq!(normalize_tags(""), None);
}

#[test]
fn splits_tags() {
    assert_eq!(split_tags("funny,serious"), vec!["funny", "serious"]);
    assert_eq!(split_tags("solo"), vec!["solo"]);
}

#[test]
fn color_code_is_low_hex_digits() {
    assert_eq!(color_hex_of(0x123456), "123456");
    assert_eq!(color_hex_of(0xABCDEF123456), "123456");
    assert_eq!(color_hex_of(0), "000000");
    assert_eq!(color_hex_of(0xffffff), "ffffff");
}

#[test]
fn hue_shift_is_byte_above_color_bits() {
    assert_eq!(hue_shift_of(0xAB000000), 0xAB);
    assert_eq!(hue_shift_of(0x123456), 0);
    assert_eq!(hue_shift_of(u64::MAX), 0xFF);
}

#[test]
fn name_hash_matches_its_formula() {
    assert_eq!(name_hash_of(""), 0xcbf29ce484222325);
    let expected = (0xcbf29ce484222325u64 ^ 0x61).wrapping_mul(0x100000001b3);
    assert_eq!(name_hash_of("a"), expected);
    assert_eq!(name_hash_of("alice"), name_hash_of("alice"));
    assert_ne!(name_hash_of("alice"), name_hash_of("bob"));
}
