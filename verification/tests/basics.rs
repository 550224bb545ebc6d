use supervisor::digest::{push_be_bytes, push_bytes};
use supervisor::error::{AppError, Details, ErrorCode};
use supervisor::ids::{
    after_id_lookup, generate_catalog_id, generate_profile_id, generate_run_id, id_from_bytes,
    CatalogEntity, IdStep,
};
use supervisor::table::Table;
use supervisor::text::{
    decimal, encode_lower_hex, encode_utf16, hex_digit, insert_sorted, join, lists, padded,
    same_text, sorted_copy, text_less,
};
use supervisor::timestamp::{
    advance_canonical_timestamp_one_nanosecond, catalog_days_in_month, civil_from_days,
    current_timestamp, next_canonical_timestamp, parse_canonical, timestamp_after,
    timestamp_for_system_time, UnixTime,
};

#[test]
fn numbers_are_written_in_decimal() {
    assert_eq!(decimal(0), "0");
    assert_eq!(decimal(10), "10");
    assert_eq!(decimal(u64::MAX), "18446744073709551615");
    assert_eq!(padded(7, 4), "0007");
    assert_eq!(padded(12345, 4), "12345");
    assert_eq!(hex_digit(11), "b");
}

#[test]
fn bytes_are_written_in_lower_case_hexadecimal() {
    assert_eq!(encode_lower_hex(&[0x00, 0xff, 0x1a]), "00ff1a");
    assert_eq!(encode_lower_hex(&[]), "");
}

#[test]
fn strings_stand_in_the_order_of_their_bytes() {
    assert!(text_less("a", "b"));
    assert!(text_less("a", "aa"));
    assert!(!text_less("aa", "a"));
    assert!(!text_less("a", "a"));
    assert!(text_less("Z", "a"));
    assert!(text_less("z", "ä"));
    assert!(same_text("é", "é"));
    assert_eq!(join("ab", "cd"), "abcd");
}

#[test]
fn a_sorted_list_takes_a_text_once() {
    let mut texts = vec![];
    for text in ["b", "a", "c", "a"] {
        insert_sorted(&mut texts, text);
    }
    assert_eq!(texts, vec!["a", "b", "c"]);
    assert!(lists(&texts, "c"));
    assert!(!lists(&texts, "d"));
    let copy = sorted_copy(&vec!["b".to_string(), "a".to_string(), "b".to_string()]);
    assert_eq!(copy, vec!["a", "b", "b"]);
}

#[test]
fn text_beyond_the_basic_plane_takes_two_units() {
    assert_eq!(encode_utf16("a"), vec![0x61]);
    assert_eq!(encode_utf16("\u{10437}"), vec![0xD801, 0xDC37]);
    assert_eq!(encode_utf16("x\u{1F9EA}é"), "x\u{1F9EA}é".encode_utf16().collect::<Vec<u16>>());
}

#[test]
fn numbers_are_written_with_the_highest_byte_first() {
    let mut out = vec![9];
    push_be_bytes(&mut out, 0x0102, 4);
    push_bytes(&mut out, &[5, 6]);
    assert_eq!(out, vec![9, 0, 0, 1, 2, 5, 6]);
}

#[test]
fn a_later_detail_passes_over_an_earlier_one() {
    let mut details = Details::new();
    details.insert("reason", "first");
    details.insert("reason", "second");
    assert_eq!(details.get("reason"), Some("second"));
    assert_eq!(details.get("other"), None);
    assert_eq!(details.entries().len(), 2);
}

#[test]
fn an_error_keeps_the_operation_that_met_it_first() {
    let error = AppError::new(ErrorCode::Conflict, "busy").attach_operation_id("one");
    let error = error.attach_operation_id("two");
    assert_eq!(error.operation_id.as_deref(), Some("one"));
    let error = error.bind_operation_id("three");
    assert_eq!(error.operation_id.as_deref(), Some("three"));
    assert!(!error.retryable);
    assert!(error.copy().as_retryable().retryable);
}

#[test]
fn a_table_holds_one_value_for_a_name() {
    let mut table: Table<u64> = Table::new();
    table.insert("a", 1);
    table.insert("b", 2);
    table.insert("a", 3);
    assert_eq!(table.len(), 2);
    assert_eq!(table.get("a"), Some(&3));
    assert!(table.contains("b"));
    assert_eq!(table.remove("a"), Some(3));
    assert_eq!(table.remove("a"), None);
    assert_eq!(table.len(), 1);
}

#[test]
fn ids_are_a_prefix_and_sixteen_bytes() {
    assert_eq!(id_from_bytes("run-", &[0xab; 16]), format!("run-{}", "ab".repeat(16)));
    let first = generate_run_id().unwrap();
    let second = generate_run_id().unwrap();
    assert_ne!(first, second);
    assert_eq!(first.len(), 4 + 32);
    assert!(first.starts_with("run-"));
    assert!(generate_profile_id().unwrap().starts_with("profile-"));
    assert!(generate_catalog_id(CatalogEntity::Project).unwrap().starts_with("project-"));
    assert!(generate_catalog_id(CatalogEntity::ClassificationRule).unwrap().starts_with("rule-"));
}

#[test]
fn an_id_is_free_where_nothing_is_found() {
    let missing = AppError::new(ErrorCode::NotFound, "none");
    assert!(matches!(after_id_lookup(CatalogEntity::Project, 3, Err(missing)), IdStep::Use));
    assert!(matches!(after_id_lookup(CatalogEntity::Project, 3, Ok(())), IdStep::Retry));
    match after_id_lookup(CatalogEntity::LaunchProfile, 0, Ok(())) {
        IdStep::Fail(error) => {
            assert_eq!(error.message, "failed to allocate a unique launch profile ID");
            assert!(error.retryable);
        }
        other => panic!("{other:?}"),
    }
    let broken = AppError::new(ErrorCode::StorageError, "broken");
    assert!(matches!(after_id_lookup(CatalogEntity::Project, 3, Err(broken)), IdStep::Fail(_)));
}

#[test]
fn the_clock_is_written_to_the_nanosecond() {
    let time = UnixTime { seconds: 1_709_210_096, nanoseconds: 7 };
    assert_eq!(
        timestamp_for_system_time(Some(time)).unwrap(),
        "2024-02-29T12:34:56.000000007Z"
    );
    let epoch = UnixTime { seconds: 0, nanoseconds: 0 };
    assert_eq!(timestamp_for_system_time(Some(epoch)).unwrap(), "1970-01-01T00:00:00.000000000Z");
    let error = timestamp_for_system_time(None).unwrap_err();
    assert_eq!(error.message, "system clock is before Unix epoch");
}

#[test]
fn dates_follow_the_calendar() {
    assert_eq!(civil_from_days(0), Some((1970, 1, 1)));
    assert_eq!(civil_from_days(19_782), Some((2024, 2, 29)));
    assert_eq!(civil_from_days(-1), Some((1969, 12, 31)));
    assert!(civil_from_days(i64::MAX - 719_468).is_some());
    assert_eq!(civil_from_days(i64::MAX - 719_467), None);
    assert_eq!(catalog_days_in_month(2024, 2), 29);
    assert_eq!(catalog_days_in_month(1900, 2), 28);
    assert_eq!(catalog_days_in_month(2000, 2), 29);
    assert_eq!(catalog_days_in_month(2023, 11), 30);
}

#[test]
fn the_next_instant_is_one_nanosecond_later() {
    assert_eq!(
        advance_canonical_timestamp_one_nanosecond("2024-02-28T23:59:59.999999999Z").unwrap(),
        "2024-02-29T00:00:00.000000000Z"
    );
    assert_eq!(
        advance_canonical_timestamp_one_nanosecond("2023-12-31T23:59:59.999999999Z").unwrap(),
        "2024-01-01T00:00:00.000000000Z"
    );
    let last = "9999-12-31T23:59:59.999999999Z";
    let error = advance_canonical_timestamp_one_nanosecond(last).unwrap_err();
    assert_eq!(error.message, "catalog timestamp exceeds the supported range");
}

#[test]
fn only_canonical_timestamps_are_read() {
    assert!(parse_canonical("2024-02-29T12:34:56.000000007Z").is_some());
    assert!(parse_canonical("2023-02-29T12:34:56.000000007Z").is_none());
    assert!(parse_canonical("2024-02-29T12:34:56Z").is_none());
    assert!(parse_canonical("2024-02-29T24:00:00.000000000Z").is_none());
}

#[test]
fn a_change_is_always_later() {
    let stored = "2024-01-01T00:00:00.000000000Z";
    let later = "2024-01-01T00:00:01.000000000Z".to_string();
    assert_eq!(timestamp_after(Some(stored), Ok(later.clone())).unwrap(), later);
    let earlier = "2023-01-01T00:00:00.000000000Z".to_string();
    assert_eq!(
        timestamp_after(Some(stored), Ok(earlier)).unwrap(),
        "2024-01-01T00:00:00.000000001Z"
    );
    let error = timestamp_after(Some("yesterday"), Ok(later)).unwrap_err();
    assert_eq!(error.code, ErrorCode::InvalidArgument);
}

#[test]
fn the_machine_clock_is_after_the_year_2020() {
    let now = current_timestamp().unwrap();
    assert!(now.as_str() > "2020");
    assert!(parse_canonical(&now).is_some());
    let next = next_canonical_timestamp(Some("9999-01-01T00:00:00.000000000Z")).unwrap();
    assert_eq!(next, "9999-01-01T00:00:00.000000001Z");
}
