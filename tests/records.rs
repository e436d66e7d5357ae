use dyndnsd::records::{find_record, first_zone, RecordEntry, RecordKind};

fn entry(id: &str, kind: RecordKind) -> RecordEntry {
    RecordEntry { id: id.to_string(), kind }
}

#[test]
fn first_record_of_the_type_is_taken() {
    let records = vec![
        entry("mx1", RecordKind::Mx),
        entry("abc", RecordKind::A),
        entry("six", RecordKind::Aaaa),
        entry("def", RecordKind::A),
    ];
    assert_eq!(find_record(&records, RecordKind::A), Some("abc".to_string()));
    assert_eq!(find_record(&records, RecordKind::Aaaa), Some("six".to_string()));
}

#[test]
fn missing_record_type_is_none() {
    let records = vec![entry("abc", RecordKind::A)];
    assert_eq!(find_record(&records, RecordKind::Aaaa), None);
    assert_eq!(find_record(&Vec::new(), RecordKind::A), None);
}

#[test]
fn first_zone_or_none() {
    assert_eq!(first_zone(&vec!["z1".to_string(), "z2".to_string()]), Some("z1".to_string()));
    assert_eq!(first_zone(&Vec::new()), None);
}
