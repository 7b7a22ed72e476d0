use authcore::metadata::domain::Metadata;
use chrono::Utc;

#[test]
fn metadata_new_should_not_fail() {
    let before = Utc::now().naive_utc();
    let meta = Metadata::new();
    let after = Utc::now().naive_utc();

    assert_eq!(meta.id, 0);
    assert!(meta.created_at >= before && meta.created_at <= after);
    assert!(meta.updated_at >= before && meta.updated_at <= after);
}

#[test]
fn metadata_touch_changes_the_update_only() {
    let mut meta = Metadata::new();
    meta.id = 999;
    let created = meta.created_at;
    let before = Utc::now().naive_utc();
    meta.touch();
    let after = Utc::now().naive_utc();
    assert_eq!(meta.get_id(), 999);
    assert_eq!(meta.created_at, created);
    assert!(meta.deleted_at.is_none());
    assert!(meta.updated_at >= before && meta.updated_at <= after);
}

#[test]
fn metadata_at_holds_the_times_given() {
    let created = Utc::now().naive_utc();
    let updated = Utc::now().naive_utc();
    let mut meta = Metadata::at(created, updated);
    assert_eq!(meta.id, 0);
    assert_eq!(meta.created_at, created);
    assert_eq!(meta.updated_at, updated);
    meta.touch_at(created);
    assert_eq!(meta.updated_at, created);
}
