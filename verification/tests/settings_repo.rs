use my_rss_feeder::db::settings_repo::{get_notification_settings, save_notification_settings};
use my_rss_feeder::db::Database;
use my_rss_feeder::models::NotificationSettings;

fn setup_db() -> Database {
    Database::new()
}

#[test]
fn returns_default_when_no_settings_exist() {
    let db = setup_db();
    let settings = get_notification_settings(&db).unwrap();
    assert!(!settings.enabled);
    assert_eq!(settings.time, "10:00");
}

#[test]
fn saves_and_loads_settings() {
    let mut db = setup_db();

    let settings = NotificationSettings { enabled: true, time: "08:30".to_string() };
    save_notification_settings(&mut db, &settings).unwrap();

    let loaded = get_notification_settings(&db).unwrap();
    assert!(loaded.enabled);
    assert_eq!(loaded.time, "08:30");
}

#[test]
fn overwrites_existing_settings() {
    let mut db = setup_db();

    let settings1 = NotificationSettings { enabled: true, time: "08:30".to_string() };
    save_notification_settings(&mut db, &settings1).unwrap();

    let settings2 = NotificationSettings { enabled: false, time: "22:00".to_string() };
    save_notification_settings(&mut db, &settings2).unwrap();

    let loaded = get_notification_settings(&db).unwrap();
    assert!(!loaded.enabled);
    assert_eq!(loaded.time, "22:00");
}
