//! Reads and writes of the settings table.

use vstd::prelude::*;

use crate::db::{find_setting, has_setting, setting_at, setting_value, Database, Setting};
use crate::error::AppError;
use crate::models::NotificationSettings;
use crate::text::str_eq;

verus! {

/// The key under which the reminder's switch is stored.
pub open spec fn enabled_key() -> Seq<char> {
    "notification_enabled"@
}

/// The key under which the reminder's time of day is stored.
pub open spec fn time_key() -> Seq<char> {
    "notification_time"@
}

/// The text stored for a switch.
pub open spec fn bool_text(b: bool) -> Seq<char> {
    if b {
        "true"@
    } else {
        "false"@
    }
}

/// The reminder settings that `settings` holds: the switch is on only where
/// its stored text is "true"; what is missing takes its default (off, "10:00").
pub open spec fn loaded_settings(settings: Seq<Setting>) -> (bool, Seq<char>) {
    (
        match setting_value(settings, enabled_key()) {
            Some(v) => v == "true"@,
            None => false,
        },
        match setting_value(settings, time_key()) {
            Some(t) => t,
            None => "10:00"@,
        },
    )
}

/// With unique keys, the value under the key of row `i` is that of row `i`.
pub proof fn lemma_setting_value(settings: Seq<Setting>, key: Seq<char>, i: int)
    requires
        setting_at(settings, key, i),
        forall|x: int, y: int| 0 <= x < y < settings.len() ==> settings[x].key@ != settings[y].key@,
    ensures
        setting_value(settings, key) == Some(settings[i].value@),
{
    let c = choose|k: int| setting_at(settings, key, k);
    assert(setting_at(settings, key, c));
    if c < i {
        assert(settings[c].key@ != settings[i].key@);
    } else if c > i {
        assert(settings[i].key@ != settings[c].key@);
    }
}

/// Stores `value` under `key`, replacing what was there.
pub fn set_setting(db: &mut Database, key: &str, value: &str)
    requires
        old(db).wf(),
    ensures
        final(db).wf(),
        final(db).feeds@ == old(db).feeds@,
        final(db).articles@ == old(db).articles@,
        setting_value(final(db).settings@, key@) == Some(value@),
        forall|k: Seq<char>|
            k != key@ ==> #[trigger] setting_value(final(db).settings@, k) == setting_value(
                old(db).settings@,
                k,
            ),
{
    let ghost old_settings = db.settings@;
    match find_setting(&db.settings, key) {
        Some(i) => {
            db.settings.set(i, Setting { key: key.to_string(), value: value.to_string() });
            proof {
                let ns = db.settings@;
                assert forall|x: int, y: int| 0 <= x < y < ns.len() implies ns[x].key@ != ns[y].key@ by {
                    assert(old_settings[x].key@ != old_settings[y].key@);
                }
                lemma_setting_value(ns, key@, i as int);
                assert forall|k: Seq<char>| k != key@ implies #[trigger] setting_value(ns, k)
                    == setting_value(old_settings, k) by {
                    assert forall|j: int| setting_at(ns, k, j) <==> setting_at(old_settings, k, j) by {}
                    if has_setting(old_settings, k) {
                        let j = choose|j: int| setting_at(old_settings, k, j);
                        lemma_setting_value(old_settings, k, j);
                        lemma_setting_value(ns, k, j);
                    }
                }
            }
        },
        None => {
            db.settings.push(Setting { key: key.to_string(), value: value.to_string() });
            proof {
                let ns = db.settings@;
                assert forall|x: int, y: int| 0 <= x < y < ns.len() implies ns[x].key@ != ns[y].key@ by {
                    if y == ns.len() - 1 {
                        assert(!setting_at(old_settings, key@, x));
                    } else {
                        assert(old_settings[x].key@ != old_settings[y].key@);
                    }
                }
                lemma_setting_value(ns, key@, ns.len() - 1);
                assert forall|k: Seq<char>| k != key@ implies #[trigger] setting_value(ns, k)
                    == setting_value(old_settings, k) by {
                    assert forall|j: int| setting_at(ns, k, j) <==> setting_at(old_settings, k, j) by {}
                    if has_setting(old_settings, k) {
                        let j = choose|j: int| setting_at(old_settings, k, j);
                        lemma_setting_value(old_settings, k, j);
                        lemma_setting_value(ns, k, j);
                    }
                }
            }
        },
    }
}

/// The value stored under `key`, if any.
pub fn get_setting(db: &Database, key: &str) -> (r: Option<String>)
    requires
        db.wf(),
    ensures
        crate::text::opt_text(r) == setting_value(db.settings@, key@),
{
    match find_setting(&db.settings, key) {
        Some(i) => {
            proof {
                lemma_setting_value(db.settings@, key@, i as int);
            }
            Some(db.settings[i].value.clone())
        },
        None => None,
    }
}

/// The reminder settings, with defaults for what was never saved.
pub fn get_notification_settings(db: &Database) -> (r: Result<NotificationSettings, AppError>)
    requires
        db.wf(),
    ensures
        r matches Ok(s) && (s.enabled, s.time@) == loaded_settings(db.settings@),
{
    let enabled = get_setting(db, "notification_enabled");
    let time = get_setting(db, "notification_time");
    let default = NotificationSettings::default();
    proof {
        reveal_strlit("notification_enabled");
        reveal_strlit("notification_time");
        reveal_strlit("true");
        reveal_strlit("10:00");
    }
    let on = match &enabled {
        Some(v) => str_eq(v.as_str(), "true"),
        None => default.enabled,
    };
    let t = match time {
        Some(t) => t,
        None => default.time,
    };
    Ok(NotificationSettings { enabled: on, time: t })
}

/// Saves the reminder settings: the switch as "true" or "false", and the time.
pub fn save_notification_settings(db: &mut Database, settings: &NotificationSettings) -> (r: Result<(), AppError>)
    requires
        old(db).wf(),
    ensures
        r is Ok,
        final(db).wf(),
        final(db).feeds@ == old(db).feeds@,
        final(db).articles@ == old(db).articles@,
        setting_value(final(db).settings@, enabled_key()) == Some(bool_text(settings.enabled)),
        setting_value(final(db).settings@, time_key()) == Some(settings.time@),
        forall|k: Seq<char>|
            k != enabled_key() && k != time_key() ==> #[trigger] setting_value(final(db).settings@, k)
                == setting_value(old(db).settings@, k),
{
    proof {
        reveal_strlit("notification_enabled");
        reveal_strlit("notification_time");
        reveal_strlit("true");
        reveal_strlit("false");
    }
    let text = if settings.enabled {
        "true"
    } else {
        "false"
    };
    set_setting(db, "notification_enabled", text);
    let ghost mid = db.settings@;
    set_setting(db, "notification_time", settings.time.as_str());
    proof {
        assert(time_key().len() != enabled_key().len());
        assert(setting_value(db.settings@, enabled_key()) == setting_value(mid, enabled_key()));
    }
    Ok(())
}

/// What was saved is what is loaded: a settings table that holds what saving
/// `s` stores loads as `s`.
pub proof fn lemma_saved_settings_load(after: Seq<Setting>, s: NotificationSettings)
    requires
        setting_value(after, enabled_key()) == Some(bool_text(s.enabled)),
        setting_value(after, time_key()) == Some(s.time@),
    ensures
        loaded_settings(after) == (s.enabled, s.time@),
{
    reveal_strlit("true");
    reveal_strlit("false");
    assert("false"@.len() != "true"@.len());
}

} // verus!
