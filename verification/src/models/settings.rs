use vstd::prelude::*;

verus! {

/// Whether, and at what "HH:MM" time of day, the unread reminder is shown.
#[derive(Debug, Clone)]
pub struct NotificationSettings {
    pub enabled: bool,
    pub time: String,
}

impl Default for NotificationSettings {
    /// Reminders off, at ten o'clock.
    fn default() -> (r: Self)
        ensures
            r.enabled == false,
            r.time@ == "10:00"@,
    {
        NotificationSettings { enabled: false, time: "10:00".to_string() }
    }
}

} // verus!
