//! When to ask for notifications, and which of them to show. Times are seconds
//! since the epoch.
use vstd::prelude::*;

verus! {

/// The number of seconds that pass between two requests for notifications.
pub const MAX_UPDATE_CHECK_SECONDS: u64 = 3600;

/// Remembers when notifications were last asked for.
pub struct YaakNotifier {
    last_check: u64,
}

/// What a notification offers to do.
#[derive(Debug, Clone, PartialEq, Eq, Default)]
pub struct YaakNotificationAction {
    pub label: String,
    pub url: String,
}

impl YaakNotifier {
    /// The time of the last request.
    pub closed spec fn last_checked(&self) -> u64 {
        self.last_check
    }

    /// A notifier that has never asked: its last request is the epoch.
    pub fn new() -> (notifier: Self)
        ensures
            notifier.last_checked() == 0,
    {
        Self { last_check: 0 }
    }

    /// Whether a request is due at the time `now`: an hour has passed since the last.
    pub fn is_check_due(&self, now: u64) -> (due: bool)
        requires
            self.last_checked() <= now,
        ensures
            due == (now - self.last_checked() >= MAX_UPDATE_CHECK_SECONDS),
    {
        let ignore_check = now - self.last_check < MAX_UPDATE_CHECK_SECONDS;
        !ignore_check
    }

    /// Notes that notifications were asked for at the time `now`.
    pub fn mark_checked(&mut self, now: u64)
        ensures
            final(self).last_checked() == now,
    {
        self.last_check = now;
    }
}

/// The id `id` is among `seen`.
pub open spec fn is_seen(seen: Seq<String>, id: Seq<char>) -> bool {
    exists|k: int| 0 <= k < seen.len() && (#[trigger] seen[k])@ == id
}

/// Whether the id `id` is among `seen`.
pub fn was_seen(seen: &Vec<String>, id: &String) -> (b: bool)
    ensures
        b == is_seen(seen@, id@),
{
    let mut k: usize = 0;
    while k < seen.len()
        invariant
            k <= seen.len(),
            forall|j: int| 0 <= j < k ==> (#[trigger] seen@[j])@ != id@,
        decreases seen.len() - k,
    {
        if seen[k] == *id {
            return true;
        }
        k += 1;
    }
    false
}

/// The index of the notification to show: the first whose id was not seen. Only
/// one notification is shown at a time.
pub fn first_unseen(ids: &Vec<String>, seen: &Vec<String>) -> (index: Option<usize>)
    ensures
        match index {
            Some(i) => i < ids.len() && !is_seen(seen@, ids@[i as int]@) && forall|j: int|
                0 <= j < i ==> is_seen(seen@, (#[trigger] ids@[j])@),
            None => forall|j: int| 0 <= j < ids.len() ==> is_seen(seen@, (#[trigger] ids@[j])@),
        },
{
    let mut i: usize = 0;
    while i < ids.len()
        invariant
            i <= ids.len(),
            forall|j: int| 0 <= j < i ==> is_seen(seen@, (#[trigger] ids@[j])@),
        decreases ids.len() - i,
    {
        if !was_seen(seen, &ids[i]) {
            return Some(i);
        }
        i += 1;
    }
    None
}

/// What is sent about updates with a request for notifications.
pub open spec fn updater_status_of(
    has_updater: bool,
    autoupdate: bool,
    updates_supported: bool,
) -> Seq<char> {
    if !has_updater {
        "missing"@
    } else if !autoupdate {
        "disabled"@
    } else if !updates_supported {
        "unsupported"@
    } else {
        "enabled"@
    }
}

/// Says what is sent about updates: `missing` where the application was built
/// without the updater, `disabled` where the user switched updates off,
/// `unsupported` where the installation cannot update itself, else `enabled`.
pub fn get_updater_status(has_updater: bool, autoupdate: bool, updates_supported: bool) -> (status:
    &'static str)
    ensures
        status@ == updater_status_of(has_updater, autoupdate, updates_supported),
{
    if !has_updater {
        "missing"
    } else if !autoupdate {
        "disabled"
    } else if !updates_supported {
        "unsupported"
    } else {
        "enabled"
    }
}

} // verus!
