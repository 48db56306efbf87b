//! What is known of a launch of the application: which version runs, which ran
//! before, and since when. Times are milliseconds since the epoch.
use vstd::prelude::*;

verus! {

/// What is known of this launch.
#[derive(Debug, Clone, PartialEq, Eq, Default)]
pub struct LaunchEventInfo {
    pub current_version: String,
    pub previous_version: String,
    pub launched_after_update: bool,
    pub version_since: i64,
    pub user_since: i64,
    pub num_launches: i32,
}

/// What was stored at the launch before this one. A version that was never
/// stored is the empty text.
#[derive(Debug, Clone, PartialEq, Eq, Default)]
pub struct StoredLaunch {
    pub last_version: String,
    pub previous_version: String,
    pub version_since: i64,
    pub num_launches: i32,
}

/// The application was updated since the last launch: a version was stored, and
/// it is not the one that runs now.
pub open spec fn was_updated(stored_version: Seq<char>, current_version: Seq<char>) -> bool {
    stored_version.len() > 0 && current_version != stored_version
}

/// Says what is known of the launch of `current_version` at the time `now`,
/// from what the launch before stored. After an update the version that ran
/// before is the one stored last, and the version runs since now; else both are
/// as they were stored. The launches are counted.
pub fn launch_info(current_version: String, user_since: i64, stored: &StoredLaunch, now: i64) -> (info:
    LaunchEventInfo)
    requires
        stored.num_launches < i32::MAX,
    ensures
        info.current_version@ == current_version@,
        info.user_since == user_since,
        info.num_launches == stored.num_launches + 1,
        info.launched_after_update == was_updated(stored.last_version@, current_version@),
        info.previous_version@ == (if info.launched_after_update {
            stored.last_version@
        } else {
            stored.previous_version@
        }),
        info.version_since == (if info.launched_after_update {
            now
        } else {
            stored.version_since
        }),
{
    let launched_after_update = !stored.last_version.as_str().is_empty() && current_version
        != stored.last_version;
    let previous_version = if launched_after_update {
        stored.last_version.clone()
    } else {
        stored.previous_version.clone()
    };
    let version_since = if launched_after_update {
        now
    } else {
        stored.version_since
    };
    LaunchEventInfo {
        current_version,
        previous_version,
        launched_after_update,
        version_since,
        user_since,
        num_launches: stored.num_launches + 1,
    }
}

} // verus!
