//! When to look for an update of the application, and how the reply of the
//! user is awaited. Times are seconds since the epoch.
use vstd::prelude::*;
use crate::sync::hex_of;
use crate::text::str_equal;

verus! {

/// The release channel that updates are taken from.
#[derive(Debug, Clone, Copy, PartialEq, Eq, Structural)]
pub enum UpdateMode {
    Stable,
    Beta,
    Alpha,
}

/// What set off the check for an update.
#[derive(Debug, Clone, Copy, PartialEq, Eq, Structural)]
pub enum UpdateTrigger {
    Background,
    User,
}

/// The channel that the word `mode` names: `beta`, `alpha`, and `stable` for every other word.
pub open spec fn update_mode_of(mode: Seq<char>) -> UpdateMode {
    if mode == "beta"@ {
        UpdateMode::Beta
    } else if mode == "alpha"@ {
        UpdateMode::Alpha
    } else {
        UpdateMode::Stable
    }
}

/// The word for a channel.
pub open spec fn update_mode_text(mode: UpdateMode) -> Seq<char> {
    match mode {
        UpdateMode::Stable => "stable"@,
        UpdateMode::Beta => "beta"@,
        UpdateMode::Alpha => "alpha"@,
    }
}

/// The number of seconds that pass between two checks in the background.
pub open spec fn check_period(mode: UpdateMode) -> int {
    match mode {
        UpdateMode::Stable => 43200,
        UpdateMode::Beta => 10800,
        UpdateMode::Alpha => 3600,
    }
}

impl UpdateMode {
    /// The channel that the word `mode` names.
    pub fn new(mode: &str) -> (r: UpdateMode)
        ensures
            r == update_mode_of(mode@),
    {
        if str_equal(mode, "beta") {
            UpdateMode::Beta
        } else if str_equal(mode, "alpha") {
            UpdateMode::Alpha
        } else {
            UpdateMode::Stable
        }
    }

    /// The word for this channel.
    pub fn to_string(&self) -> (s: String)
        ensures
            s@ == update_mode_text(*self),
    {
        match self {
            UpdateMode::Stable => String::from_str("stable"),
            UpdateMode::Beta => String::from_str("beta"),
            UpdateMode::Alpha => String::from_str("alpha"),
        }
    }

    /// The number of seconds that pass between two checks in the background.
    pub fn check_period_seconds(&self) -> (seconds: u64)
        ensures
            seconds == check_period(*self),
    {
        match self {
            UpdateMode::Stable => 12 * 3600,
            UpdateMode::Beta => 3 * 3600,
            UpdateMode::Alpha => 3600,
        }
    }
}

impl UpdateTrigger {
    /// The word that is sent for this trigger.
    pub fn as_str(&self) -> (s: &'static str)
        ensures
            s@ == (match self {
                UpdateTrigger::Background => "background"@,
                UpdateTrigger::User => "user"@,
            }),
    {
        match self {
            UpdateTrigger::Background => "background",
            UpdateTrigger::User => "user",
        }
    }
}

/// Remembers when an update was last looked for.
pub struct YaakUpdater {
    last_update_check: u64,
}

impl YaakUpdater {
    /// The time of the last check.
    pub closed spec fn last_check(&self) -> u64 {
        self.last_update_check
    }

    /// An updater that has never checked: its last check is the epoch.
    pub fn new() -> (updater: Self)
        ensures
            updater.last_check() == 0,
    {
        Self { last_update_check: 0 }
    }

    /// Whether a check in the background is due at the time `now`: the period
    /// of the channel has passed since the last check, and the application is
    /// not run for development.
    pub fn is_check_due(&self, now: u64, mode: UpdateMode, is_dev: bool) -> (due: bool)
        requires
            self.last_check() <= now,
        ensures
            due == (now - self.last_check() >= check_period(mode) && !is_dev),
    {
        let seconds_since_last_check = now - self.last_update_check;
        let ignore_check = seconds_since_last_check < mode.check_period_seconds();
        if ignore_check {
            return false;
        }
        !is_dev
    }

    /// Notes that a check was made at the time `now`.
    pub fn mark_checked(&mut self, now: u64)
        ensures
            final(self).last_check() == now,
    {
        self.last_update_check = now;
    }
}

/// Whether an update that was found is downloaded before the user is asked:
/// only one found in the background, with downloads switched on.
pub fn downloads_first(trigger: UpdateTrigger, auto_download: bool) -> (b: bool)
    ensures
        b == (trigger == UpdateTrigger::Background && auto_download),
{
    trigger == UpdateTrigger::Background && auto_download
}

/// What the user chose to do with an update.
#[derive(Debug, Clone, Copy, PartialEq, Eq, Structural)]
pub enum UpdateResponseAction {
    Install,
    Skip,
}

/// A reply of the window to the offer of an update.
#[derive(Debug, Clone, Copy, PartialEq, Eq, Structural)]
pub enum UpdateResponse {
    /// The offer was received.
    Ack,
    /// The user chose.
    Action { action: UpdateResponseAction },
}

/// What happens while the reply to an offer is awaited.
#[derive(Debug, Clone, Copy, PartialEq, Eq, Structural)]
pub enum UpdateReplyEvent {
    /// The window replied.
    Reply(UpdateResponse),
    /// The window will not reply any more.
    Closed,
    /// The time to acknowledge the offer has passed.
    TimedOut,
}

/// How far the wait for a reply has got.
#[derive(Debug, Clone, Copy, PartialEq, Eq, Structural)]
pub enum UpdateReplyPhase {
    /// The offer is not acknowledged yet; the time for that is limited.
    AwaitingAck,
    /// The offer is acknowledged; the user may take any time to choose.
    AwaitingAction,
}

/// Why no choice of the user was received.
#[derive(Debug, Clone, Copy, PartialEq, Eq, Structural)]
pub enum UpdateReplyError {
    ClosedBeforeAck,
    TimedOutBeforeAck,
    ClosedBeforeAction,
}

/// What to do after an event of the wait for a reply.
#[derive(Debug, Clone, Copy, PartialEq, Eq, Structural)]
pub enum UpdateReplyStep {
    /// Go on waiting, in this phase.
    Wait(UpdateReplyPhase),
    /// The user chose.
    Chosen(UpdateResponseAction),
    /// The wait has failed.
    Failed(UpdateReplyError),
}

/// The step that follows the event `event` in the phase `phase`.
pub open spec fn reply_step(phase: UpdateReplyPhase, event: UpdateReplyEvent) -> UpdateReplyStep {
    match (phase, event) {
        (_, UpdateReplyEvent::Reply(UpdateResponse::Action { action })) => UpdateReplyStep::Chosen(
            action,
        ),
        (_, UpdateReplyEvent::Reply(UpdateResponse::Ack)) => UpdateReplyStep::Wait(
            UpdateReplyPhase::AwaitingAction,
        ),
        (UpdateReplyPhase::AwaitingAck, UpdateReplyEvent::Closed) => UpdateReplyStep::Failed(
            UpdateReplyError::ClosedBeforeAck,
        ),
        (UpdateReplyPhase::AwaitingAck, UpdateReplyEvent::TimedOut) => UpdateReplyStep::Failed(
            UpdateReplyError::TimedOutBeforeAck,
        ),
        (UpdateReplyPhase::AwaitingAction, UpdateReplyEvent::Closed) => UpdateReplyStep::Failed(
            UpdateReplyError::ClosedBeforeAction,
        ),
        (UpdateReplyPhase::AwaitingAction, UpdateReplyEvent::TimedOut) => UpdateReplyStep::Wait(
            UpdateReplyPhase::AwaitingAction,
        ),
    }
}

/// Says what to do after an event of the wait for a reply. A choice ends the
/// wait in either phase. An acknowledgement starts the second phase, in which
/// further acknowledgements and the passing of time change nothing.
pub fn next_reply_step(phase: UpdateReplyPhase, event: UpdateReplyEvent) -> (step: UpdateReplyStep)
    ensures
        step == reply_step(phase, event),
{
    match event {
        UpdateReplyEvent::Reply(UpdateResponse::Action { action }) => UpdateReplyStep::Chosen(
            action,
        ),
        UpdateReplyEvent::Reply(UpdateResponse::Ack) => UpdateReplyStep::Wait(
            UpdateReplyPhase::AwaitingAction,
        ),
        UpdateReplyEvent::Closed => match phase {
            UpdateReplyPhase::AwaitingAck => UpdateReplyStep::Failed(
                UpdateReplyError::ClosedBeforeAck,
            ),
            UpdateReplyPhase::AwaitingAction => UpdateReplyStep::Failed(
                UpdateReplyError::ClosedBeforeAction,
            ),
        },
        UpdateReplyEvent::TimedOut => match phase {
            UpdateReplyPhase::AwaitingAck => UpdateReplyStep::Failed(
                UpdateReplyError::TimedOutBeforeAck,
            ),
            UpdateReplyPhase::AwaitingAction => UpdateReplyStep::Wait(
                UpdateReplyPhase::AwaitingAction,
            ),
        },
    }
}

impl UpdateReplyError {
    /// The words for this failure.
    pub fn as_str(&self) -> (s: &'static str)
        ensures
            s@ == (match self {
                UpdateReplyError::ClosedBeforeAck => "frontend channel closed before ack"@,
                UpdateReplyError::TimedOutBeforeAck => "timed out waiting for frontend ack"@,
                UpdateReplyError::ClosedBeforeAction => "frontend channel closed before action"@,
            }),
    {
        match self {
            UpdateReplyError::ClosedBeforeAck => "frontend channel closed before ack",
            UpdateReplyError::TimedOutBeforeAck => "timed out waiting for frontend ack",
            UpdateReplyError::ClosedBeforeAction => "frontend channel closed before action",
        }
    }
}

/// The MD5 digest of `data`, as the crate `md5` computes it.
pub uninterp spec fn md5_of(data: Seq<u8>) -> Seq<u8>;

/// Calls `md5::compute` and writes the digest in hexadecimal, two digits in
/// lower case for each byte.
#[verifier::external_body]
fn md5_hex(data: &Vec<u8>) -> (text: String)
    ensures
        text@ == hex_of(md5_of(data@)),
{
    format!("{:x}", md5::compute(data))
}

/// The key under which an installation asks for updates: the MD5 digest of the
/// id of its settings, in hexadecimal.
pub fn update_key(settings_id: &str) -> (key: String)
    ensures
        key@ == hex_of(md5_of(vstd::utf8::encode_utf8(settings_id@))),
{
    md5_hex(&settings_id.as_bytes_vec())
}

/// The name of the file that an update is downloaded to: `yaak-`, the version,
/// `-`, and the MD5 digest of the signature in hexadecimal.
pub fn download_file_name(version: &str, signature: &str) -> (name: String)
    ensures
        name@ == "yaak-"@ + version@ + "-"@ + hex_of(
            md5_of(vstd::utf8::encode_utf8(signature@)),
        ),
{
    let digest = md5_hex(&signature.as_bytes_vec());
    let mut name = String::from_str("yaak-");
    name.append(version);
    name.append("-");
    name.append(digest.as_str());
    name
}

/// Whether the update asks to be installed by the system's own installer:
/// its field `install_mode` is `native`.
pub fn is_native_install(install_mode: Option<&str>) -> (b: bool)
    ensures
        b == (install_mode matches Some(mode) && mode@ == "native"@),
{
    match install_mode {
        Some(mode) => str_equal(mode, "native"),
        None => false,
    }
}

} // verus!
