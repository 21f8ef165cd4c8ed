//! What the host can set: how often to sample, and whether to go on.

use serde_json::Value;
use vstd::prelude::*;

use crate::json;
use crate::json::lookup_text;
use crate::text::same_text;

verus! {

/// The pause between two samples.
#[derive(Clone, Copy, Debug, PartialEq, Eq, Structural)]
pub enum RefreshInterval {
    OneSecond,
    TwoSeconds,
    FiveSeconds,
}

impl RefreshInterval {
    /// The length of the pause in seconds.
    pub open spec fn seconds_spec(self) -> u64 {
        match self {
            RefreshInterval::OneSecond => 1,
            RefreshInterval::TwoSeconds => 2,
            RefreshInterval::FiveSeconds => 5,
        }
    }

    /// The pause that a setting names, if it names one.
    pub open spec fn named(setting: Option<Seq<char>>) -> Option<RefreshInterval> {
        if setting == Some("1s"@) {
            Some(RefreshInterval::OneSecond)
        } else if setting == Some("5s"@) {
            Some(RefreshInterval::FiveSeconds)
        } else if setting == Some("2s"@) {
            Some(RefreshInterval::TwoSeconds)
        } else {
            None
        }
    }

    /// The pause that a settings object asks for, if it names one.
    pub open spec fn requested(settings: Value) -> Option<RefreshInterval> {
        RefreshInterval::named(json::text_member(settings, "refreshInterval"@))
    }

    /// Returns the length of the pause in seconds.
    pub fn seconds(self) -> (seconds: u64)
        ensures
            seconds == self.seconds_spec(),
    {
        match self {
            RefreshInterval::OneSecond => 1,
            RefreshInterval::TwoSeconds => 2,
            RefreshInterval::FiveSeconds => 5,
        }
    }

    /// Returns the pause that a setting names, or the text that refuses it.
    pub fn from_setting(setting: Option<&str>) -> (interval: Result<Self, String>)
        ensures
            match (match setting {
                Some(found) => RefreshInterval::named(Some(found@)),
                None => None,
            }) {
                Some(named) => interval == Ok::<RefreshInterval, String>(named),
                None => interval matches Err(message) && message@ == refusal(),
            },
    {
        if let Some(found) = setting {
            if same_text(found, "1s") {
                return Ok(RefreshInterval::OneSecond);
            }
            if same_text(found, "5s") {
                return Ok(RefreshInterval::FiveSeconds);
            }
            if same_text(found, "2s") {
                return Ok(RefreshInterval::TwoSeconds);
            }
        }
        Err("refreshInterval must be one of the manifest values: 1s, 2s, or 5s".to_owned())
    }

    /// Returns the pause that a settings object asks for, or the text that
    /// refuses it.
    pub fn from_settings(settings: &Value) -> (interval: Result<Self, String>)
        ensures
            match RefreshInterval::requested(*settings) {
                Some(named) => interval == Ok::<RefreshInterval, String>(named),
                None => interval matches Err(message) && message@ == refusal(),
            },
    {
        RefreshInterval::from_setting(lookup_text(settings, "refreshInterval"))
    }
}

/// The text that refuses a setting.
pub open spec fn refusal() -> Seq<char> {
    "refreshInterval must be one of the manifest values: 1s, 2s, or 5s"@
}

/// The pauses are named by different settings, and no other text names one.
pub proof fn settings_name_the_intervals(setting: Seq<char>)
    ensures
        match RefreshInterval::named(Some(setting)) {
            Some(interval) => setting == (match interval {
                RefreshInterval::OneSecond => "1s"@,
                RefreshInterval::TwoSeconds => "2s"@,
                RefreshInterval::FiveSeconds => "5s"@,
            }),
            None => setting != "1s"@ && setting != "2s"@ && setting != "5s"@,
        },
        RefreshInterval::named(Some("1s"@)) == Some(RefreshInterval::OneSecond),
        RefreshInterval::named(Some("2s"@)) == Some(RefreshInterval::TwoSeconds),
        RefreshInterval::named(Some("5s"@)) == Some(RefreshInterval::FiveSeconds),
{
    reveal_strlit("1s");
    reveal_strlit("2s");
    reveal_strlit("5s");
    assert("2s"@[0] == '2' && "1s"@[0] == '1' && "5s"@[0] == '5');
}

/// Settings with the same JSON text ask for the same pause, so settings that
/// were written and read back ask for what they asked for before.
pub proof fn settings_travel_unchanged(sent: Value, received: Value)
    requires
        json::json_text(sent) == json::json_text(received),
    ensures
        RefreshInterval::requested(sent) == RefreshInterval::requested(received),
{
}

/// What the sampling loop goes by.
#[derive(Clone, Copy, Debug, PartialEq, Eq, Structural)]
pub struct Control {
    pub running: bool,
    pub interval: RefreshInterval,
}

impl Control {
    /// A loop that runs, once a second.
    pub fn new() -> (control: Self)
        ensures
            control == (Control { running: true, interval: RefreshInterval::OneSecond }),
    {
        Control { running: true, interval: RefreshInterval::OneSecond }
    }

    /// Sets the pause to what a settings object asks for. A setting that names
    /// no pause is refused, and nothing is changed then.
    pub fn set_interval(&mut self, settings: &Value) -> (set: Result<(), String>)
        ensures
            match RefreshInterval::requested(*settings) {
                Some(named) => {
                    &&& set == Ok::<(), String>(())
                    &&& *final(self) == (Control { interval: named, ..*old(self) })
                },
                None => {
                    &&& set matches Err(message) && message@ == refusal()
                    &&& *final(self) == *old(self)
                },
            },
    {
        match RefreshInterval::from_settings(settings) {
            Ok(interval) => {
                self.apply(interval);
                Ok(())
            },
            Err(message) => Err(message),
        }
    }

    /// Sets the pause.
    pub fn apply(&mut self, interval: RefreshInterval)
        ensures
            *final(self) == (Control { interval, ..*old(self) }),
    {
        self.interval = interval;
    }

    /// Ends the loop.
    pub fn stop(&mut self)
        ensures
            *final(self) == (Control { running: false, ..*old(self) }),
    {
        self.running = false;
    }
}

/// The text that refuses a protocol.
pub open spec fn protocol_refusal() -> Seq<char> {
    "MYWALLPAPER_PROTOCOL must be process-v2"@
}

/// Accepts the protocol that the host names, or returns the text that refuses
/// it.
pub fn check_protocol(protocol: Option<&str>) -> (accepted: Result<(), String>)
    ensures
        match accepted {
            Ok(()) => protocol matches Some(named) && named@ == "process-v2"@,
            Err(message) => {
                &&& message@ == protocol_refusal()
                &&& protocol matches Some(named) ==> named@ != "process-v2"@
            },
        },
{
    if let Some(named) = protocol {
        if same_text(named, "process-v2") {
            return Ok(());
        }
    }
    Err("MYWALLPAPER_PROTOCOL must be process-v2".to_owned())
}

/// The pause that settings ask for is the one that their member
/// `refreshInterval` names.
pub proof fn interval_is_requested_by_its_member(settings: Value, interval: RefreshInterval)
    ensures
        RefreshInterval::requested(settings) == Some(interval) <==> json::text_member(
            settings,
            "refreshInterval"@,
        ) == Some(
            match interval {
                RefreshInterval::OneSecond => "1s"@,
                RefreshInterval::TwoSeconds => "2s"@,
                RefreshInterval::FiveSeconds => "5s"@,
            },
        ),
{
    if let Some(setting) = json::text_member(settings, "refreshInterval"@) {
        settings_name_the_intervals(setting);
    }
    reveal_strlit("1s");
    reveal_strlit("2s");
    reveal_strlit("5s");
    assert("2s"@[0] == '2' && "1s"@[0] == '1' && "5s"@[0] == '5');
}

} // verus!
