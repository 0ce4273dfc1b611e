//! Steam connection status with graceful degradation: when the Steamworks SDK
//! cannot start, the game goes on without Steam features instead of
//! stopping.
use crate::devtools::{GutzDebugStats, stats_set};
use vstd::prelude::*;

verus! {

/// Whether Steam is available. Games show Steam-only features (achievements,
/// friends) only while `Connected`; with `Unavailable` the game itself must
/// still play as usual.
#[derive(Clone, Copy, PartialEq, Eq, Debug, Structural)]
pub enum GutzSteamStatus {
    Unavailable,
    Connected,
}

impl Default for GutzSteamStatus {
    fn default() -> (r: Self)
        ensures
            r == GutzSteamStatus::Unavailable,
    {
        GutzSteamStatus::Unavailable
    }
}

impl GutzSteamStatus {
    pub fn is_connected(self) -> (r: bool)
        ensures
            r == (self == GutzSteamStatus::Connected),
    {
        match self {
            GutzSteamStatus::Connected => true,
            GutzSteamStatus::Unavailable => false,
        }
    }

    /// The status after trying to start the SDK: connected exactly when the
    /// start succeeded; a failure is never fatal.
    pub fn after_init<P, E>(result: &Result<P, E>) -> (r: GutzSteamStatus)
        ensures
            r == (if result is Ok {
                GutzSteamStatus::Connected
            } else {
                GutzSteamStatus::Unavailable
            }),
    {
        match result {
            Ok(_) => GutzSteamStatus::Connected,
            Err(_) => GutzSteamStatus::Unavailable,
        }
    }

    /// The word the developer overlay shows for the status.
    pub fn label(self) -> (r: &'static str)
        ensures
            self == GutzSteamStatus::Connected ==> r@ == "Connected"@,
            self == GutzSteamStatus::Unavailable ==> r@ == "Unavailable"@,
    {
        match self {
            GutzSteamStatus::Connected => "Connected",
            GutzSteamStatus::Unavailable => "Unavailable",
        }
    }
}

/// Publishes the status on the developer overlay under `Steam`.
pub fn record_steam_stats(stats: &mut GutzDebugStats, status: GutzSteamStatus)
    requires
        old(stats).wf(),
    ensures
        final(stats).wf(),
        final(stats)@ == stats_set(old(stats)@, "Steam"@, status.label_spec()),
{
    let label = status.label();
    stats.set("Steam", label.to_owned());
}

impl GutzSteamStatus {
    /// The overlay word as text.
    pub open spec fn label_spec(self) -> Seq<char> {
        match self {
            GutzSteamStatus::Connected => "Connected"@,
            GutzSteamStatus::Unavailable => "Unavailable"@,
        }
    }
}

/// The Steam integration for one game, identified by its App ID.
pub struct GutzSteamPlugin {
    app_id: u32,
}

impl GutzSteamPlugin {
    /// SpaceWar, Valve's test App ID, for development until the game has
    /// its own.
    pub const DEV_APP_ID: u32 = 480;

    pub fn new(app_id: u32) -> (r: Self)
        ensures
            r.spec_app_id() == app_id,
    {
        GutzSteamPlugin { app_id }
    }

    pub closed spec fn spec_app_id(&self) -> u32 {
        self.app_id
    }

    /// The App ID the SDK is started with.
    pub fn app_id(&self) -> (r: u32)
        ensures
            r == self.spec_app_id(),
    {
        self.app_id
    }
}

} // verus!
