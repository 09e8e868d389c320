//! The decisions behind the daemon's control surface: whether a recording
//! may be started or stopped, what the display is told when it is, which
//! recording a report is asked for, and how the daemon comes up.

use vstd::prelude::*;
use crate::display::DisplayState;

verus! {

/// Why a request to the control surface is turned down.
#[derive(Clone, Copy, Debug, PartialEq, Eq, Structural)]
pub enum Refusal {
    /// The daemon runs in debug mode, in which it records nothing.
    DebugMode,
    /// A live report was asked for while nothing is being recorded.
    NothingRecorded,
    /// No recording has the name that was asked for.
    UnknownRecording,
}

impl Refusal {
    /// The HTTP status that tells the client of the refusal: 403 in debug
    /// mode, 503 where nothing is recorded, 404 for an unknown name.
    pub open spec fn status(self) -> u16 {
        match self {
            Refusal::DebugMode => 403,
            Refusal::NothingRecorded => 503,
            Refusal::UnknownRecording => 404,
        }
    }

    /// The HTTP status that tells the client of the refusal.
    pub fn status_code(self) -> (code: u16)
        ensures
            code == self.status(),
    {
        match self {
            Refusal::DebugMode => 403,
            Refusal::NothingRecorded => 503,
            Refusal::UnknownRecording => 404,
        }
    }
}

/// What the store says of the entry that is being recorded.
#[derive(Clone, Debug, PartialEq)]
pub struct EntryStatus {
    pub name: String,
    pub qmdl_size_bytes: usize,
    pub analysis_size_bytes: usize,
}

/// The detailed status of an entry for which no warning is known.
pub open spec fn quiet_status(entry: EntryStatus) -> DisplayState {
    DisplayState::DetailedStatus {
        qmdl_name: entry.name,
        qmdl_size_bytes: entry.qmdl_size_bytes,
        analysis_size_bytes: entry.analysis_size_bytes,
        num_warnings: 0,
        last_warning: None,
    }
}

/// What the display is told once a recording has started: the icon of a
/// running recording, and then the detailed status of the new entry, where
/// the store has one.
pub open spec fn started_notices(colorblind_mode: bool, entry: Option<EntryStatus>) -> Seq<
    DisplayState,
> {
    let icon = if colorblind_mode {
        DisplayState::RecordingCBM
    } else {
        DisplayState::Recording
    };
    match entry {
        Some(entry) => seq![icon, quiet_status(entry)],
        None => seq![icon],
    }
}

/// What the display is told when a recording stops: the last detailed
/// status of the entry, where the store has one, and then that the daemon
/// has paused.
pub open spec fn stopped_notices(entry: Option<EntryStatus>) -> Seq<DisplayState> {
    match entry {
        Some(entry) => seq![quiet_status(entry), DisplayState::Paused],
        None => seq![DisplayState::Paused],
    }
}

fn status_of(entry: EntryStatus) -> (state: DisplayState)
    ensures
        state == quiet_status(entry),
{
    DisplayState::DetailedStatus {
        qmdl_name: entry.name,
        qmdl_size_bytes: entry.qmdl_size_bytes,
        analysis_size_bytes: entry.analysis_size_bytes,
        num_warnings: 0,
        last_warning: None,
    }
}

/// Whether a recording may be started or stopped: not in debug mode. The
/// caller asks before it touches the store or the pipeline, so that a
/// request that is turned down leaves no trace.
pub fn check_recording_allowed(debug_mode: bool) -> (r: Result<(), Refusal>)
    ensures
        r == (if debug_mode {
            Err::<(), Refusal>(Refusal::DebugMode)
        } else {
            Ok(())
        }),
{
    if debug_mode {
        Err(Refusal::DebugMode)
    } else {
        Ok(())
    }
}

/// Decides on a request to start a recording. In debug mode it is turned
/// down, and nothing is to be sent. Else `entry` is the entry that the store
/// has made for the recording, and the display is told that the daemon
/// records and how the entry stands.
pub fn start_recording(debug_mode: bool, colorblind_mode: bool, entry: Option<EntryStatus>) -> (r:
    Result<Vec<DisplayState>, Refusal>)
    ensures
        match r {
            Ok(notices) => !debug_mode && notices@ == started_notices(colorblind_mode, entry),
            Err(refused) => debug_mode && refused == Refusal::DebugMode,
        },
{
    if debug_mode {
        return Err(Refusal::DebugMode);
    }
    let mut notices: Vec<DisplayState> = Vec::new();
    if colorblind_mode {
        notices.push(DisplayState::RecordingCBM);
    } else {
        notices.push(DisplayState::Recording);
    }
    match entry {
        Some(entry) => {
            notices.push(status_of(entry));
        },
        None => {},
    }
    Ok(notices)
}

/// Decides on a request to stop the recording. In debug mode it is turned
/// down, and nothing is to be sent. Else the display is told how the entry
/// stands and that the daemon has paused; the caller sends all but the last
/// notice before it closes the entry, and the last one after.
pub fn stop_recording(debug_mode: bool, entry: Option<EntryStatus>) -> (r: Result<
    Vec<DisplayState>,
    Refusal,
>)
    ensures
        match r {
            Ok(notices) => !debug_mode && notices@ == stopped_notices(entry),
            Err(refused) => debug_mode && refused == Refusal::DebugMode,
        },
{
    if debug_mode {
        return Err(Refusal::DebugMode);
    }
    let mut notices: Vec<DisplayState> = Vec::new();
    match entry {
        Some(entry) => {
            notices.push(status_of(entry));
        },
        None => {},
    }
    notices.push(DisplayState::Paused);
    Ok(notices)
}

/// Whether a report is asked for the recording that is running: that is what
/// the name `live` stands for.
pub fn is_live_report(qmdl_name: &String) -> (live: bool)
    ensures
        live == (qmdl_name@ == "live"@),
{
    let live: String = "live".to_owned();
    *qmdl_name == live
}

/// The entry whose analysis a report is asked for. `live` stands for the
/// entry that is being recorded, and is turned down where there is none;
/// any other name is looked up, and turned down where it is not found.
pub fn get_analysis_report(live: bool, current: Option<usize>, named: Option<usize>) -> (r:
    Result<usize, Refusal>)
    ensures
        r == (if live {
            match current {
                Some(index) => Ok::<usize, Refusal>(index),
                None => Err(Refusal::NothingRecorded),
            }
        } else {
            match named {
                Some(index) => Ok::<usize, Refusal>(index),
                None => Err(Refusal::UnknownRecording),
            }
        }),
{
    if live {
        match current {
            Some(index) => Ok(index),
            None => Err(Refusal::NothingRecorded),
        }
    } else {
        match named {
            Some(index) => Ok(index),
            None => Err(Refusal::UnknownRecording),
        }
    }
}

/// How the daemon gets its recording store.
#[derive(Clone, Copy, Debug, PartialEq, Eq, Structural)]
pub enum StoreInit {
    /// Load the store that is there.
    Load,
    /// Create a store.
    Create,
    /// Give up: there is no store, and debug mode creates none.
    Refuse,
}

/// How the daemon gets its recording store: a store that exists is loaded,
/// and one that does not is created unless the daemon runs in debug mode.
pub fn init_qmdl_store(exists: bool, debug_mode: bool) -> (init: StoreInit)
    ensures
        init == (if exists {
            StoreInit::Load
        } else if debug_mode {
            StoreInit::Refuse
        } else {
            StoreInit::Create
        }),
{
    if exists {
        StoreInit::Load
    } else if debug_mode {
        StoreInit::Refuse
    } else {
        StoreInit::Create
    }
}

/// The first port that the server tries where the configured one is taken.
pub const FIRST_FALLBACK_PORT: u16 = 8888;

/// The second.
pub const SECOND_FALLBACK_PORT: u16 = 9999;

/// The ports that the server tries to bind, in their order: the configured
/// one, then 8888, then 9999.
pub open spec fn ports_to_try(configured: u16) -> Seq<u16> {
    seq![configured, FIRST_FALLBACK_PORT, SECOND_FALLBACK_PORT]
}

/// The port to try after `failed` attempts to bind, if any is left.
pub fn run_server_port(configured: u16, failed: usize) -> (port: Option<u16>)
    ensures
        port == (if failed < 3 {
            Some(ports_to_try(configured)[failed as int])
        } else {
            None
        }),
{
    if failed == 0 {
        Some(configured)
    } else if failed == 1 {
        Some(FIRST_FALLBACK_PORT)
    } else if failed == 2 {
        Some(SECOND_FALLBACK_PORT)
    } else {
        None
    }
}

} // verus!
