//! What the status display is asked to show, and the colour that stands for
//! each state.

use vstd::prelude::*;
use vstd::std_specs::convert::FromSpecImpl;

verus! {

/// A colour of the display, which holds five bits of red, six of green and
/// five of blue in a 16-bit pixel.
#[derive(Copy, Clone, Debug, PartialEq, Eq, Structural)]
pub enum Color565 {
    Red,
    Green,
    Blue,
    White,
    Black,
    Cyan,
    Yellow,
    Pink,
}

impl Color565 {
    /// The pixel of this colour.
    pub open spec fn pixel(self) -> u16 {
        match self {
            Color565::Red => 0b1111100000000000,
            Color565::Green => 0b0000011111100000,
            Color565::Blue => 0b0000000000011111,
            Color565::White => 0b1111111111111111,
            Color565::Black => 0b0000000000000000,
            Color565::Cyan => 0b0000011111111111,
            Color565::Yellow => 0b1111111111100000,
            Color565::Pink => 0b1111010010011111,
        }
    }

    /// The pixel of this colour.
    pub fn to_pixel(self) -> (pixel: u16)
        ensures
            pixel == self.pixel(),
    {
        match self {
            Color565::Red => 0b1111100000000000,
            Color565::Green => 0b0000011111100000,
            Color565::Blue => 0b0000000000011111,
            Color565::White => 0b1111111111111111,
            Color565::Black => 0b0000000000000000,
            Color565::Cyan => 0b0000011111111111,
            Color565::Yellow => 0b1111111111100000,
            Color565::Pink => 0b1111010010011111,
        }
    }
}

/// What the display is asked to show.
#[derive(Clone, Debug, PartialEq)]
pub enum DisplayState {
    Recording,
    Paused,
    WarningDetected,
    /// Recording, in the colours for colour-blind users.
    RecordingCBM,
    AnalysisWarning { message: String, severity: String },
    DetailedStatus {
        qmdl_name: String,
        qmdl_size_bytes: usize,
        analysis_size_bytes: usize,
        num_warnings: usize,
        last_warning: Option<String>,
    },
}

/// The colour of a warning of the given severity: red for "High", yellow
/// for "Medium", cyan for "Low", white for anything else.
pub open spec fn severity_color(severity: Seq<char>) -> Color565 {
    if severity == "High"@ {
        Color565::Red
    } else if severity == "Medium"@ {
        Color565::Yellow
    } else if severity == "Low"@ {
        Color565::Cyan
    } else {
        Color565::White
    }
}

/// The colour that stands for a state: white while paused, green while
/// recording (blue for colour-blind users), red for a warning without
/// detail, the severity's colour for one with detail, and for a detailed
/// status yellow once there are warnings and green before.
pub open spec fn state_color(state: DisplayState) -> Color565 {
    match state {
        DisplayState::Paused => Color565::White,
        DisplayState::Recording => Color565::Green,
        DisplayState::RecordingCBM => Color565::Blue,
        DisplayState::WarningDetected => Color565::Red,
        DisplayState::AnalysisWarning { severity, .. } => severity_color(severity@),
        DisplayState::DetailedStatus { num_warnings, .. } => if num_warnings > 0 {
            Color565::Yellow
        } else {
            Color565::Green
        },
    }
}

/// Whether `text` reads exactly as `word`.
fn reads_as(text: &String, word: &str) -> (same: bool)
    ensures
        same == (text@ == word@),
{
    let owned: String = word.to_owned();
    *text == owned
}

/// The colour that stands for a state.
pub fn color_for(state: &DisplayState) -> (color: Color565)
    ensures
        color == state_color(*state),
{
    match state {
        DisplayState::Paused => Color565::White,
        DisplayState::Recording => Color565::Green,
        DisplayState::RecordingCBM => Color565::Blue,
        DisplayState::WarningDetected => Color565::Red,
        DisplayState::AnalysisWarning { severity, .. } => {
            if reads_as(severity, "High") {
                Color565::Red
            } else if reads_as(severity, "Medium") {
                Color565::Yellow
            } else if reads_as(severity, "Low") {
                Color565::Cyan
            } else {
                Color565::White
            }
        },
        DisplayState::DetailedStatus { num_warnings, .. } => {
            if *num_warnings > 0 {
                Color565::Yellow
            } else {
                Color565::Green
            }
        },
    }
}

impl From<DisplayState> for Color565 {
    fn from(state: DisplayState) -> (color: Color565) {
        color_for(&state)
    }
}

impl FromSpecImpl<DisplayState> for Color565 {
    open spec fn obeys_from_spec() -> bool {
        true
    }

    open spec fn from_spec(state: DisplayState) -> Color565 {
        state_color(state)
    }
}

/// The three severities that have a colour of their own are three different
/// words, so each of them gets its own colour.
pub proof fn lemma_severity_colors()
    ensures
        severity_color("High"@) == Color565::Red,
        severity_color("Medium"@) == Color565::Yellow,
        severity_color("Low"@) == Color565::Cyan,
{
    reveal_strlit("High");
    reveal_strlit("Medium");
    reveal_strlit("Low");
    assert("High"@.len() == 4 && "Medium"@.len() == 6 && "Low"@.len() == 3);
}

/// How many warnings the analysis has raised, and the message of the last.
#[derive(Clone, Debug, Default)]
pub struct WarningStats {
    pub count: usize,
    pub last_message: Option<String>,
}

/// The detailed status of a recording: its name, its two sizes, and its
/// warnings.
pub fn detailed_status(
    entry_name: String,
    qmdl_size_bytes: usize,
    analysis_size_bytes: usize,
    warning_stats: WarningStats,
) -> (state: DisplayState)
    ensures
        state == (DisplayState::DetailedStatus {
            qmdl_name: entry_name,
            qmdl_size_bytes,
            analysis_size_bytes,
            num_warnings: warning_stats.count,
            last_warning: warning_stats.last_message,
        }),
{
    DisplayState::DetailedStatus {
        qmdl_name: entry_name,
        qmdl_size_bytes,
        analysis_size_bytes,
        num_warnings: warning_stats.count,
        last_warning: warning_stats.last_message,
    }
}

} // verus!
