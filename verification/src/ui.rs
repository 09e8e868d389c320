//! The decisions of the status display and of the menu button that shows and
//! hides it. The task that draws holds a `Ui` and asks it what to draw; the
//! task that reads the button holds a `MenuButton` and tells it what was
//! read and when. Reading, writing and waiting are the caller's part.

use vstd::prelude::*;
use crate::display::{color_for, state_color, Color565, DisplayState};
use crate::framebuffer::Framebuffer;
use crate::layers::{nothing, over, paint, rect, solid};

verus! {

/// The level of the display at which nothing is drawn.
pub const UI_LEVEL_INVISIBLE: u8 = 0;

/// The level at which an animation is shown.
pub const UI_LEVEL_GIF: u8 = 2;

/// The level at which a picture is shown.
pub const UI_LEVEL_IMAGE: u8 = 3;

/// The level at which coloured stripes are shown.
pub const UI_LEVEL_STRIPES: u8 = 128;

/// How long the menu button is held to show or hide the display, in
/// milliseconds.
pub const HOLD_MILLIS: u64 = 5000;

/// What the display task holds between two rounds.
#[derive(Clone, Debug, PartialEq)]
pub struct Ui {
    /// What was last asked to be shown.
    pub current_state: DisplayState,
    /// The colour that stands for the daemon's state.
    pub display_color: Color565,
    /// Whether the black screen has been drawn since the display was hidden.
    pub black_screen_drawn: bool,
}

/// What the display task is to draw in a round.
#[derive(Clone, Debug, PartialEq)]
pub enum Render {
    /// Nothing: the display is hidden and black already.
    Nothing,
    /// The black screen that marks a hidden display.
    BlackScreen,
    /// The animation.
    Gif,
    /// The picture.
    Image,
    /// The stripes.
    Stripes,
    /// A warning with its message and severity.
    Warning { message: String, severity: String, color: Color565 },
    /// The detailed status of a recording.
    Status {
        qmdl_name: String,
        qmdl_size_bytes: usize,
        analysis_size_bytes: usize,
        num_warnings: usize,
        last_warning: Option<String>,
        color: Color565,
    },
    /// The detailed status of no recording: the title, and zeros.
    EmptyStatus { color: Color565 },
}

/// The state that the display shows before it is told anything: the
/// detailed status of a recording named after the daemon, without data.
pub open spec fn opening_state(state: DisplayState) -> bool {
    &&& state matches DisplayState::DetailedStatus {
        qmdl_name,
        qmdl_size_bytes,
        analysis_size_bytes,
        num_warnings,
        last_warning,
    }
    &&& qmdl_name@ == "RAYHUNTER"@
    &&& qmdl_size_bytes == 0
    &&& analysis_size_bytes == 0
    &&& num_warnings == 0
    &&& last_warning is None
}

impl Ui {
    /// What the display task starts with: blue for colour-blind users and
    /// pink for others, and nothing told yet.
    pub fn new(colorblind_mode: bool) -> (ui: Ui)
        ensures
            opening_state(ui.current_state),
            ui.display_color == (if colorblind_mode {
                Color565::Blue
            } else {
                Color565::Pink
            }),
            !ui.black_screen_drawn,
    {
        Ui {
            current_state: DisplayState::DetailedStatus {
                qmdl_name: "RAYHUNTER".to_owned(),
                qmdl_size_bytes: 0,
                analysis_size_bytes: 0,
                num_warnings: 0,
                last_warning: None,
            },
            display_color: if colorblind_mode {
                Color565::Blue
            } else {
                Color565::Pink
            },
            black_screen_drawn: false,
        }
    }

    /// The display's state once it is told to show `state`. A detailed
    /// status takes the place of what was shown and leaves the colour. Any
    /// other state sets the colour to its own; it takes the place of what
    /// was shown only where that is no detailed status.
    pub open spec fn told(self, state: DisplayState) -> Ui {
        if state is DetailedStatus {
            Ui { current_state: state, ..self }
        } else if self.current_state is DetailedStatus {
            Ui { display_color: state_color(state), ..self }
        } else {
            Ui { current_state: state, display_color: state_color(state), ..self }
        }
    }

    /// Takes note of what the display is told to show.
    pub fn update(&mut self, state: DisplayState)
        ensures
            *final(self) == old(self).told(state),
    {
        match state {
            DisplayState::DetailedStatus { .. } => {
                self.current_state = state;
            },
            _ => {
                match self.current_state {
                    DisplayState::DetailedStatus { .. } => {
                        self.display_color = color_for(&state);
                    },
                    _ => {
                        self.display_color = color_for(&state);
                        self.current_state = state;
                    },
                }
            },
        }
    }

    /// What is to be drawn at level `display_level` while the display is
    /// visible or not. A hidden display gets one black screen and then
    /// nothing. A visible one shows the animation, the picture or the
    /// stripes at the levels that stand for them, and else what it was last
    /// told: a warning, the detailed status, or an empty status for any
    /// other state.
    pub open spec fn drawing(self, display_level: u8, visible: bool) -> Render {
        if !visible {
            if self.black_screen_drawn {
                Render::Nothing
            } else {
                Render::BlackScreen
            }
        } else if display_level == UI_LEVEL_GIF {
            Render::Gif
        } else if display_level == UI_LEVEL_IMAGE {
            Render::Image
        } else if display_level == UI_LEVEL_STRIPES {
            Render::Stripes
        } else {
            match self.current_state {
                DisplayState::AnalysisWarning { message, severity } => Render::Warning {
                    message,
                    severity,
                    color: self.display_color,
                },
                DisplayState::DetailedStatus {
                    qmdl_name,
                    qmdl_size_bytes,
                    analysis_size_bytes,
                    num_warnings,
                    last_warning,
                } => Render::Status {
                    qmdl_name,
                    qmdl_size_bytes,
                    analysis_size_bytes,
                    num_warnings,
                    last_warning,
                    color: self.display_color,
                },
                _ => Render::EmptyStatus { color: self.display_color },
            }
        }
    }

    /// Decides what to draw in this round, and remembers whether the black
    /// screen of a hidden display has been drawn.
    pub fn render(&mut self, display_level: u8, visible: bool) -> (what: Render)
        ensures
            what == old(self).drawing(display_level, visible),
            final(self).current_state == old(self).current_state,
            final(self).display_color == old(self).display_color,
            final(self).black_screen_drawn == !visible,
    {
        if !visible {
            if self.black_screen_drawn {
                return Render::Nothing;
            }
            self.black_screen_drawn = true;
            return Render::BlackScreen;
        }
        self.black_screen_drawn = false;
        if display_level == UI_LEVEL_GIF {
            Render::Gif
        } else if display_level == UI_LEVEL_IMAGE {
            Render::Image
        } else if display_level == UI_LEVEL_STRIPES {
            Render::Stripes
        } else {
            match &self.current_state {
                DisplayState::AnalysisWarning { message, severity } => Render::Warning {
                    message: message.clone(),
                    severity: severity.clone(),
                    color: self.display_color,
                },
                DisplayState::DetailedStatus {
                    qmdl_name,
                    qmdl_size_bytes,
                    analysis_size_bytes,
                    num_warnings,
                    last_warning,
                } => Render::Status {
                    qmdl_name: qmdl_name.clone(),
                    qmdl_size_bytes: *qmdl_size_bytes,
                    analysis_size_bytes: *analysis_size_bytes,
                    num_warnings: *num_warnings,
                    last_warning: match last_warning {
                        Some(text) => Some(text.clone()),
                        None => None,
                    },
                    color: self.display_color,
                },
                _ => Render::EmptyStatus { color: self.display_color },
            }
        }
    }
}

/// Whether the display task runs at all: not at level 0.
pub fn ui_enabled(display_level: u8) -> (enabled: bool)
    ensures
        enabled == (display_level != UI_LEVEL_INVISIBLE),
{
    display_level != UI_LEVEL_INVISIBLE
}

/// How long the display task rests between two rounds, in milliseconds: a
/// tenth of a second while the display is visible, half a second while it
/// is hidden.
pub fn rest_millis(visible: bool) -> (millis: u64)
    ensures
        millis == (if visible {
            100u64
        } else {
            500u64
        }),
{
    if visible {
        100
    } else {
        500
    }
}

/// The stripes of the test picture: their colours and how many rows each
/// covers from the top. Each is drawn over those before it.
pub fn stripes() -> (bars: [(Color565, u32); 5])
    ensures
        bars@ == seq![
            (Color565::Cyan, 128u32),
            (Color565::Pink, 102u32),
            (Color565::White, 76u32),
            (Color565::Pink, 50u32),
            (Color565::Cyan, 25u32),
        ],
{
    [
        (Color565::Cyan, 128),
        (Color565::Pink, 102),
        (Color565::White, 76),
        (Color565::Pink, 50),
        (Color565::Cyan, 25),
    ]
}

/// The layer of `count` white squares of five pixels in the top rows, one
/// every ten pixels from the left.
pub open spec fn dots(count: nat) -> spec_fn(int, int) -> Option<u16>
    decreases count,
{
    if count == 0 {
        nothing()
    } else {
        over(dots((count - 1) as nat), rect(10 * (count - 1), 0, 5, 5, Color565::White.pixel()))
    }
}

impl<'a> Framebuffer<'a> {
    /// The frame of a black screen with `count` white squares in its upper
    /// left corner, as many of them as the screen has room for. One square
    /// marks a hidden display; more count the seconds for which the menu
    /// button has been held.
    pub fn draw_dots(&self, count: u32) -> (frame: Vec<u8>)
        ensures
            frame@ == paint(solid(self.w() * self.h(), Color565::Black.pixel()), self.w(), self.h(), dots(
                count as nat,
            )),
    {
        let width: u32 = self.width();
        let height: u32 = self.height();
        let mut buffer: Vec<u8> = self.draw_line(Color565::Black, height);
        let ghost black = buffer@;
        proof {
            crate::layers::lemma_paint_nothing(black, 128, 128);
        }
        let mut j: u32 = 0;
        while j < count
            invariant
                j <= count,
                self.w() == 128,
                self.h() == 128,
                buffer@ == paint(black, 128, 128, dots(j as nat)),
            decreases count - j,
        {
            let ghost square = rect(10 * j, 0, 5, 5, Color565::White.pixel());
            if j < 13 {
                self.draw_rect(&mut buffer, j * 10, 0, 5, 5, Color565::White);
                proof {
                    crate::layers::lemma_paint_twice(black, 128, 128, dots(j as nat), square);
                }
            } else {
                proof {
                    crate::layers::lemma_paint_same(
                        black,
                        128,
                        128,
                        over(dots(j as nat), square),
                        dots(j as nat),
                    );
                }
            }
            j = j + 1;
        }
        buffer
    }
}

/// One event of the input device.
#[derive(Clone, Copy, Debug, PartialEq, Eq, Structural)]
pub struct InputEvent {
    pub event_type: u8,
    pub key_code: u8,
    pub value: u8,
}

/// The type of the events that keys send.
pub const EVENT_KEY: u8 = 1;

/// The code of the menu button.
pub const KEY_MENU: u8 = 0x0A;

/// Reads an event from the 24 bytes in which the device hands it out: the
/// type is byte 8, the key code byte 10 and the value byte 12.
pub fn parse_input_event(buffer: &[u8; 24]) -> (event: InputEvent)
    ensures
        event == (InputEvent {
            event_type: buffer@[8],
            key_code: buffer@[10],
            value: buffer@[12],
        }),
{
    InputEvent { event_type: buffer[8], key_code: buffer[10], value: buffer[12] }
}

/// What the button task holds between two events.
#[derive(Clone, Copy, Debug, PartialEq, Eq, Structural)]
pub struct MenuButton {
    pub pressed: bool,
    /// When the button went down, in milliseconds on the caller's clock.
    pub pressed_at: Option<u64>,
}

/// What the button task is to do on an event.
#[derive(Clone, Copy, Debug, PartialEq, Eq, Structural)]
pub enum ButtonAction {
    Nothing,
    /// Count on the hidden display the seconds for which the button is held.
    ShowProgress,
    /// Show the display if it is hidden, and hide it if it is shown.
    ToggleUi,
}

/// Whether an event is of the menu button.
pub open spec fn of_menu_button(event: InputEvent) -> bool {
    event.event_type == EVENT_KEY && event.key_code == KEY_MENU
}

/// Whether a button that went down at `pressed_at` and comes up at `now`
/// was held long enough.
pub open spec fn held_long_enough(pressed_at: Option<u64>, now: u64) -> bool {
    pressed_at matches Some(start) && now >= start && now - start >= HOLD_MILLIS
}

impl MenuButton {
    /// A button that is up.
    pub fn new() -> (button: MenuButton)
        ensures
            button == (MenuButton { pressed: false, pressed_at: None }),
    {
        MenuButton { pressed: false, pressed_at: None }
    }

    /// The button once `event` has come at time `now`: down, with the time
    /// noted, when it is pressed while up; up when it is released while
    /// down; and as it was on anything else.
    pub open spec fn after(self, event: InputEvent, now: u64) -> MenuButton {
        if of_menu_button(event) && event.value == 1 && !self.pressed {
            MenuButton { pressed: true, pressed_at: Some(now) }
        } else if of_menu_button(event) && event.value == 0 && self.pressed {
            MenuButton { pressed: false, pressed_at: None }
        } else {
            self
        }
    }

    /// What is to be done on `event` at time `now`: count the seconds when
    /// the button goes down while the display is hidden, and show or hide
    /// the display when the button comes up after it was held long enough.
    pub open spec fn reaction(self, event: InputEvent, now: u64, ui_visible: bool) -> ButtonAction {
        if of_menu_button(event) && event.value == 1 && !self.pressed {
            if ui_visible {
                ButtonAction::Nothing
            } else {
                ButtonAction::ShowProgress
            }
        } else if of_menu_button(event) && event.value == 0 && self.pressed && held_long_enough(
            self.pressed_at,
            now,
        ) {
            ButtonAction::ToggleUi
        } else {
            ButtonAction::Nothing
        }
    }

    /// Takes note of an event that came at time `now`, and says what is to be
    /// done.
    pub fn on_event(&mut self, event: InputEvent, now: u64, ui_visible: bool) -> (action:
        ButtonAction)
        ensures
            *final(self) == old(self).after(event, now),
            action == old(self).reaction(event, now, ui_visible),
    {
        if event.event_type == EVENT_KEY && event.key_code == KEY_MENU {
            if event.value == 1 && !self.pressed {
                self.pressed = true;
                self.pressed_at = Some(now);
                if !ui_visible {
                    return ButtonAction::ShowProgress;
                }
            } else if event.value == 0 && self.pressed {
                self.pressed = false;
                let held: bool = match self.pressed_at {
                    Some(start) => now >= start && now - start >= HOLD_MILLIS,
                    None => false,
                };
                self.pressed_at = None;
                if held {
                    return ButtonAction::ToggleUi;
                }
            }
        }
        ButtonAction::Nothing
    }
}

/// Whether the `second`-th square is due on the hidden display: once the
/// button has been held for that many seconds.
pub fn progress_due(held_millis: u64, second: u32) -> (due: bool)
    ensures
        due == (held_millis >= second * 1000),
{
    held_millis >= second as u64 * 1000
}

/// A press that is held for five seconds or longer shows or hides the
/// display when it ends, and a shorter one does not.
pub proof fn lemma_hold_toggles(start: u64, end: u64, ui_visible: bool)
    requires
        start <= end,
    ensures
        ({
            let down = InputEvent { event_type: EVENT_KEY, key_code: KEY_MENU, value: 1 };
            let up = InputEvent { event_type: EVENT_KEY, key_code: KEY_MENU, value: 0 };
            let held = MenuButton { pressed: false, pressed_at: None }.after(down, start);
            &&& held.reaction(up, end, ui_visible) == (if end - start >= HOLD_MILLIS {
                ButtonAction::ToggleUi
            } else {
                ButtonAction::Nothing
            })
            &&& held.after(up, end) == (MenuButton { pressed: false, pressed_at: None })
        }),
{
}

} // verus!
