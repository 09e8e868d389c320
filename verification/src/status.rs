//! The detailed status of a recording as a frame for the display: the
//! title, the version, the size of the recording, when it began and when
//! its last message came, and the number of warnings, green while there are
//! none and red from the first.

use vstd::prelude::*;
use crate::config::Config;
use crate::display::Color565;
use crate::framebuffer::{ground, Framebuffer};
use crate::layers::{paint, rect, solid, text};
use crate::status_text::{
    chars_of, decimal_chars, decimal_text, looks_like_date, push_chars, short_date, shorten_date,
    contains_gmt, count_spaces,
};

verus! {

/// The version as the display shows it.
pub const VERSION_LABEL: &'static str = "v0.0.1";

/// The size of a recording in kilobytes of 1024 bytes, rounded up.
pub open spec fn size_kb(bytes: nat) -> nat {
    bytes / 1024 + if bytes % 1024 == 0 {
        0nat
    } else {
        1nat
    }
}

/// The text for the time at which the recording began: the short form of
/// the recording's name where the name is a date, and a fixed date where it
/// is not.
pub open spec fn start_text(name: Seq<char>) -> Seq<char> {
    match short_date(name) {
        Some(date) => date,
        None => "MAR 18 01:00"@,
    }
}

/// The text for the time of the last message: `None` where no time is
/// known or the time is a date without a short form, the short form of a
/// date, and any other text as it is.
pub open spec fn last_message_text(time: Option<Seq<char>>) -> Seq<char> {
    match time {
        Some(time) => if looks_like_date(time) {
            match short_date(time) {
                Some(date) => date,
                None => "None"@,
            }
        } else {
            time
        },
        None => "None"@,
    }
}

/// The text for the number of warnings.
pub open spec fn warnings_text(warnings: nat) -> Seq<char> {
    "WARNINGS: "@ + decimal_text(warnings)
}

/// The frame of the detailed status for a recording named `name` of
/// `size_bytes` bytes with `warnings` warnings, whose last message came at
/// `last_time`, in step `tick` of the animation.
///
/// The frame is red with white text where there are warnings and green with
/// black text where there are none. The title stands at the top, black on
/// three shadows; the version below it to the right; then size, start and
/// last message, each under its own heading. The number of warnings is
/// larger and yellow, with an exclamation mark behind it, where there are
/// any. In the lower right corner a bar lies flat in the even steps of the
/// animation and stands upright in the odd ones.
pub open spec fn status_frame(
    name: Seq<char>,
    size_bytes: nat,
    warnings: nat,
    last_time: Option<Seq<char>>,
    tick: int,
) -> Seq<u8> {
    let alarm = warnings > 0;
    let bg = if alarm {
        Color565::Red.pixel()
    } else {
        Color565::Green.pixel()
    };
    let ink = if alarm {
        Color565::White.pixel()
    } else {
        Color565::Black.pixel()
    };
    let yellow = Color565::Yellow.pixel();
    let f = solid(16384, bg);
    let f = paint(f, 128, 128, text("RAYHUNTER"@, 13, 6, 2, Color565::Blue.pixel(), bg));
    let f = paint(f, 128, 128, text("RAYHUNTER"@, 12, 5, 2, Color565::Cyan.pixel(), bg));
    let f = paint(f, 128, 128, text("RAYHUNTER"@, 11, 4, 2, Color565::White.pixel(), bg));
    let f = paint(f, 128, 128, text("RAYHUNTER"@, 10, 3, 2, Color565::Black.pixel(), bg));
    let f = paint(f, 128, 128, text(VERSION_LABEL@, 93, 15, 1, ink, bg));
    let f = paint(f, 128, 128, text("SIZE:"@, 10, 25, 1, ink, bg));
    let f = paint(f, 128, 128, text(
        decimal_text(size_kb(size_bytes)) + "KB"@,
        15,
        32,
        1,
        ink,
        bg,
    ));
    let f = paint(f, 128, 128, text("START:"@, 10, 47, 1, ink, bg));
    let f = paint(f, 128, 128, text(start_text(name), 15, 54, 1, ink, bg));
    let f = paint(f, 128, 128, text("LAST MSG:"@, 10, 69, 1, ink, bg));
    let f = paint(f, 128, 128, text(last_message_text(last_time), 15, 76, 1, ink, bg));
    let f = if alarm {
        let mark = 15 + 12 * (warnings_text(warnings).len() as int);
        let f = paint(f, 128, 128, text(warnings_text(warnings), 10, 91, 2, yellow, bg));
        let f = paint(f, 128, 128, rect(mark, 89, 3, 5, yellow));
        paint(f, 128, 128, rect(mark, 95, 3, 1, yellow))
    } else {
        paint(f, 128, 128, text(warnings_text(warnings), 10, 91, 1, ink, bg))
    };
    let f = paint(f, 128, 128, rect(115, 115, 8, 8, bg));
    if tick % 2 == 0 {
        paint(f, 128, 128, rect(115, 119, 8, 1, ink))
    } else {
        paint(f, 128, 128, rect(119, 115, 1, 8, ink))
    }
}

fn text_for_start(name: &[char]) -> (label: Vec<char>)
    ensures
        label@ == start_text(name@),
{
    match shorten_date(name) {
        Some(date) => date,
        None => chars_of("MAR 18 01:00"),
    }
}

fn text_for_last_message(time: Option<&str>) -> (label: Vec<char>)
    ensures
        label@ == last_message_text(
            match time {
                Some(time) => Some(time@),
                None => None,
            },
        ),
{
    match time {
        Some(time) => {
            let chars: Vec<char> = chars_of(time);
            if contains_gmt(chars.as_slice()) || count_spaces(chars.as_slice()) >= 4 {
                match shorten_date(chars.as_slice()) {
                    Some(date) => date,
                    None => chars_of("None"),
                }
            } else {
                chars
            }
        },
        None => chars_of("None"),
    }
}

impl<'a> Framebuffer<'a> {
    /// The frame of the detailed status of a recording, in step
    /// `animation_counter` of the animation. The caller writes the frame to
    /// the display and counts the steps. The size of the analysis, the last
    /// warning, `color` and `config` are taken and have no bearing on the
    /// frame.
    pub fn draw_detailed_status(
        &self,
        qmdl_name: &str,
        qmdl_size_bytes: usize,
        analysis_size_bytes: usize,
        num_warnings: usize,
        last_warning: Option<&str>,
        color: Color565,
        config: &Config,
        last_msg_time: Option<&str>,
        animation_counter: u32,
    ) -> (frame: Vec<u8>)
        ensures
            frame@ == status_frame(
                qmdl_name@,
                qmdl_size_bytes as nat,
                num_warnings as nat,
                match last_msg_time {
                    Some(time) => Some(time@),
                    None => None,
                },
                animation_counter as int,
            ),
    {
        let width: u32 = self.width();
        let height: u32 = self.height();
        let background_color: Color565 = if num_warnings > 0 {
            Color565::Red
        } else {
            Color565::Green
        };
        let text_color: Color565 = if num_warnings > 0 {
            Color565::White
        } else {
            Color565::Black
        };
        let mut buffer: Vec<u8> = self.draw_line(background_color, height);
        let ground: Option<Color565> = Some(background_color);

        let title_pixel_size: u32 = 2;
        let data_pixel_size: u32 = 1;
        let line_height: u32 = 12;
        let header_y: u32 = 3;
        let content_x: u32 = 10;

        self.draw_enhanced_text(
            &mut buffer,
            "RAYHUNTER",
            content_x + 3,
            header_y + 3,
            title_pixel_size,
            Color565::Blue,
            ground,
        );
        self.draw_enhanced_text(
            &mut buffer,
            "RAYHUNTER",
            content_x + 2,
            header_y + 2,
            title_pixel_size,
            Color565::Cyan,
            ground,
        );
        self.draw_enhanced_text(
            &mut buffer,
            "RAYHUNTER",
            content_x + 1,
            header_y + 1,
            title_pixel_size,
            Color565::White,
            ground,
        );
        self.draw_enhanced_text(
            &mut buffer,
            "RAYHUNTER",
            content_x,
            header_y,
            title_pixel_size,
            Color565::Black,
            ground,
        );

        let version_len: u32 = 6;
        let version_x: u32 = width - version_len * 5 * data_pixel_size - 5;
        let version_y: u32 = header_y + title_pixel_size * 6;
        self.draw_enhanced_text(
            &mut buffer,
            VERSION_LABEL,
            version_x,
            version_y,
            data_pixel_size,
            text_color,
            ground,
        );

        let size_kb: usize = qmdl_size_bytes / 1024 + if qmdl_size_bytes % 1024 == 0 {
            0
        } else {
            1
        };
        let name: Vec<char> = chars_of(qmdl_name);
        let start_date: Vec<char> = text_for_start(name.as_slice());
        let last_msg: Vec<char> = text_for_last_message(last_msg_time);

        let mut y_pos: u32 = header_y + 22;
        self.draw_enhanced_text(
            &mut buffer,
            "SIZE:",
            content_x,
            y_pos,
            data_pixel_size,
            text_color,
            ground,
        );
        y_pos = y_pos + line_height - 5;
        let mut size_text: Vec<char> = decimal_chars(size_kb);
        size_text.push('K');
        size_text.push('B');
        proof {
            reveal_strlit("KB");
            assert(size_text@ == decimal_text(size_kb as nat) + "KB"@);
        }
        self.draw_chars(
            &mut buffer,
            size_text.as_slice(),
            content_x + 5,
            y_pos,
            data_pixel_size,
            text_color,
            ground,
        );
        y_pos = y_pos + line_height + 3;

        self.draw_enhanced_text(
            &mut buffer,
            "START:",
            content_x,
            y_pos,
            data_pixel_size,
            text_color,
            ground,
        );
        y_pos = y_pos + line_height - 5;
        self.draw_chars(
            &mut buffer,
            start_date.as_slice(),
            content_x + 5,
            y_pos,
            data_pixel_size,
            text_color,
            ground,
        );
        y_pos = y_pos + line_height + 3;

        self.draw_enhanced_text(
            &mut buffer,
            "LAST MSG:",
            content_x,
            y_pos,
            data_pixel_size,
            text_color,
            ground,
        );
        y_pos = y_pos + line_height - 5;
        self.draw_chars(
            &mut buffer,
            last_msg.as_slice(),
            content_x + 5,
            y_pos,
            data_pixel_size,
            text_color,
            ground,
        );
        y_pos = y_pos + line_height + 3;

        let mut warnings: Vec<char> = chars_of("WARNINGS: ");
        let count: Vec<char> = decimal_chars(num_warnings);
        push_chars(&mut warnings, count.as_slice());
        proof {
            crate::framebuffer::lemma_decimal_len(num_warnings as nat);
            reveal_strlit("WARNINGS: ");
        }
        if num_warnings > 0 {
            self.draw_chars(
                &mut buffer,
                warnings.as_slice(),
                content_x,
                y_pos,
                data_pixel_size + 1,
                Color565::Yellow,
                ground,
            );
            let icon_x: u32 = content_x + (warnings.len() as u32 * 6 * (data_pixel_size + 1)) + 5;
            let icon_y: u32 = y_pos - 2;
            self.draw_rect(&mut buffer, icon_x, icon_y, 3, 5, Color565::Yellow);
            self.draw_rect(&mut buffer, icon_x, icon_y + 6, 3, 1, Color565::Yellow);
        } else {
            self.draw_chars(
                &mut buffer,
                warnings.as_slice(),
                content_x,
                y_pos,
                data_pixel_size,
                text_color,
                ground,
            );
        }

        let animation_frame: u32 = animation_counter % 4;
        let anim_size: u32 = 8;
        let anim_x: u32 = width - anim_size - 5;
        let anim_y: u32 = height - anim_size - 5;
        self.draw_rect(&mut buffer, anim_x, anim_y, anim_size, anim_size, background_color);
        if animation_frame == 0 || animation_frame == 2 {
            self.draw_rect(&mut buffer, anim_x, anim_y + anim_size / 2, anim_size, 1, text_color);
        } else {
            self.draw_rect(&mut buffer, anim_x + anim_size / 2, anim_y, 1, anim_size, text_color);
        }
        buffer
    }
}

} // verus!
