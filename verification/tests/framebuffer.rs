use rayhunter::config::Config;
use rayhunter::display::Color565;
use rayhunter::font::{
    digit_pattern, get_character_pattern, header_pattern, label_pattern,
};
use rayhunter::framebuffer::{decimal_digits, icon_pixels, tiles_of, Framebuffer, FB_PATH};
use rayhunter::layers::Icon;
use rayhunter::status_text::{
    chars_of, contains_gmt, count_spaces, decimal_chars, shorten_date, shorten_time, split_at,
    split_words,
};

const W: usize = 128;
const H: usize = 128;

fn blank(pixel: u16) -> Vec<u8> {
    let mut frame = Vec::new();
    for _ in 0..W * H {
        frame.extend_from_slice(&pixel.to_le_bytes());
    }
    frame
}

fn set(frame: &mut [u8], x: usize, y: usize, pixel: u16) {
    if x < W && y < H && 2 * (y * W + x) + 1 < frame.len() {
        frame[2 * (y * W + x)] = pixel as u8;
        frame[2 * (y * W + x) + 1] = (pixel >> 8) as u8;
    }
}

fn get(frame: &[u8], x: usize, y: usize) -> u16 {
    u16::from_le_bytes([frame[2 * (y * W + x)], frame[2 * (y * W + x) + 1]])
}

fn grid(
    frame: &mut [u8],
    cells: &[u8],
    cols: usize,
    x0: usize,
    y0: usize,
    size: usize,
    fg: u16,
    bg: u16,
) {
    for (i, cell) in cells.iter().enumerate() {
        for dy in 0..size {
            for dx in 0..size {
                set(
                    frame,
                    x0 + (i % cols) * size + dx,
                    y0 + (i / cols) * size + dy,
                    if *cell == 1 { fg } else { bg },
                );
            }
        }
    }
}

fn text(frame: &mut [u8], text: &str, x0: usize, y0: usize, size: usize, fg: u16, bg: u16) {
    let mut x = x0;
    for c in text.chars() {
        if let Some(cells) = get_character_pattern(c) {
            grid(frame, cells, 5, x, y0, size, fg, bg);
            x += 6 * size;
        }
    }
}

#[test]
fn display_is_128_pixels_wide_and_high() {
    let fb = Framebuffer::new();
    assert_eq!(fb.width(), 128);
    assert_eq!(fb.height(), 128);
    assert_eq!(fb.path(), "/dev/fb0");
    assert_eq!(FB_PATH, "/dev/fb0");
}

#[test]
fn pixel_is_written_low_byte_first() {
    let fb = Framebuffer::new();
    let mut frame = blank(0);
    fb.draw_pixel(&mut frame, 3, 2, Color565::Pink);
    let at = 2 * (2 * W + 3);
    assert_eq!(&frame[at..at + 2], &[0x9f, 0xf4]);
    let mut expected = blank(0);
    set(&mut expected, 3, 2, 0xf49f);
    assert_eq!(frame, expected);
    fb.put_pixel(&mut frame, 127, 127, 0x1234);
    assert_eq!(&frame[2 * W * H - 2..], &[0x34, 0x12]);
}

#[test]
fn pixel_off_the_screen_or_the_frame_is_not_written() {
    let fb = Framebuffer::new();
    let mut frame = blank(0);
    fb.draw_pixel(&mut frame, 128, 0, Color565::White);
    fb.draw_pixel(&mut frame, 0, 128, Color565::White);
    fb.draw_pixel(&mut frame, u32::MAX, u32::MAX, Color565::White);
    assert_eq!(frame, blank(0));
    let mut short = vec![0u8; 7];
    fb.draw_pixel(&mut short, 3, 0, Color565::White);
    assert_eq!(short, vec![0u8; 7]);
    fb.draw_pixel(&mut short, 2, 0, Color565::White);
    assert_eq!(short, vec![0, 0, 0, 0, 0xff, 0xff, 0]);
    let mut empty: Vec<u8> = vec![];
    fb.draw_pixel(&mut empty, 0, 0, Color565::White);
    assert!(empty.is_empty());
}

#[test]
fn fill_sets_every_whole_pixel() {
    let fb = Framebuffer::new();
    let mut frame = vec![7u8; 9];
    fb.fill_frame(&mut frame, Color565::Red);
    assert_eq!(frame, vec![0, 0xf8, 0, 0xf8, 0, 0xf8, 0, 0xf8, 7]);
    let mut whole = blank(0x1111);
    fb.fill_frame(&mut whole, Color565::Cyan);
    assert_eq!(whole, blank(0x07ff));
    let mut empty: Vec<u8> = vec![];
    fb.fill_frame(&mut empty, Color565::Cyan);
    assert!(empty.is_empty());
}

#[test]
fn rectangle_is_filled_and_clipped() {
    let fb = Framebuffer::new();
    let mut frame = blank(0);
    fb.draw_rect(&mut frame, 126, 1, 5, 2, Color565::Green);
    let mut expected = blank(0);
    for (x, y) in [(126, 1), (127, 1), (126, 2), (127, 2)] {
        set(&mut expected, x, y, 0x07e0);
    }
    assert_eq!(frame, expected);
    fb.draw_rect(&mut frame, 0, 0, 0, 5, Color565::White);
    fb.draw_rect(&mut frame, 0, 0, 5, 0, Color565::White);
    fb.draw_rect(&mut frame, 200, 0, 5, 5, Color565::White);
    fb.draw_rect(&mut frame, u32::MAX, u32::MAX, u32::MAX, u32::MAX, Color565::White);
    assert_eq!(frame, expected);
    fb.draw_rect(&mut frame, 0, 126, u32::MAX, u32::MAX, Color565::Blue);
    for x in 0..W {
        set(&mut expected, x, 126, 0x001f);
        set(&mut expected, x, 127, 0x001f);
    }
    assert_eq!(frame, expected);
    fb.fill_rect(&mut frame, 1, 1, 1, 1, 0xabcd);
    assert_eq!(get(&frame, 1, 1), 0xabcd);
}

#[test]
fn large_font_has_capitals_digits_and_signs() {
    for c in "ABCDEFGHIJKLMNOPQRSTUVWXYZ0123456789 .:[]()-_+!<>/\\',".chars() {
        let cells = get_character_pattern(c).unwrap();
        assert_eq!(cells.len(), 25, "{:?}", c);
        assert!(cells.iter().all(|cell| *cell <= 1));
    }
    for c in "abcz@#%&*=?\"\n\u{e9}".chars() {
        assert!(get_character_pattern(c).is_none(), "{:?}", c);
    }
    assert_eq!(get_character_pattern('A').unwrap(), &[
        0, 1, 1, 1, 0, 1, 0, 0, 0, 1, 1, 1, 1, 1, 1, 1, 0, 0, 0, 1, 1, 0, 0, 0, 1,
    ]);
    assert_eq!(get_character_pattern(',').unwrap(), &[
        0, 0, 0, 0, 0, 0, 0, 0, 0, 0, 0, 0, 0, 0, 0, 0, 0, 1, 0, 0, 0, 1, 0, 0, 0,
    ]);
    assert_eq!(get_character_pattern(' ').unwrap(), &[0u8; 25]);
}

#[test]
fn small_font_draws_unknown_characters_as_spaces() {
    assert_eq!(label_pattern('K'), &[1, 0, 1, 1, 0, 1, 1, 1, 0, 1, 0, 1, 1, 0, 1]);
    assert_eq!(label_pattern('7'), &[1, 1, 1, 0, 0, 1, 0, 1, 0, 1, 0, 0, 1, 0, 0]);
    assert_eq!(label_pattern('x'), &[0u8; 15]);
    assert_eq!(label_pattern(' '), &[0u8; 15]);
    assert_eq!(header_pattern('K'), label_pattern('K'));
    assert_eq!(header_pattern('1'), label_pattern('1'));
    assert_eq!(header_pattern('B'), &[0u8; 15]);
    assert_eq!(header_pattern('2'), &[0u8; 15]);
    for digit in 0..=9u8 {
        assert_eq!(digit_pattern(digit), label_pattern((b'0' + digit) as char));
    }
}

#[test]
fn character_is_drawn_in_tiles() {
    let fb = Framebuffer::new();
    let mut frame = blank(0x1111);
    let cells = get_character_pattern('A').unwrap();
    fb.draw_character(&mut frame, cells, 2, 1, 1, Color565::White, None);
    assert_eq!(get(&frame, 2, 1), 0x0000);
    assert_eq!(get(&frame, 3, 1), 0xffff);
    assert_eq!(get(&frame, 6, 1), 0x0000);
    assert_eq!(get(&frame, 7, 1), 0x1111);
    assert_eq!(get(&frame, 2, 0), 0x1111);
    let mut expected = blank(0x1111);
    grid(&mut expected, cells, 5, 2, 1, 1, 0xffff, 0);
    assert_eq!(frame, expected);

    let mut scaled = blank(0x1111);
    fb.draw_character(&mut scaled, cells, 120, 121, 3, Color565::Red, Some(Color565::Blue));
    let mut expected = blank(0x1111);
    grid(&mut expected, cells, 5, 120, 121, 3, 0xf800, 0x001f);
    assert_eq!(scaled, expected);

    let mut untouched = blank(0x1111);
    fb.draw_character(&mut untouched, &cells[..24], 0, 0, 1, Color565::White, None);
    fb.draw_character(&mut untouched, cells, 0, 0, 0, Color565::White, None);
    fb.draw_character(&mut untouched, cells, u32::MAX, 0, u32::MAX, Color565::White, None);
    assert_eq!(untouched, blank(0x1111));
}

#[test]
fn text_skips_characters_that_the_font_lacks() {
    let fb = Framebuffer::new();
    let mut frame = blank(0);
    fb.draw_enhanced_text(&mut frame, "Ab1", 4, 5, 2, Color565::Yellow, Some(Color565::Red));
    let mut expected = blank(0);
    grid(&mut expected, get_character_pattern('A').unwrap(), 5, 4, 5, 2, 0xffe0, 0xf800);
    grid(&mut expected, get_character_pattern('1').unwrap(), 5, 16, 5, 2, 0xffe0, 0xf800);
    assert_eq!(frame, expected);

    let mut long = blank(0);
    fb.draw_enhanced_text(&mut long, "RAYHUNTER V1.2.0 RAYHUNTER", 1, 100, 3, Color565::White, None);
    let mut expected = blank(0);
    text(&mut expected, "RAYHUNTER V1.2.0 RAYHUNTER", 1, 100, 3, 0xffff, 0);
    assert_eq!(long, expected);

    let mut chars = blank(0);
    fb.draw_chars(&mut chars, &['O', 'K'], 0, 0, 1, Color565::White, None);
    let mut expected = blank(0);
    text(&mut expected, "OK", 0, 0, 1, 0xffff, 0);
    assert_eq!(chars, expected);
}

#[test]
fn label_and_header_advance_by_four_tiles() {
    let fb = Framebuffer::new();
    let mut frame = blank(0x2222);
    fb.draw_label(&mut frame, "K?7", 3, 4);
    let mut expected = blank(0x2222);
    grid(&mut expected, label_pattern('K'), 3, 3, 4, 2, 0x07ff, 0);
    grid(&mut expected, &[0u8; 15], 3, 11, 4, 2, 0x07ff, 0);
    grid(&mut expected, label_pattern('7'), 3, 19, 4, 2, 0x07ff, 0);
    assert_eq!(frame, expected);

    let mut frame = blank(0x2222);
    fb.draw_header(&mut frame, "RB1", 0, 120);
    let mut expected = blank(0x2222);
    grid(&mut expected, label_pattern('R'), 3, 0, 120, 3, 0xffff, 0);
    grid(&mut expected, &[0u8; 15], 3, 12, 120, 3, 0xffff, 0);
    grid(&mut expected, label_pattern('1'), 3, 24, 120, 3, 0xffff, 0);
    assert_eq!(frame, expected);
}

#[test]
fn number_is_drawn_digit_by_digit() {
    let fb = Framebuffer::new();
    let mut frame = blank(0x2222);
    fb.draw_number(&mut frame, 907, 10, 20);
    let mut expected = blank(0x2222);
    grid(&mut expected, digit_pattern(9), 3, 10, 20, 2, 0xffff, 0);
    grid(&mut expected, digit_pattern(0), 3, 18, 20, 2, 0xffff, 0);
    grid(&mut expected, digit_pattern(7), 3, 26, 20, 2, 0xffff, 0);
    assert_eq!(frame, expected);

    let mut single = blank(0x2222);
    fb.draw_digit(&mut single, 4, 1, 1);
    let mut expected = blank(0x2222);
    grid(&mut expected, digit_pattern(4), 3, 1, 1, 2, 0xffff, 0);
    assert_eq!(single, expected);

    assert_eq!(decimal_digits(0), vec![0]);
    assert_eq!(decimal_digits(9), vec![9]);
    assert_eq!(decimal_digits(10), vec![1, 0]);
    assert_eq!(decimal_digits(1234567890), vec![1, 2, 3, 4, 5, 6, 7, 8, 9, 0]);
    assert_eq!(decimal_digits(usize::MAX).len(), usize::MAX.to_string().len());
    assert_eq!(decimal_chars(4096), vec!['4', '0', '9', '6']);
    assert_eq!(tiles_of(&[1, 0, 2, 1], 5, 6), vec![5, 6, 6, 5]);
}

#[test]
fn tiles_are_drawn_row_after_row() {
    let fb = Framebuffer::new();
    let mut frame = blank(0);
    fb.draw_tiles(&mut frame, &[1, 2, 3, 4, 5, 6], 3, 2, 125, 126, 2);
    let mut expected = blank(0);
    for (i, pixel) in [1u16, 2, 3, 4, 5, 6].iter().enumerate() {
        for dy in 0..2 {
            for dx in 0..2 {
                set(&mut expected, 125 + (i % 3) * 2 + dx, 126 + (i / 3) * 2 + dy, *pixel);
            }
        }
    }
    assert_eq!(frame, expected);
    assert_eq!(get(&frame, 125, 126), 1);
    assert_eq!(get(&frame, 127, 126), 2);
    assert_eq!(get(&frame, 125, 127), 1);
}

#[test]
fn status_icons_have_their_shapes() {
    let shape = |icon: Icon, pixel: u16| -> Vec<String> {
        let pixels = icon_pixels(icon);
        assert_eq!(pixels.len(), 256);
        assert!(pixels.iter().all(|p| *p == pixel || *p == 0));
        pixels
            .chunks(16)
            .map(|row| row.iter().map(|p| if *p == pixel { '#' } else { '.' }).collect())
            .collect()
    };
    assert_eq!(shape(Icon::Okay, 0x07e0), vec![
        "................",
        "................",
        "................",
        "................",
        "..............#.",
        ".............##.",
        "............##..",
        "...........##...",
        ".....####.##....",
        ".....######.....",
        ".....#####......",
        "........#.......",
        "................",
        "................",
        "................",
        "................",
    ]);
    assert_eq!(shape(Icon::Warning, 0xffe0), vec![
        "................",
        ".......###......",
        ".......###......",
        "......#####.....",
        "......#...#.....",
        ".....##...##....",
        ".....##...##....",
        "....###...###...",
        "....###...###...",
        "...####...####..",
        "...###########..",
        "..#############.",
        "..#############.",
        ".######...######",
        ".###############",
        "................",
    ]);
    assert_eq!(shape(Icon::Error, 0xf800), vec![
        "................",
        "..#..........#..",
        "..##........##..",
        "..###......###..",
        "...###....###...",
        "....###..###....",
        ".....######.....",
        "......####......",
        "......####......",
        ".....######.....",
        "....###..###....",
        "...###....###...",
        "..###......###..",
        "..##........##..",
        "..#..........#..",
        "................",
    ]);
}

#[test]
fn status_icon_is_drawn_by_name() {
    let fb = Framebuffer::new();
    for (name, icon) in [("ok", Icon::Okay), ("warning", Icon::Warning), ("error", Icon::Error)] {
        let mut frame = blank(0x3333);
        fb.draw_status_icon(&mut frame, name, 120, 5);
        let mut expected = blank(0x3333);
        for (i, pixel) in icon_pixels(icon).iter().enumerate() {
            set(&mut expected, 120 + i % 16, 5 + i / 16, *pixel);
        }
        assert_eq!(frame, expected, "{}", name);
    }
    let mut frame = blank(0x3333);
    fb.draw_status_icon(&mut frame, "OK", 0, 0);
    fb.draw_status_icon(&mut frame, "", 0, 0);
    assert_eq!(frame, blank(0x3333));
}

#[test]
fn bar_covers_the_rows_asked_for() {
    let fb = Framebuffer::new();
    let bar = fb.draw_line(Color565::Pink, 3);
    assert_eq!(bar.len(), 2 * 3 * W);
    assert!(bar.chunks(2).all(|pixel| pixel == [0x9f, 0xf4]));
    assert!(fb.draw_line(Color565::Pink, 0).is_empty());
    assert_eq!(fb.draw_line(Color565::Black, 128), blank(0));
}

#[test]
fn warning_is_a_bar_and_a_block() {
    let fb = Framebuffer::new();
    let (bar, block) = fb.draw_warning("ab", "High", Color565::Red);
    assert_eq!(bar, fb.draw_line(Color565::Red, 10));
    assert_eq!(block.len(), 2 * 29 * W);
    for row in 0..29 {
        for x in 0..W {
            let at = 2 * (row * W + x);
            let pixel = u16::from_le_bytes([block[at], block[at + 1]]);
            let white = row + 11 < 25 && x < 12;
            assert_eq!(pixel, if white { 0xffff } else { 0 }, "row {} column {}", row, x);
        }
    }
    let (_, long) = fb.draw_warning("a message of more than twenty bytes", "Low", Color565::Cyan);
    let (_, twenty) = fb.draw_warning("12345678901234567890", "Low", Color565::Cyan);
    assert_eq!(long, twenty);
    assert_eq!(u16::from_le_bytes([long[2 * 119], long[2 * 119 + 1]]), 0xffff);
    assert_eq!(u16::from_le_bytes([long[2 * 120], long[2 * 120 + 1]]), 0);
    let (_, none) = fb.draw_warning("", "Low", Color565::Cyan);
    assert!(none.iter().all(|byte| *byte == 0));
}

#[test]
fn date_is_shortened_to_month_day_and_time() {
    let short = |text: &str| -> Option<String> {
        shorten_date(&chars_of(text)).map(|chars| chars.into_iter().collect())
    };
    assert_eq!(short("Tue Mar 18 2025 03:18:12 GMT-0400"), Some("MAR 18 03:18".to_string()));
    assert_eq!(short("Tue mar 18 2025 0318 +00:00"), Some("MAR 18 0318".to_string()));
    assert_eq!(short("  Tue\tMar\u{a0}18  2025 03:18 x "), Some("MAR 18 03:18".to_string()));
    assert_eq!(short("a stra\u{df}e c d 1:2:3:4"), Some("STRASSE c 1:2".to_string()));
    assert_eq!(short("a b c d :"), Some("B c :".to_string()));
    assert_eq!(short("a b c GMT"), None);
    assert_eq!(short("a b c d"), None);
    assert_eq!(short("a b c d e"), Some("B c e".to_string()));
    assert_eq!(short("    "), None);
    assert_eq!(short("GMT"), None);
    assert_eq!(short("aGMTb c d e f"), Some("C d f".to_string()));
    assert_eq!(short(""), None);
}

#[test]
fn words_pieces_and_counts() {
    let words = |text: &str| -> Vec<String> {
        split_words(&chars_of(text)).into_iter().map(|w| w.into_iter().collect()).collect()
    };
    assert_eq!(words(" a  bc\td\n"), vec!["a", "bc", "d"]);
    assert_eq!(words("abc"), vec!["abc"]);
    assert!(words("").is_empty());
    assert!(words(" \u{2003} ").is_empty());
    let pieces = |text: &str| -> Vec<String> {
        split_at(&chars_of(text), ':').into_iter().map(|w| w.into_iter().collect()).collect()
    };
    assert_eq!(pieces("03:18:12"), vec!["03", "18", "12"]);
    assert_eq!(pieces(""), vec![""]);
    assert_eq!(pieces(":"), vec!["", ""]);
    assert_eq!(pieces("a:"), vec!["a", ""]);
    assert_eq!(pieces("abc"), vec!["abc"]);
    assert_eq!(shorten_time(&chars_of("03:18:12")), chars_of("03:18"));
    assert_eq!(shorten_time(&chars_of("0318")), chars_of("0318"));
    assert_eq!(count_spaces(&chars_of(" a b  ")), 4);
    assert_eq!(count_spaces(&chars_of("a\tb")), 0);
    assert!(contains_gmt(&chars_of("xGMT")));
    assert!(contains_gmt(&chars_of("GMT")));
    assert!(!contains_gmt(&chars_of("GM T")));
    assert!(!contains_gmt(&chars_of("GM")));
    assert!(!contains_gmt(&chars_of("gmt")));
    assert_eq!(chars_of("a\u{e9}"), vec!['a', '\u{e9}']);
}

fn expected_status(
    name_text: &str,
    size_text: &str,
    last_text: &str,
    warnings: usize,
    tick: u32,
) -> Vec<u8> {
    let (bg, ink) = if warnings > 0 { (0xf800, 0xffff) } else { (0x07e0, 0x0000) };
    let mut frame = blank(bg);
    text(&mut frame, "RAYHUNTER", 13, 6, 2, 0x001f, bg);
    text(&mut frame, "RAYHUNTER", 12, 5, 2, 0x07ff, bg);
    text(&mut frame, "RAYHUNTER", 11, 4, 2, 0xffff, bg);
    text(&mut frame, "RAYHUNTER", 10, 3, 2, 0x0000, bg);
    text(&mut frame, "v0.0.1", 93, 15, 1, ink, bg);
    text(&mut frame, "SIZE:", 10, 25, 1, ink, bg);
    text(&mut frame, size_text, 15, 32, 1, ink, bg);
    text(&mut frame, "START:", 10, 47, 1, ink, bg);
    text(&mut frame, name_text, 15, 54, 1, ink, bg);
    text(&mut frame, "LAST MSG:", 10, 69, 1, ink, bg);
    text(&mut frame, last_text, 15, 76, 1, ink, bg);
    let warnings_text = format!("WARNINGS: {}", warnings);
    if warnings > 0 {
        text(&mut frame, &warnings_text, 10, 91, 2, 0xffe0, bg);
        let icon_x = 10 + warnings_text.len() * 12 + 5;
        for i in 0..3 {
            for j in 0..7 {
                if j < 5 || j == 6 {
                    set(&mut frame, icon_x + i, 89 + j, 0xffe0);
                }
            }
        }
    } else {
        text(&mut frame, &warnings_text, 10, 91, 1, ink, bg);
    }
    for y in 115..123 {
        for x in 115..123 {
            set(&mut frame, x, y, bg);
        }
    }
    for i in 0..8 {
        if tick % 2 == 0 {
            set(&mut frame, 115 + i, 119, ink);
        } else {
            set(&mut frame, 119, 115 + i, ink);
        }
    }
    frame
}

#[test]
fn detailed_status_without_warnings_is_green() {
    let fb = Framebuffer::new();
    let config = Config::default();
    let frame = fb.draw_detailed_status(
        "Tue Mar 18 2025 03:18:12 GMT-0400",
        2049,
        0,
        0,
        None,
        Color565::Pink,
        &config,
        Some("Wed Mar 19 2025 14:05:59 GMT-0400"),
        0,
    );
    assert_eq!(frame.len(), 2 * W * H);
    assert_eq!(get(&frame, 0, 0), 0x07e0);
    assert_eq!(frame, expected_status("MAR 18 03:18", "3KB", "MAR 19 14:05", 0, 0));
}

#[test]
fn detailed_status_with_warnings_is_red() {
    let fb = Framebuffer::new();
    let config = Config::default();
    let frame = fb.draw_detailed_status(
        "RAYHUNTER",
        1024,
        5,
        12,
        Some("w"),
        Color565::Pink,
        &config,
        None,
        7,
    );
    assert_eq!(get(&frame, 0, 0), 0xf800);
    assert_eq!(frame, expected_status("MAR 18 01:00", "1KB", "None", 12, 3));
}

#[test]
fn detailed_status_shows_other_times_as_they_are() {
    let fb = Framebuffer::new();
    let config = Config::default();
    let plain = fb.draw_detailed_status(
        "a b c d",
        0,
        0,
        0,
        None,
        Color565::Pink,
        &config,
        Some("JUST NOW"),
        1,
    );
    assert_eq!(plain, expected_status("MAR 18 01:00", "0KB", "JUST NOW", 0, 1));
    let no_short_form = fb.draw_detailed_status(
        "x",
        1,
        0,
        0,
        None,
        Color565::Pink,
        &config,
        Some("GMT"),
        2,
    );
    assert_eq!(no_short_form, expected_status("MAR 18 01:00", "1KB", "None", 0, 2));
    let large = fb.draw_detailed_status(
        "x",
        usize::MAX,
        0,
        0,
        None,
        Color565::Pink,
        &config,
        None,
        u32::MAX,
    );
    let kb = format!("{}KB", usize::MAX / 1024 + 1);
    assert_eq!(large, expected_status("MAR 18 01:00", &kb, "None", 0, 1));
}

#[test]
fn white_space_is_what_unicode_counts_as_such() {
    let set = [
        0x09u32, 0x0a, 0x0b, 0x0c, 0x0d, 0x20, 0x85, 0xa0, 0x1680, 0x2000, 0x2001, 0x2002, 0x2003,
        0x2004, 0x2005, 0x2006, 0x2007, 0x2008, 0x2009, 0x200a, 0x2028, 0x2029, 0x202f, 0x205f,
        0x3000,
    ];
    for code in 0..=0x10ffffu32 {
        if let Some(c) = char::from_u32(code) {
            let words = split_words(&['a', c, 'b']);
            let white = set.contains(&code);
            assert_eq!(words.len(), if white { 2 } else { 1 }, "U+{:04X}", code);
        }
    }
}
