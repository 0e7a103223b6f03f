//! Showing what a terminal can do with colors and styles: the command line,
//! and the texts, escape sequences and all, that show each palette.

use crate::decimal::{
    decimal_text,
    padded_left,
    padded_right,
    push_decimal,
    push_fill,
    push_padded,
    repeated,
};
use crate::text::{chars_of, is_word, push_str, string_of, strings};
use vstd::prelude::*;
use vstd::string::StringSliceAdditionalSpecFns;

verus! {

/// Which palettes are shown.
#[derive(Debug, Clone, Copy, PartialEq, Eq, Structural)]
pub struct Config {
    pub show_basic: bool,
    pub show_extended: bool,
    pub show_256: bool,
    pub show_rgb: bool,
    pub show_format: bool,
    pub show_test: bool,
}

impl Default for Config {
    fn default() -> (r: Self)
        ensures
            r == nothing_shown(),
    {
        Config {
            show_basic: false,
            show_extended: false,
            show_256: false,
            show_rgb: false,
            show_format: false,
            show_test: false,
        }
    }
}

/// The configuration that shows nothing.
pub open spec fn nothing_shown() -> Config {
    Config {
        show_basic: false,
        show_extended: false,
        show_256: false,
        show_rgb: false,
        show_format: false,
        show_test: false,
    }
}

/// What a command line comes to: a request for the help text, or palettes to
/// show.
#[derive(Debug, Clone, Copy, PartialEq, Eq, Structural)]
pub enum Invocation {
    Help,
    Run(Config),
}

/// What the arguments from position `at` on come to, with `sofar` read of
/// those before. Every argument must be an option.
pub open spec fn parsed_from(args: Seq<Seq<char>>, at: int, sofar: Config) -> Result<
    Invocation,
    Seq<char>,
>
    decreases args.len() - at,
{
    if at < 0 || at >= args.len() {
        Ok(Invocation::Run(sofar))
    } else {
        let arg = args[at];
        if arg == "-b"@ || arg == "--basic"@ {
            parsed_from(args, at + 1, Config { show_basic: true, ..sofar })
        } else if arg == "-e"@ || arg == "--extended"@ {
            parsed_from(args, at + 1, Config { show_extended: true, ..sofar })
        } else if arg == "-2"@ || arg == "--256"@ {
            parsed_from(args, at + 1, Config { show_256: true, ..sofar })
        } else if arg == "-r"@ || arg == "--rgb"@ {
            parsed_from(args, at + 1, Config { show_rgb: true, ..sofar })
        } else if arg == "-f"@ || arg == "--format"@ {
            parsed_from(args, at + 1, Config { show_format: true, ..sofar })
        } else if arg == "-t"@ || arg == "--test"@ {
            parsed_from(args, at + 1, Config { show_test: true, ..sofar })
        } else if arg == "-h"@ || arg == "--help"@ {
            Ok(Invocation::Help)
        } else {
            Err("Unknown option: "@ + arg)
        }
    }
}

/// What a command line comes to. The first argument is the program's own
/// name and is not read; where nothing follows it, the basic and the
/// extended colors and the styles are shown.
pub open spec fn parsed_args(args: Seq<Seq<char>>) -> Result<Invocation, Seq<char>> {
    if args.len() == 1 {
        Ok(
            Invocation::Run(
                Config {
                    show_basic: true,
                    show_extended: true,
                    show_format: true,
                    ..nothing_shown()
                },
            ),
        )
    } else {
        parsed_from(args, 1, nothing_shown())
    }
}

/// A result with its message taken as a sequence of characters.
pub open spec fn parse_outcome(r: Result<Invocation, String>) -> Result<Invocation, Seq<char>> {
    match r {
        Ok(i) => Ok(i),
        Err(e) => Err(e@),
    }
}

/// Reads the command line.
pub fn parse_args(args: &Vec<String>) -> (r: Result<Invocation, String>)
    ensures
        parse_outcome(r) == parsed_args(strings(args@)),
{
    let mut config = Config::default();
    if args.len() == 1 {
        config.show_basic = true;
        config.show_extended = true;
        config.show_format = true;
        return Ok(Invocation::Run(config));
    }
    let ghost all = strings(args@);
    let mut i: usize = 1;
    while i < args.len()
        invariant
            1 <= i,
            all == strings(args@),
            parsed_args(all) == parsed_from(all, i as int, config),
        decreases args.len() - i,
    {
        let arg = chars_of(args[i].as_str());
        assert(arg@ == all[i as int]);
        if is_word(arg.as_slice(), "-b") || is_word(arg.as_slice(), "--basic") {
            config.show_basic = true;
        } else if is_word(arg.as_slice(), "-e") || is_word(arg.as_slice(), "--extended") {
            config.show_extended = true;
        } else if is_word(arg.as_slice(), "-2") || is_word(arg.as_slice(), "--256") {
            config.show_256 = true;
        } else if is_word(arg.as_slice(), "-r") || is_word(arg.as_slice(), "--rgb") {
            config.show_rgb = true;
        } else if is_word(arg.as_slice(), "-f") || is_word(arg.as_slice(), "--format") {
            config.show_format = true;
        } else if is_word(arg.as_slice(), "-t") || is_word(arg.as_slice(), "--test") {
            config.show_test = true;
        } else if is_word(arg.as_slice(), "-h") || is_word(arg.as_slice(), "--help") {
            return Ok(Invocation::Help);
        } else {
            let mut out: Vec<char> = Vec::new();
            push_str(&mut out, "Unknown option: ");
            push_str(&mut out, args[i].as_str());
            return Err(string_of(out.as_slice()));
        }
        i += 1;
    }
    Ok(Invocation::Run(config))
}

/// A heading: an empty line, the title, and a rule of `=` as long as the
/// title, counted in bytes.
pub open spec fn header_text(title: &str) -> Seq<char> {
    "\n"@ + title@ + "\n"@ + repeated('=', title.spec_bytes().len()) + "\n"@
}

fn push_header(out: &mut Vec<char>, title: &str)
    ensures
        final(out)@ == old(out)@ + header_text(title),
{
    push_str(out, "\n");
    push_str(out, title);
    push_str(out, "\n");
    push_fill(out, title.as_bytes().len(), '=');
    push_str(out, "\n");
}

/// A heading for `title`.
pub fn header(title: &str) -> (r: String)
    ensures
        r@ == header_text(title),
{
    let mut out: Vec<char> = Vec::new();
    push_header(&mut out, title);
    string_of(out.as_slice())
}

/// One sample of a color: the escape sequence that selects `code`, the
/// color's number in two digits between blanks, and the sequence that
/// resets.
pub open spec fn swatch(code: int, number: int) -> Seq<char> {
    "\x1b["@ + decimal_text(code as nat) + "m "@ + padded_left(decimal_text(number as nat), 2, '0')
        + " \x1b[0m"@
}

/// The samples of the first `count` colors whose codes start at `base`.
pub open spec fn swatches(base: int, count: int) -> Seq<char>
    decreases count,
{
    if count <= 0 {
        Seq::empty()
    } else {
        swatches(base, count - 1) + swatch(base + count - 1, count - 1)
    }
}

fn push_swatches(out: &mut Vec<char>, base: u64)
    requires
        base <= 1000,
    ensures
        final(out)@ == old(out)@ + swatches(base as int, 8),
{
    let mut i: u64 = 0;
    while i < 8
        invariant
            i <= 8,
            base <= 1000,
            out@ == old(out)@ + swatches(base as int, i as int),
        decreases 8 - i,
    {
        push_str(out, "\x1b[");
        push_decimal(out, base + i);
        push_str(out, "m ");
        push_padded(out, i, 2, '0');
        push_str(out, " \x1b[0m");
        i += 1;
    }
}

/// The eight colors whose codes start at `fore` as foreground, and those
/// whose codes start at `back` as background, under a heading.
pub open spec fn color_rows(title: &str, fore: int, back: int) -> Seq<char> {
    header_text(title) + "Foreground: "@ + swatches(fore, 8) + "\nBackground: "@ + swatches(back, 8)
        + "\n"@
}

fn color_rows_text(title: &str, fore: u64, back: u64) -> (r: String)
    requires
        fore <= 1000,
        back <= 1000,
    ensures
        r@ == color_rows(title, fore as int, back as int),
{
    let mut out: Vec<char> = Vec::new();
    push_header(&mut out, title);
    push_str(&mut out, "Foreground: ");
    push_swatches(&mut out, fore);
    push_str(&mut out, "\nBackground: ");
    push_swatches(&mut out, back);
    push_str(&mut out, "\n");
    string_of(out.as_slice())
}

/// The text that shows the basic colors, 0 to 7: foreground codes 30 to 37
/// and background codes 40 to 47.
pub fn basic_colors_text() -> (r: String)
    ensures
        r@ == color_rows("Basic Colors (0-7)", 30, 40),
{
    color_rows_text("Basic Colors (0-7)", 30, 40)
}

/// The text that shows the extended colors, 8 to 15: foreground codes 90 to
/// 97 and background codes 100 to 107.
pub fn extended_colors_text() -> (r: String)
    ensures
        r@ == color_rows("Extended Colors (8-15)", 90, 100),
{
    color_rows_text("Extended Colors (8-15)", 90, 100)
}

/// One sample of a color of the palette of 256: the escape sequence that
/// selects it as background, its number in three columns between blanks, and
/// the sequence that resets.
pub open spec fn palette_cell(color: int) -> Seq<char> {
    "\x1b[48;5;"@ + decimal_text(color as nat) + "m "@ + padded_left(
        decimal_text(color as nat),
        3,
        ' ',
    ) + " \x1b[0m"@
}

/// The samples of `count` colors from `from` on, eight to a line: a line
/// ends after each color whose number is one less than a multiple of eight.
pub open spec fn palette_run(from: int, count: int) -> Seq<char>
    decreases count,
{
    if count <= 0 {
        Seq::empty()
    } else {
        palette_run(from, count - 1) + palette_cell(from + count - 1) + (if (from + count) % 8
            == 0 {
            "\n"@
        } else {
            Seq::empty()
        })
    }
}

/// The number of the color at the given place in the cube of six by six by
/// six colors.
pub open spec fn cube_color(i: int, j: int, k: int) -> int {
    16 + 36 * i + 6 * j + k
}

/// The first `count` samples of one group of the cube.
pub open spec fn cube_group(i: int, j: int, count: int) -> Seq<char>
    decreases count,
{
    if count <= 0 {
        Seq::empty()
    } else {
        cube_group(i, j, count - 1) + palette_cell(cube_color(i, j, count - 1))
    }
}

/// The first `count` groups of one line of the cube, a blank after each.
pub open spec fn cube_line(i: int, count: int) -> Seq<char>
    decreases count,
{
    if count <= 0 {
        Seq::empty()
    } else {
        cube_line(i, count - 1) + cube_group(i, count - 1, 6) + " "@
    }
}

/// The first `count` lines of the cube.
pub open spec fn cube_lines(count: int) -> Seq<char>
    decreases count,
{
    if count <= 0 {
        Seq::empty()
    } else {
        cube_lines(count - 1) + cube_line(count - 1, 6) + "\n"@
    }
}

/// The text that shows the palette of 256 colors: the sixteen standard
/// colors, the cube, and the shades of gray from 232 to 255.
pub open spec fn palette_text() -> Seq<char> {
    header_text("256 Color Mode") + "Standard colors:\n"@ + palette_run(0, 16) + "\nColor cube:\n"@
        + cube_lines(6) + "\nGrayscale:\n"@ + palette_run(232, 24) + "\n"@
}

fn push_cell(out: &mut Vec<char>, color: u64)
    ensures
        final(out)@ == old(out)@ + palette_cell(color as int),
{
    push_str(out, "\x1b[48;5;");
    push_decimal(out, color);
    push_str(out, "m ");
    push_padded(out, color, 3, ' ');
    push_str(out, " \x1b[0m");
}

fn push_run(out: &mut Vec<char>, from: u64, count: u64)
    requires
        from <= 1000,
        count <= 1000,
    ensures
        final(out)@ == old(out)@ + palette_run(from as int, count as int),
{
    let mut n: u64 = 0;
    while n < count
        invariant
            n <= count,
            from <= 1000,
            count <= 1000,
            out@ == old(out)@ + palette_run(from as int, n as int),
        decreases count - n,
    {
        push_cell(out, from + n);
        if (from + n + 1) % 8 == 0 {
            push_str(out, "\n");
        }
        n += 1;
    }
}

fn push_cube(out: &mut Vec<char>)
    ensures
        final(out)@ == old(out)@ + cube_lines(6),
{
    let mut i: u64 = 0;
    while i < 6
        invariant
            i <= 6,
            out@ == old(out)@ + cube_lines(i as int),
        decreases 6 - i,
    {
        let ghost line_start = out@;
        let mut j: u64 = 0;
        while j < 6
            invariant
                i < 6,
                j <= 6,
                out@ == line_start + cube_line(i as int, j as int),
            decreases 6 - j,
        {
            let ghost group_start = out@;
            let mut k: u64 = 0;
            while k < 6
                invariant
                    i < 6,
                    j < 6,
                    k <= 6,
                    out@ == group_start + cube_group(i as int, j as int, k as int),
                decreases 6 - k,
            {
                let color: u64 = 16 + (36 * i) + (6 * j) + k;
                push_cell(out, color);
                k += 1;
            }
            push_str(out, " ");
            j += 1;
        }
        push_str(out, "\n");
        i += 1;
    }
}

/// The text that shows the palette of 256 colors.
pub fn palette_256_text() -> (r: String)
    ensures
        r@ == palette_text(),
{
    let mut out: Vec<char> = Vec::new();
    push_header(&mut out, "256 Color Mode");
    push_str(&mut out, "Standard colors:\n");
    push_run(&mut out, 0, 16);
    push_str(&mut out, "\nColor cube:\n");
    push_cube(&mut out);
    push_str(&mut out, "\nGrayscale:\n");
    push_run(&mut out, 232, 24);
    push_str(&mut out, "\n");
    string_of(out.as_slice())
}

/// The escape sequence that selects the color mixed of `red`, `green` and
/// `blue` as background, and a blank.
pub open spec fn rgb_start(red: int, green: int, blue: int) -> Seq<char> {
    "\x1b[48;2;"@ + decimal_text(red as nat) + ";"@ + decimal_text(green as nat) + ";"@
        + decimal_text(blue as nat) + "m "@
}

/// One sample of a gradient: the color that has `value` in the channel of
/// the given number (0 for red, 1 for green, else blue) and nothing in the
/// others, with the value in three columns.
pub open spec fn gradient_cell(channel: int, value: int) -> Seq<char> {
    (if channel == 0 {
        rgb_start(value, 0, 0)
    } else if channel == 1 {
        rgb_start(0, value, 0)
    } else {
        rgb_start(0, 0, value)
    }) + padded_left(decimal_text(value as nat), 3, ' ') + " \x1b[0m"@
}

/// The first `count` samples of a gradient, in steps of 31.
pub open spec fn gradient(channel: int, count: int) -> Seq<char>
    decreases count,
{
    if count <= 0 {
        Seq::empty()
    } else {
        gradient(channel, count - 1) + gradient_cell(channel, (count - 1) * 31)
    }
}

/// One sample of a color with a name: the color as background of its name.
pub open spec fn named_color(red: int, green: int, blue: int, name: Seq<char>) -> Seq<char> {
    rgb_start(red, green, blue) + name + " \x1b[0m "@
}

/// The text that shows colors mixed of red, green and blue: a gradient of
/// each, and six colors with their names.
pub open spec fn rgb_text() -> Seq<char> {
    header_text("RGB Color Examples") + "Red gradient:\n"@ + gradient(0, 8) + "\nGreen gradient:\n"@
        + gradient(1, 8) + "\nBlue gradient:\n"@ + gradient(2, 8) + "\n\nSome RGB colors:\n"@
        + named_color(255, 0, 0, "Red"@) + named_color(0, 255, 0, "Green"@) + named_color(
        0,
        0,
        255,
        "Blue"@,
    ) + named_color(255, 255, 0, "Yellow"@) + named_color(255, 0, 255, "Magenta"@) + named_color(
        0,
        255,
        255,
        "Cyan"@,
    ) + "\n"@
}

fn push_rgb_start(out: &mut Vec<char>, red: u64, green: u64, blue: u64)
    ensures
        final(out)@ == old(out)@ + rgb_start(red as int, green as int, blue as int),
{
    push_str(out, "\x1b[48;2;");
    push_decimal(out, red);
    push_str(out, ";");
    push_decimal(out, green);
    push_str(out, ";");
    push_decimal(out, blue);
    push_str(out, "m ");
}

fn push_gradient(out: &mut Vec<char>, channel: u64)
    ensures
        final(out)@ == old(out)@ + gradient(channel as int, 8),
{
    let mut i: u64 = 0;
    while i < 8
        invariant
            i <= 8,
            out@ == old(out)@ + gradient(channel as int, i as int),
        decreases 8 - i,
    {
        let val: u64 = i * 31;
        if channel == 0 {
            push_rgb_start(out, val, 0, 0);
        } else if channel == 1 {
            push_rgb_start(out, 0, val, 0);
        } else {
            push_rgb_start(out, 0, 0, val);
        }
        push_padded(out, val, 3, ' ');
        push_str(out, " \x1b[0m");
        i += 1;
    }
}

fn push_named(out: &mut Vec<char>, red: u64, green: u64, blue: u64, name: &str)
    ensures
        final(out)@ == old(out)@ + named_color(red as int, green as int, blue as int, name@),
{
    push_rgb_start(out, red, green, blue);
    push_str(out, name);
    push_str(out, " \x1b[0m ");
}

/// The text that shows colors mixed of red, green and blue.
pub fn rgb_colors_text() -> (r: String)
    ensures
        r@ == rgb_text(),
{
    let mut out: Vec<char> = Vec::new();
    push_header(&mut out, "RGB Color Examples");
    push_str(&mut out, "Red gradient:\n");
    push_gradient(&mut out, 0);
    push_str(&mut out, "\nGreen gradient:\n");
    push_gradient(&mut out, 1);
    push_str(&mut out, "\nBlue gradient:\n");
    push_gradient(&mut out, 2);
    push_str(&mut out, "\n\nSome RGB colors:\n");
    push_named(&mut out, 255, 0, 0, "Red");
    push_named(&mut out, 0, 255, 0, "Green");
    push_named(&mut out, 0, 0, 255, "Blue");
    push_named(&mut out, 255, 255, 0, "Yellow");
    push_named(&mut out, 255, 0, 255, "Magenta");
    push_named(&mut out, 0, 255, 255, "Cyan");
    push_str(&mut out, "\n");
    string_of(out.as_slice())
}

/// One line for a style: its name set in the style, in fifteen columns, and
/// the escape sequence that selects it, spelled out.
pub open spec fn style_line(code: int, name: Seq<char>) -> Seq<char> {
    "\x1b["@ + decimal_text(code as nat) + "m"@ + padded_right(name, 15) + "\x1b[0m - \\x1b["@
        + decimal_text(code as nat) + "m\n"@
}

/// The text that shows the styles of text.
pub open spec fn styles_text() -> Seq<char> {
    header_text("Text Formatting") + style_line(1, "Bold"@) + style_line(2, "Dim"@) + style_line(
        3,
        "Italic"@,
    ) + style_line(4, "Underline"@) + style_line(5, "Blink"@) + style_line(7, "Reverse"@)
        + style_line(9, "Strikethrough"@)
}

fn push_style(out: &mut Vec<char>, code: u64, name: &str)
    ensures
        final(out)@ == old(out)@ + style_line(code as int, name@),
{
    push_str(out, "\x1b[");
    push_decimal(out, code);
    push_str(out, "m");
    let letters = chars_of(name);
    push_str(out, name);
    if letters.len() < 15 {
        push_fill(out, 15 - letters.len(), ' ');
    }
    push_str(out, "\x1b[0m - \\x1b[");
    push_decimal(out, code);
    push_str(out, "m\n");
}

/// The text that shows the styles of text.
pub fn formatting_text() -> (r: String)
    ensures
        r@ == styles_text(),
{
    let mut out: Vec<char> = Vec::new();
    push_header(&mut out, "Text Formatting");
    push_style(&mut out, 1, "Bold");
    push_style(&mut out, 2, "Dim");
    push_style(&mut out, 3, "Italic");
    push_style(&mut out, 4, "Underline");
    push_style(&mut out, 5, "Blink");
    push_style(&mut out, 7, "Reverse");
    push_style(&mut out, 9, "Strikethrough");
    string_of(out.as_slice())
}

/// One line of a sample text: a label, the text set with the escape
/// sequence of the given codes, and what follows it on the line.
pub open spec fn sample_line(label: Seq<char>, codes: Seq<char>, text: Seq<char>, tail: Seq<char>)
    -> Seq<char> {
    label + "\x1b["@ + codes + "m"@ + text + "\x1b[0m"@ + tail + "\n"@
}

/// The text that shows a sample in every style and in four pairs of
/// colors.
pub open spec fn samples_text() -> Seq<char> {
    let text = "Hello, World!"@;
    header_text("Test Patterns") + "Normal:          "@ + text + "\n"@ + sample_line(
        "Bold:            "@,
        "1"@,
        text,
        ""@,
    ) + sample_line("Dim:             "@, "2"@, text, ""@) + sample_line(
        "Italic:          "@,
        "3"@,
        text,
        ""@,
    ) + sample_line("Underline:       "@, "4"@, text, ""@) + sample_line(
        "Blink:           "@,
        "5"@,
        text,
        ""@,
    ) + sample_line("Reverse:         "@, "7"@, text, ""@) + sample_line(
        "Hidden:          "@,
        "8"@,
        text,
        " (hidden)"@,
    ) + sample_line("Strikethrough:   "@, "9"@, text, ""@) + "\nColor combinations:\n"@
        + sample_line("Red on White:    "@, "31;47"@, text, ""@) + sample_line(
        "Blue on Yellow:  "@,
        "34;43"@,
        text,
        ""@,
    ) + sample_line("White on Blue:   "@, "37;44"@, text, ""@) + sample_line(
        "Yellow on Red:   "@,
        "33;41"@,
        text,
        ""@,
    )
}

fn push_sample(out: &mut Vec<char>, label: &str, codes: &str, text: &str, tail: &str)
    ensures
        final(out)@ == old(out)@ + sample_line(label@, codes@, text@, tail@),
{
    push_str(out, label);
    push_str(out, "\x1b[");
    push_str(out, codes);
    push_str(out, "m");
    push_str(out, text);
    push_str(out, "\x1b[0m");
    push_str(out, tail);
    push_str(out, "\n");
}

/// The text that shows a sample in every style and in four pairs of
/// colors.
pub fn test_patterns_text() -> (r: String)
    ensures
        r@ == samples_text(),
{
    let text = "Hello, World!";
    let mut out: Vec<char> = Vec::new();
    push_header(&mut out, "Test Patterns");
    push_str(&mut out, "Normal:          ");
    push_str(&mut out, text);
    push_str(&mut out, "\n");
    push_sample(&mut out, "Bold:            ", "1", text, "");
    push_sample(&mut out, "Dim:             ", "2", text, "");
    push_sample(&mut out, "Italic:          ", "3", text, "");
    push_sample(&mut out, "Underline:       ", "4", text, "");
    push_sample(&mut out, "Blink:           ", "5", text, "");
    push_sample(&mut out, "Reverse:         ", "7", text, "");
    push_sample(&mut out, "Hidden:          ", "8", text, " (hidden)");
    push_sample(&mut out, "Strikethrough:   ", "9", text, "");
    push_str(&mut out, "\nColor combinations:\n");
    push_sample(&mut out, "Red on White:    ", "31;47", text, "");
    push_sample(&mut out, "Blue on Yellow:  ", "34;43", text, "");
    push_sample(&mut out, "White on Blue:   ", "37;44", text, "");
    push_sample(&mut out, "Yellow on Red:   ", "33;41", text, "");
    string_of(out.as_slice())
}

/// All that is shown for a configuration: the palettes it asks for, in a
/// fixed order, and the sequence that resets at the end.
pub open spec fn shown_text(config: Config) -> Seq<char> {
    (if config.show_basic {
        color_rows("Basic Colors (0-7)", 30, 40)
    } else {
        Seq::empty()
    }) + (if config.show_extended {
        color_rows("Extended Colors (8-15)", 90, 100)
    } else {
        Seq::empty()
    }) + (if config.show_256 {
        palette_text()
    } else {
        Seq::empty()
    }) + (if config.show_rgb {
        rgb_text()
    } else {
        Seq::empty()
    }) + (if config.show_format {
        styles_text()
    } else {
        Seq::empty()
    }) + (if config.show_test {
        samples_text()
    } else {
        Seq::empty()
    }) + "\x1b[0m"@
}

/// All that is shown for a configuration.
pub fn render(config: &Config) -> (r: String)
    ensures
        r@ == shown_text(*config),
{
    let mut out: Vec<char> = Vec::new();
    if config.show_basic {
        push_str(&mut out, basic_colors_text().as_str());
    }
    if config.show_extended {
        push_str(&mut out, extended_colors_text().as_str());
    }
    if config.show_256 {
        push_str(&mut out, palette_256_text().as_str());
    }
    if config.show_rgb {
        push_str(&mut out, rgb_colors_text().as_str());
    }
    if config.show_format {
        push_str(&mut out, formatting_text().as_str());
    }
    if config.show_test {
        push_str(&mut out, test_patterns_text().as_str());
    }
    push_str(&mut out, "\x1b[0m");
    string_of(out.as_slice())
}

} // verus!
