use cli_tools::colors::{
    basic_colors_text, extended_colors_text, formatting_text, header, palette_256_text,
    parse_args, render, rgb_colors_text, test_patterns_text, Config, Invocation,
};

fn strings(list: &[&str]) -> Vec<String> {
    list.iter().map(|s| s.to_string()).collect()
}

fn nothing() -> Config {
    Config {
        show_basic: false,
        show_extended: false,
        show_256: false,
        show_rgb: false,
        show_format: false,
        show_test: false,
    }
}

fn heading(title: &str) -> String {
    format!("\n{}\n{}\n", title, "=".repeat(title.len()))
}

#[test]
fn colors_default_shows_nothing() {
    assert_eq!(Config::default(), nothing());
}

#[test]
fn colors_no_arguments_show_the_usual() {
    let mut wanted = nothing();
    wanted.show_basic = true;
    wanted.show_extended = true;
    wanted.show_format = true;
    assert_eq!(parse_args(&strings(&["colors"])), Ok(Invocation::Run(wanted)));
}

#[test]
fn colors_no_program_name_shows_nothing() {
    assert_eq!(parse_args(&strings(&[])), Ok(Invocation::Run(nothing())));
}

#[test]
fn colors_each_option() {
    let one = |arg: &str| match parse_args(&strings(&["colors", arg])) {
        Ok(Invocation::Run(config)) => config,
        other => panic!("{:?}", other),
    };
    for arg in ["-b", "--basic"] {
        assert_eq!(one(arg), Config { show_basic: true, ..nothing() });
    }
    for arg in ["-e", "--extended"] {
        assert_eq!(one(arg), Config { show_extended: true, ..nothing() });
    }
    for arg in ["-2", "--256"] {
        assert_eq!(one(arg), Config { show_256: true, ..nothing() });
    }
    for arg in ["-r", "--rgb"] {
        assert_eq!(one(arg), Config { show_rgb: true, ..nothing() });
    }
    for arg in ["-f", "--format"] {
        assert_eq!(one(arg), Config { show_format: true, ..nothing() });
    }
    for arg in ["-t", "--test"] {
        assert_eq!(one(arg), Config { show_test: true, ..nothing() });
    }
}

#[test]
fn colors_options_together() {
    assert_eq!(
        parse_args(&strings(&["colors", "-b", "-f", "--rgb", "-b"])),
        Ok(Invocation::Run(Config {
            show_basic: true,
            show_format: true,
            show_rgb: true,
            ..nothing()
        }))
    );
}

#[test]
fn colors_help_and_errors_come_in_turn() {
    assert_eq!(parse_args(&strings(&["colors", "-h"])), Ok(Invocation::Help));
    assert_eq!(parse_args(&strings(&["colors", "-b", "--help", "-x"])), Ok(Invocation::Help));
    assert_eq!(
        parse_args(&strings(&["colors", "-b", "-x", "--help"])).unwrap_err(),
        "Unknown option: -x"
    );
    assert_eq!(parse_args(&strings(&["colors", ""])).unwrap_err(), "Unknown option: ");
    assert_eq!(parse_args(&strings(&["colors", "basic"])).unwrap_err(), "Unknown option: basic");
}

#[test]
fn colors_headings() {
    assert_eq!(header("Title"), "\nTitle\n=====\n");
    assert_eq!(header(""), "\n\n\n");
    assert_eq!(header("Größe"), "\nGröße\n=======\n");
}

#[test]
fn colors_basic_text() {
    let mut wanted = heading("Basic Colors (0-7)");
    wanted += "Foreground: ";
    for i in 30..38 {
        wanted += &format!("\x1b[{}m {:02} \x1b[0m", i, i - 30);
    }
    wanted += "\nBackground: ";
    for i in 40..48 {
        wanted += &format!("\x1b[{}m {:02} \x1b[0m", i, i - 40);
    }
    wanted += "\n";
    assert_eq!(basic_colors_text(), wanted);
    assert!(wanted.contains("\x1b[37m 07 \x1b[0m\nBackground: \x1b[40m 00 \x1b[0m"));
}

#[test]
fn colors_extended_text() {
    let mut wanted = heading("Extended Colors (8-15)");
    wanted += "Foreground: ";
    for i in 90..98 {
        wanted += &format!("\x1b[{}m {:02} \x1b[0m", i, i - 90);
    }
    wanted += "\nBackground: ";
    for i in 100..108 {
        wanted += &format!("\x1b[{}m {:02} \x1b[0m", i, i - 100);
    }
    wanted += "\n";
    assert_eq!(extended_colors_text(), wanted);
}

#[test]
fn colors_palette_text() {
    let mut wanted = heading("256 Color Mode");
    wanted += "Standard colors:\n";
    for i in 0..16 {
        wanted += &format!("\x1b[48;5;{}m {:3} \x1b[0m", i, i);
        if (i + 1) % 8 == 0 {
            wanted += "\n";
        }
    }
    wanted += "\nColor cube:\n";
    for i in 0..6 {
        for j in 0..6 {
            for k in 0..6 {
                let color = 16 + (36 * i) + (6 * j) + k;
                wanted += &format!("\x1b[48;5;{}m {:3} \x1b[0m", color, color);
            }
            wanted += " ";
        }
        wanted += "\n";
    }
    wanted += "\nGrayscale:\n";
    for i in 232..256 {
        wanted += &format!("\x1b[48;5;{}m {:3} \x1b[0m", i, i);
        if (i + 1) % 8 == 0 {
            wanted += "\n";
        }
    }
    wanted += "\n";
    let got = palette_256_text();
    assert_eq!(got, wanted);
    assert!(got.contains("\x1b[48;5;231m 231 \x1b[0m \n\nGrayscale:\n\x1b[48;5;232m 232 \x1b[0m"));
    assert!(got.ends_with("\x1b[48;5;255m 255 \x1b[0m\n\n"));
}

#[test]
fn colors_rgb_text() {
    let mut wanted = heading("RGB Color Examples");
    wanted += "Red gradient:\n";
    for i in 0..8 {
        let val = i * 31;
        wanted += &format!("\x1b[48;2;{};0;0m {:3} \x1b[0m", val, val);
    }
    wanted += "\nGreen gradient:\n";
    for i in 0..8 {
        let val = i * 31;
        wanted += &format!("\x1b[48;2;0;{};0m {:3} \x1b[0m", val, val);
    }
    wanted += "\nBlue gradient:\n";
    for i in 0..8 {
        let val = i * 31;
        wanted += &format!("\x1b[48;2;0;0;{}m {:3} \x1b[0m", val, val);
    }
    wanted += "\n\nSome RGB colors:\n";
    let colors = [
        (255, 0, 0, "Red"),
        (0, 255, 0, "Green"),
        (0, 0, 255, "Blue"),
        (255, 255, 0, "Yellow"),
        (255, 0, 255, "Magenta"),
        (0, 255, 255, "Cyan"),
    ];
    for (r, g, b, name) in colors.iter() {
        wanted += &format!("\x1b[48;2;{};{};{}m {} \x1b[0m ", r, g, b, name);
    }
    wanted += "\n";
    let got = rgb_colors_text();
    assert_eq!(got, wanted);
    assert!(got.contains("\x1b[48;2;0;217;0m 217 \x1b[0m"));
}

#[test]
fn colors_formatting_text() {
    let mut wanted = heading("Text Formatting");
    let formats = [
        (1, "Bold"),
        (2, "Dim"),
        (3, "Italic"),
        (4, "Underline"),
        (5, "Blink"),
        (7, "Reverse"),
        (9, "Strikethrough"),
    ];
    for (code, name) in formats.iter() {
        wanted += &format!("\x1b[{}m{:<15}\x1b[0m - \\x1b[{}m\n", code, name, code);
    }
    let got = formatting_text();
    assert_eq!(got, wanted);
    assert!(got.contains("\x1b[1mBold           \x1b[0m - \\x1b[1m\n"));
}

#[test]
fn colors_test_patterns_text() {
    let text = "Hello, World!";
    let mut wanted = heading("Test Patterns");
    wanted += &format!("Normal:          {}\n", text);
    wanted += &format!("Bold:            \x1b[1m{}\x1b[0m\n", text);
    wanted += &format!("Dim:             \x1b[2m{}\x1b[0m\n", text);
    wanted += &format!("Italic:          \x1b[3m{}\x1b[0m\n", text);
    wanted += &format!("Underline:       \x1b[4m{}\x1b[0m\n", text);
    wanted += &format!("Blink:           \x1b[5m{}\x1b[0m\n", text);
    wanted += &format!("Reverse:         \x1b[7m{}\x1b[0m\n", text);
    wanted += &format!("Hidden:          \x1b[8m{}\x1b[0m (hidden)\n", text);
    wanted += &format!("Strikethrough:   \x1b[9m{}\x1b[0m\n", text);
    wanted += "\nColor combinations:\n";
    wanted += &format!("Red on White:    \x1b[31;47m{}\x1b[0m\n", text);
    wanted += &format!("Blue on Yellow:  \x1b[34;43m{}\x1b[0m\n", text);
    wanted += &format!("White on Blue:   \x1b[37;44m{}\x1b[0m\n", text);
    wanted += &format!("Yellow on Red:   \x1b[33;41m{}\x1b[0m\n", text);
    assert_eq!(test_patterns_text(), wanted);
}

#[test]
fn colors_render_what_is_asked_for() {
    assert_eq!(render(&nothing()), "\x1b[0m");
    let all = Config {
        show_basic: true,
        show_extended: true,
        show_256: true,
        show_rgb: true,
        show_format: true,
        show_test: true,
    };
    assert_eq!(
        render(&all),
        basic_colors_text()
            + &extended_colors_text()
            + &palette_256_text()
            + &rgb_colors_text()
            + &formatting_text()
            + &test_patterns_text()
            + "\x1b[0m"
    );
    let some = Config { show_rgb: true, show_basic: true, ..nothing() };
    assert_eq!(render(&some), basic_colors_text() + &rgb_colors_text() + "\x1b[0m");
}
