use gifterm::terminal::{answer_is_yes, first_existing, kitty_candidates, kitty_launch_args, term_indicates_kitty, which_output_path};

#[test]
fn term_variables() {
    assert!(term_indicates_kitty(Some("xterm-kitty"), None));
    assert!(term_indicates_kitty(None, Some("WezTerm")));
    assert!(term_indicates_kitty(None, Some("KITTY")));
    assert!(term_indicates_kitty(Some("xterm"), Some("wezterm")));
    assert!(!term_indicates_kitty(Some("xterm-256color"), Some("Apple_Terminal")));
    assert!(!term_indicates_kitty(None, None));
    assert!(!term_indicates_kitty(Some("KITTY"), None));
}

#[test]
fn term_program_lowercased_by_unicode_rules() {
    // KELVIN SIGN lowercases to an ASCII `k`.
    assert!(term_indicates_kitty(None, Some("\u{212A}itty")));
}

#[test]
fn yes_answers() {
    assert!(answer_is_yes(""));
    assert!(answer_is_yes("\n"));
    assert!(answer_is_yes("y\n"));
    assert!(answer_is_yes("  Y  \n"));
    assert!(answer_is_yes("yes"));
    assert!(answer_is_yes("YeS\r\n"));
    assert!(answer_is_yes("\u{3000}y\u{a0}"));
}

#[test]
fn no_answers() {
    assert!(!answer_is_yes("n\n"));
    assert!(!answer_is_yes("no"));
    assert!(!answer_is_yes("yep"));
    assert!(!answer_is_yes("y y"));
}

#[test]
fn candidates_in_order() {
    assert_eq!(
        kitty_candidates(),
        vec![
            "/opt/homebrew/bin/kitty",
            "/usr/local/bin/kitty",
            "/usr/bin/kitty",
            "/Applications/kitty.app/Contents/MacOS/kitty",
        ]
    );
}

#[test]
fn launch_args_skip_program_name() {
    let args = vec!["gifterm".to_string(), "lofi.gif".to_string(), "--width".to_string(), "400".to_string()];
    assert_eq!(
        kitty_launch_args("/usr/bin/gifterm", &args),
        vec!["--hold", "/usr/bin/gifterm", "lofi.gif", "--width", "400"]
    );
    assert_eq!(kitty_launch_args("g", &vec!["g".to_string()]), vec!["--hold", "g"]);
}

#[test]
fn which_output_is_trimmed() {
    assert_eq!(which_output_path(true, b"/usr/bin/kitty\n"), Some("/usr/bin/kitty".to_string()));
    assert_eq!(which_output_path(true, b"  /x/k\xff\t\n"), Some("/x/k\u{fffd}".to_string()));
    assert_eq!(which_output_path(false, b"/usr/bin/kitty\n"), None);
}

#[test]
fn first_existing_candidate() {
    assert_eq!(first_existing(&[false, true, true]), Some(1));
    assert_eq!(first_existing(&[true]), Some(0));
    assert_eq!(first_existing(&[false, false]), None);
    assert_eq!(first_existing(&[]), None);
}
