use pinentry_cadenza::cli::filter_gtk_args;

fn args(v: &[&str]) -> Vec<String> {
    v.iter().map(|s| s.to_string()).collect()
}

#[test]
fn strips_display_space_form() {
    let input = args(&["--display", ":0", "--other"]);
    assert_eq!(filter_gtk_args(&input), args(&["--other"]));
}

#[test]
fn strips_display_equals_form() {
    let input = args(&["--display=:0", "--other"]);
    assert_eq!(filter_gtk_args(&input), args(&["--other"]));
}

#[test]
fn strips_boolean_flag() {
    let input = args(&["--no-global-grab", "--other"]);
    assert_eq!(filter_gtk_args(&input), args(&["--other"]));
}

#[test]
fn strips_short_option_with_value() {
    let input = args(&["-T", "/dev/pts/1", "--other"]);
    assert_eq!(filter_gtk_args(&input), args(&["--other"]));
}

#[test]
fn strips_multiple_options() {
    let input = args(&[
        "--display",
        ":0",
        "--ttyname",
        "/dev/pts/1",
        "--lc-ctype",
        "en_US.UTF-8",
        "--lc-messages",
        "en_US.UTF-8",
    ]);
    assert_eq!(filter_gtk_args(&input), args(&[]));
}

#[test]
fn preserves_unknown_args() {
    let input = args(&["--gdk-debug=events", "--display", ":0"]);
    assert_eq!(filter_gtk_args(&input), args(&["--gdk-debug=events"]));
}

#[test]
fn empty_input() {
    assert_eq!(filter_gtk_args(&[]), Vec::<String>::new());
}

// -- further cases -------------------------------------------------------------

#[test]
fn value_option_at_end_without_value_is_dropped() {
    let input = args(&["--other", "--ttyname"]);
    assert_eq!(filter_gtk_args(&input), args(&["--other"]));
}

#[test]
fn equals_prefix_must_match_exactly() {
    // "--displays=..." is not the `--display=` form
    let input = args(&["--displays=:0", "--display"]);
    assert_eq!(filter_gtk_args(&input), args(&["--displays=:0"]));
}

#[test]
fn equals_form_of_flag_without_value_is_kept() {
    // `--debug` takes no value, so `--debug=1` is not one of its forms
    let input = args(&["--debug=1", "-g"]);
    assert_eq!(filter_gtk_args(&input), args(&["--debug=1"]));
}

#[test]
fn value_token_is_consumed_even_if_it_looks_like_an_option() {
    let input = args(&["-d", "--debug", "--keep"]);
    assert_eq!(filter_gtk_args(&input), args(&["--keep"]));
}

#[test]
fn filtering_twice_equals_filtering_once() {
    let input = args(&["-W", "12", "--gtk-x", "--timeout=5", "a", "--purge-keys", "b"]);
    let once = filter_gtk_args(&input);
    assert_eq!(once, args(&["--gtk-x", "a", "b"]));
    assert_eq!(filter_gtk_args(&once), once);
}

#[test]
fn foreign_args_pass_unchanged() {
    let input = args(&["--gapplication-service", "x", "-v"]);
    assert_eq!(filter_gtk_args(&input), input);
}
