use pinentry_cadenza::assuan::{
    parse_command, percent_decode, percent_encode, server_step, write_data, write_err, write_ok,
    Command, ERR_NOT_IMPLEMENTED, ERR_UNKNOWN_IPC_COMMAND,
};
use pinentry_cadenza::state::PinentryState;

fn step(state: &mut PinentryState, line: &str) -> (String, bool) {
    server_step(state, line, "1.2.3", 4242)
}

#[test]
fn error_codes() {
    assert_eq!(ERR_NOT_IMPLEMENTED, 83886179);
    assert_eq!(ERR_UNKNOWN_IPC_COMMAND, 275);
}

#[test]
fn decode_plain_and_escapes() {
    assert_eq!(percent_decode("hello"), "hello");
    assert_eq!(percent_decode("a%20b%0Ac"), "a b\nc");
    assert_eq!(percent_decode("%25"), "%");
    assert_eq!(percent_decode("%c3%a9"), "é");
}

#[test]
fn decode_leaves_incomplete_escapes() {
    assert_eq!(percent_decode("100%"), "100%");
    assert_eq!(percent_decode("%4"), "%4");
    assert_eq!(percent_decode("%zz"), "%zz");
    assert_eq!(percent_decode("%%41"), "%A");
}

#[test]
fn decode_invalid_utf8_is_replaced() {
    assert_eq!(percent_decode("%ff"), "\u{FFFD}");
}

#[test]
fn encode_controls_and_percent() {
    assert_eq!(percent_encode("50% off\r\n"), "50%25 off%0D%0A");
    assert_eq!(percent_encode("\u{1}\u{7f}"), "%01%7F");
    assert_eq!(percent_encode("plain text"), "plain text");
}

#[test]
fn encode_passes_non_ascii_text_unchanged() {
    assert_eq!(percent_encode("é"), "é");
    assert_eq!(percent_encode("Grüße, 世界 🔑"), "Grüße, 世界 🔑");
    assert_eq!(percent_encode("€%\n"), "€%25%0A");
}

#[test]
fn encode_then_decode_roundtrip_any_text() {
    for s in ["é", "naïve%\r\n", "世界\u{1}", "🔑%zz", "\u{85}\u{a0}"] {
        assert_eq!(percent_decode(&percent_encode(s)), s);
    }
}

#[test]
fn encode_then_decode_ascii_roundtrip() {
    for s in ["", "a%b", "line1\nline2\r", "tab\there", "100%25", "\u{7f}\u{0}x"] {
        assert_eq!(percent_decode(&percent_encode(s)), s);
    }
}

#[test]
fn response_lines() {
    let mut out = String::new();
    write_ok(&mut out, "");
    write_ok(&mut out, "closing connection");
    write_err(&mut out, 275, "unknown command 'FOO'");
    write_data(&mut out, "cadenza");
    assert_eq!(
        out,
        "OK\nOK closing connection\nERR 275 unknown command 'FOO'\nD cadenza\n"
    );
}

#[test]
fn parse_set_commands_decode_argument() {
    match parse_command("SETDESC Enter%20your%0Apassphrase") {
        Command::SetDesc(s) => assert_eq!(s, "Enter your\npassphrase"),
        other => panic!("unexpected {other:?}"),
    }
    match parse_command("setprompt   PIN:") {
        Command::SetPrompt(s) => assert_eq!(s, "PIN:"),
        other => panic!("unexpected {other:?}"),
    }
    assert!(matches!(parse_command("SETTITLE"), Command::SetTitle(s) if s.is_empty()));
    assert!(matches!(parse_command("SetOk Yes"), Command::SetOk(s) if s == "Yes"));
    assert!(matches!(parse_command("SETCANCEL No"), Command::SetCancel(s) if s == "No"));
    assert!(matches!(parse_command("SETNOTOK Nope"), Command::SetNotOk(s) if s == "Nope"));
    assert!(matches!(parse_command("SETERROR Bad%20PIN"), Command::SetError(s) if s == "Bad PIN"));
    assert!(matches!(parse_command("SETKEYINFO n/ABC"), Command::SetKeyInfo(s) if s == "n/ABC"));
    assert!(matches!(parse_command("SETREPEAT Again"), Command::SetRepeat(s) if s == "Again"));
    assert!(
        matches!(parse_command("SETREPEATERROR No match"), Command::SetRepeatError(s) if s == "No match")
    );
    assert!(
        matches!(parse_command("SETQUALITYBAR_TT Strength"), Command::SetQualityBarTooltip(s) if s == "Strength")
    );
}

#[test]
fn parse_timeout() {
    assert!(matches!(parse_command("SETTIMEOUT 30"), Command::SetTimeout(30)));
    assert!(matches!(parse_command("SETTIMEOUT +7"), Command::SetTimeout(7)));
    assert!(matches!(parse_command("SETTIMEOUT abc"), Command::SetTimeout(0)));
    assert!(matches!(parse_command("SETTIMEOUT -5"), Command::SetTimeout(0)));
    assert!(matches!(parse_command("SETTIMEOUT 4294967295"), Command::SetTimeout(4294967295)));
    assert!(matches!(parse_command("SETTIMEOUT 4294967296"), Command::SetTimeout(0)));
    assert!(matches!(parse_command("SETTIMEOUT"), Command::SetTimeout(0)));
}

#[test]
fn parse_quality_bar() {
    assert!(matches!(parse_command("SETQUALITYBAR"), Command::SetQualityBar(None)));
    assert!(
        matches!(parse_command("SETQUALITYBAR Quality%3A"), Command::SetQualityBar(Some(s)) if s == "Quality:")
    );
}

#[test]
fn parse_dialog_commands() {
    assert!(matches!(parse_command("GETPIN"), Command::GetPin));
    assert!(matches!(parse_command("confirm"), Command::Confirm { one_button: false }));
    assert!(matches!(
        parse_command("CONFIRM --one-button"),
        Command::Confirm { one_button: true }
    ));
    assert!(matches!(parse_command("MESSAGE"), Command::Message));
}

#[test]
fn parse_other_commands() {
    assert!(matches!(parse_command("GETINFO version"), Command::GetInfo(s) if s == "version"));
    assert!(matches!(parse_command("RESET"), Command::Reset));
    assert!(matches!(parse_command("bye"), Command::Bye));
    assert!(matches!(parse_command("NOP"), Command::Nop));
    assert!(matches!(parse_command("Frobnicate now"), Command::Unknown(s) if s == "Frobnicate"));
}

#[test]
fn parse_option_forms() {
    assert!(matches!(
        parse_command("OPTION ttyname=/dev/pts/1"),
        Command::Option(k, Some(v)) if k == "ttyname" && v == "/dev/pts/1"
    ));
    assert!(matches!(
        parse_command("OPTION lc-ctype en_US.UTF-8 "),
        Command::Option(k, Some(v)) if k == "lc-ctype" && v == "en_US.UTF-8"
    ));
    assert!(matches!(parse_command("OPTION grab"), Command::Option(k, None) if k == "grab"));
    assert!(matches!(parse_command("OPTION display="), Command::Option(k, None) if k == "display"));
    assert!(matches!(
        parse_command("OPTION  key = v "),
        Command::Option(k, Some(v)) if k == "key" && v == " v "
    ));
}

#[test]
fn step_set_then_reset_keeps_session() {
    let mut st = PinentryState::default();
    assert_eq!(step(&mut st, "OPTION ttyname=/dev/pts/3"), ("OK\n".to_string(), false));
    assert_eq!(step(&mut st, "OPTION grab"), ("OK\n".to_string(), false));
    assert_eq!(step(&mut st, "  SETDESC Hello%20there  "), ("OK\n".to_string(), false));
    assert_eq!(st.desc.as_deref(), Some("Hello there"));
    assert_eq!(step(&mut st, "RESET"), ("OK\n".to_string(), false));
    assert!(st.desc.is_none());
    assert_eq!(st.ttyname.as_deref(), Some("/dev/pts/3"));
    assert!(st.grab);
}

#[test]
fn step_skips_blank_and_comment_lines() {
    let mut st = PinentryState::default();
    assert_eq!(step(&mut st, "   "), (String::new(), false));
    assert_eq!(step(&mut st, "# SETDESC x"), (String::new(), false));
    assert!(st.desc.is_none());
}

#[test]
fn step_dialog_commands_not_implemented_and_reset() {
    let mut st = PinentryState::default();
    step(&mut st, "SETERROR wrong");
    step(&mut st, "OPTION display=:0");
    let (out, close) = step(&mut st, "GETPIN");
    assert_eq!(out, "ERR 83886179 Not yet implemented\n");
    assert!(!close);
    assert!(st.error.is_none());
    assert_eq!(st.display.as_deref(), Some(":0"));
    assert_eq!(step(&mut st, "MESSAGE").0, "ERR 83886179 Not yet implemented\n");
    assert_eq!(step(&mut st, "CONFIRM --one-button").0, "ERR 83886179 Not yet implemented\n");
}

#[test]
fn step_getinfo_queries() {
    let mut st = PinentryState::default();
    assert_eq!(step(&mut st, "GETINFO version").0, "D 1.2.3\nOK\n");
    assert_eq!(step(&mut st, "GETINFO PID").0, "D 4242\nOK\n");
    assert_eq!(step(&mut st, "getinfo flavor").0, "D cadenza\nOK\n");
    assert_eq!(step(&mut st, "GETINFO ttyinfo").0, "D - - - -\nOK\n");
    step(&mut st, "OPTION ttyname=/dev/pts/1");
    step(&mut st, "OPTION lc-messages C");
    assert_eq!(step(&mut st, "GETINFO ttyinfo").0, "D /dev/pts/1 - - C\nOK\n");
    assert_eq!(step(&mut st, "GETINFO colour").0, "ERR 275 unknown getinfo query\n");
}

#[test]
fn step_bye_closes_and_unknown_is_rejected() {
    let mut st = PinentryState::default();
    assert_eq!(step(&mut st, "FOO bar"), ("ERR 275 unknown command 'FOO'\n".to_string(), false));
    assert_eq!(step(&mut st, "NOP"), ("OK\n".to_string(), false));
    assert_eq!(step(&mut st, "BYE"), ("OK closing connection\n".to_string(), true));
}

#[test]
fn step_options_update_session_fields() {
    let mut st = PinentryState::default();
    step(&mut st, "OPTION invisible-char=*x");
    assert_eq!(st.invisible_char, Some('*'));
    step(&mut st, "OPTION invisible-char");
    assert_eq!(st.invisible_char, None);
    step(&mut st, "OPTION formatted-passphrase");
    assert!(st.formatted_passphrase);
    step(&mut st, "OPTION grab");
    step(&mut st, "OPTION no-grab");
    assert!(!st.grab);
    step(&mut st, "OPTION ttytype=xterm");
    step(&mut st, "OPTION lc-ctype=C.UTF-8");
    assert_eq!(st.ttytype.as_deref(), Some("xterm"));
    assert_eq!(st.lc_ctype.as_deref(), Some("C.UTF-8"));
    // unknown keys are accepted without effect
    let before = format!("{st:?}");
    assert_eq!(step(&mut st, "OPTION allow-external-password-cache").0, "OK\n");
    assert_eq!(format!("{st:?}"), before);
}

#[test]
fn step_quality_bar_and_timeout() {
    let mut st = PinentryState::default();
    step(&mut st, "SETQUALITYBAR");
    assert_eq!(st.quality_bar.as_deref(), Some(""));
    step(&mut st, "SETQUALITYBAR Strength");
    assert_eq!(st.quality_bar.as_deref(), Some("Strength"));
    step(&mut st, "SETTIMEOUT 15");
    assert_eq!(st.timeout, Some(15));
}

#[test]
fn wide_whitespace_splits_like_any_other() {
    assert!(matches!(parse_command("NOP\u{a0}x"), Command::Nop));
    assert!(matches!(parse_command("SETDESC\u{a0}x"), Command::SetDesc(s) if s == "x"));
    assert!(matches!(
        parse_command("OPTION key\u{2003}value"),
        Command::Option(k, Some(v)) if k == "key" && v == "value"
    ));
    let mut st = PinentryState::default();
    assert_eq!(step(&mut st, "OPTION ttyname\u{3000}/dev/pts/9"), ("OK\n".to_string(), false));
    assert_eq!(st.ttyname.as_deref(), Some("/dev/pts/9"));
}

#[test]
fn reset_and_option_commute() {
    let mut a = PinentryState::default();
    step(&mut a, "SETDESC d");
    let mut b = a.clone();
    step(&mut a, "OPTION display=:0");
    step(&mut a, "RESET");
    step(&mut b, "RESET");
    step(&mut b, "OPTION display=:0");
    assert_eq!(format!("{a:?}"), format!("{b:?}"));
    assert_eq!(a.display.as_deref(), Some(":0"));
}

#[test]
fn encoded_text_has_no_control_characters() {
    let all: String = (0u32..0x250).filter_map(char::from_u32).collect();
    let encoded = percent_encode(&all);
    assert!(encoded.chars().all(|c| !((c as u32) < 0x20 || c as u32 == 0x7f)));
    assert!(!encoded.contains('\n') && !encoded.contains('\r'));
}
