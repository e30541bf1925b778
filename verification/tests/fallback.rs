use pinentry_cadenza::fallback::{
    fallback_candidates, prefers_curses, should_use_curses, CallerContext, LaunchEnv,
};

// helper to build a minimal context for testing
fn ctx(display: Option<&str>, ttyname: Option<&str>, ssh_session: bool) -> CallerContext {
    CallerContext {
        display: display.map(str::to_owned),
        ttyname: ttyname.map(str::to_owned),
        ttytype: None,
        ssh_session,
    }
}

#[test]
fn display_set_tty_set_prefers_gui() {
    let c = ctx(Some("wayland-1"), Some("/dev/pts/1"), false);
    assert!(!should_use_curses(&c));
}

#[test]
fn display_unset_tty_set_uses_curses() {
    let c = ctx(None, Some("/dev/pts/1"), false);
    assert!(should_use_curses(&c));
}

#[test]
fn display_unset_tty_unset_uses_curses() {
    let c = ctx(None, None, false);
    assert!(should_use_curses(&c));
}

#[test]
fn display_set_tty_unset_prefers_gui() {
    let c = ctx(Some(":0"), None, false);
    assert!(!should_use_curses(&c));
}

#[test]
fn ssh_session_always_uses_curses() {
    let c = ctx(Some("wayland-1"), Some("/dev/pts/1"), true);
    assert!(should_use_curses(&c));
}

#[test]
fn empty_display_treated_as_absent() {
    let c = ctx(Some(""), Some("/dev/pts/1"), false);
    assert!(should_use_curses(&c));
}

#[test]
fn apply_args_overrides_display() {
    let mut ctx = CallerContext::default();
    ctx.apply_args(Some("wayland-1".into()), None, None);
    assert_eq!(ctx.display.as_deref(), Some("wayland-1"));
    assert!(ctx.ttyname.is_none());
    assert!(ctx.ttytype.is_none());
}

#[test]
fn apply_args_overrides_ttyname() {
    let mut ctx = CallerContext::default();
    ctx.apply_args(None, Some("/dev/pts/5".into()), None);
    assert_eq!(ctx.ttyname.as_deref(), Some("/dev/pts/5"));
    assert!(ctx.display.is_none());
}

#[test]
fn apply_args_overrides_ttytype() {
    let mut ctx = CallerContext::default();
    ctx.apply_args(None, None, Some("xterm-256color".into()));
    assert_eq!(ctx.ttytype.as_deref(), Some("xterm-256color"));
}

#[test]
fn apply_args_none_leaves_existing_values() {
    let mut ctx = CallerContext {
        display: Some("wayland-1".into()),
        ttyname: Some("/dev/pts/1".into()),
        ttytype: Some("xterm".into()),
        ssh_session: false,
    };
    ctx.apply_args(None, None, None);
    // existing values must be preserved when no override is provided
    assert_eq!(ctx.display.as_deref(), Some("wayland-1"));
    assert_eq!(ctx.ttyname.as_deref(), Some("/dev/pts/1"));
    assert_eq!(ctx.ttytype.as_deref(), Some("xterm"));
}

#[test]
fn apply_args_display_overrides_env_display() {
    // simulate an env that has WAYLAND_DISPLAY but gpg-agent passes
    // --display "" (empty), meaning the caller has no display
    let mut ctx = CallerContext {
        display: Some("wayland-1".into()),
        ..Default::default()
    };
    ctx.apply_args(Some(String::new()), None, None);
    // an explicit empty display from argv should clear the display
    assert!(!ctx.has_display());
}

#[test]
fn prefers_curses_with_capable_terminal() {
    assert!(prefers_curses(Some("xterm-256color")));
    assert!(prefers_curses(Some("screen-256color")));
    assert!(prefers_curses(Some("vt100")));
}

#[test]
fn prefers_curses_rejects_dumb_terminals() {
    assert!(!prefers_curses(Some("dumb")));
    assert!(!prefers_curses(Some("unknown")));
    assert!(!prefers_curses(Some("")));
    assert!(!prefers_curses(None));
}

// -- further cases -------------------------------------------------------------

fn env(wayland: Option<&str>, display: Option<&str>, tty: Option<&str>, term: Option<&str>) -> LaunchEnv {
    LaunchEnv {
        wayland_display: wayland.map(str::to_owned),
        display: display.map(str::to_owned),
        gpg_tty: tty.map(str::to_owned),
        term: term.map(str::to_owned),
        ssh_connection: false,
        ssh_client: false,
        ssh_tty: false,
    }
}

#[test]
fn from_env_prefers_wayland_display() {
    let c = CallerContext::from_env(env(Some("wayland-0"), Some(":1"), None, None));
    assert_eq!(c.display.as_deref(), Some("wayland-0"));
    assert!(!c.ssh_session);
}

#[test]
fn from_env_empty_wayland_falls_back_to_x11() {
    let c = CallerContext::from_env(env(Some(""), Some(":1"), Some(""), Some("xterm")));
    assert_eq!(c.display.as_deref(), Some(":1"));
    assert!(c.ttyname.is_none());
    assert_eq!(c.ttytype.as_deref(), Some("xterm"));
}

#[test]
fn from_env_any_ssh_variable_marks_session() {
    for which in 0..3 {
        let mut e = env(Some("wayland-0"), None, None, None);
        match which {
            0 => e.ssh_connection = true,
            1 => e.ssh_client = true,
            _ => e.ssh_tty = true,
        }
        let c = CallerContext::from_env(e);
        assert!(c.ssh_session);
        assert!(should_use_curses(&c));
    }
}

#[test]
fn from_args_and_env_applies_args_over_env() {
    let c = CallerContext::from_args_and_env(
        env(Some("wayland-0"), None, Some("/dev/pts/2"), Some("xterm")),
        Some(String::new()),
        None,
        Some("dumb".into()),
    );
    assert!(!c.has_display());
    assert_eq!(c.ttyname.as_deref(), Some("/dev/pts/2"));
    assert_eq!(c.ttytype.as_deref(), Some("dumb"));
    assert!(should_use_curses(&c));
}

#[test]
fn candidates_follow_terminal_capability() {
    assert_eq!(fallback_candidates(Some("xterm")), ("pinentry-curses", "pinentry-tty"));
    assert_eq!(fallback_candidates(Some("dumb")), ("pinentry-tty", "pinentry-curses"));
    assert_eq!(fallback_candidates(None), ("pinentry-tty", "pinentry-curses"));
}
