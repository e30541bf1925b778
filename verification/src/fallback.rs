//! Fallback detection: decides whether to hand over to a terminal pinentry.
//!
//! # Decision logic
//!
//! pinentry-cadenza is a Wayland/GTK pinentry. When the gpg-agent that spawns
//! it is running under a graphical session but the *calling client* is an SSH
//! session (e.g. `git push` over SSH triggering agent forwarding), we must
//! hand off to a terminal pinentry so the password prompt appears in the
//! caller's terminal rather than on an unreachable display.
//!
//! The decision is made by [`should_use_curses`] using a [`CallerContext`]
//! that is built from three sources, in priority order:
//!
//! 1. **SSH env vars** inherited by the pinentry process (`SSH_CONNECTION`,
//!    `SSH_CLIENT`, `SSH_TTY`) — set when the agent itself was started in an
//!    SSH session.
//! 2. **CLI arguments** (`--display`, `--ttyname`, `--ttytype`) — gpg-agent
//!    passes these on argv when spawning pinentry, reflecting the calling
//!    client's context at the time of the request.
//! 3. **Process environment** (`WAYLAND_DISPLAY`, `DISPLAY`, `TERM`, `GPG_TTY`)
//!    — baseline from the graphical session that started the agent.
//!
//! # Terminal selection
//!
//! When falling back, [`fallback_candidates`] orders `pinentry-curses` and
//! `pinentry-tty` by [`prefers_curses`]: if `ttytype` indicates a capable
//! terminal (anything other than `dumb`, `unknown`, or absent),
//! `pinentry-curses` is tried first; otherwise `pinentry-tty` leads.
use vstd::prelude::*;

use crate::text::str_is;

verus! {

/// The environment variables the fallback decision reads, as the process
/// found them at startup (`None` where a variable is unset or not Unicode).
#[derive(Debug, Clone)]
pub struct LaunchEnv {
    pub wayland_display: Option<String>,
    pub display: Option<String>,
    pub gpg_tty: Option<String>,
    pub term: Option<String>,
    /// Whether `SSH_CONNECTION` is set.
    pub ssh_connection: bool,
    /// Whether `SSH_CLIENT` is set.
    pub ssh_client: bool,
    /// Whether `SSH_TTY` is set.
    pub ssh_tty: bool,
}

/// Caller context used to decide whether to fall back to a terminal pinentry.
///
/// All fields are sourced from the pinentry's launch environment, CLI flags,
/// or assuan OPTION lines sent by gpg-agent on behalf of the calling client.
/// Building from the environment reflects the startup-time fallback check;
/// building from CLI args or assuan state gives a more accurate picture of
/// what the *caller* can display.
#[derive(Debug, Clone)]
pub struct CallerContext {
    /// X11 or Wayland display string forwarded by the caller (e.g. `:0` or
    /// `wayland-1`). `None` or empty string means no graphical display.
    pub display: Option<String>,
    /// Terminal device path (e.g. `/dev/pts/3`). `None` means no tty.
    pub ttyname: Option<String>,
    /// Terminal type string (e.g. `xterm-256color`). Used to distinguish
    /// curses-capable terminals from dumb ones.
    pub ttytype: Option<String>,
    /// Whether an SSH session was detected in the launch environment.
    pub ssh_session: bool,
}

/// Mathematical model of a `CallerContext`.
pub struct CallerView {
    pub display: Option<Seq<char>>,
    pub ttyname: Option<Seq<char>>,
    pub ttytype: Option<Seq<char>>,
    pub ssh_session: bool,
}

impl View for CallerContext {
    type V = CallerView;

    open spec fn view(&self) -> CallerView {
        CallerView {
            display: self.display.deep_view(),
            ttyname: self.ttyname.deep_view(),
            ttytype: self.ttytype.deep_view(),
            ssh_session: self.ssh_session,
        }
    }
}

/// `Some` of a non-empty text, `None` otherwise.
pub open spec fn non_empty(v: Option<Seq<char>>) -> Option<Seq<char>> {
    match v {
        Some(s) => if s.len() > 0 {
            Some(s)
        } else {
            None
        },
        None => None,
    }
}

/// `base` with each field replaced by the argument given for it, if any.
pub open spec fn overridden(
    base: Option<Seq<char>>,
    arg: Option<Seq<char>>,
) -> Option<Seq<char>> {
    match arg {
        Some(a) => Some(a),
        None => base,
    }
}

impl CallerView {
    /// The context read from the launch environment: the Wayland display if
    /// set and non-empty, else the X11 display if set and non-empty.
    pub open spec fn from_env(
        wayland_display: Option<Seq<char>>,
        display: Option<Seq<char>>,
        gpg_tty: Option<Seq<char>>,
        term: Option<Seq<char>>,
        ssh: bool,
    ) -> CallerView {
        CallerView {
            display: match non_empty(wayland_display) {
                Some(w) => Some(w),
                None => non_empty(display),
            },
            ttyname: non_empty(gpg_tty),
            ttytype: non_empty(term),
            ssh_session: ssh,
        }
    }

    pub open spec fn apply_args(
        self,
        display: Option<Seq<char>>,
        ttyname: Option<Seq<char>>,
        ttytype: Option<Seq<char>>,
    ) -> CallerView {
        CallerView {
            display: overridden(self.display, display),
            ttyname: overridden(self.ttyname, ttyname),
            ttytype: overridden(self.ttytype, ttytype),
            ssh_session: self.ssh_session,
        }
    }

    pub open spec fn has_display(self) -> bool {
        match self.display {
            Some(d) => d.len() > 0,
            None => false,
        }
    }

    /// Whether to hand over to a terminal pinentry: in an SSH session, or
    /// when the caller has no graphical display.
    pub open spec fn should_use_curses(self) -> bool {
        self.ssh_session || !self.has_display()
    }
}

fn non_empty_string(v: Option<String>) -> (r: Option<String>)
    ensures
        r.deep_view() == non_empty(v.deep_view()),
{
    match v {
        Some(s) => if s.as_str().is_empty() {
            None
        } else {
            Some(s)
        },
        None => None,
    }
}

impl Default for CallerContext {
    fn default() -> (r: Self)
        ensures
            r@ == (CallerView { display: None, ttyname: None, ttytype: None, ssh_session: false }),
    {
        CallerContext { display: None, ttyname: None, ttytype: None, ssh_session: false }
    }
}

impl CallerContext {
    /// Builds a `CallerContext` from the process's launch environment.
    ///
    /// This reflects what was set *at process startup* — suitable as a
    /// conservative baseline when no better caller info is available yet.
    pub fn from_env(env: LaunchEnv) -> (r: Self)
        ensures
            r@ == CallerView::from_env(
                env.wayland_display.deep_view(),
                env.display.deep_view(),
                env.gpg_tty.deep_view(),
                env.term.deep_view(),
                env.ssh_connection || env.ssh_client || env.ssh_tty,
            ),
    {
        let display = match non_empty_string(env.wayland_display) {
            Some(w) => Some(w),
            None => non_empty_string(env.display),
        };
        CallerContext {
            display,
            ttyname: non_empty_string(env.gpg_tty),
            ttytype: non_empty_string(env.term),
            ssh_session: env.ssh_connection || env.ssh_client || env.ssh_tty,
        }
    }

    /// Overrides fields with any non-`None` values supplied via CLI arguments.
    ///
    /// gpg-agent passes `--display`, `--ttyname`, and `--ttytype` on the
    /// command line when it spawns pinentry, giving the caller's context
    /// before any assuan OPTION lines arrive. Applying these overrides makes
    /// the fallback decision more accurate for the SSH case.
    pub fn apply_args(
        &mut self,
        display: Option<String>,
        ttyname: Option<String>,
        ttytype: Option<String>,
    )
        ensures
            final(self)@ == old(self)@.apply_args(
                display.deep_view(),
                ttyname.deep_view(),
                ttytype.deep_view(),
            ),
    {
        if let Some(d) = display {
            self.display = Some(d);
        }
        if let Some(t) = ttyname {
            self.ttyname = Some(t);
        }
        if let Some(tt) = ttytype {
            self.ttytype = Some(tt);
        }
    }

    /// Builds a context from the environment and then overrides it with CLI
    /// argument values where present.
    ///
    /// This is the preferred constructor for use in `main` — it seeds the
    /// context from the inherited environment (catching SSH_* vars) and then
    /// refines it with whatever gpg-agent passed on argv.
    pub fn from_args_and_env(
        env: LaunchEnv,
        display: Option<String>,
        ttyname: Option<String>,
        ttytype: Option<String>,
    ) -> (r: Self)
        ensures
            r@ == CallerView::from_env(
                env.wayland_display.deep_view(),
                env.display.deep_view(),
                env.gpg_tty.deep_view(),
                env.term.deep_view(),
                env.ssh_connection || env.ssh_client || env.ssh_tty,
            ).apply_args(display.deep_view(), ttyname.deep_view(), ttytype.deep_view()),
    {
        let mut ctx = Self::from_env(env);
        ctx.apply_args(display, ttyname, ttytype);
        ctx
    }

    /// Returns `true` if a non-empty display is present.
    pub fn has_display(&self) -> (r: bool)
        ensures
            r == self@.has_display(),
    {
        match &self.display {
            Some(d) => !d.as_str().is_empty(),
            None => false,
        }
    }
}

/// Returns `true` if the pinentry should fall back to a terminal-based program.
///
/// The decision is based on the provided [`CallerContext`] rather than reading
/// the process environment directly, so it can be called after CLI args or
/// assuan OPTION lines have been applied to refine the picture of the caller.
pub fn should_use_curses(ctx: &CallerContext) -> (r: bool)
    ensures
        r == ctx@.should_use_curses(),
{
    // explicit ssh session marker in the inherited environment
    if ctx.ssh_session {
        return true;
    }
    // caller has no graphical display — must use terminal
    if !ctx.has_display() {
        return true;
    }
    false
}

/// Whether a terminal type names a curses-capable terminal: anything but
/// absent, empty, `dumb` or `unknown`.
pub open spec fn spec_prefers_curses(ttytype: Option<Seq<char>>) -> bool {
    match ttytype {
        None => false,
        Some(t) => !(t.len() == 0 || t == "dumb"@ || t == "unknown"@),
    }
}

/// Returns `true` when `ttytype` indicates a curses-capable terminal.
///
/// Terminals identified as `dumb`, `unknown`, or absent are treated as
/// incapable of curses rendering and should use `pinentry-tty` instead.
pub fn prefers_curses(ttytype: Option<&str>) -> (r: bool)
    ensures
        r == spec_prefers_curses(
            match ttytype {
                Some(t) => Some(t@),
                None => None,
            },
        ),
{
    match ttytype {
        None => false,
        Some(t) => !(t.is_empty() || str_is(t, "dumb") || str_is(t, "unknown")),
    }
}

/// The terminal pinentry programs to try, in order: `pinentry-curses` first
/// when the terminal is curses-capable, `pinentry-tty` first otherwise.
pub fn fallback_candidates(ttytype: Option<&str>) -> (r: (&'static str, &'static str))
    ensures
        spec_prefers_curses(
            match ttytype {
                Some(t) => Some(t@),
                None => None,
            },
        ) ==> r.0@ == "pinentry-curses"@ && r.1@ == "pinentry-tty"@,
        !spec_prefers_curses(
            match ttytype {
                Some(t) => Some(t@),
                None => None,
            },
        ) ==> r.0@ == "pinentry-tty"@ && r.1@ == "pinentry-curses"@,
{
    if prefers_curses(ttytype) {
        ("pinentry-curses", "pinentry-tty")
    } else {
        ("pinentry-tty", "pinentry-curses")
    }
}

// ---------------------------------------------------------------------------
// Laws
// ---------------------------------------------------------------------------

/// An SSH session always falls back to a terminal pinentry, whatever the
/// display.
pub proof fn law_ssh_always_falls_back(ctx: CallerView)
    requires
        ctx.ssh_session,
    ensures
        ctx.should_use_curses(),
{
}

/// An empty display counts as no display.
pub proof fn law_empty_display_is_absent(ctx: CallerView)
    requires
        ctx.display == Some(Seq::<char>::empty()),
    ensures
        !ctx.has_display(),
        ctx.should_use_curses(),
{
}

/// CLI arguments only override: absent arguments leave the context as it
/// was, the SSH marker is never changed, and applying the same arguments
/// twice is the same as applying them once.
pub proof fn law_apply_args_overrides(
    ctx: CallerView,
    display: Option<Seq<char>>,
    ttyname: Option<Seq<char>>,
    ttytype: Option<Seq<char>>,
)
    ensures
        ctx.apply_args(None, None, None) == ctx,
        ctx.apply_args(display, ttyname, ttytype).ssh_session == ctx.ssh_session,
        ctx.apply_args(display, ttyname, ttytype).apply_args(display, ttyname, ttytype)
            == ctx.apply_args(display, ttyname, ttytype),
        display is Some ==> ctx.apply_args(display, ttyname, ttytype).display == display,
        ttyname is Some ==> ctx.apply_args(display, ttyname, ttytype).ttyname == ttyname,
        ttytype is Some ==> ctx.apply_args(display, ttyname, ttytype).ttytype == ttytype,
{
}

/// The sources of the caller context in priority order: an SSH variable in
/// the environment forces the terminal whatever the arguments say; a CLI
/// argument overrides the environment; the environment fills what the
/// arguments leave out.
pub proof fn law_context_priority(
    wayland_display: Option<Seq<char>>,
    display: Option<Seq<char>>,
    gpg_tty: Option<Seq<char>>,
    term: Option<Seq<char>>,
    ssh: bool,
    arg_display: Option<Seq<char>>,
    arg_ttyname: Option<Seq<char>>,
    arg_ttytype: Option<Seq<char>>,
)
    ensures
        ({
            let env = CallerView::from_env(wayland_display, display, gpg_tty, term, ssh);
            let ctx = env.apply_args(arg_display, arg_ttyname, arg_ttytype);
            &&& ssh ==> ctx.should_use_curses()
            &&& arg_display is Some ==> ctx.display == arg_display
            &&& arg_display is None ==> ctx.display == env.display
            &&& arg_ttyname is Some ==> ctx.ttyname == arg_ttyname
            &&& arg_ttyname is None ==> ctx.ttyname == non_empty(gpg_tty)
            &&& arg_ttytype is Some ==> ctx.ttytype == arg_ttytype
            &&& arg_ttytype is None ==> ctx.ttytype == non_empty(term)
        }),
{
}

/// The display is the Wayland display when that is set and non-empty, and
/// otherwise the X11 display when that is set and non-empty (whether the
/// Wayland display is unset or empty); the terminal name and type are taken
/// when set and non-empty; the SSH marker is the one given.
pub proof fn law_from_env_display(
    wayland_display: Option<Seq<char>>,
    display: Option<Seq<char>>,
    gpg_tty: Option<Seq<char>>,
    term: Option<Seq<char>>,
    ssh: bool,
)
    ensures
        ({
            let ctx = CallerView::from_env(wayland_display, display, gpg_tty, term, ssh);
            let wayland_usable = wayland_display is Some && wayland_display->0.len() > 0;
            let x11_usable = display is Some && display->0.len() > 0;
            &&& wayland_usable ==> ctx.display == wayland_display
            &&& !wayland_usable && x11_usable ==> ctx.display == display
            &&& !wayland_usable && !x11_usable ==> ctx.display is None
            &&& (gpg_tty is Some && gpg_tty->0.len() > 0) ==> ctx.ttyname == gpg_tty
            &&& !(gpg_tty is Some && gpg_tty->0.len() > 0) ==> ctx.ttyname is None
            &&& (term is Some && term->0.len() > 0) ==> ctx.ttytype == term
            &&& !(term is Some && term->0.len() > 0) ==> ctx.ttytype is None
            &&& ctx.ssh_session == ssh
        }),
{
}

/// The pinentry falls back to a terminal exactly in an SSH session or when
/// the caller has no non-empty display.
pub proof fn law_fallback_decision(ctx: CallerView)
    ensures
        ctx.should_use_curses() == (ctx.ssh_session || ctx.display is None || ctx.display->0.len()
            == 0),
        ctx.has_display() == (ctx.display is Some && ctx.display->0.len() > 0),
{
}

/// Exactly the terminals that are absent, empty, `dumb` or `unknown` are not
/// curses-capable.
pub proof fn law_prefers_curses(t: Seq<char>)
    ensures
        !spec_prefers_curses(None),
        !spec_prefers_curses(Some(Seq::<char>::empty())),
        !spec_prefers_curses(Some(seq!['d', 'u', 'm', 'b'])),
        !spec_prefers_curses(Some(seq!['u', 'n', 'k', 'n', 'o', 'w', 'n'])),
        t.len() > 0 && t != seq!['d', 'u', 'm', 'b'] && t != seq!['u', 'n', 'k', 'n', 'o', 'w', 'n']
            ==> spec_prefers_curses(Some(t)),
{
    reveal_strlit("dumb");
    reveal_strlit("unknown");
    assert("dumb"@ =~= seq!['d', 'u', 'm', 'b']);
    assert("unknown"@ =~= seq!['u', 'n', 'k', 'n', 'o', 'w', 'n']);
}

/// A graphical session outside SSH gets the graphical dialog: with a
/// non-empty X11 display and the Wayland display unset or empty, or with a
/// non-empty Wayland display, the pinentry does not fall back to a terminal.
pub proof fn law_graphical_session_uses_gui(
    wayland_display: Option<Seq<char>>,
    display: Option<Seq<char>>,
    gpg_tty: Option<Seq<char>>,
    term: Option<Seq<char>>,
)
    requires
        (wayland_display is Some && wayland_display->0.len() > 0) || (display is Some
            && display->0.len() > 0),
    ensures
        !CallerView::from_env(wayland_display, display, gpg_tty, term, false).should_use_curses(),
{
    law_from_env_display(wayland_display, display, gpg_tty, term, false);
    law_fallback_decision(CallerView::from_env(wayland_display, display, gpg_tty, term, false));
}

} // verus!
