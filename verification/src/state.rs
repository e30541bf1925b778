//! The state a pinentry session accumulates from Assuan `SET*` and `OPTION`
//! commands.
use vstd::prelude::*;

verus! {

/// Accumulated state from Assuan SET* commands and OPTION configuration.
#[derive(Debug, Clone)]
pub struct PinentryState {
    // per-dialog fields (cleared by reset_per_request)
    pub desc: Option<String>,
    pub prompt: Option<String>,
    pub title: Option<String>,
    pub ok_label: Option<String>,
    pub cancel_label: Option<String>,
    pub notok_label: Option<String>,
    pub error: Option<String>,
    pub timeout: Option<u32>,
    pub keyinfo: Option<String>,
    pub repeat_prompt: Option<String>,
    pub repeat_error: Option<String>,
    /// Non-None when SETQUALITYBAR was called; empty string means use default
    /// label.
    pub quality_bar: Option<String>,
    pub quality_bar_tt: Option<String>,
    // session-scoped fields (survive RESET, set via OPTION)
    pub ttyname: Option<String>,
    pub ttytype: Option<String>,
    pub lc_ctype: Option<String>,
    pub lc_messages: Option<String>,
    pub display: Option<String>,
    pub grab: bool,
    pub invisible_char: Option<char>,
    pub formatted_passphrase: bool,
}

/// Mathematical model of a `PinentryState`: every text is its sequence of
/// characters.
pub struct StateView {
    pub desc: Option<Seq<char>>,
    pub prompt: Option<Seq<char>>,
    pub title: Option<Seq<char>>,
    pub ok_label: Option<Seq<char>>,
    pub cancel_label: Option<Seq<char>>,
    pub notok_label: Option<Seq<char>>,
    pub error: Option<Seq<char>>,
    pub timeout: Option<u32>,
    pub keyinfo: Option<Seq<char>>,
    pub repeat_prompt: Option<Seq<char>>,
    pub repeat_error: Option<Seq<char>>,
    pub quality_bar: Option<Seq<char>>,
    pub quality_bar_tt: Option<Seq<char>>,
    pub ttyname: Option<Seq<char>>,
    pub ttytype: Option<Seq<char>>,
    pub lc_ctype: Option<Seq<char>>,
    pub lc_messages: Option<Seq<char>>,
    pub display: Option<Seq<char>>,
    pub grab: bool,
    pub invisible_char: Option<char>,
    pub formatted_passphrase: bool,
}

impl View for PinentryState {
    type V = StateView;

    open spec fn view(&self) -> StateView {
        StateView {
            desc: self.desc.deep_view(),
            prompt: self.prompt.deep_view(),
            title: self.title.deep_view(),
            ok_label: self.ok_label.deep_view(),
            cancel_label: self.cancel_label.deep_view(),
            notok_label: self.notok_label.deep_view(),
            error: self.error.deep_view(),
            timeout: self.timeout,
            keyinfo: self.keyinfo.deep_view(),
            repeat_prompt: self.repeat_prompt.deep_view(),
            repeat_error: self.repeat_error.deep_view(),
            quality_bar: self.quality_bar.deep_view(),
            quality_bar_tt: self.quality_bar_tt.deep_view(),
            ttyname: self.ttyname.deep_view(),
            ttytype: self.ttytype.deep_view(),
            lc_ctype: self.lc_ctype.deep_view(),
            lc_messages: self.lc_messages.deep_view(),
            display: self.display.deep_view(),
            grab: self.grab,
            invisible_char: self.invisible_char,
            formatted_passphrase: self.formatted_passphrase,
        }
    }
}

impl StateView {
    /// The state of a fresh session: nothing set, no grab.
    pub open spec fn initial() -> StateView {
        StateView {
            desc: None,
            prompt: None,
            title: None,
            ok_label: None,
            cancel_label: None,
            notok_label: None,
            error: None,
            timeout: None,
            keyinfo: None,
            repeat_prompt: None,
            repeat_error: None,
            quality_bar: None,
            quality_bar_tt: None,
            ttyname: None,
            ttytype: None,
            lc_ctype: None,
            lc_messages: None,
            display: None,
            grab: false,
            invisible_char: None,
            formatted_passphrase: false,
        }
    }

    /// The per-request fields cleared, the session-scoped fields kept.
    pub open spec fn reset(self) -> StateView {
        StateView {
            desc: None,
            prompt: None,
            title: None,
            ok_label: None,
            cancel_label: None,
            notok_label: None,
            error: None,
            timeout: None,
            keyinfo: None,
            repeat_prompt: None,
            repeat_error: None,
            quality_bar: None,
            quality_bar_tt: None,
            ..self
        }
    }

    /// Whether `self` and `other` agree on every session-scoped field.
    pub open spec fn same_session(self, other: StateView) -> bool {
        &&& self.ttyname == other.ttyname
        &&& self.ttytype == other.ttytype
        &&& self.lc_ctype == other.lc_ctype
        &&& self.lc_messages == other.lc_messages
        &&& self.display == other.display
        &&& self.grab == other.grab
        &&& self.invisible_char == other.invisible_char
        &&& self.formatted_passphrase == other.formatted_passphrase
    }
}

impl Default for PinentryState {
    fn default() -> (r: Self)
        ensures
            r@ == StateView::initial(),
    {
        PinentryState {
            desc: None,
            prompt: None,
            title: None,
            ok_label: None,
            cancel_label: None,
            notok_label: None,
            error: None,
            timeout: None,
            keyinfo: None,
            repeat_prompt: None,
            repeat_error: None,
            quality_bar: None,
            quality_bar_tt: None,
            ttyname: None,
            ttytype: None,
            lc_ctype: None,
            lc_messages: None,
            display: None,
            grab: false,
            invisible_char: None,
            formatted_passphrase: false,
        }
    }
}

impl PinentryState {
    /// Clears per-request fields after a dialog completes or on RESET.
    ///
    /// Session-scoped fields (`ttyname`, `display`, `grab`, etc.) are
    /// preserved.
    pub fn reset_per_request(&mut self)
        ensures
            final(self)@ == old(self)@.reset(),
    {
        self.desc = None;
        self.prompt = None;
        self.title = None;
        self.ok_label = None;
        self.cancel_label = None;
        self.notok_label = None;
        self.error = None;
        self.timeout = None;
        self.keyinfo = None;
        self.repeat_prompt = None;
        self.repeat_error = None;
        self.quality_bar = None;
        self.quality_bar_tt = None;
    }
}

/// Resetting keeps every session-scoped field and clears every per-request
/// field; resetting twice is the same as resetting once.
pub proof fn law_reset_keeps_session(s: StateView)
    ensures
        s.reset().ttyname == s.ttyname && s.reset().ttytype == s.ttytype,
        s.reset().lc_ctype == s.lc_ctype && s.reset().lc_messages == s.lc_messages,
        s.reset().display == s.display && s.reset().grab == s.grab,
        s.reset().invisible_char == s.invisible_char,
        s.reset().formatted_passphrase == s.formatted_passphrase,
        s.reset().reset() == s.reset(),
        s.reset().desc is None && s.reset().prompt is None && s.reset().title is None,
        s.reset().ok_label is None && s.reset().cancel_label is None,
        s.reset().notok_label is None && s.reset().error is None && s.reset().timeout is None,
        s.reset().keyinfo is None && s.reset().repeat_prompt is None,
        s.reset().repeat_error is None && s.reset().quality_bar is None,
        s.reset().quality_bar_tt is None,
{
}

/// The three interactive dialog types a pinentry must support.
#[derive(Debug, Clone, Copy, PartialEq, Eq, Structural)]
pub enum DialogRequest {
    GetPin,
    Confirm { one_button: bool },
    Message,
}

} // verus!
