//! The decisions of the pinentry dialog: which sound announces it, which
//! layout and texts it shows, and the state machine that tracks the dialog
//! on screen (shown, closing, hidden). The widgets themselves are built
//! outside this crate from what these functions return.
use vstd::prelude::*;

use crate::state::{DialogRequest, PinentryState};

verus! {

/// The sound played when a dialog appears.
#[derive(Debug, Clone, Copy, PartialEq, Eq, Structural)]
pub enum DialogSound {
    /// `dialog-question-authentication`: a passphrase or confirmation is asked.
    Question,
    /// `dialog-error-authentication`: the request carries an error (for
    /// instance a wrong passphrase).
    Error,
}

/// The error sound when the request carries an error message, the question
/// sound otherwise.
pub fn dialog_sound(state: &PinentryState) -> (k: DialogSound)
    ensures
        k == (if state@.error is Some {
            DialogSound::Error
        } else {
            DialogSound::Question
        }),
{
    if state.error.is_some() {
        DialogSound::Error
    } else {
        DialogSound::Question
    }
}

/// The three card layouts.
#[derive(Debug, Clone, Copy, PartialEq, Eq, Structural)]
pub enum Layout {
    /// Title, description, optional error, passphrase entry, Cancel / Submit.
    GetPin,
    /// Description, optional error, Cancel / [Not OK] / OK.
    Confirm,
    /// Description and a single OK button.
    OneButton,
}

/// `GETPIN` gets the passphrase layout, `CONFIRM` the confirmation layout,
/// and `CONFIRM --one-button` and `MESSAGE` the single-button layout.
pub open spec fn spec_layout(request: DialogRequest) -> Layout {
    match request {
        DialogRequest::GetPin => Layout::GetPin,
        DialogRequest::Confirm { one_button } => if one_button {
            Layout::OneButton
        } else {
            Layout::Confirm
        },
        DialogRequest::Message => Layout::OneButton,
    }
}

/// Populates the card according to the dialog type.
pub fn layout_for(request: DialogRequest) -> (l: Layout)
    ensures
        l == spec_layout(request),
{
    match request {
        DialogRequest::GetPin => Layout::GetPin,
        DialogRequest::Confirm { one_button: false } => Layout::Confirm,
        DialogRequest::Confirm { one_button: true } | DialogRequest::Message => Layout::OneButton,
    }
}

/// The text set by a `SET*` command, or `default` when it was not set.
pub open spec fn or_default(v: Option<Seq<char>>, default: Seq<char>) -> Seq<char> {
    match v {
        Some(s) => s,
        None => default,
    }
}

fn text_or(v: &Option<String>, default: &str) -> (r: String)
    ensures
        r@ == or_default(v.deep_view(), default@),
{
    match v {
        Some(s) => s.clone(),
        None => default.to_string(),
    }
}

fn copy_text(v: &Option<String>) -> (r: Option<String>)
    ensures
        r.deep_view() == v.deep_view(),
{
    match v {
        Some(s) => Some(s.clone()),
        None => None,
    }
}

/// The texts of the passphrase dialog.
pub struct GetPinTexts {
    pub title: String,
    pub description: String,
    /// Shown in an error banner when present.
    pub error: Option<String>,
    /// Placeholder of the passphrase entry.
    pub placeholder: String,
    pub cancel: String,
    pub submit: String,
}

/// The texts of the confirmation dialog.
pub struct ConfirmTexts {
    pub description: String,
    /// Shown in an error banner when present.
    pub error: Option<String>,
    pub cancel: String,
    /// A "Not OK" button is shown only when this is present.
    pub not_ok: Option<String>,
    pub ok: String,
}

/// The texts of the single-button dialog.
pub struct OneButtonTexts {
    pub description: String,
    pub ok: String,
}

/// Builds the GETPIN texts: title, description, optional error banner,
/// passphrase placeholder, and Submit / Cancel labels.
pub fn getpin_texts(state: &PinentryState) -> (t: GetPinTexts)
    ensures
        t.title@ == or_default(state@.title, "Authentication required"@),
        t.description@ == or_default(
            state@.desc,
            "An application is asking for authentication."@,
        ),
        t.error.deep_view() == state@.error,
        t.placeholder@ == or_default(state@.prompt, "Passphrase"@),
        t.cancel@ == or_default(state@.cancel_label, "Cancel"@),
        t.submit@ == or_default(state@.ok_label, "Submit"@),
{
    GetPinTexts {
        title: text_or(&state.title, "Authentication required"),
        description: text_or(&state.desc, "An application is asking for authentication."),
        error: copy_text(&state.error),
        placeholder: text_or(&state.prompt, "Passphrase"),
        cancel: text_or(&state.cancel_label, "Cancel"),
        submit: text_or(&state.ok_label, "Submit"),
    }
}

/// Builds the CONFIRM texts: description, optional error banner, and
/// Cancel / [Not OK] / OK labels.
pub fn confirm_texts(state: &PinentryState) -> (t: ConfirmTexts)
    ensures
        t.description@ == or_default(
            state@.desc,
            "An application is asking for confirmation."@,
        ),
        t.error.deep_view() == state@.error,
        t.cancel@ == or_default(state@.cancel_label, "Cancel"@),
        t.not_ok.deep_view() == state@.notok_label,
        t.ok@ == or_default(state@.ok_label, "Confirm"@),
{
    ConfirmTexts {
        description: text_or(&state.desc, "An application is asking for confirmation."),
        error: copy_text(&state.error),
        cancel: text_or(&state.cancel_label, "Cancel"),
        not_ok: copy_text(&state.notok_label),
        ok: text_or(&state.ok_label, "Confirm"),
    }
}

/// Builds the texts of the single-button layout used for `CONFIRM
/// --one-button` and `MESSAGE` dialogs.
pub fn one_button_texts(state: &PinentryState) -> (t: OneButtonTexts)
    ensures
        t.description@ == or_default(state@.desc, ""@),
        t.ok@ == or_default(state@.ok_label, "OK"@),
{
    OneButtonTexts { description: text_or(&state.desc, ""), ok: text_or(&state.ok_label, "OK") }
}

// ---------------------------------------------------------------------------
// The dialog state machine
// ---------------------------------------------------------------------------

/// What the dialog window knows: the dialog being shown (of any type `A` the
/// caller keeps with it), a counter bumped for every new dialog, and whether
/// the exit animation is running.
pub struct DialogModel<A> {
    /// Active dialog being shown, if any.
    pub active: Option<A>,
    /// Monotonically increasing counter; bumped on each new dialog so the
    /// view knows when to rebuild the card content.
    pub dialog_id: u64,
    /// True while the exit animation is in progress.
    pub closing: bool,
}

/// Messages handled by the dialog window.
pub enum DialogEvent<A> {
    /// A dialog is to be shown to the user.
    ShowDialog(A),
    /// The user has made a choice (submit, confirm, cancel).
    Submit,
    /// The exit animation has finished — it is safe to hide the window.
    ExitAnimationDone,
    /// The server loop has finished — the app should quit.
    ServerExited,
}

/// What the caller has to do after an event.
pub struct UpdateEffects<A> {
    /// The dialog whose result is to be delivered now: the user's choice
    /// after `Submit`, a cancellation after `ServerExited`.
    pub finished: Option<A>,
    /// Whether to start the timer that ends the exit animation.
    pub start_exit_timer: bool,
    /// Whether to quit the application.
    pub quit: bool,
}

/// The model and effects after one event.
pub open spec fn spec_update<A>(m: DialogModel<A>, e: DialogEvent<A>) -> (
    DialogModel<A>,
    UpdateEffects<A>,
) {
    let none = UpdateEffects { finished: None, start_exit_timer: false, quit: false };
    match e {
        DialogEvent::ShowDialog(a) => (
            DialogModel { active: Some(a), dialog_id: (m.dialog_id + 1) as u64, closing: false },
            none,
        ),
        DialogEvent::Submit => if m.active is None {
            (m, none)
        } else {
            (
                DialogModel { active: None, dialog_id: m.dialog_id, closing: true },
                UpdateEffects { finished: m.active, start_exit_timer: true, quit: false },
            )
        },
        DialogEvent::ExitAnimationDone => if m.closing {
            (DialogModel { active: None, dialog_id: m.dialog_id, closing: false }, none)
        } else {
            (m, none)
        },
        DialogEvent::ServerExited => (
            DialogModel { active: None, dialog_id: m.dialog_id, closing: false },
            UpdateEffects { finished: m.active, start_exit_timer: false, quit: true },
        ),
    }
}

/// Whether an event can be handled: the dialog counter must not overflow.
pub open spec fn update_defined<A>(m: DialogModel<A>, e: DialogEvent<A>) -> bool {
    e is ShowDialog ==> m.dialog_id < u64::MAX
}

/// What the view has to do to match the model.
pub struct ViewPlan {
    /// The card content is stale and must be cleared (and rebuilt when a
    /// dialog is active).
    pub rebuild: bool,
    /// Show the window and start the enter animation.
    pub present: bool,
    /// Start the exit animation.
    pub start_exit_animation: bool,
    /// Hide the window.
    pub hide_window: bool,
}

pub open spec fn spec_view_plan<A>(m: DialogModel<A>, rendered_id: u64) -> ViewPlan {
    let rebuild = m.dialog_id != rendered_id;
    ViewPlan {
        rebuild,
        present: rebuild && m.active is Some,
        start_exit_animation: m.closing,
        hide_window: m.active is None && !m.closing,
    }
}

impl<A> DialogModel<A> {
    /// No dialog, nothing rendered yet.
    pub fn new() -> (m: Self)
        ensures
            m.active is None,
            m.dialog_id == 0,
            !m.closing,
    {
        DialogModel { active: None, dialog_id: 0, closing: false }
    }

    /// Handles one event.
    pub fn update(&mut self, event: DialogEvent<A>) -> (r: UpdateEffects<A>)
        requires
            update_defined(*old(self), event),
        ensures
            (*final(self), r) == spec_update(*old(self), event),
    {
        match event {
            DialogEvent::ShowDialog(a) => {
                self.dialog_id = self.dialog_id + 1;
                self.closing = false;
                self.active = Some(a);
                UpdateEffects { finished: None, start_exit_timer: false, quit: false }
            },
            DialogEvent::Submit => {
                if self.active.is_none() {
                    return UpdateEffects { finished: None, start_exit_timer: false, quit: false };
                }
                // deliver the result to the waiting server before starting
                // the exit animation
                let finished = self.active.take();
                self.closing = true;
                UpdateEffects { finished, start_exit_timer: true, quit: false }
            },
            DialogEvent::ExitAnimationDone => {
                // guard against a rapid ShowDialog that reset closing=false
                // before this timeout fired
                if self.closing {
                    self.active = None;
                    self.closing = false;
                }
                UpdateEffects { finished: None, start_exit_timer: false, quit: false }
            },
            DialogEvent::ServerExited => {
                // clean up any orphaned dialog
                let finished = self.active.take();
                self.closing = false;
                UpdateEffects { finished, start_exit_timer: false, quit: true }
            },
        }
    }

    /// What the view must do, given the dialog counter it last rendered.
    pub fn view_plan(&self, rendered_id: u64) -> (p: ViewPlan)
        ensures
            p == spec_view_plan(*self, rendered_id),
    {
        let rebuild = self.dialog_id != rendered_id;
        ViewPlan {
            rebuild,
            present: rebuild && self.active.is_some(),
            start_exit_animation: self.closing,
            hide_window: self.active.is_none() && !self.closing,
        }
    }
}

// ---------------------------------------------------------------------------
// Laws
// ---------------------------------------------------------------------------

/// The dialog counter never decreases, and grows by one with every new
/// dialog.
pub proof fn law_dialog_id_monotone<A>(m: DialogModel<A>, e: DialogEvent<A>)
    requires
        update_defined(m, e),
    ensures
        spec_update(m, e).0.dialog_id >= m.dialog_id,
        e is ShowDialog ==> spec_update(m, e).0.dialog_id == m.dialog_id + 1,
        !(e is ShowDialog) ==> spec_update(m, e).0.dialog_id == m.dialog_id,
{
}

/// A dialog's result is delivered at most once: a second `Submit` right
/// after the first delivers nothing, and a `Submit` with no dialog shown
/// changes nothing.
pub proof fn law_result_delivered_once<A>(m: DialogModel<A>)
    ensures
        m.active is None ==> spec_update(m, DialogEvent::Submit) == (
            m,
            UpdateEffects::<A> { finished: None, start_exit_timer: false, quit: false },
        ),
        spec_update(spec_update(m, DialogEvent::Submit).0, DialogEvent::Submit).1.finished is None,
        spec_update(m, DialogEvent::Submit).1.finished == m.active,
{
}

/// Once the server has exited, no dialog is left open (an open one is handed
/// back to be cancelled) and the application quits.
pub proof fn law_server_exit_closes<A>(m: DialogModel<A>)
    ensures
        spec_update(m, DialogEvent::ServerExited).0.active is None,
        !spec_update(m, DialogEvent::ServerExited).0.closing,
        spec_update(m, DialogEvent::ServerExited).1.finished == m.active,
        spec_update(m, DialogEvent::ServerExited).1.quit,
{
}

/// A newly shown dialog is always rendered and presented, and the window is
/// never hidden while a dialog is shown or closing.
pub proof fn law_new_dialog_presented<A>(m: DialogModel<A>, a: A, rendered_id: u64)
    requires
        m.dialog_id < u64::MAX,
        rendered_id <= m.dialog_id,
    ensures
        spec_view_plan(spec_update(m, DialogEvent::ShowDialog(a)).0, rendered_id).present,
        forall|n: DialogModel<A>, r: u64|
            (n.active is Some || n.closing) ==> !(#[trigger] spec_view_plan(n, r)).hide_window,
{
}

/// The timer of an earlier dialog's exit animation is harmless: when it fires
/// while no exit animation is running (a new dialog was shown meanwhile),
/// nothing changes.
pub proof fn law_late_exit_timer_harmless<A>(m: DialogModel<A>)
    requires
        !m.closing,
    ensures
        spec_update(m, DialogEvent::ExitAnimationDone).0 == m,
{
}

/// Only the end of the server quits the application: a new dialog, the
/// user's choice and the end of the exit animation never do.
pub proof fn law_only_server_exit_quits<A>(m: DialogModel<A>, e: DialogEvent<A>)
    ensures
        !(e is ServerExited) ==> !spec_update(m, e).1.quit,
        e is ServerExited ==> spec_update(m, e).1.quit,
{
}

/// What each event does to the window: a new dialog becomes the active one
/// and cancels a running exit animation; the user's choice hands the active
/// dialog back, clears it and starts the exit animation; the end of the
/// animation clears what is left; only the user's choice starts the exit
/// timer, and only the user's choice and the end of the server hand a
/// dialog back.
pub proof fn law_update_effects<A>(m: DialogModel<A>, e: DialogEvent<A>, a: A)
    ensures
        spec_update(m, DialogEvent::ShowDialog(a)).0.active == Some(a),
        !spec_update(m, DialogEvent::ShowDialog(a)).0.closing,
        spec_update(m, DialogEvent::ShowDialog(a)).1.finished is None,
        m.active is Some ==> spec_update(m, DialogEvent::Submit).0.active is None,
        m.active is Some ==> spec_update(m, DialogEvent::Submit).0.closing,
        m.active is Some ==> spec_update(m, DialogEvent::Submit).1.start_exit_timer,
        m.closing ==> spec_update(m, DialogEvent::ExitAnimationDone).0.active is None,
        !spec_update(m, DialogEvent::ExitAnimationDone).0.closing,
        spec_update(m, e).1.start_exit_timer ==> e is Submit && m.active is Some,
        spec_update(m, e).1.finished is Some ==> (e is Submit || e is ServerExited)
            && spec_update(m, e).1.finished == m.active,
{
}

/// The view follows the model: the card is rebuilt exactly when a dialog
/// counter other than the rendered one is current, the window is presented
/// exactly when it is rebuilt for an active dialog, the exit animation runs
/// exactly while the model is closing, and the window is hidden exactly when
/// no dialog is active or closing.
pub proof fn law_view_plan<A>(m: DialogModel<A>, rendered_id: u64)
    ensures
        spec_view_plan(m, rendered_id).rebuild == (m.dialog_id != rendered_id),
        spec_view_plan(m, rendered_id).present == (m.dialog_id != rendered_id && m.active is Some),
        spec_view_plan(m, rendered_id).start_exit_animation == m.closing,
        spec_view_plan(m, rendered_id).hide_window == (m.active is None && !m.closing),
{
}

/// Showing a dialog and then submitting it hands that dialog back, starts
/// the exit animation and keeps the application running for the next
/// request; after the animation ends the window is idle again.
pub proof fn law_show_then_submit<A>(m: DialogModel<A>, a: A)
    ensures
        ({
            let shown = spec_update(m, DialogEvent::ShowDialog(a)).0;
            let (closing, fx) = spec_update(shown, DialogEvent::Submit);
            let idle = spec_update(closing, DialogEvent::ExitAnimationDone).0;
            &&& fx == (UpdateEffects { finished: Some(a), start_exit_timer: true, quit: false })
            &&& closing.closing && closing.active is None
            &&& !idle.closing && idle.active is None
            &&& idle.dialog_id == shown.dialog_id
        }),
{
}

} // verus!
