use pinentry_cadenza::dialog::{
    confirm_texts, dialog_sound, getpin_texts, layout_for, one_button_texts, DialogEvent,
    DialogModel, DialogSound, Layout,
};
use pinentry_cadenza::state::{DialogRequest, PinentryState};

#[test]
fn sound_depends_on_error() {
    let mut st = PinentryState::default();
    assert_eq!(dialog_sound(&st), DialogSound::Question);
    st.error = Some("Bad passphrase".into());
    assert_eq!(dialog_sound(&st), DialogSound::Error);
}

#[test]
fn layouts_by_request() {
    assert_eq!(layout_for(DialogRequest::GetPin), Layout::GetPin);
    assert_eq!(layout_for(DialogRequest::Confirm { one_button: false }), Layout::Confirm);
    assert_eq!(layout_for(DialogRequest::Confirm { one_button: true }), Layout::OneButton);
    assert_eq!(layout_for(DialogRequest::Message), Layout::OneButton);
}

#[test]
fn getpin_defaults_and_overrides() {
    let mut st = PinentryState::default();
    let t = getpin_texts(&st);
    assert_eq!(t.title, "Authentication required");
    assert_eq!(t.description, "An application is asking for authentication.");
    assert!(t.error.is_none());
    assert_eq!(t.placeholder, "Passphrase");
    assert_eq!(t.cancel, "Cancel");
    assert_eq!(t.submit, "Submit");
    st.title = Some("Unlock".into());
    st.prompt = Some("PIN".into());
    st.ok_label = Some("Go".into());
    st.error = Some("Wrong".into());
    let t = getpin_texts(&st);
    assert_eq!(t.title, "Unlock");
    assert_eq!(t.placeholder, "PIN");
    assert_eq!(t.submit, "Go");
    assert_eq!(t.error.as_deref(), Some("Wrong"));
}

#[test]
fn confirm_and_one_button_texts() {
    let mut st = PinentryState::default();
    let c = confirm_texts(&st);
    assert_eq!(c.description, "An application is asking for confirmation.");
    assert_eq!(c.ok, "Confirm");
    assert!(c.not_ok.is_none());
    st.notok_label = Some("Never".into());
    assert_eq!(confirm_texts(&st).not_ok.as_deref(), Some("Never"));
    let o = one_button_texts(&PinentryState::default());
    assert_eq!(o.description, "");
    assert_eq!(o.ok, "OK");
}

#[test]
fn dialog_lifecycle() {
    let mut m: DialogModel<&str> = DialogModel::new();
    let plan = m.view_plan(0);
    assert!(!plan.rebuild && plan.hide_window);

    let fx = m.update(DialogEvent::ShowDialog("first"));
    assert!(fx.finished.is_none() && !fx.quit);
    assert_eq!(m.dialog_id, 1);
    let plan = m.view_plan(0);
    assert!(plan.rebuild && plan.present && !plan.hide_window);

    let fx = m.update(DialogEvent::Submit);
    assert_eq!(fx.finished, Some("first"));
    assert!(fx.start_exit_timer);
    assert!(m.closing);
    let plan = m.view_plan(1);
    assert!(!plan.rebuild && plan.start_exit_animation && !plan.hide_window);

    // a second submit delivers nothing
    let fx = m.update(DialogEvent::Submit);
    assert!(fx.finished.is_none() && !fx.start_exit_timer);

    m.update(DialogEvent::ExitAnimationDone);
    assert!(!m.closing && m.active.is_none());
    assert!(m.view_plan(1).hide_window);
}

#[test]
fn rapid_show_survives_late_exit_timer() {
    let mut m: DialogModel<u8> = DialogModel::new();
    m.update(DialogEvent::ShowDialog(1));
    m.update(DialogEvent::Submit);
    m.update(DialogEvent::ShowDialog(2));
    // the timer of the first dialog fires after the second was shown
    m.update(DialogEvent::ExitAnimationDone);
    assert_eq!(m.active, Some(2));
    assert_eq!(m.dialog_id, 2);
}

#[test]
fn server_exit_cancels_open_dialog() {
    let mut m: DialogModel<u8> = DialogModel::new();
    m.update(DialogEvent::ShowDialog(7));
    let fx = m.update(DialogEvent::ServerExited);
    assert_eq!(fx.finished, Some(7));
    assert!(fx.quit);
    assert!(m.active.is_none() && !m.closing);
}

#[test]
fn reset_per_request_keeps_session() {
    let mut st = PinentryState::default();
    st.desc = Some("d".into());
    st.timeout = Some(3);
    st.quality_bar = Some(String::new());
    st.ttyname = Some("/dev/pts/1".into());
    st.grab = true;
    st.invisible_char = Some('*');
    st.reset_per_request();
    assert!(st.desc.is_none() && st.timeout.is_none() && st.quality_bar.is_none());
    assert_eq!(st.ttyname.as_deref(), Some("/dev/pts/1"));
    assert!(st.grab);
    assert_eq!(st.invisible_char, Some('*'));
}
