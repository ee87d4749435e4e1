use svalin_pki::keys::{Algorithm, ExportedPublicKey, PublicKey};
use svalin_pki::profile_picker::{PickerAction, PickerMessage, PickerState, ProfilePicker};
use svalin_pki::ui::{Counter, CounterMessage, HeaderStyle, Input, WindowContent};

#[test]
fn counter_counts_both_ways() {
    let mut counter = Counter::new();
    assert_eq!(counter.count(), 0);
    counter.update(CounterMessage::IncrementCounter);
    counter.update(CounterMessage::IncrementCounter);
    counter.update(CounterMessage::DecrementCounter);
    assert_eq!(counter.count(), 1);
    counter.update(CounterMessage::DecrementCounter);
    counter.update(CounterMessage::DecrementCounter);
    assert_eq!(counter.count(), -1);
}

#[test]
fn public_key_bytes_round_trip() {
    let key = PublicKey::from_bytes(vec![1, 2, 3]).unwrap();
    assert_eq!(key.to_bytes(), &[1, 2, 3]);
}

#[test]
fn exported_public_keys_compare_by_content() {
    let a = ExportedPublicKey::new(vec![5, 6], Algorithm::default());
    let b = ExportedPublicKey::new(vec![5, 6], Algorithm::PkcsEd25519);
    let c = ExportedPublicKey::new(vec![5, 7], Algorithm::PkcsEd25519);
    assert!(a.same_as(&b));
    assert!(!a.same_as(&c));
    assert_eq!(a.der_bytes(), &[5, 6]);
    assert_eq!(a.algorithm(), Algorithm::PkcsEd25519);
}

#[test]
fn header_style_defaults_to_default() {
    assert_eq!(HeaderStyle::default(), HeaderStyle::Default);
}

#[test]
fn picker_unlocks_a_selected_profile() {
    let mut picker = ProfilePicker::new(vec!["home".to_string(), "work".to_string()]);
    assert!(matches!(picker.current(), PickerState::SelectProfile(p) if p.len() == 2));
    assert!(matches!(picker.update(PickerMessage::SelectProfile("work".to_string())), PickerAction::Nothing));
    assert!(matches!(picker.current(), PickerState::UnlockProfile { profile, password } if profile == "work" && password.is_empty()));
    match picker.update(PickerMessage::UnlockProfile) {
        PickerAction::OpenProfile { profile, password } => {
            assert_eq!(profile, "work");
            assert_eq!(password, "");
        }
        other => panic!("unexpected {:?}", other),
    }
    assert!(matches!(picker.current(), PickerState::Loading));
    assert!(matches!(picker.update(PickerMessage::UnlockProfile), PickerAction::Nothing));
    assert!(matches!(picker.current(), PickerState::Loading));
    assert!(matches!(picker.update(PickerMessage::Reset), PickerAction::LoadProfiles));
    picker.profiles_loaded(vec!["home".to_string()]);
    assert!(matches!(picker.current(), PickerState::SelectProfile(p) if p == &vec!["home".to_string()]));
}

#[test]
fn picker_deletes_after_confirmation() {
    let mut picker = ProfilePicker::new(vec!["home".to_string()]);
    assert!(matches!(picker.update(PickerMessage::DeleteProfile("home".to_string())), PickerAction::Nothing));
    assert_eq!(picker.confirm_delete().map(|s| s.as_str()), Some("home"));
    assert!(matches!(picker.update(PickerMessage::CalcelDelete), PickerAction::Nothing));
    assert!(picker.confirm_delete().is_none());
    picker.update(PickerMessage::DeleteProfile("home".to_string()));
    match picker.update(PickerMessage::ConfirmDelete("home".to_string())) {
        PickerAction::RemoveProfile(p) => assert_eq!(p, "home"),
        other => panic!("unexpected {:?}", other),
    }
    assert!(picker.confirm_delete().is_none());
}

#[test]
fn picker_registration_form() {
    let mut picker = ProfilePicker::new(vec![]);
    picker.update(PickerMessage::AddProfile);
    picker.update(PickerMessage::Input(Input::Host("example.org".to_string())));
    assert!(matches!(picker.current(), PickerState::AddProfile { host } if host == "example.org"));
    picker.update(PickerMessage::Connect("example.org".to_string()));
    picker.update(PickerMessage::Input(Input::Username("admin".to_string())));
    picker.update(PickerMessage::Input(Input::Password("pw".to_string())));
    picker.update(PickerMessage::Input(Input::ConfirmPassword("pw2".to_string())));
    picker.update(PickerMessage::Input(Input::Host("other.org".to_string())));
    match picker.current() {
        PickerState::RegisterRoot { host, username, password, confirm_password } => {
            assert_eq!(host, "other.org");
            assert_eq!(username, "admin");
            assert_eq!(password, "pw");
            assert_eq!(confirm_password, "pw2");
        }
        other => panic!("unexpected {:?}", other),
    }
}

#[test]
fn window_titles() {
    let terminal = WindowContent::Terminal { title: "bash".to_string() };
    assert_eq!(terminal.title(), "bash");
    assert_eq!(WindowContent::Todo.title(), "Todo");
}
