use std::collections::HashSet;

use global_hotkey::hotkey::Code;
use groupctrl::components::group_config::change_apps;
use groupctrl::components::list::{is_selected, toggle_active};
use groupctrl::components::root::{active_group, change_groups};
use groupctrl::components::CellChange;
use groupctrl::hotkeys::{HotkeyPicker, Message};
use groupctrl::models::{Action, GroupId, Hotkey, KeyCode, Modifiers};
use groupctrl::os::{App, AppInterface};
use groupctrl::services::hotkey::{BinderError, HotkeyBinder};
use groupctrl::services::ConfigService;
use groupctrl::text::{capitalize, contains, segment_after_last, starts_with, strip_prefix, upper};

struct NotingBinder {
    unbound: Vec<u32>,
}

impl HotkeyBinder for NotingBinder {
    fn bind_hotkey(&mut self, _hotkey: Hotkey, _action: &Action) -> Result<(), BinderError> {
        Ok(())
    }

    fn unbind_hotkey(&mut self, hotkey: Hotkey) {
        self.unbound.push(hotkey.id());
    }
}

fn ctrl_shift(code: Code) -> Hotkey {
    Hotkey::new(Modifiers::control() | Modifiers::shift(), KeyCode::new(code))
}

fn set_of(ids: &[u128]) -> HashSet<u128> {
    ids.iter().copied().collect()
}

#[test]
fn a_plain_click_selects_the_row_alone() {
    let mut selected = set_of(&[1, 2]);
    toggle_active(&mut selected, 3, false);
    assert_eq!(selected, set_of(&[3]));
    toggle_active(&mut selected, 3, false);
    assert_eq!(selected, set_of(&[3]));
}

#[test]
fn a_click_with_the_multi_select_key_toggles_the_row() {
    let mut selected = set_of(&[1, 2]);
    toggle_active(&mut selected, 3, true);
    assert_eq!(selected, set_of(&[1, 2, 3]));
    toggle_active(&mut selected, 1, true);
    assert_eq!(selected, set_of(&[2, 3]));
    assert!(is_selected(&selected, &2));
    assert!(!is_selected(&selected, &1));
}

#[test]
fn selection_of_rows_named_by_text() {
    let mut selected: HashSet<String> = HashSet::new();
    toggle_active(&mut selected, "a".to_string(), true);
    toggle_active(&mut selected, "b".to_string(), true);
    toggle_active(&mut selected, "a".to_string(), true);
    assert_eq!(selected.into_iter().collect::<Vec<_>>(), vec!["b".to_string()]);
}

#[test]
fn the_active_group_is_the_only_one_selected() {
    assert_eq!(active_group(&vec![]), None);
    assert_eq!(active_group(&vec![GroupId(4)]), Some(GroupId(4)));
    assert_eq!(active_group(&vec![GroupId(4), GroupId(5)]), None);
}

#[test]
fn adding_to_the_group_list_makes_a_new_group() {
    let mut service = ConfigService::new(NotingBinder { unbound: Vec::new() });
    let id = change_groups(&mut service, CellChange::Add).unwrap();
    assert_eq!(service.groups().len(), 1);
    assert_eq!(service.group(id).unwrap().name(), "New Group");
    assert_eq!(service.group(id).unwrap().hotkey(), None);
    let second = change_groups(&mut service, CellChange::Add).unwrap();
    assert_ne!(id, second);
    assert_eq!(service.groups()[1].id(), second);
}

#[test]
fn removing_from_the_group_list_gives_hotkeys_up() {
    let mut service = ConfigService::new(NotingBinder { unbound: Vec::new() });
    let a = service.add_group("a".to_string());
    let b = service.add_group("b".to_string());
    let c = service.add_group("c".to_string());
    assert_eq!(service.set_hotkey(a, Some(ctrl_shift(Code::KeyA))), Ok(None));
    assert_eq!(service.set_hotkey(c, Some(ctrl_shift(Code::KeyC))), Ok(None));

    let r = change_groups(&mut service, CellChange::Remove(vec![c, GroupId(77), a, c]));

    assert_eq!(r, None);
    assert_eq!(service.groups().iter().map(|g| g.id()).collect::<Vec<_>>(), vec![b]);
    assert_eq!(
        service.hotkey_service().binder().unbound,
        vec![ctrl_shift(Code::KeyC).id(), ctrl_shift(Code::KeyA).id()]
    );
    assert!(service.hotkey_service().hotkeys().is_empty());
}

#[test]
fn changes_to_the_app_list() {
    let mut service = ConfigService::new(NotingBinder { unbound: Vec::new() });
    let group = service.add_group("a".to_string());
    let ids = |service: &ConfigService<NotingBinder>| -> Vec<String> {
        service.group(group).unwrap().apps().iter().map(|a| a.id().to_string()).collect()
    };
    change_apps(&mut service, group, CellChange::Add, Some(App::new("x")));
    change_apps(&mut service, group, CellChange::Add, Some(App::new("y")));
    change_apps(&mut service, group, CellChange::Add, Some(App::new("x")));
    change_apps(&mut service, group, CellChange::Add, None);
    change_apps(&mut service, group, CellChange::Add, Some(App::new("z")));
    assert_eq!(ids(&service), vec!["x", "y", "z"]);
    change_apps(
        &mut service,
        group,
        CellChange::Remove(vec!["z".to_string(), "q".to_string(), "x".to_string()]),
        None,
    );
    assert_eq!(ids(&service), vec!["y"]);
    change_apps(&mut service, group, CellChange::Remove(vec![]), Some(App::new("w")));
    assert_eq!(ids(&service), vec!["y"]);
}

#[test]
fn picker_records_an_unregistered_combination() {
    let mut picker = HotkeyPicker::new(None);
    assert_eq!(picker.label(), "None");
    assert_eq!(picker.label_color(), "gray");
    assert!(!picker.recording());

    // Not recording: keys pass by.
    picker.record_unregistered(Modifiers::control(), KeyCode::new(Code::KeyF));
    assert_eq!(picker.picked(), None);

    picker.start_recording();
    assert!(picker.recording());
    assert_eq!(picker.label(), "Recording...");
    assert_eq!(picker.label_color(), "black");

    // A modifier alone does not end the recording.
    picker.record_unregistered(Modifiers::control(), KeyCode::new(Code::ControlLeft));
    assert!(picker.recording());
    picker.record_unregistered(Modifiers::shift(), KeyCode::new(Code::ShiftRight));
    assert!(picker.recording());

    picker.record_unregistered(
        Modifiers::control() | Modifiers::shift(),
        KeyCode::new(Code::KeyF),
    );
    assert!(!picker.recording());
    assert_eq!(picker.picked(), Some(ctrl_shift(Code::KeyF)));
    assert_eq!(picker.label(), "Ctrl+Shift+F");
    assert_eq!(picker.label_color(), "black");
}

#[test]
fn escape_picks_nothing() {
    let mut picker = HotkeyPicker::new(Some(ctrl_shift(Code::KeyF)));
    assert_eq!(picker.label(), "Ctrl+Shift+F");
    picker.start_recording();
    picker.record_unregistered(Modifiers::empty(), KeyCode::new(Code::Escape));
    assert!(!picker.recording());
    assert_eq!(picker.picked(), None);
    assert_eq!(picker.label(), "None");
}

#[test]
fn picker_takes_a_registered_hotkey_from_record_mode() {
    let mut picker = HotkeyPicker::new(None);
    picker.start_recording();
    picker.record_registered(ctrl_shift(Code::KeyG));
    assert!(!picker.recording());
    assert_eq!(picker.picked(), Some(ctrl_shift(Code::KeyG)));
}

#[test]
fn picker_messages() {
    let mut picker = HotkeyPicker::new(None);
    assert!(!picker.update(Message::KeyPress(ctrl_shift(Code::KeyF))));
    assert_eq!(picker.picked(), None);

    assert!(!picker.update(Message::StartRecording));
    assert!(picker.recording());
    assert!(picker.update(Message::KeyPress(ctrl_shift(Code::KeyF))));
    assert!(!picker.recording());
    assert_eq!(picker.picked(), Some(ctrl_shift(Code::KeyF)));

    assert!(!picker.update(Message::StartRecording));
    let escape = Hotkey::new(Modifiers::empty(), KeyCode::new(Code::Escape));
    assert!(!picker.update(Message::KeyPress(escape)));
    assert!(!picker.recording());
    assert_eq!(picker.picked(), None);
}

#[test]
fn text_helpers() {
    assert!(starts_with("KeyF", "Key"));
    assert!(starts_with("Key", "Key"));
    assert!(starts_with("Key", ""));
    assert!(!starts_with("Ke", "Key"));
    assert!(!starts_with("keyF", "Key"));
    assert_eq!(strip_prefix("Digit1", "Digit"), Some("1".to_string()));
    assert_eq!(strip_prefix("Digit", "Digit"), Some(String::new()));
    assert_eq!(strip_prefix("F1", "Digit"), None);
    assert!(contains("ControlLeft", "Control"));
    assert!(contains("LeftControl", "Control"));
    assert!(contains("abc", ""));
    assert!(contains("", ""));
    assert!(!contains("Contro", "Control"));
    assert!(!contains("", "a"));
    assert_eq!(segment_after_last("com.apple.finder", '.'), "finder");
    assert_eq!(segment_after_last("finder", '.'), "finder");
    assert_eq!(segment_after_last("a.", '.'), "");
    assert_eq!(segment_after_last("", '.'), "");
    assert_eq!(upper('a'), 'A');
    assert_eq!(upper('z'), 'Z');
    assert_eq!(upper('A'), 'A');
    assert_eq!(upper('1'), '1');
    assert_eq!(upper('é'), 'é');
    assert_eq!(capitalize("finder"), "Finder");
    assert_eq!(capitalize("Finder"), "Finder");
    assert_eq!(capitalize("écran"), "écran");
    assert_eq!(capitalize(""), "");
    assert_eq!(capitalize("x"), "X");
}
