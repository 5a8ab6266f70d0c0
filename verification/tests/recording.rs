use global_hotkey::hotkey::Code;
use groupctrl::models::{Action, Hotkey, KeyCode, Modifiers};
use groupctrl::services::hotkey::{BinderEvent, HotkeyBinder, RecordingBinder};
use groupctrl::services::{ConfigService, HotkeyService};

fn ctrl_shift_key(code: Code) -> Hotkey {
    Hotkey::new(Modifiers::control() | Modifiers::shift(), KeyCode::new(code))
}

fn asked(service: &ConfigService<RecordingBinder>) -> Vec<BinderEvent> {
    service.hotkey_service().binder().events().clone()
}

#[test]
fn recording_binder_notes_what_it_is_asked() {
    let mut binder = RecordingBinder::new();
    assert!(binder.events().is_empty());
    let f = ctrl_shift_key(Code::KeyF);
    let action = Action::OpenGroup { group_id: groupctrl::models::GroupId(3) };
    assert_eq!(binder.bind_hotkey(f, &action), Ok(()));
    binder.unbind_hotkey(f);
    binder.unbind_hotkey(f);
    assert_eq!(
        *binder.events(),
        vec![
            BinderEvent::Register(f.id(), action),
            BinderEvent::Unregister(f.id()),
            BinderEvent::Unregister(f.id()),
        ]
    );
}

#[test]
fn first_hotkey_of_a_group_is_one_registration() {
    let mut service = ConfigService::new(RecordingBinder::new());
    let work = service.add_group("Work".to_string());
    let f = ctrl_shift_key(Code::KeyF);
    assert_eq!(service.set_hotkey(work, Some(f)), Ok(None));
    assert_eq!(
        asked(&service),
        vec![BinderEvent::Register(f.id(), Action::OpenGroup { group_id: work })]
    );
    assert_eq!(service.group(work).unwrap().hotkey(), Some(f));
}

#[test]
fn a_change_gives_up_before_it_registers() {
    let mut service = ConfigService::new(RecordingBinder::new());
    let work = service.add_group("Work".to_string());
    let open_work = Action::OpenGroup { group_id: work };
    let f = ctrl_shift_key(Code::KeyF);
    let g = ctrl_shift_key(Code::KeyG);
    assert_eq!(service.set_hotkey(work, Some(f)), Ok(None));
    assert_eq!(service.set_hotkey(work, Some(g)), Ok(None));
    assert_eq!(
        asked(&service)[1..],
        [BinderEvent::Unregister(f.id()), BinderEvent::Register(g.id(), open_work)]
    );
}

#[test]
fn a_conflict_asks_nothing_of_the_binder() {
    let mut service = ConfigService::new(RecordingBinder::new());
    let work = service.add_group("Work".to_string());
    let play = service.add_group("Play".to_string());
    let g = ctrl_shift_key(Code::KeyG);
    assert_eq!(service.set_hotkey(work, Some(g)), Ok(None));
    let before = asked(&service);
    assert_eq!(
        service.set_hotkey(play, Some(g)),
        Ok(Some(Action::OpenGroup { group_id: work }))
    );
    assert_eq!(asked(&service), before);
    assert_eq!(service.group(play).unwrap().hotkey(), None);
}

#[test]
fn removing_a_group_gives_its_hotkey_up() {
    let mut service = ConfigService::new(RecordingBinder::new());
    let work = service.add_group("Work".to_string());
    let g = ctrl_shift_key(Code::KeyG);
    assert_eq!(service.set_hotkey(work, Some(g)), Ok(None));
    service.remove_group(work);
    assert_eq!(asked(&service)[1..], [BinderEvent::Unregister(g.id())]);
    assert!(service.hotkey_service().hotkeys().is_empty());
    assert!(service.groups().is_empty());
}

#[test]
fn equal_rebind_on_the_service_is_a_no_op() {
    let mut service = HotkeyService::new_with_binder(RecordingBinder::new());
    let mut config = groupctrl::models::Config::default();
    let group = config.add_group("Work".to_string());
    let f = ctrl_shift_key(Code::KeyF);
    let action = Action::OpenGroup { group_id: group };
    assert_eq!(service.bind_hotkey(&config, Some(f), Some(f), action), Ok(None));
    assert_eq!(service.bind_hotkey(&config, None, None, action), Ok(None));
    assert!(service.binder().events().is_empty());
    assert!(service.hotkeys().is_empty());
}
