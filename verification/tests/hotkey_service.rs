use std::sync::{Arc, Mutex};

use global_hotkey::hotkey::Code;
use groupctrl::models::{Action, Config, GroupId, Hotkey, KeyCode, Modifiers};
use groupctrl::services::hotkey::{may_bind, BinderError, HotkeyBinder, Registry};
use groupctrl::services::HotkeyService;

#[derive(Debug, PartialEq, Clone)]
pub enum MockEvent {
    Register(Hotkey, Action),
    Unregister(Hotkey),
}

use MockEvent::{Register, Unregister};

pub struct MockBinder {
    pub events: Arc<Mutex<Vec<MockEvent>>>,
    pub refuse: Option<BinderError>,
}

impl HotkeyBinder for MockBinder {
    fn bind_hotkey(&mut self, hotkey: Hotkey, action: &Action) -> Result<(), BinderError> {
        let mut events = self.events.lock().unwrap();
        events.push(MockEvent::Register(hotkey, action.clone()));
        match self.refuse {
            Some(error) => Err(error),
            None => Ok(()),
        }
    }

    fn unbind_hotkey(&mut self, hotkey: Hotkey) {
        let mut events = self.events.lock().unwrap();
        events.push(MockEvent::Unregister(hotkey));
    }
}

fn setup_service() -> (HotkeyService<MockBinder>, Arc<Mutex<Vec<MockEvent>>>) {
    let events = Arc::new(Mutex::new(Vec::new()));
    let binder = MockBinder { events: events.clone(), refuse: None };
    let service = HotkeyService::new_with_binder(binder);
    (service, events)
}

fn setup_refusing(error: BinderError) -> (HotkeyService<MockBinder>, Arc<Mutex<Vec<MockEvent>>>) {
    let events = Arc::new(Mutex::new(Vec::new()));
    let binder = MockBinder { events: events.clone(), refuse: Some(error) };
    let service = HotkeyService::new_with_binder(binder);
    (service, events)
}

fn setup_group(config: &mut Config, hotkey: Option<Hotkey>) -> Action {
    let group_id = config.add_group("Test".to_string());
    config.set_hotkey(group_id, hotkey);
    Action::OpenGroup { group_id }
}

fn hotkey_of(mods: Modifiers, code: Code) -> Hotkey {
    Hotkey::new(mods, KeyCode::new(code))
}

#[test]
fn service_bind_hotkey_new() {
    // Arrange
    let (mut service, events) = setup_service();
    let mut config = Config::default();
    let action = setup_group(&mut config, None);
    let hotkey = hotkey_of(Modifiers::super_key() | Modifiers::shift(), Code::KeyF);

    // Act
    let result = service.bind_hotkey(&config, Some(hotkey), None, action.clone());

    // Assert
    assert_eq!(result, Ok(None));
    assert_eq!(*events.lock().unwrap(), vec![Register(hotkey, action)]);
}

#[test]
fn bind_hotkey_repeat_none() {
    // Arrange
    let (mut service, events) = setup_service();
    let mut config = Config::default();
    let action = setup_group(&mut config, None);

    // Act
    let result = service.bind_hotkey(&config, None, None, action.clone());

    // Assert
    assert_eq!(result, Ok(None));
    assert_eq!(*events.lock().unwrap(), vec![]);
}

#[test]
fn bind_hotkey_repeat_some() {
    // Arrange
    let (mut service, events) = setup_service();
    let mut config = Config::default();
    let action = setup_group(&mut config, None);
    let hotkey = hotkey_of(Modifiers::super_key() | Modifiers::shift(), Code::KeyF);

    // Act
    let result = service.bind_hotkey(&config, Some(hotkey), Some(hotkey), action.clone());

    // Assert
    assert_eq!(result, Ok(None));
    assert_eq!(*events.lock().unwrap(), vec![]);
}

#[test]
fn service_bind_hotkey_change() {
    // Arrange
    let (mut service, events) = setup_service();
    let old_hotkey = hotkey_of(Modifiers::super_key() | Modifiers::shift(), Code::KeyF);
    let new_hotkey = hotkey_of(Modifiers::super_key() | Modifiers::shift(), Code::KeyG);
    let mut config = Config::default();
    let action = setup_group(&mut config, Some(old_hotkey));

    // Act
    let result =
        service.bind_hotkey(&config, Some(new_hotkey), Some(old_hotkey), action.clone());

    // Assert
    assert_eq!(result, Ok(None));
    assert_eq!(
        *events.lock().unwrap(),
        vec![Unregister(old_hotkey), Register(new_hotkey, action)]
    );
}

#[test]
fn service_bind_hotkey_conflict() {
    // Arrange
    let (mut service, events) = setup_service();
    let hotkey = hotkey_of(Modifiers::super_key() | Modifiers::shift(), Code::KeyF);
    let mut config = Config::default();
    let old_action = setup_group(&mut config, Some(hotkey));
    let new_action = setup_group(&mut config, None);

    // Act
    let result = service.bind_hotkey(&config, Some(hotkey), None, new_action);

    // Assert
    assert_eq!(result, Ok(Some(old_action.clone())));
    assert_eq!(*events.lock().unwrap(), vec![]);
}

#[test]
fn removing_a_hotkey_never_conflicts() {
    let (mut service, events) = setup_service();
    let hotkey = hotkey_of(Modifiers::control(), Code::KeyF);
    let mut config = Config::default();
    let _bare = setup_group(&mut config, None);
    let action = setup_group(&mut config, Some(hotkey));

    let result = service.bind_hotkey(&config, None, Some(hotkey), action);

    assert_eq!(result, Ok(None));
    assert_eq!(*events.lock().unwrap(), vec![Unregister(hotkey)]);
}

#[test]
fn the_group_itself_does_not_stand_in_its_own_way() {
    let (mut service, events) = setup_service();
    let hotkey = hotkey_of(Modifiers::control(), Code::KeyF);
    let mut config = Config::default();
    let action = setup_group(&mut config, Some(hotkey));

    // The binding was lost: the caller holds nothing, the group still names the hotkey.
    let result = service.bind_hotkey(&config, Some(hotkey), None, action);

    assert_eq!(result, Ok(None));
    assert_eq!(*events.lock().unwrap(), vec![Register(hotkey, action)]);
}

#[test]
fn the_first_group_in_the_way_is_reported() {
    let hotkey = hotkey_of(Modifiers::control(), Code::KeyF);
    let mut config = Config::default();
    let first = setup_group(&mut config, Some(hotkey));
    let second = setup_group(&mut config, Some(hotkey));
    let asker = setup_group(&mut config, None);
    assert_eq!(
        HotkeyService::<MockBinder>::find_conflict(&config, Some(hotkey), asker),
        Some(first)
    );
    assert_eq!(
        HotkeyService::<MockBinder>::find_conflict(&config, Some(hotkey), first),
        Some(second)
    );
    assert_eq!(HotkeyService::<MockBinder>::find_conflict(&config, None, asker), None);
    let other = hotkey_of(Modifiers::control(), Code::KeyG);
    assert_eq!(HotkeyService::<MockBinder>::find_conflict(&config, Some(other), asker), None);
}

#[test]
fn a_hotkey_held_already_is_refused() {
    let f = hotkey_of(Modifiers::control(), Code::KeyF);
    let g = hotkey_of(Modifiers::control(), Code::KeyG);
    let mut held = Registry::new();
    assert_eq!(may_bind(&held, f), Ok(()));
    held.insert(f.id(), 1);
    assert_eq!(may_bind(&held, f), Err(BinderError::AlreadyRegistered));
    assert_eq!(may_bind(&held, g), Ok(()));
    held.remove(f.id());
    assert_eq!(may_bind(&held, f), Ok(()));
}

#[test]
fn registry_follows_the_binder() {
    let (mut service, _events) = setup_service();
    let f = hotkey_of(Modifiers::control(), Code::KeyF);
    let g = hotkey_of(Modifiers::control(), Code::KeyG);
    let mut config = Config::default();
    let work = setup_group(&mut config, None);
    let play = setup_group(&mut config, None);
    assert!(service.hotkeys().is_empty());

    assert_eq!(service.bind_hotkey(&config, Some(f), None, work), Ok(None));
    assert_eq!(service.hotkeys(), vec![f.id()]);
    assert!(service.is_registered(f));
    assert!(!service.is_registered(g));

    assert_eq!(service.bind_hotkey(&config, Some(g), None, play), Ok(None));
    let mut ids = service.hotkeys();
    ids.sort();
    assert_eq!(ids, vec![f.id(), g.id()]);

    assert_eq!(service.bind_hotkey(&config, None, Some(f), work), Ok(None));
    assert_eq!(service.hotkeys(), vec![g.id()]);
    assert!(!service.is_registered(f));
}

#[test]
fn a_group_holds_one_registration_at_most() {
    let (mut service, _events) = setup_service();
    let f = hotkey_of(Modifiers::control(), Code::KeyF);
    let g = hotkey_of(Modifiers::control(), Code::KeyG);
    let config = Config::new();
    let work = Action::OpenGroup { group_id: GroupId(1) };

    assert_eq!(service.note_bind(f, work, Ok(())), Ok(None));
    assert_eq!(service.note_bind(g, work, Ok(())), Ok(None));
    assert_eq!(service.hotkeys(), vec![g.id()]);
    assert_eq!(config.groups().len(), 0);
}

#[test]
fn note_bind_hands_a_refusal_on() {
    let (mut service, _events) = setup_service();
    let f = hotkey_of(Modifiers::control(), Code::KeyF);
    let work = Action::OpenGroup { group_id: GroupId(1) };
    assert_eq!(
        service.note_bind(f, work, Err(BinderError::AlreadyRegistered)),
        Err(BinderError::AlreadyRegistered)
    );
    assert_eq!(
        service.note_bind(f, work, Err(BinderError::PlatformRefused)),
        Err(BinderError::PlatformRefused)
    );
    assert!(service.hotkeys().is_empty());
    assert_eq!(service.note_bind(f, work, Ok(())), Ok(None));
    assert_eq!(service.hotkeys(), vec![f.id()]);
}

#[test]
fn refused_bind_leaves_the_old_hotkey_given_up() {
    let (mut service, events) = setup_refusing(BinderError::PlatformRefused);
    let f = hotkey_of(Modifiers::control(), Code::KeyF);
    let g = hotkey_of(Modifiers::control(), Code::KeyG);
    let mut config = Config::default();
    let work = setup_group(&mut config, Some(f));
    assert_eq!(service.note_bind(f, work, Ok(())), Ok(None));

    let result = service.bind_hotkey(&config, Some(g), Some(f), work);

    assert_eq!(result, Err(BinderError::PlatformRefused));
    assert_eq!(*events.lock().unwrap(), vec![Unregister(f), Register(g, work)]);
    assert!(service.hotkeys().is_empty());
}

#[test]
fn refusal_because_already_registered() {
    let (mut service, events) = setup_refusing(BinderError::AlreadyRegistered);
    let f = hotkey_of(Modifiers::control(), Code::KeyF);
    let mut config = Config::default();
    let work = setup_group(&mut config, None);

    let result = service.bind_hotkey(&config, Some(f), None, work);

    assert_eq!(result, Err(BinderError::AlreadyRegistered));
    assert_eq!(*events.lock().unwrap(), vec![Register(f, work)]);
    assert!(service.hotkeys().is_empty());
    assert!(service.binder().refuse.is_some());
}
