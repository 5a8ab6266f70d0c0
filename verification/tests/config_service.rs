use global_hotkey::hotkey::Code;
use groupctrl::models::{Action, GroupId, Hotkey, KeyCode, Modifiers, UnknownGroup};
use groupctrl::os::{App, AppInterface};
use groupctrl::services::hotkey::{BinderError, HotkeyBinder};
use groupctrl::services::ConfigService;

#[derive(Debug, PartialEq, Clone)]
enum MockEvent {
    Register(u32, Action),
    Unregister(u32),
}

/// A binder that notes what it is asked and refuses the hotkeys it is told to.
struct MockBinder {
    events: Vec<MockEvent>,
    refused: Vec<u32>,
}

impl HotkeyBinder for MockBinder {
    fn bind_hotkey(&mut self, hotkey: Hotkey, action: &Action) -> Result<(), BinderError> {
        self.events.push(MockEvent::Register(hotkey.id(), *action));
        if self.refused.contains(&hotkey.id()) {
            Err(BinderError::PlatformRefused)
        } else {
            Ok(())
        }
    }

    fn unbind_hotkey(&mut self, hotkey: Hotkey) {
        self.events.push(MockEvent::Unregister(hotkey.id()));
    }
}

fn service() -> ConfigService<MockBinder> {
    ConfigService::new(MockBinder { events: Vec::new(), refused: Vec::new() })
}

fn refusing(hotkeys: &[Hotkey]) -> ConfigService<MockBinder> {
    ConfigService::new(MockBinder {
        events: Vec::new(),
        refused: hotkeys.iter().map(|h| h.id()).collect(),
    })
}

fn events(service: &ConfigService<MockBinder>) -> Vec<MockEvent> {
    service.hotkey_service().binder().events.clone()
}

fn registered(service: &ConfigService<MockBinder>) -> Vec<u32> {
    let mut ids = service.hotkey_service().hotkeys();
    ids.sort();
    ids
}

/// The hotkeys that the groups hold, by id.
fn held(service: &ConfigService<MockBinder>) -> Vec<u32> {
    let mut ids: Vec<u32> =
        service.groups().iter().filter_map(|g| g.hotkey()).map(|h| h.id()).collect();
    ids.sort();
    ids
}

/// Distinct group ids, no hotkey held twice, no application twice in a
/// group, and the binder holds what the groups hold.
fn assert_invariants(service: &ConfigService<MockBinder>) {
    let groups = service.groups();
    for (i, a) in groups.iter().enumerate() {
        for b in groups.iter().skip(i + 1) {
            assert_ne!(a.id(), b.id());
            assert!(a.hotkey().is_none() || a.hotkey() != b.hotkey());
        }
        for (k, x) in a.apps().iter().enumerate() {
            for y in a.apps().iter().skip(k + 1) {
                assert_ne!(x, y);
            }
        }
    }
    assert_eq!(registered(service), held(service));
}

fn super_shift(code: Code) -> Hotkey {
    Hotkey::new(Modifiers::super_key() | Modifiers::shift(), KeyCode::new(code))
}

fn ctrl_shift(code: Code) -> Hotkey {
    Hotkey::new(Modifiers::control() | Modifiers::shift(), KeyCode::new(code))
}

#[test]
fn hotkey_bind_hotkey_new() {
    // Arrange
    let mut service = service();
    let group = service.add_group("Test".to_string());
    service.add_app(group, App::new("some-app"));
    let hotkey = super_shift(Code::KeyF);
    let action = Action::OpenGroup { group_id: group };

    // Act
    let result = service.set_hotkey(group, Some(hotkey)).unwrap();

    // Assert
    assert_eq!(result, None);
    let events = events(&service);
    assert_eq!(events.len(), 1);
    assert_eq!(events[0], MockEvent::Register(hotkey.id(), action));
}

#[test]
fn bind_hotkey_repeat() {
    // Arrange
    let mut service = service();
    let group = service.add_group("Test".to_string());
    service.add_app(group, App::new("some-app"));
    let hotkey = super_shift(Code::KeyF);
    let action = Action::OpenGroup { group_id: group };

    // Act
    service.set_hotkey(group, Some(hotkey)).unwrap();
    let result = service.set_hotkey(group, Some(hotkey)).unwrap();

    // Assert
    assert_eq!(result, None);
    let events = events(&service);
    assert_eq!(events.len(), 1);
    assert_eq!(events[0], MockEvent::Register(hotkey.id(), action));
}

#[test]
fn hotkey_bind_hotkey_conflict() {
    // Arrange
    let mut service = service();
    let old_group = service.add_group("Test".to_string());
    service.add_app(old_group, App::new("some-app"));
    let new_group = service.add_group("Test".to_string());
    service.add_app(new_group, App::new("some-other-app"));
    let hotkey = super_shift(Code::KeyF);
    let old_action = Action::OpenGroup { group_id: old_group };

    // Act
    service.set_hotkey(old_group, Some(hotkey)).unwrap();
    let result = service.set_hotkey(new_group, Some(hotkey)).unwrap();

    // Assert
    assert_eq!(result, Some(old_action.clone()));
    let events = events(&service);
    assert_eq!(events.len(), 1);
    assert_eq!(events[0], MockEvent::Register(hotkey.id(), old_action));
}

#[test]
fn hotkey_bind_hotkey_change() {
    // Arrange
    let mut service = service();
    let group = service.add_group("Test".to_string());
    service.add_app(group, App::new("some-app"));
    let old_hotkey = super_shift(Code::KeyF);
    let new_hotkey = super_shift(Code::KeyG);
    let action = Action::OpenGroup { group_id: group };

    // Act
    service.set_hotkey(group, Some(old_hotkey)).unwrap();
    let result = service.set_hotkey(group, Some(new_hotkey)).unwrap();

    // Assert
    assert_eq!(result, None);
    let events = events(&service);
    assert_eq!(events.len(), 3);
    assert_eq!(events[0], MockEvent::Register(old_hotkey.id(), action.clone()));
    assert_eq!(events[1], MockEvent::Unregister(old_hotkey.id()));
    assert_eq!(events[2], MockEvent::Register(new_hotkey.id(), action));
}

#[test]
fn scenario_set_change_conflict_remove() {
    // Add group "Work"; set hotkey Ctrl/Shift/F.
    let mut service = service();
    let work = service.add_group("Work".to_string());
    let f = ctrl_shift(Code::KeyF);
    let g = ctrl_shift(Code::KeyG);
    let open_work = Action::OpenGroup { group_id: work };
    assert_eq!(service.set_hotkey(work, Some(f)), Ok(None));
    assert_eq!(events(&service), vec![MockEvent::Register(f.id(), open_work)]);
    assert_eq!(service.group(work).unwrap().hotkey(), Some(f));
    assert_eq!(service.group(work).unwrap().name(), "Work");
    assert_invariants(&service);

    // Change the same group's hotkey to Ctrl/Shift/G.
    assert_eq!(service.set_hotkey(work, Some(g)), Ok(None));
    assert_eq!(
        events(&service)[1..],
        [MockEvent::Unregister(f.id()), MockEvent::Register(g.id(), open_work)]
    );
    assert_eq!(service.group(work).unwrap().hotkey(), Some(g));
    assert_invariants(&service);

    // Add group "Play" and attempt to set its hotkey to Ctrl/Shift/G.
    let play = service.add_group("Play".to_string());
    assert_eq!(service.set_hotkey(play, Some(g)), Ok(Some(open_work)));
    assert_eq!(events(&service).len(), 3);
    assert_eq!(service.group(play).unwrap().hotkey(), None);
    assert_invariants(&service);

    // Remove group "Work".
    service.remove_group(work);
    assert_eq!(events(&service)[3..], [MockEvent::Unregister(g.id())]);
    assert!(service.group(work).is_none());
    assert!(registered(&service).is_empty());
    assert_invariants(&service);

    // The hotkey is free again.
    assert_eq!(service.set_hotkey(play, Some(g)), Ok(None));
    assert_eq!(registered(&service), vec![g.id()]);
    assert_invariants(&service);
}

#[test]
fn removing_a_group_without_hotkey_asks_nothing_of_the_binder() {
    let mut service = service();
    let work = service.add_group("Work".to_string());
    let play = service.add_group("Play".to_string());
    service.remove_group(work);
    service.remove_group(GroupId(42));
    assert!(events(&service).is_empty());
    assert_eq!(service.groups().len(), 1);
    assert_eq!(service.groups()[0].id(), play);
}

#[test]
fn a_removed_groups_id_does_not_come_back() {
    let mut service = service();
    let mut seen: Vec<GroupId> = Vec::new();
    for _ in 0..20 {
        let id = service.add_group("Work".to_string());
        assert!(!seen.contains(&id));
        assert!(service.config().was_issued(id));
        seen.push(id);
        service.remove_group(id);
    }
    assert!(service.groups().is_empty());
    assert!(events(&service).is_empty());
}

#[test]
fn clearing_a_hotkey_gives_it_up() {
    let mut service = service();
    let work = service.add_group("Work".to_string());
    let f = ctrl_shift(Code::KeyF);
    assert_eq!(service.set_hotkey(work, Some(f)), Ok(None));
    assert_eq!(service.set_hotkey(work, None), Ok(None));
    assert_eq!(events(&service)[1..], [MockEvent::Unregister(f.id())]);
    assert_eq!(service.group(work).unwrap().hotkey(), None);
    assert_eq!(service.set_hotkey(work, None), Ok(None));
    assert_eq!(events(&service).len(), 2);
    assert_invariants(&service);
}

#[test]
fn unknown_group_is_left_alone() {
    let mut service = service();
    let work = service.add_group("Work".to_string());
    let f = ctrl_shift(Code::KeyF);
    assert_eq!(service.set_hotkey(GroupId(42), Some(f)), Ok(None));
    assert!(events(&service).is_empty());
    assert_eq!(service.set_name(GroupId(42), "x".to_string()), Err(UnknownGroup));
    service.add_app(GroupId(42), App::new("x"));
    service.remove_app(GroupId(42), "x".to_string());
    assert_eq!(service.groups().len(), 1);
    assert_eq!(service.group(work).unwrap().name(), "Work");
    assert!(service.group(work).unwrap().apps().is_empty());
}

#[test]
fn refused_first_hotkey_leaves_the_group_without_one() {
    let f = ctrl_shift(Code::KeyF);
    let mut service = refusing(&[f]);
    let work = service.add_group("Work".to_string());
    assert_eq!(service.set_hotkey(work, Some(f)), Err(BinderError::PlatformRefused));
    assert_eq!(service.group(work).unwrap().hotkey(), None);
    assert!(registered(&service).is_empty());
    assert_invariants(&service);
}

#[test]
fn refused_change_keeps_the_config_and_gives_the_old_hotkey_up() {
    let f = ctrl_shift(Code::KeyF);
    let g = ctrl_shift(Code::KeyG);
    let h = ctrl_shift(Code::KeyH);
    let mut service = refusing(&[g]);
    let work = service.add_group("Work".to_string());
    let open_work = Action::OpenGroup { group_id: work };
    assert_eq!(service.set_hotkey(work, Some(f)), Ok(None));

    assert_eq!(service.set_hotkey(work, Some(g)), Err(BinderError::PlatformRefused));
    assert_eq!(
        events(&service)[1..],
        [MockEvent::Unregister(f.id()), MockEvent::Register(g.id(), open_work)]
    );
    assert_eq!(service.group(work).unwrap().hotkey(), Some(f));
    assert!(registered(&service).is_empty());

    // A later change that the system takes brings the two back in step.
    assert_eq!(service.set_hotkey(work, Some(h)), Ok(None));
    assert_eq!(service.group(work).unwrap().hotkey(), Some(h));
    assert_invariants(&service);
}

#[test]
fn edits_that_leave_hotkeys_alone_ask_nothing_of_the_binder() {
    let mut service = service();
    let work = service.add_group("Work".to_string());
    let f = ctrl_shift(Code::KeyF);
    assert_eq!(service.set_hotkey(work, Some(f)), Ok(None));
    assert_eq!(service.set_name(work, "Office".to_string()), Ok(()));
    service.add_app(work, App::new("a"));
    service.add_app(work, App::new("b"));
    service.add_app(work, App::new("a"));
    service.remove_app(work, "a".to_string());
    let _ = service.add_group("Play".to_string());
    assert_eq!(events(&service).len(), 1);
    let group = service.group(work).unwrap();
    assert_eq!(group.name(), "Office");
    assert_eq!(group.apps().iter().map(|a| a.id().to_string()).collect::<Vec<_>>(), vec!["b"]);
    assert_eq!(service.config().groups().len(), 2);
    assert_invariants(&service);
}

#[test]
fn invariants_hold_along_a_long_run_of_edits() {
    let mut service = service();
    let keys = [Code::KeyA, Code::KeyB, Code::KeyC, Code::KeyD];
    let apps = ["x", "y", "z"];
    let mut groups: Vec<GroupId> = Vec::new();
    // A fixed stream of numbers stands for the user's whims.
    let mut state: u64 = 0x2545_f491_4f6c_dd1d;
    for _ in 0..600 {
        state ^= state << 13;
        state ^= state >> 7;
        state ^= state << 17;
        let pick = (state >> 8) as usize;
        let target = if groups.is_empty() { GroupId(0) } else { groups[pick % groups.len()] };
        match state % 7 {
            0 => groups.push(service.add_group("Group".to_string())),
            1 => {
                service.remove_group(target);
                groups.retain(|g| *g != target);
            }
            2 => {
                let _ = service.set_name(target, "Renamed".to_string());
            }
            3 => service.add_app(target, App::new(apps[pick % apps.len()])),
            4 => service.remove_app(target, apps[pick % apps.len()].to_string()),
            5 => {
                let hotkey = ctrl_shift(keys[pick % keys.len()]);
                assert!(service.set_hotkey(target, Some(hotkey)).is_ok());
            }
            _ => {
                assert_eq!(service.set_hotkey(target, None), Ok(None));
            }
        }
        assert_invariants(&service);
        assert_eq!(service.groups().len(), groups.len());
    }
}
