use ned::info;
use ned::temp_key::{get_mapping, KeymapMode, KeymapSnapshot, Mappings, TempKeyBind};

fn keymap(lhs: &str, rhs: Option<&str>, buffer: bool, sid: i32) -> KeymapSnapshot {
    KeymapSnapshot {
        buffer,
        callback: None,
        expr: false,
        lhs: lhs.to_string(),
        lnum: None,
        mode: KeymapMode::Normal,
        noremap: true,
        nowait: false,
        rhs: rhs.map(|r| r.to_string()),
        script: false,
        sid,
        silent: true,
    }
}

#[test]
fn get_mapping_finds_the_first_match() {
    let maps = vec![keymap("a", Some("x"), false, 1), keymap("l", Some("y"), false, 2), keymap("l", None, true, 3)];
    let found = get_mapping(maps, "l").expect("l is bound");
    assert_eq!(found.sid, 2);
    assert_eq!(found.rhs.as_deref(), Some("y"));
}

#[test]
fn get_mapping_of_an_unbound_key() {
    let maps = vec![keymap("a", Some("x"), false, 1)];
    assert!(get_mapping(maps, "l").is_none());
    assert!(get_mapping(Vec::new(), "l").is_none());
}

#[test]
fn removing_a_key_that_had_no_binding_only_deletes() {
    let plan = TempKeyBind::new("l".to_string(), None).remove();
    assert_eq!(plan.delete_lhs, "l");
    assert!(plan.restore.is_none());
}

#[test]
fn removing_restores_a_global_binding() {
    let mut original = keymap("l", Some(":echo 1<CR>"), false, 4);
    original.callback = Some(12);
    original.mode = KeymapMode::Visual;
    original.expr = true;
    let plan = TempKeyBind::new("l".to_string(), Some(original)).remove();
    assert_eq!(plan.delete_lhs, "l");
    let r = plan.restore.expect("there was a binding");
    assert!(!r.buffer_local);
    assert_eq!(r.mode, KeymapMode::Visual);
    assert_eq!(r.lhs, "l");
    assert_eq!(r.rhs, ":echo 1<CR>");
    assert_eq!(r.callback, Some(12));
    assert!(r.noremap && r.expr && !r.nowait && !r.script && r.silent);
}

#[test]
fn removing_restores_a_buffer_binding_with_an_empty_rhs() {
    let plan = TempKeyBind::new("c".to_string(), Some(keymap("c", None, true, 0))).remove();
    let r = plan.restore.expect("there was a binding");
    assert!(r.buffer_local);
    assert_eq!(r.rhs, "");
}

#[test]
fn mappings_hold_each_binding_once() {
    let mut maps = Mappings::new();
    maps.add(TempKeyBind::new("l".to_string(), None));
    maps.add(TempKeyBind::new("c".to_string(), None));
    maps.add(TempKeyBind::new("l".to_string(), None));
    maps.add(TempKeyBind::new("l".to_string(), Some(keymap("l", None, false, 1))));
    let drained = maps.clear();
    let keys: Vec<(&str, bool)> =
        drained.iter().map(|b| (b.lhs.as_str(), b.original_keybind.is_some())).collect();
    assert_eq!(keys, vec![("l", false), ("c", false), ("l", true)]);
    assert!(maps.clear().is_empty());
}

#[test]
fn same_binding_compares_every_part() {
    let a = keymap("l", Some("x"), false, 1);
    let mut b = keymap("l", Some("x"), false, 1);
    assert!(a.same_as(&b));
    b.lnum = Some(3);
    assert!(!a.same_as(&b));
    let c = keymap("l", None, false, 1);
    assert!(!a.same_as(&c));
}

#[test]
fn info_does_nothing() {
    info("going ned");
}
