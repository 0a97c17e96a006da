use horse_dumper::config::{
    default_field_blacklist, dump_enums, dump_static_variable_define, field_blacklist,
    is_field_blacklisted, resolve_output_dir, save_root, Config, Settings,
};
use horse_dumper::graph::TYPE_STRING;
use horse_dumper::memory::MemoryHost;
use horse_dumper::records::{find_winner, is_nonempty_array, object_get, race_folder, safe_file_name};
use horse_dumper::session::{confirm_race, find_sim_data_offset, read_sim_pointer, DumpTracker};
use horse_dumper::value::Value;

fn obj(entries: Vec<(&str, Value)>) -> Value {
    Value::Object(entries.into_iter().map(|(k, v)| (k.to_string(), v)).collect())
}

fn s(t: &str) -> Value {
    Value::Str(t.to_string())
}

fn race(kind: &str, horses: Vec<Value>) -> Value {
    obj(vec![("<RaceType>k__BackingField", s(kind)), ("<RaceHorse>k__BackingField", Value::Array(horses))])
}

#[test]
fn race_types_route_to_folders() {
    assert_eq!(race_folder(&race("RoomMatch", vec![])), "Room match");
    assert_eq!(race_folder(&race("Champions", vec![])), "Champions meeting");
    assert_eq!(race_folder(&race("Single", vec![])), "Career");
    assert_eq!(race_folder(&race("Practice", vec![])), "Practice room");
    assert_eq!(race_folder(&race("Legend", vec![])), "Other");
    assert_eq!(race_folder(&Value::Null), "Other");
}

#[test]
fn winner_is_first_horse_finishing_first() {
    let horses = vec![
        obj(vec![("FinishOrder", Value::Int(1)), ("<charaName>k__BackingField", s("B"))]),
        obj(vec![("FinishOrder", Value::Int(0)), ("<charaName>k__BackingField", s("A"))]),
        obj(vec![("FinishOrder", Value::Int(0)), ("<charaName>k__BackingField", s("C"))]),
    ];
    let r = race("Single", horses);
    let w = find_winner(&r).unwrap();
    match object_get(w, "<charaName>k__BackingField") {
        Some(Value::Str(n)) => assert_eq!(n, "A"),
        _ => panic!("winner has no name"),
    }
    assert!(find_winner(&race("Single", vec![])).is_none());
    assert!(object_get(&Value::Int(3), "x").is_none());
}

#[test]
fn names_are_made_safe_for_files() {
    assert_eq!(safe_file_name("  Special Week!  "), "Special Week_");
    assert_eq!(safe_file_name("Gold-Ship/2"), "Gold-Ship_2");
    assert_eq!(safe_file_name("   "), "");
    assert_eq!(safe_file_name("ライス"), "ライス");
}

#[test]
fn only_nonempty_arrays_are_saved() {
    assert!(is_nonempty_array(&Value::Array(vec![Value::Null])));
    assert!(!is_nonempty_array(&Value::Array(vec![])));
    assert!(!is_nonempty_array(&Value::Null));
}

#[test]
fn tracker_detects_new_races() {
    let mut t = DumpTracker::new();
    assert!(!t.is_new_race(0, 0));
    assert!(t.is_new_race(0x1000, 0));
    t.record(0x1000, 0);
    assert!(!t.is_new_race(0x1000, 0));
    t.set_sim_offset(0x40);
    assert!(!t.is_new_race(0x2000, 0));
    assert!(t.is_new_race(0x2000, 0x5000));
    t.record(0x2000, 0x5000);
    assert!(!t.is_new_race(0x2000, 0x5000));
    assert!(t.is_new_race(0x2000, 0x6000));
}

#[test]
fn sim_data_field_is_located_and_read() {
    let mut h = MemoryHost::new(0x10000, 256);
    let c = h.add_class("RaceInfo");
    h.add_field(c, "_id", TYPE_STRING, 0, 0x10, 0);
    h.add_field(c, "<SimDataBase64>k__BackingField", TYPE_STRING, 0, 0x40, 0);
    let off = find_sim_data_offset(&h, c);
    assert_eq!(off, Some(0x40));
    let mut t = DumpTracker::new();
    assert_eq!(read_sim_pointer(&h, &t, 0x10000), 0);
    t.set_sim_offset(0x40);
    h.write_u64(0x10040, 0x20000);
    assert_eq!(read_sim_pointer(&h, &t, 0x10000), 0x20000);
    assert_eq!(find_sim_data_offset(&h, 0), None);
}

#[test]
fn default_config_and_settings() {
    let d = Config::default();
    assert_eq!(d.output_path.as_deref(), Some("%USERPROFILE%\\Documents"));
    assert!(!d.dump_enums);
    let bl = default_field_blacklist();
    assert_eq!(bl.len(), 7);
    assert!(is_field_blacklisted(&bl, "viewer_id"));
    assert!(is_field_blacklisted(&bl, "succession_history_array"));
    assert!(!is_field_blacklisted(&bl, "viewer"));
    let mut cfg = Config::default();
    cfg.dump_enums = true;
    let st = Settings::from_config(cfg, "C:\\out\\Saved races".to_string());
    assert_eq!(save_root(&st), "C:\\out\\Saved races");
    assert!(dump_enums(&st));
    assert!(!dump_static_variable_define(&st));
    assert_eq!(field_blacklist(&st).len(), 7);
}

#[test]
fn output_dir_is_trimmed_and_expanded() {
    let home = Some("C:\\Users\\Trainer".to_string());
    assert_eq!(
        resolve_output_dir(&Some("  %USERPROFILE%\\Documents ".to_string()), &home),
        Some("C:\\Users\\Trainer\\Documents".to_string())
    );
    assert_eq!(
        resolve_output_dir(&Some("%USERPROFILE%\\Documents".to_string()), &None),
        Some("%USERPROFILE%\\Documents".to_string())
    );
    assert_eq!(resolve_output_dir(&Some("D:\\races".to_string()), &home), Some("D:\\races".to_string()));
    assert_eq!(resolve_output_dir(&Some("   ".to_string()), &home), None);
    assert_eq!(resolve_output_dir(&None, &home), None);
    assert_eq!(
        resolve_output_dir(&Some("%USERPROFILE%/a/%USERPROFILE%".to_string()), &Some("H".to_string())),
        Some("H/a/H".to_string())
    );
}

#[test]
fn race_is_confirmed_only_for_race_objects_with_data() {
    let mut h = MemoryHost::new(0x10000, 512);
    let race = h.add_class("RaceInfo");
    h.add_field(race, "<SimDataBase64>k__BackingField", TYPE_STRING, 0, 0x40, 0);
    let other = h.add_class("Lobby");
    h.write_u64(0x10000, race as u64);
    h.write_u64(0x10100, other as u64);
    let mut t = DumpTracker::new();
    assert!(!confirm_race(&h, &mut t, 0x10100, 0));
    assert_eq!(t.sim_offset, None);
    assert!(!confirm_race(&h, &mut t, 0x10000, 0));
    assert_eq!(t.sim_offset, Some(0x40));
    assert_eq!(t.last_addr, 0);
    h.write_u64(0x10040, 0x30000);
    assert!(confirm_race(&h, &mut t, 0x10000, 0x30000));
    assert_eq!((t.last_addr, t.last_sim), (0x10000, 0x30000));
    assert!(!t.is_new_race(0x10000, 0x30000));
}
