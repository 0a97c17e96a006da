use horse_dumper::enums::EnumCache;
use horse_dumper::graph::{TYPE_CLASS, TYPE_I4};
use horse_dumper::host::{FIELD_ATTRIBUTE_LITERAL, FIELD_ATTRIBUTE_STATIC};
use horse_dumper::memory::MemoryHost;
use horse_dumper::search::{find_method_taking_param_by_name, find_methods_in_assembly_by_param, pick_result};
use horse_dumper::statics::dump_class_recursive;
use horse_dumper::value::Value;

const BASE: usize = 0x10000;

fn debug(v: &Value) -> String {
    format!("{:?}", v)
}

fn snapshot(h: &MemoryHost, c: usize) -> Value {
    let mut cache = EnumCache::new();
    dump_class_recursive(h, c, 0, &mut cache, &vec![])
}

#[test]
fn static_snapshot_skips_unstable_and_literal_fields() {
    let mut h = MemoryHost::new(BASE, 4096);
    let c = h.add_class("StaticVariableDefine");
    let max = h.add_field(c, "MAX_FANS", TYPE_I4, 0, 0, FIELD_ATTRIBUTE_STATIC);
    h.fields[max - 1].static_value = 250i32.to_le_bytes().to_vec();
    let bad = h.add_field(c, "REGEX_COLOR_TAG", TYPE_I4, 0, 8, FIELD_ATTRIBUTE_STATIC);
    h.fields[bad - 1].static_value = 1i32.to_le_bytes().to_vec();
    let lit = h.add_field(c, "VERSION", TYPE_I4, 0, 16, FIELD_ATTRIBUTE_STATIC | FIELD_ATTRIBUTE_LITERAL);
    h.fields[lit - 1].static_value = 3i32.to_le_bytes().to_vec();
    h.add_field(c, "instance", TYPE_I4, 0, 24, 0);
    let n = h.add_class("Race");
    let limit = h.add_field(n, "LIMIT", TYPE_I4, 0, 0, FIELD_ATTRIBUTE_STATIC);
    h.fields[limit - 1].static_value = 18i32.to_le_bytes().to_vec();
    h.classes[c - 1].nested.push(n);
    let g = h.add_class("<>c__DisplayClass");
    h.classes[c - 1].nested.push(g);
    let expected = Value::Object(vec![
        ("MAX_FANS".to_string(), Value::Int(250)),
        ("Race".to_string(), Value::Object(vec![("LIMIT".to_string(), Value::Int(18))])),
    ]);
    assert_eq!(debug(&snapshot(&h, c)), debug(&expected));
}

#[test]
fn static_snapshot_refuses_generic_and_interface_classes() {
    let mut h = MemoryHost::new(BASE, 64);
    let c = h.add_class("Registry");
    h.classes[c - 1].is_generic = true;
    assert_eq!(debug(&snapshot(&h, c)), debug(&Value::Str("<Skipped: Generic/Interface>".to_string())));
    let i = h.add_class("IRegistry");
    h.classes[i - 1].is_interface = true;
    assert_eq!(debug(&snapshot(&h, i)), debug(&Value::Str("<Skipped: Generic/Interface>".to_string())));
    assert_eq!(debug(&snapshot(&h, 0)), debug(&Value::Null));
}

#[test]
fn static_snapshot_skips_framework_namespaces() {
    let mut h = MemoryHost::new(BASE, 64);
    let c = h.add_class("System.Text.Encoding");
    assert_eq!(debug(&snapshot(&h, c)), debug(&Value::Null));
}

#[test]
fn static_reference_with_implausible_pointer_is_marked() {
    let mut h = MemoryHost::new(BASE, 64);
    let c = h.add_class("Holder");
    let f = h.add_field(c, "table", TYPE_CLASS, 0, 0, FIELD_ATTRIBUTE_STATIC);
    h.fields[f - 1].static_value = 0x1234u64.to_le_bytes().to_vec();
    let expected = Value::Object(vec![(
        "table".to_string(),
        Value::Str("<Invalid Pointer: 0x1234>".to_string()),
    )]);
    assert_eq!(debug(&snapshot(&h, c)), debug(&expected));
}

#[test]
fn nested_classes_stop_at_the_static_depth_cap() {
    let mut h = MemoryHost::new(BASE, 64);
    let mut classes = Vec::new();
    for i in 0..13 {
        classes.push(h.add_class(&format!("Level{}", i)));
    }
    for i in 0..12 {
        let next = classes[i + 1];
        h.classes[classes[i] - 1].nested.push(next);
    }
    let mut v = snapshot(&h, classes[0]);
    let mut depth = 0;
    loop {
        match v {
            Value::Object(mut entries) => {
                v = entries.pop().unwrap().1;
                depth += 1;
            }
            other => {
                assert_eq!(debug(&other), debug(&Value::Str("<Max Static Depth>".to_string())));
                break;
            }
        }
    }
    assert_eq!(depth, 11);
}

#[test]
fn search_lists_every_matching_method() {
    let mut h = MemoryHost::new(BASE, 64);
    let target = h.add_class("TrainedChara[]");
    let other = h.add_class("Int32");
    let a = h.add_class("WorkTrainedCharaData");
    h.add_method(a, "Clear", vec![other]);
    let m1 = h.add_method(a, "UpdateAll", vec![other, target]);
    let m2 = h.add_method(a, "Merge", vec![target]);
    let b = h.add_class("Unrelated");
    h.add_method(b, "Run", vec![other, 0]);
    let image = h.add_image(vec![a, 0, b]);
    let found = find_methods_in_assembly_by_param(&h, image, "TrainedChara[]");
    assert_eq!(found.len(), 2);
    assert_eq!(found[0].method, m1);
    assert_eq!(found[0].class_name, "WorkTrainedCharaData");
    assert_eq!(found[0].method_name, "UpdateAll");
    assert_eq!(found[1].method, m2);
    assert_eq!(found[1].method_name, "Merge");
    assert_eq!(pick_result(&found, "WorkTrainedCharaData", "Merge"), Some(1));
    assert_eq!(pick_result(&found, "Nothing", "UpdateAll"), Some(0));
    assert_eq!(pick_result(&Vec::new(), "A", "B"), None);
    assert!(find_methods_in_assembly_by_param(&h, 0, "TrainedChara[]").is_empty());
}

#[test]
fn search_matches_by_substring() {
    let mut h = MemoryHost::new(BASE, 64);
    let t = h.add_class("List`1<TrainedChara>");
    let a = h.add_class("A");
    let m = h.add_method(a, "Apply", vec![t]);
    let b = h.add_class("B");
    let n = h.add_method(b, "Load", vec![t]);
    let image = h.add_image(vec![a, b]);
    let found = find_methods_in_assembly_by_param(&h, image, "TrainedChara");
    assert_eq!(found.len(), 2);
    assert_eq!(found[0].method, m);
    assert_eq!(found[1].method, n);
    assert_eq!(find_method_taking_param_by_name(&h, a, "TrainedChara"), Some(m));
    assert_eq!(find_method_taking_param_by_name(&h, a, "Horse"), None);
}
