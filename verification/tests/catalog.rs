use craby::catalog::sort_by_module_name;
use craby::parser::{EnumTypeAnnotation, ModuleSchema, ObjectTypeAnnotation, TypeAnnotation};

fn module(name: &str, methods: usize) -> ModuleSchema {
    ModuleSchema {
        module_name: name.to_string(),
        alias_map: vec![],
        enum_map: vec![],
        methods: (0..methods)
            .map(|i| craby::parser::Method {
                name: format!("m{}", i),
                params: vec![],
                ret_type: TypeAnnotation::Void,
            })
            .collect(),
    }
}

fn names(v: &Vec<ModuleSchema>) -> Vec<(String, usize)> {
    v.iter().map(|m| (m.module_name.clone(), m.methods.len())).collect()
}

#[test]
fn modules_are_sorted_by_lowercase_name() {
    let sorted = sort_by_module_name(vec![module("Zeta", 0), module("alpha", 1), module("Beta", 2)]);
    assert_eq!(
        names(&sorted),
        vec![("alpha".to_string(), 1), ("Beta".to_string(), 2), ("Zeta".to_string(), 0)]
    );
}

#[test]
fn modules_with_equal_keys_keep_their_order() {
    let sorted = sort_by_module_name(vec![
        module("Calc", 1),
        module("app", 0),
        module("calc", 2),
        module("CALC", 3),
    ]);
    assert_eq!(
        names(&sorted),
        vec![
            ("app".to_string(), 0),
            ("Calc".to_string(), 1),
            ("calc".to_string(), 2),
            ("CALC".to_string(), 3)
        ]
    );
    assert!(sort_by_module_name(vec![]).is_empty());
}

#[test]
fn type_annotations_expose_objects_and_enums() {

    let obj = TypeAnnotation::Object(ObjectTypeAnnotation { name: "Point".to_string(), props: vec![] });
    let en = TypeAnnotation::Enum(EnumTypeAnnotation { name: "Mode".to_string(), members: vec![] });
    assert_eq!(obj.as_object().map(|o| o.name.clone()), Some("Point".to_string()));
    assert!(obj.as_enum().is_none());
    assert_eq!(en.as_enum().map(|e| e.name.clone()), Some("Mode".to_string()));
    assert!(TypeAnnotation::Number.as_object().is_none());
}

#[test]
fn id_map_lookups_after_inserts() {
    let mut m = craby::idmap::IdMap::new();
    m.insert(3, "a".to_string());
    m.insert(1, "b".to_string());
    m.insert(3, "c".to_string());
    assert_eq!(m.get(3), Some(&"c".to_string()));
    assert_eq!(m.get(1), Some(&"b".to_string()));
    assert_eq!(m.get(2), None);
    let ids: Vec<u32> = m.entries().iter().map(|(k, _)| *k).collect();
    assert_eq!(ids, vec![1, 3]);
}
