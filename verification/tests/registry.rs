use craby::parser::Span;
use craby::registry::{parse_schema, TurboModuleSpec};
use craby::ts::{
    Scoping, TsArgument, TsCall, TsCallee, TsHeritage, TsImport, TsImportSpecifier, TsInterface,
    TsItem, TsMethodSig, TsPropertySig, TsSignature, TsType,
};

fn span(start: u32, end: u32) -> Span {
    Span { start, end }
}

fn method(name: &str, optional: bool, start: u32) -> TsSignature {
    TsSignature::Method(TsMethodSig {
        key: Some(name.to_string()),
        computed: false,
        optional,
        params: vec![],
        return_type: Some(TsType::Void),
        span: span(start, start + 10),
    })
}

fn property(name: &str, t: TsType, start: u32) -> TsSignature {
    TsSignature::Property(TsPropertySig {
        key: Some(name.to_string()),
        computed: false,
        optional: false,
        type_annotation: Some(t),
        type_span: span(start + 5, start + 10),
        span: span(start, start + 10),
    })
}

// import type { TurboModule, TurboModuleRegistry } from 'react-native';
// Symbols: `TurboModule` 0, `TurboModuleRegistry` 1, `Spec` 2.
fn imports() -> TsItem {
    TsItem::Import(TsImport {
        source: "react-native".to_string(),
        specifiers: Some(vec![
            TsImportSpecifier::Named { imported: "TurboModule".to_string(), local_symbol: Some(0) },
            TsImportSpecifier::Named { imported: "TurboModuleRegistry".to_string(), local_symbol: Some(1) },
        ]),
    })
}

// interface Spec extends TurboModule { .. } (the `TurboModule` reference is reference 0)
fn spec(body: Vec<TsSignature>) -> TsItem {
    TsItem::Interface(TsInterface {
        declare: false,
        symbol: 2,
        name: "Spec".to_string(),
        extends: vec![TsHeritage::Identifier { ref_id: 0 }],
        body,
        span: span(50, 150),
    })
}

// TurboModuleRegistry.<method><Spec>('<name>') (the registry reference is reference 1)
fn register(method: &str, name: &str, start: u32) -> TsItem {
    TsItem::Call(TsCall {
        callee: TsCallee::Member {
            object_ref: 1,
            object_span: span(start, start + 19),
            property: method.to_string(),
            property_span: span(start + 20, start + 32),
        },
        type_arguments: Some(vec![TsType::Reference { ref_id: 2, name: "Spec".to_string() }]),
        arguments: vec![TsArgument::StringLiteral { value: name.to_string(), span: span(start + 40, start + 50) }],
        span: span(start, start + 51),
    })
}

fn scoping() -> Scoping {
    Scoping { reference_symbols: vec![Some(0), Some(1), Some(2)] }
}

fn names(specs: &Vec<(String, TurboModuleSpec)>) -> Vec<String> {
    specs.iter().map(|(n, s)| {
        assert_eq!(n, &s.mod_name);
        n.clone()
    }).collect()
}

#[test]
fn registered_modules_are_listed_by_name() {
    let items = vec![
        imports(),
        spec(vec![method("multiply", false, 60), property("onChange", TsType::Function, 80)]),
        register("getEnforcing", "Zeta", 200),
        register("get", "Alpha", 300),
    ];
    let specs = parse_schema(&items, &scoping()).ok().unwrap();
    assert_eq!(names(&specs), vec!["Alpha".to_string(), "Zeta".to_string()]);
}

#[test]
fn duplicate_module_names_are_errors() {
    let items = vec![imports(), register("get", "Calc", 200), register("getEnforcing", "Calc", 300)];
    let errors = parse_schema(&items, &scoping()).err().unwrap();
    assert_eq!(errors.len(), 1);
    assert_eq!(errors[0].message, "Duplicate module name");
    assert_eq!(errors[0].span, span(340, 350));
}

#[test]
fn other_registry_methods_are_errors() {
    let items = vec![imports(), register("load", "Calc", 200)];
    let errors = parse_schema(&items, &scoping()).err().unwrap();
    assert_eq!(errors[0].message, "Invalid TurboModuleRegistry method");
    assert_eq!(errors[0].span, span(200, 219));
}

#[test]
fn specification_members_are_checked() {
    let items = vec![
        imports(),
        spec(vec![
            property("count", TsType::Number, 60),
            method("optionalMethod", true, 80),
            property("never", TsType::String, 100),
        ]),
        register("get", "Calc", 200),
    ];
    let errors = parse_schema(&items, &scoping()).err().unwrap();
    let messages: Vec<&str> = errors.iter().map(|d| d.message.as_str()).collect();
    assert_eq!(messages, vec!["Invalid specification", "Optional signature is not supported"]);
    assert_eq!(errors[0].span, span(65, 70));
}

#[test]
fn get_constants_ends_the_member_checks() {
    let items = vec![
        imports(),
        spec(vec![method("getConstants", false, 60), method("optionalMethod", true, 80)]),
        register("get", "Calc", 200),
    ];
    let specs = parse_schema(&items, &scoping()).ok().unwrap();
    assert_eq!(names(&specs), vec!["Calc".to_string()]);
}

#[test]
fn registry_calls_need_one_type_argument() {
    let mut call = register("get", "Calc", 200);
    if let TsItem::Call(c) = &mut call {
        c.type_arguments = None;
    }
    let errors = parse_schema(&vec![imports(), call], &scoping()).err().unwrap();
    assert_eq!(errors[0].message, "Module specification generic argument is required");
    assert_eq!(errors[0].span, span(200, 251));
}
