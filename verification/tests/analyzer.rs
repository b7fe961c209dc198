use craby::analyzer::parse_schema;
use craby::parser::{ModuleSchema, ParseError, Span, TypeAnnotation};
use craby::ts::{
    Scoping, TsArgument, TsCall, TsCallee, TsHeritage, TsImport, TsImportSpecifier, TsInterface,
    TsItem, TsMethodSig, TsSignature, TsType,
};

fn span(start: u32, end: u32) -> Span {
    Span { start, end }
}

/// `myMethod(): void;`
fn my_method() -> TsSignature {
    TsSignature::Method(TsMethodSig {
        key: Some("myMethod".to_string()),
        computed: false,
        optional: false,
        params: vec![],
        return_type: Some(TsType::Void),
        span: span(120, 137),
    })
}

/// `export interface Spec extends <heritage> { myMethod(): void; }`, declaring symbol 1.
fn spec_interface(heritage: TsHeritage) -> TsItem {
    TsItem::Interface(TsInterface {
        declare: false,
        symbol: 1,
        name: "Spec".to_string(),
        extends: vec![heritage],
        body: vec![my_method()],
        span: span(70, 147),
    })
}

/// `<callee><Spec>('MyModule')`, where the reference to `Spec` is reference 2.
fn registry_call(callee: TsCallee) -> TsItem {
    TsItem::Call(TsCall {
        callee,
        type_arguments: Some(vec![TsType::Reference { ref_id: 2, name: "Spec".to_string() }]),
        arguments: vec![TsArgument::StringLiteral { value: "MyModule".to_string(), span: span(210, 220) }],
        span: span(165, 221),
    })
}

fn react_native_import(specifier: TsImportSpecifier) -> TsItem {
    TsItem::Import(TsImport { source: "react-native".to_string(), specifiers: Some(vec![specifier]) })
}

fn assert_my_module(schemas: &Vec<ModuleSchema>) {
    assert!(schemas.len() == 1);
    let schema = &schemas[0];
    assert_eq!(schema.module_name, "MyModule");
    assert!(schema.alias_map.is_empty());
    assert!(schema.enum_map.is_empty());
    assert_eq!(schema.methods.len(), 1);
    assert_eq!(schema.methods[0].name, "myMethod");
    assert!(schema.methods[0].params.is_empty());
    assert!(matches!(schema.methods[0].ret_type, TypeAnnotation::Void));
}

// import type { TurboModule } from 'react-native';
//
// export interface Spec extends TurboModule {
//     myMethod(): void;
// }
//
// export default TurboModuleRegistry.getEnforcing<Spec>('MyModule');
//
// Symbols: `TurboModule` 0, `Spec` 1. References: `TurboModule` 0, `TurboModuleRegistry` 1
// (declared nowhere), `Spec` 2.
#[test]
fn test_spec_interface() {
    let items = vec![
        react_native_import(TsImportSpecifier::Named {
            imported: "TurboModule".to_string(),
            local_symbol: Some(0),
        }),
        spec_interface(TsHeritage::Identifier { ref_id: 0 }),
        registry_call(TsCallee::Member {
            object_ref: 1,
            object_span: span(165, 184),
            property: "getEnforcing".to_string(),
            property_span: span(185, 197),
        }),
    ];
    let scoping = Scoping { reference_symbols: vec![Some(0), None, Some(1)] };
    let schemas = parse_schema(&items, &scoping).ok().unwrap();
    assert_my_module(&schemas);
}

// import type * as ReactNative from 'react-native';
//
// export interface Spec extends ReactNative.TurboModule {
//     myMethod(): void;
// }
//
// export default ReactNative.TurboModuleRegistry.getEnforcing<Spec>('MyModule');
//
// Symbols: `ReactNative` 0, `Spec` 1. References: `ReactNative` 0 and 1, `Spec` 2.
#[test]
fn test_spec_interface_with_namespace() {
    let items = vec![
        react_native_import(TsImportSpecifier::Namespace { local_symbol: 0 }),
        spec_interface(TsHeritage::Member { object_ref: 0, property: Some("TurboModule".to_string()) }),
        registry_call(TsCallee::NestedMember {
            outer_ref: Some(1),
            middle: "TurboModuleRegistry".to_string(),
            property: "getEnforcing".to_string(),
            property_span: span(197, 209),
        }),
    ];
    let scoping = Scoping { reference_symbols: vec![Some(0), Some(0), Some(1)] };
    let schemas = parse_schema(&items, &scoping).ok().unwrap();
    assert_my_module(&schemas);
}

// import type { Unknown } from 'react-native';
//
// export interface Spec extends Unknown {
//     myMethod(): void;
// }
//
// export default TurboModuleRegistry.getEnforcing<Spec>('MyModule');
#[test]
fn test_non_spec_interface() {
    let items = vec![
        react_native_import(TsImportSpecifier::Named {
            imported: "Unknown".to_string(),
            local_symbol: Some(0),
        }),
        spec_interface(TsHeritage::Identifier { ref_id: 0 }),
        registry_call(TsCallee::Member {
            object_ref: 1,
            object_span: span(165, 184),
            property: "getEnforcing".to_string(),
            property_span: span(181, 193),
        }),
    ];
    let scoping = Scoping { reference_symbols: vec![Some(0), None, Some(1)] };
    let result = parse_schema(&items, &scoping);
    assert!(result.is_err());
    assert!(matches!(result, Err(ParseError::Oxc { .. })));
}
