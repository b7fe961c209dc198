use craby::cxx_gen::{cxx_bridging_h, mod_cxx, mod_cxx_h};
use craby::deps::calc_deps_order;
use craby::keyed::KeyedTexts;
use craby::generator::{CodeGenerator, CodegenResult};
use craby::platform_gen::{cmakelists, cxx_on_load};
use craby::rust_gen::alias_struct_def;
use craby::schema::{
    Alias, AliasProperty, CodegenError, Enum, EnumMember, EnumMemberValue, FunctionSpec, Parameter, Schema, Spec,
    TypeAnnotation,
};

fn num() -> TypeAnnotation {
    TypeAnnotation::NumberTypeAnnotation
}

fn boolean() -> TypeAnnotation {
    TypeAnnotation::BooleanTypeAnnotation
}

fn string() -> TypeAnnotation {
    TypeAnnotation::StringTypeAnnotation
}

fn alias(name: &str) -> TypeAnnotation {
    TypeAnnotation::TypeAliasTypeAnnotation { name: name.to_string() }
}

fn nullable(t: TypeAnnotation) -> TypeAnnotation {
    TypeAnnotation::NullableTypeAnnotation { type_annotation: Box::new(t) }
}

fn member(name: &str, kind: &str, value: &str) -> EnumMember {
    EnumMember {
        name: name.to_string(),
        value: EnumMemberValue { kind: kind.to_string(), value: value.to_string() },
    }
}

fn my_enum_members() -> Vec<EnumMember> {
    vec![
        member("Foo", "StringLiteralTypeAnnotation", "foo"),
        member("Bar", "StringLiteralTypeAnnotation", "bar"),
        member("Baz", "StringLiteralTypeAnnotation", "baz"),
    ]
}

fn switch_state_members() -> Vec<EnumMember> {
    vec![
        member("Off", "NumberLiteralTypeAnnotation", "0"),
        member("On", "NumberLiteralTypeAnnotation", "1"),
    ]
}

fn my_enum() -> TypeAnnotation {
    TypeAnnotation::EnumDeclaration {
        name: "MyEnum".to_string(),
        member_type: "StringTypeAnnotation".to_string(),
        members: Some(my_enum_members()),
    }
}

fn switch_state() -> TypeAnnotation {
    TypeAnnotation::EnumDeclaration {
        name: "SwitchState".to_string(),
        member_type: "NumberTypeAnnotation".to_string(),
        members: Some(switch_state_members()),
    }
}

fn param(name: &str, t: TypeAnnotation) -> Parameter {
    Parameter { name: name.to_string(), optional: false, type_annotation: Box::new(t) }
}

fn method(name: &str, params: Vec<Parameter>, ret: TypeAnnotation) -> FunctionSpec {
    FunctionSpec {
        name: name.to_string(),
        optional: false,
        type_annotation: Box::new(TypeAnnotation::FunctionTypeAnnotation {
            return_type_annotation: Box::new(ret),
            params,
        }),
    }
}

fn prop(name: &str, t: TypeAnnotation) -> AliasProperty {
    AliasProperty { name: name.to_string(), optional: false, type_annotation: Box::new(t) }
}

/// The `CrabyTest` module: an object alias that uses another, a string and a number
/// enum, and one method of each kind of type.
fn load_schema() -> Schema {
    Schema {
        module_name: "CrabyTest".to_string(),
        kind: "NativeModule".to_string(),
        alias_map: vec![
            (
                "SubObject".to_string(),
                Alias {
                    kind: "ObjectTypeAnnotation".to_string(),
                    properties: vec![prop("a", nullable(string())), prop("b", num()), prop("c", boolean())],
                },
            ),
            (
                "TestObject".to_string(),
                Alias {
                    kind: "ObjectTypeAnnotation".to_string(),
                    properties: vec![
                        prop("foo", string()),
                        prop("bar", num()),
                        prop("baz", boolean()),
                        prop("sub", nullable(alias("SubObject"))),
                    ],
                },
            ),
        ],
        enum_map: vec![
            (
                "MyEnum".to_string(),
                Enum {
                    name: "MyEnum".to_string(),
                    kind: "EnumDeclarationWithMembers".to_string(),
                    member_type: "StringTypeAnnotation".to_string(),
                    members: Some(my_enum_members()),
                },
            ),
            (
                "SwitchState".to_string(),
                Enum {
                    name: "SwitchState".to_string(),
                    kind: "EnumDeclarationWithMembers".to_string(),
                    member_type: "NumberTypeAnnotation".to_string(),
                    members: Some(switch_state_members()),
                },
            ),
        ],
        spec: Spec {
            event_emitters: vec!["onSignal".to_string()],
            methods: vec![
                method("numericMethod", vec![param("arg", num())], num()),
                method("booleanMethod", vec![param("arg", boolean())], boolean()),
                method("stringMethod", vec![param("arg", string())], string()),
                method("objectMethod", vec![param("arg", alias("TestObject"))], alias("TestObject")),
                method(
                    "arrayMethod",
                    vec![param("arg", TypeAnnotation::ArrayTypeAnnotation { element_type: Box::new(num()) })],
                    TypeAnnotation::ArrayTypeAnnotation { element_type: Box::new(num()) },
                ),
                method("enumMethod", vec![param("arg0", my_enum()), param("arg1", switch_state())], string()),
                method("nullableMethod", vec![param("arg", nullable(num()))], nullable(num())),
                method(
                    "promiseMethod",
                    vec![param("arg", num())],
                    TypeAnnotation::PromiseTypeAnnotation { element_type: Box::new(num()) },
                ),
            ],
        },
    }
}

fn load_schema_as_codegen_res() -> CodegenResult {
    CodeGenerator::new().generate(&load_schema()).unwrap()
}

#[test]
fn test_generate_spec() {
    let schema = load_schema();
    let result = CodeGenerator::new().generate_spec(&schema).unwrap();
    assert_eq!(result, "pub trait CrabyTestSpec {\n    fn numeric_method(arg: f64) -> f64;\n    fn boolean_method(arg: bool) -> bool;\n    fn string_method(arg: String) -> String;\n    fn object_method(arg: TestObject) -> TestObject;\n    fn array_method(arg: Vec<f64>) -> Vec<f64>;\n    fn enum_method(arg0: MyEnum, arg1: SwitchState) -> String;\n    fn nullable_method(arg: NullableNumber) -> NullableNumber;\n    fn promise_method(arg: f64) -> Result<f64, anyhow::Error>;\n}");
}

#[test]
fn test_generate_impl() {
    let schema = load_schema();
    let result = CodeGenerator::new().generate_impl(&schema).unwrap();
    assert_eq!(result, "use crate::{ffi::craby_test::*, generated::*};\n\npub struct CrabyTest;\n\nimpl CrabyTestSpec for CrabyTest {\n    fn numeric_method(arg: f64) -> f64 {\n        unimplemented!();\n    }\n\n    fn boolean_method(arg: bool) -> bool {\n        unimplemented!();\n    }\n\n    fn string_method(arg: String) -> String {\n        unimplemented!();\n    }\n\n    fn object_method(arg: TestObject) -> TestObject {\n        unimplemented!();\n    }\n\n    fn array_method(arg: Vec<f64>) -> Vec<f64> {\n        unimplemented!();\n    }\n\n    fn enum_method(arg0: MyEnum, arg1: SwitchState) -> String {\n        unimplemented!();\n    }\n\n    fn nullable_method(arg: NullableNumber) -> NullableNumber {\n        unimplemented!();\n    }\n\n    fn promise_method(arg: f64) -> Result<f64, anyhow::Error> {\n        unimplemented!();\n    }\n}");
}

#[test]
fn test_generate_rs_cxx_bridges() {
    let schema = load_schema();
    let result = CodeGenerator::new().get_rs_cxx_bridges(&schema).unwrap();
    assert_eq!(result.func_extern_sigs.join("\n\n"), "#[cxx_name = \"numericMethod\"]\nfn craby_test_numeric_method(arg: f64) -> f64;\n\n#[cxx_name = \"booleanMethod\"]\nfn craby_test_boolean_method(arg: bool) -> bool;\n\n#[cxx_name = \"stringMethod\"]\nfn craby_test_string_method(arg: String) -> String;\n\n#[cxx_name = \"objectMethod\"]\nfn craby_test_object_method(arg: TestObject) -> TestObject;\n\n#[cxx_name = \"arrayMethod\"]\nfn craby_test_array_method(arg: Vec<f64>) -> Vec<f64>;\n\n#[cxx_name = \"enumMethod\"]\nfn craby_test_enum_method(arg0: MyEnum, arg1: SwitchState) -> String;\n\n#[cxx_name = \"nullableMethod\"]\nfn craby_test_nullable_method(arg: NullableNumber) -> NullableNumber;\n\n#[cxx_name = \"promiseMethod\"]\nfn craby_test_promise_method(arg: f64) -> Result<f64>;");
    assert_eq!(result.func_impls.join("\n\n"), "fn craby_test_numeric_method(arg: f64) -> f64 {\n    CrabyTest::numeric_method(arg)\n}\n\nfn craby_test_boolean_method(arg: bool) -> bool {\n    CrabyTest::boolean_method(arg)\n}\n\nfn craby_test_string_method(arg: String) -> String {\n    CrabyTest::string_method(arg)\n}\n\nfn craby_test_object_method(arg: TestObject) -> TestObject {\n    CrabyTest::object_method(arg)\n}\n\nfn craby_test_array_method(arg: Vec<f64>) -> Vec<f64> {\n    CrabyTest::array_method(arg)\n}\n\nfn craby_test_enum_method(arg0: MyEnum, arg1: SwitchState) -> String {\n    CrabyTest::enum_method(arg0, arg1)\n}\n\nfn craby_test_nullable_method(arg: NullableNumber) -> NullableNumber {\n    CrabyTest::nullable_method(arg)\n}\n\nfn craby_test_promise_method(arg: f64) -> Result<f64, anyhow::Error> {\n    CrabyTest::promise_method(arg)\n}");
}

#[test]
fn test_get_cxx_bridging_templates() {
    let schema = load_schema();
    let result = CodeGenerator::new().get_cxx_bridging_templates(&schema).unwrap();
    assert_eq!(result.join("\n"), "template <>\nstruct Bridging<craby::crabytest::MyEnum> {\n  static craby::crabytest::MyEnum fromJs(jsi::Runtime &rt, const jsi::Value& value, std::shared_ptr<CallInvoker> callInvoker) {\n    auto raw = value.asString(rt).utf8(rt);\n    if (raw == \"foo\") {\n      return craby::crabytest::MyEnum::Foo;\n    } else if (raw == \"bar\") {\n      return craby::crabytest::MyEnum::Bar;\n    } else if (raw == \"baz\") {\n      return craby::crabytest::MyEnum::Baz;\n    } else {\n      throw jsi::JSError(rt, \"Invalid enum value (MyEnum)\");\n    }\n  }\n\n  static jsi::Value toJs(jsi::Runtime &rt, craby::crabytest::MyEnum value) {\n    switch (value) {\n      case craby::crabytest::MyEnum::Foo:\n        return react::bridging::toJs(rt, \"foo\");\n      case craby::crabytest::MyEnum::Bar:\n        return react::bridging::toJs(rt, \"bar\");\n      case craby::crabytest::MyEnum::Baz:\n        return react::bridging::toJs(rt, \"baz\");\n      default:\n        throw jsi::JSError(rt, \"Invalid enum value (MyEnum)\");\n    }\n  }\n};\ntemplate <>\nstruct Bridging<craby::crabytest::SwitchState> {\n  static craby::crabytest::SwitchState fromJs(jsi::Runtime &rt, const jsi::Value& value, std::shared_ptr<CallInvoker> callInvoker) {\n    auto raw = value.asNumber();\n    if (raw == 0) {\n      return craby::crabytest::SwitchState::Off;\n    } else if (raw == 1) {\n      return craby::crabytest::SwitchState::On;\n    } else {\n      throw jsi::JSError(rt, \"Invalid enum value (SwitchState)\");\n    }\n  }\n\n  static jsi::Value toJs(jsi::Runtime &rt, craby::crabytest::SwitchState value) {\n    switch (value) {\n      case craby::crabytest::SwitchState::Off:\n        return react::bridging::toJs(rt, 0);\n      case craby::crabytest::SwitchState::On:\n        return react::bridging::toJs(rt, 1);\n      default:\n        throw jsi::JSError(rt, \"Invalid enum value (SwitchState)\");\n    }\n  }\n};\ntemplate <>\nstruct Bridging<craby::crabytest::SubObject> {\n  static craby::crabytest::SubObject fromJs(jsi::Runtime &rt, const jsi::Value& value, std::shared_ptr<CallInvoker> callInvoker) {\n    auto obj = value.asObject(rt);\n    auto obj$a = obj.getProperty(rt, \"a\");\n    auto obj$b = obj.getProperty(rt, \"b\");\n    auto obj$c = obj.getProperty(rt, \"c\");\n\n    auto _obj$a = facebook::react::bridging::fromJs<craby::crabytest::NullableString>(rt, obj$a, callInvoker);\n    auto _obj$b = facebook::react::bridging::fromJs<double>(rt, obj$b, callInvoker);\n    auto _obj$c = facebook::react::bridging::fromJs<bool>(rt, obj$c, callInvoker);\n\n    craby::crabytest::SubObject ret = {\n      _obj$a,\n      _obj$b,\n      _obj$c\n    };\n\n    return ret;\n  }\n\n  static jsi::Value toJs(jsi::Runtime &rt, craby::crabytest::SubObject value) {\n    jsi::Object obj = jsi::Object(rt);\n    auto _obj$a = react::bridging::toJs(rt, value.a);\n    auto _obj$b = react::bridging::toJs(rt, value.b);\n    auto _obj$c = react::bridging::toJs(rt, value.c);\n\n    obj.setProperty(rt, \"a\", _obj$a);\n    obj.setProperty(rt, \"b\", _obj$b);\n    obj.setProperty(rt, \"c\", _obj$c);\n\n    return jsi::Value(rt, obj);\n  }\n};\ntemplate <>\nstruct Bridging<craby::crabytest::TestObject> {\n  static craby::crabytest::TestObject fromJs(jsi::Runtime &rt, const jsi::Value& value, std::shared_ptr<CallInvoker> callInvoker) {\n    auto obj = value.asObject(rt);\n    auto obj$foo = obj.getProperty(rt, \"foo\");\n    auto obj$bar = obj.getProperty(rt, \"bar\");\n    auto obj$baz = obj.getProperty(rt, \"baz\");\n    auto obj$sub = obj.getProperty(rt, \"sub\");\n\n    auto _obj$foo = facebook::react::bridging::fromJs<rust::String>(rt, obj$foo, callInvoker);\n    auto _obj$bar = facebook::react::bridging::fromJs<double>(rt, obj$bar, callInvoker);\n    auto _obj$baz = facebook::react::bridging::fromJs<bool>(rt, obj$baz, callInvoker);\n    auto _obj$sub = facebook::react::bridging::fromJs<craby::crabytest::NullableSubObject>(rt, obj$sub, callInvoker);\n\n    craby::crabytest::TestObject ret = {\n      _obj$foo,\n      _obj$bar,\n      _obj$baz,\n      _obj$sub\n    };\n\n    return ret;\n  }\n\n  static jsi::Value toJs(jsi::Runtime &rt, craby::crabytest::TestObject value) {\n    jsi::Object obj = jsi::Object(rt);\n    auto _obj$foo = react::bridging::toJs(rt, value.foo);\n    auto _obj$bar = react::bridging::toJs(rt, value.bar);\n    auto _obj$baz = react::bridging::toJs(rt, value.baz);\n    auto _obj$sub = react::bridging::toJs(rt, value.sub);\n\n    obj.setProperty(rt, \"foo\", _obj$foo);\n    obj.setProperty(rt, \"bar\", _obj$bar);\n    obj.setProperty(rt, \"baz\", _obj$baz);\n    obj.setProperty(rt, \"sub\", _obj$sub);\n\n    return jsi::Value(rt, obj);\n  }\n};\ntemplate <>\nstruct Bridging<craby::crabytest::NullableNumber> {\n  static craby::crabytest::NullableNumber fromJs(jsi::Runtime &rt, const jsi::Value& value, std::shared_ptr<CallInvoker> callInvoker) {\n    if (value.isNull()) {\n      return craby::crabytest::NullableNumber{true, 0.0};\n    }\n\n    auto val = react::bridging::fromJs<double>(rt, value, callInvoker);\n    auto ret = craby::crabytest::NullableNumber{false, val};\n\n    return ret;\n  }\n\n  static jsi::Value toJs(jsi::Runtime &rt, craby::crabytest::NullableNumber value) {\n    if (value.null) {\n      return jsi::Value::null();\n    }\n\n    return react::bridging::toJs(rt, value.val);\n  }\n};\ntemplate <>\nstruct Bridging<craby::crabytest::NullableString> {\n  static craby::crabytest::NullableString fromJs(jsi::Runtime &rt, const jsi::Value& value, std::shared_ptr<CallInvoker> callInvoker) {\n    if (value.isNull()) {\n      return craby::crabytest::NullableString{true, rust::String()};\n    }\n\n    auto val = react::bridging::fromJs<rust::String>(rt, value, callInvoker);\n    auto ret = craby::crabytest::NullableString{false, val};\n\n    return ret;\n  }\n\n  static jsi::Value toJs(jsi::Runtime &rt, craby::crabytest::NullableString value) {\n    if (value.null) {\n      return jsi::Value::null();\n    }\n\n    return react::bridging::toJs(rt, value.val);\n  }\n};\ntemplate <>\nstruct Bridging<craby::crabytest::NullableSubObject> {\n  static craby::crabytest::NullableSubObject fromJs(jsi::Runtime &rt, const jsi::Value& value, std::shared_ptr<CallInvoker> callInvoker) {\n    if (value.isNull()) {\n      return craby::crabytest::NullableSubObject{true, craby::crabytest::SubObject{}};\n    }\n\n    auto val = react::bridging::fromJs<craby::crabytest::SubObject>(rt, value, callInvoker);\n    auto ret = craby::crabytest::NullableSubObject{false, val};\n\n    return ret;\n  }\n\n  static jsi::Value toJs(jsi::Runtime &rt, craby::crabytest::NullableSubObject value) {\n    if (value.null) {\n      return jsi::Value::null();\n    }\n\n    return react::bridging::toJs(rt, value.val);\n  }\n};");
}

#[test]
fn test_get_cxx_methods() {
    let schema = load_schema();
    let result = CodeGenerator::new().get_cxx_methods(&schema).unwrap();
    let flat: Vec<String> = result
        .into_iter()
        .flat_map(|method| vec![method.name, method.impl_func, method.metadata])
        .collect();
    assert_eq!(flat.join("\n"), "numericMethod\njsi::Value CxxCrabyTestModule::numericMethod(jsi::Runtime &rt,\n                                react::TurboModule &turboModule,\n                                const jsi::Value args[],\n                                size_t count) {\n  auto &thisModule = static_cast<CxxCrabyTestModule &>(turboModule);\n  auto callInvoker = thisModule.callInvoker_;\n\n  try {\n    if (1 != count) {\n      throw jsi::JSError(rt, \"Expected 1 argument\");\n    }\n\n    auto arg0 = facebook::react::bridging::fromJs<double>(rt, args[0], callInvoker);\n    auto ret = craby::crabytest::numericMethod(arg0);\n\n    return react::bridging::toJs(rt, ret);\n  } catch (const jsi::JSError &err) {\n    throw err;\n  } catch (const std::exception &err) {\n    throw jsi::JSError(rt, errorMessage(err));\n  }\n}\nMethodMetadata{1, &CxxCrabyTestModule::numericMethod}\nbooleanMethod\njsi::Value CxxCrabyTestModule::booleanMethod(jsi::Runtime &rt,\n                                react::TurboModule &turboModule,\n                                const jsi::Value args[],\n                                size_t count) {\n  auto &thisModule = static_cast<CxxCrabyTestModule &>(turboModule);\n  auto callInvoker = thisModule.callInvoker_;\n\n  try {\n    if (1 != count) {\n      throw jsi::JSError(rt, \"Expected 1 argument\");\n    }\n\n    auto arg0 = facebook::react::bridging::fromJs<bool>(rt, args[0], callInvoker);\n    auto ret = craby::crabytest::booleanMethod(arg0);\n\n    return react::bridging::toJs(rt, ret);\n  } catch (const jsi::JSError &err) {\n    throw err;\n  } catch (const std::exception &err) {\n    throw jsi::JSError(rt, errorMessage(err));\n  }\n}\nMethodMetadata{1, &CxxCrabyTestModule::booleanMethod}\nstringMethod\njsi::Value CxxCrabyTestModule::stringMethod(jsi::Runtime &rt,\n                                react::TurboModule &turboModule,\n                                const jsi::Value args[],\n                                size_t count) {\n  auto &thisModule = static_cast<CxxCrabyTestModule &>(turboModule);\n  auto callInvoker = thisModule.callInvoker_;\n\n  try {\n    if (1 != count) {\n      throw jsi::JSError(rt, \"Expected 1 argument\");\n    }\n\n    auto arg0 = facebook::react::bridging::fromJs<rust::String>(rt, args[0], callInvoker);\n    auto ret = craby::crabytest::stringMethod(arg0);\n\n    return react::bridging::toJs(rt, ret);\n  } catch (const jsi::JSError &err) {\n    throw err;\n  } catch (const std::exception &err) {\n    throw jsi::JSError(rt, errorMessage(err));\n  }\n}\nMethodMetadata{1, &CxxCrabyTestModule::stringMethod}\nobjectMethod\njsi::Value CxxCrabyTestModule::objectMethod(jsi::Runtime &rt,\n                                react::TurboModule &turboModule,\n                                const jsi::Value args[],\n                                size_t count) {\n  auto &thisModule = static_cast<CxxCrabyTestModule &>(turboModule);\n  auto callInvoker = thisModule.callInvoker_;\n\n  try {\n    if (1 != count) {\n      throw jsi::JSError(rt, \"Expected 1 argument\");\n    }\n\n    auto arg0 = facebook::react::bridging::fromJs<craby::crabytest::TestObject>(rt, args[0], callInvoker);\n    auto ret = craby::crabytest::objectMethod(arg0);\n\n    return react::bridging::toJs(rt, ret);\n  } catch (const jsi::JSError &err) {\n    throw err;\n  } catch (const std::exception &err) {\n    throw jsi::JSError(rt, errorMessage(err));\n  }\n}\nMethodMetadata{1, &CxxCrabyTestModule::objectMethod}\narrayMethod\njsi::Value CxxCrabyTestModule::arrayMethod(jsi::Runtime &rt,\n                                react::TurboModule &turboModule,\n                                const jsi::Value args[],\n                                size_t count) {\n  auto &thisModule = static_cast<CxxCrabyTestModule &>(turboModule);\n  auto callInvoker = thisModule.callInvoker_;\n\n  try {\n    if (1 != count) {\n      throw jsi::JSError(rt, \"Expected 1 argument\");\n    }\n\n    auto arg0 = facebook::react::bridging::fromJs<rust::Vec<double>>(rt, args[0], callInvoker);\n    auto ret = craby::crabytest::arrayMethod(arg0);\n\n    return react::bridging::toJs(rt, ret);\n  } catch (const jsi::JSError &err) {\n    throw err;\n  } catch (const std::exception &err) {\n    throw jsi::JSError(rt, errorMessage(err));\n  }\n}\nMethodMetadata{1, &CxxCrabyTestModule::arrayMethod}\nenumMethod\njsi::Value CxxCrabyTestModule::enumMethod(jsi::Runtime &rt,\n                                react::TurboModule &turboModule,\n                                const jsi::Value args[],\n                                size_t count) {\n  auto &thisModule = static_cast<CxxCrabyTestModule &>(turboModule);\n  auto callInvoker = thisModule.callInvoker_;\n\n  try {\n    if (2 != count) {\n      throw jsi::JSError(rt, \"Expected 2 arguments\");\n    }\n\n    auto arg0 = facebook::react::bridging::fromJs<craby::crabytest::MyEnum>(rt, args[0], callInvoker);\n    auto arg1 = facebook::react::bridging::fromJs<craby::crabytest::SwitchState>(rt, args[1], callInvoker);\n    auto ret = craby::crabytest::enumMethod(arg0, arg1);\n\n    return react::bridging::toJs(rt, ret);\n  } catch (const jsi::JSError &err) {\n    throw err;\n  } catch (const std::exception &err) {\n    throw jsi::JSError(rt, errorMessage(err));\n  }\n}\nMethodMetadata{2, &CxxCrabyTestModule::enumMethod}\nnullableMethod\njsi::Value CxxCrabyTestModule::nullableMethod(jsi::Runtime &rt,\n                                react::TurboModule &turboModule,\n                                const jsi::Value args[],\n                                size_t count) {\n  auto &thisModule = static_cast<CxxCrabyTestModule &>(turboModule);\n  auto callInvoker = thisModule.callInvoker_;\n\n  try {\n    if (1 != count) {\n      throw jsi::JSError(rt, \"Expected 1 argument\");\n    }\n\n    auto arg0 = facebook::react::bridging::fromJs<craby::crabytest::NullableNumber>(rt, args[0], callInvoker);\n    auto ret = craby::crabytest::nullableMethod(arg0);\n\n    return react::bridging::toJs(rt, ret);\n  } catch (const jsi::JSError &err) {\n    throw err;\n  } catch (const std::exception &err) {\n    throw jsi::JSError(rt, errorMessage(err));\n  }\n}\nMethodMetadata{1, &CxxCrabyTestModule::nullableMethod}\npromiseMethod\njsi::Value CxxCrabyTestModule::promiseMethod(jsi::Runtime &rt,\n                                react::TurboModule &turboModule,\n                                const jsi::Value args[],\n                                size_t count) {\n  auto &thisModule = static_cast<CxxCrabyTestModule &>(turboModule);\n  auto callInvoker = thisModule.callInvoker_;\n\n  try {\n    if (1 != count) {\n      throw jsi::JSError(rt, \"Expected 1 argument\");\n    }\n\n    auto arg0 = facebook::react::bridging::fromJs<double>(rt, args[0], callInvoker);\n    react::AsyncPromise<double> promise(rt, callInvoker);\n\n    std::thread([promise, arg0]() mutable {\n      try {\n        auto ret = craby::crabytest::promiseMethod(arg0);\n        promise.resolve(ret);\n      } catch (const jsi::JSError &err) {\n        promise.reject(err.getMessage());\n      } catch (const std::exception &err) {\n        promise.reject(errorMessage(err));\n      }\n    }).detach();\n\n    return react::bridging::toJs(rt, promise);\n  } catch (const jsi::JSError &err) {\n    throw err;\n  } catch (const std::exception &err) {\n    throw jsi::JSError(rt, errorMessage(err));\n  }\n}\nMethodMetadata{1, &CxxCrabyTestModule::promiseMethod}");
}

#[test]
fn test_cxx_on_load() {
    let result = cxx_on_load(&"CrabyTest".to_string());
    assert_eq!(result, "#include <jni.h>\n#include <ReactCommon/CxxTurboModuleUtils.h>\n#include <CxxCrabyTestModule.hpp>\n\njint JNI_OnLoad(JavaVM *vm, void *reserved) {\n  facebook::react::registerCxxModuleToGlobalModuleMap(\n      craby::crabytest::CxxCrabyTestModule::kModuleName,\n      [](std::shared_ptr<facebook::react::CallInvoker> jsInvoker) {\n        return std::make_shared<craby::crabytest::CxxCrabyTestModule>(jsInvoker);\n      });\n  return JNI_VERSION_1_6;\n}\n");
}

#[test]
fn test_cmakelists() {
    let result = cmakelists(&"CrabyTest".to_string());
    assert_eq!(result, "cmake_minimum_required(VERSION 3.13)\n\nproject(craby-craby-test)\n\nset (CMAKE_VERBOSE_MAKEFILE ON)\nset (CMAKE_CXX_STANDARD 20)\n\nfind_package(ReactAndroid REQUIRED CONFIG)\nfind_package(hermes-engine REQUIRED CONFIG)\n\n# Import the pre-built Craby library\nadd_library(craby-test-lib STATIC IMPORTED)\nset_target_properties(craby-test-lib PROPERTIES\n  IMPORTED_LOCATION \"${CMAKE_SOURCE_DIR}/src/main/jni/libs/${ANDROID_ABI}/libcraby_test-craby.a\"\n)\ntarget_include_directories(craby-test-lib INTERFACE\n  \"${CMAKE_SOURCE_DIR}/src/main/jni/include\"\n)\n\n# Generated C++ source files by Craby\nadd_library(cxx-craby-test SHARED\n  src/main/jni/OnLoad.cpp\n  src/main/jni/src/ffi.rs.cc\n  ../cpp/CxxCrabyTestModule.cpp\n)\ntarget_include_directories(cxx-craby-test PRIVATE\n  ../cpp\n)\n\ntarget_link_libraries(cxx-craby-test\n  # android\n  ReactAndroid::reactnative\n  ReactAndroid::jsi\n  hermes-engine::libhermes\n  # craby-test-lib\n  craby-test-lib\n)\n");
}

#[test]
fn test_mod_cxx() {
    let codegen_res = load_schema_as_codegen_res();
    let result = mod_cxx(&vec![codegen_res]);
    assert_eq!(result, "#include \"CxxCrabyTestModule.hpp\"\n\n#include <thread>\n#include <react/bridging/Bridging.h>\n\n#include \"cxx.h\"\n#include \"ffi.rs.h\"\n#include \"bridging-generated.hpp\"\n#include \"utils.hpp\"\n\nusing namespace facebook;\n\nnamespace craby {\nnamespace crabytest {\n\nCxxCrabyTestModule::CxxCrabyTestModule(\n    std::shared_ptr<react::CallInvoker> jsInvoker)\n    : TurboModule(CxxCrabyTestModule::kModuleName, jsInvoker) {\n  callInvoker_ = std::move(jsInvoker);\n\n  methodMap_[\"numericMethod\"] = MethodMetadata{1, &CxxCrabyTestModule::numericMethod};\n  methodMap_[\"booleanMethod\"] = MethodMetadata{1, &CxxCrabyTestModule::booleanMethod};\n  methodMap_[\"stringMethod\"] = MethodMetadata{1, &CxxCrabyTestModule::stringMethod};\n  methodMap_[\"objectMethod\"] = MethodMetadata{1, &CxxCrabyTestModule::objectMethod};\n  methodMap_[\"arrayMethod\"] = MethodMetadata{1, &CxxCrabyTestModule::arrayMethod};\n  methodMap_[\"enumMethod\"] = MethodMetadata{2, &CxxCrabyTestModule::enumMethod};\n  methodMap_[\"nullableMethod\"] = MethodMetadata{1, &CxxCrabyTestModule::nullableMethod};\n  methodMap_[\"promiseMethod\"] = MethodMetadata{1, &CxxCrabyTestModule::promiseMethod};\n}\n\njsi::Value CxxCrabyTestModule::numericMethod(jsi::Runtime &rt,\n                                react::TurboModule &turboModule,\n                                const jsi::Value args[],\n                                size_t count) {\n  auto &thisModule = static_cast<CxxCrabyTestModule &>(turboModule);\n  auto callInvoker = thisModule.callInvoker_;\n\n  try {\n    if (1 != count) {\n      throw jsi::JSError(rt, \"Expected 1 argument\");\n    }\n\n    auto arg0 = facebook::react::bridging::fromJs<double>(rt, args[0], callInvoker);\n    auto ret = craby::crabytest::numericMethod(arg0);\n\n    return react::bridging::toJs(rt, ret);\n  } catch (const jsi::JSError &err) {\n    throw err;\n  } catch (const std::exception &err) {\n    throw jsi::JSError(rt, errorMessage(err));\n  }\n}\n\njsi::Value CxxCrabyTestModule::booleanMethod(jsi::Runtime &rt,\n                                react::TurboModule &turboModule,\n                                const jsi::Value args[],\n                                size_t count) {\n  auto &thisModule = static_cast<CxxCrabyTestModule &>(turboModule);\n  auto callInvoker = thisModule.callInvoker_;\n\n  try {\n    if (1 != count) {\n      throw jsi::JSError(rt, \"Expected 1 argument\");\n    }\n\n    auto arg0 = facebook::react::bridging::fromJs<bool>(rt, args[0], callInvoker);\n    auto ret = craby::crabytest::booleanMethod(arg0);\n\n    return react::bridging::toJs(rt, ret);\n  } catch (const jsi::JSError &err) {\n    throw err;\n  } catch (const std::exception &err) {\n    throw jsi::JSError(rt, errorMessage(err));\n  }\n}\n\njsi::Value CxxCrabyTestModule::stringMethod(jsi::Runtime &rt,\n                                react::TurboModule &turboModule,\n                                const jsi::Value args[],\n                                size_t count) {\n  auto &thisModule = static_cast<CxxCrabyTestModule &>(turboModule);\n  auto callInvoker = thisModule.callInvoker_;\n\n  try {\n    if (1 != count) {\n      throw jsi::JSError(rt, \"Expected 1 argument\");\n    }\n\n    auto arg0 = facebook::react::bridging::fromJs<rust::String>(rt, args[0], callInvoker);\n    auto ret = craby::crabytest::stringMethod(arg0);\n\n    return react::bridging::toJs(rt, ret);\n  } catch (const jsi::JSError &err) {\n    throw err;\n  } catch (const std::exception &err) {\n    throw jsi::JSError(rt, errorMessage(err));\n  }\n}\n\njsi::Value CxxCrabyTestModule::objectMethod(jsi::Runtime &rt,\n                                react::TurboModule &turboModule,\n                                const jsi::Value args[],\n                                size_t count) {\n  auto &thisModule = static_cast<CxxCrabyTestModule &>(turboModule);\n  auto callInvoker = thisModule.callInvoker_;\n\n  try {\n    if (1 != count) {\n      throw jsi::JSError(rt, \"Expected 1 argument\");\n    }\n\n    auto arg0 = facebook::react::bridging::fromJs<craby::crabytest::TestObject>(rt, args[0], callInvoker);\n    auto ret = craby::crabytest::objectMethod(arg0);\n\n    return react::bridging::toJs(rt, ret);\n  } catch (const jsi::JSError &err) {\n    throw err;\n  } catch (const std::exception &err) {\n    throw jsi::JSError(rt, errorMessage(err));\n  }\n}\n\njsi::Value CxxCrabyTestModule::arrayMethod(jsi::Runtime &rt,\n                                react::TurboModule &turboModule,\n                                const jsi::Value args[],\n                                size_t count) {\n  auto &thisModule = static_cast<CxxCrabyTestModule &>(turboModule);\n  auto callInvoker = thisModule.callInvoker_;\n\n  try {\n    if (1 != count) {\n      throw jsi::JSError(rt, \"Expected 1 argument\");\n    }\n\n    auto arg0 = facebook::react::bridging::fromJs<rust::Vec<double>>(rt, args[0], callInvoker);\n    auto ret = craby::crabytest::arrayMethod(arg0);\n\n    return react::bridging::toJs(rt, ret);\n  } catch (const jsi::JSError &err) {\n    throw err;\n  } catch (const std::exception &err) {\n    throw jsi::JSError(rt, errorMessage(err));\n  }\n}\n\njsi::Value CxxCrabyTestModule::enumMethod(jsi::Runtime &rt,\n                                react::TurboModule &turboModule,\n                                const jsi::Value args[],\n                                size_t count) {\n  auto &thisModule = static_cast<CxxCrabyTestModule &>(turboModule);\n  auto callInvoker = thisModule.callInvoker_;\n\n  try {\n    if (2 != count) {\n      throw jsi::JSError(rt, \"Expected 2 arguments\");\n    }\n\n    auto arg0 = facebook::react::bridging::fromJs<craby::crabytest::MyEnum>(rt, args[0], callInvoker);\n    auto arg1 = facebook::react::bridging::fromJs<craby::crabytest::SwitchState>(rt, args[1], callInvoker);\n    auto ret = craby::crabytest::enumMethod(arg0, arg1);\n\n    return react::bridging::toJs(rt, ret);\n  } catch (const jsi::JSError &err) {\n    throw err;\n  } catch (const std::exception &err) {\n    throw jsi::JSError(rt, errorMessage(err));\n  }\n}\n\njsi::Value CxxCrabyTestModule::nullableMethod(jsi::Runtime &rt,\n                                react::TurboModule &turboModule,\n                                const jsi::Value args[],\n                                size_t count) {\n  auto &thisModule = static_cast<CxxCrabyTestModule &>(turboModule);\n  auto callInvoker = thisModule.callInvoker_;\n\n  try {\n    if (1 != count) {\n      throw jsi::JSError(rt, \"Expected 1 argument\");\n    }\n\n    auto arg0 = facebook::react::bridging::fromJs<craby::crabytest::NullableNumber>(rt, args[0], callInvoker);\n    auto ret = craby::crabytest::nullableMethod(arg0);\n\n    return react::bridging::toJs(rt, ret);\n  } catch (const jsi::JSError &err) {\n    throw err;\n  } catch (const std::exception &err) {\n    throw jsi::JSError(rt, errorMessage(err));\n  }\n}\n\njsi::Value CxxCrabyTestModule::promiseMethod(jsi::Runtime &rt,\n                                react::TurboModule &turboModule,\n                                const jsi::Value args[],\n                                size_t count) {\n  auto &thisModule = static_cast<CxxCrabyTestModule &>(turboModule);\n  auto callInvoker = thisModule.callInvoker_;\n\n  try {\n    if (1 != count) {\n      throw jsi::JSError(rt, \"Expected 1 argument\");\n    }\n\n    auto arg0 = facebook::react::bridging::fromJs<double>(rt, args[0], callInvoker);\n    react::AsyncPromise<double> promise(rt, callInvoker);\n\n    std::thread([promise, arg0]() mutable {\n      try {\n        auto ret = craby::crabytest::promiseMethod(arg0);\n        promise.resolve(ret);\n      } catch (const jsi::JSError &err) {\n        promise.reject(err.getMessage());\n      } catch (const std::exception &err) {\n        promise.reject(errorMessage(err));\n      }\n    }).detach();\n\n    return react::bridging::toJs(rt, promise);\n  } catch (const jsi::JSError &err) {\n    throw err;\n  } catch (const std::exception &err) {\n    throw jsi::JSError(rt, errorMessage(err));\n  }\n}\n\n} // namespace crabytest\n} // namespace craby");
}

#[test]
fn test_mod_cxx_h() {
    let codegen_res = load_schema_as_codegen_res();
    let result = mod_cxx_h(&vec![codegen_res]);
    assert_eq!(result, "#pragma once\n\n#include <memory>\n#include <ReactCommon/TurboModule.h>\n#include <jsi/jsi.h>\n\nnamespace craby {\nnamespace crabytest {\n\nclass JSI_EXPORT CxxCrabyTestModule : public facebook::react::TurboModule {\npublic:\n  static constexpr const char *kModuleName = \"CrabyTest\";\n\n  CxxCrabyTestModule(std::shared_ptr<facebook::react::CallInvoker> jsInvoker);\n\n  static facebook::jsi::Value\n  numericMethod(facebook::jsi::Runtime &rt,\n      facebook::react::TurboModule &turboModule,\n      const facebook::jsi::Value args[], size_t count);\n\n  static facebook::jsi::Value\n  booleanMethod(facebook::jsi::Runtime &rt,\n      facebook::react::TurboModule &turboModule,\n      const facebook::jsi::Value args[], size_t count);\n\n  static facebook::jsi::Value\n  stringMethod(facebook::jsi::Runtime &rt,\n      facebook::react::TurboModule &turboModule,\n      const facebook::jsi::Value args[], size_t count);\n\n  static facebook::jsi::Value\n  objectMethod(facebook::jsi::Runtime &rt,\n      facebook::react::TurboModule &turboModule,\n      const facebook::jsi::Value args[], size_t count);\n\n  static facebook::jsi::Value\n  arrayMethod(facebook::jsi::Runtime &rt,\n      facebook::react::TurboModule &turboModule,\n      const facebook::jsi::Value args[], size_t count);\n\n  static facebook::jsi::Value\n  enumMethod(facebook::jsi::Runtime &rt,\n      facebook::react::TurboModule &turboModule,\n      const facebook::jsi::Value args[], size_t count);\n\n  static facebook::jsi::Value\n  nullableMethod(facebook::jsi::Runtime &rt,\n      facebook::react::TurboModule &turboModule,\n      const facebook::jsi::Value args[], size_t count);\n\n  static facebook::jsi::Value\n  promiseMethod(facebook::jsi::Runtime &rt,\n      facebook::react::TurboModule &turboModule,\n      const facebook::jsi::Value args[], size_t count);\n\nprotected:\n  std::shared_ptr<facebook::react::CallInvoker> callInvoker_;\n};\n\n} // namespace crabytest\n} // namespace craby");
}

#[test]
fn test_cxx_bridging_h() {
    let codegen_res = load_schema_as_codegen_res();
    let result = cxx_bridging_h(&vec![codegen_res]);
    assert_eq!(result, "#pragma once\n\n#include <react/bridging/Bridging.h>\n#include \"cxx.h\"\n#include \"ffi.rs.h\"\n\nusing namespace facebook;\n\nnamespace facebook {\nnamespace react {\n\ntemplate <>\nstruct Bridging<rust::String> {\n  static rust::String fromJs(jsi::Runtime& rt, const jsi::Value &value, std::shared_ptr<CallInvoker> callInvoker) {\n    auto str = value.asString(rt).utf8(rt);\n    return rust::String(str);\n  }\n\n  static jsi::Value toJs(jsi::Runtime& rt, const rust::String& value) {\n    return react::bridging::toJs(rt, std::string(value));\n  }\n};\n\ntemplate <typename T>\nstruct Bridging<rust::Vec<T>> {\n  static rust::Vec<T> fromJs(jsi::Runtime& rt, const jsi::Value &value, std::shared_ptr<CallInvoker> callInvoker) {\n    auto arr = value.asObject(rt).asArray(rt);\n    size_t len = arr.length(rt);\n    rust::Vec<T> vec;\n    vec.reserve(len);\n\n    for (size_t i = 0; i < len; i++) {\n      auto element = arr.getValueAtIndex(rt, i);\n      vec.push_back(react::bridging::fromJs<T>(rt, element, callInvoker));\n    }\n\n    return vec;\n  }\n\n  static jsi::Array toJs(jsi::Runtime& rt, const rust::Vec<T>& vec) {\n    auto arr = jsi::Array(rt, vec.size());\n\n    for (size_t i = 0; i < vec.size(); i++) {\n      auto jsElement = react::bridging::toJs(rt, vec[i]);\n      arr.setValueAtIndex(rt, i, jsElement);\n    }\n\n    return arr;\n  }\n};\n\ntemplate <>\nstruct Bridging<craby::crabytest::MyEnum> {\n  static craby::crabytest::MyEnum fromJs(jsi::Runtime &rt, const jsi::Value& value, std::shared_ptr<CallInvoker> callInvoker) {\n    auto raw = value.asString(rt).utf8(rt);\n    if (raw == \"foo\") {\n      return craby::crabytest::MyEnum::Foo;\n    } else if (raw == \"bar\") {\n      return craby::crabytest::MyEnum::Bar;\n    } else if (raw == \"baz\") {\n      return craby::crabytest::MyEnum::Baz;\n    } else {\n      throw jsi::JSError(rt, \"Invalid enum value (MyEnum)\");\n    }\n  }\n\n  static jsi::Value toJs(jsi::Runtime &rt, craby::crabytest::MyEnum value) {\n    switch (value) {\n      case craby::crabytest::MyEnum::Foo:\n        return react::bridging::toJs(rt, \"foo\");\n      case craby::crabytest::MyEnum::Bar:\n        return react::bridging::toJs(rt, \"bar\");\n      case craby::crabytest::MyEnum::Baz:\n        return react::bridging::toJs(rt, \"baz\");\n      default:\n        throw jsi::JSError(rt, \"Invalid enum value (MyEnum)\");\n    }\n  }\n};\n\ntemplate <>\nstruct Bridging<craby::crabytest::SwitchState> {\n  static craby::crabytest::SwitchState fromJs(jsi::Runtime &rt, const jsi::Value& value, std::shared_ptr<CallInvoker> callInvoker) {\n    auto raw = value.asNumber();\n    if (raw == 0) {\n      return craby::crabytest::SwitchState::Off;\n    } else if (raw == 1) {\n      return craby::crabytest::SwitchState::On;\n    } else {\n      throw jsi::JSError(rt, \"Invalid enum value (SwitchState)\");\n    }\n  }\n\n  static jsi::Value toJs(jsi::Runtime &rt, craby::crabytest::SwitchState value) {\n    switch (value) {\n      case craby::crabytest::SwitchState::Off:\n        return react::bridging::toJs(rt, 0);\n      case craby::crabytest::SwitchState::On:\n        return react::bridging::toJs(rt, 1);\n      default:\n        throw jsi::JSError(rt, \"Invalid enum value (SwitchState)\");\n    }\n  }\n};\n\ntemplate <>\nstruct Bridging<craby::crabytest::SubObject> {\n  static craby::crabytest::SubObject fromJs(jsi::Runtime &rt, const jsi::Value& value, std::shared_ptr<CallInvoker> callInvoker) {\n    auto obj = value.asObject(rt);\n    auto obj$a = obj.getProperty(rt, \"a\");\n    auto obj$b = obj.getProperty(rt, \"b\");\n    auto obj$c = obj.getProperty(rt, \"c\");\n\n    auto _obj$a = facebook::react::bridging::fromJs<craby::crabytest::NullableString>(rt, obj$a, callInvoker);\n    auto _obj$b = facebook::react::bridging::fromJs<double>(rt, obj$b, callInvoker);\n    auto _obj$c = facebook::react::bridging::fromJs<bool>(rt, obj$c, callInvoker);\n\n    craby::crabytest::SubObject ret = {\n      _obj$a,\n      _obj$b,\n      _obj$c\n    };\n\n    return ret;\n  }\n\n  static jsi::Value toJs(jsi::Runtime &rt, craby::crabytest::SubObject value) {\n    jsi::Object obj = jsi::Object(rt);\n    auto _obj$a = react::bridging::toJs(rt, value.a);\n    auto _obj$b = react::bridging::toJs(rt, value.b);\n    auto _obj$c = react::bridging::toJs(rt, value.c);\n\n    obj.setProperty(rt, \"a\", _obj$a);\n    obj.setProperty(rt, \"b\", _obj$b);\n    obj.setProperty(rt, \"c\", _obj$c);\n\n    return jsi::Value(rt, obj);\n  }\n};\n\ntemplate <>\nstruct Bridging<craby::crabytest::TestObject> {\n  static craby::crabytest::TestObject fromJs(jsi::Runtime &rt, const jsi::Value& value, std::shared_ptr<CallInvoker> callInvoker) {\n    auto obj = value.asObject(rt);\n    auto obj$foo = obj.getProperty(rt, \"foo\");\n    auto obj$bar = obj.getProperty(rt, \"bar\");\n    auto obj$baz = obj.getProperty(rt, \"baz\");\n    auto obj$sub = obj.getProperty(rt, \"sub\");\n\n    auto _obj$foo = facebook::react::bridging::fromJs<rust::String>(rt, obj$foo, callInvoker);\n    auto _obj$bar = facebook::react::bridging::fromJs<double>(rt, obj$bar, callInvoker);\n    auto _obj$baz = facebook::react::bridging::fromJs<bool>(rt, obj$baz, callInvoker);\n    auto _obj$sub = facebook::react::bridging::fromJs<craby::crabytest::NullableSubObject>(rt, obj$sub, callInvoker);\n\n    craby::crabytest::TestObject ret = {\n      _obj$foo,\n      _obj$bar,\n      _obj$baz,\n      _obj$sub\n    };\n\n    return ret;\n  }\n\n  static jsi::Value toJs(jsi::Runtime &rt, craby::crabytest::TestObject value) {\n    jsi::Object obj = jsi::Object(rt);\n    auto _obj$foo = react::bridging::toJs(rt, value.foo);\n    auto _obj$bar = react::bridging::toJs(rt, value.bar);\n    auto _obj$baz = react::bridging::toJs(rt, value.baz);\n    auto _obj$sub = react::bridging::toJs(rt, value.sub);\n\n    obj.setProperty(rt, \"foo\", _obj$foo);\n    obj.setProperty(rt, \"bar\", _obj$bar);\n    obj.setProperty(rt, \"baz\", _obj$baz);\n    obj.setProperty(rt, \"sub\", _obj$sub);\n\n    return jsi::Value(rt, obj);\n  }\n};\n\ntemplate <>\nstruct Bridging<craby::crabytest::NullableNumber> {\n  static craby::crabytest::NullableNumber fromJs(jsi::Runtime &rt, const jsi::Value& value, std::shared_ptr<CallInvoker> callInvoker) {\n    if (value.isNull()) {\n      return craby::crabytest::NullableNumber{true, 0.0};\n    }\n\n    auto val = react::bridging::fromJs<double>(rt, value, callInvoker);\n    auto ret = craby::crabytest::NullableNumber{false, val};\n\n    return ret;\n  }\n\n  static jsi::Value toJs(jsi::Runtime &rt, craby::crabytest::NullableNumber value) {\n    if (value.null) {\n      return jsi::Value::null();\n    }\n\n    return react::bridging::toJs(rt, value.val);\n  }\n};\n\ntemplate <>\nstruct Bridging<craby::crabytest::NullableString> {\n  static craby::crabytest::NullableString fromJs(jsi::Runtime &rt, const jsi::Value& value, std::shared_ptr<CallInvoker> callInvoker) {\n    if (value.isNull()) {\n      return craby::crabytest::NullableString{true, rust::String()};\n    }\n\n    auto val = react::bridging::fromJs<rust::String>(rt, value, callInvoker);\n    auto ret = craby::crabytest::NullableString{false, val};\n\n    return ret;\n  }\n\n  static jsi::Value toJs(jsi::Runtime &rt, craby::crabytest::NullableString value) {\n    if (value.null) {\n      return jsi::Value::null();\n    }\n\n    return react::bridging::toJs(rt, value.val);\n  }\n};\n\ntemplate <>\nstruct Bridging<craby::crabytest::NullableSubObject> {\n  static craby::crabytest::NullableSubObject fromJs(jsi::Runtime &rt, const jsi::Value& value, std::shared_ptr<CallInvoker> callInvoker) {\n    if (value.isNull()) {\n      return craby::crabytest::NullableSubObject{true, craby::crabytest::SubObject{}};\n    }\n\n    auto val = react::bridging::fromJs<craby::crabytest::SubObject>(rt, value, callInvoker);\n    auto ret = craby::crabytest::NullableSubObject{false, val};\n\n    return ret;\n  }\n\n  static jsi::Value toJs(jsi::Runtime &rt, craby::crabytest::NullableSubObject value) {\n    if (value.null) {\n      return jsi::Value::null();\n    }\n\n    return react::bridging::toJs(rt, value.val);\n  }\n};\n\n} // namespace react\n} // namespace facebook");
}

fn two_aliases(alpha_uses_beta: bool, beta_uses_alpha: bool) -> Schema {
    let mut schema = load_schema();
    let alpha_props = if alpha_uses_beta {
        vec![prop("beta", nullable(alias("Beta"))), prop("n", num())]
    } else {
        vec![prop("n", num())]
    };
    let beta_props = if beta_uses_alpha {
        vec![prop("alphas", TypeAnnotation::ArrayTypeAnnotation { element_type: Box::new(alias("Alpha")) })]
    } else {
        vec![prop("s", string())]
    };
    schema.alias_map = vec![
        ("Alpha".to_string(), Alias { kind: "ObjectTypeAnnotation".to_string(), properties: alpha_props }),
        ("Beta".to_string(), Alias { kind: "ObjectTypeAnnotation".to_string(), properties: beta_props }),
    ];
    schema
}

#[test]
fn deps_order_declares_used_aliases_first() {
    assert_eq!(calc_deps_order(&load_schema()), Ok(vec!["SubObject".to_string(), "TestObject".to_string()]));
    assert_eq!(calc_deps_order(&two_aliases(true, false)), Ok(vec!["Beta".to_string(), "Alpha".to_string()]));
    assert_eq!(calc_deps_order(&two_aliases(false, false)), Ok(vec!["Alpha".to_string(), "Beta".to_string()]));
}

#[test]
fn deps_order_refuses_cycles() {
    assert_eq!(calc_deps_order(&two_aliases(true, true)), Err(CodegenError::CyclicDependency));
}

#[test]
fn bridging_templates_follow_the_deps_order() {
    let schema = two_aliases(true, false);
    let templates = CodeGenerator::new().get_cxx_bridging_templates(&schema).unwrap();
    let heads: Vec<&str> = templates.iter().map(|t| t.lines().nth(1).unwrap()).collect();
    assert_eq!(
        heads,
        vec![
            "struct Bridging<craby::crabytest::MyEnum> {",
            "struct Bridging<craby::crabytest::SwitchState> {",
            "struct Bridging<craby::crabytest::Beta> {",
            "struct Bridging<craby::crabytest::Alpha> {",
            "struct Bridging<craby::crabytest::NullableBeta> {",
            "struct Bridging<craby::crabytest::NullableNumber> {",
        ]
    );
}

#[test]
fn generation_stops_at_the_first_error() {
    let mut schema = load_schema();
    schema.spec.methods[0].optional = true;
    assert_eq!(CodeGenerator::new().get_rs_cxx_bridges(&schema).err(), Some(CodegenError::OptionalMethod("numericMethod".to_string())));
    let cyclic = two_aliases(true, true);
    assert_eq!(CodeGenerator::new().generate(&cyclic).err(), Some(CodegenError::CyclicDependency));
}

#[test]
fn nested_arrays_are_refused() {
    let nested = TypeAnnotation::ArrayTypeAnnotation {
        element_type: Box::new(TypeAnnotation::ArrayTypeAnnotation { element_type: Box::new(num()) }),
    };
    assert_eq!(nested.as_rs_type().err(), Some(CodegenError::NestedArray));
    assert_eq!(nullable(num()).as_rs_type().ok().map(|t| t.0), Some("NullableNumber".to_string()));
    assert_eq!(
        nullable(alias("SubObject")).as_rs_impl_type().ok().map(|t| t.0),
        Some("Nullable<SubObject>".to_string())
    );
}

#[test]
fn keyed_texts_come_out_in_key_order() {
    let mut texts = KeyedTexts::new();
    texts.insert("b".to_string(), "2".to_string());
    texts.insert("a".to_string(), "1".to_string());
    texts.insert("c".to_string(), "3".to_string());
    texts.insert("a".to_string(), "one".to_string());
    assert!(texts.contains_key("c"));
    assert_eq!(texts.remove("c"), Some("3".to_string()));
    assert_eq!(texts.remove("c"), None);
    assert_eq!(texts.into_values(), vec!["one".to_string(), "2".to_string()]);
}

fn point_alias(kind: &str) -> Alias {
    let prop = |n: &str| AliasProperty { name: n.to_string(), optional: false, type_annotation: Box::new(num()) };
    Alias { kind: kind.to_string(), properties: vec![prop("x"), prop("y")] }
}

#[test]
fn alias_struct_def_renders_object_alias() {
    let r = alias_struct_def(&"Point".to_string(), &point_alias("ObjectTypeAnnotation"));
    assert_eq!(r, Ok("struct Point {\n    x: f64,\n    y: f64,\n}".to_string()));
}

#[test]
fn alias_struct_def_names_the_offending_type() {
    let r = alias_struct_def(&"Point".to_string(), &point_alias("Foo"));
    assert_eq!(r, Err(CodegenError::AliasNotObject("Foo".to_string())));
}

#[test]
fn bridging_templates_one_per_enum_alias_and_distinct_nullable_type() {
    let mut schema = load_schema();
    schema.spec.methods.push(method(
        "repeatsNullables",
        vec![param("a", nullable(num())), param("b", nullable(string()))],
        nullable(num()),
    ));
    let templates = CodeGenerator::new().get_cxx_bridging_templates(&schema).unwrap();
    assert_eq!(templates.len(), 2 + 2 + 3);
    let heads: Vec<&str> = templates.iter().take(2).map(|t| t.lines().nth(1).unwrap()).collect();
    assert_eq!(
        heads,
        vec!["struct Bridging<craby::crabytest::MyEnum> {", "struct Bridging<craby::crabytest::SwitchState> {"]
    );
}

#[test]
fn cxx_method_checks_count_and_declares_args_in_order() {
    let f = method("twoArgs", vec![param("a", num()), param("b", string())], num());
    let m = f.as_cxx_method(&"CrabyTest".to_string()).unwrap();
    assert!(m.impl_func.contains("if (2 != count) {"));
    assert!(m.impl_func.contains("Expected 2 arguments"));
    let first = m.impl_func.find("auto arg0 = facebook::react::bridging::fromJs<double>(rt, args[0], callInvoker);").unwrap();
    let second = m.impl_func.find("auto arg1 = facebook::react::bridging::fromJs<rust::String>(rt, args[1], callInvoker);").unwrap();
    assert!(first < second);
    assert!(m.metadata.starts_with("MethodMetadata{2, "));

    let one = method("oneArg", vec![param("a", boolean())], boolean());
    let m1 = one.as_cxx_method(&"CrabyTest".to_string()).unwrap();
    assert!(m1.impl_func.contains("if (1 != count) {"));
    assert!(m1.impl_func.contains("\"Expected 1 argument\""));
}

#[test]
fn optional_parameter_is_refused_by_name() {
    let mut schema = load_schema();
    schema.spec.methods = vec![method(
        "twoArgs",
        vec![param("first", num()), Parameter { name: "second".to_string(), optional: true, type_annotation: Box::new(num()) }],
        num(),
    )];
    assert_eq!(
        CodeGenerator::new().get_rs_cxx_bridges(&schema).err(),
        Some(CodegenError::OptionalParameter("second".to_string()))
    );
}

#[test]
fn spec_trait_uses_rust_types() {
    let mut schema = load_schema();
    schema.module_name = "MyModule".to_string();
    schema.spec.methods = vec![method("multiply", vec![param("a", num()), param("b", num())], num())];
    assert_eq!(
        CodeGenerator::new().generate_spec(&schema),
        Ok("pub trait MyModuleSpec {\n    fn multiply(a: f64, b: f64) -> f64;\n}".to_string())
    );
}

#[test]
fn codegen_error_messages() {
    assert_eq!(
        CodegenError::AliasNotObject("Foo".to_string()).message(),
        "Alias type should be ObjectTypeAnnotation, but got Foo"
    );
    assert_eq!(CodegenError::OptionalMethod("multiply".to_string()).message(), "Optional method is not supported: multiply");
    assert_eq!(CodegenError::EnumMembersRequired.message(), "Enum members are required");
}

#[test]
fn bridging_templates_are_pairwise_distinct() {
    let templates = CodeGenerator::new().get_cxx_bridging_templates(&two_aliases(true, false)).unwrap();
    for i in 0..templates.len() {
        for k in (i + 1)..templates.len() {
            assert_ne!(templates[i], templates[k]);
        }
    }
}
