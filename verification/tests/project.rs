use craby::package_json::{check_codegen_config, example_package_json, root_package_json};
use craby::artifacts::{
    abi_base_path, get_android_targets, get_ios_targets, get_lib_identifier, ios_base_path,
    replace_cxx_header, ArtifactType, Artifacts,
};
use craby::project::{
    fill_placeholders, gitignore_update, init_names, is_spec_source, lib_name_of, metro_config,
    react_native_config, render_content, replace_path, template_data, try_replace_path,
    InitAnswers, TemplateError,
};

fn answers() -> InitAnswers {
    InitAnswers {
        pkg_name: "fast-calculator".to_string(),
        pkg_version: "0.1.0".to_string(),
        description: "A calculator".to_string(),
        author_name: "Dev".to_string(),
        author_email: "dev@example.com".to_string(),
        repository_url: "https://github.com/example/fast-calculator".to_string(),
        year: "2025".to_string(),
    }
}

#[test]
fn init_names_follow_the_package_name() {
    let n = init_names("fast-calculator");
    assert_eq!(n.crate_name, "fast_calculator");
    assert_eq!(n.cxx_name, "CxxFastCalculatorModule");
    assert_eq!(n.flat_name, "fastcalculator");
    assert_eq!(n.snake_name, "fast_calculator");
    assert_eq!(n.kebab_name, "fast-calculator");
    assert_eq!(n.pascal_name, "FastCalculator");
    assert_eq!(n.objc_provider, "FastCalculatorModuleProvider");
}

#[test]
fn template_data_keys_are_sorted() {
    let a = answers();
    let n = init_names(&a.pkg_name);
    let data = template_data(&a, &n);
    let keys: Vec<&str> = data.iter().map(|(k, _)| k.as_str()).collect();
    let mut sorted = keys.clone();
    sorted.sort();
    assert_eq!(keys, sorted);
    assert_eq!(keys.len(), 14);
    assert!(data.contains(&("cxx_name".to_string(), "CxxFastCalculatorModule".to_string())));
    assert!(data.contains(&("year".to_string(), "2025".to_string())));
}

#[test]
fn placeholders_are_filled() {
    let a = answers();
    let n = init_names(&a.pkg_name);
    let data = template_data(&a, &n);
    assert_eq!(
        fill_placeholders("[package]\nname = \"{{crate_name}}\"\nversion = \"{{pkg_version}}\"\n# {{unknown}}", &data),
        "[package]\nname = \"fast_calculator\"\nversion = \"0.1.0\"\n# {{unknown}}"
    );
    assert_eq!(fill_placeholders("{{kebab_name}}-{{kebab_name}}", &data), "fast-calculator-fast-calculator");
}

#[test]
fn paths_are_rendered_with_or_without_their_base_name() {
    let a = answers();
    let n = init_names(&a.pkg_name);
    let data = template_data(&a, &n);
    assert_eq!(replace_path("cpp/{{cxx_name}}.cpp", &data, false), "cpp/CxxFastCalculatorModule.cpp");
    assert_eq!(
        replace_path("crates/{{crate_name}}/{{keep}}.rs", &data, true),
        "crates/fast_calculator/{{keep}}.rs"
    );
    assert_eq!(try_replace_path("/", &data, true), None);
    assert_eq!(try_replace_path("{{flat_name}}", &data, false), Some("fastcalculator".to_string()));
}

#[test]
fn lib_name_drops_underscores() {
    assert_eq!(lib_name_of("fast_calculator"), "fastcalculator");
    assert_eq!(lib_name_of("plain"), "plain");
}

#[test]
fn gitignore_gets_the_missing_entries() {
    assert_eq!(gitignore_update(None), Some("# Craby\n.craby\ntarget/".to_string()));
    assert_eq!(gitignore_update(Some("node_modules/")), Some("node_modules/\n\n# Craby\ntarget/\n.craby".to_string()));
    assert_eq!(gitignore_update(Some("target/")), Some("target/\n\n# Craby\n.craby".to_string()));
    assert_eq!(gitignore_update(Some(".craby\ntarget/")), None);
}

#[test]
fn artifacts_are_picked_by_type() {
    let a = Artifacts {
        srcs: vec!["ffi.rs.cc".to_string()],
        headers: vec!["ffi.rs.h".to_string(), "cxx.h".to_string()],
        libs: vec!["libcalc.a".to_string()],
    };
    assert_eq!(a.path_of(ArtifactType::Src), &vec!["ffi.rs.cc".to_string()]);
    assert_eq!(a.path_of(ArtifactType::Header).len(), 2);
    assert_eq!(a.path_of(ArtifactType::Lib), &vec!["libcalc.a".to_string()]);
}

#[test]
fn libraries_get_the_craby_suffix() {
    assert_eq!(ArtifactType::Lib.dest_file_name("libcalc.a", "a"), "libcalc-craby.a");
    assert_eq!(ArtifactType::Header.dest_file_name("ffi.rs.h", "h"), "ffi.rs.h");
    assert_eq!(ArtifactType::Src.dest_file_name("ffi.rs.cc", "cc"), "ffi.rs.cc");
    assert!(!ArtifactType::Lib.keeps_existing());
    assert!(ArtifactType::Header.keeps_existing());
}

#[test]
fn ios_library_identifiers() {
    assert_eq!(get_lib_identifier("aarch64-apple-ios-sim"), "ios-arm64-simulator");
    assert_eq!(get_lib_identifier("aarch64-apple-ios"), "ios-arm64");
}

#[test]
fn targets_are_split_by_platform() {
    let targets = vec![
        "aarch64-linux-android".to_string(),
        "aarch64-apple-ios".to_string(),
        "x86_64-linux-android".to_string(),
        "aarch64-apple-ios-sim".to_string(),
    ];
    assert_eq!(
        get_ios_targets(&targets),
        vec!["aarch64-apple-ios".to_string(), "aarch64-apple-ios-sim".to_string()]
    );
    assert_eq!(
        get_android_targets(&targets),
        vec!["aarch64-linux-android".to_string(), "x86_64-linux-android".to_string()]
    );
}

#[test]
fn platform_paths() {
    assert_eq!(abi_base_path("/proj"), "/proj/android/src/libs");
    assert_eq!(ios_base_path("/proj"), "/proj/ios");
}

#[test]
fn cxx_header_include_is_rewritten() {
    assert_eq!(
        replace_cxx_header("#include \"rust/cxx.h\"\n#include \"ffi.rs.h\""),
        "#include \"cxx.h\"\n#include \"ffi.rs.h\""
    );
}

#[test]
fn template_content_is_rendered_with_handlebars() {
    let a = answers();
    let n = init_names(&a.pkg_name);
    let data = template_data(&a, &n);
    assert_eq!(
        render_content("name = \"{{crate_name}}\" # {{year}}", &data),
        Ok("name = \"fast_calculator\" # 2025".to_string())
    );
    assert_eq!(render_content("{{#if}}", &data), Err(TemplateError::Render));
}

#[test]
fn spec_sources_are_native_typescript_files() {
    assert!(is_spec_source("NativeCalculator.ts", "ts"));
    assert!(!is_spec_source("NativeCalculator.tsx", "tsx"));
    assert!(!is_spec_source("Calculator.ts", "ts"));
}

#[test]
fn example_app_configs() {
    assert!(metro_config().starts_with("const { getMetroConfig } = require('@craby/devkit');\n"));
    assert!(metro_config().ends_with("module.exports = mergeConfig(getDefaultConfig(__dirname), config);\n"));
    assert!(react_native_config().contains("withWorkspaceModule(config, modulePackagePath)"));
}

#[test]
fn gitignore_update_is_idempotent() {
    for existing in [None, Some("node_modules/"), Some("target/"), Some(".craby\n"), Some("")] {
        if let Some(updated) = gitignore_update(existing) {
            assert_eq!(gitignore_update(Some(&updated)), None);
        }
    }
}

#[test]
fn codegen_config_verdicts() {
    assert_eq!(
        check_codegen_config("{\"name\": \"lib\"}"),
        Ok(Err("`codegenConfig` field not found in the `package.json`".to_string()))
    );
    assert_eq!(check_codegen_config("{\"codegenConfig\": 3}"), Ok(Err("Invalid `codegenConfig` value".to_string())));
    assert_eq!(
        check_codegen_config("{\"codegenConfig\": {\"jsSrcsDir\": \"src\"}}"),
        Ok(Err("`codegenConfig.jsSrcsDir` and `codegenConfig.android.javaPackageName` are required".to_string()))
    );
    assert_eq!(
        check_codegen_config("{\"codegenConfig\": {\"jsSrcsDir\": \"src\", \"android\": {\"javaPackageName\": \"com.lib\"}}}"),
        Ok(Ok(()))
    );
    assert!(check_codegen_config("{ not json").is_err());
}

#[test]
fn root_package_json_adds_workspaces() {
    assert_eq!(
        root_package_json("{\"name\": \"lib\"}"),
        Ok(Some("{\n  \"name\": \"lib\",\n  \"workspaces\": [\n    \"example\"\n  ]\n}".to_string()))
    );
    assert_eq!(root_package_json("[1]"), Ok(None));
    assert!(root_package_json("{").is_err());
}

#[test]
fn example_package_json_adds_library_and_devkit() {
    let text = "{\"dependencies\": {\"react\": \"1\"}, \"devDependencies\": {}, \"name\": \"app\"}";
    assert_eq!(
        example_package_json(text, "zlib"),
        Ok(Some(
            "{\n  \"dependencies\": {\n    \"react\": \"1\",\n    \"zlib\": \"workspace:*\"\n  },\n  \"devDependencies\": {\n    \"@craby/devkit\": \"*\"\n  },\n  \"name\": \"app\"\n}"
                .to_string()
        ))
    );
    assert_eq!(
        example_package_json("{\"name\": \"app\"}", "zlib"),
        Ok(Some("{\n  \"name\": \"app\"\n}".to_string()))
    );
    assert_eq!(example_package_json("\"text\"", "zlib"), Ok(None));
}
