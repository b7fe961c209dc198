use craby::cli::{
    get_hash_from_src, gradle_snippet, hash_line_present, perform, podspec_snippet, schema_hash,
    validate_email, validate_required, validate_schema, validate_url, with_generated_comment, with_hash_line,
    without_generated_comment, CliError, CrateNameValidator, ShowOptions, Validation,
};

fn invalid_message(v: Validation) -> Option<String> {
    match v {
        Validation::Valid => None,
        Validation::Invalid(m) => Some(m),
    }
}

#[test]
fn crate_name_validator_accepts_lowercase_and_underscores() {
    assert_eq!(invalid_message(CrateNameValidator.validate("fast_calculator")), None);
    assert_eq!(invalid_message(CrateNameValidator.validate("_")), None);
}

#[test]
fn crate_name_validator_refuses_empty_and_other_characters() {
    assert_eq!(
        invalid_message(CrateNameValidator.validate("")),
        Some("Crate name cannot be empty".to_string())
    );
    assert_eq!(
        invalid_message(CrateNameValidator.validate("FastCalculator")),
        Some("Crate name must contain only lowercase letters and underscores".to_string())
    );
    assert_eq!(
        invalid_message(CrateNameValidator.validate("fast-calculator")),
        Some("Crate name must contain only lowercase letters and underscores".to_string())
    );
}

#[test]
fn required_answers_must_not_be_blank() {
    assert_eq!(invalid_message(validate_required("  \t ")), Some("This field is required.".to_string()));
    assert_eq!(invalid_message(validate_required("")), Some("This field is required.".to_string()));
    assert_eq!(invalid_message(validate_required(" x ")), None);
}

#[test]
fn email_answers_are_checked() {
    assert_eq!(invalid_message(validate_email("dev@example.com")), None);
    assert_eq!(invalid_message(validate_email("not an email")), Some("Invalid email address.".to_string()));
}

#[test]
fn url_answers_are_checked() {
    assert_eq!(invalid_message(validate_url("https://github.com/example/repo")), None);
    assert_eq!(invalid_message(validate_url("github.com/example")), Some("Invalid URL.".to_string()));
}

#[test]
fn generated_comment_depends_on_the_extension() {
    assert_eq!(
        with_generated_comment(Some("rs"), "fn main() {}"),
        "// Auto-generated by Craby. DO NOT EDIT.\nfn main() {}\n"
    );
    assert_eq!(
        with_generated_comment(Some("hpp"), "#pragma once"),
        "// Auto-generated by Craby. DO NOT EDIT.\n#pragma once\n"
    );
    assert_eq!(
        with_generated_comment(Some("txt"), "project(x)"),
        "# Auto-generated by Craby. DO NOT EDIT.\nproject(x)\n"
    );
    assert_eq!(with_generated_comment(Some("json"), "{}"), "{}\n");
    assert_eq!(with_generated_comment(None, "plain"), "plain\n");
    assert_eq!(without_generated_comment(""), "\n");
}

#[test]
fn hash_is_read_from_the_first_hash_line() {
    let src = "// Auto-generated by Craby. DO NOT EDIT.\n// Hash: 0123abcd  \n// Hash: ffff\n";
    assert!(hash_line_present(src));
    assert_eq!(get_hash_from_src(src), "0123abcd");
    assert!(!hash_line_present("fn main() {}\n  // Hash: indented"));
}

#[test]
fn hash_line_stops_at_a_repeated_prefix() {
    assert_eq!(get_hash_from_src("// Hash: abc // Hash: def"), "abc");
    assert_eq!(get_hash_from_src("// Hash: "), "");
}

#[test]
fn schema_hash_is_xxh3_in_sixteen_hex_digits() {
    let h = schema_hash("");
    assert_eq!(h, "2d06800538d394c2");
    let h2 = schema_hash("[{\"moduleName\":\"CrabyTest\"}]");
    assert_eq!(h2.len(), 16);
    assert!(h2.chars().all(|c| c.is_ascii_digit() || ('a'..='f').contains(&c)));
    assert_ne!(h2, h);
}

#[test]
fn schema_validation_compares_hashes() {
    let serialized = "[]";
    let current = schema_hash(serialized);
    let src = format!("// Auto-generated by Craby. DO NOT EDIT.\n// Hash: {}\n", current);
    assert!(validate_schema(&src, serialized).is_ok());

    let stale = "// Hash: 0000000000000000\n";
    match validate_schema(stale, serialized) {
        Err(CliError::HashMismatch { current: c, expected: e }) => {
            assert_eq!(c, current);
            assert_eq!(e, "0000000000000000");
        }
        Ok(()) => panic!("a stale hash must not validate"),
    }
}

#[test]
fn show_reports_no_modules() {
    let opts = ShowOptions { project_root: ".".to_string() };
    assert_eq!(perform(&opts).ok(), Some(0));
}

#[test]
fn build_guide_snippets_name_the_module() {
    assert_eq!(
        gradle_snippet("CrabyTest"),
        "android {\n  externalNativeBuild {\n    // Add CMake build configuration\n    cmake {\n      path \"CMakeLists.txt\"\n      targets \"cxx-craby-test\"\n\n      // ...\n    }\n  }\n}"
    );
    assert_eq!(
        podspec_snippet("CrabyTest"),
        "Pod::Spec.new do |s|\n  # Add these lines\n  s.source_files = [\"ios/**/*.{h,m,mm,cc,cpp}\", \"cpp/**/*.{hpp,cpp}\"]\n  s.private_header_files = \"ios/include/*.h\"\n  s.vendored_frameworks = \"ios/framework/libcraby_test.xcframework\"\nend"
    );
}

#[test]
fn written_hash_is_read_back() {
    let hash = schema_hash("[{\"module_name\":\"Calculator\"}]");
    let src = with_generated_comment(Some("rs"), &with_hash_line(&hash, "use crate::types::*;"));
    assert!(src.starts_with(&format!("// Auto-generated by Craby. DO NOT EDIT.\n// Hash: {}\n", hash)));
    assert!(hash_line_present(&src));
    assert_eq!(get_hash_from_src(&src), hash);
    assert!(validate_schema(&src, "[{\"module_name\":\"Calculator\"}]").is_ok());
    assert!(validate_schema(&src, "[]").is_err());
}
