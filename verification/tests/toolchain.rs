use craby::ndk::{latest_ndk_index, parse_u64, version_key};
use craby::setup::{setup_project, SetupAction};
use craby::toolchain::{
    default_android_targets, get_build_targets, get_targets_with_defaults, ndk_bin_path, Abi,
    Identifier, Target, ToolchainError,
};

fn all_build_targets() -> Vec<Target> {
    vec![
        Target::Android(Abi::Arm64V8a),
        Target::Android(Abi::ArmeAbiV7a),
        Target::Android(Abi::X86_64),
        Target::Android(Abi::X86),
        Target::Ios(Identifier::Arm64),
        Target::Ios(Identifier::Arm64Simulator),
        Target::Ios(Identifier::X86_64Simulator),
    ]
}

#[test]
fn target_triples() {
    assert_eq!(Target::Android(Abi::Arm64V8a).to_str(), "aarch64-linux-android");
    assert_eq!(Target::Android(Abi::ArmeAbiV7a).to_str(), "armv7-linux-androideabi");
    assert_eq!(Target::Ios(Identifier::Arm64Simulator).to_str(), "aarch64-apple-ios-sim");
    assert_eq!(Target::Ios(Identifier::X86_64Simulator).to_str(), "x86_64-apple-ios");
}

#[test]
fn target_round_trip() {
    for t in all_build_targets() {
        let parsed = Target::try_from(t.to_str()).unwrap();
        assert_eq!(parsed, t);
    }
}

#[test]
fn invalid_target() {
    match Target::try_from("riscv64-linux-android") {
        Err(ToolchainError::InvalidTarget(v)) => assert_eq!(v, "riscv64-linux-android"),
        _ => panic!("expected an invalid target"),
    }
}

#[test]
fn abi_names() {
    assert_eq!(Abi::Arm64V8a.to_str(), "arm64-v8a");
    assert_eq!(Abi::X86.to_str(), "x86");
    assert_eq!(Abi::Arm64V8a.to_clang_name(true), "aarch64-linux-android23-clang++");
    assert_eq!(Abi::ArmeAbiV7a.to_clang_name(false), "armv7a-linux-androideabi23-clang");
}

#[test]
fn abi_env() {
    let env = Abi::X86_64.to_env("/ndk/bin");
    assert_eq!(env.len(), 3);
    assert_eq!(env[0].0, "CXX_x86_64_linux_android");
    assert_eq!(env[0].1, "/ndk/bin/x86_64-linux-android23-clang++");
    assert_eq!(env[1].0, "CC_x86_64_linux_android");
    assert_eq!(env[1].1, "/ndk/bin/x86_64-linux-android23-clang");
    assert_eq!(env[2].0, "AR_x86_64_linux_android");
    assert_eq!(env[2].1, "/ndk/bin/llvm-ar");
}

#[test]
fn identifiers() {
    assert_eq!(Identifier::Arm64.try_into_str().unwrap(), "ios-arm64");
    assert_eq!(Identifier::Simulator.try_into_str().unwrap(), "ios-arm64_x86_64-simulator");
    assert!(matches!(Identifier::Arm64Simulator.try_into_str(), Err(ToolchainError::InvalidIdentifier)));
}

#[test]
fn ndk_paths() {
    assert_eq!(ndk_bin_path("/ndk", "linux").unwrap(), "/ndk/toolchains/llvm/prebuilt/linux-x86_64/bin");
    assert_eq!(ndk_bin_path("/ndk", "macos").unwrap(), "/ndk/toolchains/llvm/prebuilt/darwin-x86_64/bin");
    assert!(matches!(ndk_bin_path("/ndk", "freebsd"), Err(ToolchainError::UnsupportedOs(os)) if os == "freebsd"));
    assert_eq!(craby::toolchain::ndk_llvm_strip_path("/b"), "/b/llvm-strip");
}

#[test]
fn version_parsing() {
    assert_eq!(parse_u64("27"), Some(27));
    assert_eq!(parse_u64("+7"), Some(7));
    assert_eq!(parse_u64("+"), None);
    assert_eq!(parse_u64(""), None);
    assert_eq!(parse_u64("-1"), None);
    assert_eq!(parse_u64("18446744073709551615"), Some(u64::MAX));
    assert_eq!(parse_u64("18446744073709551616"), None);
    assert_eq!(version_key("27.0.12077973"), Some(vec![27, 0, 12077973]));
    assert_eq!(version_key("27.x"), None);
}

#[test]
fn latest_ndk() {
    let names = vec![
        "25.1.8937393".to_string(),
        "27.0.12077973".to_string(),
        "notes".to_string(),
        "26.3.11579264".to_string(),
    ];
    assert_eq!(latest_ndk_index(&names), Some(1));
    assert_eq!(
        craby::ndk::latest_ndk_path("/sdk/ndk", &names),
        Some("/sdk/ndk/27.0.12077973".to_string())
    );
    // Equal versions: the last one wins.
    let ties = vec!["27.0".to_string(), "27.00".to_string()];
    assert_eq!(latest_ndk_index(&ties), Some(1));
    assert_eq!(latest_ndk_index(&vec!["x".to_string()]), None);
}

#[test]
fn targets_with_defaults() {
    let d = default_android_targets();
    assert_eq!(get_targets_with_defaults(None, &d).unwrap(), d);
    let configured = vec!["aarch64-apple-ios".to_string()];
    assert_eq!(
        get_targets_with_defaults(Some(&configured), &d).unwrap(),
        vec![Target::Ios(Identifier::Arm64)]
    );
    let bad = vec!["aarch64-apple-ios".to_string(), "bogus".to_string()];
    assert!(matches!(get_targets_with_defaults(Some(&bad), &d), Err(ToolchainError::InvalidTarget(v)) if v == "bogus"));
    let all = get_build_targets(None, None).unwrap();
    assert_eq!(all.len(), 7);
    assert_eq!(all[4], Target::Ios(Identifier::Arm64));
}

#[test]
fn setup_steps() {
    assert!(matches!(setup_project(0, None), SetupAction::AddTarget(Target::Android(Abi::Arm64V8a))));
    assert!(matches!(setup_project(5, None), SetupAction::AddTarget(Target::Ios(Identifier::Arm64Simulator))));
    assert!(matches!(setup_project(6, None), SetupAction::Done));
    match setup_project(4, Some("boom")) {
        SetupAction::Fail(m) => assert_eq!(m, "Failed to add target: aarch64-apple-ios\nboom"),
        _ => panic!("expected a failure"),
    }
}
