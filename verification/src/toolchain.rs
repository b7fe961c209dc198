//! Build targets: Rust target triples, Android ABIs and the iOS library identifiers of the
//! XCFramework, with the names the toolchains know them by.
use vstd::prelude::*;
use vstd::string::*;
use crate::text::{spec_decimal, decimal, str_eq, copy_str};

verus! {

/// The lowest Android SDK level the NDK compilers target (React Native's `minSdkVersion`).
pub const MIN_SDK_VERSION: u8 = 23;

/// An Android ABI.
#[derive(Debug, Clone, Copy, PartialEq, Eq, Structural)]
pub enum Abi {
    Arm64V8a,
    ArmeAbiV7a,
    X86_64,
    X86,
}

/// An iOS library flavour.
#[derive(Debug, Clone, Copy, PartialEq, Eq, Structural)]
pub enum Identifier {
    /// For device
    Arm64,
    /// For simulator (arm64)
    Arm64Simulator,
    /// For simulator (x86_64)
    X86_64Simulator,
    /// For the XCFramework identifier (arm64 + x86_64 simulator libraries combined by `lipo`)
    Simulator,
}

/// A target that the Rust crate is compiled for.
#[derive(Debug, Clone, Copy, PartialEq, Eq, Structural)]
pub enum Target {
    Android(Abi),
    Ios(Identifier),
}

/// Errors about build targets and toolchains.
#[derive(Debug)]
pub enum ToolchainError {
    /// A text that names no build target.
    InvalidTarget(String),
    /// An identifier that names no XCFramework library.
    InvalidIdentifier,
    /// An operating system without a prebuilt NDK toolchain.
    UnsupportedOs(String),
}

/// Whether a target is one that Rust can build for (the combined simulator identifier only
/// names an XCFramework slice).
pub open spec fn is_build_target(t: Target) -> bool {
    t != Target::Ios(Identifier::Simulator)
}

/// Target triple of an Android ABI.
pub open spec fn spec_android_triple(abi: Abi) -> Seq<char> {
    match abi {
        Abi::Arm64V8a => "aarch64-linux-android"@,
        Abi::ArmeAbiV7a => "armv7-linux-androideabi"@,
        Abi::X86_64 => "x86_64-linux-android"@,
        Abi::X86 => "i686-linux-android"@,
    }
}

/// Rust target triple of a build target.
pub open spec fn spec_target_str(t: Target) -> Seq<char> {
    match t {
        Target::Android(abi) => spec_android_triple(abi),
        Target::Ios(Identifier::Arm64) => "aarch64-apple-ios"@,
        Target::Ios(Identifier::Arm64Simulator) => "aarch64-apple-ios-sim"@,
        Target::Ios(Identifier::X86_64Simulator) => "x86_64-apple-ios"@,
        Target::Ios(Identifier::Simulator) => Seq::empty(),
    }
}

/// The build target that a target triple names, if any.
pub open spec fn spec_parse_target(s: Seq<char>) -> Option<Target> {
    if s == "aarch64-linux-android"@ {
        Some(Target::Android(Abi::Arm64V8a))
    } else if s == "armv7-linux-androideabi"@ {
        Some(Target::Android(Abi::ArmeAbiV7a))
    } else if s == "x86_64-linux-android"@ {
        Some(Target::Android(Abi::X86_64))
    } else if s == "i686-linux-android"@ {
        Some(Target::Android(Abi::X86))
    } else if s == "aarch64-apple-ios"@ {
        Some(Target::Ios(Identifier::Arm64))
    } else if s == "aarch64-apple-ios-sim"@ {
        Some(Target::Ios(Identifier::Arm64Simulator))
    } else if s == "x86_64-apple-ios"@ {
        Some(Target::Ios(Identifier::X86_64Simulator))
    } else {
        None
    }
}

/// Directory name of an Android ABI (`jniLibs/<abi>`).
pub open spec fn spec_abi_str(abi: Abi) -> Seq<char> {
    match abi {
        Abi::Arm64V8a => "arm64-v8a"@,
        Abi::ArmeAbiV7a => "armeabi-v7a"@,
        Abi::X86_64 => "x86_64"@,
        Abi::X86 => "x86"@,
    }
}

/// Prefix of the NDK clang binaries of an ABI.
pub open spec fn spec_clang_prefix(abi: Abi) -> Seq<char> {
    match abi {
        Abi::Arm64V8a => "aarch64-linux-android"@,
        Abi::ArmeAbiV7a => "armv7a-linux-androideabi"@,
        Abi::X86_64 => "x86_64-linux-android"@,
        Abi::X86 => "i686-linux-android"@,
    }
}

/// Name of the NDK clang binary of an ABI (eg. `aarch64-linux-android23-clang++`).
pub open spec fn spec_clang_name(abi: Abi, cxx: bool) -> Seq<char> {
    spec_clang_prefix(abi) + spec_decimal(MIN_SDK_VERSION as nat) + if cxx {
        "-clang++"@
    } else {
        "-clang"@
    }
}

/// Suffix of the `CC_*`, `CXX_*` and `AR_*` variables that the `cc` crate reads for an ABI.
pub open spec fn spec_env_suffix(abi: Abi) -> Seq<char> {
    match abi {
        Abi::Arm64V8a => "aarch64_linux_android"@,
        Abi::ArmeAbiV7a => "armv7_linux_androideabi"@,
        Abi::X86_64 => "x86_64_linux_android"@,
        Abi::X86 => "i686_linux_android"@,
    }
}

/// Directory name of an XCFramework library, for the identifiers that name one.
pub open spec fn spec_identifier_str(id: Identifier) -> Option<Seq<char>> {
    match id {
        Identifier::Arm64 => Some("ios-arm64"@),
        Identifier::Simulator => Some("ios-arm64_x86_64-simulator"@),
        _ => None,
    }
}

/// The triple the NDK names an ABI's compilers by: the Rust target triple, with `armv7a` for
/// `armv7` on armeabi-v7a.
pub open spec fn ndk_triple(abi: Abi) -> Seq<char> {
    let t = spec_target_str(Target::Android(abi));
    if abi is ArmeAbiV7a {
        t.take(5) + "a"@ + t.skip(5)
    } else {
        t
    }
}

/// The NDK clang of an ABI is named by the ABI's triple, the minimum API level 23 and
/// `-clang` (`-clang++` for C++); the `cc` variables of an ABI end with its Rust target
/// triple, `-` written `_`.
pub proof fn lemma_clang_names_follow_triples(abi: Abi, cxx: bool)
    ensures
        spec_clang_prefix(abi) == ndk_triple(abi),
        spec_clang_name(abi, cxx) == ndk_triple(abi) + "23"@ + if cxx {
            "-clang++"@
        } else {
            "-clang"@
        },
        spec_env_suffix(abi) == spec_target_str(Target::Android(abi)).map_values(|c: char| if c == '-' { '_' } else { c }),
{
    reveal_strlit("aarch64-linux-android");
    reveal_strlit("armv7-linux-androideabi");
    reveal_strlit("x86_64-linux-android");
    reveal_strlit("i686-linux-android");
    reveal_strlit("armv7a-linux-androideabi");
    reveal_strlit("aarch64_linux_android");
    reveal_strlit("armv7_linux_androideabi");
    reveal_strlit("x86_64_linux_android");
    reveal_strlit("i686_linux_android");
    reveal_strlit("a");
    reveal_strlit("23");
    let t = spec_target_str(Target::Android(abi));
    let f = |c: char| if c == '-' { '_' } else { c };
    assert(((48 + 2nat) as u8) as int == 50);
    assert(((48 + 3nat) as u8) as int == 51);
    assert(crate::text::digit_char(2) == '2');
    assert(crate::text::digit_char(3) == '3');
    assert(spec_decimal(2) == seq!['2']);
    assert(spec_decimal(23) == spec_decimal(2).push(crate::text::digit_char(3)));
    assert(spec_decimal(23) =~= "23"@);
    match abi {
        Abi::ArmeAbiV7a => {
            assert(spec_clang_prefix(abi) =~= ndk_triple(abi));
            assert(spec_env_suffix(abi) =~= t.map_values(f));
        },
        _ => {
            assert(spec_env_suffix(abi) =~= t.map_values(f));
        },
    }
}

/// A parsing of a target triple gives back the target whose triple it is: the two
/// conversions between build targets and their triples are inverse.
pub proof fn lemma_target_str_round_trip(t: Target)
    requires
        is_build_target(t),
    ensures
        spec_parse_target(spec_target_str(t)) == Some(t),
{
    reveal_strlit("aarch64-linux-android");
    reveal_strlit("armv7-linux-androideabi");
    reveal_strlit("x86_64-linux-android");
    reveal_strlit("i686-linux-android");
    reveal_strlit("aarch64-apple-ios");
    reveal_strlit("aarch64-apple-ios-sim");
    reveal_strlit("x86_64-apple-ios");
    let a = "aarch64-linux-android"@;
    let b = "armv7-linux-androideabi"@;
    let c = "x86_64-linux-android"@;
    let d = "i686-linux-android"@;
    let e = "aarch64-apple-ios"@;
    let f = "aarch64-apple-ios-sim"@;
    let g = "x86_64-apple-ios"@;
    assert(a.len() == 21 && b.len() == 23 && c.len() == 20 && d.len() == 18);
    assert(e.len() == 17 && f.len() == 21 && g.len() == 16);
    assert(a[8] != f[8]);
}

/// Distinct build targets have distinct triples.
pub proof fn lemma_target_str_injective(a: Target, b: Target)
    requires
        is_build_target(a),
        is_build_target(b),
        spec_target_str(a) == spec_target_str(b),
    ensures
        a == b,
{
    lemma_target_str_round_trip(a);
    lemma_target_str_round_trip(b);
}

impl Target {
    /// The Rust target triple.
    pub fn to_str(&self) -> (r: &str)
        requires
            is_build_target(*self),
        ensures
            r@ == spec_target_str(*self),
    {
        match self {
            Target::Android(abi) => match abi {
                Abi::Arm64V8a => "aarch64-linux-android",
                Abi::ArmeAbiV7a => "armv7-linux-androideabi",
                Abi::X86_64 => "x86_64-linux-android",
                Abi::X86 => "i686-linux-android",
            },
            Target::Ios(identifier) => match identifier {
                Identifier::Arm64 => "aarch64-apple-ios",
                Identifier::Arm64Simulator => "aarch64-apple-ios-sim",
                _ => "x86_64-apple-ios",
            },
        }
    }

    /// The build target that a target triple names; `InvalidTarget` for any other text.
    pub fn try_from(value: &str) -> (r: Result<Target, ToolchainError>)
        ensures
            r matches Ok(t) ==> spec_parse_target(value@) == Some(t),
            r matches Err(e) ==> spec_parse_target(value@) is None && (e matches ToolchainError::InvalidTarget(v) && v@ == value@),
    {
        if str_eq(value, "aarch64-linux-android") {
            Ok(Target::Android(Abi::Arm64V8a))
        } else if str_eq(value, "armv7-linux-androideabi") {
            Ok(Target::Android(Abi::ArmeAbiV7a))
        } else if str_eq(value, "x86_64-linux-android") {
            Ok(Target::Android(Abi::X86_64))
        } else if str_eq(value, "i686-linux-android") {
            Ok(Target::Android(Abi::X86))
        } else if str_eq(value, "aarch64-apple-ios") {
            Ok(Target::Ios(Identifier::Arm64))
        } else if str_eq(value, "aarch64-apple-ios-sim") {
            Ok(Target::Ios(Identifier::Arm64Simulator))
        } else if str_eq(value, "x86_64-apple-ios") {
            Ok(Target::Ios(Identifier::X86_64Simulator))
        } else {
            Err(ToolchainError::InvalidTarget(copy_str(value)))
        }
    }
}

impl Abi {
    /// The ABI's directory name.
    pub fn to_str(&self) -> (r: &str)
        ensures
            r@ == spec_abi_str(*self),
    {
        match self {
            Abi::Arm64V8a => "arm64-v8a",
            Abi::ArmeAbiV7a => "armeabi-v7a",
            Abi::X86_64 => "x86_64",
            Abi::X86 => "x86",
        }
    }

    /// Name of the NDK clang (`cxx`: clang++) binary for the ABI.
    pub fn to_clang_name(&self, cxx: bool) -> (r: String)
        ensures
            r@ == spec_clang_name(*self, cxx),
            r@ == ndk_triple(*self) + "23"@ + if cxx {
                "-clang++"@
            } else {
                "-clang"@
            },
    {
        proof {
            lemma_clang_names_follow_triples(*self, cxx);
        }
        let prefix = match self {
            Abi::Arm64V8a => "aarch64-linux-android",
            Abi::ArmeAbiV7a => "armv7a-linux-androideabi",
            Abi::X86_64 => "x86_64-linux-android",
            Abi::X86 => "i686-linux-android",
        };
        let mut r = String::from_str(prefix);
        let level = decimal(MIN_SDK_VERSION as usize);
        r.append(level.as_str());
        if cxx {
            r.append("-clang++");
        } else {
            r.append("-clang");
        }
        r
    }

    /// The compiler variables for the ABI, given the NDK's `bin` directory: `CXX_<suffix>`
    /// (clang++), `CC_<suffix>` (clang) and `AR_<suffix>` (llvm-ar), in that order.
    pub fn to_env(&self, ndk_bin: &str) -> (r: Vec<(String, String)>)
        ensures
            r@.len() == 3,
            r@[0].0@ == "CXX_"@ + spec_env_suffix(*self),
            r@[0].1@ == joined_path(ndk_bin@, spec_clang_name(*self, true)),
            r@[1].0@ == "CC_"@ + spec_env_suffix(*self),
            r@[1].1@ == joined_path(ndk_bin@, spec_clang_name(*self, false)),
            r@[2].0@ == "AR_"@ + spec_env_suffix(*self),
            r@[2].1@ == joined_path(ndk_bin@, "llvm-ar"@),
    {
        let suffix = match self {
            Abi::Arm64V8a => "aarch64_linux_android",
            Abi::ArmeAbiV7a => "armv7_linux_androideabi",
            Abi::X86_64 => "x86_64_linux_android",
            Abi::X86 => "i686_linux_android",
        };
        let cxx_path = ndk_clang_path(ndk_bin, self, true);
        let cc_path = ndk_clang_path(ndk_bin, self, false);
        let ar_path = ndk_llvm_ar_path(ndk_bin);
        let mut cxx_key = String::from_str("CXX_");
        cxx_key.append(suffix);
        let mut cc_key = String::from_str("CC_");
        cc_key.append(suffix);
        let mut ar_key = String::from_str("AR_");
        ar_key.append(suffix);
        let mut r: Vec<(String, String)> = Vec::new();
        r.push((cxx_key, cxx_path));
        r.push((cc_key, cc_path));
        r.push((ar_key, ar_path));
        r
    }
}

impl Identifier {
    /// Directory name of the XCFramework library; `InvalidIdentifier` for the per-architecture
    /// simulator identifiers.
    pub fn try_into_str(&self) -> (r: Result<&str, ToolchainError>)
        ensures
            r matches Ok(s) ==> spec_identifier_str(*self) == Some(s@),
            r is Err ==> spec_identifier_str(*self) is None && r == Err::<&str, ToolchainError>(
                ToolchainError::InvalidIdentifier,
            ),
    {
        match self {
            Identifier::Arm64 => Ok("ios-arm64"),
            Identifier::Simulator => Ok("ios-arm64_x86_64-simulator"),
            _ => Err(ToolchainError::InvalidIdentifier),
        }
    }
}

/// The text of the path that `Path::join` makes of a base path and a component, under the
/// path rules of the platform the library is built for.
pub uninterp spec fn joined_path(base: Seq<char>, name: Seq<char>) -> Seq<char>;

/// Joins a path component onto a base path (std `Path::join`), as text.
#[verifier::external_body]
pub(crate) fn path_join(base: &str, name: &str) -> (r: String)
    ensures
        r@ == joined_path(base@, name@),
{
    std::path::Path::new(base).join(name).to_string_lossy().into_owned()
}

/// Path of the NDK clang (`cxx`: clang++) binary for an ABI, in the NDK's `bin` directory.
pub fn ndk_clang_path(ndk_bin: &str, abi: &Abi, cxx: bool) -> (r: String)
    ensures
        r@ == joined_path(ndk_bin@, spec_clang_name(*abi, cxx)),
{
    let name = abi.to_clang_name(cxx);
    path_join(ndk_bin, name.as_str())
}

/// Path of the NDK `llvm-ar`.
pub fn ndk_llvm_ar_path(ndk_bin: &str) -> (r: String)
    ensures
        r@ == joined_path(ndk_bin@, "llvm-ar"@),
{
    path_join(ndk_bin, "llvm-ar")
}

/// Path of the NDK `llvm-strip`.
pub fn ndk_llvm_strip_path(ndk_bin: &str) -> (r: String)
    ensures
        r@ == joined_path(ndk_bin@, "llvm-strip"@),
{
    path_join(ndk_bin, "llvm-strip")
}

/// Name of the NDK's prebuilt host directory for an operating system (`std::env::consts::OS`).
pub open spec fn spec_host_dir(os: Seq<char>) -> Option<Seq<char>> {
    if os == "macos"@ {
        Some("darwin-x86_64"@)
    } else if os == "linux"@ {
        Some("linux-x86_64"@)
    } else if os == "windows"@ {
        Some("windows-x86_64"@)
    } else {
        None
    }
}

/// The `bin` directory of the NDK's LLVM toolchain:
/// `<root>/toolchains/llvm/prebuilt/<host>/bin`.
pub open spec fn spec_ndk_bin_path(ndk_root: Seq<char>, host: Seq<char>) -> Seq<char> {
    joined_path(
        joined_path(
            joined_path(joined_path(joined_path(ndk_root, "toolchains"@), "llvm"@), "prebuilt"@),
            host,
        ),
        "bin"@,
    )
}

/// The LLVM `bin` directory of the NDK at `ndk_root` on the operating system `os`;
/// `UnsupportedOs` on a system without a prebuilt toolchain.
pub fn ndk_bin_path(ndk_root: &str, os: &str) -> (r: Result<String, ToolchainError>)
    ensures
        r matches Ok(p) ==> spec_host_dir(os@) matches Some(h) && p@ == spec_ndk_bin_path(ndk_root@, h),
        r matches Err(e) ==> spec_host_dir(os@) is None && (e matches ToolchainError::UnsupportedOs(v) && v@ == os@),
{
    let host = if str_eq(os, "macos") {
        "darwin-x86_64"
    } else if str_eq(os, "linux") {
        "linux-x86_64"
    } else if str_eq(os, "windows") {
        "windows-x86_64"
    } else {
        return Err(ToolchainError::UnsupportedOs(copy_str(os)));
    };
    let p = path_join(ndk_root, "toolchains");
    let p = path_join(p.as_str(), "llvm");
    let p = path_join(p.as_str(), "prebuilt");
    let p = path_join(p.as_str(), host);
    let p = path_join(p.as_str(), "bin");
    Ok(p)
}

} // verus!

verus! {

/// The Android targets built when the configuration names none.
pub open spec fn spec_default_android_targets() -> Seq<Target> {
    seq![
        Target::Android(Abi::Arm64V8a),
        Target::Android(Abi::ArmeAbiV7a),
        Target::Android(Abi::X86_64),
        Target::Android(Abi::X86),
    ]
}

/// The iOS targets built when the configuration names none.
pub open spec fn spec_default_ios_targets() -> Seq<Target> {
    seq![
        Target::Ios(Identifier::Arm64),
        Target::Ios(Identifier::Arm64Simulator),
        Target::Ios(Identifier::X86_64Simulator),
    ]
}

pub fn default_android_targets() -> (r: Vec<Target>)
    ensures
        r@ == spec_default_android_targets(),
{
    let mut r: Vec<Target> = Vec::new();
    r.push(Target::Android(Abi::Arm64V8a));
    r.push(Target::Android(Abi::ArmeAbiV7a));
    r.push(Target::Android(Abi::X86_64));
    r.push(Target::Android(Abi::X86));
    assert(r@ =~= spec_default_android_targets());
    r
}

pub fn default_ios_targets() -> (r: Vec<Target>)
    ensures
        r@ == spec_default_ios_targets(),
{
    let mut r: Vec<Target> = Vec::new();
    r.push(Target::Ios(Identifier::Arm64));
    r.push(Target::Ios(Identifier::Arm64Simulator));
    r.push(Target::Ios(Identifier::X86_64Simulator));
    assert(r@ =~= spec_default_ios_targets());
    r
}

/// The targets that a list of target triples names, or the first text that names none.
pub open spec fn spec_parse_targets(ss: Seq<Seq<char>>) -> Result<Seq<Target>, Seq<char>>
    decreases ss.len(),
{
    if ss.len() == 0 {
        Ok(Seq::empty())
    } else {
        match spec_parse_targets(ss.drop_last()) {
            Err(e) => Err(e),
            Ok(ts) => match spec_parse_target(ss.last()) {
                Some(t) => Ok(ts.push(t)),
                None => Err(ss.last()),
            },
        }
    }
}

proof fn lemma_parse_targets_err_extends(ss: Seq<Seq<char>>, k: int)
    requires
        0 <= k <= ss.len(),
    ensures
        spec_parse_targets(ss.take(k)) is Err ==> spec_parse_targets(ss) == spec_parse_targets(ss.take(k)),
    decreases ss.len() - k,
{
    if k < ss.len() {
        assert(ss.take(k + 1).drop_last() =~= ss.take(k));
        lemma_parse_targets_err_extends(ss, k + 1);
    } else {
        assert(ss.take(k) =~= ss);
    }
}

/// Parses every target triple of a list; `InvalidTarget` with the first text that names no
/// target.
pub fn parse_targets(ts: &Vec<String>) -> (r: Result<Vec<Target>, ToolchainError>)
    ensures
        r matches Ok(v) ==> spec_parse_targets(crate::text::views(ts@)) == Ok::<Seq<Target>, Seq<char>>(v@),
        r matches Err(e) ==> spec_parse_targets(crate::text::views(ts@)) matches Err(bad) && (e matches ToolchainError::InvalidTarget(v) && v@ == bad),
{
    let ghost ss = crate::text::views(ts@);
    let n = ts.len();
    let mut out: Vec<Target> = Vec::new();
    let mut i: usize = 0;
    while i < n
        invariant
            n == ts@.len(),
            ss == crate::text::views(ts@),
            i <= n,
            spec_parse_targets(ss.take(i as int)) == Ok::<Seq<Target>, Seq<char>>(out@),
        decreases n - i,
    {
        assert(ss.take(i + 1).drop_last() =~= ss.take(i as int));
        assert(ss.take(i + 1).last() == ts@[i as int]@);
        match Target::try_from(ts[i].as_str()) {
            Ok(t) => {
                out.push(t);
            },
            Err(e) => {
                proof {
                    lemma_parse_targets_err_extends(ss, i + 1);
                }
                return Err(e);
            },
        }
        i = i + 1;
    }
    assert(ss.take(n as int) =~= ss);
    Ok(out)
}

/// The targets that the configuration names, or `defaults` where it names none.
pub fn get_targets_with_defaults(config_targets: Option<&Vec<String>>, defaults: &[Target]) -> (r: Result<Vec<Target>, ToolchainError>)
    ensures
        config_targets is None ==> (r matches Ok(v) && v@ == defaults@),
        config_targets matches Some(ts) ==> {
            &&& r matches Ok(v) ==> spec_parse_targets(crate::text::views(ts@)) == Ok::<Seq<Target>, Seq<char>>(v@)
            &&& r matches Err(e) ==> spec_parse_targets(crate::text::views(ts@)) matches Err(bad) && (e matches ToolchainError::InvalidTarget(v) && v@ == bad)
        },
{
    match config_targets {
        Some(ts) => parse_targets(ts),
        None => {
            let mut out: Vec<Target> = Vec::new();
            let mut i: usize = 0;
            while i < defaults.len()
                invariant
                    i <= defaults@.len(),
                    out@ == defaults@.take(i as int),
                decreases defaults@.len() - i,
            {
                out.push(defaults[i]);
                i = i + 1;
                assert(out@ =~= defaults@.take(i as int));
            }
            assert(defaults@.take(defaults@.len() as int) =~= defaults@);
            Ok(out)
        },
    }
}

/// The targets to build: the Android targets, then the iOS ones, each list as configured or
/// the defaults where the configuration names none.
pub fn get_build_targets(android: Option<&Vec<String>>, ios: Option<&Vec<String>>) -> (r: Result<Vec<Target>, ToolchainError>)
    ensures
        r matches Ok(v) ==> exists|a: Seq<Target>, b: Seq<Target>| {
            &&& v@ == a + b
            &&& (match android {
                None => a == spec_default_android_targets(),
                Some(ts) => spec_parse_targets(crate::text::views(ts@)) == Ok::<Seq<Target>, Seq<char>>(a),
            })
            &&& (match ios {
                None => b == spec_default_ios_targets(),
                Some(ts) => spec_parse_targets(crate::text::views(ts@)) == Ok::<Seq<Target>, Seq<char>>(b),
            })
        },
        r is Err ==> {
            ||| (android matches Some(ts) && spec_parse_targets(crate::text::views(ts@)) is Err)
            ||| (ios matches Some(ts) && spec_parse_targets(crate::text::views(ts@)) is Err)
        },
        (android matches Some(ts) ==> spec_parse_targets(crate::text::views(ts@)) is Ok) && (ios matches Some(ts) ==> spec_parse_targets(crate::text::views(ts@)) is Ok) ==> r is Ok,
{
    let da = default_android_targets();
    let di = default_ios_targets();
    let mut a = get_targets_with_defaults(android, da.as_slice())?;
    let mut b = get_targets_with_defaults(ios, di.as_slice())?;
    let ghost av = a@;
    let ghost bv = b@;
    a.append(&mut b);
    assert(a@ == av + bv);
    Ok(a)
}

} // verus!
