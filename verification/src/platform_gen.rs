//! Platform glue templates: the Android `JNI_OnLoad` registration and `CMakeLists.txt`,
//! and the iOS module provider and XCFramework `Info.plist`.
use vstd::prelude::*;
use vstd::string::*;

verus! {

/// The Android `OnLoad.cpp`: `JNI_OnLoad` registers the module's C++ TurboModule.
pub open spec fn spec_cxx_on_load(name: Seq<char>) -> Seq<char> {
    let cxx_mod = crate::naming::spec_cxx_mod_cls_name(name);
    let flat_name = crate::case::spec_flat_case(name);
    "#include <jni.h>\n#include <ReactCommon/CxxTurboModuleUtils.h>\n#include <"@ + cxx_mod + ".hpp>\n\njint JNI_OnLoad(JavaVM *vm, void *reserved) {\n  facebook::react::registerCxxModuleToGlobalModuleMap(\n      craby::"@ + flat_name + "::"@ + cxx_mod + "::kModuleName,\n      [](std::shared_ptr<facebook::react::CallInvoker> jsInvoker) {\n        return std::make_shared<craby::"@ + flat_name + "::"@ + cxx_mod + ">(jsInvoker);\n      });\n  return JNI_VERSION_1_6;\n}\n"@
}

/// Returns the `OnLoad.cpp` source that registers the module's C++ TurboModule on Android.
pub fn cxx_on_load(name: &String) -> (out: String)
    ensures
        out@ == spec_cxx_on_load(name@),
{
    let cxx_mod = crate::naming::cxx_mod_cls_name(name.as_str());
    let flat_name = crate::case::flat_case(name.as_str());
    let mut out = String::from_str("#include <jni.h>\n#include <ReactCommon/CxxTurboModuleUtils.h>\n#include <");
    out.append(cxx_mod.as_str());
    out.append(".hpp>\n\njint JNI_OnLoad(JavaVM *vm, void *reserved) {\n  facebook::react::registerCxxModuleToGlobalModuleMap(\n      craby::");
    out.append(flat_name.as_str());
    out.append("::");
    out.append(cxx_mod.as_str());
    out.append("::kModuleName,\n      [](std::shared_ptr<facebook::react::CallInvoker> jsInvoker) {\n        return std::make_shared<craby::");
    out.append(flat_name.as_str());
    out.append("::");
    out.append(cxx_mod.as_str());
    out.append(">(jsInvoker);\n      });\n  return JNI_VERSION_1_6;\n}\n");
    out
}

/// The Android `CMakeLists.txt`.
pub open spec fn spec_cmakelists(name: Seq<char>) -> Seq<char> {
    let kebab_name = crate::case::spec_kebab_case(name);
    let lib_name = crate::naming::spec_dest_lib_name(name);
    let cls = crate::naming::spec_cxx_mod_cls_name(name);
    "cmake_minimum_required(VERSION 3.13)\n\nproject(craby-"@ + kebab_name + ")\n\nset (CMAKE_VERBOSE_MAKEFILE ON)\nset (CMAKE_CXX_STANDARD 20)\n\nfind_package(ReactAndroid REQUIRED CONFIG)\nfind_package(hermes-engine REQUIRED CONFIG)\n\n# Import the pre-built Craby library\nadd_library("@ + kebab_name + "-lib STATIC IMPORTED)\nset_target_properties("@ + kebab_name + "-lib PROPERTIES\n  IMPORTED_LOCATION \"${CMAKE_SOURCE_DIR}/src/main/jni/libs/${ANDROID_ABI}/"@ + lib_name + "\"\n)\ntarget_include_directories("@ + kebab_name + "-lib INTERFACE\n  \"${CMAKE_SOURCE_DIR}/src/main/jni/include\"\n)\n\n# Generated C++ source files by Craby\nadd_library(cxx-"@ + kebab_name + " SHARED\n  src/main/jni/OnLoad.cpp\n  src/main/jni/src/ffi.rs.cc\n  ../cpp/"@ + cls + ".cpp\n)\ntarget_include_directories(cxx-"@ + kebab_name + " PRIVATE\n  ../cpp\n)\n\ntarget_link_libraries(cxx-"@ + kebab_name + "\n  # android\n  ReactAndroid::reactnative\n  ReactAndroid::jsi\n  hermes-engine::libhermes\n  # "@ + kebab_name + "-lib\n  "@ + kebab_name + "-lib\n)\n"@
}

/// Returns the `CMakeLists.txt` that builds the module's C++ sources against the prebuilt library.
pub fn cmakelists(name: &String) -> (out: String)
    ensures
        out@ == spec_cmakelists(name@),
{
    let kebab_name = crate::case::kebab_case(name.as_str());
    let lib_name = crate::naming::dest_lib_name(name.as_str());
    let cls = crate::naming::cxx_mod_cls_name(name.as_str());
    let mut out = String::from_str("cmake_minimum_required(VERSION 3.13)\n\nproject(craby-");
    out.append(kebab_name.as_str());
    out.append(")\n\nset (CMAKE_VERBOSE_MAKEFILE ON)\nset (CMAKE_CXX_STANDARD 20)\n\nfind_package(ReactAndroid REQUIRED CONFIG)\nfind_package(hermes-engine REQUIRED CONFIG)\n\n# Import the pre-built Craby library\nadd_library(");
    out.append(kebab_name.as_str());
    out.append("-lib STATIC IMPORTED)\nset_target_properties(");
    out.append(kebab_name.as_str());
    out.append("-lib PROPERTIES\n  IMPORTED_LOCATION \"${CMAKE_SOURCE_DIR}/src/main/jni/libs/${ANDROID_ABI}/");
    out.append(lib_name.as_str());
    out.append("\"\n)\ntarget_include_directories(");
    out.append(kebab_name.as_str());
    out.append("-lib INTERFACE\n  \"${CMAKE_SOURCE_DIR}/src/main/jni/include\"\n)\n\n# Generated C++ source files by Craby\nadd_library(cxx-");
    out.append(kebab_name.as_str());
    out.append(" SHARED\n  src/main/jni/OnLoad.cpp\n  src/main/jni/src/ffi.rs.cc\n  ../cpp/");
    out.append(cls.as_str());
    out.append(".cpp\n)\ntarget_include_directories(cxx-");
    out.append(kebab_name.as_str());
    out.append(" PRIVATE\n  ../cpp\n)\n\ntarget_link_libraries(cxx-");
    out.append(kebab_name.as_str());
    out.append("\n  # android\n  ReactAndroid::reactnative\n  ReactAndroid::jsi\n  hermes-engine::libhermes\n  # ");
    out.append(kebab_name.as_str());
    out.append("-lib\n  ");
    out.append(kebab_name.as_str());
    out.append("-lib\n)\n");
    out
}

/// The iOS module provider (`+load` registers the C++ TurboModule).
pub open spec fn spec_objc_mod_provider(name: Seq<char>) -> Seq<char> {
    let cls = crate::naming::spec_cxx_mod_cls_name(name);
    let provider = crate::naming::spec_objc_mod_provider_name(name);
    let flat_name = crate::case::spec_flat_case(name);
    "#import \""@ + cls + ".hpp\"\n#import <ReactCommon/CxxTurboModuleUtils.h>\n\n@interface "@ + provider + " : NSObject\n@end\n\n@implementation "@ + provider + "\n+ (void)load {\n  facebook::react::registerCxxModuleToGlobalModuleMap(\n      craby::"@ + flat_name + "::"@ + cls + "::kModuleName,\n      [](std::shared_ptr<facebook::react::CallInvoker> jsInvoker) {\n      return std::make_shared<craby::"@ + flat_name + "::"@ + cls + ">(jsInvoker);\n      });\n}\n@end"@
}

/// Returns the Objective-C++ provider that registers the module's C++ TurboModule on iOS.
pub fn objc_mod_provider(name: &String) -> (out: String)
    ensures
        out@ == spec_objc_mod_provider(name@),
{
    let cls = crate::naming::cxx_mod_cls_name(name.as_str());
    let provider = crate::naming::objc_mod_provider_name(name.as_str());
    let flat_name = crate::case::flat_case(name.as_str());
    let mut out = String::from_str("#import \"");
    out.append(cls.as_str());
    out.append(".hpp\"\n#import <ReactCommon/CxxTurboModuleUtils.h>\n\n@interface ");
    out.append(provider.as_str());
    out.append(" : NSObject\n@end\n\n@implementation ");
    out.append(provider.as_str());
    out.append("\n+ (void)load {\n  facebook::react::registerCxxModuleToGlobalModuleMap(\n      craby::");
    out.append(flat_name.as_str());
    out.append("::");
    out.append(cls.as_str());
    out.append("::kModuleName,\n      [](std::shared_ptr<facebook::react::CallInvoker> jsInvoker) {\n      return std::make_shared<craby::");
    out.append(flat_name.as_str());
    out.append("::");
    out.append(cls.as_str());
    out.append(">(jsInvoker);\n      });\n}\n@end");
    out
}

/// The XCFramework `Info.plist` naming the device and simulator libraries.
pub open spec fn spec_info_plist(name: Seq<char>, lib_identifier: Seq<char>, lib_sim_identifier: Seq<char>) -> Seq<char> {
    let lib_name = crate::naming::spec_dest_lib_name(name);
    "<?xml version=\"1.0\" encoding=\"UTF-8\"?>\n<!DOCTYPE plist PUBLIC \"-//Apple//DTD PLIST 1.0//EN\" \"http://www.apple.com/DTDs/PropertyList-1.0.dtd\">\n<plist version=\"1.0\">\n<dict>\n    <key>AvailableLibraries</key>\n    <array>\n        <dict>\n            <key>BinaryPath</key>\n            <string>"@ + lib_name + "</string>\n            <key>LibraryIdentifier</key>\n            <string>"@ + lib_identifier + "</string>\n            <key>LibraryPath</key>\n            <string>"@ + lib_name + "</string>\n            <key>SupportedArchitectures</key>\n            <array>\n                <string>arm64</string>\n            </array>\n            <key>SupportedPlatform</key>\n            <string>ios</string>\n        </dict>\n        <dict>\n            <key>BinaryPath</key>\n            <string>"@ + lib_name + "</string>\n            <key>LibraryIdentifier</key>\n            <string>"@ + lib_sim_identifier + "</string>\n            <key>LibraryPath</key>\n            <string>"@ + lib_name + "</string>\n            <key>SupportedArchitectures</key>\n            <array>\n                <string>arm64</string>\n            </array>\n            <key>SupportedPlatform</key>\n            <string>ios</string>\n            <key>SupportedPlatformVariant</key>\n            <string>simulator</string>\n        </dict>\n    </array>\n    <key>CFBundlePackageType</key>\n    <string>XFWK</string>\n    <key>XCFrameworkFormatVersion</key>\n    <string>1.0</string>\n</dict>\n</plist>"@
}

/// Returns the `Info.plist` of the XCFramework with the device and simulator libraries.
pub fn info_plist(name: &String, lib_identifier: &str, lib_sim_identifier: &str) -> (out: String)
    ensures
        out@ == spec_info_plist(name@, lib_identifier@, lib_sim_identifier@),
{
    let lib_name = crate::naming::dest_lib_name(name.as_str());
    let mut out = String::from_str("<?xml version=\"1.0\" encoding=\"UTF-8\"?>\n<!DOCTYPE plist PUBLIC \"-//Apple//DTD PLIST 1.0//EN\" \"http://www.apple.com/DTDs/PropertyList-1.0.dtd\">\n<plist version=\"1.0\">\n<dict>\n    <key>AvailableLibraries</key>\n    <array>\n        <dict>\n            <key>BinaryPath</key>\n            <string>");
    out.append(lib_name.as_str());
    out.append("</string>\n            <key>LibraryIdentifier</key>\n            <string>");
    out.append(lib_identifier);
    out.append("</string>\n            <key>LibraryPath</key>\n            <string>");
    out.append(lib_name.as_str());
    out.append("</string>\n            <key>SupportedArchitectures</key>\n            <array>\n                <string>arm64</string>\n            </array>\n            <key>SupportedPlatform</key>\n            <string>ios</string>\n        </dict>\n        <dict>\n            <key>BinaryPath</key>\n            <string>");
    out.append(lib_name.as_str());
    out.append("</string>\n            <key>LibraryIdentifier</key>\n            <string>");
    out.append(lib_sim_identifier);
    out.append("</string>\n            <key>LibraryPath</key>\n            <string>");
    out.append(lib_name.as_str());
    out.append("</string>\n            <key>SupportedArchitectures</key>\n            <array>\n                <string>arm64</string>\n            </array>\n            <key>SupportedPlatform</key>\n            <string>ios</string>\n            <key>SupportedPlatformVariant</key>\n            <string>simulator</string>\n        </dict>\n    </array>\n    <key>CFBundlePackageType</key>\n    <string>XFWK</string>\n    <key>XCFrameworkFormatVersion</key>\n    <string>1.0</string>\n</dict>\n</plist>");
    out
}

} // verus!
