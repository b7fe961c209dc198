//! Build artifacts and where they go: the sources, headers and libraries a target's build
//! leaves, the names libraries are copied under, and the platform directories.
use vstd::prelude::*;
use vstd::string::*;
use crate::text::{contains_str, contains_sub, copy_str, replace_all, replace_str, views};
use crate::toolchain::{joined_path, path_join};

verus! {

/// A kind of build artifact.
#[derive(Debug, Clone, Copy, PartialEq, Eq, Structural)]
pub enum ArtifactType {
    Src,
    Header,
    Lib,
}

/// The artifacts of one target's build (paths).
pub struct Artifacts {
    pub srcs: Vec<String>,
    pub headers: Vec<String>,
    pub libs: Vec<String>,
}

impl Artifacts {
    /// The artifacts of one kind.
    pub fn path_of(&self, artifact_type: ArtifactType) -> (r: &Vec<String>)
        ensures
            r@ == match artifact_type {
                ArtifactType::Src => self.srcs@,
                ArtifactType::Header => self.headers@,
                ArtifactType::Lib => self.libs@,
            },
    {
        match artifact_type {
            ArtifactType::Src => &self.srcs,
            ArtifactType::Header => &self.headers,
            ArtifactType::Lib => &self.libs,
        }
    }
}

/// The name an artifact is copied under: a library gets the `-craby` suffix before its
/// extension (every `.<ext>` in the name becomes `-craby.<ext>`); others keep their name.
pub open spec fn spec_dest_file_name(t: ArtifactType, file_name: Seq<char>, ext: Seq<char>) -> Seq<char> {
    if t == ArtifactType::Lib {
        replace_all(file_name, "."@ + ext, "-craby."@ + ext)
    } else {
        file_name
    }
}

impl ArtifactType {
    /// The name an artifact of this kind, named `file_name` with extension `ext`, is copied
    /// under.
    pub fn dest_file_name(&self, file_name: &str, ext: &str) -> (r: String)
        ensures
            r@ == spec_dest_file_name(*self, file_name@, ext@),
    {
        match self {
            ArtifactType::Lib => {
                let mut from = String::from_str(".");
                from.append(ext);
                let mut to = String::from_str("-craby.");
                to.append(ext);
                proof {
                    reveal_strlit(".");
                }
                replace_str(file_name, from.as_str(), to.as_str())
            },
            _ => copy_str(file_name),
        }
    }

    /// Whether an artifact of this kind that is already at its destination stays as it is
    /// (the generated C++ sources and headers do not depend on the target).
    pub fn keeps_existing(&self) -> (r: bool)
        ensures
            r == (*self != ArtifactType::Lib),
    {
        match self {
            ArtifactType::Lib => false,
            _ => true,
        }
    }
}

/// The XCFramework slice a target's library goes to.
pub open spec fn spec_lib_identifier(target: Seq<char>) -> Seq<char> {
    if contains_sub(target, "sim"@) {
        "ios-arm64-simulator"@
    } else {
        "ios-arm64"@
    }
}

/// The XCFramework slice of a target triple: the simulator slice for a simulator target.
pub fn get_lib_identifier(target: &str) -> (r: String)
    ensures
        r@ == spec_lib_identifier(target@),
{
    if contains_str(target, "sim") {
        String::from_str("ios-arm64-simulator")
    } else {
        String::from_str("ios-arm64")
    }
}

/// The targets among `targets` whose triple holds `word`, in order.
pub open spec fn targets_with(targets: Seq<Seq<char>>, word: Seq<char>) -> Seq<Seq<char>> {
    targets.filter(|t: Seq<char>| contains_sub(t, word))
}

fn filter_targets(targets: &Vec<String>, word: &str) -> (r: Vec<String>)
    ensures
        views(r@) == targets_with(views(targets@), word@),
{
    let ghost tv = views(targets@);
    let n = targets.len();
    let mut out: Vec<String> = Vec::new();
    let mut i: usize = 0;
    assert(tv.take(0).filter(|t: Seq<char>| contains_sub(t, word@)) =~= Seq::<Seq<char>>::empty());
    while i < n
        invariant
            n == targets@.len(),
            tv == views(targets@),
            i <= n,
            views(out@) == tv.take(i as int).filter(|t: Seq<char>| contains_sub(t, word@)),
        decreases n - i,
    {
        assert(tv.take(i + 1).drop_last() =~= tv.take(i as int));
        assert(tv.take(i + 1).last() == targets@[i as int]@);
        proof {
            tv.take(i as int).lemma_filter_push(tv[i as int], |t: Seq<char>| contains_sub(t, word@));
            assert(tv.take(i + 1) =~= tv.take(i as int).push(tv[i as int]));
        }
        if contains_str(targets[i].as_str(), word) {
            let ghost b = views(out@);
            out.push(copy_str(targets[i].as_str()));
            assert(views(out@) =~= b.push(targets@[i as int]@));
        }
        i = i + 1;
    }
    assert(tv.take(n as int) =~= tv);
    out
}

/// The iOS targets among the target triples.
pub fn get_ios_targets(targets: &Vec<String>) -> (r: Vec<String>)
    ensures
        views(r@) == targets_with(views(targets@), "ios"@),
{
    filter_targets(targets, "ios")
}

/// The Android targets among the target triples.
pub fn get_android_targets(targets: &Vec<String>) -> (r: Vec<String>)
    ensures
        views(r@) == targets_with(views(targets@), "android"@),
{
    filter_targets(targets, "android")
}

/// Where the Android ABI libraries go: `<root>/android/src/libs`.
pub fn abi_base_path(project_root: &str) -> (r: String)
    ensures
        r@ == joined_path(joined_path(joined_path(project_root@, "android"@), "src"@), "libs"@),
{
    let p = path_join(project_root, "android");
    let p = path_join(p.as_str(), "src");
    path_join(p.as_str(), "libs")
}

/// Where the iOS files go: `<root>/ios`.
pub fn ios_base_path(project_root: &str) -> (r: String)
    ensures
        r@ == joined_path(project_root@, "ios"@),
{
    path_join(project_root, "ios")
}

/// A generated header with its include of `rust/cxx.h` pointed at `cxx.h`.
pub fn replace_cxx_header(content: &str) -> (r: String)
    ensures
        r@ == replace_all(content@, "\"rust/cxx.h\""@, "\"cxx.h\""@),
{
    proof {
        reveal_strlit("\"rust/cxx.h\"");
    }
    replace_str(content, "\"rust/cxx.h\"", "\"cxx.h\"")
}

} // verus!
