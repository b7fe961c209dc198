//! Setting up the Rust toolchain of a new project: the targets that `rustup target add`
//! installs, one at a time, and what is reported when one fails.
use vstd::prelude::*;
use vstd::string::*;
use crate::toolchain::{Abi, Identifier, Target, spec_target_str};

verus! {

/// The targets installed, in order.
pub open spec fn spec_setup_targets() -> Seq<Target> {
    seq![
        Target::Android(Abi::Arm64V8a),
        Target::Android(Abi::ArmeAbiV7a),
        Target::Android(Abi::X86_64),
        Target::Android(Abi::X86),
        Target::Ios(Identifier::Arm64),
        Target::Ios(Identifier::Arm64Simulator),
    ]
}

pub fn setup_targets() -> (r: Vec<Target>)
    ensures
        r@ == spec_setup_targets(),
{
    let mut r: Vec<Target> = Vec::new();
    r.push(Target::Android(Abi::Arm64V8a));
    r.push(Target::Android(Abi::ArmeAbiV7a));
    r.push(Target::Android(Abi::X86_64));
    r.push(Target::Android(Abi::X86));
    r.push(Target::Ios(Identifier::Arm64));
    r.push(Target::Ios(Identifier::Arm64Simulator));
    assert(r@ =~= spec_setup_targets());
    r
}

/// What the setup does next.
#[derive(Debug)]
pub enum SetupAction {
    /// Run `rustup target add` with this target.
    AddTarget(Target),
    /// Every target is installed.
    Done,
    /// Stop with this message.
    Fail(String),
}

/// The message of a failed `rustup target add`.
pub open spec fn spec_setup_failure(t: Target, stderr: Seq<char>) -> Seq<char> {
    "Failed to add target: "@ + spec_target_str(t) + "\n"@ + stderr
}

/// The next step of the setup, after `added` targets were installed; `failed_stderr` holds
/// what `rustup` printed where the last attempt (on target number `added`) failed.
pub fn setup_project(added: usize, failed_stderr: Option<&str>) -> (r: SetupAction)
    requires
        added <= spec_setup_targets().len(),
        failed_stderr is Some ==> added < spec_setup_targets().len(),
    ensures
        failed_stderr matches Some(e) ==> (r matches SetupAction::Fail(m) && m@ == spec_setup_failure(
            spec_setup_targets()[added as int],
            e@,
        )),
        failed_stderr is None && added < spec_setup_targets().len() ==> r == SetupAction::AddTarget(
            spec_setup_targets()[added as int],
        ),
        failed_stderr is None && added == spec_setup_targets().len() ==> r == SetupAction::Done,
{
    let targets = setup_targets();
    match failed_stderr {
        Some(e) => {
            let t = targets[added];
            let mut m = String::from_str("Failed to add target: ");
            m.append(t.to_str());
            m.append("\n");
            m.append(e);
            SetupAction::Fail(m)
        },
        None => {
            if added < targets.len() {
                SetupAction::AddTarget(targets[added])
            } else {
                SetupAction::Done
            }
        },
    }
}

} // verus!
