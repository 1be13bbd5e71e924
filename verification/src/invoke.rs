//! The build invoker's configuration and planning: a `TargetDep` describes
//! one sub-project build, and its invocation plan fixes the external build
//! command's arguments, the isolated target directory, and the directory
//! where descriptor files will appear.
//!
//! Running the planned command is left to the embedding program; the library
//! decides what is run and how its outcome is classified.

use crate::errors::BuildError;
use crate::paths::isolated_dir_name;
use crate::paths::path_join;
use crate::paths::spec_dir_name;
use crate::paths::spec_path_join;
use vstd::prelude::*;

verus! {

/// Configuration of one sub-project build: where its manifest lives, where
/// the produced artifact must end up, the build profile, and an optional
/// cross-compilation target triple. Immutable once planned; consumed by the
/// executor exactly once.
#[must_use]
pub struct TargetDep {
    pub manifest_path: String,
    pub output_path: String,
    pub profile: Option<String>,
    pub target: Option<String>,
    pub isolated_name: Option<String>,
}

/// Starts configuring a build of the sub-project rooted at `package_root`,
/// whose artifact must end up at `output_path`. The manifest is the
/// `Cargo.toml` under the package root; the profile defaults to `debug`.
pub fn build_target_dep(package_root: &str, output_path: &str) -> (dep: TargetDep)
    ensures
        dep.manifest_path@ == spec_path_join(package_root@, "Cargo.toml"@),
        dep.output_path@ == output_path@,
        dep.profile is None,
        dep.target is None,
        dep.isolated_name is None,
{
    TargetDep {
        manifest_path: path_join(package_root, "Cargo.toml"),
        output_path: output_path.to_owned(),
        profile: None,
        target: None,
        isolated_name: None,
    }
}

/// The profile the build runs under: the configured one, or `debug` when
/// none was set.
pub open spec fn spec_profile_name(dep: TargetDep) -> Seq<char> {
    match dep.profile {
        Some(p) => p@,
        None => "debug"@,
    }
}

/// The isolated directory's own segment: the explicit name when the caller
/// supplied one, else the name derived from the destination path.
pub open spec fn spec_isolated_segment(dep: TargetDep) -> Seq<char> {
    match dep.isolated_name {
        Some(n) => n@,
        None => spec_dir_name(dep.output_path@),
    }
}

/// The isolated target directory: the invocation's own segment nested under
/// `target-deps` inside the parent build's scratch root.
pub open spec fn spec_target_dir(dep: TargetDep, scratch_root: Seq<char>) -> Seq<char> {
    spec_path_join(spec_path_join(scratch_root, "target-deps"@), spec_isolated_segment(dep))
}

/// The directory inside the target directory where the build drops its
/// artifacts and descriptor files: the target-triple segment when
/// cross-compiling, then the profile segment.
pub open spec fn spec_output_dir(dep: TargetDep, target_dir: Seq<char>) -> Seq<char> {
    let base = match dep.target {
        Some(t) => spec_path_join(target_dir, t@),
        None => target_dir,
    };
    spec_path_join(base, spec_profile_name(dep))
}

/// The external build command's arguments: build the configured manifest
/// under the configured profile into the isolated target directory, with the
/// cross-compile target appended when one was set.
pub open spec fn spec_command_args(dep: TargetDep, target_dir: Seq<char>) -> Seq<Seq<char>> {
    let base = seq![
        "build"@,
        "--manifest-path"@,
        dep.manifest_path@,
        "--profile"@,
        spec_profile_name(dep),
        "--target-dir"@,
        target_dir,
    ];
    match dep.target {
        Some(t) => base + seq!["--target"@, t@],
        None => base,
    }
}

/// Everything the executor needs to run one sub-project build: the argument
/// list for the external build tool, the isolated target directory it is
/// pointed at, and the directory where descriptor files will appear on
/// success.
pub struct InvocationPlan {
    pub args: Vec<String>,
    pub target_dir: String,
    pub output_dir: String,
}

impl TargetDep {
    /// Switches the build to the optimized `release` profile.
    pub fn release(self) -> (r: Self)
        ensures
            r.profile matches Some(p) && p@ == "release"@,
            r.manifest_path == self.manifest_path,
            r.output_path == self.output_path,
            r.target == self.target,
            r.isolated_name == self.isolated_name,
    {
        let TargetDep { manifest_path, output_path, profile: _, target, isolated_name } = self;
        TargetDep {
            manifest_path,
            output_path,
            profile: Some("release".to_owned()),
            target,
            isolated_name,
        }
    }

    /// Sets a cross-compilation target triple.
    pub fn target(self, target: String) -> (r: Self)
        ensures
            r.target matches Some(t) && t == target,
            r.manifest_path == self.manifest_path,
            r.output_path == self.output_path,
            r.profile == self.profile,
            r.isolated_name == self.isolated_name,
    {
        let TargetDep { manifest_path, output_path, profile, target: _, isolated_name } = self;
        TargetDep { manifest_path, output_path, profile, target: Some(target), isolated_name }
    }

    /// Uses an explicit artifact name for the isolated output directory, in
    /// place of the name derived from the destination path.
    pub fn isolated_name(self, name: String) -> (r: Self)
        ensures
            r.isolated_name matches Some(n) && n == name,
            r.manifest_path == self.manifest_path,
            r.output_path == self.output_path,
            r.profile == self.profile,
            r.target == self.target,
    {
        let TargetDep { manifest_path, output_path, profile, target, isolated_name: _ } = self;
        TargetDep { manifest_path, output_path, profile, target, isolated_name: Some(name) }
    }

    /// The path of the sub-project's manifest.
    pub fn manifest(&self) -> (r: &String)
        ensures
            r == &self.manifest_path,
    {
        &self.manifest_path
    }

    /// The destination the artifact must end up at.
    pub fn destination(&self) -> (r: &String)
        ensures
            r == &self.output_path,
    {
        &self.output_path
    }

    /// The name of the profile the build runs under.
    pub fn profile_name(&self) -> (r: String)
        ensures
            r@ == spec_profile_name(*self),
    {
        match &self.profile {
            Some(p) => p.clone(),
            None => "debug".to_owned(),
        }
    }

    /// The configured cross-compilation target, if any.
    pub fn cross_target(&self) -> (r: &Option<String>)
        ensures
            r == &self.target,
    {
        &self.target
    }

    /// Plans the external build invocation relative to the parent build's
    /// scratch root.
    pub fn invocation_plan(&self, scratch_root: &str) -> (plan: InvocationPlan)
        ensures
            plan.target_dir@ == spec_target_dir(*self, scratch_root@),
            plan.args.deep_view() == spec_command_args(*self, plan.target_dir@),
            plan.output_dir@ == spec_output_dir(*self, plan.target_dir@),
    {
        let scratch = path_join(scratch_root, "target-deps");
        let segment = match &self.isolated_name {
            Some(n) => n.clone(),
            None => isolated_dir_name(self.output_path.as_str()),
        };
        let target_dir = path_join(scratch.as_str(), segment.as_str());
        let profile = self.profile_name();

        let mut args: Vec<String> = Vec::new();
        args.push("build".to_owned());
        args.push("--manifest-path".to_owned());
        args.push(self.manifest_path.clone());
        args.push("--profile".to_owned());
        args.push(profile.clone());
        args.push("--target-dir".to_owned());
        args.push(target_dir.clone());
        if let Some(t) = &self.target {
            args.push("--target".to_owned());
            args.push(t.clone());
        }
        proof {
            assert(args.deep_view() =~= spec_command_args(*self, target_dir@));
        }

        let base = match &self.target {
            Some(t) => path_join(target_dir.as_str(), t.as_str()),
            None => target_dir.clone(),
        };
        let output_dir = path_join(base.as_str(), profile.as_str());
        InvocationPlan { args, target_dir, output_dir }
    }
}

/// Classifies a required configuration value the parent build environment
/// was asked for: absent means a fatal configuration error naming the key.
pub fn require_config(key: &str, value: Option<String>) -> (r: Result<String, BuildError>)
    ensures
        r is Ok <==> value is Some,
        r matches Ok(v) ==> value matches Some(w) && v == w,
        r matches Err(e) ==> e matches BuildError::Configuration { key: k } && k@ == key@,
{
    match value {
        Some(v) => Ok(v),
        None => Err(BuildError::Configuration { key: key.to_owned() }),
    }
}

/// Classifies the external build's outcome: success passes, anything else is
/// a fatal build failure naming the sub-project's manifest and the observed
/// exit code.
pub fn check_build_status(manifest: &str, success: bool, code: Option<i32>) -> (r: Result<
    (),
    BuildError,
>)
    ensures
        r is Ok <==> success,
        r matches Err(e) ==> e matches BuildError::BuildFailure { manifest: m, code: c } && m@
            == manifest@ && c == code,
{
    if success {
        Ok(())
    } else {
        Err(BuildError::BuildFailure { manifest: manifest.to_owned(), code })
    }
}

} // verus!
