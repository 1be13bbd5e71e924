//! The artifact relocator's planning: classifying what the build left in the
//! isolated output directory, and turning one descriptor line into the move
//! to perform and the rebuild triggers to announce.
//!
//! The filesystem actions themselves (enumerating `*.d` files, reading them,
//! renaming the artifact, printing the announcements) are performed by the
//! embedding program, exactly as planned here.

use crate::descriptor::parse_descriptor_line;
use crate::descriptor::split_fields;
use crate::errors::BuildError;
use crate::paths::file_name;
use crate::paths::path_join;
use crate::paths::spec_file_name;
use crate::paths::spec_path_join;
use vstd::prelude::*;
use vstd::string::StringExecFns;

verus! {

/// The fixed prefix of a rebuild-trigger announcement.
pub open spec fn spec_trigger_prefix() -> Seq<char> {
    "cargo:rerun-if-changed="@
}

/// One rebuild-trigger announcement: the fixed prefix followed by the
/// prerequisite path.
pub fn rerun_trigger(path: &str) -> (r: String)
    ensures
        r@ == spec_trigger_prefix() + path@,
{
    "cargo:rerun-if-changed=".to_owned().concat(path)
}

/// Classifies the descriptor discovery: finding no descriptor file in the
/// expected output directory means the sub-build produced nothing there, a
/// fatal discovery failure naming that directory.
pub fn check_descriptors_found(dir: &str, count: usize) -> (r: Result<(), BuildError>)
    ensures
        r is Ok <==> count > 0,
        r matches Err(e) ==> e matches BuildError::Discovery { dir: d } && d@ == dir@,
{
    if count == 0 {
        Err(BuildError::Discovery { dir: dir.to_owned() })
    } else {
        Ok(())
    }
}

/// Classifies a descriptor file's content as handed over by the reader: an
/// unreadable or non-text file has no content and is a malformed descriptor.
pub fn descriptor_content(file: &str, content: Option<String>) -> (r: Result<String, BuildError>)
    ensures
        r is Ok <==> content is Some,
        r matches Ok(c) ==> content matches Some(w) && c == w,
        r matches Err(e) ==> e matches BuildError::MalformedDescriptor { file: f } && f@ == file@,
{
    match content {
        Some(c) => Ok(c),
        None => Err(BuildError::MalformedDescriptor { file: file.to_owned() }),
    }
}

/// The outcome of planning one descriptor: where the artifact now lies, the
/// exact path it must be moved to, and the rebuild triggers to announce, in
/// descriptor order.
#[derive(Debug)]
pub struct RelocationPlan {
    pub source: String,
    pub destination: String,
    pub triggers: Vec<String>,
}

/// The destination the artifact moves to: under a directory destination the
/// artifact keeps its own file name; an exact-path destination is used as
/// given.
pub open spec fn spec_move_destination(
    destination: Seq<char>,
    dest_is_dir: bool,
    out: Seq<char>,
) -> Seq<char> {
    if dest_is_dir {
        spec_path_join(destination, spec_file_name(out))
    } else {
        destination
    }
}

/// Move semantics under a directory destination: the planned final path
/// keeps the artifact's own file name. Whether the artifact then exists at
/// that path and nowhere else is the rename primitive's guarantee, performed
/// by the executor.
pub proof fn lemma_dir_destination_keeps_name(destination: Seq<char>, out: Seq<char>)
    ensures
        spec_file_name(spec_move_destination(destination, true, out)) == spec_file_name(out),
{
    crate::paths::lemma_file_name_no_slash(out);
    crate::paths::lemma_file_name_of_join(destination, spec_file_name(out));
}

/// Plans the relocation demanded by one descriptor line: the declared output
/// becomes the source of the move, the destination is resolved against the
/// configured mode, and every prerequisite becomes one rebuild trigger, in
/// the order the line declares them. Fails exactly when the line's first
/// field does not end with the `:` separator, naming the descriptor `file`.
pub fn relocation_plan(file: &str, line: &str, destination: &str, dest_is_dir: bool) -> (r: Result<
    RelocationPlan,
    BuildError,
>)
    ensures
        r is Ok <==> {
            let first = split_fields(line@)[0];
            first.len() > 0 && first.last() == ':'
        },
        r matches Ok(plan) ==> {
            let out = split_fields(line@)[0].drop_last();
            &&& plan.source@ == out
            &&& plan.destination@ == spec_move_destination(destination@, dest_is_dir, out)
            &&& plan.triggers.deep_view() == split_fields(line@).skip(1).map_values(
                |d: Seq<char>| spec_trigger_prefix() + d,
            )
        },
        r matches Err(e) ==> e matches BuildError::MalformedDescriptor { file: f } && f@ == file@,
{
    let (out, deps) = match parse_descriptor_line(file, line) {
        Ok(p) => p,
        Err(e) => {
            return Err(e);
        },
    };
    let dest = if dest_is_dir {
        let name = file_name(out.as_str());
        path_join(destination, name.as_str())
    } else {
        destination.to_owned()
    };
    let mut triggers: Vec<String> = Vec::new();
    let mut i: usize = 0;
    proof {
        assert(triggers.deep_view() =~= deps.deep_view().take(0).map_values(
            |d: Seq<char>| spec_trigger_prefix() + d,
        ));
    }
    while i < deps.len()
        invariant
            i <= deps.len(),
            triggers.deep_view() == deps.deep_view().take(i as int).map_values(
                |d: Seq<char>| spec_trigger_prefix() + d,
            ),
        decreases deps.len() - i,
    {
        let t = rerun_trigger(deps[i].as_str());
        let ghost old_triggers = triggers.deep_view();
        triggers.push(t);
        proof {
            assert(triggers.deep_view() =~= old_triggers.push(t@));
            assert(deps.deep_view()[i as int] == deps@[i as int]@);
            assert(t@ == spec_trigger_prefix() + deps.deep_view()[i as int]);
            assert(triggers.deep_view() =~= deps.deep_view().take(i + 1).map_values(
                |d: Seq<char>| spec_trigger_prefix() + d,
            ));
        }
        i = i + 1;
    }
    proof {
        assert(deps.deep_view().take(i as int) =~= deps.deep_view());
    }
    Ok(RelocationPlan { source: out, destination: dest, triggers })
}

} // verus!
