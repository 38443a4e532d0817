//! The validate phase: refuses to stow over anything that stowaway does not manage.
use vstd::prelude::*;

use crate::context::StowawayContext;
use crate::error::StowawayError;
use crate::file_entry::{entries_view, FileEntryView};
use crate::lifecycle::LifecyclePhase;
use crate::text::{concat, decimal, push_decimal};
use crate::validation::{
    conflict_of, is_managed, ConflictType, FileSystemValidator, PathState, Validator,
};

verus! {

/// What stands at a target blocks stowing: anything but nothing at all or a
/// link into a stowaway store.
pub open spec fn is_blocking(st: PathState) -> bool {
    conflict_of(st) != ConflictType::NoConflict && !(conflict_of(st) == ConflictType::SymlinkExists
        && is_managed(st))
}

/// The name of a kind of conflict.
pub open spec fn conflict_name(c: ConflictType) -> Seq<char> {
    match c {
        ConflictType::NoConflict => "None"@,
        ConflictType::FileExists => "FileExists"@,
        ConflictType::DirectoryExists => "DirectoryExists"@,
        ConflictType::SymlinkExists => "SymlinkExists"@,
        ConflictType::PermissionDenied => "PermissionDenied"@,
    }
}

/// One line per blocked target, `<target>: <conflict>`, in the order of the files.
pub open spec fn conflict_lines(files: Seq<FileEntryView>, states: Seq<PathState>) -> Seq<Seq<char>>
    decreases states.len(),
{
    if states.len() == 0 {
        Seq::empty()
    } else {
        let init = conflict_lines(files, states.drop_last());
        let i = states.len() - 1;
        if is_blocking(states[i]) {
            init.push(files[i].target_path + ": "@ + conflict_name(conflict_of(states[i])))
        } else {
            init
        }
    }
}

/// The lines separated by newlines.
pub open spec fn join_lines(lines: Seq<Seq<char>>) -> Seq<char>
    decreases lines.len(),
{
    if lines.len() == 0 {
        Seq::empty()
    } else if lines.len() == 1 {
        lines[0]
    } else {
        join_lines(lines.drop_last()) + "\n"@ + lines.last()
    }
}

/// The message of the conflicts described by `lines`.
pub open spec fn conflicts_message(lines: Seq<Seq<char>>) -> Seq<char> {
    "Found "@ + decimal(lines.len()) + " conflicts:\n"@ + join_lines(lines)
}

/// The name of `c`.
fn conflict_name_exec(c: ConflictType) -> (r: &'static str)
    ensures
        r@ == conflict_name(c),
{
    proof {
        reveal_strlit("None");
        reveal_strlit("FileExists");
        reveal_strlit("DirectoryExists");
        reveal_strlit("SymlinkExists");
        reveal_strlit("PermissionDenied");
    }
    match c {
        ConflictType::NoConflict => "None",
        ConflictType::FileExists => "FileExists",
        ConflictType::DirectoryExists => "DirectoryExists",
        ConflictType::SymlinkExists => "SymlinkExists",
        ConflictType::PermissionDenied => "PermissionDenied",
    }
}

/// Checks that no target is taken by something stowaway does not manage.
pub struct ValidatePhase;

impl LifecyclePhase for ValidatePhase {
    /// What the file system showed at the target path of each file, in order.
    type Observation = Vec<PathState>;

    type Outcome = ();

    open spec fn accepts(&self, context: &StowawayContext, observed: &Vec<PathState>) -> bool {
        observed.len() == context.files.len()
    }

    /// Succeeds exactly when no target is blocked; otherwise fails with a
    /// conflict that counts and lists the blocked targets.
    fn execute(&self, context: &mut StowawayContext, observed: Vec<PathState>) -> (r: Result<(), StowawayError>)
        ensures
            *final(context) == *old(context),
            conflict_lines(entries_view(old(context).files@), observed@).len() == 0 ==> r is Ok,
            conflict_lines(entries_view(old(context).files@), observed@).len() > 0 ==> (r matches Err(
                StowawayError::Conflict(m),
            ) && m@ == conflicts_message(conflict_lines(entries_view(old(context).files@), observed@))),
    {
        let validator = FileSystemValidator;
        let ghost files = entries_view(context.files@);
        let mut joined = String::new();
        let mut count: usize = 0;
        let mut i: usize = 0;
        while i < context.files.len()
            invariant
                i <= context.files.len(),
                observed.len() == context.files.len(),
                files == entries_view(context.files@),
                count == conflict_lines(files, observed@.take(i as int)).len(),
                count <= i,
                joined@ == join_lines(conflict_lines(files, observed@.take(i as int))),
            decreases context.files.len() - i,
        {
            let entry = &context.files[i];
            let result = match validator.validate_path(entry.target_path.as_str(), &observed[i]) {
                Ok(v) => v,
                Err(e) => return Err(e),
            };
            let blocking = match result.conflict_type {
                ConflictType::NoConflict => false,
                ConflictType::SymlinkExists => !result.is_managed,
                _ => true,
            };
            proof {
                let t = observed@.take(i + 1);
                assert(t.drop_last() =~= observed@.take(i as int));
                assert(t[i as int] == observed@[i as int]);
                assert(blocking == is_blocking(observed@[i as int]));
                assert(files[i as int].target_path == entry.target_path@);
            }
            if blocking {
                let line_start = concat(entry.target_path.as_str(), ": ");
                let line = concat(line_start.as_str(), conflict_name_exec(result.conflict_type));
                if count > 0 {
                    joined.append("\n");
                }
                joined.append(line.as_str());
                proof {
                    reveal_strlit(": ");
                    reveal_strlit("\n");
                    let lines = conflict_lines(files, observed@.take(i + 1));
                    assert(lines.drop_last() == conflict_lines(files, observed@.take(i as int)));
                    assert(lines.last() == line@);
                    assert(joined@ =~= join_lines(lines));
                }
                count = count + 1;
            }
            i = i + 1;
        }
        assert(observed@.take(context.files.len() as int) =~= observed@);
        if count == 0 {
            return Ok(());
        }
        let mut msg = "Found ".to_owned();
        push_decimal(&mut msg, count as u64);
        msg.append(" conflicts:\n");
        msg.append(joined.as_str());
        proof {
            reveal_strlit("Found ");
            reveal_strlit(" conflicts:\n");
            assert(msg@ =~= conflicts_message(conflict_lines(files, observed@)));
        }
        Err(StowawayError::Conflict(msg))
    }
}

} // verus!
