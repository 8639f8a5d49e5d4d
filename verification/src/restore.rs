//! Restoring a repository to a checkpoint: the steps a restore takes and
//! how their failures are reported together.
use vstd::prelude::*;
use crate::errors::{error_text, AppError, AppResult};
use crate::models::RepoCheckpoint;
use crate::text::{ov, owned, push_str, sv};

verus! {

/// How the checkout returns to the checkpoint's head.
pub enum RestoreCheckout {
    /// Detach at the head.
    Detached,
    /// Point the branch at the head and switch to it.
    Branch(String),
}

/// A checkpoint taken on a branch returns to that branch; one taken
/// detached, or without a recorded branch, returns detached.
pub fn restore_checkout(checkpoint: &RepoCheckpoint) -> (r: RestoreCheckout)
    ensures
        checkpoint.old_is_detached || checkpoint.old_branch is None ==> r is Detached,
        !checkpoint.old_is_detached && checkpoint.old_branch is Some ==> (r matches RestoreCheckout::Branch(b)
            && b@ == checkpoint.old_branch->0@),
{
    if checkpoint.old_is_detached {
        return RestoreCheckout::Detached;
    }
    match &checkpoint.old_branch {
        Some(b) => RestoreCheckout::Branch(owned(b.as_str())),
        None => RestoreCheckout::Detached,
    }
}

/// What a restore does with the stash the checkpoint saved.
pub enum StashRestore {
    /// Nothing: no stash was saved, or restoring it was not asked for.
    Skip,
    /// Pop the stash saved under this reference.
    Apply(String),
    /// A stash was saved but its reference was not recorded.
    MissingRef,
}

pub open spec fn stash_missing(checkpoint: RepoCheckpoint, restore_stash: bool) -> bool {
    restore_stash && checkpoint.stash_created && checkpoint.stash_ref is None
}

pub fn stash_restore_step(checkpoint: &RepoCheckpoint, restore_stash: bool) -> (r: StashRestore)
    ensures
        !(restore_stash && checkpoint.stash_created) ==> r is Skip,
        stash_missing(*checkpoint, restore_stash) ==> r is MissingRef,
        restore_stash && checkpoint.stash_created && checkpoint.stash_ref is Some ==> (r matches StashRestore::Apply(s)
            && s@ == checkpoint.stash_ref->0@),
{
    if !(restore_stash && checkpoint.stash_created) {
        return StashRestore::Skip;
    }
    match &checkpoint.stash_ref {
        Some(s) => StashRestore::Apply(owned(s.as_str())),
        None => StashRestore::MissingRef,
    }
}

pub open spec fn failure_line(prefix: Seq<char>, e: Option<AppError>) -> Seq<Seq<char>> {
    match e {
        Some(x) => seq![prefix + error_text(x)],
        None => Seq::empty(),
    }
}

pub open spec fn checkout_prefix(checkpoint: RepoCheckpoint) -> Seq<char> {
    if checkpoint.old_is_detached || checkpoint.old_branch is None {
        "failed to restore detached HEAD: "@
    } else {
        "failed to restore branch '"@ + checkpoint.old_branch->0@ + "': "@
    }
}

/// The failures of a restore, in the order of its steps.
pub open spec fn restore_failures(
    checkpoint: RepoCheckpoint,
    restore_stash: bool,
    checkout_error: Option<AppError>,
    reset_error: Option<AppError>,
    stash_error: Option<AppError>,
    tracked_error: Option<AppError>,
) -> Seq<Seq<char>> {
    let steps = failure_line(checkout_prefix(checkpoint), checkout_error) + failure_line(
        "failed to reset HEAD "@ + checkpoint.old_head_sha@ + ": "@,
        reset_error,
    );
    if stash_missing(checkpoint, restore_stash) {
        steps + seq!["checkpoint indicates a stash was created but no stash reference was stored"@]
    } else {
        steps + (if restore_stash && checkpoint.stash_created {
            failure_line("failed to restore stash: "@, stash_error)
        } else {
            Seq::empty()
        }) + (if checkpoint.has_tracked_target_snapshot {
            failure_line("failed to restore tracked target metadata: "@, tracked_error)
        } else {
            Seq::empty()
        })
    }
}

pub open spec fn join_semicolon(parts: Seq<Seq<char>>) -> Seq<char>
    decreases parts.len(),
{
    if parts.len() == 0 {
        Seq::<char>::empty()
    } else if parts.len() == 1 {
        parts[0]
    } else {
        join_semicolon(parts.drop_last()) + "; "@ + parts.last()
    }
}

fn join_semicolon_exec(parts: &Vec<String>) -> (r: String)
    ensures
        r@ == join_semicolon(sv(parts@)),
{
    let mut r = String::new();
    let mut i: usize = 0;
    while i < parts.len()
        invariant
            i <= parts.len(),
            r@ == join_semicolon(sv(parts@).subrange(0, i as int)),
        decreases parts.len() - i,
    {
        let ghost next = sv(parts@).subrange(0, i + 1);
        assert(next.drop_last() == sv(parts@).subrange(0, i as int));
        assert(next.last() == parts@[i as int]@);
        if i > 0 {
            push_str(&mut r, "; ");
        }
        push_str(&mut r, parts[i].as_str());
        i = i + 1;
    }
    assert(sv(parts@).subrange(0, parts.len() as int) == sv(parts@));
    r
}

fn push_failure(out: &mut Vec<String>, prefix: &str, e: Option<&AppError>)
    ensures
        sv(final(out)@) == sv(old(out)@) + failure_line(prefix@, match e {
            Some(x) => Some(*x),
            None => None,
        }),
{
    match e {
        Some(x) => {
            let mut m = owned(prefix);
            push_str(&mut m, x.message().as_str());
            let ghost before = sv(out@);
            out.push(m);
            assert(sv(out@) =~= before + seq![m@]);
        },
        None => {
            assert(sv(out@) =~= sv(out@) + Seq::<Seq<char>>::empty());
        },
    }
}

/// The outcome of a restore whose steps failed as given: an error that
/// restoring the tracked-target record raised after a missing stash
/// reference stands as it is; otherwise every failure, in step order,
/// joined with `; ` into one git error, and success where nothing failed.
pub fn restore_outcome(
    checkpoint: &RepoCheckpoint,
    restore_stash: bool,
    checkout_error: Option<AppError>,
    reset_error: Option<AppError>,
    stash_error: Option<AppError>,
    tracked_error: Option<AppError>,
) -> (r: AppResult<()>)
    ensures
        stash_missing(*checkpoint, restore_stash) && checkpoint.has_tracked_target_snapshot
            && tracked_error is Some ==> r == Err::<(), AppError>(tracked_error.unwrap()),
        !(stash_missing(*checkpoint, restore_stash) && checkpoint.has_tracked_target_snapshot
            && tracked_error is Some) ==> ({
            let fs = restore_failures(
                *checkpoint,
                restore_stash,
                checkout_error,
                reset_error,
                stash_error,
                tracked_error,
            );
            if fs.len() == 0 {
                r is Ok
            } else {
                r matches Err(AppError::Git(m)) && m@ == join_semicolon(fs)
            }
        }),
{
    let missing = restore_stash && checkpoint.stash_created && checkpoint.stash_ref.is_none();
    if missing && checkpoint.has_tracked_target_snapshot {
        if let Some(e) = tracked_error {
            return Err(e);
        }
    }
    let mut failures: Vec<String> = Vec::new();
    let detached = checkpoint.old_is_detached || checkpoint.old_branch.is_none();
    if detached {
        push_failure(&mut failures, "failed to restore detached HEAD: ", checkout_error.as_ref());
    } else {
        let mut prefix = owned("failed to restore branch '");
        match &checkpoint.old_branch {
            Some(b) => push_str(&mut prefix, b.as_str()),
            None => {},
        }
        push_str(&mut prefix, "': ");
        push_failure(&mut failures, prefix.as_str(), checkout_error.as_ref());
    }
    let mut reset_prefix = owned("failed to reset HEAD ");
    push_str(&mut reset_prefix, checkpoint.old_head_sha.as_str());
    push_str(&mut reset_prefix, ": ");
    push_failure(&mut failures, reset_prefix.as_str(), reset_error.as_ref());
    let ghost steps = sv(failures@);
    if missing {
        let ghost before = sv(failures@);
        failures.push(owned("checkpoint indicates a stash was created but no stash reference was stored"));
        assert(sv(failures@) =~= before + seq![
            "checkpoint indicates a stash was created but no stash reference was stored"@,
        ]);
    } else {
        if restore_stash && checkpoint.stash_created {
            push_failure(&mut failures, "failed to restore stash: ", stash_error.as_ref());
        }
        let ghost mid = sv(failures@);
        if checkpoint.has_tracked_target_snapshot {
            push_failure(&mut failures, "failed to restore tracked target metadata: ", tracked_error.as_ref());
        }
        proof {
            let s1 = if restore_stash && checkpoint.stash_created {
                failure_line("failed to restore stash: "@, stash_error)
            } else {
                Seq::empty()
            };
            assert(mid =~= steps + s1);
        }
    }
    proof {
        let fs = restore_failures(
            *checkpoint,
            restore_stash,
            checkout_error,
            reset_error,
            stash_error,
            tracked_error,
        );
        assert(sv(failures@) =~= fs);
    }
    if failures.len() == 0 {
        Ok(())
    } else {
        Err(AppError::Git(join_semicolon_exec(&failures)))
    }
}

} // verus!
