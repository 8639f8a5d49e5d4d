//! Where installs go: directory names for custom nodes, what to do with a
//! directory that is already there, and where replaced sources are kept.
use vstd::prelude::*;
use crate::errors::{AppError, AppResult};
use crate::git::{canonical_remote, canonicalize_remote, join_custom_node_path, join_path_spec};
use crate::models::ExistingRepoConflictStrategy;
use crate::paths::{path_file_name, path_file_name_spec, path_parent, path_parent_spec};
use crate::registry::trimmed_nonempty;
use crate::text::{
    chars_of, decimal, eq_ignore_ascii_case, eq_ignore_ascii_case_chars, ov, owned, push_str, str_eq, trim, trim_str,
    u64_decimal,
};

use crate::text::oqv;

verus! {


/// A requested directory name conflicts with the directory of the managed
/// repository that already has the target's remote.
pub open spec fn requested_dir_conflict(requested: Option<Seq<char>>, existing_path: Option<Seq<char>>) -> Option<Seq<char>> {
    match (trimmed_nonempty(requested), existing_path) {
        (Some(req), Some(path)) => if path_file_name_spec(path) != Some(req) {
            Some("matching repo already exists at "@ + path + "; refusing to ignore requested directory "@ + req)
        } else {
            None
        },
        _ => None,
    }
}

/// Refuses a requested directory name that differs from the name of the
/// directory where the matching repository already lives.
pub fn check_requested_dir_name(target_local_dir_name: &Option<String>, existing_local_path: Option<&str>) -> (r: AppResult<()>)
    ensures
        r is Ok <==> requested_dir_conflict(ov(*target_local_dir_name), oqv(existing_local_path)) is None,
        r matches Err(e) ==> (e matches AppError::Conflict(m) && Some(m@) == requested_dir_conflict(
            ov(*target_local_dir_name),
            oqv(existing_local_path),
        )),
{
    let requested = match crate::registry::trimmed_field(target_local_dir_name) {
        Some(r) => r,
        None => return Ok(()),
    };
    let path = match existing_local_path {
        Some(p) => p,
        None => return Ok(()),
    };
    let name = path_file_name(path);
    let same = match &name {
        Some(n) => str_eq(n.as_str(), requested.as_str()),
        None => false,
    };
    if !same {
        let mut m = String::from_str("matching repo already exists at ");
        push_str(&mut m, path);
        push_str(&mut m, "; refusing to ignore requested directory ");
        push_str(&mut m, requested.as_str());
        return Err(AppError::Conflict(m));
    }
    Ok(())
}

/// The directory name an install asks for before the registry is
/// consulted: the requested name where it is not blank, else the name of the
/// matching repository's directory (or the target's suggestion where that
/// has none); `None` where neither applies.
pub open spec fn explicit_dir_name_spec(
    requested: Option<Seq<char>>,
    existing_path: Option<Seq<char>>,
    suggested: Seq<char>,
) -> Option<Seq<char>> {
    match requested {
        Some(r) if trim(r).len() > 0 => Some(r),
        _ => match existing_path {
            Some(p) => match path_file_name_spec(p) {
                Some(n) => Some(n),
                None => Some(suggested),
            },
            None => None,
        },
    }
}

pub fn explicit_dir_name(
    target_local_dir_name: &Option<String>,
    existing_local_path: Option<&str>,
    suggested: &str,
) -> (r: Option<String>)
    ensures
        ov(r) == explicit_dir_name_spec(ov(*target_local_dir_name), oqv(existing_local_path), suggested@),
{
    if let Some(t) = target_local_dir_name {
        if trim_str(t.as_str()).as_str().unicode_len() > 0 {
            return Some(owned(t.as_str()));
        }
    }
    match existing_local_path {
        Some(p) => match path_file_name(p) {
            Some(n) => Some(n),
            None => Some(owned(suggested)),
        },
        None => None,
    }
}

/// The registry's preferred name where it gave one, else the target's
/// suggestion.
pub fn preferred_or_suggested(preferred: Option<String>, suggested: &str) -> (r: String)
    ensures
        r@ == (match ov(preferred) {
            Some(p) => p,
            None => suggested@,
        }),
{
    match preferred {
        Some(p) => p,
        None => owned(suggested),
    }
}

/// What an install does with a custom-node directory that already exists.
#[derive(Debug, Clone, Copy, PartialEq, Eq, Structural)]
pub enum ExistingDirAction {
    /// It is a git repository: patch it in place.
    PatchExistingRepo,
    /// It is a tracking-managed install: keep a backup and clone in its place.
    AdoptTrackingInstall,
    /// Remove it and clone in its place.
    ReplaceDirectory,
    /// Clone next to it, under the first free `<name>-<n>`.
    InstallWithSuffix,
}

/// The action for an existing custom-node directory, or the conflict that
/// stops the install.
pub open spec fn existing_dir_decision(
    is_git_repo: bool,
    is_tracking_managed: bool,
    adopt_tracking_install: bool,
    strategy: ExistingRepoConflictStrategy,
) -> Result<ExistingDirAction, Seq<char>> {
    if is_git_repo {
        Ok(ExistingDirAction::PatchExistingRepo)
    } else if is_tracking_managed {
        if adopt_tracking_install {
            Ok(ExistingDirAction::AdoptTrackingInstall)
        } else {
            Err("target custom node directory is a tracking-managed install; enable tracking adoption to replace it with a managed git clone"@)
        }
    } else {
        match strategy {
            ExistingRepoConflictStrategy::Abort => Err("target custom node directory already exists and is not a git repo"@),
            ExistingRepoConflictStrategy::Replace => Ok(ExistingDirAction::ReplaceDirectory),
            ExistingRepoConflictStrategy::InstallWithSuffix => Ok(ExistingDirAction::InstallWithSuffix),
        }
    }
}

pub fn existing_custom_node_dir_action(
    is_git_repo: bool,
    is_tracking_managed: bool,
    adopt_tracking_install: bool,
    strategy: ExistingRepoConflictStrategy,
) -> (r: AppResult<ExistingDirAction>)
    ensures
        r matches Ok(a) ==> existing_dir_decision(is_git_repo, is_tracking_managed, adopt_tracking_install, strategy) == Ok::<ExistingDirAction, Seq<char>>(a),
        r matches Err(e) ==> (e matches AppError::Conflict(m) && existing_dir_decision(
            is_git_repo,
            is_tracking_managed,
            adopt_tracking_install,
            strategy,
        ) == Err::<ExistingDirAction, Seq<char>>(m@)),
{
    if is_git_repo {
        return Ok(ExistingDirAction::PatchExistingRepo);
    }
    if is_tracking_managed {
        if adopt_tracking_install {
            return Ok(ExistingDirAction::AdoptTrackingInstall);
        }
        return Err(
            AppError::Conflict(
                owned(
                    "target custom node directory is a tracking-managed install; enable tracking adoption to replace it with a managed git clone",
                ),
            ),
        );
    }
    match strategy {
        ExistingRepoConflictStrategy::Abort => Err(
            AppError::Conflict(owned("target custom node directory already exists and is not a git repo")),
        ),
        ExistingRepoConflictStrategy::Replace => Ok(ExistingDirAction::ReplaceDirectory),
        ExistingRepoConflictStrategy::InstallWithSuffix => Ok(ExistingDirAction::InstallWithSuffix),
    }
}

/// `<custom_nodes>/<base>-<index>`, a candidate for an install next to an
/// existing directory.
pub fn suffixed_custom_node_path(custom_nodes_dir: &str, base_dir_name: &str, index: u64) -> (r: String)
    ensures
        r@ == join_path_spec(custom_nodes_dir@, base_dir_name@ + "-"@ + decimal(index as nat)),
{
    let mut name = owned(base_dir_name);
    push_str(&mut name, "-");
    push_str(&mut name, u64_decimal(index).as_str());
    join_custom_node_path(custom_nodes_dir, name.as_str())
}

/// The least suffix index, from `first` on, whose candidate is not taken:
/// `taken[i]` tells whether `<base>-<first + i>` already exists.
pub fn first_free_suffix(first: u64, taken: &Vec<bool>) -> (r: Option<u64>)
    requires
        first + taken.len() <= u64::MAX,
    ensures
        r is None <==> forall|i: int| 0 <= i < taken.len() ==> taken@[i],
        r matches Some(k) ==> first <= k < first + taken.len() && !taken@[k - first] && forall|i: int|
            0 <= i < k - first ==> taken@[i],
{
    let mut i: usize = 0;
    while i < taken.len()
        invariant
            i <= taken.len(),
            first + taken.len() <= u64::MAX,
            forall|j: int| 0 <= j < i ==> taken@[j],
        decreases taken.len() - i,
    {
        if !taken[i] {
            return Some(first + i as u64);
        }
        i = i + 1;
    }
    None
}

/// What an install of the managed frontend does with its fixed root.
#[derive(Debug, Clone, Copy, PartialEq, Eq, Structural)]
pub enum FrontendTargetAction {
    /// Nothing is there: clone.
    CloneFresh,
    /// The root already holds a clone of the target's repository.
    ReuseExisting,
    /// Move what is there to a backup, then clone.
    ReplaceThenClone,
}

/// The action for the frontend root, or the conflict that stops the install.
pub open spec fn frontend_target_decision(
    path_exists: bool,
    is_git_repo: bool,
    origin_url: Option<Seq<char>>,
    resolved_remote: Seq<char>,
    strategy: ExistingRepoConflictStrategy,
) -> Result<FrontendTargetAction, Seq<char>> {
    let existing_remote = match origin_url {
        Some(u) => canonical_remote(u),
        None => None,
    };
    if !path_exists {
        Ok(FrontendTargetAction::CloneFresh)
    } else if is_git_repo && (existing_remote matches Some(e) && eq_ignore_ascii_case(e, resolved_remote)) {
        Ok(FrontendTargetAction::ReuseExisting)
    } else {
        match strategy {
            ExistingRepoConflictStrategy::Abort => Err(
                if is_git_repo {
                    "managed frontend repo root already contains a different git repository"@
                } else {
                    "managed frontend repo root already exists and is not a git repository"@
                },
            ),
            ExistingRepoConflictStrategy::InstallWithSuffix => Err(
                "managed frontend repo root is fixed; choose Replace or configure a different frontend repo root in installation settings"@,
            ),
            ExistingRepoConflictStrategy::Replace => Ok(FrontendTargetAction::ReplaceThenClone),
        }
    }
}

pub fn frontend_target_action(
    path_exists: bool,
    is_git_repo: bool,
    origin_url: Option<&str>,
    resolved_remote: &str,
    strategy: ExistingRepoConflictStrategy,
) -> (r: AppResult<FrontendTargetAction>)
    ensures
        r matches Ok(a) ==> frontend_target_decision(path_exists, is_git_repo, oqv(origin_url), resolved_remote@, strategy)
            == Ok::<FrontendTargetAction, Seq<char>>(a),
        r matches Err(e) ==> (e matches AppError::Conflict(m) && frontend_target_decision(
            path_exists,
            is_git_repo,
            oqv(origin_url),
            resolved_remote@,
            strategy,
        ) == Err::<FrontendTargetAction, Seq<char>>(m@)),
{
    if !path_exists {
        return Ok(FrontendTargetAction::CloneFresh);
    }
    if is_git_repo {
        let existing = match origin_url {
            Some(u) => canonicalize_remote(u),
            None => None,
        };
        let same = match &existing {
            Some(e) => eq_ignore_ascii_case_chars(&chars_of(e.as_str()), &chars_of(resolved_remote)),
            None => false,
        };
        if same {
            return Ok(FrontendTargetAction::ReuseExisting);
        }
    }
    match strategy {
        ExistingRepoConflictStrategy::Abort => Err(
            AppError::Conflict(
                if is_git_repo {
                    owned("managed frontend repo root already contains a different git repository")
                } else {
                    owned("managed frontend repo root already exists and is not a git repository")
                },
            ),
        ),
        ExistingRepoConflictStrategy::InstallWithSuffix => Err(
            AppError::Conflict(
                owned(
                    "managed frontend repo root is fixed; choose Replace or configure a different frontend repo root in installation settings",
                ),
            ),
        ),
        ExistingRepoConflictStrategy::Replace => Ok(FrontendTargetAction::ReplaceThenClone),
    }
}

/// The directory that keeps what an install replaced:
/// `<parent of root>/.comfyui-patcher-backups/<root name>/<kind>`.
pub open spec fn retained_backup_root_spec(comfy_root: Seq<char>, kind: Seq<char>) -> Seq<char> {
    let parent = match path_parent_spec(comfy_root) {
        Some(p) => p,
        None => comfy_root,
    };
    let name = match path_file_name_spec(comfy_root) {
        Some(n) => if n.len() > 0 {
            n
        } else {
            "installation"@
        },
        None => "installation"@,
    };
    join_path_spec(join_path_spec(join_path_spec(parent, ".comfyui-patcher-backups"@), name), kind)
}

pub fn installation_retained_backup_root(comfy_root: &str, kind: &str) -> (r: String)
    ensures
        r@ == retained_backup_root_spec(comfy_root@, kind@),
{
    let parent = match path_parent(comfy_root) {
        Some(p) => p,
        None => owned(comfy_root),
    };
    let name = match path_file_name(comfy_root) {
        Some(n) => if n.as_str().unicode_len() > 0 {
            n
        } else {
            owned("installation")
        },
        None => owned("installation"),
    };
    let backups = join_custom_node_path(parent.as_str(), ".comfyui-patcher-backups");
    let by_name = join_custom_node_path(backups.as_str(), name.as_str());
    join_custom_node_path(by_name.as_str(), kind)
}

/// The name a backup of `path` is tried under: attempt 0 is
/// `<name>.tracking-backup-<seconds>`, attempt n is
/// `<name>.tracking-backup-<seconds>-<n>`; the name is that of the path, else
/// `custom-node`.
pub open spec fn backup_name_spec(path: Seq<char>, seconds: u64, attempt: u64) -> Seq<char> {
    let name = match path_file_name_spec(path) {
        Some(n) => n,
        None => "custom-node"@,
    };
    name + ".tracking-backup-"@ + decimal(seconds as nat) + if attempt == 0 {
        Seq::<char>::empty()
    } else {
        "-"@ + decimal(attempt as nat)
    }
}

pub fn tracking_backup_path_candidate(path: &str, backup_root: &str, seconds: u64, attempt: u64) -> (r: String)
    ensures
        r@ == join_path_spec(backup_root@, backup_name_spec(path@, seconds, attempt)),
{
    let mut name = match path_file_name(path) {
        Some(n) => n,
        None => owned("custom-node"),
    };
    push_str(&mut name, ".tracking-backup-");
    push_str(&mut name, u64_decimal(seconds).as_str());
    if attempt != 0 {
        push_str(&mut name, "-");
        push_str(&mut name, u64_decimal(attempt).as_str());
    }
    join_custom_node_path(backup_root, name.as_str())
}

/// The backup path used when every attempt is taken:
/// `<backup root>/<name>.tracking-backup`.
pub fn tracking_backup_path_fallback(path: &str, backup_root: &str) -> (r: String)
    ensures
        r@ == join_path_spec(backup_root@, (match path_file_name_spec(path@) {
            Some(n) => n,
            None => "custom-node"@,
        }) + ".tracking-backup"@),
{
    let mut name = match path_file_name(path) {
        Some(n) => n,
        None => owned("custom-node"),
    };
    push_str(&mut name, ".tracking-backup");
    join_custom_node_path(backup_root, name.as_str())
}

} // verus!
