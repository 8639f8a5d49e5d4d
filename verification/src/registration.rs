//! Registering a ComfyUI root: a root that is registered already keeps its
//! entry, and settings left out keep their stored values.
use vstd::prelude::*;
use crate::errors::{AppError, AppResult};
use crate::models::{FrontendSettings, Installation, LaunchProfile};
use crate::text::owned;

verus! {

/// What a registration provides; a setting that is `None` was not given.
pub struct RegistrationFields {
    pub name: String,
    pub comfy_root: String,
    pub python_exe: Option<String>,
    pub custom_nodes_dir: String,
    pub launch_profile: Option<LaunchProfile>,
    pub frontend_settings: Option<FrontendSettings>,
    pub detected_env_kind: Option<String>,
    pub is_git_repo: bool,
}

pub open spec fn or_else<T>(given: Option<T>, stored: T) -> T {
    match given {
        Some(v) => v,
        None => stored,
    }
}

pub open spec fn or_option<T>(given: Option<T>, stored: Option<T>) -> Option<T> {
    match given {
        Some(v) => Some(v),
        None => stored,
    }
}

/// The entry a registration writes. An entry that exists for the root keeps
/// its id, root, `custom_nodes` directory, creation time and reconciliation
/// time, takes the new name and git flag, and keeps each stored setting the
/// registration leaves out. A new entry needs a Python executable and an
/// environment kind, and is created now under `new_id`.
pub fn registration_record(
    existing: Option<Installation>,
    fields: RegistrationFields,
    new_id: String,
    now: String,
) -> (r: AppResult<Installation>)
    ensures
        existing matches Some(e) ==> r == Ok::<Installation, AppError>(
            Installation {
                id: e.id,
                name: fields.name,
                comfy_root: e.comfy_root,
                python_exe: or_else(fields.python_exe, e.python_exe),
                custom_nodes_dir: e.custom_nodes_dir,
                launch_profile: or_option(fields.launch_profile, e.launch_profile),
                frontend_settings: or_option(fields.frontend_settings, e.frontend_settings),
                detected_env_kind: or_else(fields.detected_env_kind, e.detected_env_kind),
                is_git_repo: fields.is_git_repo,
                last_reconciled_at: e.last_reconciled_at,
                created_at: e.created_at,
                updated_at: now,
            },
        ),
        existing is None && fields.python_exe is None ==> (r matches Err(AppError::InvalidInput(m)) && m@
            == "python executable must be provided for new installations"@),
        existing is None && fields.python_exe is Some && fields.detected_env_kind is None ==> (r matches Err(
            AppError::InvalidInput(m),
        ) && m@ == "detected environment kind must be provided for new installations"@),
        existing is None && fields.python_exe is Some && fields.detected_env_kind is Some ==> (r matches Ok(i) && {
            &&& i.id == new_id
            &&& i.name == fields.name
            &&& i.comfy_root == fields.comfy_root
            &&& Some(i.python_exe) == fields.python_exe
            &&& i.custom_nodes_dir == fields.custom_nodes_dir
            &&& i.launch_profile == fields.launch_profile
            &&& i.frontend_settings == fields.frontend_settings
            &&& Some(i.detected_env_kind) == fields.detected_env_kind
            &&& i.is_git_repo == fields.is_git_repo
            &&& i.last_reconciled_at is None
            &&& i.created_at@ == now@
            &&& i.updated_at@ == now@
        }),
{
    let RegistrationFields {
        name,
        comfy_root,
        python_exe,
        custom_nodes_dir,
        launch_profile,
        frontend_settings,
        detected_env_kind,
        is_git_repo,
    } = fields;
    match existing {
        Some(e) => {
            let Installation {
                id,
                name: _,
                comfy_root: stored_root,
                python_exe: stored_python,
                custom_nodes_dir: stored_nodes,
                launch_profile: stored_launch,
                frontend_settings: stored_frontend,
                detected_env_kind: stored_env,
                is_git_repo: _,
                last_reconciled_at,
                created_at,
                updated_at: _,
            } = e;
            Ok(
                Installation {
                    id,
                    name,
                    comfy_root: stored_root,
                    python_exe: match python_exe {
                        Some(p) => p,
                        None => stored_python,
                    },
                    custom_nodes_dir: stored_nodes,
                    launch_profile: match launch_profile {
                        Some(l) => Some(l),
                        None => stored_launch,
                    },
                    frontend_settings: match frontend_settings {
                        Some(f) => Some(f),
                        None => stored_frontend,
                    },
                    detected_env_kind: match detected_env_kind {
                        Some(k) => k,
                        None => stored_env,
                    },
                    is_git_repo,
                    last_reconciled_at,
                    created_at,
                    updated_at: now,
                },
            )
        },
        None => {
            let python = match python_exe {
                Some(p) => p,
                None => return Err(
                    AppError::InvalidInput(owned("python executable must be provided for new installations")),
                ),
            };
            let env = match detected_env_kind {
                Some(k) => k,
                None => return Err(
                    AppError::InvalidInput(
                        owned("detected environment kind must be provided for new installations"),
                    ),
                ),
            };
            let updated_at = owned(now.as_str());
            Ok(
                Installation {
                    id: new_id,
                    name,
                    comfy_root,
                    python_exe: python,
                    custom_nodes_dir,
                    launch_profile,
                    frontend_settings,
                    detected_env_kind: env,
                    is_git_repo,
                    last_reconciled_at: None,
                    created_at: now,
                    updated_at,
                },
            )
        },
    }
}

} // verus!
