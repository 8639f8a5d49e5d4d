//! The data model shared by the library: installations, managed repositories,
//! tracked targets, operations and checkpoints.
use std::collections::HashMap;
use vstd::prelude::*;

verus! {


#[derive(Debug, Clone, Copy, PartialEq, Eq, Structural)]
pub enum RepoKind {
    Core,
    Frontend,
    CustomNode,
    Kitchen,
}

#[derive(Debug, Clone, Copy, PartialEq, Eq, Structural)]
pub enum OperationStatus {
    Queued,
    Running,
    Succeeded,
    Failed,
}

#[derive(Debug, Clone, Copy, PartialEq, Eq, Structural)]
pub enum OperationKind {
    PatchCore,
    InstallFrontend,
    PatchFrontend,
    InstallCustomNode,
    PatchCustomNode,
    ManageRepoStack,
    RematerializeTrackedRepos,
    UninstallRepo,
    DisableRepo,
    UntrackRepo,
    UpdateRepo,
    UpdateAll,
    RollbackRepo,
    RestoreCheckpoint,
    StartInstallation,
    StopInstallation,
    RestartInstallation,
}

#[derive(Debug, Clone, Copy, PartialEq, Eq, Structural)]
pub enum DirtyRepoStrategy {
    Abort,
    Stash,
    HardReset,
}

#[derive(Debug, Clone, Copy, PartialEq, Eq, Structural)]
pub enum ExistingRepoConflictStrategy {
    Abort,
    Replace,
    InstallWithSuffix,
}

#[derive(Debug, Clone, Copy, PartialEq, Eq, Structural)]
pub enum TargetKind {
    Branch,
    Tag,
    Commit,
    Pr,
    DefaultBranch,
    NamedRef,
}

#[derive(Debug, Clone, Copy, PartialEq, Eq, Structural)]
pub enum OverlayApplyStatus {
    Pending,
    Applied,
    Disabled,
    Conflict,
    Error,
}

#[derive(Debug, Clone)]
pub struct TrackedBaseTarget {
    pub source_input: String,
    pub target_kind: TargetKind,
    pub canonical_repo_url: String,
    pub checkout_ref: String,
    pub resolved_sha: Option<String>,
    pub summary_label: String,
}

#[derive(Debug, Clone)]
pub struct TrackedPrOverlay {
    pub id: String,
    pub source_input: String,
    pub canonical_repo_url: String,
    pub pr_number: u64,
    pub pr_base_repo_url: String,
    pub pr_base_ref: String,
    pub pr_head_repo_url: Option<String>,
    pub pr_head_ref: Option<String>,
    pub resolved_sha: Option<String>,
    pub summary_label: String,
    pub position: usize,
    pub enabled: bool,
    pub last_apply_status: Option<OverlayApplyStatus>,
    pub last_error: Option<String>,
}

#[derive(Debug, Clone)]
pub struct TrackedRepoState {
    pub version: u32,
    pub base: TrackedBaseTarget,
    pub overlays: Vec<TrackedPrOverlay>,
    pub materialized_branch: Option<String>,
}

#[derive(Debug, Clone, Copy, PartialEq, Eq, Structural)]
pub enum OverlayMoveDirection {
    Up,
    Down,
}


#[derive(Debug, Clone, Copy, PartialEq, Eq, Structural)]
pub enum FrontendPackageManager {
    Auto,
    Npm,
    Pnpm,
    Yarn,
}

#[derive(Debug, Clone)]
pub struct FrontendSettings {
    pub repo_root: String,
    pub dist_path: String,
    pub package_manager: FrontendPackageManager,
}

#[derive(Debug, Clone)]
pub struct DependencyStep {
    pub phase: String,
    pub strategy: String,
    pub command: String,
    pub args: Vec<String>,
    pub cwd: String,
    pub reason: String,
}

#[derive(Debug, Clone)]
pub struct DependencyPlan {
    pub strategy: String,
    pub reason: String,
    pub steps: Vec<DependencyStep>,
}

#[derive(Debug, Clone, Copy, PartialEq, Eq, Structural)]
pub enum RepoLiveStatus {
    Clean,
    Dirty,
    Drifted,
    Missing,
    NotGit,
}

#[derive(Debug, Clone)]
pub struct RepoDependencyState {
    pub plan: Option<DependencyPlan>,
    pub error: Option<String>,
    pub manifest_files: Vec<String>,
    pub relevant_changed_files: Vec<String>,
}

#[derive(Debug, Clone)]
pub struct LaunchProfile {
    pub mode: String,
    pub command: String,
    pub args: Vec<String>,
    pub extra_args: Option<Vec<String>>,
    pub cwd: Option<String>,
    pub env: Option<HashMap<String, String>>,
    pub stop_command: Option<String>,
    pub stop_args: Option<Vec<String>>,
    pub restart_command: Option<String>,
    pub restart_args: Option<Vec<String>>,
}

#[derive(Debug, Clone)]
pub struct Installation {
    pub id: String,
    pub name: String,
    pub comfy_root: String,
    pub python_exe: String,
    pub custom_nodes_dir: String,
    pub launch_profile: Option<LaunchProfile>,
    pub frontend_settings: Option<FrontendSettings>,
    pub detected_env_kind: String,
    pub is_git_repo: bool,
    pub last_reconciled_at: Option<String>,
    pub created_at: String,
    pub updated_at: String,
}

#[derive(Debug, Clone)]
pub struct ManagedRepo {
    pub id: String,
    pub installation_id: String,
    pub kind: RepoKind,
    pub display_name: String,
    pub local_path: String,
    pub canonical_remote: Option<String>,
    pub current_head_sha: Option<String>,
    pub current_branch: Option<String>,
    pub is_detached: bool,
    pub is_dirty: bool,
    pub tracked_target_kind: Option<TargetKind>,
    pub tracked_target_input: Option<String>,
    pub tracked_target_resolved_sha: Option<String>,
    pub tracked_state: Option<TrackedRepoState>,
    pub live_status: RepoLiveStatus,
    pub live_warnings: Vec<String>,
    pub changed_files: Vec<String>,
    pub dependency_state: Option<RepoDependencyState>,
    pub materialization_state: Option<RepoMaterializationState>,
    pub last_scanned_at: Option<String>,
    pub created_at: String,
    pub updated_at: String,
}

#[derive(Debug, Clone)]
pub struct InstallationDetail {
    pub installation: Installation,
    pub core_repo: Option<ManagedRepo>,
    pub frontend_repo: Option<ManagedRepo>,
    /// The managed Comfy Kitchen checkout, where there is one.
    pub kitchen_repo: Option<ManagedRepo>,
    pub custom_node_repos: Vec<ManagedRepo>,
    pub warnings: Vec<String>,
    pub last_reconciled_at: Option<String>,
    pub is_running: bool,
}

#[derive(Debug, Clone)]
pub struct ResolvedTarget {
    pub source_input: String,
    pub target_kind: TargetKind,
    pub canonical_repo_url: String,
    pub fetch_url: String,
    pub checkout_ref: String,
    pub resolved_sha: Option<String>,
    pub pr_number: Option<u64>,
    pub pr_base_repo_url: Option<String>,
    pub pr_base_ref: Option<String>,
    pub pr_head_repo_url: Option<String>,
    pub pr_head_ref: Option<String>,
    pub summary_label: String,
    pub suggested_local_dir_name: String,
}

#[derive(Debug, Clone)]
pub struct OperationRecord {
    pub id: String,
    pub installation_id: String,
    pub repo_id: Option<String>,
    pub kind: OperationKind,
    pub status: OperationStatus,
    pub requested_input: Option<String>,
    pub log_file: String,
    pub error_message: Option<String>,
    pub checkpoint_id: Option<String>,
    pub created_at: String,
    pub started_at: Option<String>,
    pub finished_at: Option<String>,
}

#[derive(Debug, Clone)]
pub struct RepoCheckpoint {
    pub id: String,
    pub repo_id: String,
    pub operation_id: String,
    pub old_head_sha: String,
    pub old_branch: Option<String>,
    pub old_is_detached: bool,
    pub has_tracked_target_snapshot: bool,
    pub old_tracked_target_kind: Option<TargetKind>,
    pub old_tracked_target_input: Option<String>,
    pub old_tracked_target_resolved_sha: Option<String>,
    pub stash_created: bool,
    pub stash_ref: Option<String>,
    pub label: Option<String>,
    pub reason: Option<String>,
    pub dependency_state: Option<RepoDependencyState>,
    pub created_at: String,
}

#[derive(Debug, Clone)]
pub struct RepoActionPreviewCommit {
    pub sha: String,
    pub subject: String,
}

#[derive(Debug, Clone)]
pub struct RepoActionPreviewFile {
    pub path: String,
    pub status: String,
}

#[derive(Debug, Clone)]
pub struct RepoStackPreviewItem {
    pub kind: String,
    pub label: String,
    pub enabled: bool,
    pub status: Option<String>,
}

#[derive(Debug, Clone)]
pub struct RepoActionPreview {
    pub action: String,
    pub repo_id: Option<String>,
    pub repo_display_name: String,
    pub current_head_sha: Option<String>,
    pub target_head_sha: Option<String>,
    pub target_summary: String,
    pub target_ref: Option<String>,
    pub commits: Vec<RepoActionPreviewCommit>,
    pub file_changes: Vec<RepoActionPreviewFile>,
    pub warnings: Vec<String>,
    pub conflict_files: Vec<String>,
    pub stack_preview: Vec<RepoStackPreviewItem>,
    pub dependency_state: Option<RepoDependencyState>,
}

#[derive(Debug, Clone)]
pub struct RepoCheckpointComparison {
    pub checkpoint: RepoCheckpoint,
    pub current_head_sha: Option<String>,
    pub commits: Vec<RepoActionPreviewCommit>,
    pub file_changes: Vec<RepoActionPreviewFile>,
    pub warnings: Vec<String>,
    pub current_dependency_state: Option<RepoDependencyState>,
}

#[derive(Debug, Clone)]
pub struct RegisterInstallationInput {
    pub name: String,
    pub comfy_root: String,
    pub python_exe: Option<String>,
    pub launch_profile: Option<LaunchProfile>,
    pub frontend_settings: Option<FrontendSettings>,
}

#[derive(Debug, Clone)]
pub struct RegisterInstallationResult {
    pub installation: Installation,
    pub core_repo: Option<ManagedRepo>,
    pub frontend_repo: Option<ManagedRepo>,
    pub discovered_custom_nodes: Vec<ManagedRepo>,
    pub warnings: Vec<String>,
}

#[derive(Debug, Clone)]
pub struct SaveInstallationInput {
    pub installation_id: String,
    pub name: String,
    pub python_exe: Option<String>,
    pub launch_profile: Option<LaunchProfile>,
    pub frontend_settings: Option<FrontendSettings>,
}

#[derive(Debug, Clone)]
pub struct DeleteInstallationInput {
    pub installation_id: String,
}

#[derive(Debug, Clone)]
pub struct ResolveTargetInput {
    pub installation_id: String,
    pub kind: RepoKind,
    pub input: String,
    pub repo_id: Option<String>,
}


#[derive(Debug, Clone)]
pub struct ListManagerCustomNodesInput {
    pub installation_id: String,
    pub query: Option<String>,
    pub limit: Option<usize>,
}

#[derive(Debug, Clone)]
pub struct ManagerRegistryCustomNode {
    pub registry_id: String,
    pub title: String,
    pub author: Option<String>,
    pub description: Option<String>,
    pub install_type: String,
    pub source_input: Option<String>,
    pub canonical_repo_url: Option<String>,
    pub is_installable: bool,
    pub is_installed: bool,
    pub is_tracking_managed: bool,
    pub tracking_local_path: Option<String>,
    pub is_present_non_git: bool,
    pub present_local_path: Option<String>,
    pub has_ambiguous_installation: bool,
    pub installed_repo_id: Option<String>,
    pub installed_display_name: Option<String>,
    pub installed_local_path: Option<String>,
}

#[derive(Debug, Clone)]
pub struct PatchCoreInput {
    pub installation_id: String,
    pub input: String,
    pub dirty_repo_strategy: DirtyRepoStrategy,
    pub set_tracked_target: bool,
    pub sync_dependencies: bool,
    pub restart_after_success: bool,
}

#[derive(Debug, Clone)]
pub struct PatchFrontendInput {
    pub installation_id: String,
    pub input: String,
    pub existing_repo_conflict_strategy: ExistingRepoConflictStrategy,
    pub dirty_repo_strategy: DirtyRepoStrategy,
    pub set_tracked_target: bool,
    pub sync_dependencies: bool,
    pub restart_after_success: bool,
}

#[derive(Debug, Clone)]
pub struct PatchCustomNodeInput {
    pub installation_id: String,
    pub input: String,
    pub target_local_dir_name: Option<String>,
    pub existing_repo_conflict_strategy: ExistingRepoConflictStrategy,
    pub dirty_repo_strategy: DirtyRepoStrategy,
    pub set_tracked_target: bool,
    pub sync_dependencies: bool,
    pub restart_after_success: bool,
    pub adopt_tracking_install: bool,
}

#[derive(Debug, Clone)]
pub struct AdoptTrackedCustomNodesInput {
    pub installation_id: String,
}

#[derive(Debug, Clone)]
pub struct UpdateRepoInput {
    pub repo_id: String,
    pub dirty_repo_strategy: DirtyRepoStrategy,
    pub sync_dependencies: bool,
}

#[derive(Debug, Clone)]
pub struct RepoLifecycleInput {
    pub repo_id: String,
}

#[derive(Debug, Clone)]
pub struct SetRepoBaseTargetInput {
    pub repo_id: String,
    pub input: String,
    pub clear_overlays: bool,
    pub dirty_repo_strategy: DirtyRepoStrategy,
    pub sync_dependencies: bool,
}

#[derive(Debug, Clone)]
pub struct AddRepoOverlayInput {
    pub repo_id: String,
    pub input: String,
    pub dirty_repo_strategy: DirtyRepoStrategy,
    pub sync_dependencies: bool,
}

#[derive(Debug, Clone)]
pub struct SetRepoOverlayEnabledInput {
    pub repo_id: String,
    pub overlay_id: String,
    pub enabled: bool,
    pub dirty_repo_strategy: DirtyRepoStrategy,
    pub sync_dependencies: bool,
}

#[derive(Debug, Clone)]
pub struct RemoveRepoOverlayInput {
    pub repo_id: String,
    pub overlay_id: String,
    pub dirty_repo_strategy: DirtyRepoStrategy,
    pub sync_dependencies: bool,
}

#[derive(Debug, Clone)]
pub struct MoveRepoOverlayInput {
    pub repo_id: String,
    pub overlay_id: String,
    pub direction: OverlayMoveDirection,
    pub dirty_repo_strategy: DirtyRepoStrategy,
    pub sync_dependencies: bool,
}

#[derive(Debug, Clone)]
pub struct UpdateAllInput {
    pub installation_id: String,
    pub dirty_repo_strategy: DirtyRepoStrategy,
    pub sync_dependencies: bool,
    pub restart_after_success: bool,
}

#[derive(Debug, Clone)]
pub struct RematerializeTrackedReposInput {
    pub installation_id: String,
    pub sync_dependencies: bool,
    pub restart_after_success: bool,
}

#[derive(Debug, Clone)]
pub struct RollbackRepoInput {
    pub repo_id: String,
    pub restore_stash: bool,
    pub sync_dependencies: bool,
    pub restart_after_success: bool,
}

#[derive(Debug, Clone)]
pub struct RestoreCheckpointInput {
    pub repo_id: String,
    pub checkpoint_id: String,
    pub restore_stash: bool,
    pub sync_dependencies: bool,
    pub restart_after_success: bool,
}

#[derive(Debug, Clone)]
pub struct StartInstallationInput {
    pub installation_id: String,
}

#[derive(Debug, Clone)]
pub struct StopInstallationInput {
    pub installation_id: String,
}

#[derive(Debug, Clone)]
pub struct RestartInstallationInput {
    pub installation_id: String,
}

#[derive(Debug, Clone)]
pub struct OperationStart {
    pub operation_id: String,
}

#[derive(Debug, Clone)]
pub struct OperationEvent {
    pub operation_id: String,
    pub phase: String,
    pub level: String,
    pub message: String,
    pub timestamp: String,
}

#[derive(Debug, Clone)]
pub struct PreviewRepoTargetInput {
    pub installation_id: String,
    pub kind: RepoKind,
    pub input: String,
    pub repo_id: Option<String>,
    pub clear_overlays: Option<bool>,
}

/// What the managed Python environment reports about the installed
/// `comfy-kitchen` distribution.
#[derive(Debug, Clone, Default)]
pub struct KitchenRuntimeProbe {
    pub distribution_present: bool,
    pub installed_version: Option<String>,
    pub distribution_location: Option<String>,
    pub direct_url: Option<String>,
    pub direct_url_sha256: Option<String>,
    pub record_sha256: Option<String>,
    pub import_ok: bool,
    pub import_error: Option<String>,
    pub module_location: Option<String>,
    pub probed_at: Option<String>,
}

#[derive(Debug, Clone, Copy, PartialEq, Eq, Structural)]
pub enum MaterializationStatus {
    Current,
    Stale,
    Missing,
    ImportFailed,
    Replaced,
    Failed,
}

/// The last known state of a source project materialized into the managed
/// Python environment.
#[derive(Debug, Clone)]
pub struct RepoMaterializationState {
    pub materialized_head_sha: Option<String>,
    pub installed_version: Option<String>,
    pub installed_origin: Option<String>,
    pub artifact_sha256: Option<String>,
    pub installed_record_sha256: Option<String>,
    pub status: MaterializationStatus,
    pub last_materialized_at: Option<String>,
    pub last_error: Option<String>,
}

} // verus!
