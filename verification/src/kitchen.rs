//! Comfy Kitchen source builds: build and install plans, runtime identity
//! and reconciliation of the materialized state.
use vstd::prelude::*;
use crate::errors::{AppError, AppResult};
use crate::git::join_path_spec;
use crate::models::{
    Installation, KitchenRuntimeProbe, ManagedRepo, MaterializationStatus,
    RepoMaterializationState,
};
use crate::paths::{path_extension, path_extension_spec, path_parent, path_parent_spec};
use crate::text::{
    ascii_lower, ascii_lower_chars, chars_of, copy_string, find_char, find_char_from, lines, push_chars, slice_chars, split_lines, string_of, trim, trim_bounds, vv, clone_opt, eq_ignore_ascii_case, eq_ignore_ascii_case_chars, has_prefix,
    opt_eq, ov, owned, push_str, starts_with, sv,
};

verus! {

pub const DEFAULT_KITCHEN_REPO_URL: &'static str = "https://github.com/Comfy-Org/comfy-kitchen";

/// The commands that build the Kitchen source checkout into a wheel.
#[derive(Debug, Clone, PartialEq, Eq)]
pub struct KitchenBuildPlan {
    pub python_exe: String,
    pub cwd: String,
    pub wheel_dir_arg: String,
    pub build_args: Vec<String>,
}

/// The commands that install a built Kitchen wheel.
#[derive(Debug, Clone, PartialEq, Eq)]
pub struct KitchenInstallPlan {
    pub python_exe: String,
    pub cwd: String,
    pub wheel_arg: String,
    pub install_args: Vec<String>,
}

/// `comfy-kitchen` next to the ComfyUI root (inside it where the root has no parent).
pub open spec fn default_kitchen_path_spec(comfy_root: Seq<char>) -> Seq<char> {
    let base = match path_parent_spec(comfy_root) {
        Some(p) => p,
        None => comfy_root,
    };
    join_path_spec(base, "comfy-kitchen"@)
}

/// Where a Kitchen checkout goes by default.
pub fn default_kitchen_path(installation: &Installation) -> (r: String)
    ensures
        r@ == default_kitchen_path_spec(installation.comfy_root@),
{
    let base = match path_parent(installation.comfy_root.as_str()) {
        Some(p) => p,
        None => installation.comfy_root.clone(),
    };
    crate::git::join_custom_node_path(base.as_str(), "comfy-kitchen")
}

fn strings_of(parts: &[&str]) -> (r: Vec<String>)
    ensures
        r@.len() == parts@.len(),
        forall|i: int| 0 <= i < parts@.len() ==> #[trigger] r@[i]@ == parts@[i]@,
{
    let mut r: Vec<String> = Vec::new();
    let mut i: usize = 0;
    while i < parts.len()
        invariant
            i <= parts@.len(),
            r@.len() == i,
            forall|k: int| 0 <= k < i ==> #[trigger] r@[k]@ == parts@[k]@,
        decreases parts@.len() - i,
    {
        r.push(owned(parts[i]));
        i = i + 1;
    }
    r
}

/// The build arguments: `-m pip wheel --no-deps --wheel-dir <dir> .`
pub open spec fn build_args_spec(wheel_dir: Seq<char>) -> Seq<Seq<char>> {
    seq!["-m"@, "pip"@, "wheel"@, "--no-deps"@, "--wheel-dir"@, wheel_dir, "."@]
}

/// The install arguments: `-m pip install --no-deps --force-reinstall <wheel>`
pub open spec fn install_args_spec(wheel: Seq<char>) -> Seq<Seq<char>> {
    seq!["-m"@, "pip"@, "install"@, "--no-deps"@, "--force-reinstall"@, wheel]
}

/// Builds the wheel with the installation's own Python, in the checkout.
pub fn plan_kitchen_wheel_build(installation: &Installation, repo_path: &str, wheel_dir_arg: &str) -> (r:
    KitchenBuildPlan)
    ensures
        r.python_exe@ == installation.python_exe@,
        r.cwd@ == repo_path@,
        r.wheel_dir_arg@ == wheel_dir_arg@,
        sv(r.build_args@) == build_args_spec(wheel_dir_arg@),
{
    let build_args = strings_of(&["-m", "pip", "wheel", "--no-deps", "--wheel-dir", wheel_dir_arg, "."]);
    assert(sv(build_args@) == build_args_spec(wheel_dir_arg@));
    KitchenBuildPlan {
        python_exe: installation.python_exe.clone(),
        cwd: owned(repo_path),
        wheel_dir_arg: owned(wheel_dir_arg),
        build_args,
    }
}

/// Installs the built wheel, without dependencies, over whatever is installed.
pub fn plan_kitchen_wheel_install(installation: &Installation, repo_path: &str, wheel_arg: &str) -> (r:
    KitchenInstallPlan)
    ensures
        r.python_exe@ == installation.python_exe@,
        r.cwd@ == repo_path@,
        r.wheel_arg@ == wheel_arg@,
        sv(r.install_args@) == install_args_spec(wheel_arg@),
{
    let install_args = strings_of(&["-m", "pip", "install", "--no-deps", "--force-reinstall", wheel_arg]);
    assert(sv(install_args@) == install_args_spec(wheel_arg@));
    KitchenInstallPlan {
        python_exe: installation.python_exe.clone(),
        cwd: owned(repo_path),
        wheel_arg: owned(wheel_arg),
        install_args,
    }
}

/// Two probes describe the same installed distribution; when they were
/// taken, and the import error text, do not count.
pub open spec fn same_runtime(a: KitchenRuntimeProbe, b: KitchenRuntimeProbe) -> bool {
    &&& a.distribution_present == b.distribution_present
    &&& ov(a.installed_version) == ov(b.installed_version)
    &&& ov(a.distribution_location) == ov(b.distribution_location)
    &&& ov(a.direct_url) == ov(b.direct_url)
    &&& ov(a.direct_url_sha256) == ov(b.direct_url_sha256)
    &&& ov(a.record_sha256) == ov(b.record_sha256)
    &&& a.import_ok == b.import_ok
    &&& ov(a.module_location) == ov(b.module_location)
}

pub fn runtime_identity_matches(expected: &KitchenRuntimeProbe, actual: &KitchenRuntimeProbe) -> (r:
    bool)
    ensures
        r == same_runtime(*expected, *actual),
{
    expected.distribution_present == actual.distribution_present && opt_eq(
        &expected.installed_version,
        &actual.installed_version,
    ) && opt_eq(&expected.distribution_location, &actual.distribution_location) && opt_eq(
        &expected.direct_url,
        &actual.direct_url,
    ) && opt_eq(&expected.direct_url_sha256, &actual.direct_url_sha256) && opt_eq(
        &expected.record_sha256,
        &actual.record_sha256,
    ) && expected.import_ok == actual.import_ok && opt_eq(
        &expected.module_location,
        &actual.module_location,
    )
}

/// Runtime identity is an equivalence: every probe matches itself, and
/// matching is symmetric and transitive.
pub proof fn law_runtime_identity_is_equivalence(
    a: KitchenRuntimeProbe,
    b: KitchenRuntimeProbe,
    c: KitchenRuntimeProbe,
)
    ensures
        same_runtime(a, a),
        same_runtime(a, b) ==> same_runtime(b, a),
        same_runtime(a, b) && same_runtime(b, c) ==> same_runtime(a, c),
{
}

/// All recorded fields of two states agree; the status may differ.
pub open spec fn same_record(a: RepoMaterializationState, b: RepoMaterializationState) -> bool {
    &&& ov(a.materialized_head_sha) == ov(b.materialized_head_sha)
    &&& ov(a.installed_version) == ov(b.installed_version)
    &&& ov(a.installed_origin) == ov(b.installed_origin)
    &&& ov(a.artifact_sha256) == ov(b.artifact_sha256)
    &&& ov(a.installed_record_sha256) == ov(b.installed_record_sha256)
    &&& ov(a.last_materialized_at) == ov(b.last_materialized_at)
    &&& ov(a.last_error) == ov(b.last_error)
}

/// A state with no record.
pub open spec fn blank_record(a: RepoMaterializationState) -> bool {
    &&& a.materialized_head_sha is None
    &&& a.installed_version is None
    &&& a.installed_origin is None
    &&& a.artifact_sha256 is None
    &&& a.installed_record_sha256 is None
    &&& a.last_materialized_at is None
    &&& a.last_error is None
}

fn copy_state(s: &RepoMaterializationState) -> (r: RepoMaterializationState)
    ensures
        same_record(r, *s),
        r.status == s.status,
{
    RepoMaterializationState {
        materialized_head_sha: clone_opt(&s.materialized_head_sha),
        installed_version: clone_opt(&s.installed_version),
        installed_origin: clone_opt(&s.installed_origin),
        artifact_sha256: clone_opt(&s.artifact_sha256),
        installed_record_sha256: clone_opt(&s.installed_record_sha256),
        status: s.status,
        last_materialized_at: clone_opt(&s.last_materialized_at),
        last_error: clone_opt(&s.last_error),
    }
}

fn blank_state(status: MaterializationStatus) -> (r: RepoMaterializationState)
    ensures
        blank_record(r),
        r.status == status,
{
    RepoMaterializationState {
        materialized_head_sha: None,
        installed_version: None,
        installed_origin: None,
        artifact_sha256: None,
        installed_record_sha256: None,
        status,
        last_materialized_at: None,
        last_error: None,
    }
}

/// Both values are present and differ, ignoring ASCII case.
pub open spec fn differs_ignoring_case(a: Option<Seq<char>>, b: Option<Seq<char>>) -> bool {
    a matches Some(x) && b matches Some(y) && !eq_ignore_ascii_case(x, y)
}

/// Both values are present and differ.
pub open spec fn differs(a: Option<Seq<char>>, b: Option<Seq<char>>) -> bool {
    a matches Some(x) && b matches Some(y) && x != y
}

/// The recorded origin is a `file:` URL that the installed distribution no
/// longer reports.
pub open spec fn origin_differs(recorded: Option<Seq<char>>, direct_url: Option<Seq<char>>) -> bool {
    recorded matches Some(o) && has_prefix(o, "file:"@) && direct_url != Some(o)
}

/// How the installed distribution relates to the recorded materialization.
pub open spec fn materialization_status_spec(
    st: RepoMaterializationState,
    current_head: Option<Seq<char>>,
    probe: KitchenRuntimeProbe,
) -> MaterializationStatus {
    if !probe.distribution_present {
        MaterializationStatus::Missing
    } else if !probe.import_ok {
        MaterializationStatus::ImportFailed
    } else if st.materialized_head_sha is None || current_head != ov(st.materialized_head_sha) {
        MaterializationStatus::Stale
    } else if differs_ignoring_case(ov(st.installed_record_sha256), ov(probe.record_sha256))
        || differs(ov(st.installed_version), ov(probe.installed_version)) || differs_ignoring_case(
        ov(st.artifact_sha256),
        ov(probe.direct_url_sha256),
    ) || origin_differs(ov(st.installed_origin), ov(probe.direct_url)) {
        MaterializationStatus::Replaced
    } else if st.installed_record_sha256 is Some && probe.record_sha256 is None {
        MaterializationStatus::Replaced
    } else {
        MaterializationStatus::Current
    }
}

fn differs_ignoring_case_exec(a: &Option<String>, b: &Option<String>) -> (r: bool)
    ensures
        r == differs_ignoring_case(ov(*a), ov(*b)),
{
    match (a, b) {
        (Some(x), Some(y)) => !eq_ignore_ascii_case_chars(&chars_of(x.as_str()), &chars_of(y.as_str())),
        _ => false,
    }
}

fn differs_exec(a: &Option<String>, b: &Option<String>) -> (r: bool)
    ensures
        r == differs(ov(*a), ov(*b)),
{
    match (a, b) {
        (Some(x), Some(y)) => !crate::text::str_eq(x.as_str(), y.as_str()),
        _ => false,
    }
}

/// Reconciles the recorded materialization of a Kitchen repository with a
/// fresh probe of the managed Python environment.
pub fn evaluate_materialization(repo: &ManagedRepo, probe: &KitchenRuntimeProbe) -> (r:
    RepoMaterializationState)
    ensures
        match repo.materialization_state {
            Some(prev) => same_record(r, prev),
            None => blank_record(r),
        },
        r.status == materialization_status_spec(
            match repo.materialization_state {
                Some(prev) => prev,
                None => r,
            },
            ov(repo.current_head_sha),
            *probe,
        ),
{
    let mut state = match &repo.materialization_state {
        Some(prev) => copy_state(prev),
        None => blank_state(MaterializationStatus::Stale),
    };
    let artifact_mismatch = differs_ignoring_case_exec(&state.artifact_sha256, &probe.direct_url_sha256);
    let origin_mismatch = match &state.installed_origin {
        Some(origin) => starts_with(&chars_of(origin.as_str()), &chars_of("file:")) && !opt_eq(
            &probe.direct_url,
            &state.installed_origin,
        ),
        None => false,
    };
    let status = if !probe.distribution_present {
        MaterializationStatus::Missing
    } else if !probe.import_ok {
        MaterializationStatus::ImportFailed
    } else if state.materialized_head_sha.is_none() || !opt_eq(
        &repo.current_head_sha,
        &state.materialized_head_sha,
    ) {
        MaterializationStatus::Stale
    } else if differs_ignoring_case_exec(&state.installed_record_sha256, &probe.record_sha256)
        || differs_exec(&state.installed_version, &probe.installed_version) || artifact_mismatch
        || origin_mismatch {
        MaterializationStatus::Replaced
    } else if state.installed_record_sha256.is_some() && probe.record_sha256.is_none() {
        MaterializationStatus::Replaced
    } else {
        MaterializationStatus::Current
    };
    state.status = status;
    state
}


/// The warning shown for a materialization state, if any.
pub open spec fn materialization_warning_spec(st: RepoMaterializationState) -> Option<Seq<char>> {
    match st.status {
        MaterializationStatus::Current => None,
        MaterializationStatus::Stale => Some(
            "Kitchen source checkout HEAD does not match the materialized source revision ("@
                + match ov(st.materialized_head_sha) {
                Some(h) => h,
                None => "none"@,
            } + ")"@,
        ),
        MaterializationStatus::Missing => Some(
            "Patcher-managed Kitchen source is active, but comfy-kitchen is missing from the managed Python environment"@,
        ),
        MaterializationStatus::ImportFailed => Some(
            "Patcher-managed Kitchen is installed, but `import comfy_kitchen` fails in the managed Python environment"@,
        ),
        MaterializationStatus::Replaced => Some(
            "The installed comfy-kitchen distribution no longer matches Patcher's last materialized source build"@,
        ),
        MaterializationStatus::Failed => Some(
            match ov(st.last_error) {
                Some(e) => e,
                None => "The last Kitchen source materialization failed"@,
            },
        ),
    }
}

pub fn materialization_warning(state: &RepoMaterializationState) -> (r: Option<String>)
    ensures
        ov(r) == materialization_warning_spec(*state),
{
    match state.status {
        MaterializationStatus::Current => None,
        MaterializationStatus::Stale => {
            let mut m = owned(
                "Kitchen source checkout HEAD does not match the materialized source revision (",
            );
            match &state.materialized_head_sha {
                Some(h) => push_str(&mut m, h.as_str()),
                None => push_str(&mut m, "none"),
            }
            push_str(&mut m, ")");
            Some(m)
        },
        MaterializationStatus::Missing => Some(
            owned(
                "Patcher-managed Kitchen source is active, but comfy-kitchen is missing from the managed Python environment",
            ),
        ),
        MaterializationStatus::ImportFailed => Some(
            owned(
                "Patcher-managed Kitchen is installed, but `import comfy_kitchen` fails in the managed Python environment",
            ),
        ),
        MaterializationStatus::Replaced => Some(
            owned(
                "The installed comfy-kitchen distribution no longer matches Patcher's last materialized source build",
            ),
        ),
        MaterializationStatus::Failed => Some(
            match &state.last_error {
                Some(e) => copy_string(e),
                None => owned("The last Kitchen source materialization failed"),
            },
        ),
    }
}

/// The state recorded after a failed materialization: the previous record
/// kept, marked failed, with the error.
pub fn failed_materialization_state(previous: Option<&RepoMaterializationState>, error: &str) -> (r:
    RepoMaterializationState)
    ensures
        r.status == MaterializationStatus::Failed,
        ov(r.last_error) == Some(error@),
        previous matches Some(p) ==> (ov(r.materialized_head_sha) == ov(p.materialized_head_sha)
            && ov(r.installed_version) == ov(p.installed_version) && ov(r.installed_origin) == ov(
            p.installed_origin,
        ) && ov(r.artifact_sha256) == ov(p.artifact_sha256) && ov(r.installed_record_sha256) == ov(
            p.installed_record_sha256,
        ) && ov(r.last_materialized_at) == ov(p.last_materialized_at)),
        previous is None ==> (r.materialized_head_sha is None && r.installed_version is None
            && r.installed_origin is None && r.artifact_sha256 is None
            && r.installed_record_sha256 is None && r.last_materialized_at is None),
{
    let mut state = match previous {
        Some(p) => copy_state(p),
        None => blank_state(MaterializationStatus::Failed),
    };
    state.status = MaterializationStatus::Failed;
    state.last_error = Some(owned(error));
    state
}

/// A probe that reports exactly the recorded build, taken while the checkout
/// is still at the materialized revision, reconciles as current.
pub proof fn law_matching_probe_is_current(
    st: RepoMaterializationState,
    head: Seq<char>,
    probe: KitchenRuntimeProbe,
)
    requires
        ov(st.materialized_head_sha) == Some(head),
        probe.distribution_present,
        probe.import_ok,
        ov(probe.record_sha256) == ov(st.installed_record_sha256),
        ov(probe.installed_version) == ov(st.installed_version),
        st.artifact_sha256 is None || ov(probe.direct_url_sha256) == ov(st.artifact_sha256),
        ov(probe.direct_url) == ov(st.installed_origin),
    ensures
        materialization_status_spec(st, Some(head), probe) == MaterializationStatus::Current,
{
}

/// Without the distribution nothing else matters: the state is missing; an
/// installed but unimportable distribution is reported as such.
pub proof fn law_missing_and_import_failure_come_first(
    st: RepoMaterializationState,
    head: Option<Seq<char>>,
    probe: KitchenRuntimeProbe,
)
    ensures
        !probe.distribution_present ==> materialization_status_spec(st, head, probe)
            == MaterializationStatus::Missing,
        probe.distribution_present && !probe.import_ok ==> materialization_status_spec(
            st,
            head,
            probe,
        ) == MaterializationStatus::ImportFailed,
{
}

/// A requirement line's package-name terminators.
pub open spec fn is_name_end(c: char) -> bool {
    c == '<' || c == '>' || c == '=' || c == '!' || c == '~' || c == '[' || c == '@' || c == ';'
        || c == ' '
}

/// The index of the first name terminator in `s`, or its length.
pub open spec fn name_end(s: Seq<char>) -> int
    decreases s.len(),
{
    if s.len() == 0 {
        0
    } else if is_name_end(s[0]) {
        0
    } else {
        1 + name_end(s.drop_first())
    }
}

pub proof fn lemma_name_end(s: Seq<char>)
    ensures
        0 <= name_end(s) <= s.len(),
        forall|k: int| 0 <= k < name_end(s) ==> !is_name_end(s[k]),
        name_end(s) < s.len() ==> is_name_end(s[name_end(s)]),
    decreases s.len(),
{
    if s.len() > 0 && !is_name_end(s[0]) {
        lemma_name_end(s.drop_first());
        assert forall|k: int| 0 <= k < name_end(s) implies !is_name_end(s[k]) by {
            if k > 0 {
                assert(s[k] == s.drop_first()[k - 1]);
            }
        }
    }
}

pub proof fn lemma_name_end_is(s: Seq<char>, k: int)
    requires
        0 <= k <= s.len(),
        forall|j: int| 0 <= j < k ==> !is_name_end(s[j]),
        k < s.len() ==> is_name_end(s[k]),
    ensures
        name_end(s) == k,
    decreases s.len(),
{
    if s.len() > 0 && !is_name_end(s[0]) {
        assert forall|j: int| 0 <= j < k - 1 implies !is_name_end(s.drop_first()[j]) by {
            assert(s.drop_first()[j] == s[j + 1]);
        }
        lemma_name_end_is(s.drop_first(), k - 1);
    }
}

/// Lower-cased in ASCII with `_` read as `-`.
pub open spec fn normalize_dist_name(s: Seq<char>) -> Seq<char> {
    ascii_lower(s).map_values(|c: char| if c == '_' { '-' } else { c })
}

/// The text of a requirement line before any `#` comment, trimmed.
pub open spec fn requirement_text(l: Seq<char>) -> Seq<char> {
    trim(l.subrange(0, find_char(l, '#')))
}

/// The requirement line names the `comfy-kitchen` distribution.
pub open spec fn names_kitchen(l: Seq<char>) -> bool {
    let t = requirement_text(l);
    let n = normalize_dist_name(t);
    t.len() > 0 && t[0] != '-' && trim(n.subrange(0, name_end(n))) == "comfy-kitchen"@
}

/// The first requirement line that names `comfy-kitchen`, without its comment.
pub open spec fn kitchen_requirement_scan(ls: Seq<Seq<char>>) -> Option<Seq<char>>
    decreases ls.len(),
{
    if ls.len() == 0 {
        None
    } else if names_kitchen(ls[0]) {
        Some(requirement_text(ls[0]))
    } else {
        kitchen_requirement_scan(ls.drop_first())
    }
}

fn normalize_dist_name_exec(v: &Vec<char>) -> (r: Vec<char>)
    ensures
        r@ == normalize_dist_name(v@),
{
    let low = ascii_lower_chars(v);
    let mut r: Vec<char> = Vec::new();
    let mut i: usize = 0;
    while i < low.len()
        invariant
            low@ == ascii_lower(v@),
            i <= low.len(),
            r@ == low@.subrange(0, i as int).map_values(|c: char| if c == '_' { '-' } else { c }),
        decreases low.len() - i,
    {
        r.push(if low[i] == '_' { '-' } else { low[i] });
        assert(low@.subrange(0, i + 1).map_values(|c: char| if c == '_' { '-' } else { c })
            == low@.subrange(0, i as int).map_values(|c: char| if c == '_' { '-' } else { c }).push(
            if low@[i as int] == '_' { '-' } else { low@[i as int] },
        ));
        i = i + 1;
    }
    assert(low@.subrange(0, low.len() as int) == low@);
    r
}

/// The `comfy-kitchen` requirement that ComfyUI declares in `requirements.txt`.
pub fn parse_comfy_kitchen_requirement(content: &str) -> (r: Option<String>)
    ensures
        ov(r) == kitchen_requirement_scan(lines(content@)),
{
    let ls = split_lines(&chars_of(content));
    let target = chars_of("comfy-kitchen");
    let mut i: usize = 0;
    assert(vv(ls@).subrange(0, vv(ls@).len() as int) == vv(ls@));
    while i < ls.len()
        invariant
            vv(ls@) == lines(content@),
            target@ == "comfy-kitchen"@,
            i <= ls@.len(),
            kitchen_requirement_scan(lines(content@)) == kitchen_requirement_scan(
                vv(ls@).subrange(i as int, ls@.len() as int),
            ),
        decreases ls@.len() - i,
    {
        let ghost rest_lines = vv(ls@).subrange(i as int, ls@.len() as int);
        assert(rest_lines.drop_first() == vv(ls@).subrange(i + 1, ls@.len() as int));
        assert(rest_lines[0] == ls@[i as int]@);
        let l = &ls[i];
        let hash = find_char_from(l, '#', 0);
        assert(l@.subrange(0, l@.len() as int) == l@);
        let before = slice_chars(l, 0, hash);
        let (a, b) = trim_bounds(&before);
        let t = slice_chars(&before, a, b);
        if t.len() > 0 && t[0] != '-' {
            let n = normalize_dist_name_exec(&t);
            let mut end: usize = 0;
            while end < n.len() && !(n[end] == '<' || n[end] == '>' || n[end] == '=' || n[end] == '!'
                || n[end] == '~' || n[end] == '[' || n[end] == '@' || n[end] == ';' || n[end] == ' ')
                invariant
                    end <= n.len(),
                    forall|j: int| 0 <= j < end ==> !is_name_end(n@[j]),
                decreases n.len() - end,
            {
                end = end + 1;
            }
            proof {
                lemma_name_end_is(n@, end as int);
            }
            let name = slice_chars(&n, 0, end);
            let (c, d) = trim_bounds(&name);
            let trimmed = slice_chars(&name, c, d);
            if crate::text::chars_eq(&trimmed, &target) {
                return Some(string_of(&t));
            }
        }
        i = i + 1;
    }
    None
}


fn dependency_error(m: String) -> (r: AppError)
    ensures
        r == AppError::Dependency(m),
{
    AppError::Dependency(m)
}

/// The last line of the probe's output that is not blank (the JSON payload).
pub open spec fn last_nonblank_line(ls: Seq<Seq<char>>) -> Option<Seq<char>>
    decreases ls.len(),
{
    if ls.len() == 0 {
        None
    } else if trim(ls.last()).len() > 0 {
        Some(ls.last())
    } else {
        last_nonblank_line(ls.drop_last())
    }
}

/// The JSON line of the Kitchen runtime probe's output.
pub fn probe_payload_line(stdout: &str) -> (r: AppResult<String>)
    ensures
        last_nonblank_line(lines(stdout@)) matches Some(l) ==> (r matches Ok(x) && x@ == l),
        last_nonblank_line(lines(stdout@)) is None ==> (r matches Err(AppError::Dependency(m))
            && m@ == "Kitchen runtime probe returned no JSON"@),
{
    let ls = split_lines(&chars_of(stdout));
    let mut j = ls.len();
    assert(vv(ls@).subrange(0, ls@.len() as int) == vv(ls@));
    while j > 0
        invariant
            vv(ls@) == lines(stdout@),
            j <= ls@.len(),
            last_nonblank_line(lines(stdout@)) == last_nonblank_line(vv(ls@).subrange(0, j as int)),
        decreases j,
    {
        let l = &ls[j - 1];
        assert(vv(ls@).subrange(0, j as int).last() == l@);
        assert(vv(ls@).subrange(0, j as int).drop_last() == vv(ls@).subrange(0, j - 1));
        let (a, b) = trim_bounds(l);
        if b > a {
            return Ok(string_of(l));
        }
        j = j - 1;
    }
    Err(dependency_error(owned("Kitchen runtime probe returned no JSON")))
}

/// 64 hexadecimal digits.
pub open spec fn is_sha256_hex(s: Seq<char>) -> bool {
    s.len() == 64 && forall|i: int| 0 <= i < s.len() ==> crate::patterns::is_hex_digit(#[trigger] s[i])
}

/// Checks the digest that the managed Python printed for the built wheel
/// and gives it in lower case.
pub fn validate_wheel_digest(stdout: &str) -> (r: AppResult<String>)
    ensures
        is_sha256_hex(trim(stdout@)) ==> (r matches Ok(d) && d@ == ascii_lower(trim(stdout@))),
        !is_sha256_hex(trim(stdout@)) ==> (r matches Err(AppError::Dependency(m)) && m@
            == "managed Python returned an invalid Kitchen wheel SHA-256: "@ + trim(stdout@)),
{
    let v = chars_of(stdout);
    let (a, b) = trim_bounds(&v);
    let digest = slice_chars(&v, a, b);
    let mut ok = digest.len() == 64;
    let mut i: usize = 0;
    while ok && i < digest.len()
        invariant
            i <= digest.len(),
            ok ==> digest.len() == 64,
            ok ==> forall|k: int| 0 <= k < i ==> crate::patterns::is_hex_digit(#[trigger] digest@[k]),
            !ok ==> !is_sha256_hex(digest@),
        decreases digest.len() - i,
    {
        let c = digest[i];
        if !(('0' <= c && c <= '9') || ('a' <= c && c <= 'f') || ('A' <= c && c <= 'F')) {
            ok = false;
            i = digest.len();
        } else {
            i = i + 1;
        }
    }
    if ok {
        Ok(string_of(&ascii_lower_chars(&digest)))
    } else {
        let mut m = owned("managed Python returned an invalid Kitchen wheel SHA-256: ");
        push_chars(&mut m, &digest);
        Err(dependency_error(m))
    }
}

/// The state recorded after a successful build and install, or the check
/// that the installed distribution failed.
pub open spec fn installed_check_error(probe: KitchenRuntimeProbe, artifact: Seq<char>) -> Option<
    Seq<char>,
> {
    if !probe.distribution_present {
        Some(
            "Comfy Kitchen wheel installation completed, but the managed Python environment has no comfy-kitchen distribution"@,
        )
    } else if !probe.import_ok {
        Some(
            "Comfy Kitchen wheel installation completed, but `import comfy_kitchen` failed: "@
                + match ov(probe.import_error) {
                Some(e) => e,
                None => "unknown import error"@,
            },
        )
    } else if differs_ignoring_case(ov(probe.direct_url_sha256), Some(artifact)) {
        Some(
            "installed Comfy Kitchen wheel provenance does not match the wheel that Patcher built: built "@
                + artifact + ", installed metadata "@ + ov(probe.direct_url_sha256)->0,
        )
    } else {
        None
    }
}

/// Checks a fresh probe after installing the wheel that was built from
/// `head_sha`, whose digest is `artifact_sha256`, and records the result.
pub fn record_installed_kitchen(
    probe: &KitchenRuntimeProbe,
    artifact_sha256: &str,
    head_sha: &str,
    now: &str,
) -> (r: AppResult<RepoMaterializationState>)
    ensures
        installed_check_error(*probe, artifact_sha256@) matches Some(m) ==> (r matches Err(
            AppError::Dependency(x),
        ) && x@ == m),
        installed_check_error(*probe, artifact_sha256@) is None ==> (r matches Ok(st) && {
            &&& st.status == MaterializationStatus::Current
            &&& ov(st.materialized_head_sha) == Some(head_sha@)
            &&& ov(st.installed_version) == ov(probe.installed_version)
            &&& ov(st.installed_origin) == (if probe.direct_url is Some {
                ov(probe.direct_url)
            } else {
                ov(probe.distribution_location)
            })
            &&& ov(st.artifact_sha256) == Some(artifact_sha256@)
            &&& ov(st.installed_record_sha256) == ov(probe.record_sha256)
            &&& ov(st.last_materialized_at) == Some(now@)
            &&& st.last_error is None
        }),
{
    if !probe.distribution_present {
        return Err(
            dependency_error(
                owned(
                    "Comfy Kitchen wheel installation completed, but the managed Python environment has no comfy-kitchen distribution",
                ),
            ),
        );
    }
    if !probe.import_ok {
        let mut m = owned(
            "Comfy Kitchen wheel installation completed, but `import comfy_kitchen` failed: ",
        );
        match &probe.import_error {
            Some(e) => push_str(&mut m, e.as_str()),
            None => push_str(&mut m, "unknown import error"),
        }
        return Err(dependency_error(m));
    }
    if let Some(installed) = &probe.direct_url_sha256 {
        if !eq_ignore_ascii_case_chars(&chars_of(installed.as_str()), &chars_of(artifact_sha256)) {
            let mut m = owned(
                "installed Comfy Kitchen wheel provenance does not match the wheel that Patcher built: built ",
            );
            push_str(&mut m, artifact_sha256);
            push_str(&mut m, ", installed metadata ");
            push_str(&mut m, installed.as_str());
            return Err(dependency_error(m));
        }
    }
    let origin = if probe.direct_url.is_some() {
        clone_opt(&probe.direct_url)
    } else {
        clone_opt(&probe.distribution_location)
    };
    Ok(RepoMaterializationState {
        materialized_head_sha: Some(owned(head_sha)),
        installed_version: clone_opt(&probe.installed_version),
        installed_origin: origin,
        artifact_sha256: Some(owned(artifact_sha256)),
        installed_record_sha256: clone_opt(&probe.record_sha256),
        status: MaterializationStatus::Current,
        last_materialized_at: Some(owned(now)),
        last_error: None,
    })
}

/// Checks the probe taken after restoring ComfyUI's own Kitchen requirement.
pub fn verify_restored_kitchen(requirement: &str, probe: &KitchenRuntimeProbe) -> (r: AppResult<()>)
    ensures
        probe.distribution_present && probe.import_ok ==> r is Ok,
        !(probe.distribution_present && probe.import_ok) ==> (r matches Err(
            AppError::Dependency(m),
        ) && m@ == "restored ComfyUI Kitchen requirement `"@ + requirement@
            + "`, but runtime verification failed: "@ + match ov(probe.import_error) {
            Some(e) => e,
            None => "distribution is missing"@,
        }),
{
    if probe.distribution_present && probe.import_ok {
        return Ok(());
    }
    let mut m = owned("restored ComfyUI Kitchen requirement `");
    push_str(&mut m, requirement);
    push_str(&mut m, "`, but runtime verification failed: ");
    match &probe.import_error {
        Some(e) => push_str(&mut m, e.as_str()),
        None => push_str(&mut m, "distribution is missing"),
    }
    Err(dependency_error(m))
}


/// A `.whl` file, the extension compared without ASCII case.
pub open spec fn is_wheel(p: Seq<char>) -> bool {
    path_extension_spec(p) matches Some(e) && eq_ignore_ascii_case(e, "whl"@)
}

/// The wheel files among directory entries, in order.
pub open spec fn wheel_entries(entries: Seq<Seq<char>>) -> Seq<Seq<char>>
    decreases entries.len(),
{
    if entries.len() == 0 {
        entries
    } else if is_wheel(entries.last()) {
        wheel_entries(entries.drop_last()).push(entries.last())
    } else {
        wheel_entries(entries.drop_last())
    }
}

/// The single wheel that a build left in `build_dir`, given the entries of
/// that directory.
pub fn select_built_wheel(entries: &Vec<String>, build_dir: &str) -> (r: AppResult<String>)
    ensures
        wheel_entries(sv(entries@)).len() == 1 ==> (r matches Ok(w) && w@ == wheel_entries(
            sv(entries@),
        )[0]),
        wheel_entries(sv(entries@)).len() == 0 ==> (r matches Err(AppError::Dependency(m)) && m@
            == "Kitchen wheel build succeeded but produced no wheel in "@ + build_dir@),
        wheel_entries(sv(entries@)).len() > 1 ==> (r matches Err(AppError::Dependency(m)) && m@
            == "Kitchen wheel build produced "@ + crate::text::decimal(
            wheel_entries(sv(entries@)).len(),
        ) + " wheels in "@ + build_dir@ + "; expected exactly one"@),
{
    let mut wheels: Vec<String> = Vec::new();
    let whl = chars_of("whl");
    let mut i: usize = 0;
    while i < entries.len()
        invariant
            i <= entries.len(),
            whl@ == "whl"@,
            sv(wheels@) == wheel_entries(sv(entries@.subrange(0, i as int))),
        decreases entries.len() - i,
    {
        assert(sv(entries@.subrange(0, i + 1)).drop_last() == sv(entries@.subrange(0, i as int)));
        let is_whl = match path_extension(entries[i].as_str()) {
            Some(e) => eq_ignore_ascii_case_chars(&chars_of(e.as_str()), &whl),
            None => false,
        };
        if is_whl {
            let ghost before = sv(wheels@);
            wheels.push(entries[i].clone());
            assert(sv(wheels@) == before.push(entries@[i as int]@));
        }
        i = i + 1;
    }
    assert(entries@.subrange(0, entries.len() as int) == entries@);
    if wheels.len() == 1 {
        return Ok(wheels[0].clone());
    }
    if wheels.len() == 0 {
        let mut m = owned("Kitchen wheel build succeeded but produced no wheel in ");
        push_str(&mut m, build_dir);
        return Err(dependency_error(m));
    }
    let mut m = owned("Kitchen wheel build produced ");
    let count = crate::text::u64_decimal(wheels.len() as u64);
    push_str(&mut m, count.as_str());
    push_str(&mut m, " wheels in ");
    push_str(&mut m, build_dir);
    push_str(&mut m, "; expected exactly one");
    Err(dependency_error(m))
}


/// Kitchen source materialization works on Kitchen checkouts only.
pub fn require_kitchen_repo(repo: &ManagedRepo) -> (r: AppResult<()>)
    ensures
        r is Ok <==> repo.kind == crate::models::RepoKind::Kitchen,
        r matches Err(e) ==> (e matches AppError::InvalidInput(m) && m@
            == "Kitchen project materialization requires a kitchen repository"@),
{
    if repo.kind == crate::models::RepoKind::Kitchen {
        Ok(())
    } else {
        Err(AppError::InvalidInput(owned("Kitchen project materialization requires a kitchen repository")))
    }
}

/// The source revision a Kitchen build is made from; an error where the
/// checkout's HEAD does not resolve.
pub fn kitchen_head(head_sha: Option<String>) -> (r: AppResult<String>)
    ensures
        head_sha matches Some(h) ==> r == Ok::<String, AppError>(h),
        head_sha is None ==> (r matches Err(AppError::Git(m)) && m@
            == "cannot materialize Comfy Kitchen source: repository HEAD could not be resolved"@),
{
    match head_sha {
        Some(h) => Ok(h),
        None => Err(AppError::Git(owned("cannot materialize Comfy Kitchen source: repository HEAD could not be resolved"))),
    }
}

/// The build directory of a Kitchen build, relative to the checkout:
/// `.patcher-build/<build id>`.
pub fn kitchen_build_dir_arg(build_id: &str) -> (r: String)
    ensures
        r@ == ".patcher-build/"@ + build_id@,
{
    let mut r = owned(".patcher-build/");
    push_str(&mut r, build_id);
    r
}

/// The built wheel, relative to the checkout: `<build dir>/<wheel name>`.
pub fn kitchen_wheel_arg(wheel_dir_arg: &str, wheel_name: &str) -> (r: String)
    ensures
        r@ == wheel_dir_arg@ + "/"@ + wheel_name@,
{
    let mut r = owned(wheel_dir_arg);
    push_str(&mut r, "/");
    push_str(&mut r, wheel_name);
    r
}

/// The error for a Kitchen command that failed: what it was doing, its exit
/// status and both outputs.
pub fn kitchen_command_failure(context: &str, status: &str, stdout: &str, stderr: &str) -> (r: AppError)
    ensures
        r matches AppError::Dependency(m) && m@ == context@ + " failed ("@ + status@ + "):\n"@ + stdout@ + "\n"@
            + stderr@,
{
    let mut m = owned(context);
    push_str(&mut m, " failed (");
    push_str(&mut m, status);
    push_str(&mut m, "):\n");
    push_str(&mut m, stdout);
    push_str(&mut m, "\n");
    push_str(&mut m, stderr);
    AppError::Dependency(m)
}

/// The requirement ComfyUI declares for Kitchen in `requirements.txt`;
/// an error naming the file where it declares none.
pub fn comfy_kitchen_requirement(content: &str, requirements_path: &str) -> (r: AppResult<String>)
    ensures
        kitchen_requirement_scan(lines(content@)) matches Some(q) ==> (r matches Ok(x) && x@ == q),
        kitchen_requirement_scan(lines(content@)) is None ==> (r matches Err(AppError::Dependency(m)) && m@
            == "current ComfyUI checkout does not declare a comfy-kitchen requirement in "@ + requirements_path@),
{
    match parse_comfy_kitchen_requirement(content) {
        Some(q) => Ok(q),
        None => {
            let mut m = owned("current ComfyUI checkout does not declare a comfy-kitchen requirement in ");
            push_str(&mut m, requirements_path);
            Err(AppError::Dependency(m))
        },
    }
}

} // verus!
