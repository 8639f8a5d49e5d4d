//! Dependency-sync planning for Python and frontend repositories.
use vstd::prelude::*;
use crate::errors::{AppError, AppResult};
use crate::models::{
    DependencyPlan, DependencyStep, FrontendPackageManager, Installation, ManagedRepo, RepoKind,
};
use crate::text::{
    chars_eq, chars_of, clone_strings, find_char, find_char_from, find_sub, find_sub_exec, owned,
    contains_exec, contains_spec, push_owned, push_str, slice_chars, sv, trim, trim_bounds, trim_start, trim_end, is_ws,
};
use crate::unicode::{lowercase_spec, to_lowercase};

verus! {

pub open spec fn step_view(s: DependencyStep) -> (
    Seq<char>,
    Seq<char>,
    Seq<char>,
    Seq<Seq<char>>,
    Seq<char>,
    Seq<char>,
) {
    (s.phase@, s.strategy@, s.command@, sv(s.args@), s.cwd@, s.reason@)
}

pub open spec fn plan_view(p: DependencyPlan) -> (
    Seq<char>,
    Seq<char>,
    Seq<(Seq<char>, Seq<char>, Seq<char>, Seq<Seq<char>>, Seq<char>, Seq<char>)>,
) {
    (p.strategy@, p.reason@, p.steps@.map_values(|s: DependencyStep| step_view(s)))
}

/// What was read from a repository checkout for planning.
pub struct ManifestFacts {
    /// `requirements.txt` exists.
    pub requirements_txt: bool,
    /// `pyproject.toml`, where it exists: its non-empty `[project]
    /// dependencies` list, or the error of reading or parsing it.
    pub pyproject: Option<AppResult<Option<Vec<String>>>>,
    /// `package.json`: what the plan reads of it, or the error of reading it.
    pub package_json: AppResult<PackageJsonFacts>,
    /// `pnpm-lock.yaml` exists.
    pub pnpm_lock: bool,
    /// `yarn.lock` exists.
    pub yarn_lock: bool,
}

/// What the plan reads of `package.json`.
pub struct PackageJsonFacts {
    /// `scripts.build` is a string.
    pub has_build_script: bool,
    /// The `packageManager` field, where it is a string.
    pub package_manager: Option<String>,
}

/// What `package.json` holds of the plan's interest, where the text parses
/// as JSON: whether `scripts` is an object whose `build` is a string, and
/// the `packageManager` field where it is a string.
pub uninterp spec fn package_json_fields(content: Seq<char>) -> Option<(bool, Option<Seq<char>>)>;

/// Parses `content` with `serde_json::from_str` into a `serde_json::Value`
/// and reads `value["scripts"]["build"]` (a string or not) and
/// `value["packageManager"]` (where it is a string); indexing a `Value`
/// gives `Null` where the key or an object is missing. The result is the
/// named `package_json_fields` of the text; on a parse error the error's own
/// description comes back, which is left unsaid.
#[verifier::external_body]
fn parse_package_json_fields(content: &str) -> (r: Result<(bool, Option<String>), String>)
    ensures
        r is Err <==> package_json_fields(content@) is None,
        r matches Ok((b, pm)) ==> package_json_fields(content@) == Some((b, crate::text::ov(pm))),
{
    let value: serde_json::Value = match serde_json::from_str(content) {
        Ok(value) => value,
        Err(error) => return Err(error.to_string()),
    };
    let has_build_script = value["scripts"]["build"].is_string();
    let package_manager = value["packageManager"].as_str().map(str::to_string);
    Ok((has_build_script, package_manager))
}

/// What the plan reads of the `package.json` at `path`, whose text is
/// `content`; a text that does not parse is a dependency error.
pub fn package_json_facts(content: &str, path: &str) -> (r: AppResult<PackageJsonFacts>)
    ensures
        r is Err <==> package_json_fields(content@) is None,
        r matches Ok(f) ==> package_json_fields(content@) == Some(
            (f.has_build_script, crate::text::ov(f.package_manager)),
        ),
        r matches Err(e) ==> (e matches AppError::Dependency(m) && m@.len() >= ("failed to parse "@
            + path@ + ": "@).len() && m@.subrange(0, ("failed to parse "@ + path@ + ": "@).len() as int)
            == "failed to parse "@ + path@ + ": "@),
{
    match parse_package_json_fields(content) {
        Ok((has_build_script, package_manager)) => Ok(PackageJsonFacts { has_build_script, package_manager }),
        Err(detail) => {
            let mut m = String::from_str("failed to parse ");
            push_str(&mut m, path);
            push_str(&mut m, ": ");
            let ghost prefix = m@;
            push_str(&mut m, detail.as_str());
            assert(m@.subrange(0, prefix.len() as int) =~= prefix);
            Err(AppError::Dependency(m))
        },
    }
}

/// What `pyproject.toml` declares as `[project] dependencies`, where the
/// text parses as TOML and `project` (where present) is a table whose
/// `dependencies` (where present) is an array of strings: `Some(None)` where
/// either is absent.
pub uninterp spec fn pyproject_dependencies(content: Seq<char>) -> Option<Option<Seq<Seq<char>>>>;

/// Parses `content` with `toml::from_str` into a `toml::Table`, then
/// converts its `project` entry to a `toml::Table` and that table's
/// `dependencies` entry to a `Vec<String>`, each with `toml::Value::try_into`.
/// The result is the named `pyproject_dependencies` of the text; where a step
/// fails, the error's own description comes back, which is left unsaid.
#[verifier::external_body]
fn parse_pyproject_dependencies(content: &str) -> (r: Result<Option<Vec<String>>, String>)
    ensures
        r is Err <==> pyproject_dependencies(content@) is None,
        r matches Ok(d) ==> pyproject_dependencies(content@) == Some(crate::registry::osv(d)),
{
    let document: toml::Table = match toml::from_str(content) {
        Ok(document) => document,
        Err(error) => return Err(error.to_string()),
    };
    let project: toml::Table = match document.get("project").cloned().map(toml::Value::try_into) {
        None => return Ok(None),
        Some(Ok(project)) => project,
        Some(Err(error)) => return Err(error.to_string()),
    };
    match project.get("dependencies").cloned().map(toml::Value::try_into) {
        None => Ok(None),
        Some(Ok(dependencies)) => Ok(Some(dependencies)),
        Some(Err(error)) => Err(error.to_string()),
    }
}

/// The `[project] dependencies` list of `pyproject.toml`, where it has one
/// that is not empty.
pub fn pyproject_dependency_list(dependencies: Option<Vec<String>>) -> (r: Option<Vec<String>>)
    ensures
        r == (match dependencies {
            Some(d) => if d@.len() > 0 { Some(d) } else { None },
            None => None,
        }),
{
    match dependencies {
        Some(d) => if d.len() > 0 { Some(d) } else { None },
        None => None,
    }
}

/// The non-empty `[project] dependencies` list of the `pyproject.toml` at
/// `path`, whose text is `content`; a text that does not parse into that
/// shape is a dependency error.
pub fn pyproject_facts(content: &str, path: &str) -> (r: AppResult<Option<Vec<String>>>)
    ensures
        r is Err <==> pyproject_dependencies(content@) is None,
        r matches Ok(d) ==> (pyproject_dependencies(content@) matches Some(x) && crate::registry::osv(d)
            == (match x {
            Some(v) => if v.len() > 0 { Some(v) } else { None },
            None => None,
        })),
        r matches Err(e) ==> (e matches AppError::Dependency(m) && m@.len() >= ("failed to parse "@
            + path@ + ": "@).len() && m@.subrange(0, ("failed to parse "@ + path@ + ": "@).len() as int)
            == "failed to parse "@ + path@ + ": "@),
{
    match parse_pyproject_dependencies(content) {
        Ok(dependencies) => Ok(pyproject_dependency_list(dependencies)),
        Err(detail) => {
            let mut m = String::from_str("failed to parse ");
            push_str(&mut m, path);
            push_str(&mut m, ": ");
            let ghost prefix = m@;
            push_str(&mut m, detail.as_str());
            assert(m@.subrange(0, prefix.len() as int) =~= prefix);
            Err(AppError::Dependency(m))
        },
    }
}

fn step(phase: &str, strategy: String, command: String, args: Vec<String>, cwd: &str, reason: String) -> (r:
    DependencyStep)
    ensures
        r.phase@ == phase@,
        r.strategy == strategy,
        r.command == command,
        r.args == args,
        r.cwd@ == cwd@,
        r.reason == reason,
{
    DependencyStep { phase: owned(phase), strategy, command, args, cwd: owned(cwd), reason }
}

/// A plan made of one step, with the step's strategy and reason.
pub fn single_step_plan(step: DependencyStep) -> (r: DependencyPlan)
    ensures
        r.strategy@ == step.strategy@,
        r.reason@ == step.reason@,
        r.steps@ == seq![step],
{
    let strategy = step.strategy.clone();
    let reason = step.reason.clone();
    let mut steps: Vec<DependencyStep> = Vec::new();
    steps.push(step);
    DependencyPlan { strategy, reason, steps }
}

fn empty_plan(strategy: &str, reason: &str) -> (r: DependencyPlan)
    ensures
        r.strategy@ == strategy@,
        r.reason@ == reason@,
        r.steps@.len() == 0,
{
    DependencyPlan { strategy: owned(strategy), reason: owned(reason), steps: Vec::new() }
}

/// The command that runs a package manager.
pub open spec fn command_name_spec(pm: FrontendPackageManager) -> Seq<char> {
    match pm {
        FrontendPackageManager::Auto => "npm"@,
        FrontendPackageManager::Npm => "npm"@,
        FrontendPackageManager::Pnpm => "pnpm"@,
        FrontendPackageManager::Yarn => "yarn"@,
    }
}

pub fn frontend_command_name(package_manager: &FrontendPackageManager) -> (r: &'static str)
    ensures
        r@ == command_name_spec(*package_manager),
{
    match package_manager {
        FrontendPackageManager::Auto => "npm",
        FrontendPackageManager::Npm => "npm",
        FrontendPackageManager::Pnpm => "pnpm",
        FrontendPackageManager::Yarn => "yarn",
    }
}

fn strings1(a: &str) -> (r: Vec<String>)
    ensures
        sv(r@) == seq![a@],
{
    let mut r: Vec<String> = Vec::new();
    r.push(owned(a));
    r
}

fn strings2(a: &str, b: &str) -> (r: Vec<String>)
    ensures
        sv(r@) == seq![a@, b@],
{
    let mut r: Vec<String> = Vec::new();
    r.push(owned(a));
    r.push(owned(b));
    r
}

/// Install arguments: pnpm installs from its lockfile as it stands.
pub open spec fn install_args_spec(pm: FrontendPackageManager) -> Seq<Seq<char>> {
    match pm {
        FrontendPackageManager::Pnpm => seq!["install"@, "--frozen-lockfile"@],
        _ => seq!["install"@],
    }
}

pub fn frontend_install_args(package_manager: &FrontendPackageManager) -> (r: Vec<String>)
    ensures
        sv(r@) == install_args_spec(*package_manager),
{
    match package_manager {
        FrontendPackageManager::Npm | FrontendPackageManager::Auto => strings1("install"),
        FrontendPackageManager::Pnpm => strings2("install", "--frozen-lockfile"),
        FrontendPackageManager::Yarn => strings1("install"),
    }
}

/// Build arguments: `run build`, or `build` for yarn.
pub open spec fn build_args_spec(pm: FrontendPackageManager) -> Seq<Seq<char>> {
    match pm {
        FrontendPackageManager::Yarn => seq!["build"@],
        _ => seq!["run"@, "build"@],
    }
}

pub fn frontend_build_args(package_manager: &FrontendPackageManager) -> (r: Vec<String>)
    ensures
        sv(r@) == build_args_spec(*package_manager),
{
    match package_manager {
        FrontendPackageManager::Npm | FrontendPackageManager::Pnpm | FrontendPackageManager::Auto => {
            strings2("run", "build")
        },
        FrontendPackageManager::Yarn => strings1("build"),
    }
}

/// Kitchen is built and installed as a project; generic sync does nothing.
pub fn kitchen_project_plan() -> (r: DependencyPlan)
    ensures
        r.strategy@ == "project_materialization"@,
        r.reason@
            == "Comfy Kitchen is built and installed as a source project; generic dependency sync does not install the project itself"@,
        r.steps@.len() == 0,
{
    empty_plan(
        "project_materialization",
        "Comfy Kitchen is built and installed as a source project; generic dependency sync does not install the project itself",
    )
}

/// The package manager that a `packageManager` field such as `pnpm@9.1.0` names.
pub open spec fn package_manager_field_spec(raw: Seq<char>) -> Option<FrontendPackageManager> {
    let t = trim(raw);
    let name = trim(t.subrange(0, find_char(t, '@')));
    if name == "npm"@ {
        Some(FrontendPackageManager::Npm)
    } else if name == "pnpm"@ {
        Some(FrontendPackageManager::Pnpm)
    } else if name == "yarn"@ {
        Some(FrontendPackageManager::Yarn)
    } else {
        None
    }
}

/// A `packageManager` field that names `npm`, `pnpm` or `yarn` (after
/// trimming, before any `@version`) selects the manager of that same name.
pub proof fn law_package_manager_field_names_manager(raw: Seq<char>, name: Seq<char>, rest: Seq<char>)
    requires
        name == "npm"@ || name == "pnpm"@ || name == "yarn"@,
        trim(raw) == name + rest,
        rest.len() == 0 || rest[0] == '@',
    ensures
        package_manager_field_spec(raw) matches Some(pm) && command_name_spec(pm) == name,
{
    reveal_strlit("npm");
    reveal_strlit("pnpm");
    reveal_strlit("yarn");
    let t = trim(raw);
    crate::text::lemma_find_char(t, '@');
    let f = find_char(t, '@');
    assert forall|k: int| 0 <= k < name.len() implies t[k] != '@' by {
        assert(t[k] == name[k]);
    }
    if rest.len() > 0 {
        assert(t[name.len() as int] == '@');
    }
    assert(f == name.len());
    assert(t.subrange(0, f) =~= name);
    assert(!is_ws(name[0]) && !is_ws(name.last()));
    assert(trim_start(name) == name);
    assert(trim_end(name) == name);
}

/// Reads the package manager out of a `packageManager` field value.
pub fn package_manager_from_field(raw: &str) -> (r: Option<FrontendPackageManager>)
    ensures
        r == package_manager_field_spec(raw@),
{
    let v = chars_of(raw);
    let (a, b) = trim_bounds(&v);
    let t = slice_chars(&v, a, b);
    let at = find_char_from(&t, '@', 0);
    assert(t@.subrange(0, t@.len() as int) == t@);
    let head = slice_chars(&t, 0, at);
    let (c, d) = trim_bounds(&head);
    let name = slice_chars(&head, c, d);
    if chars_eq(&name, &chars_of("npm")) {
        Some(FrontendPackageManager::Npm)
    } else if chars_eq(&name, &chars_of("pnpm")) {
        Some(FrontendPackageManager::Pnpm)
    } else if chars_eq(&name, &chars_of("yarn")) {
        Some(FrontendPackageManager::Yarn)
    } else {
        None
    }
}

/// The package manager to use: an explicit choice, else `packageManager`,
/// else the lockfile present (pnpm before yarn), else npm.
pub open spec fn detect_package_manager_spec(
    preferred: FrontendPackageManager,
    field: Option<Seq<char>>,
    pnpm_lock: bool,
    yarn_lock: bool,
) -> FrontendPackageManager {
    if preferred != FrontendPackageManager::Auto {
        preferred
    } else if field matches Some(f) && package_manager_field_spec(f) is Some {
        package_manager_field_spec(field->0)->0
    } else if pnpm_lock {
        FrontendPackageManager::Pnpm
    } else if yarn_lock {
        FrontendPackageManager::Yarn
    } else {
        FrontendPackageManager::Npm
    }
}

pub fn detect_frontend_package_manager(
    preferred: &FrontendPackageManager,
    package_json: &PackageJsonFacts,
    pnpm_lock: bool,
    yarn_lock: bool,
) -> (r: FrontendPackageManager)
    ensures
        r == detect_package_manager_spec(
            *preferred,
            crate::text::ov(package_json.package_manager),
            pnpm_lock,
            yarn_lock,
        ),
{
    if *preferred != FrontendPackageManager::Auto {
        return *preferred;
    }
    if let Some(raw) = &package_json.package_manager {
        if let Some(pm) = package_manager_from_field(raw.as_str()) {
            return pm;
        }
    }
    if pnpm_lock {
        FrontendPackageManager::Pnpm
    } else if yarn_lock {
        FrontendPackageManager::Yarn
    } else {
        FrontendPackageManager::Npm
    }
}


pub type StepView = (Seq<char>, Seq<char>, Seq<char>, Seq<Seq<char>>, Seq<char>, Seq<char>);

pub type PlanView = (Seq<char>, Seq<char>, Seq<StepView>);

/// What planning owes for a repository.
pub enum PlanOutcome {
    /// A plan with this view.
    Plan(PlanView),
    /// A dependency error with this text.
    Fail(Seq<char>),
    /// The error met while reading the repository's manifest.
    ReadError(AppError),
}

/// The result `r` is what `outcome` says.
pub open spec fn plan_matches(r: AppResult<DependencyPlan>, outcome: PlanOutcome) -> bool {
    match outcome {
        PlanOutcome::Plan(v) => r matches Ok(p) && plan_view(p) == v,
        PlanOutcome::Fail(m) => r matches Err(AppError::Dependency(x)) && x@ == m,
        PlanOutcome::ReadError(e) => r == Err::<DependencyPlan, AppError>(e),
    }
}

pub open spec fn no_step_plan(strategy: Seq<char>, reason: Seq<char>) -> PlanView {
    (strategy, reason, Seq::empty())
}

/// Python dependencies: `requirements.txt` first, then the `[project]
/// dependencies` of `pyproject.toml`.
pub open spec fn python_plan_spec(python: Seq<char>, cwd: Seq<char>, facts: ManifestFacts) -> PlanOutcome {
    if facts.requirements_txt {
        PlanOutcome::Plan(
            (
                "requirements"@,
                "requirements.txt detected"@,
                seq![
                    (
                        "install"@,
                        "requirements"@,
                        python,
                        seq!["-m"@, "pip"@, "install"@, "-r"@, "requirements.txt"@],
                        cwd,
                        "requirements.txt detected"@,
                    ),
                ],
            ),
        )
    } else {
        match facts.pyproject {
            Some(Err(e)) => PlanOutcome::ReadError(e),
            Some(Ok(Some(deps))) => PlanOutcome::Plan(
                (
                    "pyproject_dependencies"@,
                    "pyproject.toml dependency metadata detected"@,
                    seq![
                        (
                            "install"@,
                            "pyproject_dependencies"@,
                            python,
                            seq!["-m"@, "pip"@, "install"@] + sv(deps@),
                            cwd,
                            "pyproject.toml dependency metadata detected"@,
                        ),
                    ],
                ),
            ),
            Some(Ok(None)) => PlanOutcome::Plan(
                no_step_plan(
                    "none"@,
                    "pyproject.toml detected, but no standalone dependency list was found"@,
                ),
            ),
            None => PlanOutcome::Plan(no_step_plan("none"@, "no supported dependency manifest found"@)),
        }
    }
}

fn python_dependency_plan(installation: &Installation, repo_path: &str, facts: ManifestFacts) -> (r:
    AppResult<DependencyPlan>)
    ensures
        plan_matches(r, python_plan_spec(installation.python_exe@, repo_path@, facts)),
{
    if facts.requirements_txt {
        let mut args = strings2("-m", "pip");
        push_owned(&mut args, "install");
        push_owned(&mut args, "-r");
        push_owned(&mut args, "requirements.txt");
        assert(sv(args@) =~= seq!["-m"@, "pip"@, "install"@, "-r"@, "requirements.txt"@]);
        let st = step(
            "install",
            owned("requirements"),
            installation.python_exe.clone(),
            args,
            repo_path,
            owned("requirements.txt detected"),
        );
        let p = single_step_plan(st);
        assert(p.steps@.map_values(|s: DependencyStep| step_view(s)) == seq![step_view(st)]);
        return Ok(p);
    }
    match facts.pyproject {
        Some(Err(e)) => Err(e),
        Some(Ok(Some(deps))) => {
            let mut args = strings2("-m", "pip");
            push_owned(&mut args, "install");
            let ghost head = sv(args@);
            let mut i: usize = 0;
            while i < deps.len()
                invariant
                    i <= deps.len(),
                    sv(args@) == head + sv(deps@.subrange(0, i as int)),
                decreases deps.len() - i,
            {
                let ghost before = sv(args@);
                push_owned(&mut args, deps[i].as_str());
                assert(sv(args@) == before.push(deps@[i as int]@));
                assert(sv(deps@.subrange(0, i + 1)) == sv(deps@.subrange(0, i as int)).push(
                    deps@[i as int]@,
                ));
                i = i + 1;
            }
            assert(deps@.subrange(0, deps.len() as int) == deps@);
            assert(head =~= seq!["-m"@, "pip"@, "install"@]);
            let st = step(
                "install",
                owned("pyproject_dependencies"),
                installation.python_exe.clone(),
                args,
                repo_path,
                owned("pyproject.toml dependency metadata detected"),
            );
            let p = single_step_plan(st);
            assert(p.steps@.map_values(|s: DependencyStep| step_view(s)) == seq![step_view(st)]);
            Ok(p)
        },
        Some(Ok(None)) => {
            let p = empty_plan(
                "none",
                "pyproject.toml detected, but no standalone dependency list was found",
            );
            assert(p.steps@.map_values(|s: DependencyStep| step_view(s)) =~= Seq::empty());
            Ok(p)
        },
        None => {
            let p = empty_plan("none", "no supported dependency manifest found");
            assert(p.steps@.map_values(|s: DependencyStep| step_view(s)) =~= Seq::empty());
            Ok(p)
        },
    }
}

/// The strategy name of a package manager.
pub open spec fn pm_strategy(pm: FrontendPackageManager) -> Seq<char> {
    match pm {
        FrontendPackageManager::Auto => "node_auto"@,
        FrontendPackageManager::Npm => "npm"@,
        FrontendPackageManager::Pnpm => "pnpm"@,
        FrontendPackageManager::Yarn => "yarn"@,
    }
}

/// The managed frontend: install, then build with the detected package manager.
pub open spec fn frontend_plan_spec(installation: Installation, cwd: Seq<char>, facts: ManifestFacts) -> PlanOutcome {
    match installation.frontend_settings {
        None => PlanOutcome::Fail("installation has no managed frontend settings"@),
        Some(settings) => match facts.package_json {
            Err(e) => PlanOutcome::ReadError(e),
            Ok(pj) => if !pj.has_build_script {
                PlanOutcome::Fail("managed frontend repo has no build script in package.json"@)
            } else {
                let pm = detect_package_manager_spec(
                    settings.package_manager,
                    crate::text::ov(pj.package_manager),
                    facts.pnpm_lock,
                    facts.yarn_lock,
                );
                let name = command_name_spec(pm);
                PlanOutcome::Plan(
                    (
                        pm_strategy(pm),
                        "package.json with build script detected; using "@ + name,
                        seq![
                            (
                                "install"@,
                                name + "_install"@,
                                name,
                                install_args_spec(pm),
                                cwd,
                                "frontend dependency install"@,
                            ),
                            (
                                "build"@,
                                name + "_build"@,
                                name,
                                build_args_spec(pm),
                                cwd,
                                "frontend build; expected output "@ + settings.dist_path@,
                            ),
                        ],
                    ),
                )
            },
        },
    }
}

fn concat(a: &str, b: &str) -> (r: String)
    ensures
        r@ == a@ + b@,
{
    let mut r = owned(a);
    push_str(&mut r, b);
    r
}

fn frontend_dependency_plan(installation: &Installation, repo_path: &str, facts: ManifestFacts) -> (r:
    AppResult<DependencyPlan>)
    ensures
        plan_matches(r, frontend_plan_spec(*installation, repo_path@, facts)),
{
    let settings = match &installation.frontend_settings {
        Some(s) => s,
        None => return Err(AppError::Dependency(owned("installation has no managed frontend settings"))),
    };
    let pj = match facts.package_json {
        Ok(pj) => pj,
        Err(e) => return Err(e),
    };
    if !pj.has_build_script {
        return Err(
            AppError::Dependency(owned("managed frontend repo has no build script in package.json")),
        );
    }
    let pm = detect_frontend_package_manager(&settings.package_manager, &pj, facts.pnpm_lock, facts.yarn_lock);
    let name = frontend_command_name(&pm);
    let strategy = match pm {
        FrontendPackageManager::Auto => owned("node_auto"),
        FrontendPackageManager::Npm => owned("npm"),
        FrontendPackageManager::Pnpm => owned("pnpm"),
        FrontendPackageManager::Yarn => owned("yarn"),
    };
    let install = step(
        "install",
        concat(name, "_install"),
        owned(name),
        frontend_install_args(&pm),
        repo_path,
        owned("frontend dependency install"),
    );
    let build = step(
        "build",
        concat(name, "_build"),
        owned(name),
        frontend_build_args(&pm),
        repo_path,
        concat("frontend build; expected output ", settings.dist_path.as_str()),
    );
    let mut steps: Vec<DependencyStep> = Vec::new();
    steps.push(install);
    steps.push(build);
    let p = DependencyPlan {
        strategy,
        reason: concat("package.json with build script detected; using ", name),
        steps,
    };
    assert(p.steps@.map_values(|s: DependencyStep| step_view(s)) == seq![
        step_view(install),
        step_view(build),
    ]);
    Ok(p)
}

/// The plan a repository owes, by kind.
pub open spec fn dependency_plan_spec(installation: Installation, repo: ManagedRepo, cwd: Seq<char>, facts: ManifestFacts) -> PlanOutcome {
    match repo.kind {
        RepoKind::Core | RepoKind::CustomNode => python_plan_spec(installation.python_exe@, cwd, facts),
        RepoKind::Frontend => frontend_plan_spec(installation, cwd, facts),
        RepoKind::Kitchen => PlanOutcome::Plan(
            no_step_plan(
                "project_materialization"@,
                "Comfy Kitchen is built and installed as a source project; generic dependency sync does not install the project itself"@,
            ),
        ),
    }
}

/// Plans how to sync a repository's dependencies from what its checkout holds.
pub fn plan_dependency_sync(installation: &Installation, repo: &ManagedRepo, repo_path: &str, facts: ManifestFacts) -> (r:
    AppResult<DependencyPlan>)
    ensures
        plan_matches(r, dependency_plan_spec(*installation, *repo, repo_path@, facts)),
{
    match repo.kind {
        RepoKind::Core | RepoKind::CustomNode => python_dependency_plan(installation, repo_path, facts),
        RepoKind::Frontend => frontend_dependency_plan(installation, repo_path, facts),
        RepoKind::Kitchen => {
            let p = kitchen_project_plan();
            assert(p.steps@.map_values(|s: DependencyStep| step_view(s)) =~= Seq::empty());
            Ok(p)
        },
    }
}


/// The combined output of a failed install, lower-cased.
pub open spec fn combined_output(stderr: Seq<char>, stdout: Seq<char>) -> Seq<char> {
    lowercase_spec(stderr) + seq!['\n'] + lowercase_spec(stdout)
}

/// A frozen-lockfile pnpm install failed because the lockfile is stale or
/// absent: it is retried without the frozen lockfile.
pub open spec fn pnpm_retry_spec(step: DependencyStep, success: bool, stderr: Seq<char>, stdout: Seq<char>) -> bool {
    let c = combined_output(stderr, stdout);
    &&& step.command@ == "pnpm"@
    &&& step.phase@ == "install"@
    &&& sv(step.args@) == seq!["install"@, "--frozen-lockfile"@]
    &&& !success
    &&& (contains_spec(c, "err_pnpm_outdated_lockfile"@) || contains_spec(
        c,
        "cannot install with \"frozen-lockfile\""@,
    ) || (contains_spec(c, "frozen-lockfile"@) && (contains_spec(c, "not up to date"@)
        || contains_spec(c, "pnpm-lock.yaml is absent"@) || contains_spec(
        c,
        "headless installation requires a pnpm-lock.yaml file"@,
    ))))
}

fn strings_eq2(v: &Vec<String>, a: &str, b: &str) -> (r: bool)
    ensures
        r == (sv(v@) == seq![a@, b@]),
{
    if v.len() != 2 {
        assert(sv(v@).len() != 2);
        return false;
    }
    let r = crate::text::str_eq(v[0].as_str(), a) && crate::text::str_eq(v[1].as_str(), b);
    if r {
        assert(sv(v@) =~= seq![a@, b@]);
    } else {
        assert(sv(v@)[0] == v@[0]@ && sv(v@)[1] == v@[1]@);
    }
    r
}

/// Decides whether a failed dependency step is retried as a pnpm install
/// without the frozen lockfile, from its exit status and output.
pub fn should_retry_pnpm_without_frozen_lockfile(
    step: &DependencyStep,
    success: bool,
    stderr: &str,
    stdout: &str,
) -> (r: bool)
    ensures
        r == pnpm_retry_spec(*step, success, stderr@, stdout@),
{
    if !crate::text::str_eq(step.command.as_str(), "pnpm") || !crate::text::str_eq(
        step.phase.as_str(),
        "install",
    ) || !strings_eq2(&step.args, "install", "--frozen-lockfile") || success {
        return false;
    }
    let mut combined = to_lowercase(stderr);
    crate::text::push_char(&mut combined, '\n');
    let lower_out = to_lowercase(stdout);
    push_str(&mut combined, lower_out.as_str());
    assert(combined@ == combined_output(stderr@, stdout@));
    let c = chars_of(combined.as_str());
    contains_exec(&c, &chars_of("err_pnpm_outdated_lockfile")) || contains_exec(
        &c,
        &chars_of("cannot install with \"frozen-lockfile\""),
    ) || (contains_exec(&c, &chars_of("frozen-lockfile")) && (contains_exec(
        &c,
        &chars_of("not up to date"),
    ) || contains_exec(&c, &chars_of("pnpm-lock.yaml is absent")) || contains_exec(
        &c,
        &chars_of("headless installation requires a pnpm-lock.yaml file"),
    )))
}


/// The arguments of the retried pnpm install: without the frozen lockfile.
pub fn pnpm_retry_args() -> (r: Vec<String>)
    ensures
        sv(r@) == seq!["install"@, "--no-frozen-lockfile"@],
{
    let mut r: Vec<String> = Vec::new();
    r.push(crate::text::owned("install"));
    r.push(crate::text::owned("--no-frozen-lockfile"));
    assert(sv(r@) =~= seq!["install"@, "--no-frozen-lockfile"@]);
    r
}

/// The error for a dependency step that failed with `status` (as the
/// process reports it) and `stderr`.
pub fn dependency_step_failed(step: &DependencyStep, status: &str, stderr: &str) -> (r: AppError)
    ensures
        r matches AppError::Dependency(m) && m@ == step.phase@ + " step failed ("@ + step.strategy@ + "): "@
            + status@ + "\n"@ + stderr@,
{
    let mut m = crate::text::owned(step.phase.as_str());
    push_str(&mut m, " step failed (");
    push_str(&mut m, step.strategy.as_str());
    push_str(&mut m, "): ");
    push_str(&mut m, status);
    push_str(&mut m, "\n");
    push_str(&mut m, stderr);
    AppError::Dependency(m)
}

} // verus!
