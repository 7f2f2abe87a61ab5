//! What `init` writes where, and what it says.
use vstd::prelude::*;
use crate::exit::{dealt_with, error_stop, line_views, stop_with, Line, LineView, Stop, StopView, OK, USAGE};
use crate::scaffold::{github_template, github_workflow_with, gitlab_job_with, gitlab_template, hook_template, precommit_hook, AuthStyle, CiTarget, Written};

verus! {

/// What the command line asks of `init`.
#[derive(Debug)]
pub struct InitOptions {
    /// The provider, where one is named.
    pub target: Option<CiTarget>,
    pub hook: bool,
    pub dialect: String,
    pub oidc: bool,
    pub workspace: Option<String>,
}

/// A file to write.
#[derive(Debug)]
pub struct PlannedFile {
    pub path: String,
    pub body: String,
    pub executable: bool,
}

pub struct PlannedFileView {
    pub path: Seq<char>,
    pub body: Seq<char>,
    pub executable: bool,
}

impl View for PlannedFile {
    type V = PlannedFileView;

    open spec fn view(&self) -> PlannedFileView {
        PlannedFileView { path: self.path@, body: self.body@, executable: self.executable }
    }
}

pub open spec fn planned_views(files: Seq<PlannedFile>) -> Seq<PlannedFileView> {
    files.map_values(|f: PlannedFile| f@)
}

/// The provider and the files to write.
#[derive(Debug)]
pub struct InitPlan {
    pub target: CiTarget,
    pub files: Vec<PlannedFile>,
}

pub struct InitPlanView {
    pub target: CiTarget,
    pub files: Seq<PlannedFileView>,
}

impl View for InitPlan {
    type V = InitPlanView;

    open spec fn view(&self) -> InitPlanView {
        InitPlanView { target: self.target, files: planned_views(self.files@) }
    }
}

pub open spec fn plan_result(r: Result<InitPlan, Stop>) -> Result<InitPlanView, StopView> {
    match r {
        Ok(p) => Ok(p@),
        Err(s) => Err(s@),
    }
}

/// The files to write for a provider.
pub open spec fn planned_files(
    target: CiTarget,
    dialect: Seq<char>,
    auth: AuthStyle,
    hook: bool,
) -> Seq<PlannedFileView> {
    let job = if target == CiTarget::GitHub {
        PlannedFileView {
            path: ".github/workflows/vericto.yml"@,
            body: github_template(dialect, auth),
            executable: false,
        }
    } else {
        PlannedFileView {
            path: ".vericto/gitlab-ci.yml"@,
            body: gitlab_template(dialect, auth),
            executable: false,
        }
    };
    if hook {
        seq![
            job,
            PlannedFileView {
                path: ".git/hooks/pre-commit"@,
                body: hook_template(dialect),
                executable: true,
            },
        ]
    } else {
        seq![job]
    }
}

/// What `init` does: the named provider, else the detected one; workload identity needs
/// a workspace, and without a provider there is nothing to write.
pub open spec fn planned(opts: InitOptions, detected: CiTarget) -> Result<InitPlanView, StopView> {
    let target = match opts.target {
        Some(t) => t,
        None => detected,
    };
    if opts.oidc && opts.workspace is None {
        Err(error_stop(USAGE, "`vericto init --oidc` requires --workspace <id>."@))
    } else if target == CiTarget::Unknown {
        Err(
            error_stop(
                USAGE,
                "could not detect a CI provider (no github.com/gitlab remote, no .github/ or .gitlab-ci.yml). Pass --target github|gitlab."@,
            ),
        )
    } else {
        let auth = if opts.oidc {
            AuthStyle::Oidc { workspace_id: opts.workspace->Some_0 }
        } else {
            AuthStyle::StaticKey
        };
        Ok(
            InitPlanView {
                target,
                files: planned_files(target, opts.dialect@, auth, opts.hook),
            },
        )
    }
}

/// Plans what `init` writes.
pub fn plan_init(opts: &InitOptions, detected: CiTarget) -> (r: Result<InitPlan, Stop>)
    ensures
        plan_result(r) == planned(*opts, detected),
{
    let auth = if opts.oidc {
        match &opts.workspace {
            Some(w) => AuthStyle::Oidc { workspace_id: w.clone() },
            None => {
                return Err(
                    stop_with(USAGE, "`vericto init --oidc` requires --workspace <id>."),
                );
            },
        }
    } else {
        AuthStyle::StaticKey
    };
    let target = match opts.target {
        Some(t) => t,
        None => detected,
    };
    let job = match target {
        CiTarget::GitHub => PlannedFile {
            path: ".github/workflows/vericto.yml".to_owned(),
            body: github_workflow_with(opts.dialect.as_str(), &auth),
            executable: false,
        },
        CiTarget::GitLab => PlannedFile {
            path: ".vericto/gitlab-ci.yml".to_owned(),
            body: gitlab_job_with(opts.dialect.as_str(), &auth),
            executable: false,
        },
        CiTarget::Unknown => {
            return Err(
                stop_with(
                    USAGE,
                    "could not detect a CI provider (no github.com/gitlab remote, no .github/ or .gitlab-ci.yml). Pass --target github|gitlab.",
                ),
            );
        },
    };
    let mut files: Vec<PlannedFile> = Vec::new();
    files.push(job);
    if opts.hook {
        files.push(
            PlannedFile {
                path: ".git/hooks/pre-commit".to_owned(),
                body: precommit_hook(opts.dialect.as_str()),
                executable: true,
            },
        );
    }
    assert(planned_views(files@) =~= planned_files(target, opts.dialect@, auth, opts.hook));
    Ok(InitPlan { target, files })
}

/// A pipeline that is there already is never clobbered: no file of a plan is the
/// repository's own `.gitlab-ci.yml`.
pub proof fn law_the_pipeline_is_left_alone(opts: InitOptions, detected: CiTarget, k: int)
    requires
        planned(opts, detected) is Ok,
        0 <= k < planned(opts, detected)->Ok_0.files.len(),
    ensures
        planned(opts, detected)->Ok_0.files[k].path != ".gitlab-ci.yml"@,
{
    reveal_strlit(".gitlab-ci.yml");
    reveal_strlit(".github/workflows/vericto.yml");
    reveal_strlit(".vericto/gitlab-ci.yml");
    reveal_strlit(".git/hooks/pre-commit");
    assert(".gitlab-ci.yml"@.len() == 14);
    assert(".github/workflows/vericto.yml"@.len() == 29);
    assert(".vericto/gitlab-ci.yml"@.len() == 22);
    assert(".git/hooks/pre-commit"@.len() == 21);
}

/// What is said about a file, or the end of the command where it could not be written.
pub open spec fn file_line(path: Seq<char>, written: Result<Written, Seq<char>>) -> Result<
    LineView,
    StopView,
> {
    match written {
        Ok(Written::Created(p)) => Ok(LineView::Stdout("created "@ + p@)),
        Ok(Written::Skipped(p)) => Ok(
            LineView::Stdout("exists, skipped "@ + p@ + " (use --force to overwrite)"@),
        ),
        Err(e) => Err(error_stop(USAGE, "could not write "@ + path + ": "@ + e)),
    }
}

pub open spec fn written_result(r: Result<Written, String>) -> Result<Written, Seq<char>> {
    match r {
        Ok(w) => Ok(w),
        Err(e) => Err(e@),
    }
}

pub open spec fn line_result(r: Result<Line, Stop>) -> Result<LineView, StopView> {
    match r {
        Ok(l) => Ok(l@),
        Err(s) => Err(s@),
    }
}

/// Says what came of writing a file.
pub fn file_written(path: &str, written: Result<Written, String>) -> (r: Result<Line, Stop>)
    ensures
        line_result(r) == file_line(path@, written_result(written)),
{
    match written {
        Ok(Written::Created(p)) => Ok(Line::Stdout("created ".to_owned().concat(p.as_str()))),
        Ok(Written::Skipped(p)) => {
            let mut text = "exists, skipped ".to_owned();
            text.append(p.as_str());
            text.append(" (use --force to overwrite)");
            Ok(Line::Stdout(text))
        },
        Err(e) => {
            let mut text = "could not write ".to_owned();
            text.append(path);
            text.append(": ");
            text.append(e.as_str());
            Err(stop_with(USAGE, text.as_str()))
        },
    }
}

/// What is left for the user to do.
pub open spec fn next_text(target: CiTarget, oidc: bool) -> Option<Seq<char>> {
    match target {
        CiTarget::GitHub => if oidc {
            Some(
                "\nNext: create an OIDC trust policy for this workspace in the Vericto dashboard (issuer https://token.actions.githubusercontent.com, audience 'vericto', subject e.g. repo:your-org/your-repo:*). No secret needed — the workflow mints a short-lived token per run."@,
            )
        } else {
            Some(
                "\nNext: add VERICTO_API_KEY as a repository secret (Settings → Secrets and variables → Actions)."@,
            )
        },
        CiTarget::GitLab => if oidc {
            Some(
                "\nNext:\n  1. Create an OIDC trust policy for this workspace in the Vericto dashboard (issuer https://gitlab.com, audience 'vericto', subject e.g. project_path:your-group/your-project:*).\n  2. Include the job from your .gitlab-ci.yml:\n       include:\n         - local: .vericto/gitlab-ci.yml"@,
            )
        } else {
            Some(
                "\nNext:\n  1. Add VERICTO_API_KEY as a masked CI/CD variable (Settings → CI/CD → Variables).\n  2. Include the job from your .gitlab-ci.yml:\n       include:\n         - local: .vericto/gitlab-ci.yml"@,
            )
        },
        CiTarget::Unknown => None,
    }
}

pub open spec fn hook_text() -> Seq<char> {
    "\nThe pre-commit hook runs `vericto check` on staged SQL. Bypass with `git commit --no-verify`."@
}

/// What is said once everything is written.
pub open spec fn closing_lines(target: CiTarget, oidc: bool, hook: bool) -> Seq<LineView> {
    (match next_text(target, oidc) {
        Some(t) => seq![LineView::Stdout(t)],
        None => seq![],
    }) + (if hook {
        seq![LineView::Stdout(hook_text())]
    } else {
        seq![]
    })
}

/// Says what is left for the user to do.
pub fn next_steps(target: CiTarget, oidc: bool, hook: bool) -> (r: Vec<Line>)
    ensures
        line_views(r@) == closing_lines(target, oidc, hook),
{
    let mut out: Vec<Line> = Vec::new();
    match target {
        CiTarget::GitHub => if oidc {
            out.push(
                Line::Stdout(
                    "\nNext: create an OIDC trust policy for this workspace in the Vericto dashboard (issuer https://token.actions.githubusercontent.com, audience 'vericto', subject e.g. repo:your-org/your-repo:*). No secret needed — the workflow mints a short-lived token per run.".to_owned(),
                ),
            );
        } else {
            out.push(
                Line::Stdout(
                    "\nNext: add VERICTO_API_KEY as a repository secret (Settings → Secrets and variables → Actions).".to_owned(),
                ),
            );
        },
        CiTarget::GitLab => if oidc {
            out.push(
                Line::Stdout(
                    "\nNext:\n  1. Create an OIDC trust policy for this workspace in the Vericto dashboard (issuer https://gitlab.com, audience 'vericto', subject e.g. project_path:your-group/your-project:*).\n  2. Include the job from your .gitlab-ci.yml:\n       include:\n         - local: .vericto/gitlab-ci.yml".to_owned(),
                ),
            );
        } else {
            out.push(
                Line::Stdout(
                    "\nNext:\n  1. Add VERICTO_API_KEY as a masked CI/CD variable (Settings → CI/CD → Variables).\n  2. Include the job from your .gitlab-ci.yml:\n       include:\n         - local: .vericto/gitlab-ci.yml".to_owned(),
                ),
            );
        },
        CiTarget::Unknown => {},
    }
    if hook {
        out.push(
            Line::Stdout(
                "\nThe pre-commit hook runs `vericto check` on staged SQL. Bypass with `git commit --no-verify`.".to_owned(),
            ),
        );
    }
    assert(line_views(out@) =~= closing_lines(target, oidc, hook));
    out
}

/// What `init` says, and its exit code.
#[derive(Debug)]
pub struct InitReport {
    pub say: Vec<Line>,
    pub code: u8,
}

pub struct InitReportView {
    pub say: Seq<LineView>,
    pub code: u8,
}

impl View for InitReport {
    type V = InitReportView;

    open spec fn view(&self) -> InitReportView {
        InitReportView { say: line_views(self.say@), code: self.code }
    }
}

/// The report on the first `n` files, given what came of writing each in order. The first
/// that could not be written ends it.
pub open spec fn files_report(
    files: Seq<PlannedFileView>,
    written: Seq<Result<Written, String>>,
    n: nat,
) -> InitReportView
    decreases n,
{
    if n == 0 {
        InitReportView { say: seq![], code: OK }
    } else {
        let so_far = files_report(files, written, (n - 1) as nat);
        if so_far.code != OK {
            so_far
        } else {
            match file_line(files[n - 1].path, written_result(written[n - 1])) {
                Ok(line) => InitReportView { say: so_far.say.push(line), code: OK },
                Err(s) => InitReportView { say: so_far.say.push(s.line), code: s.code },
            }
        }
    }
}

/// The report on everything that `init` did: the files, and what is left to do where all
/// of them could be written.
pub open spec fn init_report(
    plan: InitPlanView,
    oidc: bool,
    hook: bool,
    written: Seq<Result<Written, String>>,
) -> InitReportView {
    let files = files_report(plan.files, written, written.len());
    if files.code != OK {
        files
    } else {
        InitReportView { say: files.say + closing_lines(plan.target, oidc, hook), code: OK }
    }
}

proof fn lemma_report_stays_failed(
    files: Seq<PlannedFileView>,
    written: Seq<Result<Written, String>>,
    n: nat,
    m: nat,
)
    requires
        n <= m,
        files_report(files, written, n).code != OK,
    ensures
        files_report(files, written, m) == files_report(files, written, n),
    decreases m,
{
    if n < m {
        lemma_report_stays_failed(files, written, n, (m - 1) as nat);
    }
}

/// Reports what `init` did, given what came of writing the files of the plan in order, up
/// to the first that could not be written.
pub fn init_done(
    plan: &InitPlan,
    oidc: bool,
    hook: bool,
    written: Vec<Result<Written, String>>,
) -> (r: InitReport)
    requires
        dealt_with(written@, plan.files@.len()),
    ensures
        r@ == init_report(plan@, oidc, hook, written@),
{
    let ghost all = written@;
    let ghost files = plan@.files;
    let n: usize = plan.files.len();
    let mut say: Vec<Line> = Vec::new();
    let mut i: usize = 0;
    assert(line_views(say@) =~= seq![]);
    for w in it: written.into_iter()
        invariant
            it.seq() == all,
            i == it.index(),
            files == plan@.files,
            all.len() <= n == plan.files@.len(),
            files_report(files, all, i as nat) == (InitReportView {
                say: line_views(say@),
                code: OK,
            }),
    {
        assert(all[i as int] == w);
        assert(files[i as int].path == plan.files@[i as int].path@);
        let ghost so_far = say@;
        match file_written(plan.files[i].path.as_str(), w) {
            Ok(line) => {
                say.push(line);
                assert(line_views(say@) =~= line_views(so_far).push(line@));
            },
            Err(s) => {
                let code = s.code;
                say.push(s.line);
                assert(line_views(say@) =~= line_views(so_far).push(s@.line));
                proof {
                    lemma_report_stays_failed(files, all, (i + 1) as nat, all.len());
                }
                return InitReport { say, code };
            },
        }
        i = i + 1;
    }
    let mut rest = next_steps(plan.target, oidc, hook);
    let ghost head = say@;
    let ghost tail = rest@;
    say.append(&mut rest);
    assert(line_views(say@) =~= line_views(head) + line_views(tail));
    InitReport { say, code: OK }
}

} // verus!
