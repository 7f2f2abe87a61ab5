//! Scaffolding of CI workflows and a git pre-commit hook.
use vstd::prelude::*;
use crate::text::{find_from, find_seq, lower_chars, lowered, to_chars};

verus! {

/// Which CI provider to scaffold for.
#[derive(Clone, Copy, Debug, PartialEq, Eq, Structural)]
pub enum CiTarget {
    GitHub,
    GitLab,
    Unknown,
}

/// How a scaffolded job authenticates.
#[derive(Debug)]
pub enum AuthStyle {
    /// With an API key from a CI secret.
    StaticKey,
    /// With a short-lived identity token for a workspace.
    Oidc { workspace_id: String },
}

/// Whether `needle` stands somewhere in `s`.
pub open spec fn holds(s: Seq<char>, needle: Seq<char>) -> bool {
    find_seq(s, 0, needle) is Some
}

fn chars_hold(s: &[char], needle: &str) -> (r: bool)
    ensures
        r == holds(s@, needle@),
{
    find_from(s, 0, to_chars(needle).as_slice()).is_some()
}

/// The provider of a repository: by the address of its remote, else by the files that
/// are there.
pub open spec fn target_of(
    remote_url: Option<Seq<char>>,
    github_dir: bool,
    gitlab_file: bool,
) -> CiTarget {
    let by_files = if github_dir {
        CiTarget::GitHub
    } else if gitlab_file {
        CiTarget::GitLab
    } else {
        CiTarget::Unknown
    };
    match remote_url {
        Some(u) => if holds(lowered(u), "github.com"@) {
            CiTarget::GitHub
        } else if holds(lowered(u), "gitlab"@) {
            CiTarget::GitLab
        } else {
            by_files
        },
        None => by_files,
    }
}

/// Detects the provider from the address of the remote, whether `.github` is a
/// directory, and whether `.gitlab-ci.yml` exists.
pub fn detect_target(remote_url: Option<&str>, github_dir: bool, gitlab_file: bool) -> (r: CiTarget)
    ensures
        r == target_of(crate::api::opt_str_view(remote_url), github_dir, gitlab_file),
{
    if let Some(u) = remote_url {
        let cs = to_chars(u);
        let low = lower_chars(cs.as_slice());
        if chars_hold(low.as_slice(), "github.com") {
            return CiTarget::GitHub;
        }
        if chars_hold(low.as_slice(), "gitlab") {
            return CiTarget::GitLab;
        }
    }
    if github_dir {
        CiTarget::GitHub
    } else if gitlab_file {
        CiTarget::GitLab
    } else {
        CiTarget::Unknown
    }
}

/// What came of writing one file.
#[derive(Debug)]
pub enum Written {
    Created(String),
    /// It is there already and was left alone.
    Skipped(String),
}

/// Whether a file may be written.
pub open spec fn is_writable(present: bool, force: bool) -> bool {
    !present || force
}

/// Whether a file is written: one that is there already only where it may be
/// overwritten.
pub fn may_write(present: bool, force: bool) -> (r: bool)
    ensures
        r == is_writable(present, force),
{
    !present || force
}

// ── Templates ─────────────────────────────────────────────────────────────────

/// The flags that a job authenticates with.
pub open spec fn auth_flags(auth: AuthStyle) -> Seq<char> {
    match auth {
        AuthStyle::StaticKey => seq![],
        AuthStyle::Oidc { workspace_id } => " --oidc --workspace "@ + workspace_id@,
    }
}

fn auth_flags_text(auth: &AuthStyle) -> (r: String)
    ensures
        r@ == auth_flags(*auth),
{
    match auth {
        AuthStyle::StaticKey => String::new(),
        AuthStyle::Oidc { workspace_id } => " --oidc --workspace ".to_owned().concat(
            workspace_id.as_str(),
        ),
    }
}

/// The GitHub Actions workflow: checks the SQL that a pull request changes and uploads
/// the findings as annotations.
pub open spec fn github_template(dialect: Seq<char>, auth: AuthStyle) -> Seq<char> {
    "# Managed by `vericto init`. Validates SQL changed in a PR against your\n# Vericto workspace rules and surfaces findings as PR annotations (Code Scanning).\nname: Vericto SQL check\n\non:\n  pull_request:\n    paths:\n      - \"**/*.sql\"\n\npermissions:\n  contents: read\n  security-events: write   # required to upload SARIF to Code Scanning\n"@
        + (if auth is Oidc {
        "  id-token: write          # required to mint a short-lived identity token\n"@
    } else {
        seq![]
    })
        + "\njobs:\n  vericto:\n    runs-on: ubuntu-latest\n    steps:\n      - uses: actions/checkout@v4\n        with:\n          fetch-depth: 0   # full history so --changed can diff the merge base\n\n      - name: Install vericto\n        run: curl -fsSL https://github.com/donkan168/vericto-cli/releases/latest/download/vericto-cli-installer.sh | sh\n\n      - name: Vericto check\n        run: vericto check --changed --dialect "@
        + dialect + auth_flags(auth) + " --format sarif --output vericto.sarif\n"@ + (
    if auth is Oidc {
        seq![]
    } else {
        "        env:\n          VERICTO_API_KEY: ${{ secrets.VERICTO_API_KEY }}\n"@
    })
        + "\n      - name: Upload SARIF\n        if: always()   # upload even when the check fails, so annotations appear\n        uses: github/codeql-action/upload-sarif@v3\n        with:\n          sarif_file: vericto.sarif\n"@
}

pub fn github_workflow_with(dialect: &str, auth: &AuthStyle) -> (r: String)
    ensures
        r@ == github_template(dialect@, *auth),
{
    let mut out =
        "# Managed by `vericto init`. Validates SQL changed in a PR against your\n# Vericto workspace rules and surfaces findings as PR annotations (Code Scanning).\nname: Vericto SQL check\n\non:\n  pull_request:\n    paths:\n      - \"**/*.sql\"\n\npermissions:\n  contents: read\n  security-events: write   # required to upload SARIF to Code Scanning\n".to_owned();
    let ghost head = out@;
    match auth {
        AuthStyle::Oidc { .. } => out.append(
            "  id-token: write          # required to mint a short-lived identity token\n",
        ),
        AuthStyle::StaticKey => {
            assert(out@ =~= head + Seq::<char>::empty());
        },
    }
    out.append(
        "\njobs:\n  vericto:\n    runs-on: ubuntu-latest\n    steps:\n      - uses: actions/checkout@v4\n        with:\n          fetch-depth: 0   # full history so --changed can diff the merge base\n\n      - name: Install vericto\n        run: curl -fsSL https://github.com/donkan168/vericto-cli/releases/latest/download/vericto-cli-installer.sh | sh\n\n      - name: Vericto check\n        run: vericto check --changed --dialect ",
    );
    out.append(dialect);
    out.append(auth_flags_text(auth).as_str());
    out.append(" --format sarif --output vericto.sarif\n");
    let ghost middle = out@;
    match auth {
        AuthStyle::Oidc { .. } => {
            assert(out@ =~= middle + Seq::<char>::empty());
        },
        AuthStyle::StaticKey => out.append(
            "        env:\n          VERICTO_API_KEY: ${{ secrets.VERICTO_API_KEY }}\n",
        ),
    }
    out.append(
        "\n      - name: Upload SARIF\n        if: always()   # upload even when the check fails, so annotations appear\n        uses: github/codeql-action/upload-sarif@v3\n        with:\n          sarif_file: vericto.sarif\n",
    );
    out
}

/// The GitHub Actions workflow that authenticates with an API key.
pub fn github_workflow(dialect: &str) -> (r: String)
    ensures
        r@ == github_template(dialect@, AuthStyle::StaticKey),
{
    github_workflow_with(dialect, &AuthStyle::StaticKey)
}

/// The GitLab CI job: checks the SQL that a merge request changes and reports the
/// findings as Code Quality issues.
pub open spec fn gitlab_template(dialect: Seq<char>, auth: AuthStyle) -> Seq<char> {
    "# Managed by `vericto init`. Validates SQL changed in a merge request against\n# your Vericto workspace rules and surfaces findings as MR annotations.\nvericto-sql-check:\n  image: ghcr.io/donkan168/vericto-cli:latest\n"@
        + (if auth is Oidc {
        "  id_tokens:\n    VERICTO_ID_TOKEN:\n      aud: vericto\n"@
    } else {
        seq![]
    }) + "  script:\n    - vericto check --changed --dialect "@ + dialect + auth_flags(auth)
        + " --format gitlab-codequality --output gl-code-quality.json\n  artifacts:\n    reports:\n      codequality: gl-code-quality.json\n  rules:\n    - if: $CI_PIPELINE_SOURCE == \"merge_request_event\"\n      changes:\n        - \"**/*.sql\"\n"@
        + (if auth is Oidc {
        seq![]
    } else {
        "  # Set VERICTO_API_KEY as a masked CI/CD variable in project settings.\n"@
    })
}

pub fn gitlab_job_with(dialect: &str, auth: &AuthStyle) -> (r: String)
    ensures
        r@ == gitlab_template(dialect@, *auth),
{
    let mut out =
        "# Managed by `vericto init`. Validates SQL changed in a merge request against\n# your Vericto workspace rules and surfaces findings as MR annotations.\nvericto-sql-check:\n  image: ghcr.io/donkan168/vericto-cli:latest\n".to_owned();
    let ghost head = out@;
    match auth {
        AuthStyle::Oidc { .. } => out.append(
            "  id_tokens:\n    VERICTO_ID_TOKEN:\n      aud: vericto\n",
        ),
        AuthStyle::StaticKey => {
            assert(out@ =~= head + Seq::<char>::empty());
        },
    }
    out.append("  script:\n    - vericto check --changed --dialect ");
    out.append(dialect);
    out.append(auth_flags_text(auth).as_str());
    out.append(
        " --format gitlab-codequality --output gl-code-quality.json\n  artifacts:\n    reports:\n      codequality: gl-code-quality.json\n  rules:\n    - if: $CI_PIPELINE_SOURCE == \"merge_request_event\"\n      changes:\n        - \"**/*.sql\"\n",
    );
    let ghost middle = out@;
    match auth {
        AuthStyle::Oidc { .. } => {
            assert(out@ =~= middle + Seq::<char>::empty());
        },
        AuthStyle::StaticKey => out.append(
            "  # Set VERICTO_API_KEY as a masked CI/CD variable in project settings.\n",
        ),
    }
    out
}

/// The GitLab CI job that authenticates with an API key.
pub fn gitlab_job(dialect: &str) -> (r: String)
    ensures
        r@ == gitlab_template(dialect@, AuthStyle::StaticKey),
{
    gitlab_job_with(dialect, &AuthStyle::StaticKey)
}

/// The git pre-commit hook: checks staged SQL before a commit. It lets a commit pass
/// where the client is not installed.
pub open spec fn hook_template(dialect: Seq<char>) -> Seq<char> {
    "#!/bin/sh\n# Managed by `vericto init`. Blocks a commit if staged SQL trips a Vericto rule.\n# Bypass once with:  git commit --no-verify\nset -e\n\nif ! command -v vericto >/dev/null 2>&1; then\n  echo \"vericto not found on PATH — skipping SQL check (install: https://github.com/donkan168/vericto-cli)\" >&2\n  exit 0\nfi\n\nstaged=$(git diff --cached --name-only --diff-filter=d -- '*.sql')\n[ -z \"$staged\" ] && exit 0\n\n# shellcheck disable=SC2086\necho \"$staged\" | xargs vericto check --dialect "@
        + dialect + "\n"@
}

pub fn precommit_hook(dialect: &str) -> (r: String)
    ensures
        r@ == hook_template(dialect@),
{
    let mut out =
        "#!/bin/sh\n# Managed by `vericto init`. Blocks a commit if staged SQL trips a Vericto rule.\n# Bypass once with:  git commit --no-verify\nset -e\n\nif ! command -v vericto >/dev/null 2>&1; then\n  echo \"vericto not found on PATH — skipping SQL check (install: https://github.com/donkan168/vericto-cli)\" >&2\n  exit 0\nfi\n\nstaged=$(git diff --cached --name-only --diff-filter=d -- '*.sql')\n[ -z \"$staged\" ] && exit 0\n\n# shellcheck disable=SC2086\necho \"$staged\" | xargs vericto check --dialect ".to_owned();
    out.append(dialect);
    out.append("\n");
    out
}

} // verus!
