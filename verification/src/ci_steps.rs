use vstd::prelude::*;

use crate::fluent::FluentBuilder;
use crate::workflow_steps::{
    key_absent, lemma_set_absent_input, named_step, set_input, with_input, JobView, StepView,
    WorkflowJob,
    WorkflowStep,
};

verus! {

/// The trust boundary for the Namespace sccache credential: not a pull
/// request, or a pull request from this repository (forks are excluded).
pub open spec fn trusted_namespace_sccache_context() -> Seq<char> {
    "(github.event_name != 'pull_request' && github.event_name != 'pull_request_target') || github.event.pull_request.head.repo.full_name == github.repository"@
}

fn trusted_context() -> (s: String)
    ensures
        s@ == trusted_namespace_sccache_context(),
{
    let lit = "(github.event_name != 'pull_request' && github.event_name != 'pull_request_target') || github.event.pull_request.head.repo.full_name == github.repository";
    proof {
        reveal_strlit("(github.event_name != 'pull_request' && github.event_name != 'pull_request_target') || github.event.pull_request.head.repo.full_name == github.repository");
    }
    lit.to_string()
}

/// A string made of a literal.
fn text(s: &str) -> (t: String)
    ensures
        t@ == s@,
{
    s.to_string()
}

/// A step that uses the repository-local composite action at `path`.
pub open spec fn local_action_view(name: Seq<char>, path: Seq<char>) -> StepView {
    StepView { uses: Some("./"@ + path), ..named_step(name) }
}

/// Reference a repo-local composite action (`uses: ./path`).
pub fn uses_local(name: &str, path: &str) -> (step: WorkflowStep)
    ensures
        step@ == local_action_view(name@, path@),
{
    let mut step = WorkflowStep::new(name).uses("local", "local", "0");
    let prefix = "./";
    proof {
        reveal_strlit("./");
    }
    let mut target = prefix.to_string();
    target.append(path);
    step.uses = Some(target);
    step
}

/// Fetch the full history (`fetch-depth: 0`).
fn add_full_fetch_depth(s: WorkflowStep) -> (r: WorkflowStep)
    ensures
        r@ == with_input(s@, "fetch-depth"@, "0"@),
{
    s.add_with("fetch-depth", text("0"))
}

/// Do not leave the token in the git config (`persist-credentials: false`).
fn add_no_persisted_credentials(s: WorkflowStep) -> (r: WorkflowStep)
    ensures
        r@ == with_input(s@, "persist-credentials"@, "false"@),
{
    s.add_with("persist-credentials", text("false"))
}

/// The pinned checkout action.
pub open spec fn checkout_action() -> Seq<char> {
    "actions/checkout@de0fac2e4500dabe0009e67214ff5f5447ce83dd"@
}

/// `actions/checkout`: never cleans; fetches the full history when asked;
/// drops the persisted credentials unless asked to keep them.
pub open spec fn checkout_view(full_history: bool, persist_credentials: bool) -> StepView {
    StepView {
        uses: Some(checkout_action()),
        with: seq![("clean"@, "false"@)] + (if full_history {
            seq![("fetch-depth"@, "0"@)]
        } else {
            Seq::empty()
        }) + (if !persist_credentials {
            seq![("persist-credentials"@, "false"@)]
        } else {
            Seq::empty()
        }),
        ..named_step("Checkout"@)
    }
}

/// The checkout step never cleans; it fetches the full history (a
/// `fetch-depth: 0` input) if and only if full history was asked for, and it
/// drops the persisted credentials (a `persist-credentials: false` input) if
/// and only if they are not to be kept, each independently of the other.
pub proof fn lemma_checkout_inputs(full_history: bool, persist_credentials: bool)
    ensures
        checkout_view(full_history, persist_credentials).with.contains(("clean"@, "false"@)),
        full_history ==> checkout_view(full_history, persist_credentials).with.contains(
            ("fetch-depth"@, "0"@),
        ),
        !full_history ==> forall|i: int|
            0 <= i < checkout_view(full_history, persist_credentials).with.len() ==> (#[trigger] checkout_view(
                full_history,
                persist_credentials,
            ).with[i]).0 != "fetch-depth"@,
        !persist_credentials ==> checkout_view(full_history, persist_credentials).with.contains(
            ("persist-credentials"@, "false"@),
        ),
        persist_credentials ==> forall|i: int|
            0 <= i < checkout_view(full_history, persist_credentials).with.len() ==> (#[trigger] checkout_view(
                full_history,
                persist_credentials,
            ).with[i]).0 != "persist-credentials"@,
{
    reveal_strlit("clean");
    reveal_strlit("fetch-depth");
    reveal_strlit("persist-credentials");
    let w = checkout_view(full_history, persist_credentials).with;
    assert("clean"@ != "fetch-depth"@ && "clean"@ != "persist-credentials"@ && "fetch-depth"@
        != "persist-credentials"@) by {
        assert("clean"@.len() != "fetch-depth"@.len());
        assert("clean"@.len() != "persist-credentials"@.len());
        assert("fetch-depth"@.len() != "persist-credentials"@.len());
    }
    assert(w[0] == ("clean"@, "false"@));
    if full_history {
        assert(w[1] == ("fetch-depth"@, "0"@));
    }
    if !persist_credentials {
        assert(w[w.len() - 1] == ("persist-credentials"@, "false"@));
    }
}

/// `actions/checkout`, pinned.
pub fn checkout(full_history: bool, persist_credentials: bool) -> (step: WorkflowStep)
    ensures
        step@ == checkout_view(full_history, persist_credentials),
{
    proof {
        reveal_strlit("Checkout");
        reveal_strlit("actions");
        reveal_strlit("checkout");
        reveal_strlit("de0fac2e4500dabe0009e67214ff5f5447ce83dd");
        reveal_strlit("/");
        reveal_strlit("@");
        reveal_strlit("actions/checkout@de0fac2e4500dabe0009e67214ff5f5447ce83dd");
        reveal_strlit("clean");
        reveal_strlit("false");
        reveal_strlit("fetch-depth");
        reveal_strlit("0");
        reveal_strlit("persist-credentials");
    }
    let base = WorkflowStep::new("Checkout").uses(
        "actions",
        "checkout",
        "de0fac2e4500dabe0009e67214ff5f5447ce83dd",
    );
    assert(base@.uses == Some(checkout_action()));
    let base = base.add_with("clean", text("false"));
    proof {
        lemma_set_absent_input(Seq::empty(), "clean"@, "false"@);
    }
    let ghost v1 = base@;
    assert(v1.with =~= seq![("clean"@, "false"@)]);
    assert("clean"@ != "fetch-depth"@) by {
        assert("clean"@.len() != "fetch-depth"@.len());
    }
    assert("clean"@ != "persist-credentials"@) by {
        assert("clean"@.len() != "persist-credentials"@.len());
    }
    assert("fetch-depth"@ != "persist-credentials"@) by {
        assert("fetch-depth"@.len() != "persist-credentials"@.len());
    }
    let deep = base.when(full_history, add_full_fetch_depth);
    proof {
        if full_history {
            assert(key_absent(v1.with, "fetch-depth"@));
            lemma_set_absent_input(v1.with, "fetch-depth"@, "0"@);
        }
    }
    let ghost v2 = deep@;
    assert(v2.with =~= seq![("clean"@, "false"@)] + (if full_history {
        seq![("fetch-depth"@, "0"@)]
    } else {
        Seq::empty()
    }));
    let step = deep.when(!persist_credentials, add_no_persisted_credentials);
    proof {
        if !persist_credentials {
            assert(key_absent(v2.with, "persist-credentials"@)) by {
                assert forall|i: int| 0 <= i < v2.with.len() implies (#[trigger] v2.with[i]).0 != "persist-credentials"@ by {
                    if i == 0 {
                        assert(v2.with[i].0 == "clean"@);
                    } else {
                        assert(v2.with[i].0 == "fetch-depth"@);
                    }
                }
            }
            lemma_set_absent_input(v2.with, "persist-credentials"@, "false"@);
        }
        assert(step@.with =~= checkout_view(full_history, persist_credentials).with);
    }
    step
}

/// `oven-sh/setup-bun` at its version tag.
pub fn setup_bun() -> (step: WorkflowStep)
    ensures
        step@ == (StepView { uses: Some("oven-sh/setup-bun@v2"@), ..named_step("Setup Bun"@) }),
{
    proof {
        reveal_strlit("oven-sh");
        reveal_strlit("setup-bun");
        reveal_strlit("v2");
        reveal_strlit("/");
        reveal_strlit("@");
        reveal_strlit("oven-sh/setup-bun@v2");
    }
    let step = WorkflowStep::new("Setup Bun").uses("oven-sh", "setup-bun", "v2");
    assert(step@.uses == Some("oven-sh/setup-bun@v2"@));
    step
}

/// The repository's Rust setup action with the given sccache switch and the
/// rust cache off.
pub open spec fn setup_rust_view(sccache: Seq<char>) -> StepView {
    StepView {
        with: seq![("sccache"@, sccache), ("rust-cache"@, "false"@)],
        ..local_action_view("Setup Rust"@, ".github/actions/setup-rust"@)
    }
}

fn setup_rust_with(sccache: &str) -> (step: WorkflowStep)
    ensures
        step@ == setup_rust_view(sccache@),
{
    proof {
        reveal_strlit("sccache");
        reveal_strlit("rust-cache");
        reveal_strlit("false");
    }
    let step = uses_local("Setup Rust", ".github/actions/setup-rust");
    let step = step.add_with("sccache", text(sccache));
    proof {
        lemma_set_absent_input(Seq::empty(), "sccache"@, sccache@);
        assert("sccache"@ != "rust-cache"@) by {
            assert("sccache"@.len() != "rust-cache"@.len());
        }
        assert(key_absent(step@.with, "rust-cache"@));
        lemma_set_absent_input(step@.with, "rust-cache"@, "false"@);
    }
    let step = step.add_with("rust-cache", text("false"));
    assert(step@.with =~= seq![("sccache"@, sccache@), ("rust-cache"@, "false"@)]);
    step
}

/// Install the Rust toolchain only (no sccache, no cache).
pub fn setup_rust_light() -> (step: WorkflowStep)
    ensures
        step@ == setup_rust_view("false"@),
{
    setup_rust_with("false")
}

/// The Rust toolchain plus sccache.
pub fn setup_rust_sccache() -> (step: WorkflowStep)
    ensures
        step@ == setup_rust_view("true"@),
{
    setup_rust_with("true")
}

/// Install and initialise Nix on the runner.
pub fn setup_nix() -> (step: WorkflowStep)
    ensures
        step@ == local_action_view("Setup Nix"@, ".github/actions/setup-nix"@),
{
    uses_local("Setup Nix", ".github/actions/setup-nix")
}

/// Enter the repository's Nix dev shell.
pub fn setup_dev_shell() -> (step: WorkflowStep)
    ensures
        step@ == local_action_view("Setup Nix dev shell"@, ".github/actions/setup-nix-dev-shell"@),
{
    uses_local("Setup Nix dev shell", ".github/actions/setup-nix-dev-shell")
}

/// The dev shell step for the named flake shell.
pub fn setup_dev_shell_named(name: &str) -> (step: WorkflowStep)
    ensures
        step@ == (StepView {
            with: seq![("shell"@, name@)],
            ..local_action_view("Setup Nix dev shell"@, ".github/actions/setup-nix-dev-shell"@)
        }),
{
    let step = setup_dev_shell();
    proof {
        lemma_set_absent_input(Seq::empty(), "shell"@, name@);
    }
    let step = step.add_with("shell", text(name));
    assert(step@.with =~= seq![("shell"@, name@)]);
    step
}

/// The pinned Namespace cache action.
pub open spec fn nscloud_cache_view(name: Seq<char>) -> StepView {
    StepView {
        uses: Some("namespacelabs/nscloud-cache-action@15799a6b54e5765f85b2aac25b3f0df43ed571c0"@),
        continue_on_error: Some(true),
        ..named_step(name)
    }
}

/// The pinned `nscloud-cache-action`; a cache volume is only an optimisation,
/// so a failure lets the job continue.
pub fn nscloud_cache_action(name: &str) -> (step: WorkflowStep)
    ensures
        step@ == nscloud_cache_view(name@),
{
    proof {
        reveal_strlit("namespacelabs");
        reveal_strlit("nscloud-cache-action");
        reveal_strlit("15799a6b54e5765f85b2aac25b3f0df43ed571c0");
        reveal_strlit("/");
        reveal_strlit("@");
        reveal_strlit("namespacelabs/nscloud-cache-action@15799a6b54e5765f85b2aac25b3f0df43ed571c0");
    }
    let step = WorkflowStep::new(name).uses(
        "namespacelabs",
        "nscloud-cache-action",
        "15799a6b54e5765f85b2aac25b3f0df43ed571c0",
    );
    assert(step@.uses == Some("namespacelabs/nscloud-cache-action@15799a6b54e5765f85b2aac25b3f0df43ed571c0"@));
    step.continue_on_error(true)
}

/// A cache-volume step with two inputs.
fn cache_volume(name: &str, cache: &str, path_key_value: Option<String>) -> (step: WorkflowStep)
    ensures
        step@ == (StepView {
            with: match path_key_value {
                Some(p) => seq![("cache"@, cache@), ("path"@, p@)],
                None => seq![("cache"@, cache@)],
            },
            ..nscloud_cache_view(name@)
        }),
{
    proof {
        reveal_strlit("cache");
        reveal_strlit("path");
    }
    let step = nscloud_cache_action(name);
    proof {
        lemma_set_absent_input(Seq::empty(), "cache"@, cache@);
    }
    let step = step.add_with("cache", text(cache));
    match path_key_value {
        Some(p) => {
            proof {
                assert("cache"@ != "path"@) by {
                    assert("cache"@.len() != "path"@.len());
                }
                assert(key_absent(step@.with, "path"@));
                lemma_set_absent_input(step@.with, "path"@, p@);
            }
            let step = step.add_with("path", p);
            assert(step@.with =~= seq![("cache"@, cache@), ("path"@, p@)]);
            step
        },
        None => {
            assert(step@.with =~= seq![("cache"@, cache@)]);
            step
        },
    }
}

/// Mount the persisted cache volume: the cargo registry/git and the Nix store.
pub fn mount_cache_volume() -> (step: WorkflowStep)
    ensures
        step@ == (StepView {
            with: seq![("cache"@, "rust"@), ("path"@, "/nix"@)],
            ..nscloud_cache_view("Mount Namespace cache volume"@)
        }),
{
    cache_volume("Mount Namespace cache volume", "rust", Some(text("/nix")))
}

/// The path list of the web-app cache volume: the Bun install cache, plus the
/// cargo registry and git data when Rust is built too.
pub open spec fn web_cache_paths(with_rust: bool, bun_cache_volume_dir: Seq<char>) -> Seq<char> {
    if with_rust {
        bun_cache_volume_dir + "\n/home/runner/.cargo/registry\n/home/runner/.cargo/git"@
    } else {
        bun_cache_volume_dir
    }
}

/// Mount the web-app cache volume through Namespace's Nix integration.
pub fn mount_web_cache_volume(with_rust: bool, bun_cache_volume_dir: &str) -> (step: WorkflowStep)
    ensures
        step@ == (StepView {
            with: seq![("cache"@, "nix"@), ("path"@, web_cache_paths(with_rust, bun_cache_volume_dir@))],
            ..nscloud_cache_view("Mount Namespace cache volume"@)
        }),
{
    let paths = if with_rust {
        let cargo_dirs = "\n/home/runner/.cargo/registry\n/home/runner/.cargo/git";
        proof {
            reveal_strlit("\n/home/runner/.cargo/registry\n/home/runner/.cargo/git");
        }
        let mut p = bun_cache_volume_dir.to_string();
        p.append(cargo_dirs);
        p
    } else {
        bun_cache_volume_dir.to_string()
    };
    cache_volume("Mount Namespace cache volume", "nix", Some(paths))
}

/// Mount only the `/nix` store cache volume.
pub fn mount_nix_cache_volume() -> (step: WorkflowStep)
    ensures
        step@ == (StepView {
            with: seq![("cache"@, "nix"@)],
            ..nscloud_cache_view("Mount /nix cache volume"@)
        }),
{
    cache_volume("Mount /nix cache volume", "nix", None)
}

/// The part of the sccache setup script before the cache name.
pub open spec fn sccache_script_head() -> Seq<char> {
    "set -euo pipefail\nenv_file=\"$(mktemp \"$RUNNER_TEMP/namespace-sccache.XXXXXX\")\"\ntrap 'rm -f \"$env_file\"' EXIT\nif nsc cache sccache setup --cache_name "@
}

/// The part of the sccache setup script after the cache name.
pub open spec fn sccache_script_tail() -> Seq<char> {
    " > \"$env_file\"; then\n  # Register credential values as masked BEFORE exporting: GitHub only\n  # masks `secrets.*`, so without this SCCACHE_WEBDAV_TOKEN — a broad,\n  # ~24h Namespace workspace token (registry + cache write) — printed\n  # verbatim in every subsequent step's env dump. Masking is selective by\n  # key name: masking non-secrets like the endpoint URL or key prefix\n  # would redact those strings everywhere in the logs.\n  while IFS= read -r line; do\n    k=\"${line%%=*}\"\n    v=\"${line#*=}\"\n    [ -n \"$v\" ] && [ \"$k\" != \"$line\" ] || continue\n    case \"$k\" in\n      *TOKEN*|*SECRET*|*PASSWORD*) echo \"::add-mask::$v\" ;;\n    esac\n  done < \"$env_file\"\n  cat \"$env_file\" >> \"$GITHUB_ENV\"\n  # Force the next compiler invocation to start a server with the new remote\n  # backend even if a setup hook happened to launch one already.\n  sccache --stop-server >/dev/null 2>&1 || true\nelse\n  echo \"::warning::Namespace remote sccache setup failed; using local cache fallback\"\nfi"@
}

/// The step that configures Namespace's remote sccache for `cache_name`.
pub open spec fn namespace_sccache_view(cache_name: Seq<char>) -> StepView {
    StepView {
        run: Some(sccache_script_head() + cache_name + sccache_script_tail()),
        ..named_step("Configure Namespace remote sccache"@)
    }
}

/// The script step behind the sccache configuration helpers.
pub fn namespace_sccache_step(cache_name: &str) -> (step: WorkflowStep)
    ensures
        step@ == namespace_sccache_view(cache_name@),
{
    let head = "set -euo pipefail\nenv_file=\"$(mktemp \"$RUNNER_TEMP/namespace-sccache.XXXXXX\")\"\ntrap 'rm -f \"$env_file\"' EXIT\nif nsc cache sccache setup --cache_name ";
    let tail = " > \"$env_file\"; then\n  # Register credential values as masked BEFORE exporting: GitHub only\n  # masks `secrets.*`, so without this SCCACHE_WEBDAV_TOKEN — a broad,\n  # ~24h Namespace workspace token (registry + cache write) — printed\n  # verbatim in every subsequent step's env dump. Masking is selective by\n  # key name: masking non-secrets like the endpoint URL or key prefix\n  # would redact those strings everywhere in the logs.\n  while IFS= read -r line; do\n    k=\"${line%%=*}\"\n    v=\"${line#*=}\"\n    [ -n \"$v\" ] && [ \"$k\" != \"$line\" ] || continue\n    case \"$k\" in\n      *TOKEN*|*SECRET*|*PASSWORD*) echo \"::add-mask::$v\" ;;\n    esac\n  done < \"$env_file\"\n  cat \"$env_file\" >> \"$GITHUB_ENV\"\n  # Force the next compiler invocation to start a server with the new remote\n  # backend even if a setup hook happened to launch one already.\n  sccache --stop-server >/dev/null 2>&1 || true\nelse\n  echo \"::warning::Namespace remote sccache setup failed; using local cache fallback\"\nfi";
    let mut script = head.to_string();
    script.append(cache_name);
    script.append(tail);
    WorkflowStep::new("Configure Namespace remote sccache").run(script)
}

/// Configure Namespace's remote sccache, in a trusted context only.
pub fn configure_namespace_sccache(cache_name: &str) -> (step: WorkflowStep)
    ensures
        step@ == (StepView {
            if_condition: Some(trusted_namespace_sccache_context()),
            ..namespace_sccache_view(cache_name@)
        }),
{
    namespace_sccache_step(cache_name).if_condition(trusted_context())
}

/// Configure Namespace's remote sccache in a trusted context when
/// `additional_condition` also holds.
pub fn configure_namespace_sccache_when(cache_name: &str, additional_condition: &str) -> (step: WorkflowStep)
    ensures
        step@ == (StepView {
            if_condition: Some("("@ + trusted_namespace_sccache_context() + ") && ("@
                + additional_condition@ + ")"@),
            ..namespace_sccache_view(cache_name@)
        }),
{
    let open = "(";
    let mid = ") && (";
    let close = ")";
    proof {
        reveal_strlit("(");
        reveal_strlit(") && (");
        reveal_strlit(")");
    }
    let mut cond = open.to_string();
    let context = trusted_context();
    cond.append(context.as_str());
    cond.append(mid);
    cond.append(additional_condition);
    cond.append(close);
    namespace_sccache_step(cache_name).if_condition(cond)
}

/// Make the web-app composite's Playwright install happen.
fn add_playwright(s: WorkflowStep) -> (r: WorkflowStep)
    ensures
        r@ == with_input(s@, "playwright"@, "true"@),
{
    s.add_with("playwright", text("true"))
}

/// The web-app composite (Nix dev shell + `bun install`), with Playwright
/// when asked.
pub fn setup_reqs_web(name: &str, playwright: bool) -> (step: WorkflowStep)
    ensures
        step@ == (StepView {
            with: if playwright {
                seq![("playwright"@, "true"@)]
            } else {
                Seq::empty()
            },
            ..local_action_view(name@, ".github/actions/setup-reqs-web"@)
        }),
{
    let step = uses_local(name, ".github/actions/setup-reqs-web");
    proof {
        lemma_set_absent_input(Seq::empty(), "playwright"@, "true"@);
    }
    let step = step.when(playwright, add_playwright);
    assert(step@.with =~= (if playwright {
        seq![("playwright"@, "true"@)]
    } else {
        Seq::<(Seq<char>, Seq<char>)>::empty()
    }));
    step
}

/// `sccache --show-stats` at the end of a job, always run and never failing.
pub fn show_sccache_stats() -> (step: WorkflowStep)
    ensures
        step@ == (StepView {
            run: Some("sccache --show-stats || true"@),
            if_condition: Some("always()"@),
            ..named_step("show sccache stats"@)
        }),
{
    WorkflowStep::new("show sccache stats").run(text("sccache --show-stats || true")).if_condition(
        text("always()"),
    )
}

/// Tear down Nix (always runs).
pub fn teardown_nix() -> (step: WorkflowStep)
    ensures
        step@ == (StepView {
            if_condition: Some("always()"@),
            ..local_action_view("Teardown Nix"@, ".github/actions/teardown-nix"@)
        }),
{
    uses_local("Teardown Nix", ".github/actions/teardown-nix").if_condition(text("always()"))
}

/// Base for jobs gated behind `path-check`: it needs that job and runs only on
/// non-draft pull requests whose path filter matched.
pub fn gated_job() -> (job: WorkflowJob)
    ensures
        job@ == (JobView {
            needs: seq!["path-check"@],
            cond: Some("needs.path-check.outputs.should_run == 'true' && github.event.pull_request.draft == false"@),
        }),
{
    let mut needs: Vec<String> = Vec::new();
    needs.push(text("path-check"));
    let job = WorkflowJob {
        needs,
        cond: Some(text("needs.path-check.outputs.should_run == 'true' && github.event.pull_request.draft == false")),
    };
    assert(job@.needs =~= seq!["path-check"@]);
    job
}

} // verus!
