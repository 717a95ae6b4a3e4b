use macro_core::ci_steps::{
    checkout, configure_namespace_sccache, configure_namespace_sccache_when, gated_job,
    mount_cache_volume, mount_nix_cache_volume, mount_web_cache_volume, namespace_sccache_step,
    nscloud_cache_action, setup_bun, setup_dev_shell, setup_dev_shell_named, setup_nix,
    setup_reqs_web, setup_rust_light, setup_rust_sccache, show_sccache_stats, teardown_nix,
    uses_local,
};
use macro_core::fluent::FluentBuilder;
use macro_core::workflow_steps::{WorkflowJob, WorkflowStep};

const TRUSTED: &str = "(github.event_name != 'pull_request' && github.event_name != 'pull_request_target') || github.event.pull_request.head.repo.full_name == github.repository";
const NSCLOUD: &str = "namespacelabs/nscloud-cache-action@15799a6b54e5765f85b2aac25b3f0df43ed571c0";

fn inputs(step: &WorkflowStep) -> Vec<(&str, &str)> {
    step.with.iter().map(|(k, v)| (k.as_str(), v.as_str())).collect()
}

#[test]
fn step_builder_sets_fields() {
    let step = WorkflowStep::new("Build")
        .uses("owner", "repo", "v1")
        .if_condition("always()".to_string())
        .continue_on_error(false);
    assert_eq!(step.name, "Build");
    assert_eq!(step.uses.as_deref(), Some("owner/repo@v1"));
    assert_eq!(step.run, None);
    assert_eq!(step.if_condition.as_deref(), Some("always()"));
    assert_eq!(step.continue_on_error, Some(false));
}

#[test]
fn step_uses_keeps_an_existing_action() {
    let step = WorkflowStep::new("Build").uses("a", "b", "1").uses("c", "d", "2");
    assert_eq!(step.uses.as_deref(), Some("a/b@1"));
    let ran = WorkflowStep::new("Run").run("ls".to_string()).run("pwd".to_string());
    assert_eq!(ran.run.as_deref(), Some("ls"));
}

#[test]
fn add_with_replaces_in_place_and_appends_new_keys() {
    let step = WorkflowStep::new("s")
        .add_with("a", "1".to_string())
        .add_with("b", "2".to_string())
        .add_with("a", "3".to_string());
    assert_eq!(inputs(&step), vec![("a", "3"), ("b", "2")]);
}

#[test]
fn fluent_when_and_map() {
    let kept = WorkflowStep::new("s").when(false, |s| s.continue_on_error(true));
    assert_eq!(kept.continue_on_error, None);
    let changed = WorkflowStep::new("s").when(true, |s| s.continue_on_error(true));
    assert_eq!(changed.continue_on_error, Some(true));
    let name_len = WorkflowStep::new("four").map(|s| s.name.len());
    assert_eq!(name_len, 4);
}

#[test]
fn uses_local_points_at_repo_path() {
    let step = uses_local("Setup Nix", ".github/actions/setup-nix");
    assert_eq!(step.name, "Setup Nix");
    assert_eq!(step.uses.as_deref(), Some("./.github/actions/setup-nix"));
    assert!(step.with.is_empty());
}

#[test]
fn checkout_variants() {
    let plain = checkout(false, true);
    assert_eq!(plain.name, "Checkout");
    assert_eq!(
        plain.uses.as_deref(),
        Some("actions/checkout@de0fac2e4500dabe0009e67214ff5f5447ce83dd")
    );
    assert_eq!(inputs(&plain), vec![("clean", "false")]);
    let full = checkout(true, false);
    assert_eq!(
        inputs(&full),
        vec![("clean", "false"), ("fetch-depth", "0"), ("persist-credentials", "false")]
    );
    let deep = checkout(true, true);
    assert_eq!(inputs(&deep), vec![("clean", "false"), ("fetch-depth", "0")]);
}

#[test]
fn toolchain_steps() {
    let bun = setup_bun();
    assert_eq!(bun.name, "Setup Bun");
    assert_eq!(bun.uses.as_deref(), Some("oven-sh/setup-bun@v2"));
    let light = setup_rust_light();
    assert_eq!(light.uses.as_deref(), Some("./.github/actions/setup-rust"));
    assert_eq!(inputs(&light), vec![("sccache", "false"), ("rust-cache", "false")]);
    let cached = setup_rust_sccache();
    assert_eq!(inputs(&cached), vec![("sccache", "true"), ("rust-cache", "false")]);
    assert_eq!(setup_nix().uses.as_deref(), Some("./.github/actions/setup-nix"));
    let shell = setup_dev_shell();
    assert_eq!(shell.name, "Setup Nix dev shell");
    assert_eq!(shell.uses.as_deref(), Some("./.github/actions/setup-nix-dev-shell"));
    let named = setup_dev_shell_named("web");
    assert_eq!(inputs(&named), vec![("shell", "web")]);
}

#[test]
fn cache_volume_steps() {
    let action = nscloud_cache_action("Cache");
    assert_eq!(action.uses.as_deref(), Some(NSCLOUD));
    assert_eq!(action.continue_on_error, Some(true));
    let volume = mount_cache_volume();
    assert_eq!(volume.name, "Mount Namespace cache volume");
    assert_eq!(inputs(&volume), vec![("cache", "rust"), ("path", "/nix")]);
    let nix = mount_nix_cache_volume();
    assert_eq!(nix.name, "Mount /nix cache volume");
    assert_eq!(inputs(&nix), vec![("cache", "nix")]);
    assert_eq!(nix.continue_on_error, Some(true));
}

#[test]
fn web_cache_volume_paths() {
    let bun_only = mount_web_cache_volume(false, "/home/runner/.bun/install/cache");
    assert_eq!(
        inputs(&bun_only),
        vec![("cache", "nix"), ("path", "/home/runner/.bun/install/cache")]
    );
    let with_rust = mount_web_cache_volume(true, "/bun");
    assert_eq!(
        inputs(&with_rust),
        vec![
            ("cache", "nix"),
            ("path", "/bun\n/home/runner/.cargo/registry\n/home/runner/.cargo/git")
        ]
    );
}

#[test]
fn sccache_configuration_steps() {
    let step = namespace_sccache_step("main");
    assert_eq!(step.name, "Configure Namespace remote sccache");
    let script = step.run.clone().unwrap();
    assert!(script.starts_with("set -euo pipefail\n"));
    assert!(script.contains("nsc cache sccache setup --cache_name main > \"$env_file\"; then"));
    assert!(script.contains("    k=\"${line%%=*}\"\n"));
    assert!(script.ends_with("using local cache fallback\"\nfi"));
    assert_eq!(step.if_condition, None);
    let trusted = configure_namespace_sccache("main");
    assert_eq!(trusted.run, step.run);
    assert_eq!(trusted.if_condition.as_deref(), Some(TRUSTED));
    let gated = configure_namespace_sccache_when("main", "matrix.os == 'linux'");
    assert_eq!(
        gated.if_condition,
        Some(format!("({}) && (matrix.os == 'linux')", TRUSTED))
    );
}

#[test]
fn web_requirements_and_teardown() {
    let web = setup_reqs_web("Setup web", false);
    assert_eq!(web.name, "Setup web");
    assert_eq!(web.uses.as_deref(), Some("./.github/actions/setup-reqs-web"));
    assert!(web.with.is_empty());
    let playwright = setup_reqs_web("Setup web", true);
    assert_eq!(inputs(&playwright), vec![("playwright", "true")]);
    let stats = show_sccache_stats();
    assert_eq!(stats.name, "show sccache stats");
    assert_eq!(stats.run.as_deref(), Some("sccache --show-stats || true"));
    assert_eq!(stats.if_condition.as_deref(), Some("always()"));
    let teardown = teardown_nix();
    assert_eq!(teardown.uses.as_deref(), Some("./.github/actions/teardown-nix"));
    assert_eq!(teardown.if_condition.as_deref(), Some("always()"));
}

#[test]
fn gated_job_waits_for_path_check() {
    let job: WorkflowJob = gated_job();
    assert_eq!(job.needs, vec!["path-check".to_string()]);
    assert_eq!(
        job.cond.as_deref(),
        Some("needs.path-check.outputs.should_run == 'true' && github.event.pull_request.draft == false")
    );
}
