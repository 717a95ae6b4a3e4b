use macro_core::slim_plan::{listing_window, ListingWindow};
use macro_core::bool_count::{count_flags, flags_difference};
use macro_core::dependency_paths::collect_dependency_paths;
use macro_core::ranking::stable_descending_order;
use macro_core::slim_plan::{
    check_is_optional, find_activating_features, find_direct_link, find_root_package,
    find_workspace_package, run_single_target, run_top_heavy, select_mode, DependencyKind,
    RootFeatures, SingleTargetOutcome, SingleTargetPlan, SlimPlanError, SlimPlanMode,
    TopHeavyCandidate,
};
use macro_core::workspace_graph::{
    ClosureError, compute_raw_closure, compute_workspace_closure, contains_link_pair, DependencyLink,
    PackageNode, WorkspaceGraph,
};

const APP: usize = 0;
const SMALL: usize = 1;
const BIG: usize = 2;
const LEAF1: usize = 3;
const LEAF2: usize = 4;
const SERDE: usize = 5;
const TESTKIT: usize = 6;

fn package(name: &str, in_workspace: bool) -> PackageNode {
    PackageNode { name: name.to_string(), in_workspace }
}

fn link(from: usize, to: usize) -> DependencyLink {
    DependencyLink {
        from,
        to,
        dev_only: false,
        normal_never: false,
        normal_optional: false,
        default_features_never: false,
        features: Vec::new(),
    }
}

/// app -> small -> leaf2; app -(optional)-> big -> {leaf1, leaf2, serde};
/// app -(dev)-> testkit. serde is outside the workspace.
fn sample_graph() -> WorkspaceGraph {
    let mut optional_big = link(APP, BIG);
    optional_big.normal_optional = true;
    optional_big.default_features_never = true;
    optional_big.features = vec!["postgres".to_string(), "tls".to_string()];
    let mut dev_testkit = link(APP, TESTKIT);
    dev_testkit.dev_only = true;
    WorkspaceGraph {
        packages: vec![
            package("app", true),
            package("small", true),
            package("big", true),
            package("leaf1", true),
            package("leaf2", true),
            package("serde", false),
            package("testkit", true),
        ],
        links: vec![
            link(APP, SMALL),
            optional_big,
            link(BIG, LEAF1),
            link(BIG, LEAF2),
            link(BIG, SERDE),
            dev_testkit,
            link(SMALL, LEAF2),
        ],
    }
}

fn features(n: usize) -> RootFeatures {
    let mut heavy = vec![false; n];
    heavy[BIG] = true;
    let mut default_activates = vec![false; n];
    default_activates[BIG] = true;
    RootFeatures {
        names: vec!["heavy".to_string(), "json".to_string()],
        activates: vec![heavy, vec![false; n]],
        default_activates,
    }
}

fn flags(n: usize, members: &[usize]) -> Vec<bool> {
    (0..n).map(|i| members.contains(&i)).collect()
}

fn plan_for(target: &str) -> SingleTargetPlan {
    let g = sample_graph();
    match run_single_target(&g, APP, target, &features(g.packages.len())) {
        Ok(SingleTargetOutcome::Plan(p)) => p,
        _ => panic!("expected a plan for {target}"),
    }
}

#[test]
fn workspace_closure_skips_dev_and_outside_links() {
    let g = sample_graph();
    assert_eq!(compute_workspace_closure(&g, APP, &[]), Ok(flags(7, &[APP, SMALL, BIG, LEAF1, LEAF2])));
    assert_eq!(compute_workspace_closure(&g, TESTKIT, &[]), Ok(flags(7, &[TESTKIT])));
}

#[test]
fn workspace_closure_honours_cut_links() {
    let g = sample_graph();
    assert_eq!(
        compute_workspace_closure(&g, APP, &[(APP, BIG)]),
        Ok(flags(7, &[APP, SMALL, LEAF2]))
    );
    assert_eq!(
        compute_workspace_closure(&g, APP, &[(APP, BIG), (APP, SMALL)]),
        Ok(flags(7, &[APP]))
    );
    assert_eq!(compute_raw_closure(&g, BIG), Ok(flags(7, &[BIG, LEAF1, LEAF2])));
    assert!(contains_link_pair(&[(1, 2), (3, 4)], 3, 4));
    assert!(!contains_link_pair(&[(1, 2), (3, 4)], 2, 1));
}

#[test]
fn cut_closure_stays_within_base() {
    let g = sample_graph();
    let base = compute_workspace_closure(&g, APP, &[]).unwrap();
    for cut in [vec![(APP, SMALL)], vec![(BIG, LEAF1)], vec![(APP, BIG), (SMALL, LEAF2)]] {
        let reduced = compute_workspace_closure(&g, APP, &cut).unwrap();
        for v in 0..g.packages.len() {
            assert!(!reduced[v] || base[v]);
        }
    }
}

#[test]
fn dependency_paths_are_found_in_link_order() {
    let g = sample_graph();
    let mut current_path = vec![APP];
    let mut all_paths: Vec<Vec<usize>> = Vec::new();
    let mut visited = vec![false; g.packages.len()];
    collect_dependency_paths(&g, APP, "leaf2", &mut current_path, &mut all_paths, &mut visited);
    assert_eq!(all_paths, vec![vec![APP, SMALL, LEAF2], vec![APP, BIG, LEAF2]]);
    assert_eq!(current_path, vec![APP]);
    assert_eq!(visited, vec![false; g.packages.len()]);
    collect_dependency_paths(&g, APP, "testkit", &mut current_path, &mut all_paths, &mut visited);
    assert_eq!(all_paths.len(), 2);
}

#[test]
fn dependency_paths_avoid_cycles() {
    let mut g = sample_graph();
    g.links.push(link(LEAF2, SMALL));
    let mut current_path = vec![APP];
    let mut all_paths: Vec<Vec<usize>> = Vec::new();
    let mut visited = vec![false; g.packages.len()];
    collect_dependency_paths(&g, APP, "leaf2", &mut current_path, &mut all_paths, &mut visited);
    assert_eq!(all_paths, vec![vec![APP, SMALL, LEAF2], vec![APP, BIG, LEAF2]]);
    let mut small_paths: Vec<Vec<usize>> = Vec::new();
    collect_dependency_paths(&g, APP, "small", &mut current_path, &mut small_paths, &mut visited);
    assert_eq!(small_paths, vec![vec![APP, SMALL], vec![APP, BIG, LEAF2, SMALL]]);
}

#[test]
fn package_and_link_lookup() {
    let g = sample_graph();
    assert_eq!(find_workspace_package(&g, "big"), Some(BIG));
    assert_eq!(find_workspace_package(&g, "serde"), None);
    assert_eq!(find_workspace_package(&g, "missing"), None);
    assert_eq!(find_direct_link(&g, APP, BIG), Some(1));
    assert_eq!(find_direct_link(&g, APP, TESTKIT), Some(5));
    assert_eq!(find_direct_link(&g, SMALL, BIG), None);
    assert!(check_is_optional(&g.links[1]));
    assert!(!check_is_optional(&g.links[0]));
    let mut never = link(APP, SMALL);
    never.normal_never = true;
    assert!(check_is_optional(&never));
}

#[test]
fn activating_features_listing() {
    let f = features(7);
    assert_eq!(find_activating_features(&f, BIG, true), vec!["heavy".to_string(), "default".to_string()]);
    assert_eq!(
        find_activating_features(&f, SMALL, false),
        vec!["<mandatory: unconditionally compiled>".to_string()]
    );
    assert!(find_activating_features(&f, SMALL, true).is_empty());
    let listed = RootFeatures {
        names: vec!["default".to_string()],
        activates: vec![vec![true; 7]],
        default_activates: vec![true; 7],
    };
    assert_eq!(find_activating_features(&listed, BIG, true), vec!["default".to_string()]);
}

#[test]
fn single_target_transitive_plan() {
    let p = plan_for("leaf1");
    assert_eq!(p.target, LEAF1);
    assert_eq!(p.direct_link, None);
    assert_eq!(p.all_paths, vec![vec![APP, BIG, LEAF1]]);
    assert_eq!(p.dependency_kind, DependencyKind::Transitive);
    assert!(p.default_features);
    assert!(p.requested_features.is_empty());
    assert!(p.activating_features.is_empty());
    assert_eq!(p.cut_links, vec![(APP, BIG)]);
    assert_eq!(p.base_closure, flags(7, &[APP, SMALL, BIG, LEAF1, LEAF2]));
    assert_eq!(p.new_closure, flags(7, &[APP, SMALL, LEAF2]));
    assert_eq!(p.raw_target_closure, flags(7, &[LEAF1]));
    assert_eq!(p.marginal_removable, flags(7, &[BIG, LEAF1]));
    assert_eq!(p.shared_dependencies, flags(7, &[]));
}

#[test]
fn single_target_direct_optional_plan() {
    let p = plan_for("big");
    assert_eq!(p.direct_link, Some(1));
    assert_eq!(p.all_paths, vec![vec![APP, BIG]]);
    assert_eq!(p.dependency_kind, DependencyKind::DirectOptional);
    assert!(!p.default_features);
    assert_eq!(p.requested_features, vec!["postgres".to_string(), "tls".to_string()]);
    assert_eq!(p.activating_features, vec!["heavy".to_string(), "default".to_string()]);
    assert_eq!(p.cut_links, vec![(APP, BIG)]);
    assert_eq!(p.marginal_removable, flags(7, &[BIG, LEAF1]));
    assert_eq!(p.raw_target_closure, flags(7, &[BIG, LEAF1, LEAF2]));
    assert_eq!(p.shared_dependencies, flags(7, &[LEAF2]));
}

#[test]
fn single_target_direct_mandatory_plan() {
    let p = plan_for("small");
    assert_eq!(p.dependency_kind, DependencyKind::DirectMandatory);
    assert_eq!(p.activating_features, vec!["<mandatory: unconditionally compiled>".to_string()]);
    assert_eq!(p.marginal_removable, flags(7, &[SMALL]));
    assert_eq!(p.shared_dependencies, flags(7, &[LEAF2]));
}

#[test]
fn single_target_with_several_paths() {
    let p = plan_for("leaf2");
    assert_eq!(p.all_paths, vec![vec![APP, SMALL, LEAF2], vec![APP, BIG, LEAF2]]);
    assert_eq!(p.cut_links, vec![(APP, SMALL), (APP, BIG)]);
    assert_eq!(p.new_closure, flags(7, &[APP]));
    assert_eq!(p.marginal_removable, flags(7, &[SMALL, BIG, LEAF1, LEAF2]));
}

#[test]
fn plan_partitions_the_closure() {
    for target in ["leaf1", "big", "small", "leaf2"] {
        let p = plan_for(target);
        assert!(p.base_closure[p.target]);
        for v in 0..7 {
            assert_eq!(p.base_closure[v], p.new_closure[v] || p.marginal_removable[v]);
            assert!(!(p.new_closure[v] && p.marginal_removable[v]));
            assert!(!(p.shared_dependencies[v] && p.marginal_removable[v]));
        }
    }
}

#[test]
fn single_target_outside_tree_or_workspace() {
    let g = sample_graph();
    let f = features(7);
    match run_single_target(&g, APP, "testkit", &f) {
        Ok(SingleTargetOutcome::NotInDependencyTree { target }) => assert_eq!(target, TESTKIT),
        _ => panic!("testkit is only a dev dependency"),
    }
    match run_single_target(&g, APP, "serde", &f) {
        Err(e) => {
            assert_eq!(e, SlimPlanError::TargetNotFound("serde".to_string()));
            assert_eq!(e.message(), "target package 'serde' not found in workspace");
        }
        Ok(_) => panic!("serde is not a workspace member"),
    }
}

#[test]
fn top_heavy_ranks_by_marginal_size() {
    let g = sample_graph();
    let report = run_top_heavy(&g, APP);
    assert_eq!(report.base_closure, flags(7, &[APP, SMALL, BIG, LEAF1, LEAF2]));
    assert_eq!(
        report.candidates,
        vec![
            TopHeavyCandidate { target: BIG, is_optional: true, raw_closure_len: 3, shared_len: 1, marginal_len: 2 },
            TopHeavyCandidate { target: SMALL, is_optional: false, raw_closure_len: 2, shared_len: 1, marginal_len: 1 },
        ]
    );
}

#[test]
fn top_heavy_keeps_declaration_order_on_ties() {
    let g = WorkspaceGraph {
        packages: vec![package("root", true), package("a", true), package("b", true)],
        links: vec![link(0, 1), link(0, 2)],
    };
    let report = run_top_heavy(&g, 0);
    let order: Vec<usize> = report.candidates.iter().map(|c| c.target).collect();
    assert_eq!(order, vec![1, 2]);
}

#[test]
fn stable_descending_order_examples() {
    assert_eq!(stable_descending_order(&vec![1, 3, 2, 3]), vec![1, 3, 2, 0]);
    assert_eq!(stable_descending_order(&vec![]), Vec::<usize>::new());
    assert_eq!(stable_descending_order(&vec![5, 5, 5]), vec![0, 1, 2]);
}

#[test]
fn flag_set_operations() {
    let a = vec![true, true, false, true];
    let b = vec![false, true, true, false];
    assert_eq!(flags_difference(&a, &b), vec![true, false, false, true]);
    assert_eq!(count_flags(&a), 3);
    assert_eq!(count_flags(&vec![]), 0);
}

#[test]
fn mode_selection() {
    assert_eq!(select_mode(true, Some("x".to_string()), 5), Ok(SlimPlanMode::TopHeavy { limit: 5 }));
    assert_eq!(
        select_mode(false, Some("x".to_string()), 5),
        Ok(SlimPlanMode::SingleTarget { target: "x".to_string() })
    );
    let missing = select_mode(false, None, 10).unwrap_err();
    assert_eq!(missing, SlimPlanError::MissingMode);
    assert_eq!(
        missing.message(),
        "either a TARGET dependency or --top-heavy must be specified. See --help."
    );
}

#[test]
fn root_lookup() {
    let g = sample_graph();
    assert_eq!(find_root_package(&g, "app"), Ok(APP));
    let err = find_root_package(&g, "serde").unwrap_err();
    assert_eq!(err, SlimPlanError::RootNotFound("serde".to_string()));
    assert_eq!(err.message(), "workspace package 'serde' not found");
}

#[test]
fn closures_of_unknown_packages_are_refused() {
    let g = sample_graph();
    let root_err = compute_workspace_closure(&g, 7, &[]).unwrap_err();
    assert_eq!(root_err, ClosureError::UnknownRoot);
    assert_eq!(root_err.message(), "querying root package");
    let pkg_err = compute_raw_closure(&g, 99).unwrap_err();
    assert_eq!(pkg_err, ClosureError::UnknownPackage);
    assert_eq!(pkg_err.message(), "querying package");
    for p in 0..g.packages.len() {
        assert_eq!(compute_raw_closure(&g, p), compute_workspace_closure(&g, p, &[]));
    }
}

#[test]
fn dependency_path_search_outside_its_usual_state() {
    let g = sample_graph();
    // A current package that is not in the graph changes nothing.
    let mut current_path = vec![APP];
    let mut all_paths = vec![vec![9]];
    let mut visited = vec![false; 7];
    collect_dependency_paths(&g, 42, "leaf2", &mut current_path, &mut all_paths, &mut visited);
    assert_eq!((current_path, all_paths, visited), (vec![APP], vec![vec![9]], vec![false; 7]));
    // An already-visited current package ends unmarked; earlier paths stay first.
    let mut current_path = vec![SMALL];
    let mut all_paths = vec![vec![9]];
    let mut visited = vec![false; 7];
    visited[SMALL] = true;
    collect_dependency_paths(&g, SMALL, "leaf2", &mut current_path, &mut all_paths, &mut visited);
    assert_eq!(current_path, vec![SMALL]);
    assert_eq!(all_paths, vec![vec![9], vec![SMALL, LEAF2]]);
    assert_eq!(visited, vec![false; 7]);
    // A path that does not end at `current` is kept as given.
    let mut current_path = vec![LEAF1, LEAF1];
    let mut all_paths: Vec<Vec<usize>> = Vec::new();
    let mut visited = vec![false; 7];
    collect_dependency_paths(&g, BIG, "leaf2", &mut current_path, &mut all_paths, &mut visited);
    assert_eq!(current_path, vec![LEAF1, LEAF1]);
    assert_eq!(all_paths, vec![vec![LEAF1, LEAF1, LEAF2]]);
    assert_eq!(visited, vec![false; 7]);
}

#[test]
fn report_listing_windows_and_labels() {
    assert_eq!(listing_window(3, 5), ListingWindow { shown: 3, more: 0 });
    assert_eq!(listing_window(12, 5), ListingWindow { shown: 5, more: 7 });
    assert_eq!(listing_window(8, 8), ListingWindow { shown: 8, more: 0 });
    assert_eq!(listing_window(4, 0), ListingWindow { shown: 0, more: 4 });
    assert_eq!(DependencyKind::Transitive.label(), "transitive");
    assert_eq!(DependencyKind::DirectOptional.label(), "direct optional");
    assert_eq!(DependencyKind::DirectMandatory.label(), "direct mandatory");
}

#[test]
fn dependency_path_search_reports_a_target_current_once() {
    let g = sample_graph();
    let mut current_path = vec![LEAF1, BIG];
    let mut all_paths = vec![vec![APP]];
    let mut visited = vec![true; 7];
    collect_dependency_paths(&g, LEAF2, "leaf2", &mut current_path, &mut all_paths, &mut visited);
    assert_eq!(all_paths, vec![vec![APP], vec![LEAF1, BIG]]);
    assert_eq!(current_path, vec![LEAF1, BIG]);
    assert_eq!(visited, vec![true; 7]);
    // Marked packages are skipped: with big marked only the path through small is found.
    let mut current_path = vec![APP];
    let mut all_paths: Vec<Vec<usize>> = Vec::new();
    let mut visited = vec![false; 7];
    visited[BIG] = true;
    collect_dependency_paths(&g, APP, "leaf2", &mut current_path, &mut all_paths, &mut visited);
    assert_eq!(all_paths, vec![vec![APP, SMALL, LEAF2]]);
    let mut expected = vec![false; 7];
    expected[BIG] = true;
    assert_eq!(visited, expected);
}
