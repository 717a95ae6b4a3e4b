use vstd::prelude::*;

use crate::bool_count::{
    count_flags, flags_difference, lemma_num_true_all_false, minus_flags, num_true,
};
use crate::dependency_paths::{
    collect_dependency_paths, dfs_paths, followable_chain_from, followable_step,
    lemma_dfs_paths_shape, paths_view, reported_path_shape,
};
use crate::ranking::{
    is_stable_descending_order, keys_view, lemma_stable_order_lists_every_position, positions_view,
    stable_descending_order,
};
use crate::workspace_graph::{
    raw_closure, workspace_closure, flags_of, lemma_cut_closure_within_base,
    lemma_walk_push, DependencyLink, WorkspaceGraph,
};

verus! {

/// The views of a list of strings.
pub open spec fn strings_view(s: Seq<String>) -> Seq<Seq<char>> {
    s.map_values(|x: String| x@)
}

/// Membership flags of the workspace closure of `root` with `excluded` cut.
pub open spec fn closure_flags(g: WorkspaceGraph, excluded: Seq<(usize, usize)>, root: int) -> Seq<
    bool,
> {
    flags_of(g.num_packages(), |v: int| g.in_closure(excluded, root, v))
}

/// The first workspace member named `name` at index `i` or later.
pub open spec fn first_workspace_named_from(g: WorkspaceGraph, name: Seq<char>, i: int) -> Option<
    usize,
>
    decreases g.num_packages() - i,
{
    if i < 0 || i >= g.num_packages() {
        None
    } else if g.in_workspace(i) && g.name_of(i) == name {
        Some(i as usize)
    } else {
        first_workspace_named_from(g, name, i + 1)
    }
}

/// The first workspace member named `name`.
pub open spec fn workspace_package_named(g: WorkspaceGraph, name: Seq<char>) -> Option<usize> {
    first_workspace_named_from(g, name, 0)
}

/// The first link from `from` to `to` at index `j` or later.
pub open spec fn first_link_between_from(g: WorkspaceGraph, from: usize, to: usize, j: int) -> Option<
    usize,
>
    decreases g.num_links() - j,
{
    if j < 0 || j >= g.num_links() {
        None
    } else if g.link(j).from == from && g.link(j).to == to {
        Some(j as usize)
    } else {
        first_link_between_from(g, from, to, j + 1)
    }
}

/// The first direct link of `from` to `to`.
pub open spec fn direct_link_between(g: WorkspaceGraph, from: usize, to: usize) -> Option<usize> {
    first_link_between_from(g, from, to, 0)
}

/// A link whose normal dependency is never built or is optional.
pub open spec fn link_is_optional(link: DependencyLink) -> bool {
    link.normal_never || link.normal_optional
}

/// The links to cut when the target is only reached transitively: for every
/// found path of at least two packages, the link from `root` to the workspace
/// member named like the second package of the path.
pub open spec fn cut_links_from_paths(g: WorkspaceGraph, root: usize, paths: Seq<Seq<usize>>) -> Seq<
    (usize, usize),
>
    decreases paths.len(),
{
    if paths.len() == 0 {
        Seq::empty()
    } else {
        let prev = cut_links_from_paths(g, root, paths.drop_last());
        let p = paths.last();
        if p.len() >= 2 {
            match workspace_package_named(g, g.name_of(p[1] as int)) {
                Some(k) => prev.push((root, k)),
                None => prev,
            }
        } else {
            prev
        }
    }
}

/// What the root package's features activate: for each named feature of the
/// root (in the root's order) and each package, whether the feature depends on
/// that package; and whether the default feature does.
pub struct RootFeatures {
    pub names: Vec<String>,
    pub activates: Vec<Vec<bool>>,
    pub default_activates: Vec<bool>,
}

impl RootFeatures {
    /// One row of flags per named feature and one flag per package; no two
    /// features share a name.
    pub open spec fn wf(&self, n: int) -> bool {
        &&& self.activates@.len() == self.names@.len()
        &&& forall|a: int, b: int|
            0 <= a < b < self.names@.len() ==> #[trigger] self.names@[a]@ != #[trigger] self.names@[b]@
        &&& forall|f: int| 0 <= f < self.activates@.len() ==> (#[trigger] self.activates@[f])@.len() == n
        &&& self.default_activates@.len() == n
    }
}

/// The names of the first `k` named features that activate `target`, in order.
pub open spec fn activated_names(features: RootFeatures, target: int, k: int) -> Seq<Seq<char>>
    decreases k,
{
    if k <= 0 {
        Seq::empty()
    } else {
        let prev = activated_names(features, target, k - 1);
        if features.activates@[k - 1]@[target] {
            prev.push(features.names@[k - 1]@)
        } else {
            prev
        }
    }
}

/// The marker reported for a dependency that is always compiled.
pub open spec fn mandatory_marker() -> Seq<char> {
    "<mandatory: unconditionally compiled>"@
}

/// The features of the root that activate an optional dependency on `target`:
/// the named features that depend on it, then `default` when the default
/// feature depends on it and `default` is not already listed. A mandatory
/// dependency reports only the marker.
pub open spec fn activating_features_spec(features: RootFeatures, target: int, is_optional: bool) -> Seq<
    Seq<char>,
> {
    if !is_optional {
        seq![mandatory_marker()]
    } else {
        let named = activated_names(features, target, features.names@.len() as int);
        if features.default_activates@[target] && !named.contains("default"@) {
            named.push("default"@)
        } else {
            named
        }
    }
}

/// A name listed by `activated_names` is the name of one of the first `k`
/// features.
proof fn lemma_activated_name_is_feature(features: RootFeatures, target: int, k: int, x: Seq<char>)
    requires
        0 <= k <= features.names@.len(),
        activated_names(features, target, k).contains(x),
    ensures
        exists|f: int|
            0 <= f < k && (#[trigger] features.names@[f])@ == x && features.activates@[f]@[target],
    decreases k,
{
    let prev = activated_names(features, target, k - 1);
    if prev.contains(x) {
        lemma_activated_name_is_feature(features, target, k - 1, x);
        let f = choose|f: int|
            0 <= f < k - 1 && (#[trigger] features.names@[f])@ == x && features.activates@[f]@[target];
        assert(0 <= f < k && features.names@[f]@ == x && features.activates@[f]@[target]);
    } else {
        let cur = activated_names(features, target, k);
        let i = choose|i: int| 0 <= i < cur.len() && cur[i] == x;
        if i < prev.len() {
            assert(prev[i] == x);
        }
        assert(features.names@[k - 1]@ == x);
    }
}

/// Distinct feature names are listed at most once each.
proof fn lemma_activated_names_distinct(features: RootFeatures, target: int, k: int)
    requires
        features.wf(features.default_activates@.len() as int),
        0 <= k <= features.names@.len(),
    ensures
        activated_names(features, target, k).no_duplicates(),
    decreases k,
{
    if k > 0 {
        lemma_activated_names_distinct(features, target, k - 1);
        let prev = activated_names(features, target, k - 1);
        let name = features.names@[k - 1]@;
        if features.activates@[k - 1]@[target] {
            if prev.contains(name) {
                lemma_activated_name_is_feature(features, target, k - 1, name);
                let f = choose|f: int|
                    0 <= f < k - 1 && (#[trigger] features.names@[f])@ == name && features.activates@[f]@[target];
                assert(features.names@[f]@ != features.names@[k - 1]@);
            }
            lemma_push_keeps_distinct(prev, name);
        }
    }
}

/// Appending an element that is not yet listed keeps a list free of
/// duplicates.
proof fn lemma_push_keeps_distinct(s: Seq<Seq<char>>, x: Seq<char>)
    requires
        s.no_duplicates(),
        !s.contains(x),
    ensures
        s.push(x).no_duplicates(),
{
    let t = s.push(x);
    assert forall|i: int, j: int| 0 <= i < t.len() && 0 <= j < t.len() && i != j implies t[i] != t[j] by {
        if i < s.len() && j < s.len() {
            assert(t[i] == s[i] && t[j] == s[j]);
        } else if i < s.len() {
            assert(t[i] == s[i]);
        } else {
            assert(t[j] == s[j]);
        }
    }
}

/// No feature is reported twice as activating a dependency; in particular
/// `default` appears at most once.
pub proof fn lemma_activating_features_listed_once(features: RootFeatures, target: int, is_optional: bool)
    requires
        features.wf(features.default_activates@.len() as int),
    ensures
        activating_features_spec(features, target, is_optional).no_duplicates(),
{
    if is_optional {
        let named = activated_names(features, target, features.names@.len() as int);
        lemma_activated_names_distinct(features, target, features.names@.len() as int);
        if features.default_activates@[target] && !named.contains("default"@) {
            lemma_push_keeps_distinct(named, "default"@);
        }
    }
}

/// How the root depends on the target.
#[derive(Debug, Clone, Copy, PartialEq, Eq)]
pub enum DependencyKind {
    Transitive,
    DirectOptional,
    DirectMandatory,
}

impl DependencyKind {
    /// The report's name for the kind.
    pub fn label(&self) -> (text: &'static str)
        ensures
            text@ == (match *self {
                DependencyKind::Transitive => "transitive"@,
                DependencyKind::DirectOptional => "direct optional"@,
                DependencyKind::DirectMandatory => "direct mandatory"@,
            }),
    {
        match self {
            DependencyKind::Transitive => {
                proof {
                    reveal_strlit("transitive");
                }
                "transitive"
            },
            DependencyKind::DirectOptional => {
                proof {
                    reveal_strlit("direct optional");
                }
                "direct optional"
            },
            DependencyKind::DirectMandatory => {
                proof {
                    reveal_strlit("direct mandatory");
                }
                "direct mandatory"
            },
        }
    }
}

/// How much of a list a report shows: the first `shown` items, and how many
/// `more` it only counts.
#[derive(Debug, Clone, Copy, PartialEq, Eq)]
pub struct ListingWindow {
    pub shown: usize,
    pub more: usize,
}

/// The part of a list of `total` items that a report shows when it lists at
/// most `max_shown` of them: the paths (five), the shared crates (eight) and
/// the top-heavy ranking (the requested limit).
pub fn listing_window(total: usize, max_shown: usize) -> (w: ListingWindow)
    ensures
        w.shown == (if total <= max_shown {
            total
        } else {
            max_shown
        }),
        w.shown + w.more == total,
{
    if total <= max_shown {
        ListingWindow { shown: total, more: 0 }
    } else {
        ListingWindow { shown: max_shown, more: total - max_shown }
    }
}

/// Why a slimming plan could not be made.
#[derive(Debug, Clone, PartialEq, Eq)]
pub enum SlimPlanError {
    /// No workspace member is named like the requested target.
    TargetNotFound(String),
    /// No workspace member is named like the requested root.
    RootNotFound(String),
    /// Neither a target nor the top-heavy ranking was requested.
    MissingMode,
}

/// The analysis of cutting the target out of the root's dependency closure.
pub struct SingleTargetPlan {
    /// The target package.
    pub target: usize,
    /// The first direct link from the root to the target, if any.
    pub direct_link: Option<usize>,
    /// Every path of workspace links from the root to the target.
    pub all_paths: Vec<Vec<usize>>,
    pub dependency_kind: DependencyKind,
    /// Whether the direct dependency enables default features.
    pub default_features: bool,
    /// Features the direct dependency requests.
    pub requested_features: Vec<String>,
    /// Root features that activate the direct dependency.
    pub activating_features: Vec<String>,
    /// The links simulated as cut.
    pub cut_links: Vec<(usize, usize)>,
    /// The root's current workspace closure.
    pub base_closure: Vec<bool>,
    /// The root's workspace closure once the cut links are removed.
    pub new_closure: Vec<bool>,
    /// The target's own workspace closure.
    pub raw_target_closure: Vec<bool>,
    /// Packages that disappear from the root's closure with the cut.
    pub marginal_removable: Vec<bool>,
    /// Packages of the target's closure that other paths keep.
    pub shared_dependencies: Vec<bool>,
}

/// The result of a single-target analysis.
pub enum SingleTargetOutcome {
    /// The target is not in the root's workspace dependency tree.
    NotInDependencyTree { target: usize },
    /// The full analysis.
    Plan(SingleTargetPlan),
}

/// The marginal set: the packages of `base` that are not in `new`, plus the
/// target itself when `new` no longer holds it.
pub open spec fn marginal_flags(base: Seq<bool>, new: Seq<bool>, target: int) -> Seq<bool> {
    if new[target] {
        minus_flags(base, new)
    } else {
        minus_flags(base, new).update(target, true)
    }
}

/// Everything a single-target plan states, for the root `root` and the
/// target `t`.
pub open spec fn single_target_plan_holds(
    g: WorkspaceGraph,
    root: usize,
    t: usize,
    target_name: Seq<char>,
    features: RootFeatures,
    p: SingleTargetPlan,
) -> bool {
    let paths = dfs_paths(g, target_name, seq![root]);
    let direct = direct_link_between(g, root, t);
    let cut = match direct {
        Some(_) => seq![(root, t)],
        None => cut_links_from_paths(g, root, paths),
    };
    &&& p.target == t
    &&& p.direct_link == direct
    &&& paths_view(p.all_paths@) == paths
    &&& match direct {
        Some(d) => {
            let link = g.link(d as int);
            let opt = link_is_optional(link);
            &&& p.dependency_kind == (if opt {
                DependencyKind::DirectOptional
            } else {
                DependencyKind::DirectMandatory
            })
            &&& p.default_features == !link.default_features_never
            &&& strings_view(p.requested_features@) == strings_view(link.features@)
            &&& strings_view(p.activating_features@) == activating_features_spec(
                features,
                t as int,
                opt,
            )
        },
        None => {
            &&& p.dependency_kind == DependencyKind::Transitive
            &&& p.default_features
            &&& p.requested_features@.len() == 0
            &&& p.activating_features@.len() == 0
        },
    }
    &&& p.cut_links@ == cut
    &&& p.base_closure@ == closure_flags(g, Seq::empty(), root as int)
    &&& p.new_closure@ == closure_flags(g, cut, root as int)
    &&& p.raw_target_closure@ == closure_flags(g, Seq::empty(), t as int)
    &&& p.marginal_removable@ == marginal_flags(p.base_closure@, p.new_closure@, t as int)
    &&& p.shared_dependencies@ == minus_flags(p.raw_target_closure@, p.marginal_removable@)
}

/// A copy of a list of strings.
fn copy_strings(v: &Vec<String>) -> (copy: Vec<String>)
    ensures
        strings_view(copy@) == strings_view(v@),
{
    let mut copy: Vec<String> = Vec::new();
    let mut i: usize = 0;
    while i < v.len()
        invariant
            i <= v@.len(),
            copy@.len() == i,
            forall|k: int| 0 <= k < i ==> (#[trigger] copy@[k])@ == v@[k]@,
        decreases v@.len() - i,
    {
        copy.push(v[i].clone());
        i += 1;
    }
    assert(strings_view(copy@) =~= strings_view(v@));
    copy
}

/// The first workspace member named `name`, if any.
pub fn find_workspace_package(graph: &WorkspaceGraph, name: &str) -> (found: Option<usize>)
    ensures
        found == workspace_package_named(*graph, name@),
{
    let wanted = name.to_string();
    let mut i: usize = 0;
    while i < graph.packages.len()
        invariant
            i <= graph.num_packages(),
            wanted@ == name@,
            workspace_package_named(*graph, name@) == first_workspace_named_from(
                *graph,
                name@,
                i as int,
            ),
        decreases graph.num_packages() - i,
    {
        if graph.packages[i].in_workspace && graph.packages[i].name == wanted {
            return Some(i);
        }
        i += 1;
    }
    None
}

/// The first direct link from `from` to `to`, if any.
pub fn find_direct_link(graph: &WorkspaceGraph, from: usize, to: usize) -> (found: Option<usize>)
    ensures
        found == direct_link_between(*graph, from, to),
{
    let mut j: usize = 0;
    while j < graph.links.len()
        invariant
            j <= graph.num_links(),
            direct_link_between(*graph, from, to) == first_link_between_from(*graph, from, to, j as int),
        decreases graph.num_links() - j,
    {
        if graph.links[j].from == from && graph.links[j].to == to {
            return Some(j);
        }
        j += 1;
    }
    None
}

/// Whether a dependency is optional: its normal dependency is never built or
/// is optional.
pub fn check_is_optional(link: &DependencyLink) -> (optional: bool)
    ensures
        optional == link_is_optional(*link),
{
    link.normal_never || link.normal_optional
}

/// The root features that activate the dependency on `target` (see
/// `activating_features_spec`).
pub fn find_activating_features(features: &RootFeatures, target: usize, is_optional: bool) -> (found: Vec<String>)
    requires
        features.wf(features.default_activates@.len() as int),
        target < features.default_activates@.len(),
    ensures
        strings_view(found@) == activating_features_spec(*features, target as int, is_optional),
{
    if !is_optional {
        let marker = "<mandatory: unconditionally compiled>";
        proof {
            reveal_strlit("<mandatory: unconditionally compiled>");
        }
        let mut out: Vec<String> = Vec::new();
        out.push(marker.to_string());
        assert(strings_view(out@) =~= seq![mandatory_marker()]);
        return out;
    }
    let default_name = "default";
    proof {
        reveal_strlit("default");
    }
    let default_string = default_name.to_string();
    let mut activating: Vec<String> = Vec::new();
    let mut has_default = false;
    let mut f: usize = 0;
    while f < features.names.len()
        invariant
            features.wf(features.default_activates@.len() as int),
            target < features.default_activates@.len(),
            f <= features.names@.len(),
            default_string@ == "default"@,
            strings_view(activating@) == activated_names(*features, target as int, f as int),
            has_default == strings_view(activating@).contains("default"@),
        decreases features.names@.len() - f,
    {
        let ghost before = strings_view(activating@);
        if features.activates[f][target] {
            let name = features.names[f].clone();
            let is_default = name == default_string;
            activating.push(name);
            if is_default {
                has_default = true;
            }
            proof {
                assert(strings_view(activating@) =~= before.push(features.names@[f as int]@));
                if !is_default && !before.contains("default"@) {
                    assert(!strings_view(activating@).contains("default"@)) by {
                        if strings_view(activating@).contains("default"@) {
                            let k = choose|k: int| 0 <= k < strings_view(activating@).len() && strings_view(activating@)[k] == "default"@;
                            if k < before.len() {
                                assert(before[k] == "default"@);
                            }
                        }
                    }
                }
                if before.contains("default"@) {
                    let k = choose|k: int| 0 <= k < before.len() && before[k] == "default"@;
                    assert(strings_view(activating@)[k] == "default"@);
                }
                if is_default {
                    assert(strings_view(activating@)[before.len() as int] == "default"@);
                }
            }
        }
        f += 1;
    }
    if features.default_activates[target] && !has_default {
        let ghost before = strings_view(activating@);
        activating.push(default_string);
        assert(strings_view(activating@) =~= before.push("default"@));
    }
    activating
}

/// The links to cut for a transitive target (see `cut_links_from_paths`).
fn transitive_cut_links(graph: &WorkspaceGraph, root: usize, all_paths: &Vec<Vec<usize>>) -> (cut: Vec<(usize, usize)>)
    requires
        graph.wf(),
        forall|i: int, k: int| 0 <= i < all_paths@.len() && 0 <= k < all_paths@[i]@.len() ==> #[trigger] all_paths@[i]@[k] < graph.num_packages(),
    ensures
        cut@ == cut_links_from_paths(*graph, root, paths_view(all_paths@)),
{
    let mut cut: Vec<(usize, usize)> = Vec::new();
    let mut i: usize = 0;
    while i < all_paths.len()
        invariant
            graph.wf(),
            i <= all_paths@.len(),
            forall|i2: int, k: int| 0 <= i2 < all_paths@.len() && 0 <= k < all_paths@[i2]@.len() ==> #[trigger] all_paths@[i2]@[k] < graph.num_packages(),
            cut@ == cut_links_from_paths(*graph, root, paths_view(all_paths@).subrange(0, i as int)),
        decreases all_paths@.len() - i,
    {
        proof {
            assert(paths_view(all_paths@).subrange(0, i + 1).drop_last() =~= paths_view(all_paths@).subrange(0, i as int));
            assert(paths_view(all_paths@).subrange(0, i + 1).last() == all_paths@[i as int]@);
        }
        let path = &all_paths[i];
        if path.len() >= 2 {
            let second = path[1];
            assert(second < graph.num_packages());
            if let Some(pkg) = find_workspace_package(graph, graph.packages[second].name.as_str()) {
                cut.push((root, pkg));
            }
        }
        i += 1;
    }
    assert(paths_view(all_paths@).subrange(0, all_paths@.len() as int) =~= paths_view(all_paths@));
    cut
}

/// Analyses cutting the workspace member named `target_name` out of the
/// dependency closure of `root`: the paths that lead to it, how the root
/// depends on it, which links to cut, and which packages the cut removes or
/// leaves shared.
pub fn run_single_target(
    graph: &WorkspaceGraph,
    root: usize,
    target_name: &str,
    features: &RootFeatures,
) -> (outcome: Result<SingleTargetOutcome, SlimPlanError>)
    requires
        graph.wf(),
        root < graph.num_packages(),
        features.wf(graph.num_packages()),
    ensures
        match workspace_package_named(*graph, target_name@) {
            None => outcome matches Err(SlimPlanError::TargetNotFound(name)) && name@ == target_name@,
            Some(t) => match outcome {
                Ok(SingleTargetOutcome::NotInDependencyTree { target }) => target == t && dfs_paths(
                    *graph,
                    target_name@,
                    seq![root],
                ).len() == 0,
                Ok(SingleTargetOutcome::Plan(p)) => dfs_paths(*graph, target_name@, seq![root]).len()
                    > 0 && single_target_plan_holds(*graph, root, t, target_name@, *features, p),
                Err(_) => false,
            },
        },
{
    let target = match find_workspace_package(graph, target_name) {
        Some(t) => t,
        None => {
            return Err(SlimPlanError::TargetNotFound(target_name.to_string()));
        },
    };
    proof {
        lemma_first_named_is_member(*graph, target_name@, 0);
    }
    let ghost g = *graph;
    let n = graph.packages.len();
    let direct_link = find_direct_link(graph, root, target);

    let mut all_paths: Vec<Vec<usize>> = Vec::new();
    let mut current_path: Vec<usize> = Vec::new();
    current_path.push(root);
    let mut visited: Vec<bool> = Vec::new();
    let mut k: usize = 0;
    while k < n
        invariant
            k <= n,
            visited@.len() == k,
            forall|i: int| 0 <= i < k ==> !visited@[i],
        decreases n - k,
    {
        visited.push(false);
        k += 1;
    }
    proof {
        lemma_num_true_all_false(visited@);
        assert(current_path@.drop_last() =~= Seq::<usize>::empty());
    }
    collect_dependency_paths(graph, root, target_name, &mut current_path, &mut all_paths, &mut visited);
    proof {
        assert(current_path@ =~= seq![root]);
        assert(paths_view(all_paths@) =~= dfs_paths(g, target_name@, seq![root]));
        assert(seq![root].no_duplicates());
        lemma_dfs_paths_shape(g, target_name@, seq![root]);
        assert forall|i: int, j: int|
            0 <= i < all_paths@.len() && 0 <= j < all_paths@[i]@.len() implies #[trigger] all_paths@[i]@[j] < graph.num_packages() by {
            assert(paths_view(all_paths@)[i] == all_paths@[i]@);
            assert(reported_path_shape(g, target_name@, seq![root], dfs_paths(g, target_name@, seq![root])[i]));
        }
    }
    if all_paths.len() == 0 {
        return Ok(SingleTargetOutcome::NotInDependencyTree { target });
    }
    let (dependency_kind, default_features, requested_features, activating_features) =
        match direct_link {
        Some(d) => {
            proof {
                lemma_first_link_is_link(g, root, target, 0);
            }
            let link = &graph.links[d];
            let opt = check_is_optional(link);
            let kind = if opt {
                DependencyKind::DirectOptional
            } else {
                DependencyKind::DirectMandatory
            };
            let requested = copy_strings(&link.features);
            let activating = find_activating_features(features, target, opt);
            (kind, !link.default_features_never, requested, activating)
        },
        None => (DependencyKind::Transitive, true, Vec::new(), Vec::new()),
    };

    let no_cuts: Vec<(usize, usize)> = Vec::new();
    let base_closure = workspace_closure(graph, root, no_cuts.as_slice());
    assert(no_cuts@ =~= Seq::<(usize, usize)>::empty());
    let raw_target_closure = raw_closure(graph, target);
    let cut_links: Vec<(usize, usize)> = match direct_link {
        Some(_) => {
            let mut c: Vec<(usize, usize)> = Vec::new();
            c.push((root, target));
            c
        },
        None => transitive_cut_links(graph, root, &all_paths),
    };
    let new_closure = workspace_closure(graph, root, cut_links.as_slice());
    let mut marginal_removable = flags_difference(&base_closure, &new_closure);
    if !new_closure[target] {
        marginal_removable.set(target, true);
    }
    let shared_dependencies = flags_difference(&raw_target_closure, &marginal_removable);
    let plan = SingleTargetPlan {
        target,
        direct_link,
        all_paths,
        dependency_kind,
        default_features,
        requested_features,
        activating_features,
        cut_links,
        base_closure,
        new_closure,
        raw_target_closure,
        marginal_removable,
        shared_dependencies,
    };
    proof {
        assert(plan.cut_links@ =~= match direct_link {
            Some(_) => seq![(root, target)],
            None => cut_links_from_paths(g, root, dfs_paths(g, target_name@, seq![root])),
        });
    }
    Ok(SingleTargetOutcome::Plan(plan))
}

/// The first link between two packages from `j` on is such a link.
pub proof fn lemma_first_link_is_link(g: WorkspaceGraph, from: usize, to: usize, j: int)
    ensures
        first_link_between_from(g, from, to, j) matches Some(d) ==> (d < g.num_links() && j <= d
            && g.link(d as int).from == from && g.link(d as int).to == to),
    decreases g.num_links() - j,
{
    if 0 <= j < g.num_links() && !(g.link(j).from == from && g.link(j).to == to) {
        lemma_first_link_is_link(g, from, to, j + 1);
    }
}

/// The first workspace member named `name` from `i` on is a workspace member
/// with that name.
pub proof fn lemma_first_named_is_member(g: WorkspaceGraph, name: Seq<char>, i: int)
    ensures
        first_workspace_named_from(g, name, i) matches Some(t) ==> (t < g.num_packages()
            && g.in_workspace(t as int) && g.name_of(t as int) == name && i <= t),
    decreases g.num_packages() - i,
{
    if 0 <= i < g.num_packages() && !(g.in_workspace(i) && g.name_of(i) == name) {
        lemma_first_named_is_member(g, name, i + 1);
    }
}

/// The direct dependencies of `root` that the ranking considers, among the
/// first `k` links: links out of `root` that are followable, in link order.
pub open spec fn root_dependency_links(g: WorkspaceGraph, root: usize, k: int) -> Seq<usize>
    decreases k,
{
    if k <= 0 {
        Seq::empty()
    } else {
        let prev = root_dependency_links(g, root, k - 1);
        if g.link(k - 1).from == root && g.followable(k - 1) {
            prev.push((k - 1) as usize)
        } else {
            prev
        }
    }
}

/// The packages that cutting link `l` out of `root` removes from its closure.
pub open spec fn marginal_of_link(g: WorkspaceGraph, root: usize, l: usize) -> Seq<bool> {
    let t = g.link(l as int).to;
    minus_flags(
        closure_flags(g, Seq::empty(), root as int),
        closure_flags(g, seq![(root, t)], root as int),
    )
}

/// One ranked dependency of the top-heavy analysis.
#[derive(Debug, Clone, Copy, PartialEq, Eq)]
pub struct TopHeavyCandidate {
    /// The dependency.
    pub target: usize,
    /// Whether the dependency is optional.
    pub is_optional: bool,
    /// Size of the dependency's own workspace closure.
    pub raw_closure_len: usize,
    /// Size of the part of that closure that other paths keep.
    pub shared_len: usize,
    /// How many packages cutting the dependency removes from the root's closure.
    pub marginal_len: usize,
}

/// `c` describes cutting the direct dependency `l` of `root`.
pub open spec fn candidate_holds(g: WorkspaceGraph, root: usize, l: usize, c: TopHeavyCandidate) -> bool {
    let t = g.link(l as int).to;
    let marginal = marginal_of_link(g, root, l);
    let raw = closure_flags(g, Seq::empty(), t as int);
    &&& c.target == t
    &&& c.is_optional == link_is_optional(g.link(l as int))
    &&& c.raw_closure_len == num_true(raw)
    &&& c.marginal_len == num_true(marginal)
    &&& c.shared_len == num_true(minus_flags(raw, marginal))
}

/// The top-heavy analysis: the root's closure and its ranked dependencies.
pub struct TopHeavyReport {
    /// The root's current workspace closure.
    pub base_closure: Vec<bool>,
    /// The direct dependencies, most removable first.
    pub candidates: Vec<TopHeavyCandidate>,
}

/// The ranking keys: marginal sizes of the considered links, in link order.
pub open spec fn marginal_keys(g: WorkspaceGraph, root: usize) -> Seq<int> {
    let links = root_dependency_links(g, root, g.num_links());
    Seq::new(links.len(), |i: int| num_true(marginal_of_link(g, root, links[i])) as int)
}

/// What the top-heavy report holds: the root's closure, and one candidate per
/// considered link, ranked by a stable descending order of marginal size.
pub open spec fn top_heavy_report_holds(g: WorkspaceGraph, root: usize, report: TopHeavyReport) -> bool {
    &&& report.base_closure@ == closure_flags(g, Seq::empty(), root as int)
    &&& ({
        let links = root_dependency_links(g, root, g.num_links());
        &&& report.candidates@.len() == links.len()
        &&& exists|order: Seq<int>|
            #![trigger is_stable_descending_order(marginal_keys(g, root), order)]
            is_stable_descending_order(marginal_keys(g, root), order) && forall|i: int|
                0 <= i < links.len() ==> candidate_holds(
                    g,
                    root,
                    links[order[i]],
                    #[trigger] report.candidates@[i],
                )
    })
}

/// Ranks the direct workspace dependencies of `root` by how many packages
/// cutting each one removes from the root's closure, most first; dependencies
/// with equal counts keep their declaration order.
pub fn run_top_heavy(graph: &WorkspaceGraph, root: usize) -> (report: TopHeavyReport)
    requires
        graph.wf(),
        root < graph.num_packages(),
    ensures
        top_heavy_report_holds(*graph, root, report),
{
    let ghost g = *graph;
    let no_cuts: Vec<(usize, usize)> = Vec::new();
    let base_closure = workspace_closure(graph, root, no_cuts.as_slice());
    assert(no_cuts@ =~= Seq::<(usize, usize)>::empty());
    let mut unsorted: Vec<TopHeavyCandidate> = Vec::new();
    let mut keys: Vec<usize> = Vec::new();
    let m = graph.links.len();
    let mut j: usize = 0;
    while j < m
        invariant
            g == *graph,
            graph.wf(),
            root < graph.num_packages(),
            m == graph.num_links(),
            j <= m,
            base_closure@ == closure_flags(g, Seq::empty(), root as int),
            unsorted@.len() == root_dependency_links(g, root, j as int).len(),
            keys@.len() == unsorted@.len(),
            forall|i: int|
                0 <= i < unsorted@.len() ==> candidate_holds(
                    g,
                    root,
                    root_dependency_links(g, root, j as int)[i],
                    #[trigger] unsorted@[i],
                ),
            forall|i: int| 0 <= i < keys@.len() ==> #[trigger] keys@[i] == unsorted@[i].marginal_len,
        decreases m - j,
    {
        let ghost prev = root_dependency_links(g, root, j as int);
        let link = &graph.links[j];
        assert(g.link(j as int) == *link);
        if link.from == root && graph.packages[link.to].in_workspace && !link.dev_only {
            let target = link.to;
            let mut cut: Vec<(usize, usize)> = Vec::new();
            cut.push((root, target));
            assert(cut@ =~= seq![(root, target)]);
            let new_closure = workspace_closure(graph, root, cut.as_slice());
            let marginal = flags_difference(&base_closure, &new_closure);
            let raw_closure = raw_closure(graph, target);
            let shared = flags_difference(&raw_closure, &marginal);
            let candidate = TopHeavyCandidate {
                target,
                is_optional: check_is_optional(link),
                raw_closure_len: count_flags(&raw_closure),
                shared_len: count_flags(&shared),
                marginal_len: count_flags(&marginal),
            };
            unsorted.push(candidate);
            keys.push(candidate.marginal_len);
            proof {
                assert(root_dependency_links(g, root, j + 1) == prev.push(j));
                assert forall|i: int|
                    0 <= i < unsorted@.len() implies candidate_holds(
                        g,
                        root,
                        root_dependency_links(g, root, j + 1)[i],
                        #[trigger] unsorted@[i],
                    ) by {
                    if i < prev.len() {
                        assert(root_dependency_links(g, root, j + 1)[i] == prev[i]);
                    }
                }
            }
        } else {
            assert(root_dependency_links(g, root, j + 1) == prev);
        }
        j += 1;
    }
    let order = stable_descending_order(&keys);
    let ghost links = root_dependency_links(g, root, m as int);
    proof {
        assert(keys_view(keys@) =~= marginal_keys(g, root));
    }
    let mut candidates: Vec<TopHeavyCandidate> = Vec::new();
    let mut i: usize = 0;
    while i < order.len()
        invariant
            g == *graph,
            links == root_dependency_links(g, root, g.num_links()),
            unsorted@.len() == links.len(),
            forall|i2: int|
                0 <= i2 < unsorted@.len() ==> candidate_holds(g, root, links[i2], #[trigger] unsorted@[i2]),
            is_stable_descending_order(marginal_keys(g, root), positions_view(order@)),
            marginal_keys(g, root).len() == links.len(),
            i <= order@.len(),
            candidates@.len() == i,
            forall|k: int| 0 <= k < i ==> #[trigger] candidates@[k] == unsorted@[order@[k] as int],
        decreases order@.len() - i,
    {
        assert(positions_view(order@)[i as int] == order@[i as int] as int);
        candidates.push(unsorted[order[i]]);
        i += 1;
    }
    let report = TopHeavyReport { base_closure, candidates };
    proof {
        let ord = positions_view(order@);
        assert forall|k: int| 0 <= k < links.len() implies candidate_holds(
            g,
            root,
            links[ord[k]],
            #[trigger] report.candidates@[k],
        ) by {
            assert(ord[k] == order@[k] as int);
        }
    }
    report
}

/// What the analysis was asked to do.
#[derive(Debug, Clone, PartialEq, Eq)]
pub enum SlimPlanMode {
    /// Rank the root's direct dependencies, showing at most `limit`.
    TopHeavy { limit: usize },
    /// Analyse cutting one named target.
    SingleTarget { target: String },
}

/// Chooses the analysis: the top-heavy ranking when requested, else the named
/// target; with neither, the request is refused.
pub fn select_mode(top_heavy: bool, target: Option<String>, limit: usize) -> (mode: Result<
    SlimPlanMode,
    SlimPlanError,
>)
    ensures
        top_heavy ==> mode == Ok::<SlimPlanMode, SlimPlanError>(SlimPlanMode::TopHeavy { limit }),
        !top_heavy && target is Some ==> (mode matches Ok(SlimPlanMode::SingleTarget { target: t })
            && t@ == target->0@),
        !top_heavy && target is None ==> mode == Err::<SlimPlanMode, SlimPlanError>(
            SlimPlanError::MissingMode,
        ),
{
    if top_heavy {
        Ok(SlimPlanMode::TopHeavy { limit })
    } else {
        match target {
            Some(t) => Ok(SlimPlanMode::SingleTarget { target: t }),
            None => Err(SlimPlanError::MissingMode),
        }
    }
}

/// The workspace member named `name`, or the refusal naming it.
pub fn find_root_package(graph: &WorkspaceGraph, name: &str) -> (root: Result<usize, SlimPlanError>)
    ensures
        match workspace_package_named(*graph, name@) {
            Some(r) => root == Ok::<usize, SlimPlanError>(r),
            None => root matches Err(SlimPlanError::RootNotFound(n)) && n@ == name@,
        },
{
    match find_workspace_package(graph, name) {
        Some(r) => Ok(r),
        None => Err(SlimPlanError::RootNotFound(name.to_string())),
    }
}

/// The text of a refusal.
pub open spec fn slim_plan_error_text(e: SlimPlanError) -> Seq<char> {
    match e {
        SlimPlanError::TargetNotFound(n) => "target package '"@ + n@ + "' not found in workspace"@,
        SlimPlanError::RootNotFound(n) => "workspace package '"@ + n@ + "' not found"@,
        SlimPlanError::MissingMode => "either a TARGET dependency or --top-heavy must be specified. See --help."@,
    }
}

impl SlimPlanError {
    /// Human-readable message of the refusal.
    pub fn message(&self) -> (text: String)
        ensures
            text@ == slim_plan_error_text(*self),
    {
        match self {
            SlimPlanError::TargetNotFound(n) => {
                let head = "target package '";
                let tail = "' not found in workspace";
                proof {
                    reveal_strlit("target package '");
                    reveal_strlit("' not found in workspace");
                }
                let mut text = head.to_string();
                text.append(n.as_str());
                text.append(tail);
                text
            },
            SlimPlanError::RootNotFound(n) => {
                let head = "workspace package '";
                let tail = "' not found";
                proof {
                    reveal_strlit("workspace package '");
                    reveal_strlit("' not found");
                }
                let mut text = head.to_string();
                text.append(n.as_str());
                text.append(tail);
                text
            },
            SlimPlanError::MissingMode => {
                let text = "either a TARGET dependency or --top-heavy must be specified. See --help.";
                proof {
                    reveal_strlit("either a TARGET dependency or --top-heavy must be specified. See --help.");
                }
                text.to_string()
            },
        }
    }
}

/// A chain of followable links from `q[0]` reaches `q[k - 1]` by a walk with
/// nothing cut.
proof fn lemma_chain_is_walk(g: WorkspaceGraph, q: Seq<usize>, k: int)
    requires
        g.wf(),
        1 <= k <= q.len(),
        followable_chain_from(g, q, 0),
    ensures
        g.reachable(Seq::empty(), q[0] as int, q[k - 1] as int),
    decreases k,
{
    let none = Seq::<(usize, usize)>::empty();
    if k == 1 {
        let ls = Seq::<int>::empty();
        assert(g.is_walk(none, q[0] as int, ls));
    } else {
        lemma_chain_is_walk(g, q, k - 1);
        let w = choose|ls: Seq<int>| #[trigger]
            g.is_walk(none, q[0] as int, ls) && g.walk_end(q[0] as int, ls) == q[k - 2] as int;
        assert(followable_step(g, q, k - 2));
        let l = choose|l: int|
            0 <= l < g.num_links() && g.followable(l) && #[trigger] g.link(l).from == q[k - 2]
                && g.link(l).to == q[k - 2 + 1];
        lemma_walk_push(&g, none, q[0] as int, w, l);
    }
}

/// Cutting the target splits the root's current closure exactly in two: the
/// packages of the simulated new closure, and the marginal removable ones. The
/// target belongs to the current closure, and no shared dependency is
/// marginal.
pub proof fn lemma_plan_partitions_closure(
    g: WorkspaceGraph,
    root: usize,
    t: usize,
    target_name: Seq<char>,
    features: RootFeatures,
    p: SingleTargetPlan,
)
    requires
        g.wf(),
        root < g.num_packages(),
        g.in_workspace(root as int),
        workspace_package_named(g, target_name) == Some(t),
        dfs_paths(g, target_name, seq![root]).len() > 0,
        single_target_plan_holds(g, root, t, target_name, features, p),
    ensures
        p.base_closure@[t as int],
        forall|v: int|
            0 <= v < g.num_packages() ==> (p.base_closure@[v] <==> (p.new_closure@[v]
                || p.marginal_removable@[v])),
        forall|v: int| 0 <= v < g.num_packages() ==> !(p.new_closure@[v] && p.marginal_removable@[v]),
        forall|v: int|
            0 <= v < g.num_packages() ==> !(p.shared_dependencies@[v] && p.marginal_removable@[v]),
{
    lemma_first_named_is_member(g, target_name, 0);
    let pre = seq![root];
    assert(pre.no_duplicates());
    lemma_dfs_paths_shape(g, target_name, pre);
    let q = dfs_paths(g, target_name, pre)[0];
    assert(reported_path_shape(g, target_name, pre, q));
    assert(q[0] == q.subrange(0, 1)[0]);
    assert(q[0] == root);
    lemma_chain_is_walk(g, q, q.len() as int);
    let last = q[q.len() - 1];
    assert(g.in_workspace(last as int)) by {
        if q.len() > 1 {
            assert(followable_step(g, q, q.len() - 2));
        }
    }
    assert(last == t);
    let cut = p.cut_links@;
    assert forall|v: int| 0 <= v < g.num_packages() && p.new_closure@[v] implies p.base_closure@[v] by {
        assert(g.in_closure(cut, root as int, v));
        lemma_cut_closure_within_base(&g, Seq::empty(), cut, root as int, v);
    }
}

/// `pair` is a followable link out of `root` to the second package of one of
/// the `paths`.
pub open spec fn leaves_root_toward(g: WorkspaceGraph, root: usize, paths: Seq<Seq<usize>>, pair: (usize, usize)) -> bool {
    &&& pair.0 == root
    &&& exists|l: int|
        0 <= l < g.num_links() && g.followable(l) && #[trigger] g.link(l).from == root && g.link(l).to
            == pair.1
    &&& exists|i: int| 0 <= i < paths.len() && (#[trigger] paths[i]).len() >= 2 && paths[i][1] == pair.1
}

/// Each pair that `cut_links_from_paths` cuts for paths of the reported
/// shape leaves the root toward one of the paths.
proof fn lemma_cut_pairs_leave_root(g: WorkspaceGraph, root: usize, target: Seq<char>, paths: Seq<Seq<usize>>)
    requires
        g.wf(),
        forall|i: int| 0 <= i < paths.len() ==> reported_path_shape(g, target, seq![root], #[trigger] paths[i]),
    ensures
        forall|k: int|
            0 <= k < cut_links_from_paths(g, root, paths).len() ==> leaves_root_toward(
                g,
                root,
                paths,
                #[trigger] cut_links_from_paths(g, root, paths)[k],
            ),
    decreases paths.len(),
{
    if paths.len() > 0 {
        let prev_paths = paths.drop_last();
        assert forall|i: int| 0 <= i < prev_paths.len() implies reported_path_shape(
            g,
            target,
            seq![root],
            #[trigger] prev_paths[i],
        ) by {
            assert(prev_paths[i] == paths[i]);
        }
        lemma_cut_pairs_leave_root(g, root, target, prev_paths);
        let prev = cut_links_from_paths(g, root, prev_paths);
        let cut = cut_links_from_paths(g, root, paths);
        let p = paths.last();
        assert(reported_path_shape(g, target, seq![root], paths[paths.len() - 1]));
        assert forall|k: int| 0 <= k < cut.len() implies leaves_root_toward(g, root, paths, #[trigger] cut[k]) by {
            if k < prev.len() {
                assert(cut[k] == prev[k]);
                assert(leaves_root_toward(g, root, prev_paths, prev[k]));
                let i = choose|i: int|
                    0 <= i < prev_paths.len() && (#[trigger] prev_paths[i]).len() >= 2 && prev_paths[i][1]
                        == prev[k].1;
                assert(paths[i] == prev_paths[i]);
            } else {
                assert(p.len() >= 2);
                let name = g.name_of(p[1] as int);
                let w = workspace_package_named(g, name)->0;
                lemma_first_named_is_member(g, name, 0);
                assert(cut[k] == (root, w));
                assert(p.subrange(0, 1) == seq![root]);
                assert(p[0] == p.subrange(0, 1)[0]);
                assert(followable_step(g, p, 0));
                let l = choose|l: int|
                    0 <= l < g.num_links() && g.followable(l) && #[trigger] g.link(l).from == p[0]
                        && g.link(l).to == p[1];
                assert(g.in_workspace(p[1] as int));
                assert(w == p[1]) by {
                    if w != p[1] {
                        assert(g.name_of(w as int) != g.name_of(p[1] as int));
                    }
                }
                assert(paths[paths.len() - 1] == p);
            }
        }
    }
}

/// A workspace member named `name` at or after `i` is found by the search
/// from `i`.
proof fn lemma_named_member_found(g: WorkspaceGraph, name: Seq<char>, i: int, v: int)
    requires
        0 <= i <= v < g.num_packages(),
        g.in_workspace(v),
        g.name_of(v) == name,
    ensures
        first_workspace_named_from(g, name, i) is Some,
    decreases v - i,
{
    if i < v && !(g.in_workspace(i) && g.name_of(i) == name) {
        lemma_named_member_found(g, name, i + 1, v);
    }
}

/// Every path of the reported shape with a second package has its first
/// link, from the root to that package, among the cut pairs.
proof fn lemma_paths_first_links_are_cut(g: WorkspaceGraph, root: usize, target: Seq<char>, paths: Seq<Seq<usize>>)
    requires
        g.wf(),
        forall|i: int| 0 <= i < paths.len() ==> reported_path_shape(g, target, seq![root], #[trigger] paths[i]),
    ensures
        forall|i: int|
            0 <= i < paths.len() && (#[trigger] paths[i]).len() >= 2 ==> cut_links_from_paths(
                g,
                root,
                paths,
            ).contains((root, paths[i][1])),
    decreases paths.len(),
{
    if paths.len() > 0 {
        let prev_paths = paths.drop_last();
        assert forall|i: int| 0 <= i < prev_paths.len() implies reported_path_shape(
            g,
            target,
            seq![root],
            #[trigger] prev_paths[i],
        ) by {
            assert(prev_paths[i] == paths[i]);
        }
        lemma_paths_first_links_are_cut(g, root, target, prev_paths);
        let prev = cut_links_from_paths(g, root, prev_paths);
        let cut = cut_links_from_paths(g, root, paths);
        let p = paths.last();
        assert(reported_path_shape(g, target, seq![root], paths[paths.len() - 1]));
        assert forall|i: int| 0 <= i < paths.len() && (#[trigger] paths[i]).len() >= 2 implies cut.contains(
            (root, paths[i][1]),
        ) by {
            if i < prev_paths.len() {
                assert(paths[i] == prev_paths[i]);
                assert(prev.contains((root, prev_paths[i][1])));
                let j = choose|j: int| 0 <= j < prev.len() && prev[j] == (root, prev_paths[i][1]);
                assert(cut[j] == prev[j]);
            } else {
                assert(paths[i] == p);
                assert(p.len() >= 2);
                let name = g.name_of(p[1] as int);
                assert(p.subrange(0, 1) == seq![root]);
                assert(p[0] == p.subrange(0, 1)[0]);
                assert(followable_step(g, p, 0));
                let l = choose|l: int|
                    0 <= l < g.num_links() && g.followable(l) && #[trigger] g.link(l).from == p[0]
                        && g.link(l).to == p[1];
                assert(g.in_workspace(p[1] as int));
                lemma_named_member_found(g, name, 0, p[1] as int);
                let w = workspace_package_named(g, name)->0;
                lemma_first_named_is_member(g, name, 0);
                assert(w == p[1]) by {
                    if w != p[1] {
                        assert(g.name_of(w as int) != g.name_of(p[1] as int));
                    }
                }
                assert(cut[prev.len() as int] == (root, p[1]));
            }
        }
    }
}

/// For a target that the root reaches only transitively, the cut links are
/// exactly the first links of the found paths: every cut link is a direct,
/// followable link of the root to a workspace member that starts one of the
/// found paths to the target (its second package), and the first link of
/// every found path is cut.
pub proof fn lemma_transitive_cuts_leave_root(
    g: WorkspaceGraph,
    root: usize,
    t: usize,
    target_name: Seq<char>,
    features: RootFeatures,
    p: SingleTargetPlan,
)
    requires
        g.wf(),
        root < g.num_packages(),
        single_target_plan_holds(g, root, t, target_name, features, p),
        p.direct_link is None,
    ensures
        forall|k: int|
            0 <= k < p.cut_links@.len() ==> leaves_root_toward(
                g,
                root,
                paths_view(p.all_paths@),
                #[trigger] p.cut_links@[k],
            ),
        forall|i: int|
            0 <= i < p.all_paths@.len() && (#[trigger] p.all_paths@[i])@.len() >= 2 ==> p.cut_links@.contains(
                (root, p.all_paths@[i]@[1]),
            ),
{
    let pre = seq![root];
    assert(pre.no_duplicates());
    lemma_dfs_paths_shape(g, target_name, pre);
    let paths = dfs_paths(g, target_name, pre);
    lemma_cut_pairs_leave_root(g, root, target_name, paths);
    lemma_paths_first_links_are_cut(g, root, target_name, paths);
    assert forall|i: int| 0 <= i < p.all_paths@.len() && (#[trigger] p.all_paths@[i])@.len() >= 2 implies p.cut_links@.contains(
        (root, p.all_paths@[i]@[1]),
    ) by {
        assert(paths_view(p.all_paths@)[i] == p.all_paths@[i]@);
        assert(paths[i] == p.all_paths@[i]@);
    }
    assert forall|k: int| 0 <= k < p.cut_links@.len() implies leaves_root_toward(
        g,
        root,
        paths_view(p.all_paths@),
        #[trigger] p.cut_links@[k],
    ) by {
        assert(p.cut_links@[k] == cut_links_from_paths(g, root, paths)[k]);
    }
}

/// The links `root_dependency_links` considers are followable links out of
/// the root.
proof fn lemma_considered_links_are_root_links(g: WorkspaceGraph, root: usize, k: int)
    requires
        k <= g.num_links(),
    ensures
        forall|i: int|
            0 <= i < root_dependency_links(g, root, k).len() ==> {
                let l = #[trigger] root_dependency_links(g, root, k)[i] as int;
                0 <= l < k && g.link(l).from == root && g.followable(l)
            },
    decreases k,
{
    if k > 0 {
        lemma_considered_links_are_root_links(g, root, k - 1);
        let prev = root_dependency_links(g, root, k - 1);
        let cur = root_dependency_links(g, root, k);
        assert forall|i: int| 0 <= i < cur.len() implies {
            let l = #[trigger] cur[i] as int;
            0 <= l < k && g.link(l).from == root && g.followable(l)
        } by {
            if i < prev.len() {
                assert(cur[i] == prev[i]);
                let l0 = prev[i] as int;
                assert(0 <= l0 < k - 1 && g.link(l0).from == root && g.followable(l0));
            } else {
                assert(cur == prev.push((k - 1) as usize));
                assert(cur[i] == (k - 1) as usize);
            }
        }
    }
}

/// Only workspace dependencies are ranked: every candidate of the top-heavy
/// report is a workspace member that the root reaches by a direct link that
/// is not dev-only.
pub proof fn lemma_top_heavy_ranks_workspace_dependencies(g: WorkspaceGraph, root: usize, report: TopHeavyReport)
    requires
        top_heavy_report_holds(g, root, report),
    ensures
        forall|i: int|
            0 <= i < report.candidates@.len() ==> exists|l: int|
                0 <= l < g.num_links() && #[trigger] g.link(l).from == root && !g.link(l).dev_only
                    && g.in_workspace(g.link(l).to as int) && g.link(l).to
                    == (#[trigger] report.candidates@[i]).target,
{
    let links = root_dependency_links(g, root, g.num_links());
    lemma_considered_links_are_root_links(g, root, g.num_links());
    let order = choose|order: Seq<int>|
        #![trigger is_stable_descending_order(marginal_keys(g, root), order)]
        is_stable_descending_order(marginal_keys(g, root), order) && forall|i: int|
            0 <= i < links.len() ==> candidate_holds(g, root, links[order[i]], #[trigger] report.candidates@[i]);
    assert forall|i: int| 0 <= i < report.candidates@.len() implies exists|l: int|
        0 <= l < g.num_links() && #[trigger] g.link(l).from == root && !g.link(l).dev_only
            && g.in_workspace(g.link(l).to as int) && g.link(l).to == (#[trigger] report.candidates@[i]).target by {
        assert(candidate_holds(g, root, links[order[i]], report.candidates@[i]));
        assert(0 <= order[i] < marginal_keys(g, root).len());
        let l = links[order[i]] as int;
        assert(0 <= l < g.num_links() && g.link(l).from == root && g.followable(l));
    }
}

/// A feature among the first `k` that activates `target` is listed by
/// `activated_names`.
proof fn lemma_activating_feature_is_listed(features: RootFeatures, target: int, k: int, i: int)
    requires
        0 <= i < k <= features.names@.len(),
        features.activates@[i]@[target],
    ensures
        activated_names(features, target, k).contains(features.names@[i]@),
    decreases k,
{
    let prev = activated_names(features, target, k - 1);
    let cur = activated_names(features, target, k);
    if i < k - 1 {
        lemma_activating_feature_is_listed(features, target, k - 1, i);
        let j = choose|j: int| 0 <= j < prev.len() && prev[j] == features.names@[i]@;
        if features.activates@[k - 1]@[target] {
            assert(cur[j] == prev[j]);
        }
        assert(cur[j] == features.names@[i]@);
    } else {
        assert(cur[prev.len() as int] == features.names@[i]@);
    }
}

/// For an optional dependency, the reported features are exactly the root's
/// named features that activate the target, plus `default` when the default
/// feature activates it: a name other than `default` is reported if and only
/// if a feature of that name activates the target, and `default` is reported
/// if and only if the default feature or a feature named `default` does.
pub proof fn lemma_activating_features_are_the_activating_ones(
    features: RootFeatures,
    target: int,
    x: Seq<char>,
)
    ensures
        x != "default"@ ==> (activating_features_spec(features, target, true).contains(x) <==> exists|i: int|
            0 <= i < features.names@.len() && (#[trigger] features.names@[i])@ == x
                && features.activates@[i]@[target]),
        activating_features_spec(features, target, true).contains("default"@) <==> (
        features.default_activates@[target] || exists|i: int|
            0 <= i < features.names@.len() && (#[trigger] features.names@[i])@ == "default"@
                && features.activates@[i]@[target]),
{
    let k = features.names@.len() as int;
    let named = activated_names(features, target, k);
    let result = activating_features_spec(features, target, true);
    assert forall|y: Seq<char>| #[trigger] named.contains(y) <==> exists|i: int|
        0 <= i < k && (#[trigger] features.names@[i])@ == y && features.activates@[i]@[target] by {
        if named.contains(y) {
            lemma_activated_name_is_feature(features, target, k, y);
        }
        if exists|i: int| 0 <= i < k && (#[trigger] features.names@[i])@ == y && features.activates@[i]@[target] {
            let i = choose|i: int| 0 <= i < k && (#[trigger] features.names@[i])@ == y && features.activates@[i]@[target];
            lemma_activating_feature_is_listed(features, target, k, i);
        }
    }
    if features.default_activates@[target] && !named.contains("default"@) {
        assert(result == named.push("default"@));
        assert(result[named.len() as int] == "default"@);
        if result.contains(x) && x != "default"@ {
            let j = choose|j: int| 0 <= j < result.len() && result[j] == x;
            assert(j < named.len());
            assert(named[j] == x);
        }
        if named.contains(x) {
            let j = choose|j: int| 0 <= j < named.len() && named[j] == x;
            assert(result[j] == x);
        }
    }
}

/// Every followable link out of the root among the first `k` is considered.
proof fn lemma_root_links_are_considered(g: WorkspaceGraph, root: usize, k: int, l: int)
    requires
        0 <= l < k <= g.num_links(),
        g.link(l).from == root,
        g.followable(l),
    ensures
        exists|j: int|
            0 <= j < root_dependency_links(g, root, k).len() && root_dependency_links(g, root, k)[j] == l,
    decreases k,
{
    let prev = root_dependency_links(g, root, k - 1);
    let cur = root_dependency_links(g, root, k);
    if l < k - 1 {
        lemma_root_links_are_considered(g, root, k - 1, l);
        let j = choose|j: int| 0 <= j < prev.len() && prev[j] == l;
        if g.link(k - 1).from == root && g.followable(k - 1) {
            assert(cur[j] == prev[j]);
        }
        assert(cur[j] == l);
    } else {
        assert(cur[prev.len() as int] == (k - 1) as usize);
    }
}

/// Every workspace dependency of the root is ranked: each direct link of the
/// root to a workspace member that is not dev-only gives a candidate for its
/// target.
pub proof fn lemma_top_heavy_ranks_every_workspace_dependency(
    g: WorkspaceGraph,
    root: usize,
    report: TopHeavyReport,
    l: int,
)
    requires
        top_heavy_report_holds(g, root, report),
        0 <= l < g.num_links(),
        g.link(l).from == root,
        !g.link(l).dev_only,
        g.in_workspace(g.link(l).to as int),
    ensures
        exists|i: int| 0 <= i < report.candidates@.len() && (#[trigger] report.candidates@[i]).target == g.link(l).to,
{
    let links = root_dependency_links(g, root, g.num_links());
    lemma_root_links_are_considered(g, root, g.num_links(), l);
    let j = choose|j: int| 0 <= j < links.len() && links[j] == l;
    let order = choose|order: Seq<int>|
        #![trigger is_stable_descending_order(marginal_keys(g, root), order)]
        is_stable_descending_order(marginal_keys(g, root), order) && forall|i: int|
            0 <= i < links.len() ==> candidate_holds(g, root, links[order[i]], #[trigger] report.candidates@[i]);
    lemma_stable_order_lists_every_position(marginal_keys(g, root), order, j);
    let i = choose|i: int| 0 <= i < order.len() && order[i] == j;
    assert(candidate_holds(g, root, links[order[i]], report.candidates@[i]));
}

} // verus!
