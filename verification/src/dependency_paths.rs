use vstd::prelude::*;

use crate::bool_count::{lemma_num_true_le_len, lemma_num_true_lt_len, lemma_num_true_set, num_true};
use crate::workspace_graph::WorkspaceGraph;

verus! {

/// The paths that the depth-first search started on `path` reports, in the
/// order it reports them: `path` itself when its last package is named
/// `target`; otherwise the reports of every extension of `path` by a
/// followable link out of its last package to a package not yet on `path`,
/// taken in link order.
pub open spec fn dfs_paths(g: WorkspaceGraph, target: Seq<char>, path: Seq<usize>) -> Seq<
    Seq<usize>,
>
    decreases g.num_packages() - path.len(), g.num_links() + 1,
{
    if path.len() == 0 {
        Seq::empty()
    } else if g.name_of(path.last() as int) == target {
        seq![path]
    } else {
        dfs_links(g, target, path, 0)
    }
}

/// The reports of the extensions of `path` through the links from index `j`
/// onward.
pub open spec fn dfs_links(g: WorkspaceGraph, target: Seq<char>, path: Seq<usize>, j: int) -> Seq<
    Seq<usize>,
>
    decreases g.num_packages() - path.len(), g.num_links() - j,
{
    if j < 0 || j >= g.num_links() || path.len() == 0 {
        Seq::empty()
    } else {
        let l = g.link(j);
        let rest = dfs_links(g, target, path, j + 1);
        if l.from == path.last() && g.followable(j) && !path.contains(l.to) && path.len()
            < g.num_packages() {
            dfs_paths(g, target, path.push(l.to)) + rest
        } else {
            rest
        }
    }
}

/// The views of a list of paths.
pub open spec fn paths_view(paths: Seq<Vec<usize>>) -> Seq<Seq<usize>> {
    paths.map_values(|p: Vec<usize>| p@)
}

/// A copy of a list of package indices.
fn copy_ids(ids: &Vec<usize>) -> (copy: Vec<usize>)
    ensures
        copy@ == ids@,
{
    let mut copy: Vec<usize> = Vec::new();
    let mut i: usize = 0;
    while i < ids.len()
        invariant
            i <= ids@.len(),
            copy@ == ids@.subrange(0, i as int),
        decreases ids@.len() - i,
    {
        copy.push(ids[i]);
        i += 1;
        assert(copy@ =~= ids@.subrange(0, i as int));
    }
    assert(copy@ =~= ids@);
    copy
}

/// The state the depth-first search keeps between calls: `path` is a
/// nonempty list of packages of the graph ending at `current`, and `visited`
/// marks exactly the packages on `path` before `current`.
pub open spec fn dfs_state(g: WorkspaceGraph, current: usize, path: Seq<usize>, visited: Seq<bool>) -> bool {
    &&& path.len() > 0
    &&& current == path.last()
    &&& forall|i: int| 0 <= i < path.len() ==> (#[trigger] path[i]) < g.num_packages()
    &&& visited.len() == g.num_packages()
    &&& forall|v: usize|
        v < g.num_packages() ==> (#[trigger] visited[v as int] <==> path.drop_last().contains(v))
    &&& !visited[current as int]
    &&& num_true(visited) + 1 == path.len()
}

/// How the search leaves `visited`: unchanged when `current` is the target,
/// else with `current` unmarked.
pub open spec fn visited_after(g: WorkspaceGraph, current: usize, target: Seq<char>, visited: Seq<bool>) -> Seq<
    bool,
> {
    if g.name_of(current as int) == target {
        visited
    } else {
        visited.update(current as int, false)
    }
}

/// The paths the depth-first search reports when it is called on `current`
/// with the path `path` and the marks `visited`, in the order it reports
/// them: nothing when `current` has no mark (it is not a package); `path`
/// itself when `current` is named `target`; otherwise, with
/// `current` marked, the reports of every followable link out of `current`
/// to an unmarked package, each extending `path` by that package, taken in
/// link order.
pub open spec fn search_paths(
    g: WorkspaceGraph,
    target: Seq<char>,
    current: usize,
    path: Seq<usize>,
    visited: Seq<bool>,
) -> Seq<Seq<usize>>
    decreases visited.len() - num_true(visited.update(current as int, true)), 1int, 0int,
{
    if current >= visited.len() {
        Seq::empty()
    } else if g.name_of(current as int) == target {
        seq![path]
    } else {
        search_links(g, target, current, path, visited.update(current as int, true), 0)
    }
}

/// The reports of the links from index `j` onward out of `current`, with the
/// marks `visited`.
pub open spec fn search_links(
    g: WorkspaceGraph,
    target: Seq<char>,
    current: usize,
    path: Seq<usize>,
    visited: Seq<bool>,
    j: int,
) -> Seq<Seq<usize>>
    decreases visited.len() - num_true(visited), 0int, g.num_links() - j,
{
    if j < 0 || j >= g.num_links() {
        Seq::empty()
    } else {
        let l = g.link(j);
        let rest = search_links(g, target, current, path, visited, j + 1);
        if l.from == current && g.followable(j) && l.to < visited.len() && !visited[l.to as int] {
            proof {
                lemma_num_true_set(visited, l.to as int);
                lemma_num_true_le_len(visited.update(l.to as int, true));
            }
            search_paths(g, target, l.to, path.push(l.to), visited) + rest
        } else {
            rest
        }
    }
}

/// In the search state, the search from `current` reports what `dfs_paths`
/// describes for the path.
pub proof fn lemma_search_is_dfs(
    g: WorkspaceGraph,
    target: Seq<char>,
    current: usize,
    path: Seq<usize>,
    visited: Seq<bool>,
)
    requires
        g.wf(),
        dfs_state(g, current, path, visited),
    ensures
        search_paths(g, target, current, path, visited) == dfs_paths(g, target, path),
    decreases visited.len() - num_true(visited.update(current as int, true)), 1int, 0int,
{
    if g.name_of(current as int) != target {
        let marked = visited.update(current as int, true);
        lemma_num_true_set(visited, current as int);
        assert forall|v: usize| v < g.num_packages() implies (#[trigger] marked[v as int] <==> path.contains(v)) by {
            if v == current {
                assert(path[path.len() - 1] == current);
            } else {
                if path.contains(v) {
                    let i = choose|i: int| 0 <= i < path.len() && path[i] == v;
                    assert(i != path.len() - 1);
                    assert(path.drop_last()[i] == v);
                }
                if path.drop_last().contains(v) {
                    let i = choose|i: int| 0 <= i < path.len() - 1 && path.drop_last()[i] == v;
                    assert(path[i] == v);
                }
            }
        }
        lemma_search_links_is_dfs_links(g, target, current, path, marked, 0);
    }
}

/// The link-by-link part of `lemma_search_is_dfs`, with `current` marked.
proof fn lemma_search_links_is_dfs_links(
    g: WorkspaceGraph,
    target: Seq<char>,
    current: usize,
    path: Seq<usize>,
    visited: Seq<bool>,
    j: int,
)
    requires
        g.wf(),
        path.len() > 0,
        current == path.last(),
        forall|i: int| 0 <= i < path.len() ==> (#[trigger] path[i]) < g.num_packages(),
        visited.len() == g.num_packages(),
        forall|v: usize| v < g.num_packages() ==> (#[trigger] visited[v as int] <==> path.contains(v)),
        num_true(visited) == path.len(),
        0 <= j,
    ensures
        search_links(g, target, current, path, visited, j) == dfs_links(g, target, path, j),
    decreases visited.len() - num_true(visited), 0int, g.num_links() - j,
{
    if j < g.num_links() {
        lemma_search_links_is_dfs_links(g, target, current, path, visited, j + 1);
        let l = g.link(j);
        if l.from == current && g.followable(j) && !visited[l.to as int] {
            let ext = path.push(l.to);
            lemma_num_true_lt_len(visited, l.to as int);
            lemma_num_true_set(visited, l.to as int);
            lemma_num_true_le_len(visited.update(l.to as int, true));
            assert(!path.contains(l.to));
            assert(ext.drop_last() =~= path);
            assert forall|i: int| 0 <= i < ext.len() implies (#[trigger] ext[i]) < g.num_packages() by {
                if i < path.len() {
                    assert(ext[i] == path[i]);
                }
            }
            assert(dfs_state(g, l.to, ext, visited));
            lemma_search_is_dfs(g, target, l.to, ext, visited);
        } else if l.from == current && g.followable(j) {
            assert(path.contains(l.to));
        }
    }
}

/// Marking an entry that is already marked changes nothing.
proof fn lemma_mark_marked(s: Seq<bool>, i: int)
    requires
        0 <= i < s.len(),
        s[i],
    ensures
        s.update(i, true) == s,
{
    assert(s.update(i, true) =~= s);
}

/// One step of the depth-first search; `budget` bounds the recursion depth.
fn dfs_visit(
    graph: &WorkspaceGraph,
    current: usize,
    target_name: &str,
    current_path: &mut Vec<usize>,
    all_paths: &mut Vec<Vec<usize>>,
    visited: &mut Vec<bool>,
    Ghost(budget): Ghost<int>,
)
    requires
        graph.wf(),
        current < graph.num_packages(),
        old(visited)@.len() == graph.num_packages(),
        budget == 2 * (graph.num_packages() - num_true(old(visited)@)) + (if old(visited)@[current as int] {
            1int
        } else {
            0int
        }),
    ensures
        final(current_path)@ == old(current_path)@,
        final(visited)@ == visited_after(*graph, current, target_name@, old(visited)@),
        paths_view(final(all_paths)@) == paths_view(old(all_paths)@) + search_paths(
            *graph,
            target_name@,
            current,
            old(current_path)@,
            old(visited)@,
        ),
    decreases budget,
{
    let ghost path = current_path@;
    let ghost start = paths_view(all_paths@);
    let ghost g = *graph;
    let ghost target = target_name@;
    let ghost visited0 = visited@;
    let target_string = target_name.to_string();
    if graph.packages[current].name == target_string {
        let found = copy_ids(current_path);
        all_paths.push(found);
        proof {
            assert(paths_view(all_paths@) =~= start + seq![path]);
        }
        return;
    }
    proof {
        lemma_num_true_le_len(visited@);
        if !visited@[current as int] {
            lemma_num_true_set(visited@, current as int);
        } else {
            lemma_mark_marked(visited@, current as int);
        }
    }
    visited.set(current, true);
    let ghost marked = visited@;
    proof {
        lemma_num_true_le_len(visited@);
        assert(paths_view(all_paths@) + search_links(g, target, current, path, marked, 0) =~= start
            + search_links(g, target, current, path, marked, 0));
    }
    let m = graph.links.len();
    let mut j: usize = 0;
    while j < m
        invariant
            g == *graph,
            graph.wf(),
            target == target_name@,
            m == graph.num_links(),
            j <= m,
            current < graph.num_packages(),
            g.name_of(current as int) != target,
            current_path@ == path,
            visited0.len() == graph.num_packages(),
            marked == visited0.update(current as int, true),
            visited@ == marked,
            num_true(marked) <= graph.num_packages(),
            budget == 2 * (graph.num_packages() - num_true(visited0)) + (if visited0[current as int] {
                1int
            } else {
                0int
            }),
            num_true(marked) == num_true(visited0) + (if visited0[current as int] {
                0int
            } else {
                1int
            }),
            paths_view(all_paths@) + search_links(g, target, current, path, marked, j as int) == start
                + search_links(g, target, current, path, marked, 0),
        decreases m - j,
    {
        proof {
            assert(g.link(j as int) == graph.links@[j as int]);
        }
        let to = graph.links[j].to;
        let follow = graph.links[j].from == current && graph.packages[to].in_workspace
            && !graph.links[j].dev_only;
        if follow && !visited[to] {
            let ghost before = paths_view(all_paths@);
            current_path.push(to);
            dfs_visit(
                graph,
                to,
                target_name,
                current_path,
                all_paths,
                visited,
                Ghost(2 * (graph.num_packages() - num_true(marked))),
            );
            current_path.pop();
            proof {
                assert(current_path@ =~= path);
                assert(visited@ =~= marked);
                assert(search_links(g, target, current, path, marked, j as int) == search_paths(
                    g,
                    target,
                    to,
                    path.push(to),
                    marked,
                ) + search_links(g, target, current, path, marked, j + 1));
                assert(paths_view(all_paths@) + search_links(g, target, current, path, marked, j + 1)
                    =~= before + search_links(g, target, current, path, marked, j as int));
            }
        } else {
            proof {
                assert(search_links(g, target, current, path, marked, j as int) == search_links(
                    g,
                    target,
                    current,
                    path,
                    marked,
                    j + 1,
                ));
            }
        }
        j += 1;
    }
    visited.set(current, false);
    proof {
        assert(visited@ =~= visited0.update(current as int, false));
        assert(paths_view(all_paths@) =~= start + search_links(g, target, current, path, marked, 0));
    }
}

/// Depth-first search for every simple path of workspace, non-dev links from
/// `current` to a package named `target_name`, as the searcher that keeps
/// `current_path` and the marks `visited` runs it (see `search_paths`): when
/// `current` is named `target_name`, `current_path` is reported; otherwise
/// `current` is marked and every followable link out of it to an unmarked
/// package is searched in turn, the path extended by that package. Reports
/// are appended to `all_paths`; `current_path` always, and `visited` whenever
/// `current` was not marked in it, are left as they were found. A `current`
/// that is not a package of the graph changes nothing. From the usual search
/// state (`dfs_state`) the reports are those that `dfs_paths` describes.
pub fn collect_dependency_paths(
    graph: &WorkspaceGraph,
    current: usize,
    target_name: &str,
    current_path: &mut Vec<usize>,
    all_paths: &mut Vec<Vec<usize>>,
    visited: &mut Vec<bool>,
)
    requires
        graph.wf(),
        old(visited)@.len() == graph.num_packages(),
    ensures
        final(current_path)@ == old(current_path)@,
        !old(visited)@[current as int] ==> final(visited)@ == old(visited)@,
        final(visited)@ == (if current < graph.num_packages() {
            visited_after(*graph, current, target_name@, old(visited)@)
        } else {
            old(visited)@
        }),
        paths_view(final(all_paths)@) == paths_view(old(all_paths)@) + search_paths(
            *graph,
            target_name@,
            current,
            old(current_path)@,
            old(visited)@,
        ),
        dfs_state(*graph, current, old(current_path)@, old(visited)@) ==> paths_view(final(all_paths)@)
            == paths_view(old(all_paths)@) + dfs_paths(*graph, target_name@, old(current_path)@),
{
    if current >= graph.packages.len() {
        assert(paths_view(all_paths@) =~= paths_view(all_paths@) + Seq::<Seq<usize>>::empty());
        return;
    }
    let ghost visited0 = visited@;
    let ghost path0 = current_path@;
    let ghost budget = 2 * (graph.num_packages() - num_true(visited@)) + (if visited@[current as int] {
        1int
    } else {
        0int
    });
    dfs_visit(graph, current, target_name, current_path, all_paths, visited, Ghost(budget));
    proof {
        if !visited0[current as int] {
            assert(visited0.update(current as int, false) =~= visited0);
        }
        if dfs_state(*graph, current, path0, visited0) {
            lemma_search_is_dfs(*graph, target_name@, current, path0, visited0);
        }
    }
}

/// Consecutive packages of `q` from position `from` on are joined by
/// followable links.
pub open spec fn followable_chain_from(g: WorkspaceGraph, q: Seq<usize>, from: int) -> bool {
    forall|i: int| from <= i < q.len() - 1 ==> #[trigger] followable_step(g, q, i)
}

/// Some followable link leads from `q[i]` to `q[i + 1]`.
pub open spec fn followable_step(g: WorkspaceGraph, q: Seq<usize>, i: int) -> bool {
    exists|l: int|
        0 <= l < g.num_links() && g.followable(l) && #[trigger] g.link(l).from == q[i] && g.link(l).to
            == q[i + 1]
}

/// What every reported path looks like: it extends `pre`, stays inside the
/// graph, ends at a package named `target`, continues `pre` through
/// followable links, never repeats a package, and meets no package named
/// `target` before its end (past `pre`).
pub open spec fn reported_path_shape(
    g: WorkspaceGraph,
    target: Seq<char>,
    pre: Seq<usize>,
    q: Seq<usize>,
) -> bool {
    &&& q.len() >= pre.len()
    &&& q.subrange(0, pre.len() as int) == pre
    &&& forall|i: int| 0 <= i < q.len() ==> (#[trigger] q[i]) < g.num_packages()
    &&& g.name_of(q.last() as int) == target
    &&& followable_chain_from(g, q, pre.len() - 1)
    &&& q.no_duplicates()
    &&& forall|i: int| pre.len() - 1 <= i < q.len() - 1 ==> g.name_of(#[trigger] q[i] as int) != target
}

/// Every path reported by the search from `pre` has the reported shape.
pub proof fn lemma_dfs_paths_shape(g: WorkspaceGraph, target: Seq<char>, pre: Seq<usize>)
    requires
        g.wf(),
        pre.len() > 0,
        forall|i: int| 0 <= i < pre.len() ==> (#[trigger] pre[i]) < g.num_packages(),
        pre.no_duplicates(),
    ensures
        forall|k: int|
            0 <= k < dfs_paths(g, target, pre).len() ==> reported_path_shape(
                g,
                target,
                pre,
                #[trigger] dfs_paths(g, target, pre)[k],
            ),
    decreases g.num_packages() - pre.len(), g.num_links() + 1,
{
    if g.name_of(pre.last() as int) == target {
        assert(dfs_paths(g, target, pre) == seq![pre]);
        assert(pre.subrange(0, pre.len() as int) =~= pre);
        assert(reported_path_shape(g, target, pre, pre));
        assert(dfs_paths(g, target, pre)[0] == pre);
    } else {
        lemma_dfs_links_shape(g, target, pre, 0);
        assert(dfs_paths(g, target, pre) == dfs_links(g, target, pre, 0));
    }
}

/// Every path reported by the extensions of `pre` through links from `j` on
/// has the reported shape.
pub proof fn lemma_dfs_links_shape(g: WorkspaceGraph, target: Seq<char>, pre: Seq<usize>, j: int)
    requires
        g.wf(),
        pre.len() > 0,
        forall|i: int| 0 <= i < pre.len() ==> (#[trigger] pre[i]) < g.num_packages(),
        pre.no_duplicates(),
        g.name_of(pre.last() as int) != target,
    ensures
        forall|k: int|
            0 <= k < dfs_links(g, target, pre, j).len() ==> reported_path_shape(
                g,
                target,
                pre,
                #[trigger] dfs_links(g, target, pre, j)[k],
            ),
    decreases g.num_packages() - pre.len(), g.num_links() - j,
{
    if j < 0 || j >= g.num_links() {
    } else {
        lemma_dfs_links_shape(g, target, pre, j + 1);
        let l = g.link(j);
        let rest = dfs_links(g, target, pre, j + 1);
        if l.from == pre.last() && g.followable(j) && !pre.contains(l.to) && pre.len() < g.num_packages() {
            let ext = pre.push(l.to);
            assert forall|i: int| 0 <= i < ext.len() implies (#[trigger] ext[i]) < g.num_packages() by {
                if i < pre.len() {
                    assert(ext[i] == pre[i]);
                }
            }
            assert(ext.no_duplicates()) by {
                assert forall|a: int, b: int| 0 <= a < ext.len() && 0 <= b < ext.len() && a != b implies ext[a] != ext[b] by {
                    if a < pre.len() && b < pre.len() {
                        assert(ext[a] == pre[a] && ext[b] == pre[b]);
                    } else if a < pre.len() {
                        assert(ext[a] == pre[a]);
                    } else if b < pre.len() {
                        assert(ext[b] == pre[b]);
                    }
                }
            }
            lemma_dfs_paths_shape(g, target, ext);
            let head = dfs_paths(g, target, ext);
            assert(dfs_links(g, target, pre, j) == head + rest);
            assert forall|k: int| 0 <= k < (head + rest).len() implies reported_path_shape(
                g,
                target,
                pre,
                #[trigger] (head + rest)[k],
            ) by {
                if k < head.len() {
                    let q = head[k];
                    assert((head + rest)[k] == q);
                    assert(reported_path_shape(g, target, ext, q));
                    assert(q.subrange(0, ext.len() as int) == ext);
                    assert(q.subrange(0, pre.len() as int) =~= ext.subrange(0, pre.len() as int));
                    assert(ext.subrange(0, pre.len() as int) =~= pre);
                    assert forall|i: int| pre.len() - 1 <= i < q.len() - 1 implies #[trigger] followable_step(g, q, i) by {
                        if i == pre.len() - 1 {
                            assert(q[i] == ext[i]);
                            assert(q[i + 1] == ext[i + 1]);
                            assert(g.link(j).from == q[i]);
                        } else {
                            assert(followable_chain_from(g, q, ext.len() - 1));
                        }
                    }
                    assert forall|i: int| pre.len() - 1 <= i < q.len() - 1 implies g.name_of(#[trigger] q[i] as int) != target by {
                        if i == pre.len() - 1 {
                            assert(q[i] == ext[i]);
                            assert(ext[i] == pre.last());
                        }
                    }
                } else {
                    assert((head + rest)[k] == rest[k - head.len()]);
                }
            }
        }
    }
}


/// No two links join the same pair of packages (a package graph records one
/// link per dependency).
pub open spec fn no_parallel_links(g: WorkspaceGraph) -> bool {
    forall|a: int, b: int|
        #![trigger g.link(a), g.link(b)]
        0 <= a < g.num_links() && 0 <= b < g.num_links() && a != b ==> !(g.link(a).from == g.link(
            b,
        ).from && g.link(a).to == g.link(b).to)
}

/// A repetition-free list of package indices below `n` has at most `n` entries.
pub proof fn lemma_distinct_ids_fit(s: Seq<usize>, n: int)
    requires
        0 <= n,
        s.no_duplicates(),
        forall|i: int| 0 <= i < s.len() ==> (#[trigger] s[i]) < n,
    ensures
        s.len() <= n,
{
    let t = s.map_values(|v: usize| v as int);
    assert(t.no_duplicates()) by {
        assert forall|a: int, b: int| 0 <= a < t.len() && 0 <= b < t.len() && a != b implies t[a] != t[b] by {
            assert(s[a] != s[b]);
        }
    }
    t.unique_seq_to_set();
    vstd::set_lib::lemma_int_range(0, n);
    assert(t.to_set().subset_of(vstd::set_lib::set_int_range(0, n))) by {
        assert forall|x: int| t.to_set().contains(x) implies vstd::set_lib::set_int_range(0, n).contains(x) by {
            let i = choose|i: int| 0 <= i < t.len() && t[i] == x;
            assert(s[i] < n);
        }
    }
    vstd::set_lib::lemma_len_subset(t.to_set(), vstd::set_lib::set_int_range(0, n));
}

/// The extension of `pre` by `x` keeps the reported shape of `q` when `q`
/// continues with `x`.
proof fn lemma_shape_step(g: WorkspaceGraph, target: Seq<char>, pre: Seq<usize>, q: Seq<usize>)
    requires
        pre.len() > 0,
        reported_path_shape(g, target, pre, q),
        q.len() > pre.len(),
    ensures
        reported_path_shape(g, target, pre.push(q[pre.len() as int]), q),
{
    let ext = pre.push(q[pre.len() as int]);
    assert(q.subrange(0, ext.len() as int) =~= ext) by {
        assert forall|i: int| 0 <= i < ext.len() implies q.subrange(0, ext.len() as int)[i] == ext[i] by {
            if i < pre.len() {
                assert(q.subrange(0, pre.len() as int)[i] == pre[i]);
            }
        }
    }
}

/// Every path with the reported shape is reported by the search from `pre`.
pub proof fn lemma_dfs_paths_complete(
    g: WorkspaceGraph,
    target: Seq<char>,
    pre: Seq<usize>,
    q: Seq<usize>,
)
    requires
        g.wf(),
        pre.len() > 0,
        reported_path_shape(g, target, pre, q),
    ensures
        dfs_paths(g, target, pre).contains(q),
    decreases g.num_packages() - pre.len(),
{
    assert(q.subrange(0, pre.len() as int) == pre);
    assert forall|i: int| 0 <= i < pre.len() implies pre[i] == q[i] by {
        assert(q.subrange(0, pre.len() as int)[i] == q[i]);
    }
    if g.name_of(pre.last() as int) == target {
        if q.len() > pre.len() {
            assert(g.name_of(q[pre.len() - 1] as int) != target);
            assert(q[pre.len() - 1] == pre[pre.len() - 1]);
        }
        assert(q =~= pre);
        assert(dfs_paths(g, target, pre) == seq![pre]);
        assert(dfs_paths(g, target, pre)[0] == q);
    } else {
        if q.len() == pre.len() {
            assert(q =~= pre);
        }
        assert(q.len() > pre.len());
        let x = q[pre.len() as int];
        assert(followable_step(g, q, pre.len() - 1));
        let l = choose|l: int|
            0 <= l < g.num_links() && g.followable(l) && #[trigger] g.link(l).from == q[pre.len() - 1]
                && g.link(l).to == q[pre.len() - 1 + 1];
        assert(!pre.contains(x)) by {
            if pre.contains(x) {
                let i = choose|i: int| 0 <= i < pre.len() && pre[i] == x;
                assert(q[i] == x);
            }
        }
        let ext = pre.push(x);
        lemma_shape_step(g, target, pre, q);
        assert(ext.no_duplicates()) by {
            assert forall|a: int, b: int| 0 <= a < ext.len() && 0 <= b < ext.len() && a != b implies ext[a] != ext[b] by {
                assert(ext[a] == q[a] && ext[b] == q[b]);
            }
        }
        assert forall|i: int| 0 <= i < ext.len() implies (#[trigger] ext[i]) < g.num_packages() by {
            assert(ext[i] == q[i]);
        }
        lemma_distinct_ids_fit(ext, g.num_packages());
        lemma_dfs_paths_complete(g, target, ext, q);
        lemma_dfs_links_include(g, target, pre, 0, l, q);
        assert(dfs_paths(g, target, pre) == dfs_links(g, target, pre, 0));
    }
}

/// The reports of an eligible extension through link `l` appear among the
/// reports of the links from `j` on, for `j <= l`.
proof fn lemma_dfs_links_include(
    g: WorkspaceGraph,
    target: Seq<char>,
    pre: Seq<usize>,
    j: int,
    l: int,
    q: Seq<usize>,
)
    requires
        0 <= j <= l < g.num_links(),
        pre.len() > 0,
        g.link(l).from == pre.last(),
        g.followable(l),
        !pre.contains(g.link(l).to),
        pre.len() < g.num_packages(),
        dfs_paths(g, target, pre.push(g.link(l).to)).contains(q),
    ensures
        dfs_links(g, target, pre, j).contains(q),
    decreases l - j,
{
    let rest = dfs_links(g, target, pre, j + 1);
    if j == l {
        let head = dfs_paths(g, target, pre.push(g.link(l).to));
        assert(dfs_links(g, target, pre, j) == head + rest);
        let i = choose|i: int| 0 <= i < head.len() && head[i] == q;
        assert((head + rest)[i] == q);
    } else {
        lemma_dfs_links_include(g, target, pre, j + 1, l, q);
        let i = choose|i: int| 0 <= i < rest.len() && rest[i] == q;
        let lj = g.link(j);
        if lj.from == pre.last() && g.followable(j) && !pre.contains(lj.to) && pre.len() < g.num_packages() {
            let head = dfs_paths(g, target, pre.push(lj.to));
            assert(dfs_links(g, target, pre, j) == head + rest);
            assert((head + rest)[head.len() + i] == q);
        } else {
            assert(dfs_links(g, target, pre, j) == rest);
        }
    }
}

/// A path that continues `pre` through some link from index `j` on.
pub open spec fn leaves_through_link_from(g: WorkspaceGraph, pre: Seq<usize>, j: int, q: Seq<usize>) -> bool {
    &&& q.len() > pre.len()
    &&& exists|l: int|
        j <= l < g.num_links() && #[trigger] g.link(l).from == pre.last() && g.link(l).to == q[pre.len() as int]
}

/// The search from `pre` reports no path twice.
pub proof fn lemma_dfs_paths_no_duplicates(g: WorkspaceGraph, target: Seq<char>, pre: Seq<usize>)
    requires
        g.wf(),
        no_parallel_links(g),
        pre.len() > 0,
        forall|i: int| 0 <= i < pre.len() ==> (#[trigger] pre[i]) < g.num_packages(),
        pre.no_duplicates(),
    ensures
        dfs_paths(g, target, pre).no_duplicates(),
    decreases g.num_packages() - pre.len(), g.num_links() + 1,
{
    if g.name_of(pre.last() as int) == target {
        assert(dfs_paths(g, target, pre) == seq![pre]);
    } else {
        lemma_dfs_links_no_duplicates(g, target, pre, 0);
        assert(dfs_paths(g, target, pre) == dfs_links(g, target, pre, 0));
    }
}

/// The extensions of `pre` through links from `j` on report no path twice,
/// and every one of their paths leaves `pre` through such a link.
proof fn lemma_dfs_links_no_duplicates(g: WorkspaceGraph, target: Seq<char>, pre: Seq<usize>, j: int)
    requires
        g.wf(),
        no_parallel_links(g),
        pre.len() > 0,
        forall|i: int| 0 <= i < pre.len() ==> (#[trigger] pre[i]) < g.num_packages(),
        pre.no_duplicates(),
        g.name_of(pre.last() as int) != target,
        0 <= j,
    ensures
        dfs_links(g, target, pre, j).no_duplicates(),
        forall|k: int|
            0 <= k < dfs_links(g, target, pre, j).len() ==> leaves_through_link_from(
                g,
                pre,
                j,
                #[trigger] dfs_links(g, target, pre, j)[k],
            ),
    decreases g.num_packages() - pre.len(), g.num_links() - j,
{
    if j >= g.num_links() {
    } else {
        lemma_dfs_links_no_duplicates(g, target, pre, j + 1);
        let rest = dfs_links(g, target, pre, j + 1);
        let lj = g.link(j);
        if lj.from == pre.last() && g.followable(j) && !pre.contains(lj.to) && pre.len() < g.num_packages() {
            let ext = pre.push(lj.to);
            assert(ext.no_duplicates()) by {
                assert forall|a: int, b: int| 0 <= a < ext.len() && 0 <= b < ext.len() && a != b implies ext[a] != ext[b] by {
                    if a < pre.len() && b < pre.len() {
                        assert(ext[a] == pre[a] && ext[b] == pre[b]);
                    } else if a < pre.len() {
                        assert(ext[a] == pre[a]);
                    } else if b < pre.len() {
                        assert(ext[b] == pre[b]);
                    }
                }
            }
            assert forall|i: int| 0 <= i < ext.len() implies (#[trigger] ext[i]) < g.num_packages() by {
                if i < pre.len() {
                    assert(ext[i] == pre[i]);
                }
            }
            lemma_dfs_paths_no_duplicates(g, target, ext);
            lemma_dfs_paths_shape(g, target, ext);
            let head = dfs_paths(g, target, ext);
            assert(dfs_links(g, target, pre, j) == head + rest);
            assert forall|a: int| 0 <= a < head.len() implies (#[trigger] head[a])[pre.len() as int] == lj.to by {
                assert(reported_path_shape(g, target, ext, head[a]));
                assert(head[a].subrange(0, ext.len() as int)[pre.len() as int] == ext[pre.len() as int]);
            }
            assert forall|a: int, b: int| 0 <= a < head.len() && 0 <= b < rest.len() implies head[a] != rest[b] by {
                assert(leaves_through_link_from(g, pre, j + 1, rest[b]));
                let l2 = choose|l2: int|
                    j + 1 <= l2 < g.num_links() && #[trigger] g.link(l2).from == pre.last() && g.link(l2).to
                        == rest[b][pre.len() as int];
                assert(!(g.link(j).from == g.link(l2).from && g.link(j).to == g.link(l2).to));
                assert(head[a][pre.len() as int] == lj.to);
            }
            vstd::seq_lib::lemma_no_dup_in_concat(head, rest);
            assert forall|k: int| 0 <= k < (head + rest).len() implies leaves_through_link_from(
                g,
                pre,
                j,
                #[trigger] (head + rest)[k],
            ) by {
                if k < head.len() {
                    assert((head + rest)[k] == head[k]);
                    assert(head[k][pre.len() as int] == lj.to);
                    assert(reported_path_shape(g, target, ext, head[k]));
                    assert(g.link(j).from == pre.last());
                } else {
                    assert((head + rest)[k] == rest[k - head.len()]);
                    assert(leaves_through_link_from(g, pre, j + 1, rest[k - head.len()]));
                    let l2 = choose|l2: int|
                        j + 1 <= l2 < g.num_links() && #[trigger] g.link(l2).from == pre.last() && g.link(l2).to
                            == rest[k - head.len()][pre.len() as int];
                    assert(g.link(l2).from == pre.last());
                }
            }
        } else {
            assert(dfs_links(g, target, pre, j) == rest);
            assert forall|k: int| 0 <= k < rest.len() implies leaves_through_link_from(
                g,
                pre,
                j,
                #[trigger] rest[k],
            ) by {
                assert(leaves_through_link_from(g, pre, j + 1, rest[k]));
                let l2 = choose|l2: int|
                    j + 1 <= l2 < g.num_links() && #[trigger] g.link(l2).from == pre.last() && g.link(l2).to
                        == rest[k][pre.len() as int];
                assert(g.link(l2).from == pre.last());
            }
        }
    }
}

/// The dependency search reports exactly the simple paths from `root` to a
/// package named `target`: every reported path has the reported shape, every
/// path of that shape is reported, and none is reported twice.
pub proof fn lemma_dependency_paths_enumerate(g: WorkspaceGraph, target: Seq<char>, root: usize, q: Seq<usize>)
    requires
        g.wf(),
        no_parallel_links(g),
        root < g.num_packages(),
    ensures
        dfs_paths(g, target, seq![root]).contains(q) <==> reported_path_shape(g, target, seq![root], q),
        dfs_paths(g, target, seq![root]).no_duplicates(),
{
    let pre = seq![root];
    assert(pre.no_duplicates());
    lemma_dfs_paths_shape(g, target, pre);
    if dfs_paths(g, target, pre).contains(q) {
        let k = choose|k: int| 0 <= k < dfs_paths(g, target, pre).len() && dfs_paths(g, target, pre)[k] == q;
    }
    if reported_path_shape(g, target, pre, q) {
        lemma_dfs_paths_complete(g, target, pre, q);
    }
    lemma_dfs_paths_no_duplicates(g, target, pre);
}

} // verus!
