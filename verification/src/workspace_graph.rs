use vstd::prelude::*;

use crate::bool_count::{
    lemma_num_true_all_false, lemma_num_true_le_len, lemma_num_true_lt_len, lemma_num_true_set,
    num_true,
};

verus! {

/// A package of the dependency graph.
#[derive(Debug)]
pub struct PackageNode {
    /// Package name.
    pub name: String,
    /// Whether the package is a member of the workspace.
    pub in_workspace: bool,
}

/// A direct dependency edge `from -> to`, as declared by the `from` package.
#[derive(Debug)]
pub struct DependencyLink {
    /// Index of the depending package.
    pub from: usize,
    /// Index of the dependency.
    pub to: usize,
    /// The dependency is only a dev-dependency.
    pub dev_only: bool,
    /// The normal (non-dev, non-build) dependency status is "never".
    pub normal_never: bool,
    /// The normal dependency is optional on some platform.
    pub normal_optional: bool,
    /// Default features of the normal dependency are never enabled.
    pub default_features_never: bool,
    /// Features requested on the normal dependency.
    pub features: Vec<String>,
}

/// A package graph: packages indexed from 0, and every package's direct links
/// listed in declaration order (the links of one package keep their relative
/// order inside `links`).
#[derive(Debug)]
pub struct WorkspaceGraph {
    pub packages: Vec<PackageNode>,
    pub links: Vec<DependencyLink>,
}

impl WorkspaceGraph {
    pub open spec fn num_packages(&self) -> int {
        self.packages.len() as int
    }

    pub open spec fn num_links(&self) -> int {
        self.links.len() as int
    }

    pub open spec fn link(&self, l: int) -> DependencyLink {
        self.links@[l]
    }

    pub open spec fn package(&self, v: int) -> PackageNode {
        self.packages@[v]
    }

    pub open spec fn name_of(&self, v: int) -> Seq<char> {
        self.packages@[v].name@
    }

    pub open spec fn in_workspace(&self, v: int) -> bool {
        self.packages@[v].in_workspace
    }

    /// Every link joins two packages of the graph, and workspace members have
    /// distinct names.
    pub open spec fn wf(&self) -> bool {
        &&& forall|l: int|
            0 <= l < self.num_links() ==> (#[trigger] self.link(l)).from < self.num_packages()
                && self.link(l).to < self.num_packages()
        &&& forall|a: int, b: int|
            0 <= a < self.num_packages() && 0 <= b < self.num_packages() && a != b
                && self.in_workspace(a) && self.in_workspace(b) ==> #[trigger] self.name_of(a)
                != #[trigger] self.name_of(b)
    }

    /// A link that the workspace traversal follows: it leads to a workspace
    /// member and is not dev-only.
    pub open spec fn followable(&self, l: int) -> bool {
        self.in_workspace(self.link(l).to as int) && !self.link(l).dev_only
    }

    /// A followable link whose `(from, to)` pair has not been cut.
    pub open spec fn accepted(&self, excluded: Seq<(usize, usize)>, l: int) -> bool {
        &&& 0 <= l < self.num_links()
        &&& self.followable(l)
        &&& !excluded.contains((self.link(l).from, self.link(l).to))
    }

    /// `ls` is a chain of accepted links starting at `root`.
    pub open spec fn is_walk(&self, excluded: Seq<(usize, usize)>, root: int, ls: Seq<int>) -> bool {
        &&& forall|i: int| 0 <= i < ls.len() ==> self.accepted(excluded, #[trigger] ls[i])
        &&& ls.len() > 0 ==> self.link(ls[0]).from == root
        &&& forall|i: int|
            0 <= i < ls.len() - 1 ==> #[trigger] self.link(ls[i + 1]).from == self.link(ls[i]).to
    }

    /// Where a walk from `root` ends.
    pub open spec fn walk_end(&self, root: int, ls: Seq<int>) -> int {
        if ls.len() == 0 {
            root
        } else {
            self.link(ls.last()).to as int
        }
    }

    /// `v` can be reached from `root` through accepted links.
    pub open spec fn reachable(&self, excluded: Seq<(usize, usize)>, root: int, v: int) -> bool {
        exists|ls: Seq<int>| #[trigger]
            self.is_walk(excluded, root, ls) && self.walk_end(root, ls) == v
    }

    /// `v` belongs to the workspace closure of `root` once the `excluded`
    /// links are cut: a workspace member reachable from `root`.
    pub open spec fn in_closure(&self, excluded: Seq<(usize, usize)>, root: int, v: int) -> bool {
        &&& 0 <= v < self.num_packages()
        &&& self.in_workspace(v)
        &&& self.reachable(excluded, root, v)
    }
}

/// Membership flags of a set of packages: entry `v` tells whether package
/// `v` belongs to the set.
pub open spec fn flags_of(n: int, member: spec_fn(int) -> bool) -> Seq<bool> {
    Seq::new(n as nat, |v: int| member(v))
}

/// Extending a walk by one accepted link out of its end.
pub proof fn lemma_walk_push(
    g: &WorkspaceGraph,
    excluded: Seq<(usize, usize)>,
    root: int,
    ls: Seq<int>,
    l: int,
)
    requires
        g.is_walk(excluded, root, ls),
        g.accepted(excluded, l),
        g.link(l).from == g.walk_end(root, ls),
    ensures
        g.is_walk(excluded, root, ls.push(l)),
        g.walk_end(root, ls.push(l)) == g.link(l).to,
{
    let ls2 = ls.push(l);
    assert forall|i: int| 0 <= i < ls2.len() implies g.accepted(excluded, #[trigger] ls2[i]) by {
        if i < ls.len() {
            assert(ls2[i] == ls[i]);
        }
    }
    assert forall|i: int| 0 <= i < ls2.len() - 1 implies #[trigger] g.link(ls2[i + 1]).from
        == g.link(ls2[i]).to by {
        if i + 1 < ls.len() {
            assert(ls2[i + 1] == ls[i + 1]);
            assert(ls2[i] == ls[i]);
        } else {
            assert(ls2[i + 1] == l);
            assert(ls2[i] == ls.last());
        }
    }
}

/// A flag set that holds `root` and is closed under accepted links holds the
/// end of every walk from `root`.
pub proof fn lemma_closed_holds_walk_ends(
    g: &WorkspaceGraph,
    excluded: Seq<(usize, usize)>,
    root: int,
    marks: Seq<bool>,
    ls: Seq<int>,
)
    requires
        g.wf(),
        marks.len() == g.num_packages(),
        0 <= root < g.num_packages(),
        marks[root],
        forall|l: int|
            #![trigger g.link(l)]
            g.accepted(excluded, l) && marks[g.link(l).from as int] ==> marks[g.link(l).to as int],
        g.is_walk(excluded, root, ls),
    ensures
        marks[g.walk_end(root, ls)],
    decreases ls.len(),
{
    if ls.len() > 0 {
        let prefix = ls.drop_last();
        assert(g.is_walk(excluded, root, prefix)) by {
            assert forall|i: int| 0 <= i < prefix.len() implies g.accepted(
                excluded,
                #[trigger] prefix[i],
            ) by {
                assert(prefix[i] == ls[i]);
            }
            assert forall|i: int| 0 <= i < prefix.len() - 1 implies #[trigger] g.link(
                prefix[i + 1],
            ).from == g.link(prefix[i]).to by {
                assert(prefix[i + 1] == ls[i + 1]);
                assert(prefix[i] == ls[i]);
            }
        }
        lemma_closed_holds_walk_ends(g, excluded, root, marks, prefix);
        let l = ls.last();
        assert(g.accepted(excluded, ls[ls.len() - 1]));
        if ls.len() == 1 {
            assert(g.link(l).from == root);
        } else {
            assert(g.link(ls[ls.len() - 2 + 1]).from == g.link(ls[ls.len() - 2]).to);
            assert(g.walk_end(root, prefix) == g.link(ls[ls.len() - 2]).to);
        }
        assert(marks[g.link(l).from as int]);
    }
}

/// Whether the pair `(from, to)` occurs in `excluded`.
pub fn contains_link_pair(excluded: &[(usize, usize)], from: usize, to: usize) -> (found: bool)
    ensures
        found == excluded@.contains((from, to)),
{
    let mut i: usize = 0;
    while i < excluded.len()
        invariant
            i <= excluded@.len(),
            forall|k: int| 0 <= k < i ==> excluded@[k] != (from, to),
        decreases excluded@.len() - i,
    {
        let pair = excluded[i];
        if pair.0 == from && pair.1 == to {
            assert(excluded@[i as int] == (from, to));
            return true;
        }
        i += 1;
    }
    false
}

/// Whether link `l` is followed by the traversal (leads into the workspace and
/// is not dev-only) and has not been cut.
fn link_accepted(graph: &WorkspaceGraph, excluded: &[(usize, usize)], l: usize) -> (ok: bool)
    requires
        graph.wf(),
        l < graph.num_links(),
    ensures
        ok == graph.accepted(excluded@, l as int),
{
    let link = &graph.links[l];
    assert(graph.link(l as int) == *link);
    graph.packages[link.to].in_workspace && !link.dev_only && !contains_link_pair(
        excluded,
        link.from,
        link.to,
    )
}

/// The workspace members reachable from `root` through non-dev links between
/// workspace members, with the `excluded_links` pairs cut, as membership flags.
pub(crate) fn workspace_closure(
    graph: &WorkspaceGraph,
    root: usize,
    excluded_links: &[(usize, usize)],
) -> (closure: Vec<bool>)
    requires
        graph.wf(),
        root < graph.num_packages(),
    ensures
        closure@ == flags_of(
            graph.num_packages(),
            |v: int| graph.in_closure(excluded_links@, root as int, v),
        ),
{
    let ghost excl = excluded_links@;
    let n = graph.packages.len();
    let m = graph.links.len();
    let mut visited: Vec<bool> = Vec::new();
    let mut k: usize = 0;
    while k < n
        invariant
            k <= n,
            visited@.len() == k,
            forall|i: int| 0 <= i < k ==> !visited@[i],
        decreases n - k,
    {
        visited.push(false);
        k += 1;
    }
    proof {
        lemma_num_true_all_false(visited@);
        lemma_num_true_set(visited@, root as int);
        let ls0 = Seq::<int>::empty();
        assert(graph.is_walk(excl, root as int, ls0));
        assert(graph.walk_end(root as int, ls0) == root as int);
    }
    visited.set(root, true);
    let mut count: usize = 1;
    let mut stack: Vec<usize> = Vec::new();
    stack.push(root);
    proof {
        lemma_num_true_le_len(visited@);
        assert forall|l: int|
            #![trigger graph.link(l)]
            graph.accepted(excl, l) && visited@[graph.link(l).from as int] && !stack@.contains(
                graph.link(l).from,
            ) implies visited@[graph.link(l).to as int] by {
            assert(graph.link(l).from == root);
            assert(stack@[0] == root);
        }
    }
    while stack.len() > 0
        invariant
            n == graph.num_packages(),
            m == graph.num_links(),
            graph.wf(),
            root < n,
            excl == excluded_links@,
            visited@.len() == n,
            count == num_true(visited@),
            count <= n,
            visited@[root as int],
            forall|i: int| 0 <= i < stack@.len() ==> (#[trigger] stack@[i]) < n && visited@[stack@[i] as int],
            forall|i: int, j: int| 0 <= i < j < stack@.len() ==> stack@[i] != stack@[j],
            forall|v: int| 0 <= v < n && #[trigger] visited@[v] ==> graph.reachable(excl, root as int, v),
            forall|l: int|
                #![trigger graph.link(l)]
                graph.accepted(excl, l) && visited@[graph.link(l).from as int] && !stack@.contains(
                    graph.link(l).from,
                ) ==> visited@[graph.link(l).to as int],
        decreases 2 * (n - count) + stack@.len(),
    {
        let ghost stack_before = stack@;
        let u = stack.pop().unwrap();
        assert(stack_before == stack@.push(u));
        assert(!stack@.contains(u)) by {
            if stack@.contains(u) {
                let i = choose|i: int| 0 <= i < stack@.len() && stack@[i] == u;
                assert(stack_before[i] == stack_before[stack_before.len() - 1]);
            }
        }
        let ghost count_at_pop = count;
        let ghost len_at_pop = stack@.len();
        let mut j: usize = 0;
        while j < m
            invariant
                n == graph.num_packages(),
                m == graph.num_links(),
                graph.wf(),
                root < n,
                u < n,
                excl == excluded_links@,
                j <= m,
                visited@.len() == n,
                count == num_true(visited@),
                count <= n,
                count_at_pop <= count,
                stack@.len() == len_at_pop + (count - count_at_pop),
                visited@[root as int],
                visited@[u as int],
                !stack@.contains(u),
                forall|i: int| 0 <= i < stack@.len() ==> (#[trigger] stack@[i]) < n && visited@[stack@[i] as int],
                forall|i: int, j2: int| 0 <= i < j2 < stack@.len() ==> stack@[i] != stack@[j2],
                forall|v: int| 0 <= v < n && #[trigger] visited@[v] ==> graph.reachable(excl, root as int, v),
                forall|l: int|
                    #![trigger graph.link(l)]
                    graph.accepted(excl, l) && visited@[graph.link(l).from as int]
                        && graph.link(l).from != u && !stack@.contains(graph.link(l).from)
                        ==> visited@[graph.link(l).to as int],
                forall|l: int|
                    #![trigger graph.link(l)]
                    0 <= l < j && graph.accepted(excl, l) && graph.link(l).from == u
                        ==> visited@[graph.link(l).to as int],
            decreases m - j,
        {
            let from = graph.links[j].from;
            let to = graph.links[j].to;
            assert(graph.link(j as int).from == from && graph.link(j as int).to == to);
            if from == u && link_accepted(graph, excluded_links, j) && !visited[to] {
                let ghost visited_before = visited@;
                let ghost stack_before_push = stack@;
                proof {
                    let w = choose|ls: Seq<int>| #[trigger]
                        graph.is_walk(excl, root as int, ls) && graph.walk_end(root as int, ls)
                            == u as int;
                    lemma_walk_push(graph, excl, root as int, w, j as int);
                    lemma_num_true_lt_len(visited@, to as int);
                    lemma_num_true_set(visited@, to as int);
                }
                visited.set(to, true);
                count += 1;
                stack.push(to);
                proof {
                    assert(stack@[stack@.len() - 1] == to);
                    assert forall|l: int|
                        #![trigger graph.link(l)]
                        graph.accepted(excl, l) && visited@[graph.link(l).from as int]
                            && graph.link(l).from != u && !stack@.contains(graph.link(l).from)
                            implies visited@[graph.link(l).to as int] by {
                        let f = graph.link(l).from;
                        assert(f != to);
                        assert(visited_before[f as int]);
                        if stack_before_push.contains(f) {
                            let i = choose|i: int| 0 <= i < stack_before_push.len() && stack_before_push[i] == f;
                            assert(stack@[i] == f);
                        }
                    }
                    assert forall|i: int, j2: int| 0 <= i < j2 < stack@.len() implies stack@[i]
                        != stack@[j2] by {
                        if j2 == stack@.len() - 1 {
                            assert(stack@[j2] == to);
                            assert(visited@[stack@[i] as int]);
                        }
                    }
                }
            }
            j += 1;
        }
    }
    proof {
        assert forall|l: int|
            #![trigger graph.link(l)]
            graph.accepted(excl, l) && visited@[graph.link(l).from as int] implies visited@[graph.link(
            l,
        ).to as int] by {
            assert(!stack@.contains(graph.link(l).from));
        }
    }
    let mut closure: Vec<bool> = Vec::new();
    let mut v: usize = 0;
    while v < n
        invariant
            n == graph.num_packages(),
            graph.wf(),
            root < n,
            v <= n,
            excl == excluded_links@,
            visited@.len() == n,
            visited@[root as int],
            forall|x: int| 0 <= x < n && #[trigger] visited@[x] ==> graph.reachable(excl, root as int, x),
            forall|l: int|
                #![trigger graph.link(l)]
                graph.accepted(excl, l) && visited@[graph.link(l).from as int]
                    ==> visited@[graph.link(l).to as int],
            closure@.len() == v,
            forall|x: int| 0 <= x < v ==> (#[trigger] closure@[x] <==> graph.in_closure(excl, root as int, x)),
        decreases n - v,
    {
        proof {
            if graph.in_closure(excl, root as int, v as int) {
                let w = choose|ls: Seq<int>| #[trigger]
                    graph.is_walk(excl, root as int, ls) && graph.walk_end(root as int, ls)
                        == v as int;
                lemma_closed_holds_walk_ends(graph, excl, root as int, visited@, w);
            }
        }
        closure.push(visited[v] && graph.packages[v].in_workspace);
        v += 1;
    }
    assert(closure@ =~= flags_of(graph.num_packages(), |v: int| graph.in_closure(excl, root as int, v)));
    closure
}

/// The workspace members reachable from `pkg` through non-dev links between
/// workspace members, with nothing cut.
pub(crate) fn raw_closure(graph: &WorkspaceGraph, pkg: usize) -> (closure: Vec<bool>)
    requires
        graph.wf(),
        pkg < graph.num_packages(),
    ensures
        closure@ == flags_of(
            graph.num_packages(),
            |v: int| graph.in_closure(Seq::<(usize, usize)>::empty(), pkg as int, v),
        ),
{
    let none: Vec<(usize, usize)> = Vec::new();
    let closure = workspace_closure(graph, pkg, none.as_slice());
    assert(none@ =~= Seq::<(usize, usize)>::empty());
    closure
}

/// Why a closure could not be computed.
#[derive(Debug, Clone, Copy, PartialEq, Eq)]
pub enum ClosureError {
    /// The root of a workspace closure is not a package of the graph.
    UnknownRoot,
    /// The package of a raw closure is not a package of the graph.
    UnknownPackage,
}

impl ClosureError {
    /// Human-readable message of the error.
    pub fn message(&self) -> (text: String)
        ensures
            text@ == (match *self {
                ClosureError::UnknownRoot => "querying root package"@,
                ClosureError::UnknownPackage => "querying package"@,
            }),
    {
        match self {
            ClosureError::UnknownRoot => {
                proof {
                    reveal_strlit("querying root package");
                }
                "querying root package".to_string()
            },
            ClosureError::UnknownPackage => {
                proof {
                    reveal_strlit("querying package");
                }
                "querying package".to_string()
            },
        }
    }
}

/// The workspace closure of `root` with `excluded` cut, or the refusal of a
/// root that is not a package of the graph.
pub open spec fn workspace_closure_result(
    g: WorkspaceGraph,
    root: int,
    excluded: Seq<(usize, usize)>,
) -> Result<Seq<bool>, ClosureError> {
    if 0 <= root < g.num_packages() {
        Ok(flags_of(g.num_packages(), |v: int| g.in_closure(excluded, root, v)))
    } else {
        Err(ClosureError::UnknownRoot)
    }
}

/// The raw closure of `pkg`, or the refusal of a package that is not in the
/// graph.
pub open spec fn raw_closure_result(g: WorkspaceGraph, pkg: int) -> Result<Seq<bool>, ClosureError> {
    if 0 <= pkg < g.num_packages() {
        Ok(flags_of(g.num_packages(), |v: int| g.in_closure(Seq::empty(), pkg, v)))
    } else {
        Err(ClosureError::UnknownPackage)
    }
}

/// The view of a closure result.
pub open spec fn closure_result_view(r: Result<Vec<bool>, ClosureError>) -> Result<Seq<bool>, ClosureError> {
    match r {
        Ok(c) => Ok(c@),
        Err(e) => Err(e),
    }
}

/// The workspace members reachable from `root` through non-dev links between
/// workspace members, with the `excluded_links` pairs cut, as membership flags
/// in package order; an error when `root` is not a package of the graph.
pub fn compute_workspace_closure(
    graph: &WorkspaceGraph,
    root: usize,
    excluded_links: &[(usize, usize)],
) -> (closure: Result<Vec<bool>, ClosureError>)
    requires
        graph.wf(),
    ensures
        closure_result_view(closure) == workspace_closure_result(*graph, root as int, excluded_links@),
{
    if root < graph.packages.len() {
        Ok(workspace_closure(graph, root, excluded_links))
    } else {
        Err(ClosureError::UnknownRoot)
    }
}

/// The workspace members reachable from `pkg` through non-dev links between
/// workspace members, with nothing cut; an error when `pkg` is not a package
/// of the graph.
pub fn compute_raw_closure(graph: &WorkspaceGraph, pkg: usize) -> (closure: Result<Vec<bool>, ClosureError>)
    requires
        graph.wf(),
    ensures
        closure_result_view(closure) == raw_closure_result(*graph, pkg as int),
{
    if pkg < graph.packages.len() {
        Ok(raw_closure(graph, pkg))
    } else {
        Err(ClosureError::UnknownPackage)
    }
}

/// A package's raw closure is its workspace closure with nothing cut: both
/// are computed, and equal, or both are refused.
pub proof fn lemma_raw_closure_is_uncut_closure(g: WorkspaceGraph, pkg: int)
    ensures
        raw_closure_result(g, pkg) is Ok <==> workspace_closure_result(g, pkg, Seq::empty()) is Ok,
        raw_closure_result(g, pkg) is Ok ==> raw_closure_result(g, pkg)->Ok_0
            == workspace_closure_result(g, pkg, Seq::empty())->Ok_0,
{
}

/// Cutting more links never adds a package to a closure: every package in the
/// closure with the larger cut set is also in the closure with the smaller one.
pub proof fn lemma_cut_closure_within_base(
    g: &WorkspaceGraph,
    fewer_cuts: Seq<(usize, usize)>,
    more_cuts: Seq<(usize, usize)>,
    root: int,
    v: int,
)
    requires
        g.wf(),
        forall|p: (usize, usize)| fewer_cuts.contains(p) ==> more_cuts.contains(p),
        g.in_closure(more_cuts, root, v),
    ensures
        g.in_closure(fewer_cuts, root, v),
{
    let w = choose|ls: Seq<int>| #[trigger] g.is_walk(more_cuts, root, ls) && g.walk_end(root, ls) == v;
    assert forall|i: int| 0 <= i < w.len() implies g.accepted(fewer_cuts, #[trigger] w[i]) by {
        assert(g.accepted(more_cuts, w[i]));
    }
    assert(g.is_walk(fewer_cuts, root, w));
}

} // verus!
