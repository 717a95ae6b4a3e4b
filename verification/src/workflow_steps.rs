use vstd::prelude::*;

use crate::fluent::FluentBuilder;

verus! {

/// The abstract content of a workflow step.
pub struct StepView {
    pub name: Seq<char>,
    /// `owner/repo@version` of the action, or a local `./path`.
    pub uses: Option<Seq<char>>,
    /// Shell command run by the step.
    pub run: Option<Seq<char>>,
    /// Action inputs in insertion order.
    pub with: Seq<(Seq<char>, Seq<char>)>,
    pub if_condition: Option<Seq<char>>,
    pub continue_on_error: Option<bool>,
}

/// A GitHub Actions workflow step.
pub struct WorkflowStep {
    pub name: String,
    pub uses: Option<String>,
    pub run: Option<String>,
    pub with: Vec<(String, String)>,
    pub if_condition: Option<String>,
    pub continue_on_error: Option<bool>,
}

/// The view of an optional string.
pub open spec fn opt_view(s: Option<String>) -> Option<Seq<char>> {
    match s {
        Some(x) => Some(x@),
        None => None,
    }
}

/// The views of a list of inputs.
pub open spec fn inputs_view(w: Seq<(String, String)>) -> Seq<(Seq<char>, Seq<char>)> {
    w.map_values(|p: (String, String)| (p.0@, p.1@))
}

impl View for WorkflowStep {
    type V = StepView;

    open spec fn view(&self) -> StepView {
        StepView {
            name: self.name@,
            uses: opt_view(self.uses),
            run: opt_view(self.run),
            with: inputs_view(self.with@),
            if_condition: opt_view(self.if_condition),
            continue_on_error: self.continue_on_error,
        }
    }
}

/// A step named `name` with nothing else set.
pub open spec fn named_step(name: Seq<char>) -> StepView {
    StepView {
        name,
        uses: None,
        run: None,
        with: Seq::empty(),
        if_condition: None,
        continue_on_error: None,
    }
}

/// The first position of input `key`, at `i` or later.
pub open spec fn input_position_from(w: Seq<(Seq<char>, Seq<char>)>, key: Seq<char>, i: int) -> Option<int>
    decreases w.len() - i,
{
    if i < 0 || i >= w.len() {
        None
    } else if w[i].0 == key {
        Some(i)
    } else {
        input_position_from(w, key, i + 1)
    }
}

/// The inputs with `key` set to `value`: an existing input keeps its place,
/// a new one goes last.
pub open spec fn set_input(w: Seq<(Seq<char>, Seq<char>)>, key: Seq<char>, value: Seq<char>) -> Seq<
    (Seq<char>, Seq<char>),
> {
    match input_position_from(w, key, 0) {
        Some(i) => w.update(i, (key, value)),
        None => w.push((key, value)),
    }
}

/// The step with input `key` set to `value`.
pub open spec fn with_input(s: StepView, key: Seq<char>, value: Seq<char>) -> StepView {
    StepView { with: set_input(s.with, key, value), ..s }
}

/// `key` names none of the inputs.
pub open spec fn key_absent(w: Seq<(Seq<char>, Seq<char>)>, key: Seq<char>) -> bool {
    forall|i: int| 0 <= i < w.len() ==> (#[trigger] w[i]).0 != key
}

proof fn lemma_position_absent(w: Seq<(Seq<char>, Seq<char>)>, key: Seq<char>, i: int)
    requires
        0 <= i,
        forall|k: int| i <= k < w.len() ==> (#[trigger] w[k]).0 != key,
    ensures
        input_position_from(w, key, i) == None::<int>,
    decreases w.len() - i,
{
    if i < w.len() {
        lemma_position_absent(w, key, i + 1);
    }
}

proof fn lemma_position_found(w: Seq<(Seq<char>, Seq<char>)>, key: Seq<char>, i: int, p: int)
    requires
        0 <= i <= p < w.len(),
        w[p].0 == key,
        forall|k: int| i <= k < p ==> (#[trigger] w[k]).0 != key,
    ensures
        input_position_from(w, key, i) == Some(p),
    decreases p - i,
{
    if i < p {
        lemma_position_found(w, key, i + 1, p);
    }
}

/// Setting a key that no input has appends it.
pub proof fn lemma_set_absent_input(w: Seq<(Seq<char>, Seq<char>)>, key: Seq<char>, value: Seq<char>)
    requires
        key_absent(w, key),
    ensures
        set_input(w, key, value) == w.push((key, value)),
{
    lemma_position_absent(w, key, 0);
}

impl WorkflowStep {
    /// A step named `name`.
    pub fn new(name: &str) -> (step: Self)
        ensures
            step@ == named_step(name@),
    {
        let step = WorkflowStep {
            name: name.to_string(),
            uses: None,
            run: None,
            with: Vec::new(),
            if_condition: None,
            continue_on_error: None,
        };
        assert(inputs_view(step.with@) =~= Seq::empty());
        step
    }

    /// Points the step at the action `owner/repo@version` unless it already
    /// uses one.
    pub fn uses(self, owner: &str, repo: &str, version: &str) -> (step: Self)
        ensures
            step@ == (StepView {
                uses: if self@.uses is Some {
                    self@.uses
                } else {
                    Some(owner@ + "/"@ + repo@ + "@"@ + version@)
                },
                ..self@
            }),
    {
        let mut step = self;
        if step.uses.is_none() {
            let slash = "/";
            let at = "@";
            proof {
                reveal_strlit("/");
                reveal_strlit("@");
            }
            let mut action = owner.to_string();
            action.append(slash);
            action.append(repo);
            action.append(at);
            action.append(version);
            step.uses = Some(action);
        }
        step
    }

    /// Makes the step run the shell command `cmd` unless it already runs one.
    pub fn run(self, cmd: String) -> (step: Self)
        ensures
            step@ == (StepView { run: if self@.run is Some { self@.run } else { Some(cmd@) }, ..self@ }),
    {
        let mut step = self;
        if step.run.is_none() {
            step.run = Some(cmd);
        }
        step
    }

    /// Sets input `key` to `value`.
    pub fn add_with(self, key: &str, value: String) -> (step: Self)
        ensures
            step@ == (StepView { with: set_input(self@.with, key@, value@), ..self@ }),
    {
        let mut step = self;
        let k = key.to_string();
        let ghost w = step@.with;
        let ghost orig = step@;
        let mut i: usize = 0;
        while i < step.with.len()
            invariant
                orig == self@,
                step@ == orig,
                w == orig.with,
                w == inputs_view(step.with@),
                k@ == key@,
                i <= step.with@.len(),
                forall|j: int| 0 <= j < i ==> (#[trigger] w[j]).0 != key@,
            decreases step.with@.len() - i,
        {
            if step.with[i].0 == k {
                proof {
                    lemma_position_found(w, key@, 0, i as int);
                }
                let ghost before = step.with@;
                step.with.set(i, (k, value));
                proof {
                    assert(inputs_view(step.with@) =~= w.update(i as int, (key@, value@)));
                }
                return step;
            }
            i += 1;
        }
        proof {
            lemma_position_absent(w, key@, 0);
        }
        step.with.push((k, value));
        assert(inputs_view(step.with@) =~= w.push((key@, value@)));
        step
    }

    /// Runs the step only when `expr` holds.
    pub fn if_condition(self, expr: String) -> (step: Self)
        ensures
            step@ == (StepView { if_condition: Some(expr@), ..self@ }),
    {
        let mut step = self;
        step.if_condition = Some(expr);
        step
    }

    /// Whether a failure of the step lets the job continue.
    pub fn continue_on_error(self, allowed: bool) -> (step: Self)
        ensures
            step@ == (StepView { continue_on_error: Some(allowed), ..self@ }),
    {
        let mut step = self;
        step.continue_on_error = Some(allowed);
        step
    }
}

impl FluentBuilder for WorkflowStep {}

/// The abstract content of a job.
pub struct JobView {
    pub needs: Seq<Seq<char>>,
    pub cond: Option<Seq<char>>,
}

/// A workflow job: the jobs it waits for and the condition it runs under.
pub struct WorkflowJob {
    pub needs: Vec<String>,
    pub cond: Option<String>,
}

impl View for WorkflowJob {
    type V = JobView;

    open spec fn view(&self) -> JobView {
        JobView { needs: self.needs@.map_values(|s: String| s@), cond: opt_view(self.cond) }
    }
}

impl FluentBuilder for WorkflowJob {}

} // verus!
