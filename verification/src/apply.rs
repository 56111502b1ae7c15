//! The apply phase: from the registry and the edited text to one step per
//! edited line, and from the outcome of each step to the faults to report.
//!
//! Line `i` of the edited text names the new path of the registry's path `i`.
//! Nothing else links the two, so the plan is made index by index and never
//! looks at what a line says to decide which path it belongs to.

use vstd::prelude::*;
use crate::registry::Registry;
use crate::text::{all_single_line, joined, law_split_undoes_join, lines_of, split_lines, texts};

verus! {

/// What is to be done for one edited line.
#[derive(Debug, PartialEq, Eq)]
pub enum Step {
    /// Rename the path at `index`, which is `from`, to `to`.
    Rename { index: usize, from: String, to: String },
    /// The line repeats the path at `index`: nothing to do, and no error.
    Keep { index: usize },
    /// The registry has no path at `index`: the text has more lines than the
    /// registry has paths.
    OutOfRange { index: usize },
}

/// A step as a mathematical value.
pub enum StepModel {
    Rename { index: int, from: Seq<char>, to: Seq<char> },
    Keep { index: int },
    OutOfRange { index: int },
}

impl View for Step {
    type V = StepModel;

    open spec fn view(&self) -> StepModel {
        match *self {
            Step::Rename { index, from, to } => StepModel::Rename {
                index: index as int,
                from: from@,
                to: to@,
            },
            Step::Keep { index } => StepModel::Keep { index: index as int },
            Step::OutOfRange { index } => StepModel::OutOfRange { index: index as int },
        }
    }
}

impl StepModel {
    /// The index of the edited line that the step stands for.
    pub open spec fn index(self) -> int {
        match self {
            StepModel::Rename { index, .. } => index,
            StepModel::Keep { index } => index,
            StepModel::OutOfRange { index } => index,
        }
    }
}

/// A fault to report at the end of a run.
#[derive(Debug, PartialEq, Eq)]
pub enum Fault {
    /// The edited text has a line at `index` and the registry has no path there.
    OutOfRange { index: usize },
    /// The rename of the path at `index` failed, for the given reason.
    RenameFailed { index: usize, reason: String },
}

/// A fault as a mathematical value.
pub enum FaultModel {
    OutOfRange { index: int },
    RenameFailed { index: int, reason: Seq<char> },
}

impl View for Fault {
    type V = FaultModel;

    open spec fn view(&self) -> FaultModel {
        match *self {
            Fault::OutOfRange { index } => FaultModel::OutOfRange { index: index as int },
            Fault::RenameFailed { index, reason } => FaultModel::RenameFailed {
                index: index as int,
                reason: reason@,
            },
        }
    }
}

/// The step for the edited line at `index`, whose content is `line`: a fault
/// where the registry has no such index, nothing where the line repeats the
/// path, a rename of that path to the line otherwise.
pub open spec fn step_at(paths: Seq<Seq<char>>, index: int, line: Seq<char>) -> StepModel {
    if index >= paths.len() {
        StepModel::OutOfRange { index }
    } else if line == paths[index] {
        StepModel::Keep { index }
    } else {
        StepModel::Rename { index, from: paths[index], to: line }
    }
}

/// The plan for a list of edited lines: one step per line, in the lines' order.
pub open spec fn plan_of(paths: Seq<Seq<char>>, lines: Seq<Seq<char>>) -> Seq<StepModel> {
    Seq::new(lines.len(), |i: int| step_at(paths, i, lines[i]))
}

/// The steps of a list as mathematical values, index by index.
pub open spec fn steps(plan: Seq<Step>) -> Seq<StepModel> {
    Seq::new(plan.len(), |i: int| plan[i]@)
}

/// What a step leaves to report once it was carried out. `failure` is the
/// reason why the rename failed, if it was tried and failed.
pub open spec fn fault_of(step: StepModel, failure: Option<Seq<char>>) -> Option<FaultModel> {
    match step {
        StepModel::OutOfRange { index } => Some(FaultModel::OutOfRange { index }),
        StepModel::Keep { .. } => None,
        StepModel::Rename { index, .. } => match failure {
            Some(reason) => Some(FaultModel::RenameFailed { index, reason }),
            None => None,
        },
    }
}

/// The view of an optional fault.
pub open spec fn fault_view(fault: Option<Fault>) -> Option<FaultModel> {
    match fault {
        Some(f) => Some(f@),
        None => None,
    }
}

/// The view of an optional reason.
pub open spec fn reason_view(failure: Option<String>) -> Option<Seq<char>> {
    match failure {
        Some(reason) => Some(reason@),
        None => None,
    }
}

impl Step {
    /// The index of the edited line that the step stands for.
    pub fn index(&self) -> (index: usize)
        ensures
            index == self@.index(),
    {
        match self {
            Step::Rename { index, .. } => *index,
            Step::Keep { index } => *index,
            Step::OutOfRange { index } => *index,
        }
    }

    /// Whether the step asks for a rename on the file system.
    pub fn is_rename(&self) -> (b: bool)
        ensures
            b == (self@ is Rename),
    {
        match self {
            Step::Rename { .. } => true,
            _ => false,
        }
    }

    /// The fault, if any, that the step leaves once it was carried out.
    ///
    /// `failure` is the reason why the rename failed, or `None` where it
    /// succeeded or was not tried. A line past the end of the registry is a
    /// fault whatever `failure` says; a line that repeats its path is never
    /// one; a rename is one exactly where it failed.
    pub fn settle(&self, failure: Option<String>) -> (fault: Option<Fault>)
        ensures
            fault_view(fault) == fault_of(self@, reason_view(failure)),
    {
        match self {
            Step::OutOfRange { index } => Some(Fault::OutOfRange { index: *index }),
            Step::Keep { .. } => None,
            Step::Rename { index, .. } => match failure {
                Some(reason) => Some(Fault::RenameFailed { index: *index, reason }),
                None => None,
            },
        }
    }
}

/// The step for one edited line.
pub fn plan_step(registry: &Registry, index: usize, line: &String) -> (step: Step)
    ensures
        step@ == step_at(registry@, index as int, line@),
{
    match registry.get(index) {
        None => Step::OutOfRange { index },
        Some(path) => {
            if *path == *line {
                Step::Keep { index }
            } else {
                Step::Rename { index, from: path.clone(), to: line.clone() }
            }
        },
    }
}

/// The plan for a list of edited lines: one step per line, at the line's index.
///
/// A registry with more paths than there are lines gets no step for the
/// paths past the last line: they stay as they are.
pub fn plan_renames(registry: &Registry, lines: &Vec<String>) -> (plan: Vec<Step>)
    ensures
        steps(plan@) == plan_of(registry@, texts(lines@)),
{
    let mut plan: Vec<Step> = Vec::new();
    let mut i: usize = 0;
    while i < lines.len()
        invariant
            i <= lines.len(),
            steps(plan@) == plan_of(registry@, texts(lines@).take(i as int)),
        decreases lines.len() - i,
    {
        let step = plan_step(registry, i, &lines[i]);
        proof {
            let done = plan_of(registry@, texts(lines@).take(i as int));
            let next = plan_of(registry@, texts(lines@).take(i + 1));
            let grown = steps(plan@.push(step));
            assert(steps(plan@).len() == done.len());
            assert forall|k: int| 0 <= k < grown.len() implies grown[k] == next[k] by {
                if k < i {
                    assert(grown[k] == done[k]);
                }
            }
            assert(grown =~= next);
        }
        plan.push(step);
        i = i + 1;
    }
    proof {
        assert(texts(lines@).take(lines.len() as int) =~= texts(lines@));
    }
    plan
}

/// The plan for an edited text: the text is split into its lines and each
/// line is matched with the path at the same index.
pub fn plan_from_text(registry: &Registry, edited: &str) -> (plan: Vec<Step>)
    ensures
        steps(plan@) == plan_of(registry@, lines_of(edited@)),
{
    let lines = split_lines(edited);
    plan_renames(registry, &lines)
}

/// The faults of a run, in the order in which they were recorded.
pub struct Report {
    faults: Vec<Fault>,
}

/// The faults of a list as mathematical values, index by index.
pub open spec fn fault_models(faults: Seq<Fault>) -> Seq<FaultModel> {
    Seq::new(faults.len(), |i: int| faults[i]@)
}

impl View for Report {
    type V = Seq<FaultModel>;

    closed spec fn view(&self) -> Seq<FaultModel> {
        fault_models(self.faults@)
    }
}

/// The faults on record once a step was carried out: those recorded before,
/// and after them the step's own fault, if it leaves one.
pub open spec fn recorded(
    faults: Seq<FaultModel>,
    step: StepModel,
    failure: Option<Seq<char>>,
) -> Seq<FaultModel> {
    match fault_of(step, failure) {
        Some(fault) => faults.push(fault),
        None => faults,
    }
}

impl Report {
    /// A report without faults.
    pub fn new() -> (report: Report)
        ensures
            report@ == Seq::<FaultModel>::empty(),
    {
        let report = Report { faults: Vec::new() };
        proof {
            assert(report@ =~= Seq::<FaultModel>::empty());
        }
        report
    }

    /// Records the outcome of one step. A fault is added to the end; no
    /// fault recorded before is lost, whatever the outcome.
    pub fn record(&mut self, step: &Step, failure: Option<String>)
        ensures
            final(self)@ == recorded(old(self)@, step@, reason_view(failure)),
    {
        match step.settle(failure) {
            Some(fault) => {
                proof {
                    assert(fault_models(self.faults@.push(fault)) =~= fault_models(
                        self.faults@,
                    ).push(fault@));
                }
                self.faults.push(fault);
            },
            None => {},
        }
    }

    /// Whether the run went through without a fault.
    pub fn is_clean(&self) -> (clean: bool)
        ensures
            clean == (self@.len() == 0),
    {
        self.faults.len() == 0
    }

    /// The number of faults on record.
    pub fn len(&self) -> (n: usize)
        ensures
            n == self@.len(),
    {
        self.faults.len()
    }

    /// The fault at a position of the record, or `None` past its end.
    pub fn get(&self, position: usize) -> (fault: Option<&Fault>)
        ensures
            fault is Some == (position < self@.len()),
            fault matches Some(f) ==> f@ == self@[position as int],
    {
        if position < self.faults.len() {
            Some(&self.faults[position])
        } else {
            None
        }
    }
}

/// A path whose index is past the last edited line is touched by no step of
/// the plan: with fewer lines than paths, the rest stays as it is.
pub proof fn law_paths_past_last_line_untouched(
    paths: Seq<Seq<char>>,
    lines: Seq<Seq<char>>,
    index: int,
)
    requires
        lines.len() <= index,
    ensures
        plan_of(paths, lines).len() == lines.len(),
        forall|k: int|
            0 <= k < lines.len() ==> (#[trigger] plan_of(paths, lines)[k]).index() != index,
{
}

/// Every line is judged at its own index and by nothing else. A line past
/// the last path is out of range, and only such a line is; a line that has a
/// path is kept where it repeats that path and is otherwise a rename from
/// that path to the line's content.
pub proof fn law_lines_correlate_by_index(paths: Seq<Seq<char>>, lines: Seq<Seq<char>>, k: int)
    requires
        0 <= k < lines.len(),
    ensures
        plan_of(paths, lines)[k].index() == k,
        k >= paths.len() <==> plan_of(paths, lines)[k] is OutOfRange,
        k < paths.len() && lines[k] == paths[k] <==> plan_of(paths, lines)[k] is Keep,
        k < paths.len() && lines[k] != paths[k] <==> plan_of(paths, lines)[k] == (
        StepModel::Rename { index: k, from: paths[k], to: lines[k] }),
{
}

/// A line out of range is a fault however the run goes, and the steps for
/// the lines that have a path do not depend on it: the plan for the lines in
/// range is the same with or without the extra lines.
pub proof fn law_extra_lines_do_not_disturb(paths: Seq<Seq<char>>, lines: Seq<Seq<char>>)
    requires
        lines.len() > paths.len(),
    ensures
        plan_of(paths, lines).take(paths.len() as int) == plan_of(
            paths,
            lines.take(paths.len() as int),
        ),
        forall|k: int, failure: Option<Seq<char>>|
            paths.len() <= k < lines.len() ==> #[trigger] fault_of(
                plan_of(paths, lines)[k],
                failure,
            ) == Some(FaultModel::OutOfRange { index: k }),
{
    assert(plan_of(paths, lines).take(paths.len() as int) =~= plan_of(
        paths,
        lines.take(paths.len() as int),
    ));
}

/// Editing nothing renames nothing: the plan for the registry's own text
/// keeps every path. This asks what reading the text back asks: that no path
/// holds a `\n` and that the registry is not the single empty path.
pub proof fn law_unedited_text_keeps_all(paths: Seq<Seq<char>>)
    requires
        all_single_line(paths),
        !(paths.len() == 1 && paths[0].len() == 0),
    ensures
        plan_of(paths, lines_of(joined(paths))).len() == paths.len(),
        forall|k: int|
            0 <= k < paths.len() ==> #[trigger] plan_of(paths, lines_of(joined(paths)))[k] == (
            StepModel::Keep { index: k }),
{
    law_split_undoes_join(paths);
}

} // verus!
