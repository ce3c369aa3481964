//! The commands of the task tracker and their options, as plain values.

use crate::report::{ShowParams, ShowParamsView};
use crate::task::TimeWindow;
use crate::text::texts;
use vstd::prelude::*;

verus! {

/// A command.
#[derive(Debug)]
pub enum Cmd {
    /// Show tasks.
    Show(ShowOpt),
    /// Work on the task store.
    Db(DbOpt),
    /// Work on tasks.
    Task(TaskOpt),
    /// Work on the steps of a task.
    Step(StepOpt),
    /// Write out the shell completions.
    Completion,
}

/// A command on the task store.
#[derive(Debug)]
pub struct DbOpt {
    pub cmd: DbCmd,
}

/// What to do with the task store.
#[derive(Debug)]
pub enum DbCmd {
    /// Set the store up. With `force` a store that is already set up is
    /// cleared first.
    Init { force: bool },
}

/// A command to show tasks: the options, the kind of report, and the one
/// task to show if there is to be one only.
#[derive(Debug)]
pub struct ShowOpt {
    pub show_opts: ShowCommonOpt,
    pub cmd: Option<ShowCmd>,
    /// The one task to show.
    pub task: Option<u32>,
}

/// The kinds of report, each with options of its own.
#[derive(Debug)]
pub enum ShowCmd {
    /// The open tasks.
    All { show_opts: ShowCommonOpt },
    /// The open tasks that are blocked, in progress, or of high or urgent
    /// priority.
    Short { show_opts: ShowCommonOpt },
    /// The tasks to do.
    Backlog { show_opts: ShowCommonOpt },
    /// The tasks in progress.
    Work { show_opts: ShowCommonOpt },
    /// The completed tasks inside a time window, `Today` unless given.
    Done { show_opts: ShowCommonOpt, time_window: Option<TimeWindow> },
}

/// The options that every report takes.
#[derive(Debug)]
pub struct ShowCommonOpt {
    /// Show the fields that are hidden otherwise: the story points.
    pub hidden: bool,
    /// Show only tasks that have all of these labels.
    pub labels: Vec<String>,
    /// Show the references.
    pub reference: bool,
    /// Show the open steps.
    pub steps: bool,
}

impl Default for ShowCommonOpt {
    fn default() -> (r: Self)
        ensures
            !r.hidden,
            !r.reference,
            !r.steps,
            r.labels@.len() == 0,
    {
        ShowCommonOpt { hidden: false, labels: Vec::new(), reference: false, steps: false }
    }
}

impl ShowCommonOpt {
    /// The parameters of a report of the tasks of status `status` under
    /// these options; the empty status stands for every status.
    pub fn as_show_params<'a>(&'a self, status: &'a str) -> (r: ShowParams<'a>)
        ensures
            r@ == (ShowParamsView {
                label: texts(self.labels@),
                status: status@,
                reference: self.reference,
                storypoints: self.hidden,
                steps: self.steps,
            }),
    {
        ShowParams {
            label: self.labels.as_slice(),
            status,
            reference: self.reference,
            storypoints: self.hidden,
            steps: self.steps,
        }
    }

    /// Takes over the options of `to_merge`: what either asks to show is
    /// shown, and the labels of `to_merge` are required too. Whether steps
    /// are shown is left as it is.
    pub fn merge(&mut self, to_merge: &ShowCommonOpt)
        ensures
            final(self).hidden == (old(self).hidden || to_merge.hidden),
            final(self).reference == (old(self).reference || to_merge.reference),
            final(self).steps == old(self).steps,
            texts(final(self).labels@) == texts(old(self).labels@) + texts(to_merge.labels@),
    {
        self.hidden = self.hidden || to_merge.hidden;
        self.reference = self.reference || to_merge.reference;
        let mut i: usize = 0;
        assert(texts(self.labels@) =~= texts(old(self).labels@) + texts(to_merge.labels@).take(0));
        while i < to_merge.labels.len()
            invariant
                0 <= i <= to_merge.labels.len(),
                self.hidden == (old(self).hidden || to_merge.hidden),
                self.reference == (old(self).reference || to_merge.reference),
                self.steps == old(self).steps,
                texts(self.labels@) == texts(old(self).labels@) + texts(to_merge.labels@).take(
                    i as int,
                ),
            decreases to_merge.labels.len() - i,
        {
            let ghost merged = texts(self.labels@);
            self.labels.push(to_merge.labels[i].clone());
            proof {
                let more = texts(to_merge.labels@);
                assert(texts(self.labels@) =~= merged.push(more[i as int]));
                assert(more.take(i + 1) =~= more.take(i as int).push(more[i as int]));
            }
            i = i + 1;
        }
        assert(texts(to_merge.labels@).take(i as int) =~= texts(to_merge.labels@));
    }
}

/// A command on a task.
#[derive(Debug)]
pub struct TaskOpt {
    pub cmd: TaskCmd,
}

/// What to do with a task.
#[derive(Debug)]
pub enum TaskCmd {
    /// Create a task.
    New {
        labels: Vec<String>,
        reference: Option<String>,
        priority: Option<String>,
        storypoint: Option<u32>,
        /// The description, word by word.
        descr: Vec<String>,
    },
    /// Attach labels to a task.
    AddLabel { labels: Vec<String>, task: u32 },
    /// Change attributes of a task.
    Edit {
        task: u32,
        priority: Option<String>,
        status: Option<String>,
        storypoint: Option<u32>,
        reference: Option<String>,
        /// The new description, word by word; none to keep the description.
        descr: Vec<String>,
    },
    /// Complete a task.
    Done(OptTaskOnly),
    /// Start work on a task.
    Start(OptTaskOnly),
    /// Mark a task as blocked.
    Block(OptTaskOnly),
    /// Delete a task.
    Delete(OptTaskOnly),
    /// Raise the priority of a task.
    Prio(OptTaskOnly),
}

/// The task that a command is about.
#[derive(Debug)]
pub struct OptTaskOnly {
    pub task_id: u32,
}

/// A command on a step.
#[derive(Debug)]
pub struct StepOpt {
    pub cmd: StepCmd,
}

/// What to do with a step.
#[derive(Debug)]
pub enum StepCmd {
    /// Add a step to a task.
    Add {
        task_id: u32,
        /// The description, word by word.
        descr: Vec<String>,
    },
    /// Complete a step.
    Done { task_id: u32, step_id: u32 },
    /// Delete a step.
    Delete { task_id: u32, step_id: u32 },
}

} // verus!
