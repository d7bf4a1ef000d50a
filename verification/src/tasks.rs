//! The demonstration task of the cooperative runtime: it works through ten
//! sections, yielding to the other tasks after each, and then finishes with
//! the value 1. What a section does (printing) and the yield are the
//! runtime's; this is the bookkeeping that decides what comes next.
use vstd::prelude::*;

verus! {

/// The number of sections a task works through.
pub const SECTIONS: u32 = 10;

/// The value a task finishes with.
pub const TASK_RESULT: u32 = 1;

/// What a task does next.
#[derive(Clone, Copy, Debug, PartialEq, Eq, Structural)]
pub enum RunnerStep {
    /// run the section with this number, then yield
    Section(u32),
    /// finish with this value
    Finished(u32),
}

/// The progress of one task through its sections.
pub struct SectionRunner {
    task_idx: usize,
    next: u32,
}

impl SectionRunner {
    /// The number of the section that runs next; `SECTIONS + 1` once all ran.
    pub closed spec fn spec_next(&self) -> u32 {
        self.next
    }

    /// The index of the task.
    pub closed spec fn spec_task_idx(&self) -> usize {
        self.task_idx
    }

    pub fn task_idx(&self) -> (i: usize)
        ensures
            i == self.spec_task_idx(),
    {
        self.task_idx
    }

    pub open spec fn wf(&self) -> bool {
        1 <= self.spec_next() <= SECTIONS + 1
    }

    /// A task that has run no section yet.
    pub fn new(task_idx: usize) -> (r: SectionRunner)
        ensures
            r.wf(),
            r.spec_task_idx() == task_idx,
            r.spec_next() == 1,
    {
        SectionRunner { task_idx, next: 1 }
    }

    /// The task's next move: the next section while any is left, then the
    /// finish.
    pub fn step(&mut self) -> (r: RunnerStep)
        requires
            old(self).wf(),
        ensures
            final(self).wf(),
            final(self).spec_task_idx() == old(self).spec_task_idx(),
            old(self).spec_next() <= SECTIONS ==> r == RunnerStep::Section(old(self).spec_next())
                && final(self).spec_next() == old(self).spec_next() + 1,
            old(self).spec_next() > SECTIONS ==> r == RunnerStep::Finished(TASK_RESULT)
                && final(self).spec_next() == old(self).spec_next(),
    {
        if self.next <= SECTIONS {
            let section = self.next;
            self.next = self.next + 1;
            RunnerStep::Section(section)
        } else {
            RunnerStep::Finished(TASK_RESULT)
        }
    }
}

} // verus!
