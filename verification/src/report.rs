//! What the watcher has to say while it runs.

use vstd::prelude::*;
use crate::text::clone_texts;

verus! {

/// One line of output: a changed path, a diagnostic for the user who asked
/// for them, or a warning.  A `reason` is the system's own description of
/// what went wrong.
#[derive(Debug, PartialEq, Eq)]
pub enum Line {
    /// A path that changed in this cycle.
    Changed(String),
    /// The running child is about to be terminated.
    Killing,
    /// The watcher is about to wait for the child to exit.
    Waiting,
    /// The child has exited with this status.
    Exited(i32),
    /// This command is about to be started.
    Executing(Vec<String>),
    /// There is nothing to start: the command is empty.
    NoCommand,
    /// The child could not be sent the termination signal.
    KillFailed(String),
    /// The wait for the child failed.
    WaitFailed(String),
    /// The exit status of the child could not be checked.
    PollFailed(String),
    /// The program could not be started.
    SpawnFailed { program: String, reason: String },
    /// The metadata of the path could not be read.
    NoMetadata { path: String, reason: String },
    /// A directory could not be listed.
    NoListing(String),
    /// An entry has no modification time that could be read.
    NoModificationDate,
}

/// The mathematical content of a [`Line`].
pub enum LineModel {
    Changed(Seq<char>),
    Killing,
    Waiting,
    Exited(i32),
    Executing(Seq<Seq<char>>),
    NoCommand,
    KillFailed(Seq<char>),
    WaitFailed(Seq<char>),
    PollFailed(Seq<char>),
    SpawnFailed { program: Seq<char>, reason: Seq<char> },
    NoMetadata { path: Seq<char>, reason: Seq<char> },
    NoListing(Seq<char>),
    NoModificationDate,
}

impl DeepView for Line {
    type V = LineModel;

    open spec fn deep_view(&self) -> LineModel {
        match *self {
            Line::Changed(path) => LineModel::Changed(path@),
            Line::Killing => LineModel::Killing,
            Line::Waiting => LineModel::Waiting,
            Line::Exited(code) => LineModel::Exited(code),
            Line::Executing(command) => LineModel::Executing(command.deep_view()),
            Line::NoCommand => LineModel::NoCommand,
            Line::KillFailed(reason) => LineModel::KillFailed(reason@),
            Line::WaitFailed(reason) => LineModel::WaitFailed(reason@),
            Line::PollFailed(reason) => LineModel::PollFailed(reason@),
            Line::SpawnFailed { program, reason } => LineModel::SpawnFailed {
                program: program@,
                reason: reason@,
            },
            Line::NoMetadata { path, reason } => LineModel::NoMetadata {
                path: path@,
                reason: reason@,
            },
            Line::NoListing(reason) => LineModel::NoListing(reason@),
            Line::NoModificationDate => LineModel::NoModificationDate,
        }
    }
}

impl LineModel {
    /// Whether the line tells of something that went wrong.  Such a line is
    /// shown whether or not diagnostics were asked for.
    pub open spec fn is_warning(self) -> bool {
        !(self is Changed || self is Killing || self is Waiting || self is Exited
            || self is Executing)
    }
}

impl Line {
    /// Whether the line is a warning, to be shown on the error stream.
    pub fn is_warning(&self) -> (r: bool)
        ensures
            r == self.deep_view().is_warning(),
    {
        match self {
            Line::Changed(_) | Line::Killing | Line::Waiting | Line::Exited(_) | Line::Executing(
                _,
            ) => false,
            _ => true,
        }
    }
}

/// The line, or nothing where `wanted` is false.
pub open spec fn only_if(wanted: bool, line: LineModel) -> Seq<LineModel> {
    if wanted {
        seq![line]
    } else {
        Seq::empty()
    }
}

/// One line for each path: that it changed.
pub open spec fn changed_lines(paths: Seq<Seq<char>>) -> Seq<LineModel> {
    Seq::new(paths.len(), |i: int| LineModel::Changed(paths[i]))
}

/// Appends `line` to `lines`.
pub fn say(lines: &mut Vec<Line>, line: Line)
    ensures
        final(lines).deep_view() == old(lines).deep_view().push(line.deep_view()),
{
    lines.push(line);
    assert(lines.deep_view() =~= old(lines).deep_view().push(line.deep_view()));
}

/// Appends `line` to `lines` where `wanted` holds.
pub fn say_if(lines: &mut Vec<Line>, wanted: bool, line: Line)
    ensures
        final(lines).deep_view() == old(lines).deep_view() + only_if(wanted, line.deep_view()),
{
    if wanted {
        say(lines, line);
    }
    assert(lines.deep_view() =~= old(lines).deep_view() + only_if(wanted, line.deep_view()));
}

/// Appends the lines of `more` to `lines`, in order.
pub fn say_all(lines: &mut Vec<Line>, more: Vec<Line>)
    ensures
        final(lines).deep_view() == old(lines).deep_view() + more.deep_view(),
{
    let mut rest = more;
    lines.append(&mut rest);
    assert(lines.deep_view() =~= old(lines).deep_view() + more.deep_view());
}

/// Appends one line for each of `paths`.
pub fn say_changed(lines: &mut Vec<Line>, paths: &Vec<String>)
    ensures
        final(lines).deep_view() == old(lines).deep_view() + changed_lines(paths.deep_view()),
{
    let mut i: usize = 0;
    while i < paths.len()
        invariant
            i <= paths.len(),
            lines.deep_view() == old(lines).deep_view() + changed_lines(
                paths.deep_view().take(i as int),
            ),
        decreases paths.len() - i,
    {
        say(lines, Line::Changed(paths[i].clone()));
        assert(lines.deep_view() =~= old(lines).deep_view() + changed_lines(
            paths.deep_view().take(i as int + 1),
        ));
        i += 1;
    }
    assert(paths.deep_view().take(paths.len() as int) =~= paths.deep_view());
}

/// A line that says which command is started.
pub fn executing(command: &Vec<String>) -> (line: Line)
    ensures
        line.deep_view() == LineModel::Executing(command.deep_view()),
{
    Line::Executing(clone_texts(command))
}

} // verus!
