//! The decisions of the commands that work on files: what their arguments ask
//! for, before anything on disk is touched.

use vstd::prelude::*;
use vstd::string::StringExecFns;
use crate::command::texts;
use crate::text::chars_of;
use crate::text::same_text;

verus! {

/// Where a change of directory goes.
#[derive(Debug, PartialEq)]
pub enum CdTarget {
    /// Back to the previous directory.
    Previous,
    /// To this path.
    Path(String),
    /// Nowhere: the path is empty.
    Stay,
}

/// The mathematical content of a [`CdTarget`].
pub enum CdTargetView {
    Previous,
    Path(Seq<char>),
    Stay,
}

impl View for CdTarget {
    type V = CdTargetView;

    open spec fn view(&self) -> CdTargetView {
        match self {
            CdTarget::Previous => CdTargetView::Previous,
            CdTarget::Path(path) => CdTargetView::Path(path@),
            CdTarget::Stay => CdTargetView::Stay,
        }
    }
}

/// The path that a change of directory is asked for: the first argument, and
/// the home directory where there is none.
pub open spec fn requested_directory(args: Seq<Seq<char>>, home: Seq<char>) -> Seq<char> {
    if args.len() > 0 {
        args[0]
    } else {
        home
    }
}

/// `path` with a leading tilde replaced by the home directory.
pub open spec fn tilde_expanded(path: Seq<char>, home: Seq<char>) -> Seq<char> {
    if path.len() > 0 && path[0] == '~' {
        home + path.skip(1)
    } else {
        path
    }
}

/// Where a change of directory with the arguments `args` goes: a single dash
/// asks for the previous directory, an empty path for none, and any other
/// path for itself with a leading tilde expanded.
pub open spec fn cd_target_of(args: Seq<Seq<char>>, home: Seq<char>) -> CdTargetView {
    let path = requested_directory(args, home);
    if path == "-"@ {
        CdTargetView::Previous
    } else if path.len() == 0 {
        CdTargetView::Stay
    } else {
        CdTargetView::Path(tilde_expanded(path, home))
    }
}

/// Decides where a change of directory goes.
pub fn cd_target(args: &Vec<String>, home: &str) -> (target: CdTarget)
    ensures
        target@ == cd_target_of(texts(args@), home@),
{
    let path: &str = if args.len() > 0 {
        args[0].as_str()
    } else {
        home
    };
    if same_text(path, "-") {
        return CdTarget::Previous;
    }
    let chars = chars_of(path);
    if chars.len() == 0 {
        return CdTarget::Stay;
    }
    let mut expanded = String::new();
    if chars[0] == '~' {
        expanded.append(home);
        let mut i: usize = 1;
        while i < chars.len()
            invariant
                chars@ == path@,
                1 <= i <= chars.len(),
                expanded@ == home@ + path@.skip(1).take(i - 1),
            decreases chars.len() - i,
        {
            expanded.push(chars[i]);
            i += 1;
        }
        assert(path@.skip(1).take(chars.len() - 1) =~= path@.skip(1));
    } else {
        expanded.append(path);
    }
    CdTarget::Path(expanded)
}

/// What a removal is asked for.
#[derive(Debug, PartialEq)]
pub struct RemoveRequest {
    /// `-r` was given: directories are removed with what they hold.
    pub recursive: bool,
    /// The paths to remove, in their order.
    pub paths: Vec<String>,
}

/// The arguments that are not `-r`, in their order.
pub open spec fn remove_paths(args: Seq<Seq<char>>) -> Seq<Seq<char>>
    decreases args.len(),
{
    if args.len() == 0 {
        Seq::empty()
    } else if args.last() == "-r"@ {
        remove_paths(args.drop_last())
    } else {
        remove_paths(args.drop_last()).push(args.last())
    }
}

/// One of the arguments is `-r`.
pub open spec fn asks_recursive(args: Seq<Seq<char>>) -> bool {
    exists|k: int| 0 <= k < args.len() && args[k] == "-r"@
}

/// Reads the arguments of a removal: `-r`, wherever it stands, asks for
/// directories to be removed too, and every other argument is a path.
pub fn parse_remove_arguments(args: &Vec<String>) -> (request: RemoveRequest)
    ensures
        request.recursive == asks_recursive(texts(args@)),
        texts(request.paths@) == remove_paths(texts(args@)),
{
    let ghost all_args = texts(args@);
    let mut recursive = false;
    let mut paths: Vec<String> = Vec::new();
    let mut k: usize = 0;
    while k < args.len()
        invariant
            k <= args.len(),
            all_args == texts(args@),
            recursive == (exists|j: int| 0 <= j < k && all_args[j] == "-r"@),
            texts(paths@) == remove_paths(all_args.take(k as int)),
        decreases args.len() - k,
    {
        assert(all_args.take(k + 1).drop_last() =~= all_args.take(k as int));
        assert(all_args.take(k + 1).last() == args[k as int]@);
        if same_text(args[k].as_str(), "-r") {
            recursive = true;
        } else {
            paths.push(args[k].clone());
        }
        k += 1;
    }
    assert(all_args.take(args.len() as int) =~= all_args);
    RemoveRequest { recursive, paths }
}

/// One step along a path that is walked part by part.
#[derive(Debug, PartialEq)]
pub enum PathStep {
    /// `.`: stay.
    Stay,
    /// `..`: go up.
    Up,
    /// Any other part, the empty one too: go down into it.
    Down(String),
}

/// The mathematical content of a [`PathStep`].
pub enum PathStepView {
    Stay,
    Up,
    Down(Seq<char>),
}

impl View for PathStep {
    type V = PathStepView;

    open spec fn view(&self) -> PathStepView {
        match self {
            PathStep::Stay => PathStepView::Stay,
            PathStep::Up => PathStepView::Up,
            PathStep::Down(part) => PathStepView::Down(part@),
        }
    }
}

/// The steps held by a vector of steps.
pub open spec fn step_views(steps: Seq<PathStep>) -> Seq<PathStepView> {
    Seq::new(steps.len(), |i: int| steps[i]@)
}

/// The parts of `path` between its slashes; a path with `n` slashes has
/// `n + 1` parts, some of them empty where slashes meet or stand at an end.
pub open spec fn path_parts(path: Seq<char>) -> Seq<Seq<char>>
    decreases path.len(),
{
    if path.len() == 0 {
        seq![Seq::empty()]
    } else if path.last() == '/' {
        path_parts(path.drop_last()).push(Seq::empty())
    } else {
        let parts = path_parts(path.drop_last());
        parts.drop_last().push(parts.last().push(path.last()))
    }
}

/// The step that a part of a path stands for.
pub open spec fn step_of(part: Seq<char>) -> PathStepView {
    if part == seq!['.'] {
        PathStepView::Stay
    } else if part == seq!['.', '.'] {
        PathStepView::Up
    } else {
        PathStepView::Down(part)
    }
}

/// The steps that `path` stands for, one for each of its parts.
pub open spec fn path_steps_of(path: Seq<char>) -> Seq<PathStepView> {
    Seq::new(path_parts(path).len(), |i: int| step_of(path_parts(path)[i]))
}

/// The step that the part `part` stands for.
fn step_for(part: String) -> (step: PathStep)
    ensures
        step@ == step_of(part@),
{
    proof {
        reveal_strlit(".");
        reveal_strlit("..");
        assert("."@ =~= seq!['.']);
        assert(".."@ =~= seq!['.', '.']);
    }
    if same_text(part.as_str(), ".") {
        PathStep::Stay
    } else if same_text(part.as_str(), "..") {
        PathStep::Up
    } else {
        PathStep::Down(part)
    }
}

/// Splits `path` at its slashes into the steps of a walk.
pub fn path_steps(path: &str) -> (steps: Vec<PathStep>)
    ensures
        step_views(steps@) == path_steps_of(path@),
{
    let chars = chars_of(path);
    let mut steps: Vec<PathStep> = Vec::new();
    let mut part = String::new();
    let mut i: usize = 0;
    assert(step_views(steps@) =~= Seq::new(
        (path_parts(chars@.take(0)).len() - 1) as nat,
        |j: int| step_of(path_parts(chars@.take(0))[j]),
    ));
    while i < chars.len()
        invariant
            chars@ == path@,
            i <= chars.len(),
            path_parts(chars@.take(i as int)).len() > 0,
            part@ == path_parts(chars@.take(i as int)).last(),
            step_views(steps@) == Seq::new(
                (path_parts(chars@.take(i as int)).len() - 1) as nat,
                |j: int| step_of(path_parts(chars@.take(i as int))[j]),
            ),
        decreases chars.len() - i,
    {
        let c = chars[i];
        let ghost read = chars@.take(i as int);
        let ghost next = chars@.take(i + 1);
        let ghost parts = path_parts(read);
        let ghost before = step_views(steps@);
        assert(next.drop_last() =~= read);
        if c == '/' {
            let done = part;
            part = String::new();
            steps.push(step_for(done));
            assert(step_views(steps@) =~= before.push(step_of(parts.last())));
            assert(step_views(steps@) =~= Seq::new(
                (path_parts(next).len() - 1) as nat,
                |j: int| step_of(path_parts(next)[j]),
            ));
        } else {
            part.push(c);
            assert(step_views(steps@) =~= Seq::new(
                (path_parts(next).len() - 1) as nat,
                |j: int| step_of(path_parts(next)[j]),
            ));
        }
        i += 1;
    }
    assert(chars@.take(chars.len() as int) =~= chars@);
    let ghost before = step_views(steps@);
    steps.push(step_for(part));
    assert(step_views(steps@) =~= before.push(step_of(path_parts(path@).last())));
    steps
}

/// Whether one of `steps` goes down.
pub fn any_step_down(steps: &Vec<PathStep>) -> (down: bool)
    ensures
        down == (exists|i: int| 0 <= i < steps.len() && #[trigger] steps[i]@ is Down),
{
    let mut i: usize = 0;
    while i < steps.len()
        invariant
            i <= steps.len(),
            forall|j: int| 0 <= j < i ==> !(#[trigger] steps[j]@ is Down),
        decreases steps.len() - i,
    {
        match &steps[i] {
            PathStep::Down(_) => {
                assert(steps[i as int]@ is Down);
                return true;
            },
            _ => {},
        }
        i += 1;
    }
    false
}

/// What to do with a path that is to be removed.
#[derive(Debug, PartialEq, Eq, Clone, Copy, Structural)]
pub enum Removal {
    /// Remove the directory and what it holds.
    Tree,
    /// Refuse: it is a directory, and `-r` was not given.
    RefuseDirectory,
    /// Remove the file.
    File,
}

/// What to do with a path that is to be removed: a directory goes with what
/// it holds where `-r` was given and is refused where it was not; anything
/// else is removed as a file.
pub open spec fn removal_of(is_directory: bool, recursive: bool) -> Removal {
    if is_directory {
        if recursive {
            Removal::Tree
        } else {
            Removal::RefuseDirectory
        }
    } else {
        Removal::File
    }
}

/// Decides what to do with a path that is to be removed.
pub fn removal(is_directory: bool, recursive: bool) -> (what: Removal)
    ensures
        what == removal_of(is_directory, recursive),
{
    if is_directory {
        if recursive {
            Removal::Tree
        } else {
            Removal::RefuseDirectory
        }
    } else {
        Removal::File
    }
}

/// What the arguments of a copy or a move allow.
#[derive(Debug, PartialEq, Eq, Clone, Copy, Structural)]
pub enum TransferCheck {
    /// There is no argument at all.
    MissingOperand,
    /// There is a source and no destination.
    MissingDestination,
    /// Several sources, and the destination is no directory.
    NotADirectory,
    /// The sources can be taken one by one.
    Proceed,
}

/// What `count` arguments allow, the last of them the destination:
/// a transfer needs a source and a destination, and several sources need a
/// directory to go to.
pub open spec fn transfer_check_of(count: nat, destination_is_directory: bool) -> TransferCheck {
    if count == 0 {
        TransferCheck::MissingOperand
    } else if count == 1 {
        TransferCheck::MissingDestination
    } else if count > 2 && !destination_is_directory {
        TransferCheck::NotADirectory
    } else {
        TransferCheck::Proceed
    }
}

/// Checks the arguments of a copy or a move.
pub fn transfer_check(count: usize, destination_is_directory: bool) -> (check: TransferCheck)
    ensures
        check == transfer_check_of(count as nat, destination_is_directory),
{
    if count == 0 {
        TransferCheck::MissingOperand
    } else if count == 1 {
        TransferCheck::MissingDestination
    } else if count > 2 && !destination_is_directory {
        TransferCheck::NotADirectory
    } else {
        TransferCheck::Proceed
    }
}

} // verus!
