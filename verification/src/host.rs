//! What the library asks of the machine it runs on, and what it is told.
//!
//! Nothing in this library touches a disk or starts a program. An operation
//! that needs either is a sequence of steps: each step either asks one
//! [`Request`] of the caller or ends the operation. The caller performs the
//! request and hands the [`Reply`] to the next step.

use vstd::prelude::*;

verus! {

/// One entry of a directory listing.
#[derive(Debug, Clone, PartialEq, Eq)]
pub struct DirEntry {
    /// The entry's name inside its directory.
    pub name: String,
    /// Whether the entry is itself a directory.
    pub is_dir: bool,
}

/// What a [`DirEntry`] holds, with every text as the sequence of its characters.
pub struct DirEntryView {
    pub name: Seq<char>,
    pub is_dir: bool,
}

impl View for DirEntry {
    type V = DirEntryView;

    open spec fn view(&self) -> DirEntryView {
        DirEntryView { name: self.name@, is_dir: self.is_dir }
    }
}

/// The entries of a listing, each by its view.
pub open spec fn entries_view(entries: Seq<DirEntry>) -> Seq<DirEntryView> {
    Seq::new(entries.len(), |i: int| entries[i]@)
}

/// Something for the caller to do.
#[derive(Debug, Clone, PartialEq, Eq)]
pub enum Request {
    /// Does anything exist at `path`?
    Exists { path: String },
    /// Is `path` a directory?
    IsDir { path: String },
    /// Read the file at `path` as text.
    ReadText { path: String },
    /// Write `text` to the file at `path`, replacing what it held.
    WriteText { path: String, text: String },
    /// Create the directory `path` and the directories above it.
    CreateDir { path: String },
    /// List the entries of the directory `path`.
    ListDir { path: String },
    /// Copy the file `from` to `to`.
    CopyFile { from: String, to: String },
    /// Clone the git repository `repository` into the directory `target`.
    GitClone { repository: String, target: String },
    /// Pull in the git working tree `directory`.
    GitPull { directory: String },
}

/// What a [`Request`] holds, with every text as the sequence of its characters.
pub enum RequestView {
    Exists { path: Seq<char> },
    IsDir { path: Seq<char> },
    ReadText { path: Seq<char> },
    WriteText { path: Seq<char>, text: Seq<char> },
    CreateDir { path: Seq<char> },
    ListDir { path: Seq<char> },
    CopyFile { from: Seq<char>, to: Seq<char> },
    GitClone { repository: Seq<char>, target: Seq<char> },
    GitPull { directory: Seq<char> },
}

impl View for Request {
    type V = RequestView;

    open spec fn view(&self) -> RequestView {
        match self {
            Request::Exists { path } => RequestView::Exists { path: path@ },
            Request::IsDir { path } => RequestView::IsDir { path: path@ },
            Request::ReadText { path } => RequestView::ReadText { path: path@ },
            Request::WriteText { path, text } => RequestView::WriteText {
                path: path@,
                text: text@,
            },
            Request::CreateDir { path } => RequestView::CreateDir { path: path@ },
            Request::ListDir { path } => RequestView::ListDir { path: path@ },
            Request::CopyFile { from, to } => RequestView::CopyFile { from: from@, to: to@ },
            Request::GitClone { repository, target } => RequestView::GitClone {
                repository: repository@,
                target: target@,
            },
            Request::GitPull { directory } => RequestView::GitPull { directory: directory@ },
        }
    }
}

impl RequestView {
    /// Whether performing the request can change anything on the machine.
    pub open spec fn changes_something(self) -> bool {
        !(self is Exists || self is IsDir || self is ReadText || self is ListDir)
    }
}

/// What came of a request.
#[derive(Debug, Clone, PartialEq, Eq)]
pub enum Reply {
    /// The answer to `Exists` and to `IsDir`.
    Exists(bool),
    /// The text that `ReadText` read.
    Text(String),
    /// The entries that `ListDir` found.
    Entries(Vec<DirEntry>),
    /// A request that only acts was carried out.
    Done,
    /// The request could not be carried out; the text says why.
    Failed(String),
    /// A git command ran to its end: whether it reported success, and what it
    /// wrote to its standard output.
    Exited { success: bool, output: String },
}

/// What a [`Reply`] holds, with every text as the sequence of its characters.
pub enum ReplyView {
    Exists(bool),
    Text(Seq<char>),
    Entries(Seq<DirEntryView>),
    Done,
    Failed(Seq<char>),
    Exited { success: bool, output: Seq<char> },
}

impl View for Reply {
    type V = ReplyView;

    open spec fn view(&self) -> ReplyView {
        match self {
            Reply::Exists(found) => ReplyView::Exists(*found),
            Reply::Text(text) => ReplyView::Text(text@),
            Reply::Entries(entries) => ReplyView::Entries(entries_view(entries@)),
            Reply::Done => ReplyView::Done,
            Reply::Failed(cause) => ReplyView::Failed(cause@),
            Reply::Exited { success, output } => ReplyView::Exited {
                success: *success,
                output: output@,
            },
        }
    }
}

/// Where an operation stands after a step: it asks something and waits in
/// state `S`, or it is over, with a result or with an error.
#[derive(Debug, Clone, PartialEq, Eq)]
pub enum Step<S, A, E> {
    /// Perform the request and hand the reply to the state.
    Ask(S, Request),
    /// The operation succeeded.
    Done(A),
    /// The operation failed.
    Fail(E),
}

/// What a [`Step`] holds, with the state, the request, the result and the
/// error each by its view.
pub enum Plan<S, A, E> {
    Ask(S, RequestView),
    Done(A),
    Fail(E),
}

impl<S: View, A: View, E: View> View for Step<S, A, E> {
    type V = Plan<S::V, A::V, E::V>;

    open spec fn view(&self) -> Plan<S::V, A::V, E::V> {
        match self {
            Step::Ask(state, request) => Plan::Ask(state@, request@),
            Step::Done(value) => Plan::Done(value@),
            Step::Fail(error) => Plan::Fail(error@),
        }
    }
}

/// What a disk holds at one moment, as far as looking at it can tell: which
/// paths exist, which of them are directories, and what reading a path as
/// text gives.
pub struct Snapshot {
    /// The paths at which something exists.
    pub present: Set<Seq<char>>,
    /// The paths at which a directory exists.
    pub dirs: Set<Seq<char>>,
    /// For a path that can be read as text, its text; for one that cannot,
    /// the reason.
    pub texts: Map<Seq<char>, Result<Seq<char>, Seq<char>>>,
}

impl Snapshot {
    /// What reading `path` as text gives.
    pub open spec fn read(self, path: Seq<char>) -> Result<Seq<char>, Seq<char>> {
        if self.texts.dom().contains(path) {
            self.texts[path]
        } else {
            Err(Seq::empty())
        }
    }

    /// The reply to a request that asks whether a path exists, whether it
    /// is a directory, or what a file holds. Every other request fails: a
    /// snapshot holds no listings and does not change.
    pub open spec fn answer(self, request: RequestView) -> ReplyView {
        match request {
            RequestView::Exists { path } => ReplyView::Exists(self.present.contains(path)),
            RequestView::IsDir { path } => ReplyView::Exists(self.dirs.contains(path)),
            RequestView::ReadText { path } => match self.read(path) {
                Ok(text) => ReplyView::Text(text),
                Err(cause) => ReplyView::Failed(cause),
            },
            _ => ReplyView::Failed(Seq::empty()),
        }
    }
}

/// The state in which an operation waits for a reply.
pub trait Machine: Sized {
    /// What the operation gives when it succeeds.
    type Value;

    /// What the operation gives when it fails.
    type Error;

    /// The step that `reply` leads to from this state.
    spec fn after(self, reply: ReplyView) -> Plan<Self, Self::Value, Self::Error>;
}

/// How an operation that stands at `plan` ends when every request is answered
/// from `world`, if it ends within `fuel` requests.
pub open spec fn run<M: Machine>(
    plan: Plan<M, M::Value, M::Error>,
    world: Snapshot,
    fuel: nat,
) -> Option<Result<M::Value, M::Error>>
    decreases fuel,
{
    match plan {
        Plan::Done(value) => Some(Ok(value)),
        Plan::Fail(error) => Some(Err(error)),
        Plan::Ask(state, request) => if fuel == 0 {
            None
        } else {
            run(state.after(world.answer(request)), world, (fuel - 1) as nat)
        },
    }
}

/// Whether an operation that stands at `plan` only looks for as long as it
/// runs, up to `fuel` requests that are answered from `world`: it asks for
/// nothing that can change anything on the machine.
pub open spec fn only_looks<M: Machine>(
    plan: Plan<M, M::Value, M::Error>,
    world: Snapshot,
    fuel: nat,
) -> bool
    decreases fuel,
{
    match plan {
        Plan::Ask(state, request) => fuel == 0 || (!request.changes_something() && only_looks(
            state.after(world.answer(request)),
            world,
            (fuel - 1) as nat,
        )),
        _ => true,
    }
}

} // verus!
