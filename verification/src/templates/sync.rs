//! Bringing the clones of the git-hosted templates up to date.

use vstd::prelude::*;
use vstd::string::*;

use crate::config::Template;
use crate::host::{Machine, Plan, Reply, ReplyView, Request, RequestView, Step};
use crate::templates::validate::{
    sweep, validate_templates, Stage, Sweep, SweepPlan, SweepStep, ValidateError,
    ValidateErrorView,
};
use crate::templates::{clone_directory, clone_root, TemplatePaths};
use crate::text::{trim, trimmed};

verus! {

/// Why the clones were not brought up to date.
#[derive(Debug, Clone, PartialEq, Eq)]
pub enum SyncError {
    /// Git could not be run; the text says why.
    IO(String),
    /// Git ran and reported a failure.
    Git(String),
    /// The clones are up to date, and a template in them is not sound.
    Validate(ValidateError),
}

/// What a [`SyncError`] holds, with every text as the sequence of its characters.
pub enum SyncErrorView {
    IO(Seq<char>),
    Git(Seq<char>),
    Validate(ValidateErrorView),
}

impl View for SyncError {
    type V = SyncErrorView;

    open spec fn view(&self) -> SyncErrorView {
        match self {
            SyncError::IO(cause) => SyncErrorView::IO(cause@),
            SyncError::Git(message) => SyncErrorView::Git(message@),
            SyncError::Validate(error) => SyncErrorView::Validate(error@),
        }
    }
}

impl SyncErrorView {
    /// The error in words.
    pub open spec fn message(self) -> Seq<char> {
        match self {
            SyncErrorView::IO(cause) => "IO error: "@ + cause,
            SyncErrorView::Git(message) => "Git error: "@ + message,
            SyncErrorView::Validate(error) =>
                "post-sync template validation detected an issue: "@ + error.message(),
        }
    }
}

impl SyncError {
    /// The error in words.
    pub fn message(&self) -> (text: String)
        ensures
            text@ == self@.message(),
    {
        match self {
            SyncError::IO(cause) => String::from_str("IO error: ").concat(cause.as_str()),
            SyncError::Git(message) => String::from_str("Git error: ").concat(message.as_str()),
            SyncError::Validate(error) => String::from_str(
                "post-sync template validation detected an issue: ",
            ).concat(error.message().as_str()),
        }
    }
}

/// What git is said to have failed at: `action` is what it was to do with
/// the repository of `template`.
pub open spec fn git_failure(action: Seq<char>, template: &Template) -> Seq<char> {
    "could not "@ + action + " git repo ("@ + template.git.repository@ + ") of template "@
        + template.id@
}

fn git_failure_text(action: &str, template: &Template) -> (text: String)
    ensures
        text@ == git_failure(action@, template),
{
    String::from_str("could not ").concat(action).concat(" git repo (").concat(
        template.git.repository.as_str(),
    ).concat(") of template ").concat(template.id.as_str())
}

/// Whether what a pull wrote says that there was nothing to bring in: apart
/// from white space around it, it is the sentence `Already up to date.`.
pub fn pull_changed_nothing(output: &str) -> (nothing: bool)
    ensures
        nothing == (trimmed(output@) == "Already up to date."@),
{
    trim(output) == String::from_str("Already up to date.")
}

/// What the synchronisation has yet to learn or do next for the template at
/// its cursor.
#[derive(Debug, Clone, Copy, PartialEq, Eq)]
pub enum SyncPhase {
    /// Whether the clone exists.
    Probe,
    /// Clone the repository.
    Clone,
    /// Pull in the clone.
    Pull,
    /// The validation that follows the synchronisation, at this stage.
    Validate(Stage),
}

/// The synchronisation of a registry, waiting for a reply.
#[derive(Debug, Clone, Copy, PartialEq, Eq)]
pub struct Sync<'a> {
    pub templates: &'a Vec<Template>,
    pub roots: &'a TemplatePaths,
    pub cursor: usize,
    pub phase: SyncPhase,
}

impl<'a> View for Sync<'a> {
    type V = Sync<'a>;

    open spec fn view(&self) -> Sync<'a> {
        *self
    }
}

/// A step of the synchronisation of a registry, by its view.
pub type SyncPlan<'a> = Plan<Sync<'a>, (), SyncErrorView>;

/// A step of the synchronisation of a registry.
pub type SyncStep<'a> = Step<Sync<'a>, (), SyncError>;

/// The step of the synchronisation that the step `plan` of the closing
/// validation amounts to.
pub open spec fn checking<'a>(plan: SweepPlan<'a>) -> SyncPlan<'a> {
    match plan {
        Plan::Ask(state, request) => Plan::Ask(
            Sync {
                templates: state.templates,
                roots: state.roots,
                cursor: state.cursor,
                phase: SyncPhase::Validate(state.stage),
            },
            request,
        ),
        Plan::Done(_) => Plan::Done(()),
        Plan::Fail(error) => Plan::Fail(SyncErrorView::Validate(error)),
    }
}

/// The step that synchronising the git-hosted templates from position `from`
/// on begins with: the first of them is asked for its clone, and with none
/// left the templates are validated.
pub open spec fn syncing<'a>(
    templates: &'a Vec<Template>,
    roots: &'a TemplatePaths,
    from: int,
) -> SyncPlan<'a>
    decreases templates@.len() - from,
{
    if from < 0 || from >= templates@.len() {
        checking(sweep(templates, roots, 0))
    } else if !templates@[from].is_git() {
        syncing(templates, roots, from + 1)
    } else {
        let state = Sync { templates, roots, cursor: from as usize, phase: SyncPhase::Probe };
        Plan::Ask(state, state.request())
    }
}

impl<'a> Sync<'a> {
    /// The template at the cursor.
    pub open spec fn template(self) -> &'a Template {
        &self.templates@[self.cursor as int]
    }

    /// What is asked of git or of the disk in this phase.
    pub open spec fn request(self) -> RequestView {
        let root = clone_root(self.template(), self.roots);
        match self.phase {
            SyncPhase::Probe => RequestView::Exists { path: root },
            SyncPhase::Clone => RequestView::GitClone {
                repository: self.template().git.repository@,
                target: root,
            },
            SyncPhase::Pull => RequestView::GitPull { directory: root },
            SyncPhase::Validate(stage) => (Sweep {
                templates: self.templates,
                roots: self.roots,
                cursor: self.cursor,
                stage,
            }).current().request(),
        }
    }

    /// The step that asks what `phase` has to learn or do.
    pub open spec fn at(self, phase: SyncPhase) -> SyncPlan<'a> {
        let next = Sync { phase, ..self };
        Plan::Ask(next, next.request())
    }

    /// The step that the end of a git command leads to: after a success the
    /// next template is taken up; a failure that git reports and a failure
    /// to run git both end the synchronisation.
    pub open spec fn ran(self, action: Seq<char>, reply: ReplyView) -> SyncPlan<'a> {
        match reply {
            ReplyView::Exited { success: true, output } => syncing(
                self.templates,
                self.roots,
                self.cursor + 1,
            ),
            ReplyView::Exited { success: false, output } => Plan::Fail(
                SyncErrorView::Git(git_failure(action, self.template())),
            ),
            ReplyView::Failed(cause) => Plan::Fail(SyncErrorView::IO(cause)),
            _ => self.at(self.phase),
        }
    }
}

impl<'a> Machine for Sync<'a> {
    type Value = ();

    type Error = SyncErrorView;

    /// The git-hosted templates are taken in the order of the registry. One
    /// without a clone is cloned, one with a clone is pulled, and the first
    /// failure ends the synchronisation. After the last, the templates are
    /// validated. A reply that does not answer the request is asked for
    /// again.
    open spec fn after(self, reply: ReplyView) -> SyncPlan<'a> {
        if let SyncPhase::Validate(stage) = self.phase {
            checking(
                (Sweep {
                    templates: self.templates,
                    roots: self.roots,
                    cursor: self.cursor,
                    stage,
                }).after(reply),
            )
        } else if self.cursor >= self.templates@.len() {
            syncing(self.templates, self.roots, self.cursor as int)
        } else {
            match self.phase {
                SyncPhase::Probe => match reply {
                    ReplyView::Exists(true) => self.at(SyncPhase::Pull),
                    ReplyView::Exists(false) => self.at(SyncPhase::Clone),
                    _ => self.at(self.phase),
                },
                SyncPhase::Clone => self.ran("clone"@, reply),
                _ => self.ran("pull from"@, reply),
            }
        }
    }
}

fn check<'a>(step: SweepStep<'a>) -> (checked: SyncStep<'a>)
    ensures
        checked@ == checking(step@),
{
    match step {
        Step::Ask(state, request) => Step::Ask(
            Sync {
                templates: state.templates,
                roots: state.roots,
                cursor: state.cursor,
                phase: SyncPhase::Validate(state.stage),
            },
            request,
        ),
        Step::Done(_) => Step::Done(()),
        Step::Fail(error) => Step::Fail(SyncError::Validate(error)),
    }
}

fn sync_from<'a>(templates: &'a Vec<Template>, roots: &'a TemplatePaths, from: usize) -> (step:
    SyncStep<'a>)
    ensures
        step@ == syncing(templates, roots, from as int),
{
    let mut i: usize = from;
    while i < templates.len()
        invariant
            from <= i,
            syncing(templates, roots, i as int) == syncing(templates, roots, from as int),
        decreases templates.len() - i,
    {
        if templates[i].uses_git() {
            let state = Sync { templates, roots, cursor: i, phase: SyncPhase::Probe };
            return state.go(SyncPhase::Probe);
        }
        i += 1;
    }
    check(validate_templates(templates, roots))
}

/// Begins the synchronisation of the git-hosted templates of a registry.
pub fn sync_git<'a>(templates: &'a Vec<Template>, roots: &'a TemplatePaths) -> (step: SyncStep<'a>)
    ensures
        step@ == syncing(templates, roots, 0),
{
    sync_from(templates, roots, 0)
}

impl<'a> Sync<'a> {
    fn go(self, phase: SyncPhase) -> (step: SyncStep<'a>)
        requires
            self.cursor < self.templates@.len(),
            !(phase is Validate),
        ensures
            step@ == self.at(phase),
    {
        let template = &self.templates[self.cursor];
        let root = clone_directory(template, self.roots);
        let request = match phase {
            SyncPhase::Probe => Request::Exists { path: root },
            SyncPhase::Clone => Request::GitClone {
                repository: template.git.repository.clone(),
                target: root,
            },
            _ => Request::GitPull { directory: root },
        };
        Step::Ask(Sync { phase, ..self }, request)
    }

    fn finish(self, action: &str, reply: Reply) -> (step: SyncStep<'a>)
        requires
            self.cursor < self.templates@.len(),
            !(self.phase is Validate),
        ensures
            step@ == self.ran(action@, reply@),
    {
        assert(self.templates@.len() == self.templates.len());
        match reply {
            Reply::Exited { success: true, output } => sync_from(
                self.templates,
                self.roots,
                self.cursor + 1,
            ),
            Reply::Exited { success: false, output } => Step::Fail(
                SyncError::Git(git_failure_text(action, &self.templates[self.cursor])),
            ),
            Reply::Failed(cause) => Step::Fail(SyncError::IO(cause)),
            _ => self.go(self.phase),
        }
    }

    /// Takes the reply to the request that came with this state.
    pub fn advance(self, reply: Reply) -> (step: SyncStep<'a>)
        ensures
            step@ == self.after(reply@),
    {
        if let SyncPhase::Validate(stage) = self.phase {
            let inner = Sweep {
                templates: self.templates,
                roots: self.roots,
                cursor: self.cursor,
                stage,
            };
            return check(inner.advance(reply));
        }
        if self.cursor >= self.templates.len() {
            return sync_from(self.templates, self.roots, self.cursor);
        }
        match self.phase {
            SyncPhase::Probe => match reply {
                Reply::Exists(true) => self.go(SyncPhase::Pull),
                Reply::Exists(false) => self.go(SyncPhase::Clone),
                _ => self.go(self.phase),
            },
            SyncPhase::Clone => self.finish("clone", reply),
            _ => self.finish("pull from", reply),
        }
    }
}

} // verus!
