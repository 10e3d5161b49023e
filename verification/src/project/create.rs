//! The steps by which a project is made.

use vstd::prelude::*;
use vstd::string::*;

use crate::config::Template;
use crate::host::{
    entries_view, only_looks, run, DirEntry, DirEntryView, Machine, Plan, Reply, ReplyView,
    Request, RequestView, Snapshot, Step,
};
use crate::path::{join, joined};
use crate::project::{
    keys, lemma_substitution_leaves_no_placeholder, project_path, sanitize, substitute,
    substituted, Created, CreatedView, Error, ErrorView,
};
use crate::templates::validate::{
    fallback_marker, fallback_marker_path, lemma_validation_ends, missing_key, outcome,
    primary_marker, primary_marker_path, validation, Stage, Validation, ValidationPlan,
    ValidationStep, ValidateErrorView, AUTHOR_KEY, SUBTITLE_KEY, TITLE_KEY,
};
use crate::text::{occurs_in, words_apart};
use crate::templates::{
    content_path, find_position, position_of, resolve, ContentDirectoryView, TemplatePaths,
};

verus! {

/// What the making of a project has yet to learn or do next.
#[derive(Debug, Clone, Copy, PartialEq, Eq)]
pub enum Phase {
    /// Whether the destination exists.
    Destination,
    /// The validation of the template, at this stage.
    Validating(Stage),
    /// Create the directory of the current job.
    MakeDir,
    /// List the directory of the current job.
    ListDir,
    /// Copy the file of the current job.
    CopyFile,
    /// Whether the copy holds `preamble/config.tex`.
    PrimaryMarker,
    /// Whether the copy holds `main.tex`.
    FallbackMarker,
    /// What `preamble/config.tex` of the copy holds.
    PrimaryText,
    /// What `main.tex` of the copy holds.
    FallbackText,
    /// Write `preamble/config.tex` of the copy.
    WritePrimary,
    /// Write `main.tex` of the copy.
    WriteFallback,
}

/// Something to copy: the file or directory `from`, to `to`.
#[derive(Debug, Clone, PartialEq, Eq)]
pub struct Job {
    pub from: String,
    pub to: String,
    pub is_dir: bool,
}

/// What a [`Job`] holds, with every text as the sequence of its characters.
pub struct JobView {
    pub from: Seq<char>,
    pub to: Seq<char>,
    pub is_dir: bool,
}

impl View for Job {
    type V = JobView;

    open spec fn view(&self) -> JobView {
        JobView { from: self.from@, to: self.to@, is_dir: self.is_dir }
    }
}

/// The jobs of a list, each by its view.
pub open spec fn jobs_view(jobs: Seq<Job>) -> Seq<JobView> {
    Seq::new(jobs.len(), |i: int| jobs[i]@)
}

/// The job that copies the entry `entry` of the directory of `parent`.
pub open spec fn child(parent: JobView, entry: DirEntryView) -> JobView {
    JobView {
        from: joined(parent.from, entry.name),
        to: joined(parent.to, entry.name),
        is_dir: entry.is_dir,
    }
}

/// The jobs that copy the entries of the directory of `parent`, the job of
/// the first entry last.
pub open spec fn children(parent: JobView, entries: Seq<DirEntryView>) -> Seq<JobView> {
    Seq::new(entries.len(), |i: int| child(parent, entries[entries.len() - 1 - i]))
}

/// The making of a project, waiting for a reply.
#[derive(Debug, Clone, PartialEq, Eq)]
pub struct Creation<'a> {
    /// The template that the project is made from.
    pub template: &'a Template,
    pub roots: &'a TemplatePaths,
    pub title: &'a str,
    pub subtitle: &'a str,
    pub author: &'a str,
    /// The directory of the project.
    pub destination: String,
    pub phase: Phase,
    /// The job at hand while the template is copied.
    pub current: Job,
    /// The jobs that wait, the next one last.
    pub pending: Vec<Job>,
}

/// What a [`Creation`] holds, with every text as the sequence of its characters.
pub struct CreationView<'a> {
    pub template: &'a Template,
    pub roots: &'a TemplatePaths,
    pub title: Seq<char>,
    pub subtitle: Seq<char>,
    pub author: Seq<char>,
    pub destination: Seq<char>,
    pub phase: Phase,
    pub current: JobView,
    pub pending: Seq<JobView>,
}

impl<'a> View for Creation<'a> {
    type V = CreationView<'a>;

    open spec fn view(&self) -> CreationView<'a> {
        CreationView {
            template: self.template,
            roots: self.roots,
            title: self.title@,
            subtitle: self.subtitle@,
            author: self.author@,
            destination: self.destination@,
            phase: self.phase,
            current: self.current@,
            pending: jobs_view(self.pending@),
        }
    }
}

/// A step of the making of a project, by its view.
pub type CreationPlan<'a> = Plan<CreationView<'a>, CreatedView, ErrorView>;

/// A step of the making of a project.
pub type CreationStep<'a> = Step<Creation<'a>, Created, Error>;

impl<'a> CreationView<'a> {
    /// This state in another phase.
    pub open spec fn with(self, phase: Phase) -> CreationView<'a> {
        CreationView { phase, ..self }
    }

    /// The validation of the template at `stage`.
    pub open spec fn validation_at(self, stage: Stage) -> Validation<'a> {
        Validation { template: self.template, roots: self.roots, stage }
    }

    /// What is asked in this phase. In the two phases that write, it is
    /// what is asked in the phase that reads before them: what to write is
    /// known only from the text that was read.
    pub open spec fn request(self) -> RequestView {
        match self.phase {
            Phase::Destination => RequestView::Exists { path: self.destination },
            Phase::Validating(stage) => self.validation_at(stage).request(),
            Phase::MakeDir => RequestView::CreateDir { path: self.current.to },
            Phase::ListDir => RequestView::ListDir { path: self.current.from },
            Phase::CopyFile => RequestView::CopyFile {
                from: self.current.from,
                to: self.current.to,
            },
            Phase::PrimaryMarker => RequestView::Exists {
                path: primary_marker(self.destination),
            },
            Phase::FallbackMarker => RequestView::Exists {
                path: fallback_marker(self.destination),
            },
            Phase::PrimaryText | Phase::WritePrimary => RequestView::ReadText {
                path: primary_marker(self.destination),
            },
            Phase::FallbackText | Phase::WriteFallback => RequestView::ReadText {
                path: fallback_marker(self.destination),
            },
        }
    }

    /// The step that asks what `phase` has to learn or do.
    pub open spec fn at(self, phase: Phase) -> CreationPlan<'a> {
        Plan::Ask(self.with(phase), self.with(phase).request())
    }

    /// The step that the step `plan` of the validation amounts to: a request
    /// is passed on, a failure ends the making, and for a sound template the
    /// copying begins with the directory of the project.
    pub open spec fn validating(self, plan: ValidationPlan<'a>) -> CreationPlan<'a> {
        match plan {
            Plan::Ask(state, request) => Plan::Ask(
                self.with(Phase::Validating(state.stage)),
                request,
            ),
            Plan::Fail(error) => Plan::Fail(ErrorView::Validate(error)),
            Plan::Done(_) => self.at(Phase::MakeDir),
        }
    }

    /// The step after a job is done: the job that waited last is taken up,
    /// and with none waiting the copy is searched for its marker file.
    pub open spec fn next_job(self) -> CreationPlan<'a> {
        if self.pending.len() == 0 {
            self.at(Phase::PrimaryMarker)
        } else {
            let next = CreationView {
                current: self.pending.last(),
                pending: self.pending.drop_last(),
                ..self
            };
            if next.current.is_dir {
                next.at(Phase::MakeDir)
            } else {
                next.at(Phase::CopyFile)
            }
        }
    }

    /// The step that the reply to reading the marker file `marker` leads
    /// to: the text is written back with the placeholders replaced.
    pub open spec fn rewriting(self, write: Phase, marker: Seq<char>, reply: ReplyView)
        -> CreationPlan<'a> {
        match reply {
            ReplyView::Text(text) => Plan::Ask(
                self.with(write),
                RequestView::WriteText {
                    path: marker,
                    text: substituted(text, self.title, self.subtitle, self.author),
                },
            ),
            ReplyView::Failed(cause) => Plan::Fail(
                ErrorView::MarkerReadFailed { path: marker, cause },
            ),
            _ => self.at(self.phase),
        }
    }

    /// The step that the reply to writing the marker file `marker` leads
    /// to. A reply that does not answer lets the file be read again.
    pub open spec fn written(self, read: Phase, marker: Seq<char>, reply: ReplyView)
        -> CreationPlan<'a> {
        match reply {
            ReplyView::Done => Plan::Done(
                CreatedView { path: self.destination, marker: Some(marker) },
            ),
            ReplyView::Failed(cause) => Plan::Fail(
                ErrorView::SubstitutionWriteFailed { path: marker, cause },
            ),
            _ => self.at(read),
        }
    }
}

impl<'a> Machine for CreationView<'a> {
    type Value = CreatedView;

    type Error = ErrorView;

    /// The making goes through these in order, and the first failure ends
    /// it: the destination does not exist; the template is sound; the
    /// content directory is copied, each directory being created and listed
    /// before its entries are copied, the entries in the order of the
    /// listing; the marker file of the copy is read and written back with
    /// the placeholders replaced. Nothing is removed after a failure. A copy
    /// without a marker file is a project in which nothing is replaced. A
    /// reply that does not answer the request is asked for again.
    open spec fn after(self, reply: ReplyView) -> CreationPlan<'a> {
        match self.phase {
            Phase::Destination => match reply {
                ReplyView::Exists(true) => Plan::Fail(
                    ErrorView::DestinationExists(self.destination),
                ),
                ReplyView::Exists(false) => self.validating(validation(self.template, self.roots)),
                _ => self.at(self.phase),
            },
            Phase::Validating(stage) => self.validating(self.validation_at(stage).after(reply)),
            Phase::MakeDir => match reply {
                ReplyView::Done => self.at(Phase::ListDir),
                ReplyView::Failed(cause) => Plan::Fail(
                    ErrorView::CopyFailed { path: self.current.to, cause },
                ),
                _ => self.at(self.phase),
            },
            Phase::ListDir => match reply {
                ReplyView::Entries(entries) => (CreationView {
                    pending: self.pending + children(self.current, entries),
                    ..self
                }).next_job(),
                ReplyView::Failed(cause) => Plan::Fail(
                    ErrorView::CopyFailed { path: self.current.from, cause },
                ),
                _ => self.at(self.phase),
            },
            Phase::CopyFile => match reply {
                ReplyView::Done => self.next_job(),
                ReplyView::Failed(cause) => Plan::Fail(
                    ErrorView::CopyFailed { path: self.current.to, cause },
                ),
                _ => self.at(self.phase),
            },
            Phase::PrimaryMarker => match reply {
                ReplyView::Exists(true) => self.at(Phase::PrimaryText),
                ReplyView::Exists(false) => self.at(Phase::FallbackMarker),
                _ => self.at(self.phase),
            },
            Phase::FallbackMarker => match reply {
                ReplyView::Exists(true) => self.at(Phase::FallbackText),
                ReplyView::Exists(false) => Plan::Done(
                    CreatedView { path: self.destination, marker: None },
                ),
                _ => self.at(self.phase),
            },
            Phase::PrimaryText => self.rewriting(
                Phase::WritePrimary,
                primary_marker(self.destination),
                reply,
            ),
            Phase::FallbackText => self.rewriting(
                Phase::WriteFallback,
                fallback_marker(self.destination),
                reply,
            ),
            Phase::WritePrimary => self.written(
                Phase::PrimaryText,
                primary_marker(self.destination),
                reply,
            ),
            Phase::WriteFallback => self.written(
                Phase::FallbackText,
                fallback_marker(self.destination),
                reply,
            ),
        }
    }
}

/// The first step of making a project.
///
/// Without templates there is nothing to make it from. The template is the
/// one named, or the first of the registry where none is named; a name that
/// no template has is unknown. The subtitle is the title where none is given.
/// The project goes to the directory of its title below `destination`, and
/// the first thing asked is whether that exists.
pub open spec fn creation<'a>(
    templates: &'a Vec<Template>,
    template_id: Option<Seq<char>>,
    title: &'a str,
    author: &'a str,
    subtitle: Option<&'a str>,
    roots: &'a TemplatePaths,
    destination: Seq<char>,
) -> CreationPlan<'a> {
    if templates@.len() == 0 {
        Plan::Fail(ErrorView::NoTemplates)
    } else {
        let id = match template_id {
            Some(id) => id,
            None => templates@[0].id@,
        };
        match position_of(templates@, id) {
            None => Plan::Fail(ErrorView::UnknownTemplate(id)),
            Some(i) => {
                let path = project_path(destination, title@);
                (CreationView {
                    template: &templates@[i],
                    roots,
                    title: title@,
                    subtitle: match subtitle {
                        Some(subtitle) => subtitle@,
                        None => title@,
                    },
                    author: author@,
                    destination: path,
                    phase: Phase::Destination,
                    current: JobView {
                        from: content_path(&templates@[i], roots),
                        to: path,
                        is_dir: true,
                    },
                    pending: Seq::empty(),
                }).at(Phase::Destination)
            },
        }
    }
}

impl<'a> Creation<'a> {
    /// The request of this phase.
    pub fn ask(&self) -> (request: Request)
        ensures
            request@ == self@.request(),
    {
        match self.phase {
            Phase::Destination => Request::Exists { path: self.destination.clone() },
            Phase::Validating(stage) => {
                let inner = Validation { template: self.template, roots: self.roots, stage };
                inner.ask()
            },
            Phase::MakeDir => Request::CreateDir { path: self.current.to.clone() },
            Phase::ListDir => Request::ListDir { path: self.current.from.clone() },
            Phase::CopyFile => Request::CopyFile {
                from: self.current.from.clone(),
                to: self.current.to.clone(),
            },
            Phase::PrimaryMarker => Request::Exists {
                path: primary_marker_path(self.destination.as_str()),
            },
            Phase::FallbackMarker => Request::Exists {
                path: fallback_marker_path(self.destination.as_str()),
            },
            Phase::PrimaryText | Phase::WritePrimary => Request::ReadText {
                path: primary_marker_path(self.destination.as_str()),
            },
            Phase::FallbackText | Phase::WriteFallback => Request::ReadText {
                path: fallback_marker_path(self.destination.as_str()),
            },
        }
    }

    fn go(self, phase: Phase) -> (step: CreationStep<'a>)
        ensures
            step@ == self@.at(phase),
    {
        let next = Creation { phase, ..self };
        let request = next.ask();
        Step::Ask(next, request)
    }

    fn lift(self, step: ValidationStep<'a>) -> (lifted: CreationStep<'a>)
        ensures
            lifted@ == self@.validating(step@),
    {
        match step {
            Step::Ask(state, request) => Step::Ask(
                Creation { phase: Phase::Validating(state.stage), ..self },
                request,
            ),
            Step::Fail(error) => Step::Fail(Error::Validate(error)),
            Step::Done(_) => self.go(Phase::MakeDir),
        }
    }

    fn take_next(self) -> (step: CreationStep<'a>)
        ensures
            step@ == self@.next_job(),
    {
        let mut this = self;
        let ghost before = this.pending@;
        match this.pending.pop() {
            None => this.go(Phase::PrimaryMarker),
            Some(job) => {
                assert(jobs_view(this.pending@) =~= jobs_view(before).drop_last());
                assert(job@ == jobs_view(before).last());
                let is_dir = job.is_dir;
                this.current = job;
                if is_dir {
                    this.go(Phase::MakeDir)
                } else {
                    this.go(Phase::CopyFile)
                }
            },
        }
    }

    fn queue(self, entries: &Vec<DirEntry>) -> (queued: Creation<'a>)
        ensures
            queued@ == (CreationView {
                pending: self@.pending + children(self@.current, entries_view(entries@)),
                ..self@
            }),
    {
        let mut this = self;
        let ghost before = jobs_view(this.pending@);
        let ghost all = children(this.current@, entries_view(entries@));
        let mut k: usize = entries.len();
        assert(jobs_view(this.pending@) =~= before + all.take(0));
        while k > 0
            invariant
                k <= entries.len(),
                this@ == (CreationView {
                    pending: before + all.take(entries.len() - k),
                    ..self@
                }),
                all == children(self@.current, entries_view(entries@)),
            decreases k,
        {
            k -= 1;
            let entry = &entries[k];
            let job = Job {
                from: join(this.current.from.as_str(), entry.name.as_str()),
                to: join(this.current.to.as_str(), entry.name.as_str()),
                is_dir: entry.is_dir,
            };
            let ghost pending = this.pending@;
            this.pending.push(job);
            proof {
                let n = entries.len() - k;
                assert(entries_view(entries@)[k as int] == entry@);
                assert(job@ == all[n - 1]);
                assert(all.take(n as int) =~= all.take(n - 1).push(all[n - 1]));
                assert(jobs_view(this.pending@) =~= jobs_view(pending).push(job@));
                assert(jobs_view(this.pending@) =~= before + all.take(n as int));
            }
        }
        assert(all.take(entries.len() as int) =~= all);
        this
    }

    fn rewrite(self, write: Phase, marker: String, reply: Reply) -> (step: CreationStep<'a>)
        ensures
            step@ == self@.rewriting(write, marker@, reply@),
    {
        match reply {
            Reply::Text(text) => {
                let text = substitute(text.as_str(), self.title, self.subtitle, self.author);
                Step::Ask(Creation { phase: write, ..self }, Request::WriteText { path: marker, text })
            },
            Reply::Failed(cause) => Step::Fail(Error::MarkerReadFailed { path: marker, cause }),
            _ => {
                let phase = self.phase;
                self.go(phase)
            },
        }
    }

    fn finish(self, read: Phase, marker: String, reply: Reply) -> (step: CreationStep<'a>)
        ensures
            step@ == self@.written(read, marker@, reply@),
    {
        match reply {
            Reply::Done => Step::Done(Created { path: self.destination, marker: Some(marker) }),
            Reply::Failed(cause) => Step::Fail(
                Error::SubstitutionWriteFailed { path: marker, cause },
            ),
            _ => self.go(read),
        }
    }

    /// Takes the reply to the request that came with this state.
    pub fn advance(self, reply: Reply) -> (step: CreationStep<'a>)
        ensures
            step@ == self@.after(reply@),
    {
        let phase = self.phase;
        match phase {
            Phase::Destination => match reply {
                Reply::Exists(true) => Step::Fail(Error::DestinationExists(self.destination)),
                Reply::Exists(false) => {
                    let first = self.template.validate(self.roots);
                    self.lift(first)
                },
                _ => self.go(phase),
            },
            Phase::Validating(stage) => {
                let inner = Validation { template: self.template, roots: self.roots, stage };
                let next = inner.advance(reply);
                self.lift(next)
            },
            Phase::MakeDir => match reply {
                Reply::Done => self.go(Phase::ListDir),
                Reply::Failed(cause) => Step::Fail(
                    Error::CopyFailed { path: self.current.to, cause },
                ),
                _ => self.go(phase),
            },
            Phase::ListDir => match reply {
                Reply::Entries(entries) => self.queue(&entries).take_next(),
                Reply::Failed(cause) => Step::Fail(
                    Error::CopyFailed { path: self.current.from, cause },
                ),
                _ => self.go(phase),
            },
            Phase::CopyFile => match reply {
                Reply::Done => self.take_next(),
                Reply::Failed(cause) => Step::Fail(
                    Error::CopyFailed { path: self.current.to, cause },
                ),
                _ => self.go(phase),
            },
            Phase::PrimaryMarker => match reply {
                Reply::Exists(true) => self.go(Phase::PrimaryText),
                Reply::Exists(false) => self.go(Phase::FallbackMarker),
                _ => self.go(phase),
            },
            Phase::FallbackMarker => match reply {
                Reply::Exists(true) => self.go(Phase::FallbackText),
                Reply::Exists(false) => Step::Done(
                    Created { path: self.destination, marker: None },
                ),
                _ => self.go(phase),
            },
            Phase::PrimaryText => {
                let marker = primary_marker_path(self.destination.as_str());
                self.rewrite(Phase::WritePrimary, marker, reply)
            },
            Phase::FallbackText => {
                let marker = fallback_marker_path(self.destination.as_str());
                self.rewrite(Phase::WriteFallback, marker, reply)
            },
            Phase::WritePrimary => {
                let marker = primary_marker_path(self.destination.as_str());
                self.finish(Phase::PrimaryText, marker, reply)
            },
            Phase::WriteFallback => {
                let marker = fallback_marker_path(self.destination.as_str());
                self.finish(Phase::FallbackText, marker, reply)
            },
        }
    }
}

/// Begins the making of a project with the title `title` from a template of
/// `templates`, below the directory `destination`.
pub fn create<'a>(
    templates: &'a Vec<Template>,
    template_id: Option<&str>,
    title: &'a str,
    author: &'a str,
    subtitle: Option<&'a str>,
    template_paths: &'a TemplatePaths,
    destination: &str,
) -> (step: CreationStep<'a>)
    ensures
        step@ == creation(
            templates,
            match template_id {
                Some(id) => Some(id@),
                None => None,
            },
            title,
            author,
            subtitle,
            template_paths,
            destination@,
        ),
{
    if templates.len() == 0 {
        return Step::Fail(Error::NoTemplates);
    }
    let id = match template_id {
        Some(id) => id,
        None => templates[0].id.as_str(),
    };
    let template = match find_position(templates, id) {
        Some(i) => &templates[i],
        None => {
            return Step::Fail(Error::UnknownTemplate(String::from_str(id)));
        },
    };
    let name = sanitize(title);
    let path = join(destination, name.as_str());
    let start = Creation {
        template,
        roots: template_paths,
        title,
        subtitle: match subtitle {
            Some(subtitle) => subtitle,
            None => title,
        },
        author,
        destination: path.clone(),
        phase: Phase::Destination,
        current: Job { from: resolve(template, template_paths).path, to: path, is_dir: true },
        pending: Vec::new(),
    };
    assert(jobs_view(start.pending@) =~= Seq::empty());
    start.go(Phase::Destination)
}

/// Where something exists already at the place of the project, the making
/// ends with the first reply and says that the destination exists. The one
/// thing that it has asked by then is whether the destination exists, so
/// nothing was created, copied or written.
pub proof fn lemma_existing_destination_is_refused(
    templates: &Vec<Template>,
    template_id: Option<Seq<char>>,
    title: &str,
    author: &str,
    subtitle: Option<&str>,
    roots: &TemplatePaths,
    destination: Seq<char>,
    world: Snapshot,
)
    requires
        creation(templates, template_id, title, author, subtitle, roots, destination) is Ask,
        world.present.contains(project_path(destination, title@)),
    ensures
        creation(templates, template_id, title, author, subtitle, roots, destination) matches Plan::Ask(
            state,
            request,
        ) && request == (RequestView::Exists { path: project_path(destination, title@) })
            && !request.changes_something() && state.after(world.answer(request)) == Plan::<
            CreationView<'_>,
            CreatedView,
            ErrorView,
        >::Fail(ErrorView::DestinationExists(project_path(destination, title@))),
        run(
            creation(templates, template_id, title, author, subtitle, roots, destination),
            world,
            1,
        ) == Some(
            Err::<CreatedView, ErrorView>(
                ErrorView::DestinationExists(project_path(destination, title@)),
            ),
        ),
        only_looks(
            creation(templates, template_id, title, author, subtitle, roots, destination),
            world,
            1,
        ),
{
    reveal_with_fuel(run, 2);
    reveal_with_fuel(only_looks, 2);
}

proof fn lemma_failing_validation_runs(
    state: CreationView<'_>,
    plan: ValidationPlan<'_>,
    world: Snapshot,
    fuel: nat,
)
    requires
        plan matches Plan::Ask(inner, request) ==> inner.template == state.template && inner.roots
            == state.roots && request == inner.request(),
        run(plan, world, fuel) matches Some(Err(_)),
    ensures
        run(state.validating(plan), world, fuel) == Some(
            Err::<CreatedView, ErrorView>(ErrorView::Validate(run(plan, world, fuel)->0->Err_0)),
        ),
        only_looks(state.validating(plan), world, fuel),
    decreases fuel,
{
    match plan {
        Plan::Ask(inner, request) => {
            let waiting = state.with(Phase::Validating(inner.stage));
            assert(waiting.validation_at(inner.stage) == inner);
            let next = inner.after(world.answer(request));
            assert(waiting.after(world.answer(request)) == waiting.validating(next));
            lemma_failing_validation_runs(waiting, next, world, (fuel - 1) as nat);
        },
        _ => {},
    }
}

/// Where nothing exists at the place of the project and the template is not
/// sound, the making ends within six requests and fails with what is wrong
/// with the template. Every request until then only looks, so nothing was
/// created, copied or written.
pub proof fn lemma_unsound_template_is_refused(
    templates: &Vec<Template>,
    template_id: Option<Seq<char>>,
    title: &str,
    author: &str,
    subtitle: Option<&str>,
    roots: &TemplatePaths,
    destination: Seq<char>,
    world: Snapshot,
    error: ValidateErrorView,
)
    requires
        creation(templates, template_id, title, author, subtitle, roots, destination) matches Plan::Ask(
            state,
            _,
        ) && outcome(state.template, roots, world) == Err::<ContentDirectoryView, ValidateErrorView>(
            error,
        ),
        !world.present.contains(project_path(destination, title@)),
    ensures
        run(
            creation(templates, template_id, title, author, subtitle, roots, destination),
            world,
            6,
        ) == Some(Err::<CreatedView, ErrorView>(ErrorView::Validate(error))),
        only_looks(
            creation(templates, template_id, title, author, subtitle, roots, destination),
            world,
            6,
        ),
{
    let first = creation(templates, template_id, title, author, subtitle, roots, destination);
    let state = first->Ask_0;
    let request = first->Ask_1;
    lemma_validation_ends(state.template, roots, world);
    assert(state.after(world.answer(request)) == state.validating(
        validation(state.template, roots),
    ));
    lemma_failing_validation_runs(state, validation(state.template, roots), world, 5);
    assert(run(first, world, 6) == run(state.after(world.answer(request)), world, 5));
    assert(only_looks(first, world, 6) == only_looks(
        state.after(world.answer(request)),
        world,
        5,
    ));
}

/// What is written back to the marker file of a new project, where the
/// marker file holds `text`: none, where the making does not write then.
pub open spec fn rewritten(state: CreationView<'_>, text: Seq<char>) -> Option<Seq<char>> {
    match state.after(ReplyView::Text(text)) {
        Plan::Ask(_, RequestView::WriteText { path, text }) => Some(text),
        _ => None,
    }
}

/// The marker file of a new project is written back with the title, the
/// subtitle and the author in the place of their placeholders. Where the
/// marker file of the template holds the three placeholders, each between
/// characters that are neither capital letters nor underscores, and neither
/// the title, the subtitle nor the author holds `VITEX_`, what is written
/// holds the title and the author and none of the placeholders.
pub proof fn lemma_marker_is_rewritten(state: CreationView<'_>, text: Seq<char>)
    requires
        state.phase is PrimaryText || state.phase is FallbackText,
    ensures
        rewritten(state, text) == Some(
            substituted(text, state.title, state.subtitle, state.author),
        ),
        missing_key(text) is None && words_apart(text, keys()) && !occurs_in(
            state.title,
            "VITEX_"@,
        ) && !occurs_in(state.subtitle, "VITEX_"@) && !occurs_in(state.author, "VITEX_"@) ==> {
            let written = rewritten(state, text)->0;
            &&& occurs_in(written, state.title)
            &&& occurs_in(written, state.author)
            &&& !occurs_in(written, TITLE_KEY@)
            &&& !occurs_in(written, SUBTITLE_KEY@)
            &&& !occurs_in(written, AUTHOR_KEY@)
        },
{
    if words_apart(text, keys()) && !occurs_in(state.title, "VITEX_"@) && !occurs_in(
        state.subtitle,
        "VITEX_"@,
    ) && !occurs_in(state.author, "VITEX_"@) {
        lemma_substitution_leaves_no_placeholder(
            text,
            state.title,
            state.subtitle,
            state.author,
        );
    }
}

/// A project that is given no subtitle has its title for a subtitle.
pub proof fn lemma_subtitle_defaults_to_title(
    templates: &Vec<Template>,
    template_id: Option<Seq<char>>,
    title: &str,
    author: &str,
    roots: &TemplatePaths,
    destination: Seq<char>,
)
    ensures
        match creation(templates, template_id, title, author, None, roots, destination) {
            Plan::Ask(state, _) => state.title == title@ && state.subtitle == title@
                && state.author == author@,
            _ => true,
        },
{
}

} // verus!
