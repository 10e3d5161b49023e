//! Whether the files of a template are what a template needs.

use vstd::prelude::*;
use vstd::string::*;

use crate::config::Template;
use crate::host::{
    only_looks, run, Machine, Plan, Reply, ReplyView, Request, RequestView, Snapshot, Step,
};
use crate::path::{join, joined};
use crate::templates::{
    clone_directory, clone_root, content_path, resolve, ContentDirectory, ContentDirectoryView,
    TemplatePaths,
};
use crate::text::{contains, occurs_in};

verus! {

/// The placeholder for the title.
pub const TITLE_KEY: &'static str = "VITEX_TITLE_PLACEHOLDER";

/// The placeholder for the subtitle.
pub const SUBTITLE_KEY: &'static str = "VITEX_SUBTITLE_PLACEHOLDER";

/// The placeholder for the author.
pub const AUTHOR_KEY: &'static str = "VITEX_AUTHOR_PLACEHOLDER";

/// The three placeholders, in the order in which a marker file is searched
/// for them.
pub const REPLACE_KEYS: [&'static str; 3] = [TITLE_KEY, SUBTITLE_KEY, AUTHOR_KEY];

/// Why a template is refused.
#[derive(Debug, Clone, PartialEq, Eq)]
pub enum ValidateError {
    /// The template is git-hosted and has no clone yet.
    NotCloned(String),
    /// The directory of the local template does not exist.
    NotFoundLocally(String),
    /// The clone exists, but the path prefix does not lead to a directory
    /// inside it.
    InvalidPathPrefix { id: String, full_path: String },
    /// The template holds neither `preamble/config.tex` nor `main.tex`.
    MissingMarkerFile { id: String, full_path: String },
    /// The marker file could not be read.
    UnreadableMarkerFile { id: String, path: String, cause: String },
    /// The marker file lacks the placeholder `token`.
    MissingPlaceholder { id: String, token: String },
}

/// What a [`ValidateError`] holds, with every text as the sequence of its characters.
pub enum ValidateErrorView {
    NotCloned(Seq<char>),
    NotFoundLocally(Seq<char>),
    InvalidPathPrefix { id: Seq<char>, full_path: Seq<char> },
    MissingMarkerFile { id: Seq<char>, full_path: Seq<char> },
    UnreadableMarkerFile { id: Seq<char>, path: Seq<char>, cause: Seq<char> },
    MissingPlaceholder { id: Seq<char>, token: Seq<char> },
}

impl View for ValidateError {
    type V = ValidateErrorView;

    open spec fn view(&self) -> ValidateErrorView {
        match self {
            ValidateError::NotCloned(id) => ValidateErrorView::NotCloned(id@),
            ValidateError::NotFoundLocally(id) => ValidateErrorView::NotFoundLocally(id@),
            ValidateError::InvalidPathPrefix { id, full_path } =>
                ValidateErrorView::InvalidPathPrefix { id: id@, full_path: full_path@ },
            ValidateError::MissingMarkerFile { id, full_path } =>
                ValidateErrorView::MissingMarkerFile { id: id@, full_path: full_path@ },
            ValidateError::UnreadableMarkerFile { id, path, cause } =>
                ValidateErrorView::UnreadableMarkerFile { id: id@, path: path@, cause: cause@ },
            ValidateError::MissingPlaceholder { id, token } =>
                ValidateErrorView::MissingPlaceholder { id: id@, token: token@ },
        }
    }
}

impl ValidateErrorView {
    /// The error in words.
    pub open spec fn message(self) -> Seq<char> {
        match self {
            ValidateErrorView::MissingPlaceholder { id, token } => "Template `"@ + id
                + "` holds malformed config.tex or main.tex (at `preamble/config.tex` or `main.tex`):\nCould not find / replace key `"@
                + token + "`"@,
            ValidateErrorView::InvalidPathPrefix { id, full_path } =>
                "Invalid path-prefix for template `"@ + id
                + "`:\nPath prefix leads to nowhere (full path: `"@ + full_path + "`)"@,
            ValidateErrorView::MissingMarkerFile { id, full_path } => "Template `"@ + id
                + "` is missing the file `preable/config.tex` or `main.tex` (full path `"@
                + full_path + "`)"@,
            ValidateErrorView::UnreadableMarkerFile { id, path, cause } =>
                "Could not read file at `"@ + path + "` whilst validating template `"@ + id
                + "`:\n"@ + cause,
            ValidateErrorView::NotFoundLocally(id) => "Template `"@ + id
                + "` is set-up but not found locally:\nHINT: check if the template is present at the correct path"@,
            ValidateErrorView::NotCloned(id) => "Template `"@ + id
                + "` is set-up but not yet installed:\nHINT: run `vitex templates sync` to address this issue"@,
        }
    }
}

impl ValidateError {
    /// The error in words.
    pub fn message(&self) -> (text: String)
        ensures
            text@ == self@.message(),
    {
        match self {
            ValidateError::MissingPlaceholder { id, token } => String::from_str(
                "Template `",
            ).concat(id.as_str()).concat(
                "` holds malformed config.tex or main.tex (at `preamble/config.tex` or `main.tex`):\nCould not find / replace key `",
            ).concat(token.as_str()).concat("`"),
            ValidateError::InvalidPathPrefix { id, full_path } => String::from_str(
                "Invalid path-prefix for template `",
            ).concat(id.as_str()).concat(
                "`:\nPath prefix leads to nowhere (full path: `",
            ).concat(full_path.as_str()).concat("`)"),
            ValidateError::MissingMarkerFile { id, full_path } => String::from_str(
                "Template `",
            ).concat(id.as_str()).concat(
                "` is missing the file `preable/config.tex` or `main.tex` (full path `",
            ).concat(full_path.as_str()).concat("`)"),
            ValidateError::UnreadableMarkerFile { id, path, cause } => String::from_str(
                "Could not read file at `",
            ).concat(path.as_str()).concat("` whilst validating template `").concat(
                id.as_str(),
            ).concat("`:\n").concat(cause.as_str()),
            ValidateError::NotFoundLocally(id) => String::from_str("Template `").concat(
                id.as_str(),
            ).concat(
                "` is set-up but not found locally:\nHINT: check if the template is present at the correct path",
            ),
            ValidateError::NotCloned(id) => String::from_str("Template `").concat(
                id.as_str(),
            ).concat(
                "` is set-up but not yet installed:\nHINT: run `vitex templates sync` to address this issue",
            ),
        }
    }
}

/// The marker file that is looked for first: `preamble/config.tex` in the
/// content directory.
pub open spec fn primary_marker(content: Seq<char>) -> Seq<char> {
    joined(joined(content, "preamble"@), "config.tex"@)
}

/// The marker file that is looked for second: `main.tex` in the content
/// directory.
pub open spec fn fallback_marker(content: Seq<char>) -> Seq<char> {
    joined(content, "main.tex"@)
}

/// The first of the three placeholders that `text` lacks, if it lacks one.
pub open spec fn missing_key(text: Seq<char>) -> Option<Seq<char>> {
    if !occurs_in(text, TITLE_KEY@) {
        Some(TITLE_KEY@)
    } else if !occurs_in(text, SUBTITLE_KEY@) {
        Some(SUBTITLE_KEY@)
    } else if !occurs_in(text, AUTHOR_KEY@) {
        Some(AUTHOR_KEY@)
    } else {
        None
    }
}

/// The path of `preamble/config.tex` in the directory `content`.
pub fn primary_marker_path(content: &str) -> (path: String)
    ensures
        path@ == primary_marker(content@),
{
    let preamble = join(content, "preamble");
    join(preamble.as_str(), "config.tex")
}

/// The path of `main.tex` in the directory `content`.
pub fn fallback_marker_path(content: &str) -> (path: String)
    ensures
        path@ == fallback_marker(content@),
{
    join(content, "main.tex")
}

/// The first of the three placeholders that `text` lacks, if it lacks one.
pub fn first_missing_key(text: &str) -> (key: Option<&'static str>)
    ensures
        match missing_key(text@) {
            Some(expected) => key matches Some(k) && k@ == expected,
            None => key is None,
        },
{
    if !contains(text, TITLE_KEY) {
        Some(TITLE_KEY)
    } else if !contains(text, SUBTITLE_KEY) {
        Some(SUBTITLE_KEY)
    } else if !contains(text, AUTHOR_KEY) {
        Some(AUTHOR_KEY)
    } else {
        None
    }
}

/// What a validation has yet to learn next.
#[derive(Debug, Clone, Copy, PartialEq, Eq)]
pub enum Stage {
    /// Whether the clone of a git-hosted template exists.
    CloneRoot,
    /// Whether the content directory is there: for a git-hosted template,
    /// whether it is a directory; for a local one, whether it exists.
    ContentDir,
    /// Whether `preamble/config.tex` exists.
    PrimaryMarker,
    /// Whether `main.tex` exists.
    FallbackMarker,
    /// What `preamble/config.tex` holds.
    PrimaryText,
    /// What `main.tex` holds.
    FallbackText,
}

/// The validation of one template, waiting for a reply.
#[derive(Debug, Clone, Copy, PartialEq, Eq)]
pub struct Validation<'a> {
    pub template: &'a Template,
    pub roots: &'a TemplatePaths,
    pub stage: Stage,
}

impl<'a> View for Validation<'a> {
    type V = Validation<'a>;

    open spec fn view(&self) -> Validation<'a> {
        *self
    }
}

/// A step of the validation of a template, by its view.
pub type ValidationPlan<'a> = Plan<Validation<'a>, ContentDirectoryView, ValidateErrorView>;

/// A step of the validation of a template.
pub type ValidationStep<'a> = Step<Validation<'a>, ContentDirectory<'a>, ValidateError>;

impl<'a> Validation<'a> {
    /// The content directory of the template.
    pub open spec fn content(self) -> Seq<char> {
        content_path(self.template, self.roots)
    }

    /// What is asked at this stage.
    pub open spec fn request(self) -> RequestView {
        match self.stage {
            Stage::CloneRoot => RequestView::Exists {
                path: clone_root(self.template, self.roots),
            },
            Stage::ContentDir => if self.template.is_git() {
                RequestView::IsDir { path: self.content() }
            } else {
                RequestView::Exists { path: self.content() }
            },
            Stage::PrimaryMarker => RequestView::Exists { path: primary_marker(self.content()) },
            Stage::FallbackMarker => RequestView::Exists {
                path: fallback_marker(self.content()),
            },
            Stage::PrimaryText => RequestView::ReadText { path: primary_marker(self.content()) },
            Stage::FallbackText => RequestView::ReadText {
                path: fallback_marker(self.content()),
            },
        }
    }

    /// The step that asks what `stage` has to learn.
    pub open spec fn at(self, stage: Stage) -> ValidationPlan<'a> {
        let next = Validation { template: self.template, roots: self.roots, stage };
        Plan::Ask(next, next.request())
    }

    /// The step that the text of the marker file leads to: the template is
    /// sound if the text holds all three placeholders, and fails with the
    /// first that it lacks.
    pub open spec fn judged(self, text: Seq<char>) -> ValidationPlan<'a> {
        match missing_key(text) {
            Some(token) => Plan::Fail(
                ValidateErrorView::MissingPlaceholder { id: self.template.id@, token },
            ),
            None => Plan::Done(
                ContentDirectoryView { path: self.content(), template: *self.template },
            ),
        }
    }

    /// The step that the reply to reading the marker file `marker` leads to.
    pub open spec fn read(self, marker: Seq<char>, reply: ReplyView) -> ValidationPlan<'a> {
        match reply {
            ReplyView::Text(text) => self.judged(text),
            ReplyView::Failed(cause) => Plan::Fail(
                ValidateErrorView::UnreadableMarkerFile {
                    id: self.template.id@,
                    path: marker,
                    cause,
                },
            ),
            _ => self.at(self.stage),
        }
    }
}

impl<'a> Machine for Validation<'a> {
    type Value = ContentDirectoryView;

    type Error = ValidateErrorView;

    /// The checks come in a fixed order, and the first that fails ends the
    /// validation: the clone of a git-hosted template exists; the content
    /// directory of a git-hosted template is a directory, that of a local
    /// one exists; one of the two marker files exists, the primary one
    /// being preferred; the marker file can be read; it holds the three
    /// placeholders. A reply that does not answer the request is asked for
    /// again.
    open spec fn after(self, reply: ReplyView) -> ValidationPlan<'a> {
        let id = self.template.id@;
        match self.stage {
            Stage::CloneRoot => match reply {
                ReplyView::Exists(true) => self.at(Stage::ContentDir),
                ReplyView::Exists(false) => Plan::Fail(ValidateErrorView::NotCloned(id)),
                _ => self.at(self.stage),
            },
            Stage::ContentDir => match reply {
                ReplyView::Exists(true) => self.at(Stage::PrimaryMarker),
                ReplyView::Exists(false) => if self.template.is_git() {
                    Plan::Fail(
                        ValidateErrorView::InvalidPathPrefix { id, full_path: self.content() },
                    )
                } else {
                    Plan::Fail(ValidateErrorView::NotFoundLocally(id))
                },
                _ => self.at(self.stage),
            },
            Stage::PrimaryMarker => match reply {
                ReplyView::Exists(true) => self.at(Stage::PrimaryText),
                ReplyView::Exists(false) => self.at(Stage::FallbackMarker),
                _ => self.at(self.stage),
            },
            Stage::FallbackMarker => match reply {
                ReplyView::Exists(true) => self.at(Stage::FallbackText),
                ReplyView::Exists(false) => Plan::Fail(
                    ValidateErrorView::MissingMarkerFile {
                        id,
                        full_path: fallback_marker(self.content()),
                    },
                ),
                _ => self.at(self.stage),
            },
            Stage::PrimaryText => self.read(primary_marker(self.content()), reply),
            Stage::FallbackText => self.read(fallback_marker(self.content()), reply),
        }
    }
}

impl<'a> Validation<'a> {
    /// The request of this stage.
    pub fn ask(&self) -> (request: Request)
        ensures
            request@ == self.request(),
    {
        let content = resolve(self.template, self.roots).path;
        match self.stage {
            Stage::CloneRoot => Request::Exists {
                path: clone_directory(self.template, self.roots),
            },
            Stage::ContentDir => if self.template.uses_git() {
                Request::IsDir { path: content }
            } else {
                Request::Exists { path: content }
            },
            Stage::PrimaryMarker => Request::Exists {
                path: primary_marker_path(content.as_str()),
            },
            Stage::FallbackMarker => Request::Exists {
                path: fallback_marker_path(content.as_str()),
            },
            Stage::PrimaryText => Request::ReadText {
                path: primary_marker_path(content.as_str()),
            },
            Stage::FallbackText => Request::ReadText {
                path: fallback_marker_path(content.as_str()),
            },
        }
    }

    fn go(self, stage: Stage) -> (step: ValidationStep<'a>)
        ensures
            step@ == self.at(stage),
    {
        let next = Validation { template: self.template, roots: self.roots, stage };
        let request = next.ask();
        Step::Ask(next, request)
    }

    fn judge(self, text: &str) -> (step: ValidationStep<'a>)
        ensures
            step@ == self.judged(text@),
    {
        match first_missing_key(text) {
            Some(token) => Step::Fail(
                ValidateError::MissingPlaceholder {
                    id: self.template.id.clone(),
                    token: String::from_str(token),
                },
            ),
            None => Step::Done(resolve(self.template, self.roots)),
        }
    }

    fn take_text(self, marker: String, reply: Reply) -> (step: ValidationStep<'a>)
        ensures
            step@ == self.read(marker@, reply@),
    {
        match reply {
            Reply::Text(text) => self.judge(text.as_str()),
            Reply::Failed(cause) => Step::Fail(
                ValidateError::UnreadableMarkerFile {
                    id: self.template.id.clone(),
                    path: marker,
                    cause,
                },
            ),
            _ => self.go(self.stage),
        }
    }

    /// Takes the reply to the request that came with this state.
    pub fn advance(self, reply: Reply) -> (step: ValidationStep<'a>)
        ensures
            step@ == self.after(reply@),
    {
        let content = resolve(self.template, self.roots).path;
        match self.stage {
            Stage::CloneRoot => match reply {
                Reply::Exists(true) => self.go(Stage::ContentDir),
                Reply::Exists(false) => Step::Fail(
                    ValidateError::NotCloned(self.template.id.clone()),
                ),
                _ => self.go(self.stage),
            },
            Stage::ContentDir => match reply {
                Reply::Exists(true) => self.go(Stage::PrimaryMarker),
                Reply::Exists(false) => if self.template.uses_git() {
                    Step::Fail(
                        ValidateError::InvalidPathPrefix {
                            id: self.template.id.clone(),
                            full_path: content,
                        },
                    )
                } else {
                    Step::Fail(ValidateError::NotFoundLocally(self.template.id.clone()))
                },
                _ => self.go(self.stage),
            },
            Stage::PrimaryMarker => match reply {
                Reply::Exists(true) => self.go(Stage::PrimaryText),
                Reply::Exists(false) => self.go(Stage::FallbackMarker),
                _ => self.go(self.stage),
            },
            Stage::FallbackMarker => match reply {
                Reply::Exists(true) => self.go(Stage::FallbackText),
                Reply::Exists(false) => Step::Fail(
                    ValidateError::MissingMarkerFile {
                        id: self.template.id.clone(),
                        full_path: fallback_marker_path(content.as_str()),
                    },
                ),
                _ => self.go(self.stage),
            },
            Stage::PrimaryText => self.take_text(primary_marker_path(content.as_str()), reply),
            Stage::FallbackText => self.take_text(fallback_marker_path(content.as_str()), reply),
        }
    }
}

/// The first step of the validation of `template`: a git-hosted template is
/// asked for its clone, a local one for its content directory.
pub open spec fn validation<'a>(template: &'a Template, roots: &'a TemplatePaths) -> ValidationPlan<
    'a,
> {
    let start = Validation { template, roots, stage: Stage::ContentDir };
    if template.is_git() {
        start.at(Stage::CloneRoot)
    } else {
        start.at(Stage::ContentDir)
    }
}

impl Template {
    /// Begins the validation of this template under the storage roots
    /// `roots`. When it is done it gives the content directory, the same that
    /// [`resolve`] gives.
    pub fn validate<'a>(&'a self, roots: &'a TemplatePaths) -> (step: ValidationStep<'a>)
        ensures
            step@ == validation(self, roots),
    {
        let start = Validation { template: self, roots, stage: Stage::ContentDir };
        if self.uses_git() {
            start.go(Stage::CloneRoot)
        } else {
            start.go(Stage::ContentDir)
        }
    }
}

/// What the marker file `marker` of `template` says of the template on the
/// disk `world`.
pub open spec fn marker_outcome(
    template: &Template,
    roots: &TemplatePaths,
    marker: Seq<char>,
    world: Snapshot,
) -> Result<ContentDirectoryView, ValidateErrorView> {
    match world.read(marker) {
        Err(cause) => Err(
            ValidateErrorView::UnreadableMarkerFile { id: template.id@, path: marker, cause },
        ),
        Ok(text) => match missing_key(text) {
            Some(token) => Err(ValidateErrorView::MissingPlaceholder { id: template.id@, token }),
            None => Ok(
                ContentDirectoryView { path: content_path(template, roots), template: *template },
            ),
        },
    }
}

/// Whether the content directory of `template` is there on the disk
/// `world`: for a git-hosted template the clone exists and the content path is
/// a directory, for a local one the content path exists.
pub open spec fn content_found(template: &Template, roots: &TemplatePaths, world: Snapshot) -> bool {
    if template.is_git() {
        world.present.contains(clone_root(template, roots)) && world.dirs.contains(
            content_path(template, roots),
        )
    } else {
        world.present.contains(content_path(template, roots))
    }
}

/// Whether `template` is sound on the disk `world`, and if not, why.
pub open spec fn outcome(template: &Template, roots: &TemplatePaths, world: Snapshot) -> Result<
    ContentDirectoryView,
    ValidateErrorView,
> {
    let id = template.id@;
    let content = content_path(template, roots);
    if template.is_git() && !world.present.contains(clone_root(template, roots)) {
        Err(ValidateErrorView::NotCloned(id))
    } else if template.is_git() && !world.dirs.contains(content) {
        Err(ValidateErrorView::InvalidPathPrefix { id, full_path: content })
    } else if !template.is_git() && !world.present.contains(content) {
        Err(ValidateErrorView::NotFoundLocally(id))
    } else if world.present.contains(primary_marker(content)) {
        marker_outcome(template, roots, primary_marker(content), world)
    } else if world.present.contains(fallback_marker(content)) {
        marker_outcome(template, roots, fallback_marker(content), world)
    } else {
        Err(ValidateErrorView::MissingMarkerFile { id, full_path: fallback_marker(content) })
    }
}

/// On every disk, a caller that performs each request and hands back its
/// reply sees the validation of a template end within five requests, with
/// what [`outcome`] says of the template on that disk.
pub proof fn lemma_validation_ends(template: &Template, roots: &TemplatePaths, world: Snapshot)
    ensures
        run(validation(template, roots), world, 5) == Some(outcome(template, roots, world)),
{
    reveal_with_fuel(run, 6);
}

/// The validation of a template only looks: it asks whether paths exist and
/// what the marker file holds, and for nothing else.
pub proof fn lemma_validation_only_looks(
    template: &Template,
    roots: &TemplatePaths,
    world: Snapshot,
    fuel: nat,
)
    ensures
        only_looks(validation(template, roots), world, fuel),
{
    lemma_validation_goes_on_looking(validation(template, roots), world, fuel);
}

proof fn lemma_validation_goes_on_looking(plan: ValidationPlan<'_>, world: Snapshot, fuel: nat)
    requires
        plan matches Plan::Ask(state, request) ==> request == state.request(),
    ensures
        only_looks(plan, world, fuel),
    decreases fuel,
{
    if let Plan::Ask(state, request) = plan {
        if fuel > 0 {
            lemma_validation_goes_on_looking(
                state.after(world.answer(request)),
                world,
                (fuel - 1) as nat,
            );
        }
    }
}

/// A git-hosted template whose clone is absent is not cloned, whatever else
/// the disk holds: the validation ends with the first reply, so neither the
/// path prefix nor a marker file is looked at.
pub proof fn lemma_absent_clone_is_not_cloned(
    template: &Template,
    roots: &TemplatePaths,
    world: Snapshot,
)
    requires
        template.is_git(),
        !world.present.contains(clone_root(template, roots)),
    ensures
        run(validation(template, roots), world, 1) == Some(
            Err::<ContentDirectoryView, ValidateErrorView>(
                ValidateErrorView::NotCloned(template.id@),
            ),
        ),
        outcome(template, roots, world) == Err::<ContentDirectoryView, ValidateErrorView>(
            ValidateErrorView::NotCloned(template.id@),
        ),
{
    reveal_with_fuel(run, 2);
}

/// A git-hosted template whose clone is present and whose path prefix does
/// not lead to a directory inside it has an invalid path prefix, whether
/// nothing or a file stands there and whatever marker files the disk holds:
/// the validation ends with the second reply, so no marker file is looked at.
pub proof fn lemma_absent_prefix_is_invalid(
    template: &Template,
    roots: &TemplatePaths,
    world: Snapshot,
)
    requires
        template.is_git(),
        world.present.contains(clone_root(template, roots)),
        !world.dirs.contains(content_path(template, roots)),
    ensures
        run(validation(template, roots), world, 2) == Some(
            Err::<ContentDirectoryView, ValidateErrorView>(
                ValidateErrorView::InvalidPathPrefix {
                    id: template.id@,
                    full_path: content_path(template, roots),
                },
            ),
        ),
        outcome(template, roots, world) == Err::<ContentDirectoryView, ValidateErrorView>(
            ValidateErrorView::InvalidPathPrefix {
                id: template.id@,
                full_path: content_path(template, roots),
            },
        ),
{
    reveal_with_fuel(run, 3);
}

/// A template whose content directory holds `preamble/config.tex` with all
/// three placeholders is sound, whether `main.tex` is there or not and
/// whatever it holds.
pub proof fn lemma_primary_marker_decides(
    template: &Template,
    roots: &TemplatePaths,
    world: Snapshot,
    text: Seq<char>,
)
    requires
        content_found(template, roots, world),
        world.present.contains(primary_marker(content_path(template, roots))),
        world.read(primary_marker(content_path(template, roots))) == Ok::<Seq<char>, Seq<char>>(
            text,
        ),
        occurs_in(text, TITLE_KEY@),
        occurs_in(text, SUBTITLE_KEY@),
        occurs_in(text, AUTHOR_KEY@),
    ensures
        run(validation(template, roots), world, 5) == Some(
            Ok::<ContentDirectoryView, ValidateErrorView>(
                ContentDirectoryView { path: content_path(template, roots), template: *template },
            ),
        ),
        outcome(template, roots, world) == Ok::<ContentDirectoryView, ValidateErrorView>(
            ContentDirectoryView { path: content_path(template, roots), template: *template },
        ),
{
    lemma_validation_ends(template, roots, world);
}

/// A template whose content directory is there and holds neither marker file
/// misses its marker file.
pub proof fn lemma_no_marker_is_missing(
    template: &Template,
    roots: &TemplatePaths,
    world: Snapshot,
)
    requires
        content_found(template, roots, world),
        !world.present.contains(primary_marker(content_path(template, roots))),
        !world.present.contains(fallback_marker(content_path(template, roots))),
    ensures
        run(validation(template, roots), world, 5) == Some(
            Err::<ContentDirectoryView, ValidateErrorView>(
                ValidateErrorView::MissingMarkerFile {
                    id: template.id@,
                    full_path: fallback_marker(content_path(template, roots)),
                },
            ),
        ),
        outcome(template, roots, world) == Err::<ContentDirectoryView, ValidateErrorView>(
            ValidateErrorView::MissingMarkerFile {
                id: template.id@,
                full_path: fallback_marker(content_path(template, roots)),
            },
        ),
{
    lemma_validation_ends(template, roots, world);
}

/// The validation of the git-hosted templates of a registry, one after the
/// other: the template at `cursor` is being validated and stands at `stage`.
#[derive(Debug, Clone, Copy, PartialEq, Eq)]
pub struct Sweep<'a> {
    pub templates: &'a Vec<Template>,
    pub roots: &'a TemplatePaths,
    pub cursor: usize,
    pub stage: Stage,
}

impl<'a> View for Sweep<'a> {
    type V = Sweep<'a>;

    open spec fn view(&self) -> Sweep<'a> {
        *self
    }
}

/// A step of the validation of a registry, by its view.
pub type SweepPlan<'a> = Plan<Sweep<'a>, (), ValidateErrorView>;

/// A step of the validation of a registry.
pub type SweepStep<'a> = Step<Sweep<'a>, (), ValidateError>;

/// The step that validating the git-hosted templates from position `from` on
/// begins with: the first of them is asked for its clone, and with none left
/// the registry is sound. Local templates are passed over.
pub open spec fn sweep<'a>(
    templates: &'a Vec<Template>,
    roots: &'a TemplatePaths,
    from: int,
) -> SweepPlan<'a>
    decreases templates@.len() - from,
{
    if from < 0 || from >= templates@.len() {
        Plan::Done(())
    } else if !templates@[from].is_git() {
        sweep(templates, roots, from + 1)
    } else {
        lifted(templates, roots, from, validation(&templates@[from], roots))
    }
}

/// The step of the whole validation that the step `plan` of the template at
/// `cursor` amounts to: a request is passed on, a failure ends the whole, and
/// a sound template lets the next one begin.
pub open spec fn lifted<'a>(
    templates: &'a Vec<Template>,
    roots: &'a TemplatePaths,
    cursor: int,
    plan: ValidationPlan<'a>,
) -> SweepPlan<'a>
    decreases templates@.len() - cursor, 0int,
    when 0 <= cursor < templates@.len()
{
    match plan {
        Plan::Ask(state, request) => Plan::Ask(
            Sweep { templates, roots, cursor: cursor as usize, stage: state.stage },
            request,
        ),
        Plan::Fail(error) => Plan::Fail(error),
        Plan::Done(_) => sweep(templates, roots, cursor + 1),
    }
}

impl<'a> Sweep<'a> {
    /// The validation of the template at the cursor.
    pub open spec fn current(self) -> Validation<'a> {
        Validation {
            template: &self.templates@[self.cursor as int],
            roots: self.roots,
            stage: self.stage,
        }
    }
}

impl<'a> Machine for Sweep<'a> {
    type Value = ();

    type Error = ValidateErrorView;

    open spec fn after(self, reply: ReplyView) -> SweepPlan<'a> {
        if self.cursor >= self.templates@.len() {
            Plan::Done(())
        } else {
            lifted(self.templates, self.roots, self.cursor as int, self.current().after(reply))
        }
    }
}

fn sweep_from<'a>(templates: &'a Vec<Template>, roots: &'a TemplatePaths, from: usize) -> (step:
    SweepStep<'a>)
    ensures
        step@ == sweep(templates, roots, from as int),
    decreases templates@.len() - from,
{
    if from >= templates.len() {
        Step::Done(())
    } else if !templates[from].uses_git() {
        sweep_from(templates, roots, from + 1)
    } else {
        lift(templates, roots, from, templates[from].validate(roots))
    }
}

fn lift<'a>(
    templates: &'a Vec<Template>,
    roots: &'a TemplatePaths,
    cursor: usize,
    step: ValidationStep<'a>,
) -> (lifted_step: SweepStep<'a>)
    requires
        cursor < templates@.len(),
    ensures
        lifted_step@ == lifted(templates, roots, cursor as int, step@),
    decreases templates@.len() - cursor, 0int,
{
    match step {
        Step::Ask(state, request) => Step::Ask(
            Sweep { templates, roots, cursor, stage: state.stage },
            request,
        ),
        Step::Fail(error) => Step::Fail(error),
        Step::Done(_) => {
            assert(templates@.len() == templates.len());
            sweep_from(templates, roots, cursor + 1)
        },
    }
}

/// Begins the validation of the git-hosted templates of a registry, in the
/// order of the registry. The first template that fails ends it.
pub fn validate_templates<'a>(templates: &'a Vec<Template>, roots: &'a TemplatePaths) -> (step:
    SweepStep<'a>)
    ensures
        step@ == sweep(templates, roots, 0),
{
    sweep_from(templates, roots, 0)
}

impl<'a> Sweep<'a> {
    /// Takes the reply to the request that came with this state.
    pub fn advance(self, reply: Reply) -> (step: SweepStep<'a>)
        ensures
            step@ == self.after(reply@),
    {
        if self.cursor >= self.templates.len() {
            return Step::Done(());
        }
        let current = Validation {
            template: &self.templates[self.cursor],
            roots: self.roots,
            stage: self.stage,
        };
        lift(self.templates, self.roots, self.cursor, current.advance(reply))
    }
}

/// Whether the git-hosted templates from position `from` on are sound on the
/// disk `world`, and if not, why the first unsound one is not.
pub open spec fn registry_outcome(
    templates: &Vec<Template>,
    roots: &TemplatePaths,
    from: int,
    world: Snapshot,
) -> Result<(), ValidateErrorView>
    decreases templates@.len() - from,
{
    if from < 0 || from >= templates@.len() {
        Ok(())
    } else if !templates@[from].is_git() {
        registry_outcome(templates, roots, from + 1, world)
    } else {
        match outcome(&templates@[from], roots, world) {
            Err(error) => Err(error),
            Ok(_) => registry_outcome(templates, roots, from + 1, world),
        }
    }
}

proof fn lemma_lifted_runs(
    templates: &Vec<Template>,
    roots: &TemplatePaths,
    world: Snapshot,
    cursor: int,
    plan: ValidationPlan<'_>,
    inner: nat,
    fuel: nat,
)
    requires
        0 <= cursor < templates@.len(),
        plan matches Plan::Ask(state, _) ==> state.template == &templates@[cursor] && state.roots
            == roots,
        run(plan, world, inner) is Some,
        fuel >= inner,
        forall|rest: nat|
            rest + inner >= fuel ==> #[trigger] run(
                sweep(templates, roots, cursor + 1),
                world,
                rest,
            ) == Some(registry_outcome(templates, roots, cursor + 1, world)),
    ensures
        run(lifted(templates, roots, cursor, plan), world, fuel) == Some(
            match run(plan, world, inner)->0 {
                Err(error) => Err(error),
                Ok(_) => registry_outcome(templates, roots, cursor + 1, world),
            },
        ),
    decreases inner,
{
    assert(templates@.len() == templates.len());
    match plan {
        Plan::Ask(state, request) => {
            let next = state.after(world.answer(request));
            lemma_lifted_runs(
                templates,
                roots,
                world,
                cursor,
                next,
                (inner - 1) as nat,
                (fuel - 1) as nat,
            );
            let outer = Sweep { templates, roots, cursor: cursor as usize, stage: state.stage };
            assert(outer.current() == state);
            assert(outer.after(world.answer(request)) == lifted(templates, roots, cursor, next));
        },
        _ => {},
    }
}

proof fn lemma_sweep_runs(
    templates: &Vec<Template>,
    roots: &TemplatePaths,
    world: Snapshot,
    from: int,
    fuel: nat,
)
    requires
        0 <= from,
        fuel >= 5 * (templates@.len() - from),
    ensures
        run(sweep(templates, roots, from), world, fuel) == Some(
            registry_outcome(templates, roots, from, world),
        ),
    decreases templates@.len() - from,
{
    if from < templates@.len() {
        if !templates@[from].is_git() {
            lemma_sweep_runs(templates, roots, world, from + 1, fuel);
        } else {
            assert forall|rest: nat| rest + 5 >= fuel implies #[trigger] run(
                sweep(templates, roots, from + 1),
                world,
                rest,
            ) == Some(registry_outcome(templates, roots, from + 1, world)) by {
                lemma_sweep_runs(templates, roots, world, from + 1, rest);
            }
            lemma_validation_ends(&templates@[from], roots, world);
            lemma_lifted_runs(
                templates,
                roots,
                world,
                from,
                validation(&templates@[from], roots),
                5,
                fuel,
            );
        }
    }
}

/// On every disk, a caller that performs each request and hands back its
/// reply sees the validation of a registry end within five requests for each
/// template: with the failure of the first git-hosted template that is not
/// sound, and with success where all are.
pub proof fn lemma_registry_validation_ends(
    templates: &Vec<Template>,
    roots: &TemplatePaths,
    world: Snapshot,
)
    ensures
        run(sweep(templates, roots, 0), world, 5 * templates@.len()) == Some(
            registry_outcome(templates, roots, 0, world),
        ),
{
    lemma_sweep_runs(templates, roots, world, 0, 5 * templates@.len());
}

} // verus!
