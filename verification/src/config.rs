//! The configuration: an author's name and the registry of templates.

use vstd::prelude::*;
use vstd::string::*;

use crate::host::{run, Machine, Plan, Reply, ReplyView, Request, RequestView, Snapshot, Step};

verus! {

/// Where a git-hosted template comes from.
#[derive(Debug, Clone, PartialEq, Eq)]
pub struct TemplateGitConfig {
    /// The repository to clone; empty for a template that is not git-hosted.
    pub repository: String,
    /// The directory inside the clone that holds the template.
    pub path_prefix: String,
}

/// One template of the registry.
#[derive(Debug, Clone, PartialEq, Eq)]
pub struct Template {
    /// The name by which the template is chosen.
    pub id: String,
    /// The directory of a local template; empty for a git-hosted one.
    pub local_path: String,
    /// The git source; its repository is empty for a local template.
    pub git: TemplateGitConfig,
}

/// How a template is sourced.
#[derive(Debug, Clone, Copy, PartialEq, Eq)]
pub enum Sourcing<'a> {
    /// The template lives in a local directory.
    Local { path: &'a str },
    /// The template lives inside a clone of a git repository.
    Git { repository: &'a str, path_prefix: &'a str },
}

/// The whole configuration.
#[derive(Debug, Clone, PartialEq, Eq)]
pub struct Config {
    /// The author's name for projects that name none.
    pub author_name: String,
    /// The registry, in the order in which it was declared.
    pub templates: Vec<Template>,
}

impl Template {
    /// A template is git-hosted exactly when it names a repository.
    pub open spec fn is_git(&self) -> bool {
        self.git.repository@.len() > 0
    }

    /// Whether the template is git-hosted.
    pub fn uses_git(&self) -> (git: bool)
        ensures
            git == self.is_git(),
    {
        !self.git.repository.as_str().is_empty()
    }

    /// How the template is sourced: from git where it names a repository,
    /// locally otherwise.
    pub fn sourcing(&self) -> (sourcing: Sourcing<'_>)
        ensures
            match sourcing {
                Sourcing::Git { repository, path_prefix } => self.is_git() && repository@
                    == self.git.repository@ && path_prefix@ == self.git.path_prefix@,
                Sourcing::Local { path } => !self.is_git() && path@ == self.local_path@,
            },
    {
        if self.uses_git() {
            Sourcing::Git {
                repository: self.git.repository.as_str(),
                path_prefix: self.git.path_prefix.as_str(),
            }
        } else {
            Sourcing::Local { path: self.local_path.as_str() }
        }
    }
}

impl Config {
    /// The author of a project: the one given, and the author of the
    /// configuration where none is given.
    pub fn author_or<'a>(&'a self, author: Option<&'a str>) -> (name: &'a str)
        ensures
            name@ == match author {
                Some(given) => given@,
                None => self.author_name@,
            },
    {
        match author {
            Some(given) => given,
            None => self.author_name.as_str(),
        }
    }
}

impl Default for Template {
    /// The template `default`, hosted at `git@github.com/foo/bar`.
    fn default() -> (template: Template)
        ensures
            template.id@ == "default"@,
            template.local_path@.len() == 0,
            template.git.repository@ == "git@github.com/foo/bar"@,
            template.git.path_prefix@.len() == 0,
    {
        Template {
            id: String::from_str("default"),
            local_path: String::new(),
            git: TemplateGitConfig {
                repository: String::from_str("git@github.com/foo/bar"),
                path_prefix: String::new(),
            },
        }
    }
}

impl Default for Config {
    /// The author `John Doe` and a registry of the one default template.
    fn default() -> (config: Config)
        ensures
            config.author_name@ == "John Doe"@,
            config.templates@.len() == 1,
            config.templates@[0].id@ == "default"@,
            config.templates@[0].local_path@.len() == 0,
            config.templates@[0].git.repository@ == "git@github.com/foo/bar"@,
            config.templates@[0].git.path_prefix@.len() == 0,
    {
        let mut templates: Vec<Template> = Vec::new();
        templates.push(Template::default());
        Config { author_name: String::from_str("John Doe"), templates }
    }
}

/// The directory that holds the configuration: `vitex` under
/// `$XDG_CONFIG_HOME` where that is set, `.config/vitex` under `$HOME`
/// otherwise. Without a home there is none.
pub open spec fn config_directory(home: Option<Seq<char>>, xdg: Option<Seq<char>>) -> Option<
    Seq<char>,
> {
    match (home, xdg) {
        (None, _) => None,
        (Some(_), Some(xdg)) => Some(xdg + "/vitex"@),
        (Some(home), None) => Some(home + "/.config/vitex"@),
    }
}

/// The directory that holds the configuration, from the values of `$HOME`
/// and `$XDG_CONFIG_HOME`.
pub fn file_path(home: Option<&str>, xdg_config_home: Option<&str>) -> (path: Option<String>)
    ensures
        match config_directory(
            match home {
                Some(h) => Some(h@),
                None => None,
            },
            match xdg_config_home {
                Some(x) => Some(x@),
                None => None,
            },
        ) {
            Some(expected) => path matches Some(p) && p@ == expected,
            None => path is None,
        },
{
    match home {
        None => None,
        Some(home) => match xdg_config_home {
            Some(xdg) => Some(String::from_str(xdg).concat("/vitex")),
            None => Some(String::from_str(home).concat("/.config/vitex")),
        },
    }
}

/// Why a configuration is refused.
#[derive(Debug, Clone, PartialEq, Eq)]
pub enum ValidateError {
    /// Two templates share this id.
    DuplicateID(String),
    /// The local path of template `id` leads nowhere.
    InvalidPath { id: String, path: String },
    /// The template names both a repository and a local path.
    GitAndPathDefined(String),
    /// The template names neither a repository nor a local path.
    NoSources(String),
}

/// What a [`ValidateError`] holds, with every text as the sequence of its characters.
pub enum ValidateErrorView {
    DuplicateID(Seq<char>),
    InvalidPath { id: Seq<char>, path: Seq<char> },
    GitAndPathDefined(Seq<char>),
    NoSources(Seq<char>),
}

impl View for ValidateError {
    type V = ValidateErrorView;

    open spec fn view(&self) -> ValidateErrorView {
        match self {
            ValidateError::DuplicateID(id) => ValidateErrorView::DuplicateID(id@),
            ValidateError::InvalidPath { id, path } => ValidateErrorView::InvalidPath {
                id: id@,
                path: path@,
            },
            ValidateError::GitAndPathDefined(id) => ValidateErrorView::GitAndPathDefined(id@),
            ValidateError::NoSources(id) => ValidateErrorView::NoSources(id@),
        }
    }
}

impl ValidateErrorView {
    /// The error in words.
    pub open spec fn message(self) -> Seq<char> {
        match self {
            ValidateErrorView::NoSources(id) => "template with ID `"@ + id + "` has no sources"@,
            ValidateErrorView::DuplicateID(id) => "ID `"@ + id
                + "` is duplicated but must be unique"@,
            ValidateErrorView::InvalidPath { id, path } => "invalid local path (`"@ + path
                + "`) at ID `"@ + id + "`"@,
            ValidateErrorView::GitAndPathDefined(id) =>
                "both git-repository and local path specified for ID `"@ + id
                + "`: this is ambigious"@,
        }
    }
}

impl ValidateError {
    /// The error in words.
    pub fn message(&self) -> (text: String)
        ensures
            text@ == self@.message(),
    {
        match self {
            ValidateError::NoSources(id) => String::from_str("template with ID `").concat(
                id.as_str(),
            ).concat("` has no sources"),
            ValidateError::DuplicateID(id) => String::from_str("ID `").concat(id.as_str()).concat(
                "` is duplicated but must be unique",
            ),
            ValidateError::InvalidPath { id, path } => String::from_str(
                "invalid local path (`",
            ).concat(path.as_str()).concat("`) at ID `").concat(id.as_str()).concat("`"),
            ValidateError::GitAndPathDefined(id) => String::from_str(
                "both git-repository and local path specified for ID `",
            ).concat(id.as_str()).concat("`: this is ambigious"),
        }
    }
}

/// A validation of the configuration that waits to learn whether the local
/// path of the template at `cursor` exists.
#[derive(Debug, Clone, Copy, PartialEq, Eq)]
pub struct ConfigValidation<'a> {
    pub config: &'a Config,
    pub cursor: usize,
}

impl<'a> View for ConfigValidation<'a> {
    type V = ConfigValidation<'a>;

    open spec fn view(&self) -> ConfigValidation<'a> {
        *self
    }
}

impl Config {
    /// Some template before position `i` has the id of the one at `i`.
    pub open spec fn repeats(&self, i: int) -> bool {
        exists|j: int| 0 <= j < i && #[trigger] self.templates@[j].id@ == self.templates@[i].id@
    }

    /// Two templates share an id.
    pub open spec fn has_duplicate(&self) -> bool {
        exists|i: int| 0 <= i < self.templates@.len() && #[trigger] self.repeats(i)
    }

    /// What is wrong with the template at `i` that shows without looking at
    /// the disk, if anything: its id repeats an earlier one, it names both
    /// sources, or it names none.
    pub open spec fn flaw(&self, i: int) -> Option<ValidateErrorView> {
        let template = self.templates@[i];
        if self.repeats(i) {
            Some(ValidateErrorView::DuplicateID(template.id@))
        } else if template.local_path@.len() > 0 && template.is_git() {
            Some(ValidateErrorView::GitAndPathDefined(template.id@))
        } else if template.local_path@.len() == 0 && !template.is_git() {
            Some(ValidateErrorView::NoSources(template.id@))
        } else {
            None
        }
    }

    /// The step that checking the templates from position `from` on leads
    /// to: the first flaw fails, the first local path is asked after, and
    /// with neither the configuration is sound.
    pub open spec fn scan(&self, from: int) -> Plan<ConfigValidation<'_>, (), ValidateErrorView>
        decreases self.templates@.len() - from,
    {
        if from < 0 || from >= self.templates@.len() {
            Plan::Done(())
        } else {
            match self.flaw(from) {
                Some(error) => Plan::Fail(error),
                None => if self.templates@[from].local_path@.len() > 0 {
                    Plan::Ask(
                        ConfigValidation { config: self, cursor: from as usize },
                        RequestView::Exists { path: self.templates@[from].local_path@ },
                    )
                } else {
                    self.scan(from + 1)
                },
            }
        }
    }

    /// What is wrong with the template at `i` on the disk `world`, if
    /// anything: a flaw, or a local path that leads nowhere.
    pub open spec fn failure_at(&self, i: int, world: Snapshot) -> Option<ValidateErrorView> {
        let template = self.templates@[i];
        match self.flaw(i) {
            Some(error) => Some(error),
            None => if template.local_path@.len() > 0 && !world.present.contains(
                template.local_path@,
            ) {
                Some(
                    ValidateErrorView::InvalidPath {
                        id: template.id@,
                        path: template.local_path@,
                    },
                )
            } else {
                None
            },
        }
    }

    /// The failure of the first template from position `from` on that has
    /// one on the disk `world`.
    pub open spec fn first_failure(&self, from: int, world: Snapshot) -> Option<
        ValidateErrorView,
    >
        decreases self.templates@.len() - from,
    {
        if from < 0 || from >= self.templates@.len() {
            None
        } else {
            match self.failure_at(from, world) {
                Some(error) => Some(error),
                None => self.first_failure(from + 1, world),
            }
        }
    }

    /// Whether the id of the template at `i` repeats an earlier one.
    fn is_repeated(&self, i: usize) -> (repeated: bool)
        requires
            i < self.templates@.len(),
        ensures
            repeated == self.repeats(i as int),
    {
        let mut j: usize = 0;
        while j < i
            invariant
                j <= i < self.templates@.len(),
                forall|k: int| 0 <= k < j ==> self.templates@[k].id@ != self.templates@[i as int].id@,
            decreases i - j,
        {
            if self.templates[j].id == self.templates[i].id {
                return true;
            }
            j += 1;
        }
        false
    }

    /// Checks the templates from position `from` on.
    fn check_from(&self, from: usize) -> (step: Step<ConfigValidation<'_>, (), ValidateError>)
        ensures
            step@ == self.scan(from as int),
    {
        let mut i: usize = from;
        while i < self.templates.len()
            invariant
                from <= i,
                self.scan(i as int) == self.scan(from as int),
            decreases self.templates.len() - i,
        {
            let template = &self.templates[i];
            let local = !template.local_path.as_str().is_empty();
            let git = template.uses_git();
            if self.is_repeated(i) {
                return Step::Fail(ValidateError::DuplicateID(template.id.clone()));
            }
            if local && git {
                return Step::Fail(ValidateError::GitAndPathDefined(template.id.clone()));
            }
            if !local && !git {
                return Step::Fail(ValidateError::NoSources(template.id.clone()));
            }
            if local {
                return Step::Ask(
                    ConfigValidation { config: self, cursor: i },
                    Request::Exists { path: template.local_path.clone() },
                );
            }
            i += 1;
        }
        Step::Done(())
    }

    /// Begins the validation of the configuration.
    ///
    /// The templates are checked in order, each for four things in turn: its
    /// id repeats no earlier one, it does not name both a repository and a
    /// local path, it names one of them, and its local path, if it has one,
    /// exists. The first failure ends the validation.
    pub fn validate(&self) -> (step: Step<ConfigValidation<'_>, (), ValidateError>)
        ensures
            step@ == self.scan(0),
    {
        self.check_from(0)
    }
}

impl<'a> Machine for ConfigValidation<'a> {
    type Value = ();

    type Error = ValidateErrorView;

    /// Told that the path exists, the validation goes on behind the
    /// template; told that it does not, it fails; told anything else, it asks
    /// again.
    open spec fn after(self, reply: ReplyView) -> Plan<ConfigValidation<'a>, (), ValidateErrorView> {
        if self.cursor >= self.config.templates@.len() {
            Plan::Done(())
        } else {
            let template = self.config.templates@[self.cursor as int];
            match reply {
                ReplyView::Exists(true) => self.config.scan(self.cursor + 1),
                ReplyView::Exists(false) => Plan::Fail(
                    ValidateErrorView::InvalidPath { id: template.id@, path: template.local_path@ },
                ),
                _ => Plan::Ask(self, RequestView::Exists { path: template.local_path@ }),
            }
        }
    }
}

impl<'a> ConfigValidation<'a> {
    /// Takes the reply to the request that came with this state.
    pub fn advance(self, reply: Reply) -> (step: Step<ConfigValidation<'a>, (), ValidateError>)
        ensures
            step@ == self.after(reply@),
    {
        if self.cursor >= self.config.templates.len() {
            return Step::Done(());
        }
        let template = &self.config.templates[self.cursor];
        match reply {
            Reply::Exists(true) => self.config.check_from(self.cursor + 1),
            Reply::Exists(false) => Step::Fail(
                ValidateError::InvalidPath {
                    id: template.id.clone(),
                    path: template.local_path.clone(),
                },
            ),
            _ => Step::Ask(self, Request::Exists { path: template.local_path.clone() }),
        }
    }
}

/// How the validation of `config` ends on the disk `world`.
pub open spec fn validated(config: &Config, world: Snapshot) -> Result<(), ValidateErrorView> {
    match config.first_failure(0, world) {
        Some(error) => Err(error),
        None => Ok(()),
    }
}

proof fn lemma_scan_runs_to_first_failure(config: &Config, world: Snapshot, from: int, fuel: nat)
    requires
        0 <= from,
        fuel >= config.templates@.len() - from,
    ensures
        run(config.scan(from), world, fuel) == Some(
            match config.first_failure(from, world) {
                Some(error) => Err::<(), ValidateErrorView>(error),
                None => Ok(()),
            },
        ),
    decreases config.templates@.len() - from,
{
    let goal = match config.first_failure(from, world) {
        Some(error) => Err::<(), ValidateErrorView>(error),
        None => Ok(()),
    };
    if from >= config.templates@.len() {
        assert(run(config.scan(from), world, fuel) == Some(goal));
    } else if config.flaw(from) is Some {
        assert(run(config.scan(from), world, fuel) == Some(goal));
    } else {
        assert(config.templates@.len() == config.templates.len());
        let path = config.templates@[from].local_path@;
        if path.len() > 0 {
            let state = ConfigValidation { config, cursor: from as usize };
            let request = RequestView::Exists { path };
            assert(config.scan(from) == Plan::<ConfigValidation<'_>, (), ValidateErrorView>::Ask(
                state,
                request,
            ));
            assert(world.answer(request) == ReplyView::Exists(world.present.contains(path)));
            let next = state.after(world.answer(request));
            assert(run(config.scan(from), world, fuel) == run(next, world, (fuel - 1) as nat));
            if world.present.contains(path) {
                lemma_scan_runs_to_first_failure(config, world, from + 1, (fuel - 1) as nat);
                assert(next == config.scan(from + 1));
                assert(config.failure_at(from, world) is None);
            } else {
                let error = ValidateErrorView::InvalidPath { id: config.templates@[from].id@, path };
                assert(next == Plan::<ConfigValidation<'_>, (), ValidateErrorView>::Fail(error));
                assert(config.failure_at(from, world) == Some(error));
                assert(run(next, world, (fuel - 1) as nat) == Some(
                    Err::<(), ValidateErrorView>(error),
                ));
            }
            assert(run(config.scan(from), world, fuel) == Some(goal));
        } else {
            lemma_scan_runs_to_first_failure(config, world, from + 1, fuel);
            assert(run(config.scan(from), world, fuel) == Some(goal));
        }
    }
}

/// On every disk, a caller that performs each request and hands back its
/// reply sees the validation end after at most one request for each template,
/// with the failure of the first template that has one, and with success where
/// none has.
pub proof fn lemma_validation_ends(config: &Config, world: Snapshot)
    ensures
        run(config.scan(0), world, config.templates@.len()) == Some(validated(config, world)),
{
    lemma_scan_runs_to_first_failure(config, world, 0, config.templates@.len());
}

proof fn lemma_repeat_fails(config: &Config, world: Snapshot, from: int, i: int)
    requires
        0 <= from <= i < config.templates@.len(),
        config.repeats(i),
    ensures
        config.first_failure(from, world) is Some,
    decreases i - from,
{
    if from < i && config.failure_at(from, world) is None {
        lemma_repeat_fails(config, world, from + 1, i);
    }
}

/// A configuration in which two templates share an id is refused, whatever
/// the disk holds.
pub proof fn lemma_duplicate_is_refused(config: &Config, world: Snapshot)
    requires
        config.has_duplicate(),
    ensures
        validated(config, world) is Err,
{
    let i = choose|i: int| 0 <= i < config.templates@.len() && #[trigger] config.repeats(i);
    lemma_repeat_fails(config, world, 0, i);
}

} // verus!
