use vitex::config::{file_path, Config, ConfigValidation, Sourcing, Template, TemplateGitConfig, ValidateError};
use vitex::host::{Reply, Request, Step};

fn local_template(id: &str, path: &str) -> Template {
    Template {
        id: id.to_string(),
        local_path: path.to_string(),
        git: TemplateGitConfig { repository: String::new(), path_prefix: String::new() },
    }
}

fn git_template(id: &str, repository: &str, prefix: &str) -> Template {
    Template {
        id: id.to_string(),
        local_path: String::new(),
        git: TemplateGitConfig {
            repository: repository.to_string(),
            path_prefix: prefix.to_string(),
        },
    }
}

fn config_of(templates: Vec<Template>) -> Config {
    Config { author_name: "John Doe".to_string(), templates }
}

/// Runs the validation, answering each request from the list of paths that exist.
fn run_config_validation(config: &Config, present: &[&str]) -> Result<(), ValidateError> {
    let mut step = config.validate();
    loop {
        match step {
            Step::Done(()) => return Ok(()),
            Step::Fail(error) => return Err(error),
            Step::Ask(state, request) => {
                let reply = match request {
                    Request::Exists { path } => Reply::Exists(present.contains(&path.as_str())),
                    _ => Reply::Failed("unexpected request".to_string()),
                };
                step = state.advance(reply);
            }
        }
    }
}

#[test]
fn default_template_is_the_git_hosted_default() {
    let template = Template::default();
    assert_eq!(template.id, "default");
    assert_eq!(template.local_path, "");
    assert_eq!(template.git.repository, "git@github.com/foo/bar");
    assert_eq!(template.git.path_prefix, "");
}

#[test]
fn default_config_holds_the_one_default_template() {
    let config = Config::default();
    assert_eq!(config.author_name, "John Doe");
    assert_eq!(config.templates, vec![Template::default()]);
}

#[test]
fn sourcing_is_git_exactly_with_a_repository() {
    let git = git_template("normal", "https://example.com/r.git", "templates/normal");
    assert!(git.uses_git());
    assert_eq!(
        git.sourcing(),
        Sourcing::Git { repository: "https://example.com/r.git", path_prefix: "templates/normal" }
    );
    let local = local_template("mine", "/home/me/mine");
    assert!(!local.uses_git());
    assert_eq!(local.sourcing(), Sourcing::Local { path: "/home/me/mine" });
}

#[test]
fn file_path_prefers_the_xdg_directory() {
    assert_eq!(file_path(Some("/home/me"), Some("/xdg")), Some("/xdg/vitex".to_string()));
    assert_eq!(file_path(Some("/home/me"), None), Some("/home/me/.config/vitex".to_string()));
}

#[test]
fn file_path_needs_a_home() {
    assert_eq!(file_path(None, Some("/xdg")), None);
    assert_eq!(file_path(None, None), None);
}

#[test]
fn sound_config_validates() {
    let config = config_of(vec![
        git_template("normal", "https://example.com/r.git", "templates/normal"),
        local_template("mine", "/home/me/mine"),
    ]);
    assert_eq!(run_config_validation(&config, &["/home/me/mine"]), Ok(()));
}

#[test]
fn empty_config_validates_without_asking() {
    let config = config_of(vec![]);
    assert_eq!(config.validate(), Step::Done(()));
}

#[test]
fn git_only_config_validates_without_asking() {
    let config = config_of(vec![git_template("a", "r", ""), git_template("b", "r", "")]);
    assert_eq!(config.validate(), Step::Done(()));
}

#[test]
fn duplicate_id_is_refused_before_anything_is_asked() {
    let config = config_of(vec![
        git_template("normal", "https://example.com/r.git", "a"),
        git_template("blank", "https://example.com/r.git", "b"),
        git_template("normal", "https://example.com/other.git", "c"),
    ]);
    assert_eq!(config.validate(), Step::Fail(ValidateError::DuplicateID("normal".to_string())));
}

#[test]
fn duplicate_id_is_refused_on_every_disk() {
    let config = config_of(vec![local_template("a", "/a"), local_template("a", "/b")]);
    assert_eq!(
        run_config_validation(&config, &["/a", "/b"]),
        Err(ValidateError::DuplicateID("a".to_string()))
    );
    assert_eq!(
        run_config_validation(&config, &[]),
        Err(ValidateError::InvalidPath { id: "a".to_string(), path: "/a".to_string() })
    );
}

#[test]
fn both_sources_are_refused() {
    let mut template = git_template("both", "https://example.com/r.git", "");
    template.local_path = "/somewhere".to_string();
    let config = config_of(vec![template]);
    assert_eq!(
        config.validate(),
        Step::Fail(ValidateError::GitAndPathDefined("both".to_string()))
    );
}

#[test]
fn no_source_is_refused() {
    let config = config_of(vec![local_template("none", "")]);
    assert_eq!(config.validate(), Step::Fail(ValidateError::NoSources("none".to_string())));
}

#[test]
fn local_path_is_asked_after_and_must_exist() {
    let config = config_of(vec![local_template("mine", "/home/me/mine")]);
    let step = config.validate();
    assert_eq!(
        step,
        Step::Ask(
            ConfigValidation { config: &config, cursor: 0 },
            Request::Exists { path: "/home/me/mine".to_string() }
        )
    );
    assert_eq!(
        run_config_validation(&config, &[]),
        Err(ValidateError::InvalidPath {
            id: "mine".to_string(),
            path: "/home/me/mine".to_string()
        })
    );
}

#[test]
fn first_failure_wins() {
    let config = config_of(vec![
        local_template("first", "/missing"),
        local_template("none", ""),
    ]);
    assert_eq!(
        run_config_validation(&config, &[]),
        Err(ValidateError::InvalidPath { id: "first".to_string(), path: "/missing".to_string() })
    );
    assert_eq!(
        run_config_validation(&config, &["/missing"]),
        Err(ValidateError::NoSources("none".to_string()))
    );
}

#[test]
fn a_reply_that_does_not_answer_is_asked_for_again() {
    let config = config_of(vec![local_template("mine", "/p")]);
    let state = ConfigValidation { config: &config, cursor: 0 };
    assert_eq!(
        state.advance(Reply::Done),
        Step::Ask(state, Request::Exists { path: "/p".to_string() })
    );
}

#[test]
fn a_cursor_behind_the_registry_has_nothing_left_to_check() {
    let config = config_of(vec![local_template("mine", "/p")]);
    let state = ConfigValidation { config: &config, cursor: 7 };
    assert_eq!(state.advance(Reply::Exists(false)), Step::Done(()));
}

#[test]
fn config_errors_read_as_sentences() {
    assert_eq!(
        ValidateError::NoSources("x".to_string()).message(),
        "template with ID `x` has no sources"
    );
    assert_eq!(
        ValidateError::DuplicateID("x".to_string()).message(),
        "ID `x` is duplicated but must be unique"
    );
    assert_eq!(
        ValidateError::InvalidPath { id: "x".to_string(), path: "/p".to_string() }.message(),
        "invalid local path (`/p`) at ID `x`"
    );
    assert_eq!(
        ValidateError::GitAndPathDefined("x".to_string()).message(),
        "both git-repository and local path specified for ID `x`: this is ambigious"
    );
}

#[test]
fn author_defaults_to_the_author_of_the_config() {
    let config = config_of(vec![]);
    assert_eq!(config.author_or(None), "John Doe");
    assert_eq!(config.author_or(Some("Jane Doe")), "Jane Doe");
}
