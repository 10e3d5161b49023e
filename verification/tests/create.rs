use std::collections::BTreeMap;

use vitex::config::{Template, TemplateGitConfig};
use vitex::host::{DirEntry, Reply, Request, Step};
use vitex::project::create::{Creation, CreationStep, Job, Phase};
use vitex::project::{create, sanitize, substitute, Created, Error};
use vitex::text::is_whitespace;
use vitex::templates::{TemplatePaths, ValidateError};

const CONFIG_TEX: &str = "\\title{VITEX_TITLE_PLACEHOLDER}\n\\subtitle{VITEX_SUBTITLE_PLACEHOLDER}\n\\author{VITEX_AUTHOR_PLACEHOLDER}\n";

/// A disk in memory: a path holds a directory (`None`) or a file with its text.
struct MemoryDisk {
    nodes: BTreeMap<String, Option<String>>,
    asked: Vec<Request>,
    refuse_writes_to: Option<String>,
}

impl MemoryDisk {
    fn new() -> MemoryDisk {
        MemoryDisk { nodes: BTreeMap::new(), asked: Vec::new(), refuse_writes_to: None }
    }

    fn dir(mut self, path: &str) -> MemoryDisk {
        self.nodes.insert(path.to_string(), None);
        self
    }

    fn file(mut self, path: &str, text: &str) -> MemoryDisk {
        self.nodes.insert(path.to_string(), Some(text.to_string()));
        self
    }

    fn text(&self, path: &str) -> Option<&str> {
        match self.nodes.get(path) {
            Some(Some(text)) => Some(text.as_str()),
            _ => None,
        }
    }

    fn refused(&self, path: &str) -> bool {
        self.refuse_writes_to.as_deref() == Some(path)
    }

    fn perform(&mut self, request: Request) -> Reply {
        self.asked.push(request.clone());
        match request {
            Request::Exists { path } => Reply::Exists(self.nodes.contains_key(&path)),
            Request::IsDir { path } => Reply::Exists(self.nodes.get(&path) == Some(&None)),
            Request::ReadText { path } => match self.nodes.get(&path) {
                Some(Some(text)) => Reply::Text(text.clone()),
                _ => Reply::Failed("cannot read".to_string()),
            },
            Request::WriteText { path, text } => {
                if self.refused(&path) {
                    return Reply::Failed("cannot write".to_string());
                }
                self.nodes.insert(path, Some(text));
                Reply::Done
            }
            Request::CreateDir { path } => {
                if self.refused(&path) {
                    return Reply::Failed("cannot create".to_string());
                }
                self.nodes.insert(path, None);
                Reply::Done
            }
            Request::ListDir { path } => match self.nodes.get(&path) {
                Some(None) => {
                    let prefix = format!("{}/", path);
                    let mut entries = Vec::new();
                    for (key, node) in &self.nodes {
                        if let Some(name) = key.strip_prefix(&prefix) {
                            if !name.contains('/') {
                                entries.push(DirEntry {
                                    name: name.to_string(),
                                    is_dir: node.is_none(),
                                });
                            }
                        }
                    }
                    Reply::Entries(entries)
                }
                _ => Reply::Failed("not a directory".to_string()),
            },
            Request::CopyFile { from, to } => {
                if self.refused(&to) {
                    return Reply::Failed("cannot copy".to_string());
                }
                match self.nodes.get(&from).cloned() {
                    Some(Some(text)) => {
                        self.nodes.insert(to, Some(text));
                        Reply::Done
                    }
                    _ => Reply::Failed("no such file".to_string()),
                }
            }
            _ => Reply::Failed("no git here".to_string()),
        }
    }
}

fn finish(mut step: CreationStep, disk: &mut MemoryDisk) -> Result<Created, Error> {
    loop {
        match step {
            Step::Done(created) => return Ok(created),
            Step::Fail(error) => return Err(error),
            Step::Ask(state, request) => step = state.advance(disk.perform(request)),
        }
    }
}

fn normal_template() -> Template {
    Template {
        id: "normal".to_string(),
        local_path: String::new(),
        git: TemplateGitConfig {
            repository: "https://example.com/r.git".to_string(),
            path_prefix: "templates/normal".to_string(),
        },
    }
}

fn letter_template() -> Template {
    Template {
        id: "letter".to_string(),
        local_path: "letter".to_string(),
        git: TemplateGitConfig { repository: String::new(), path_prefix: String::new() },
    }
}

fn both_roots() -> TemplatePaths {
    TemplatePaths { custom: "custom".to_string(), cloned: "cloned".to_string() }
}

fn disk_with_normal() -> MemoryDisk {
    MemoryDisk::new()
        .dir("projects")
        .dir("cloned/normal")
        .dir("cloned/normal/templates")
        .dir("cloned/normal/templates/normal")
        .dir("cloned/normal/templates/normal/preamble")
        .file("cloned/normal/templates/normal/preamble/config.tex", CONFIG_TEX)
        .file("cloned/normal/templates/normal/main.tex", "\\input{preamble/config}\n")
        .dir("cloned/normal/templates/normal/chapters")
        .file("cloned/normal/templates/normal/chapters/one.tex", "One\n")
        .dir("cloned/normal/templates/normal/chapters/figures")
        .file("cloned/normal/templates/normal/chapters/figures/a.txt", "A\n")
}

fn is_a_change(request: &Request) -> bool {
    !matches!(
        request,
        Request::Exists { .. }
            | Request::IsDir { .. }
            | Request::ReadText { .. }
            | Request::ListDir { .. }
    )
}

#[test]
fn whitespace_is_what_unicode_calls_white_space() {
    for c in [' ', '\t', '\n', '\r', '\u{b}', '\u{c}', '\u{85}', '\u{a0}', '\u{1680}', '\u{2000}',
        '\u{200a}', '\u{2028}', '\u{2029}', '\u{202f}', '\u{205f}', '\u{3000}']
    {
        assert!(is_whitespace(c));
    }
    for n in 0..=0x10FFFF_u32 {
        if let Some(c) = char::from_u32(n) {
            assert_eq!(is_whitespace(c), c.is_whitespace());
        }
    }
}

#[test]
fn sanitize_replaces_white_space_and_separators() {
    assert_eq!(sanitize("My Paper/Draft"), "My_Paper\\Draft");
    assert_eq!(sanitize("Thesis"), "Thesis");
    assert_eq!(sanitize("a\tb\nc d"), "a_b_c_d");
    assert_eq!(sanitize(""), "");
}

#[test]
fn sanitized_name_holds_no_separator_and_no_white_space() {
    for title in ["My Paper/Draft", " / / ", "tab\there", "über uns/wir", "a\u{a0}b\u{3000}c"] {
        let name = sanitize(title);
        assert_eq!(name.chars().count(), title.chars().count());
        assert!(!name.contains('/'));
        assert!(!name.chars().any(|c| c.is_whitespace()));
    }
}

#[test]
fn substitute_replaces_the_three_placeholders() {
    assert_eq!(
        substitute(CONFIG_TEX, "Thesis", "A Study", "Jane Doe"),
        "\\title{Thesis}\n\\subtitle{A Study}\n\\author{Jane Doe}\n"
    );
    assert_eq!(substitute("nothing to do", "T", "S", "A"), "nothing to do");
}

#[test]
fn substitute_replaces_subtitle_then_title_then_author() {
    assert_eq!(
        substitute("VITEX_SUBTITLE_PLACEHOLDER", "T", "VITEX_TITLE_PLACEHOLDER", "A"),
        "T"
    );
    assert_eq!(
        substitute("VITEX_TITLE_PLACEHOLDER", "VITEX_AUTHOR_PLACEHOLDER", "S", "A"),
        "A"
    );
    assert_eq!(
        substitute("VITEX_TITLE_PLACEHOLDER", "VITEX_SUBTITLE_PLACEHOLDER", "S", "A"),
        "VITEX_SUBTITLE_PLACEHOLDER"
    );
}

#[test]
fn create_without_templates_fails() {
    let templates = Vec::new();
    let roots = both_roots();
    assert_eq!(
        create(&templates, None, "Thesis", "Jane Doe", None, &roots, "projects"),
        Step::Fail(Error::NoTemplates)
    );
}

#[test]
fn create_with_an_unknown_template_fails() {
    let templates = vec![normal_template()];
    let roots = both_roots();
    assert_eq!(
        create(&templates, Some("blank"), "Thesis", "Jane Doe", None, &roots, "projects"),
        Step::Fail(Error::UnknownTemplate("blank".to_string()))
    );
}

#[test]
fn create_first_asks_whether_the_destination_exists() {
    let templates = vec![letter_template(), normal_template()];
    let roots = both_roots();
    let step = create(&templates, Some("normal"), "My Paper/Draft", "Jane", None, &roots, "projects");
    assert_eq!(
        step,
        Step::Ask(
            Creation {
                template: &templates[1],
                roots: &roots,
                title: "My Paper/Draft",
                subtitle: "My Paper/Draft",
                author: "Jane",
                destination: "projects/My_Paper\\Draft".to_string(),
                phase: Phase::Destination,
                current: Job {
                    from: "cloned/normal/templates/normal".to_string(),
                    to: "projects/My_Paper\\Draft".to_string(),
                    is_dir: true,
                },
                pending: Vec::new(),
            },
            Request::Exists { path: "projects/My_Paper\\Draft".to_string() }
        )
    );
}

#[test]
fn create_takes_the_first_template_where_none_is_named() {
    let templates = vec![letter_template(), normal_template()];
    let roots = both_roots();
    match create(&templates, None, "T", "A", Some("S"), &roots, "") {
        Step::Ask(state, request) => {
            assert_eq!(state.template, &templates[0]);
            assert_eq!(state.subtitle, "S");
            assert_eq!(state.current.from, "custom/letter");
            assert_eq!(request, Request::Exists { path: "T".to_string() });
        }
        other => panic!("unexpected step: {:?}", other),
    }
}

#[test]
fn existing_destination_is_refused_and_nothing_is_written() {
    let templates = vec![normal_template()];
    let roots = both_roots();
    let mut disk = disk_with_normal().dir("projects/Thesis");
    let before = disk.nodes.clone();
    let step = create(&templates, None, "Thesis", "Jane Doe", None, &roots, "projects");
    assert_eq!(
        finish(step, &mut disk),
        Err(Error::DestinationExists("projects/Thesis".to_string()))
    );
    assert_eq!(disk.asked, vec![Request::Exists { path: "projects/Thesis".to_string() }]);
    assert_eq!(disk.nodes, before);
}

#[test]
fn existing_destination_is_refused_even_for_an_unsound_template() {
    let templates = vec![normal_template()];
    let roots = both_roots();
    let mut disk = MemoryDisk::new().dir("projects/Thesis");
    let step = create(&templates, None, "Thesis", "Jane Doe", None, &roots, "projects");
    assert_eq!(
        finish(step, &mut disk),
        Err(Error::DestinationExists("projects/Thesis".to_string()))
    );
}

#[test]
fn unsound_template_is_refused_before_anything_is_written() {
    let templates = vec![normal_template()];
    let roots = both_roots();
    let mut disk = MemoryDisk::new().dir("projects");
    let step = create(&templates, None, "Thesis", "Jane Doe", None, &roots, "projects");
    assert_eq!(
        finish(step, &mut disk),
        Err(Error::Validate(ValidateError::NotCloned("normal".to_string())))
    );
    assert!(!disk.asked.iter().any(is_a_change));
}

#[test]
fn thesis_by_jane_doe_is_made_from_the_normal_template() {
    let templates = vec![normal_template()];
    let roots = both_roots();
    let mut disk = disk_with_normal();
    let step = create(&templates, None, "Thesis", "Jane Doe", None, &roots, "projects");
    let created = finish(step, &mut disk).unwrap();
    assert_eq!(
        created,
        Created {
            path: "projects/Thesis".to_string(),
            marker: Some("projects/Thesis/preamble/config.tex".to_string()),
        }
    );
    let marker = disk.text("projects/Thesis/preamble/config.tex").unwrap();
    assert!(marker.contains("Thesis"));
    assert!(marker.contains("Jane Doe"));
    assert!(!marker.contains("VITEX_TITLE_PLACEHOLDER"));
    assert!(!marker.contains("VITEX_SUBTITLE_PLACEHOLDER"));
    assert!(!marker.contains("VITEX_AUTHOR_PLACEHOLDER"));
}

#[test]
fn round_trip_substitutes_title_and_author_and_defaults_the_subtitle() {
    let templates = vec![normal_template()];
    let roots = both_roots();
    let mut disk = disk_with_normal();
    let step = create(&templates, None, "On Moss", "A. Green", None, &roots, "projects");
    finish(step, &mut disk).unwrap();
    assert_eq!(
        disk.text("projects/On_Moss/preamble/config.tex"),
        Some("\\title{On Moss}\n\\subtitle{On Moss}\n\\author{A. Green}\n")
    );
}

#[test]
fn round_trip_holds_for_a_title_with_capitals() {
    let templates = vec![normal_template()];
    let roots = both_roots();
    let mut disk = disk_with_normal();
    let step = create(&templates, None, "Verification", "VICTOR V_", None, &roots, "projects");
    finish(step, &mut disk).unwrap();
    let marker = disk.text("projects/Verification/preamble/config.tex").unwrap();
    assert_eq!(marker, "\\title{Verification}\n\\subtitle{Verification}\n\\author{VICTOR V_}\n");
    assert!(marker.contains("Verification"));
    assert!(marker.contains("VICTOR V_"));
    assert!(!marker.contains("VITEX_TITLE_PLACEHOLDER"));
    assert!(!marker.contains("VITEX_SUBTITLE_PLACEHOLDER"));
    assert!(!marker.contains("VITEX_AUTHOR_PLACEHOLDER"));
}

#[test]
fn file_at_the_prefix_of_the_template_is_refused() {
    let templates = vec![normal_template()];
    let roots = both_roots();
    let mut disk = MemoryDisk::new()
        .dir("projects")
        .dir("cloned/normal")
        .file("cloned/normal/templates/normal", CONFIG_TEX);
    let step = create(&templates, None, "Thesis", "Jane Doe", None, &roots, "projects");
    assert_eq!(
        finish(step, &mut disk),
        Err(Error::Validate(ValidateError::InvalidPathPrefix {
            id: "normal".to_string(),
            full_path: "cloned/normal/templates/normal".to_string()
        }))
    );
    assert!(!disk.asked.iter().any(is_a_change));
}

#[test]
fn given_subtitle_is_used() {
    let templates = vec![normal_template()];
    let roots = both_roots();
    let mut disk = disk_with_normal();
    let step = create(&templates, None, "On Moss", "A. Green", Some("A Survey"), &roots, "projects");
    finish(step, &mut disk).unwrap();
    assert_eq!(
        disk.text("projects/On_Moss/preamble/config.tex"),
        Some("\\title{On Moss}\n\\subtitle{A Survey}\n\\author{A. Green}\n")
    );
}

#[test]
fn copy_keeps_the_structure_and_the_other_files() {
    let templates = vec![normal_template()];
    let roots = both_roots();
    let mut disk = disk_with_normal();
    let step = create(&templates, None, "Thesis", "Jane Doe", None, &roots, "projects");
    finish(step, &mut disk).unwrap();
    assert_eq!(disk.text("projects/Thesis/main.tex"), Some("\\input{preamble/config}\n"));
    assert_eq!(disk.text("projects/Thesis/chapters/one.tex"), Some("One\n"));
    assert_eq!(disk.text("projects/Thesis/chapters/figures/a.txt"), Some("A\n"));
    assert_eq!(disk.nodes.get("projects/Thesis/chapters/figures"), Some(&None));
    assert_eq!(
        disk.text("cloned/normal/templates/normal/preamble/config.tex"),
        Some(CONFIG_TEX)
    );
}

#[test]
fn copy_goes_through_a_directory_in_the_order_of_its_listing() {
    let templates = vec![normal_template()];
    let roots = both_roots();
    let mut disk = disk_with_normal();
    let step = create(&templates, None, "Thesis", "Jane Doe", None, &roots, "projects");
    finish(step, &mut disk).unwrap();
    let changes: Vec<Request> = disk.asked.iter().filter(|r| is_a_change(r)).cloned().collect();
    let from = "cloned/normal/templates/normal";
    let to = "projects/Thesis";
    assert_eq!(changes.len(), 9);
    assert_eq!(changes[0], Request::CreateDir { path: to.to_string() });
    assert_eq!(changes[1], Request::CreateDir { path: format!("{}/chapters", to) });
    assert_eq!(changes[2], Request::CreateDir { path: format!("{}/chapters/figures", to) });
    assert_eq!(
        changes[3],
        Request::CopyFile {
            from: format!("{}/chapters/figures/a.txt", from),
            to: format!("{}/chapters/figures/a.txt", to)
        }
    );
    assert_eq!(
        changes[4],
        Request::CopyFile {
            from: format!("{}/chapters/one.tex", from),
            to: format!("{}/chapters/one.tex", to)
        }
    );
    assert_eq!(
        changes[5],
        Request::CopyFile { from: format!("{}/main.tex", from), to: format!("{}/main.tex", to) }
    );
    assert_eq!(changes[6], Request::CreateDir { path: format!("{}/preamble", to) });
    assert_eq!(
        changes[7],
        Request::CopyFile {
            from: format!("{}/preamble/config.tex", from),
            to: format!("{}/preamble/config.tex", to)
        }
    );
    assert_eq!(
        changes[8],
        Request::WriteText {
            path: format!("{}/preamble/config.tex", to),
            text: "\\title{Thesis}\n\\subtitle{Thesis}\n\\author{Jane Doe}\n".to_string()
        }
    );
}

#[test]
fn fallback_marker_is_rewritten_without_the_primary() {
    let templates = vec![letter_template()];
    let roots = both_roots();
    let mut disk = MemoryDisk::new().dir("custom/letter").file("custom/letter/main.tex", CONFIG_TEX);
    let step = create(&templates, Some("letter"), "Dear Sir", "Me", None, &roots, "out");
    assert_eq!(
        finish(step, &mut disk),
        Ok(Created {
            path: "out/Dear_Sir".to_string(),
            marker: Some("out/Dear_Sir/main.tex".to_string()),
        })
    );
    assert_eq!(
        disk.text("out/Dear_Sir/main.tex"),
        Some("\\title{Dear Sir}\n\\subtitle{Dear Sir}\n\\author{Me}\n")
    );
}

#[test]
fn failed_copy_names_the_path_and_leaves_what_was_copied() {
    let templates = vec![normal_template()];
    let roots = both_roots();
    let mut disk = disk_with_normal();
    disk.refuse_writes_to = Some("projects/Thesis/main.tex".to_string());
    let step = create(&templates, None, "Thesis", "Jane Doe", None, &roots, "projects");
    assert_eq!(
        finish(step, &mut disk),
        Err(Error::CopyFailed {
            path: "projects/Thesis/main.tex".to_string(),
            cause: "cannot copy".to_string()
        })
    );
    assert_eq!(disk.text("projects/Thesis/chapters/one.tex"), Some("One\n"));
    assert_eq!(disk.text("projects/Thesis/preamble/config.tex"), None);
}

#[test]
fn failed_directory_creation_names_the_directory() {
    let templates = vec![normal_template()];
    let roots = both_roots();
    let mut disk = disk_with_normal();
    disk.refuse_writes_to = Some("projects/Thesis".to_string());
    let step = create(&templates, None, "Thesis", "Jane Doe", None, &roots, "projects");
    assert_eq!(
        finish(step, &mut disk),
        Err(Error::CopyFailed {
            path: "projects/Thesis".to_string(),
            cause: "cannot create".to_string()
        })
    );
}

#[test]
fn failed_listing_names_the_source_directory() {
    let templates = vec![letter_template()];
    let roots = both_roots();
    let state = Creation {
        template: &templates[0],
        roots: &roots,
        title: "T",
        subtitle: "T",
        author: "A",
        destination: "out/T".to_string(),
        phase: Phase::ListDir,
        current: Job { from: "custom/letter".to_string(), to: "out/T".to_string(), is_dir: true },
        pending: Vec::new(),
    };
    assert_eq!(
        state.advance(Reply::Failed("denied".to_string())),
        Step::Fail(Error::CopyFailed {
            path: "custom/letter".to_string(),
            cause: "denied".to_string()
        })
    );
}

#[test]
fn failed_write_of_the_marker_is_reported() {
    let templates = vec![normal_template()];
    let roots = both_roots();
    let mut disk = disk_with_normal();
    let step = create(&templates, None, "Thesis", "Jane Doe", None, &roots, "projects");
    let mut step = step;
    let error = loop {
        match step {
            Step::Done(created) => panic!("unexpected success: {:?}", created),
            Step::Fail(error) => break error,
            Step::Ask(state, request) => {
                let reply = match request {
                    Request::WriteText { .. } => Reply::Failed("disk full".to_string()),
                    other => disk.perform(other),
                };
                step = state.advance(reply);
            }
        }
    };
    assert_eq!(
        error,
        Error::SubstitutionWriteFailed {
            path: "projects/Thesis/preamble/config.tex".to_string(),
            cause: "disk full".to_string()
        }
    );
    assert_eq!(disk.text("projects/Thesis/preamble/config.tex"), Some(CONFIG_TEX));
}

fn state_after_copy<'a>(
    template: &'a Template,
    roots: &'a TemplatePaths,
    phase: Phase,
) -> Creation<'a> {
    Creation {
        template,
        roots,
        title: "T",
        subtitle: "S",
        author: "A",
        destination: "out/T".to_string(),
        phase,
        current: Job { from: "custom/letter".to_string(), to: "out/T".to_string(), is_dir: true },
        pending: Vec::new(),
    }
}

#[test]
fn copy_without_a_marker_is_a_project_with_nothing_replaced() {
    let template = letter_template();
    let roots = both_roots();
    let state = state_after_copy(&template, &roots, Phase::PrimaryMarker);
    let step = state.advance(Reply::Exists(false));
    match step {
        Step::Ask(next, request) => {
            assert_eq!(next.phase, Phase::FallbackMarker);
            assert_eq!(request, Request::Exists { path: "out/T/main.tex".to_string() });
            assert_eq!(
                next.advance(Reply::Exists(false)),
                Step::Done(Created { path: "out/T".to_string(), marker: None })
            );
        }
        other => panic!("unexpected step: {:?}", other),
    }
}

#[test]
fn unreadable_marker_of_the_copy_is_reported() {
    let template = letter_template();
    let roots = both_roots();
    let state = state_after_copy(&template, &roots, Phase::FallbackText);
    assert_eq!(
        state.advance(Reply::Failed("denied".to_string())),
        Step::Fail(Error::MarkerReadFailed {
            path: "out/T/main.tex".to_string(),
            cause: "denied".to_string()
        })
    );
}

#[test]
fn write_that_gets_no_answer_begins_again_with_the_read() {
    let template = letter_template();
    let roots = both_roots();
    let state = state_after_copy(&template, &roots, Phase::WritePrimary);
    match state.advance(Reply::Exists(true)) {
        Step::Ask(next, request) => {
            assert_eq!(next.phase, Phase::PrimaryText);
            assert_eq!(
                request,
                Request::ReadText { path: "out/T/preamble/config.tex".to_string() }
            );
        }
        other => panic!("unexpected step: {:?}", other),
    }
}

#[test]
fn listing_queues_the_entries_with_the_first_on_top() {
    let template = letter_template();
    let roots = both_roots();
    let state = state_after_copy(&template, &roots, Phase::ListDir);
    let entries = vec![
        DirEntry { name: "a.tex".to_string(), is_dir: false },
        DirEntry { name: "sub".to_string(), is_dir: true },
    ];
    match state.advance(Reply::Entries(entries)) {
        Step::Ask(next, request) => {
            assert_eq!(next.phase, Phase::CopyFile);
            assert_eq!(
                next.current,
                Job {
                    from: "custom/letter/a.tex".to_string(),
                    to: "out/T/a.tex".to_string(),
                    is_dir: false
                }
            );
            assert_eq!(
                next.pending,
                vec![Job {
                    from: "custom/letter/sub".to_string(),
                    to: "out/T/sub".to_string(),
                    is_dir: true
                }]
            );
            assert_eq!(
                request,
                Request::CopyFile {
                    from: "custom/letter/a.tex".to_string(),
                    to: "out/T/a.tex".to_string()
                }
            );
            assert_eq!(next.ask(), request);
        }
        other => panic!("unexpected step: {:?}", other),
    }
}

#[test]
fn project_errors_read_as_sentences() {
    assert_eq!(
        Error::NoTemplates.message(),
        "There are currently 0 templates.\nAt least 1 template is required to use this tool"
    );
    assert_eq!(Error::UnknownTemplate("x".to_string()).message(), "Template `x` is invalid");
    assert_eq!(
        Error::DestinationExists("out/T".to_string()).message(),
        "Will not create project directory at `out/T`: directory already exists"
    );
    assert_eq!(
        Error::Validate(ValidateError::NotFoundLocally("x".to_string())).message(),
        "Cannot use invalid project: Template `x` is set-up but not found locally:\nHINT: check if the template is present at the correct path"
    );
    assert_eq!(
        Error::CopyFailed { path: "p".to_string(), cause: "c".to_string() }.message(),
        "Could not write to file (at `p`): c"
    );
    assert_eq!(
        Error::MarkerReadFailed { path: "p".to_string(), cause: "c".to_string() }.message(),
        "Could not read file (at `p`): c"
    );
    assert_eq!(
        Error::SubstitutionWriteFailed { path: "p".to_string(), cause: "c".to_string() }.message(),
        "Could not write to file (at `p`): c"
    );
}
