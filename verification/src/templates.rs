//! The registry of templates and the places where their files live.

use vstd::prelude::*;
use vstd::string::*;

use crate::config::Template;
use crate::path::{join, joined};

pub mod sync;
pub mod validate;

pub use crate::templates::sync::{sync_git, SyncError};
pub use crate::templates::validate::{validate_templates, ValidateError, REPLACE_KEYS};

verus! {

/// The two directories under which templates are stored.
#[derive(Debug, Clone, PartialEq, Eq)]
pub struct TemplatePaths {
    /// Holds one directory for each local template, named by its id.
    pub custom: String,
    /// Holds one clone for each git-hosted template, named by its id.
    pub cloned: String,
}

/// The directory of the local templates below the configuration directory
/// `base`.
pub open spec fn custom_root(base: Seq<char>) -> Seq<char> {
    joined(base, "custom_templates"@)
}

/// The directory of the clones below the home directory `home`.
pub open spec fn cloned_root(home: Seq<char>) -> Seq<char> {
    joined(joined(joined(joined(home, ".local"@), "share"@), "vitex"@), "clone"@)
}

/// The two storage directories, from the configuration directory and the
/// value of `$HOME`. Without a home there are none.
pub fn template_paths(base_path: &str, home: Option<&str>) -> (paths: Option<TemplatePaths>)
    ensures
        home is None ==> paths is None,
        home matches Some(h) ==> paths matches Some(p) && p.custom@ == custom_root(base_path@)
            && p.cloned@ == cloned_root(h@),
{
    match home {
        None => None,
        Some(home) => {
            let local = join(home, ".local");
            let share = join(local.as_str(), "share");
            let vitex = join(share.as_str(), "vitex");
            Some(
                TemplatePaths {
                    custom: join(base_path, "custom_templates"),
                    cloned: join(vitex.as_str(), "clone"),
                },
            )
        },
    }
}

/// The directory into which a git-hosted template is cloned.
pub open spec fn clone_root(template: &Template, roots: &TemplatePaths) -> Seq<char> {
    joined(roots.cloned@, template.id@)
}

/// The directory that holds the files of a template: for a local template
/// the directory of its id under the custom root, for a git-hosted one its
/// path prefix inside its clone.
pub open spec fn content_path(template: &Template, roots: &TemplatePaths) -> Seq<char> {
    if template.is_git() {
        joined(clone_root(template, roots), template.git.path_prefix@)
    } else {
        joined(roots.custom@, template.id@)
    }
}

/// A directory that holds the files of a template, and the template.
#[derive(Debug, Clone, PartialEq, Eq)]
pub struct ContentDirectory<'a> {
    pub path: String,
    pub template: &'a Template,
}

/// What a [`ContentDirectory`] holds, with every text as the sequence of its characters.
pub struct ContentDirectoryView {
    pub path: Seq<char>,
    pub template: Template,
}

impl<'a> View for ContentDirectory<'a> {
    type V = ContentDirectoryView;

    open spec fn view(&self) -> ContentDirectoryView {
        ContentDirectoryView { path: self.path@, template: *self.template }
    }
}

/// The directory into which `template` is cloned.
pub fn clone_directory(template: &Template, roots: &TemplatePaths) -> (path: String)
    ensures
        path@ == clone_root(template, roots),
{
    join(roots.cloned.as_str(), template.id.as_str())
}

/// The directory that holds the files of `template`. Whether it exists is not
/// asked here.
pub fn resolve<'a>(template: &'a Template, roots: &TemplatePaths) -> (directory: ContentDirectory<
    'a,
>)
    ensures
        directory@ == (ContentDirectoryView {
            path: content_path(template, roots),
            template: *template,
        }),
        !template.is_git() ==> directory.path@ == joined(roots.custom@, template.id@),
        template.is_git() ==> directory.path@ == joined(
            joined(roots.cloned@, template.id@),
            template.git.path_prefix@,
        ),
        template.is_git() && template.git.path_prefix@.len() == 0 ==> directory.path@ == joined(
            roots.cloned@,
            template.id@,
        ),
{
    let path = if template.uses_git() {
        let root = clone_directory(template, roots);
        join(root.as_str(), template.git.path_prefix.as_str())
    } else {
        join(roots.custom.as_str(), template.id.as_str())
    };
    ContentDirectory { path, template }
}

/// The position of the first template of `templates` with the id `id`, if
/// one has it.
pub open spec fn position_of(templates: Seq<Template>, id: Seq<char>) -> Option<int> {
    if exists|i: int| 0 <= i < templates.len() && #[trigger] templates[i].id@ == id {
        Some(
            choose|i: int|
                0 <= i < templates.len() && #[trigger] templates[i].id@ == id && forall|j: int|
                    0 <= j < i ==> #[trigger] templates[j].id@ != id,
        )
    } else {
        None
    }
}

/// The position of the first template with the id `id`.
pub fn find_position(templates: &Vec<Template>, id: &str) -> (found: Option<usize>)
    ensures
        match found {
            Some(i) => i < templates@.len() && templates@[i as int].id@ == id@ && forall|j: int|
                0 <= j < i ==> #[trigger] templates@[j].id@ != id@,
            None => forall|j: int| 0 <= j < templates@.len() ==> #[trigger] templates@[j].id@ != id@,
        },
        match found {
            Some(i) => position_of(templates@, id@) == Some(i as int),
            None => position_of(templates@, id@) is None,
        },
{
    let wanted = String::from_str(id);
    let mut i: usize = 0;
    while i < templates.len()
        invariant
            wanted@ == id@,
            i <= templates@.len(),
            forall|j: int| 0 <= j < i ==> #[trigger] templates@[j].id@ != id@,
        decreases templates.len() - i,
    {
        if templates[i].id == wanted {
            proof {
                let k = position_of(templates@, id@)->0;
                if k < i {
                    assert(templates@[k].id@ != id@);
                }
                if i < k {
                    assert(templates@[i as int].id@ != id@);
                }
            }
            return Some(i);
        }
        i += 1;
    }
    None
}

/// The first template with the id `id`.
pub fn find_by_id<'a>(templates: &'a Vec<Template>, id: &str) -> (found: Option<&'a Template>)
    ensures
        match (found, position_of(templates@, id@)) {
            (Some(template), Some(i)) => *template == templates@[i],
            (None, None) => true,
            _ => false,
        },
        found matches Some(template) ==> template.id@ == id@,
        found is None <==> forall|j: int|
            0 <= j < templates@.len() ==> #[trigger] templates@[j].id@ != id@,
{
    match find_position(templates, id) {
        Some(i) => Some(&templates[i]),
        None => None,
    }
}

/// The ids of `templates`.
pub open spec fn ids_of(templates: Seq<Template>) -> Seq<Seq<char>> {
    Seq::new(templates.len(), |i: int| templates[i].id@)
}

/// The texts of `names`.
pub open spec fn texts_of(names: Seq<String>) -> Seq<Seq<char>> {
    Seq::new(names.len(), |i: int| names[i]@)
}

/// The ids of the templates, in the order of the registry.
pub fn list_all(templates: &Vec<Template>) -> (ids: Vec<String>)
    ensures
        texts_of(ids@) == ids_of(templates@),
{
    let mut ids: Vec<String> = Vec::new();
    let mut i: usize = 0;
    while i < templates.len()
        invariant
            i <= templates@.len(),
            ids@.len() == i,
            texts_of(ids@) == ids_of(templates@.take(i as int)),
        decreases templates.len() - i,
    {
        let ghost before = ids@;
        ids.push(templates[i].id.clone());
        i += 1;
        assert forall|j: int| 0 <= j < i implies texts_of(ids@)[j] == ids_of(
            templates@.take(i as int),
        )[j] by {
            if j < i - 1 {
                assert(texts_of(before)[j] == ids_of(templates@.take(i - 1))[j]);
            }
        }
        assert(texts_of(ids@) =~= ids_of(templates@.take(i as int)));
    }
    assert(templates@.take(i as int) =~= templates@);
    ids
}

/// The templates that `references` refer to.
pub open spec fn referred(references: Seq<&Template>) -> Seq<Template> {
    Seq::new(references.len(), |i: int| *references[i])
}

/// The git-hosted templates among `templates`, in their order.
pub open spec fn git_hosted(templates: Seq<Template>) -> Seq<Template> {
    templates.filter(|template: Template| template.is_git())
}

/// The git-hosted templates of the registry, in the order of the registry.
pub fn git_sourced<'a>(templates: &'a Vec<Template>) -> (hosted: Vec<&'a Template>)
    ensures
        referred(hosted@) == git_hosted(templates@),
{
    let mut hosted: Vec<&'a Template> = Vec::new();
    let mut i: usize = 0;
    assert(referred(hosted@) =~= git_hosted(templates@.take(0))) by {
        reveal(Seq::filter);
    }
    while i < templates.len()
        invariant
            i <= templates@.len(),
            referred(hosted@) == git_hosted(templates@.take(i as int)),
        decreases templates.len() - i,
    {
        let ghost before = referred(hosted@);
        if templates[i].uses_git() {
            hosted.push(&templates[i]);
        }
        i += 1;
        proof {
            reveal(Seq::filter);
            let now = templates@.take(i as int);
            assert(now.drop_last() =~= templates@.take(i - 1));
            assert(now.last() == templates@[i - 1]);
            assert(referred(hosted@) =~= git_hosted(now));
        }
    }
    assert(templates@.take(i as int) =~= templates@);
    hosted
}

/// The lines of a listing, one for each of `ids`, each after a line break but
/// the first.
pub open spec fn listed(ids: Seq<Seq<char>>) -> Seq<char>
    decreases ids.len(),
{
    if ids.len() == 0 {
        Seq::empty()
    } else if ids.len() == 1 {
        " - "@ + ids[0]
    } else {
        listed(ids.drop_last()) + "\n"@ + " - "@ + ids.last()
    }
}

/// The listing of the templates: a heading, then one line for each id.
pub fn list_templates(templates: &Vec<Template>) -> (listing: String)
    ensures
        listing@ == "=== Templates ===\n"@ + listed(ids_of(templates@)),
{
    let mut lines = String::new();
    let mut i: usize = 0;
    assert(ids_of(templates@.take(0)) =~= Seq::empty());
    while i < templates.len()
        invariant
            i <= templates@.len(),
            lines@ == listed(ids_of(templates@.take(i as int))),
        decreases templates.len() - i,
    {
        let ghost before = ids_of(templates@.take(i as int));
        if i > 0 {
            lines.append("\n");
        }
        lines.append(" - ");
        lines.append(templates[i].id.as_str());
        i += 1;
        proof {
            let now = ids_of(templates@.take(i as int));
            assert(now.drop_last() =~= before);
            assert(now.last() == templates@[i - 1].id@);
            if i == 1 {
                assert(lines@ =~= " - "@ + now[0]);
            } else {
                assert(lines@ =~= listed(before) + "\n"@ + " - "@ + now.last());
            }
        }
    }
    assert(templates@.take(i as int) =~= templates@);
    String::from_str("=== Templates ===\n").concat(lines.as_str())
}

} // verus!
