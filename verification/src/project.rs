//! Making a new project from a template.

use vstd::prelude::*;
use vstd::string::*;

use crate::path::joined;
use crate::templates::validate::{
    ValidateError, ValidateErrorView, AUTHOR_KEY, SUBTITLE_KEY, TITLE_KEY,
};
use crate::text::{
    chars_of, is_space, is_whitespace, lemma_replaced_keeps, lemma_replaced_puts,
    lemma_replaced_words, made_of_capitals, occurs_at, occurs_in, replace, replaced,
    stands_apart, string_of, words_apart,
};

pub mod create;

pub use crate::project::create::create;

verus! {

/// The character that stands for `c` in the name of a directory: an
/// underscore for white space, a backslash for the path separator, and `c`
/// itself otherwise.
pub open spec fn safe_char(c: char) -> char {
    if is_space(c) {
        '_'
    } else if c == '/' {
        '\\'
    } else {
        c
    }
}

/// The name of the directory of a project with the title `title`: the title
/// with each character replaced by the one that stands for it.
pub open spec fn sanitized(title: Seq<char>) -> Seq<char> {
    Seq::new(title.len(), |i: int| safe_char(title[i]))
}

/// The name of the directory of a project with the title `title`. It has the
/// length of the title and holds neither white space nor a path separator.
pub fn sanitize(title: &str) -> (name: String)
    ensures
        name@ == sanitized(title@),
        name@.len() == title@.len(),
        forall|i: int| 0 <= i < name@.len() ==> !is_space(#[trigger] name@[i]) && name@[i] != '/',
{
    let chars = chars_of(title);
    let mut out: Vec<char> = Vec::new();
    let mut i: usize = 0;
    while i < chars.len()
        invariant
            i <= chars.len(),
            out@.len() == i,
            forall|j: int| 0 <= j < i ==> #[trigger] out@[j] == safe_char(chars@[j]),
        decreases chars.len() - i,
    {
        let c = chars[i];
        let safe = if is_whitespace(c) {
            '_'
        } else if c == '/' {
            '\\'
        } else {
            c
        };
        out.push(safe);
        i += 1;
    }
    assert(out@ =~= sanitized(title@));
    string_of(&out)
}

/// The directory of a project with the title `title` below `parent`.
pub open spec fn project_path(parent: Seq<char>, title: Seq<char>) -> Seq<char> {
    joined(parent, sanitized(title))
}

/// `text` with the three placeholders replaced: first the one for the
/// subtitle, then the one for the title, then the one for the author.
pub open spec fn substituted(
    text: Seq<char>,
    title: Seq<char>,
    subtitle: Seq<char>,
    author: Seq<char>,
) -> Seq<char> {
    replaced(
        replaced(replaced(text, SUBTITLE_KEY@, subtitle), TITLE_KEY@, title),
        AUTHOR_KEY@,
        author,
    )
}

/// `text` with the three placeholders replaced by the subtitle, the title
/// and the author.
pub fn substitute(text: &str, title: &str, subtitle: &str, author: &str) -> (out: String)
    ensures
        out@ == substituted(text@, title@, subtitle@, author@),
{
    let first = replace(text, SUBTITLE_KEY, subtitle);
    let second = replace(first.as_str(), TITLE_KEY, title);
    replace(second.as_str(), AUTHOR_KEY, author)
}

/// Why no project was made.
#[derive(Debug, Clone, PartialEq, Eq)]
pub enum Error {
    /// The registry holds no template.
    NoTemplates,
    /// The registry holds no template with this id.
    UnknownTemplate(String),
    /// Something exists already where the project would go.
    DestinationExists(String),
    /// The template is not sound.
    Validate(ValidateError),
    /// A file or directory of the template could not be copied.
    CopyFailed { path: String, cause: String },
    /// The marker file of the new project could not be read.
    MarkerReadFailed { path: String, cause: String },
    /// The marker file of the new project could not be written.
    SubstitutionWriteFailed { path: String, cause: String },
}

/// What a [`Error`] holds, with every text as the sequence of its characters.
pub enum ErrorView {
    NoTemplates,
    UnknownTemplate(Seq<char>),
    DestinationExists(Seq<char>),
    Validate(ValidateErrorView),
    CopyFailed { path: Seq<char>, cause: Seq<char> },
    MarkerReadFailed { path: Seq<char>, cause: Seq<char> },
    SubstitutionWriteFailed { path: Seq<char>, cause: Seq<char> },
}

impl View for Error {
    type V = ErrorView;

    open spec fn view(&self) -> ErrorView {
        match self {
            Error::NoTemplates => ErrorView::NoTemplates,
            Error::UnknownTemplate(id) => ErrorView::UnknownTemplate(id@),
            Error::DestinationExists(path) => ErrorView::DestinationExists(path@),
            Error::Validate(error) => ErrorView::Validate(error@),
            Error::CopyFailed { path, cause } => ErrorView::CopyFailed {
                path: path@,
                cause: cause@,
            },
            Error::MarkerReadFailed { path, cause } => ErrorView::MarkerReadFailed {
                path: path@,
                cause: cause@,
            },
            Error::SubstitutionWriteFailed { path, cause } => ErrorView::SubstitutionWriteFailed {
                path: path@,
                cause: cause@,
            },
        }
    }
}

impl ErrorView {
    /// The error in words.
    pub open spec fn message(self) -> Seq<char> {
        match self {
            ErrorView::NoTemplates =>
                "There are currently 0 templates.\nAt least 1 template is required to use this tool"@,
            ErrorView::UnknownTemplate(id) => "Template `"@ + id + "` is invalid"@,
            ErrorView::DestinationExists(path) => "Will not create project directory at `"@ + path
                + "`: directory already exists"@,
            ErrorView::Validate(error) => "Cannot use invalid project: "@ + error.message(),
            ErrorView::CopyFailed { path, cause } => "Could not write to file (at `"@ + path
                + "`): "@ + cause,
            ErrorView::MarkerReadFailed { path, cause } => "Could not read file (at `"@ + path
                + "`): "@ + cause,
            ErrorView::SubstitutionWriteFailed { path, cause } => "Could not write to file (at `"@
                + path + "`): "@ + cause,
        }
    }
}

impl Error {
    /// The error in words.
    pub fn message(&self) -> (text: String)
        ensures
            text@ == self@.message(),
    {
        match self {
            Error::NoTemplates => String::from_str(
                "There are currently 0 templates.\nAt least 1 template is required to use this tool",
            ),
            Error::UnknownTemplate(id) => String::from_str("Template `").concat(
                id.as_str(),
            ).concat("` is invalid"),
            Error::DestinationExists(path) => String::from_str(
                "Will not create project directory at `",
            ).concat(path.as_str()).concat("`: directory already exists"),
            Error::Validate(error) => String::from_str("Cannot use invalid project: ").concat(
                error.message().as_str(),
            ),
            Error::CopyFailed { path, cause } => String::from_str(
                "Could not write to file (at `",
            ).concat(path.as_str()).concat("`): ").concat(cause.as_str()),
            Error::MarkerReadFailed { path, cause } => String::from_str(
                "Could not read file (at `",
            ).concat(path.as_str()).concat("`): ").concat(cause.as_str()),
            Error::SubstitutionWriteFailed { path, cause } => String::from_str(
                "Could not write to file (at `",
            ).concat(path.as_str()).concat("`): ").concat(cause.as_str()),
        }
    }
}

/// A project that was made.
#[derive(Debug, Clone, PartialEq, Eq)]
pub struct Created {
    /// The directory of the project.
    pub path: String,
    /// The marker file in which the placeholders were replaced. There is
    /// none where the copy holds no marker file: the project is then made,
    /// and nothing in it was replaced.
    pub marker: Option<String>,
}

/// What a [`Created`] holds, with every text as the sequence of its characters.
pub struct CreatedView {
    pub path: Seq<char>,
    pub marker: Option<Seq<char>>,
}

impl View for Created {
    type V = CreatedView;

    open spec fn view(&self) -> CreatedView {
        CreatedView {
            path: self.path@,
            marker: match self.marker {
                Some(marker) => Some(marker@),
                None => None,
            },
        }
    }
}

/// The three placeholders.
pub open spec fn keys() -> Set<Seq<char>> {
    set![TITLE_KEY@, SUBTITLE_KEY@, AUTHOR_KEY@]
}

proof fn lemma_keys()
    ensures
        forall|key: Seq<char>| keys().contains(key) ==> made_of_capitals(key),
        forall|key: Seq<char>| keys().contains(key) ==> occurs_at(key, "VITEX_"@, 0),
        !occurs_in(TITLE_KEY@, SUBTITLE_KEY@),
        !occurs_in(SUBTITLE_KEY@, TITLE_KEY@),
        !occurs_in(TITLE_KEY@, AUTHOR_KEY@),
        !occurs_in(AUTHOR_KEY@, TITLE_KEY@),
        !occurs_in(SUBTITLE_KEY@, AUTHOR_KEY@),
        !occurs_in(AUTHOR_KEY@, SUBTITLE_KEY@),
{
    reveal_strlit("VITEX_TITLE_PLACEHOLDER");
    reveal_strlit("VITEX_SUBTITLE_PLACEHOLDER");
    reveal_strlit("VITEX_AUTHOR_PLACEHOLDER");
    reveal_strlit("VITEX_");
    let title = TITLE_KEY@;
    let subtitle = SUBTITLE_KEY@;
    let author = AUTHOR_KEY@;
    let prefix = "VITEX_"@;
    assert(title.len() == 23 && subtitle.len() == 26 && author.len() == 24 && prefix.len() == 6);
    assert(made_of_capitals(title));
    assert(made_of_capitals(subtitle));
    assert(made_of_capitals(author));
    assert(title.subrange(0, 6) =~= prefix);
    assert(subtitle.subrange(0, 6) =~= prefix);
    assert(author.subrange(0, 6) =~= prefix);
    assert forall|at: int| !occurs_at(subtitle, title, at) by {
        if occurs_at(subtitle, title, at) {
            assert(subtitle.subrange(at, at + 23)[0] == subtitle[at]);
            assert(subtitle.subrange(at, at + 23)[6] == subtitle[at + 6]);
        }
    }
    assert forall|at: int| !occurs_at(author, title, at) by {
        if occurs_at(author, title, at) {
            assert(author.subrange(at, at + 23)[0] == author[at]);
            assert(author.subrange(at, at + 23)[6] == author[at + 6]);
        }
    }
    assert forall|at: int| !occurs_at(subtitle, author, at) by {
        if occurs_at(subtitle, author, at) {
            assert(subtitle.subrange(at, at + 24)[0] == subtitle[at]);
            assert(subtitle.subrange(at, at + 24)[6] == subtitle[at + 6]);
        }
    }
}

/// A text that does not hold `VITEX_` holds none of the placeholders.
proof fn lemma_holds_no_key(value: Seq<char>)
    requires
        !occurs_in(value, "VITEX_"@),
    ensures
        forall|key: Seq<char>| keys().contains(key) ==> !occurs_in(value, key),
{
    lemma_keys();
    reveal_strlit("VITEX_");
    let prefix = "VITEX_"@;
    assert forall|key: Seq<char>| keys().contains(key) implies !occurs_in(value, key) by {
        assert forall|at: int| !occurs_at(value, key, at) by {
            if occurs_at(value, key, at) {
                assert(value.subrange(at, at + 6) =~= value.subrange(
                    at,
                    at + key.len(),
                ).subrange(0, 6));
                assert(occurs_at(value, prefix, at));
            }
        }
    }
}

/// Where each placeholder in a text stands apart, between characters that
/// are neither capital letters nor underscores, and neither the title, the
/// subtitle nor the author holds `VITEX_`, the text with the placeholders
/// replaced holds none of the placeholders; and it holds the title and the
/// author where the text held their placeholders.
pub proof fn lemma_substitution_leaves_no_placeholder(
    text: Seq<char>,
    title: Seq<char>,
    subtitle: Seq<char>,
    author: Seq<char>,
)
    requires
        words_apart(text, keys()),
        !occurs_in(title, "VITEX_"@),
        !occurs_in(subtitle, "VITEX_"@),
        !occurs_in(author, "VITEX_"@),
    ensures
        !occurs_in(substituted(text, title, subtitle, author), TITLE_KEY@),
        !occurs_in(substituted(text, title, subtitle, author), SUBTITLE_KEY@),
        !occurs_in(substituted(text, title, subtitle, author), AUTHOR_KEY@),
        occurs_in(text, TITLE_KEY@) ==> occurs_in(
            substituted(text, title, subtitle, author),
            title,
        ),
        occurs_in(text, AUTHOR_KEY@) ==> occurs_in(
            substituted(text, title, subtitle, author),
            author,
        ),
{
    lemma_keys();
    lemma_holds_no_key(title);
    lemma_holds_no_key(subtitle);
    lemma_holds_no_key(author);
    let all = keys();
    let first = replaced(text, SUBTITLE_KEY@, subtitle);
    let second = replaced(first, TITLE_KEY@, title);
    let third = replaced(second, AUTHOR_KEY@, author);
    lemma_replaced_words(text, SUBTITLE_KEY@, subtitle, all);
    lemma_replaced_words(first, TITLE_KEY@, title, all);
    lemma_replaced_words(second, AUTHOR_KEY@, author, all);
    if occurs_in(third, SUBTITLE_KEY@) {
        assert(occurs_in(second, SUBTITLE_KEY@));
        assert(occurs_in(first, SUBTITLE_KEY@));
    }
    if occurs_in(text, AUTHOR_KEY@) {
        let at = choose|at: int| occurs_at(text, AUTHOR_KEY@, at);
        assert(stands_apart(text, AUTHOR_KEY@, at));
        lemma_replaced_keeps(text, SUBTITLE_KEY@, subtitle, AUTHOR_KEY@, at);
        let at1 = replaced(text.take(at), SUBTITLE_KEY@, subtitle).len() as int;
        lemma_replaced_keeps(first, TITLE_KEY@, title, AUTHOR_KEY@, at1);
        let at2 = replaced(first.take(at1), TITLE_KEY@, title).len() as int;
        lemma_replaced_puts(second, AUTHOR_KEY@, author, at2);
        assert(occurs_at(
            third,
            author,
            replaced(second.take(at2), AUTHOR_KEY@, author).len() as int,
        ));
    }
    if occurs_in(text, TITLE_KEY@) {
        let at = choose|at: int| occurs_at(text, TITLE_KEY@, at);
        assert(stands_apart(text, TITLE_KEY@, at));
        lemma_replaced_keeps(text, SUBTITLE_KEY@, subtitle, TITLE_KEY@, at);
        let at1 = replaced(text.take(at), SUBTITLE_KEY@, subtitle).len() as int;
        lemma_replaced_puts(first, TITLE_KEY@, title, at1);
        let at2 = replaced(first.take(at1), TITLE_KEY@, title).len() as int;
        lemma_replaced_keeps(second, AUTHOR_KEY@, author, title, at2);
        assert(occurs_at(
            third,
            title,
            replaced(second.take(at2), AUTHOR_KEY@, author).len() as int,
        ));
    }
}

} // verus!
