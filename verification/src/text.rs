//! Text as a sequence of characters: finding a word and replacing it.

use vstd::prelude::*;
use vstd::string::*;

verus! {

/// `word` stands in `text` at position `at`.
pub open spec fn occurs_at(text: Seq<char>, word: Seq<char>, at: int) -> bool {
    &&& 0 <= at
    &&& at + word.len() <= text.len()
    &&& text.subrange(at, at + word.len()) == word
}

/// `word` stands somewhere in `text`.
pub open spec fn occurs_in(text: Seq<char>, word: Seq<char>) -> bool {
    exists|at: int| occurs_at(text, word, at)
}

/// `text` with every occurrence of `from` replaced by `to`, reading from the
/// left and never looking again at what was already replaced. An empty `from`
/// is replaced nowhere.
pub open spec fn replaced(text: Seq<char>, from: Seq<char>, to: Seq<char>) -> Seq<char>
    decreases text.len(),
{
    if text.len() == 0 {
        text
    } else if from.len() > 0 && occurs_at(text, from, 0) {
        to + replaced(text.skip(from.len() as int), from, to)
    } else {
        seq![text[0]] + replaced(text.skip(1), from, to)
    }
}

/// Whether `c` is white space, as Unicode has it: one of the characters that
/// are named `White_Space` there.
pub open spec fn is_space(c: char) -> bool {
    let n = c as u32;
    ||| 0x09 <= n <= 0x0D
    ||| n == 0x20
    ||| n == 0x85
    ||| n == 0xA0
    ||| n == 0x1680
    ||| 0x2000 <= n <= 0x200A
    ||| n == 0x2028
    ||| n == 0x2029
    ||| n == 0x202F
    ||| n == 0x205F
    ||| n == 0x3000
}

/// `text` without the white space at its start.
pub open spec fn trimmed_start(text: Seq<char>) -> Seq<char>
    decreases text.len(),
{
    if text.len() > 0 && is_space(text[0]) {
        trimmed_start(text.skip(1))
    } else {
        text
    }
}

/// `text` without the white space at its end.
pub open spec fn trimmed_end(text: Seq<char>) -> Seq<char>
    decreases text.len(),
{
    if text.len() > 0 && is_space(text.last()) {
        trimmed_end(text.drop_last())
    } else {
        text
    }
}

/// `text` without the white space at its end and at its start.
pub open spec fn trimmed(text: Seq<char>) -> Seq<char> {
    trimmed_start(trimmed_end(text))
}

/// `String::push`: the string grows by the one character, at its end.
#[verifier::external_body]
fn push_char(text: &mut String, c: char)
    ensures
        final(text)@ == old(text)@.push(c),
{
    text.push(c);
}

/// The characters of `text`, in order.
pub fn chars_of(text: &str) -> (chars: Vec<char>)
    ensures
        chars@ == text@,
{
    let mut chars: Vec<char> = Vec::new();
    for c in it: text.chars()
        invariant
            it.seq() == text@,
            chars@ == text@.take(it.index() as int),
    {
        chars.push(c);
        assert(chars@ =~= text@.take(it.index() + 1));
    }
    assert(chars@ =~= text@);
    chars
}

/// The string made of `chars`, in order.
pub fn string_of(chars: &Vec<char>) -> (text: String)
    ensures
        text@ == chars@,
{
    let mut text = String::new();
    let mut i: usize = 0;
    while i < chars.len()
        invariant
            i <= chars.len(),
            text@ == chars@.take(i as int),
        decreases chars.len() - i,
    {
        push_char(&mut text, chars[i]);
        i += 1;
        assert(text@ =~= chars@.take(i as int));
    }
    assert(text@ =~= chars@);
    text
}

/// Whether `c` is white space.
pub fn is_whitespace(c: char) -> (space: bool)
    ensures
        space == is_space(c),
{
    let n: u32 = c as u32;
    (0x09 <= n && n <= 0x0D) || n == 0x20 || n == 0x85 || n == 0xA0 || n == 0x1680 || (0x2000 <= n
        && n <= 0x200A) || n == 0x2028 || n == 0x2029 || n == 0x202F || n == 0x205F || n == 0x3000
}

/// `text` without the white space at its end and at its start.
pub fn trim(text: &str) -> (out: String)
    ensures
        out@ == trimmed(text@),
{
    let chars = chars_of(text);
    let mut end: usize = chars.len();
    assert(chars@.take(end as int) =~= chars@);
    while end > 0 && is_whitespace(chars[end - 1])
        invariant
            end <= chars.len(),
            trimmed_end(chars@) == trimmed_end(chars@.take(end as int)),
        decreases end,
    {
        assert(chars@.take(end as int).drop_last() =~= chars@.take(end - 1));
        end -= 1;
    }
    let ghost kept = chars@.take(end as int);
    assert(trimmed_end(chars@) == kept);
    let mut start: usize = 0;
    assert(kept.skip(0) =~= kept);
    while start < end && is_whitespace(chars[start])
        invariant
            start <= end <= chars.len(),
            kept == chars@.take(end as int),
            trimmed_start(kept) == trimmed_start(kept.skip(start as int)),
        decreases end - start,
    {
        assert(kept.skip(start as int).skip(1) =~= kept.skip(start + 1));
        start += 1;
    }
    assert(trimmed_start(kept) == kept.skip(start as int));
    let mut out: Vec<char> = Vec::new();
    let mut i: usize = start;
    while i < end
        invariant
            start <= i <= end <= chars.len(),
            out@ == chars@.subrange(start as int, i as int),
        decreases end - i,
    {
        out.push(chars[i]);
        i += 1;
        assert(out@ =~= chars@.subrange(start as int, i as int));
    }
    assert(out@ =~= kept.skip(start as int));
    string_of(&out)
}

/// Whether `word` stands in `text` at position `at`.
pub fn matches_at(text: &Vec<char>, word: &Vec<char>, at: usize) -> (found: bool)
    ensures
        found == occurs_at(text@, word@, at as int),
{
    if at > text.len() || word.len() > text.len() - at {
        return false;
    }
    let mut k: usize = 0;
    while k < word.len()
        invariant
            k <= word.len(),
            at + word.len() <= text.len(),
            forall|j: int| 0 <= j < k ==> text@[at + j] == word@[j],
        decreases word.len() - k,
    {
        if text[at + k] != word[k] {
            assert(text@.subrange(at as int, at + word.len())[k as int] != word@[k as int]);
            return false;
        }
        k += 1;
    }
    assert(text@.subrange(at as int, at + word.len()) =~= word@);
    true
}

/// Whether `word` stands somewhere in `text`.
pub fn contains(text: &str, word: &str) -> (found: bool)
    ensures
        found == occurs_in(text@, word@),
{
    let hay = chars_of(text);
    let needle = chars_of(word);
    if needle.len() > hay.len() {
        return false;
    }
    if needle.len() == 0 {
        assert(text@.subrange(0, 0) =~= word@);
        assert(occurs_at(text@, word@, 0));
        return true;
    }
    let last: usize = hay.len() - needle.len();
    let mut at: usize = 0;
    while at <= last
        invariant
            hay@ == text@,
            needle@ == word@,
            0 < needle.len() <= hay.len(),
            last == hay.len() - needle.len(),
            at <= last + 1,
            forall|j: int| 0 <= j < at ==> !occurs_at(text@, word@, j),
        decreases last + 1 - at,
    {
        if matches_at(&hay, &needle, at) {
            assert(occurs_at(text@, word@, at as int));
            return true;
        }
        at += 1;
    }
    false
}

/// `text` with every occurrence of `from` replaced by `to`.
pub fn replace(text: &str, from: &str, to: &str) -> (out: String)
    ensures
        out@ == replaced(text@, from@, to@),
{
    let source = chars_of(text);
    let word = chars_of(from);
    let with = chars_of(to);
    let mut out: Vec<char> = Vec::new();
    let mut i: usize = 0;
    assert(source@.skip(0) =~= source@);
    assert(out@ + replaced(source@, word@, with@) =~= replaced(source@, word@, with@));
    while i < source.len()
        invariant
            i <= source.len(),
            out@ + replaced(source@.skip(i as int), word@, with@) == replaced(
                source@,
                word@,
                with@,
            ),
        decreases source.len() - i,
    {
        let ghost rest = source@.skip(i as int);
        assert(occurs_at(rest, word@, 0) == occurs_at(source@, word@, i as int)) by {
            if i + word@.len() <= source@.len() {
                assert(rest.subrange(0, word@.len() as int) =~= source@.subrange(
                    i as int,
                    i + word@.len(),
                ));
            }
        }
        let ghost before = out@;
        if word.len() > 0 && matches_at(&source, &word, i) {
            let mut k: usize = 0;
            while k < with.len()
                invariant
                    k <= with.len(),
                    out@ == before + with@.take(k as int),
                decreases with.len() - k,
            {
                out.push(with[k]);
                k += 1;
                assert(out@ =~= before + with@.take(k as int));
            }
            assert(with@.take(with@.len() as int) =~= with@);
            assert(rest.skip(word@.len() as int) =~= source@.skip(i + word@.len()));
            assert(out@ + replaced(source@.skip(i + word@.len()), word@, with@) =~= before
                + replaced(rest, word@, with@));
            i += word.len();
        } else {
            out.push(source[i]);
            assert(rest.skip(1) =~= source@.skip(i + 1));
            assert(out@ + replaced(source@.skip(i + 1), word@, with@) =~= before + replaced(
                rest,
                word@,
                with@,
            ));
            i += 1;
        }
    }
    assert(source@.skip(i as int).len() == 0);
    assert(out@ + replaced(source@.skip(i as int), word@, with@) =~= out@);
    string_of(&out)
}

/// Whether `c` is a capital letter from `A` to `Z` or an underscore.
pub open spec fn is_capital_or_underscore(c: char) -> bool {
    let n = c as u32;
    0x41 <= n <= 0x5A || c == '_'
}

/// `word` is not empty and made of capital letters and underscores only.
pub open spec fn made_of_capitals(word: Seq<char>) -> bool {
    &&& word.len() > 0
    &&& forall|i: int| 0 <= i < word.len() ==> is_capital_or_underscore(#[trigger] word[i])
}

/// `word` stands in `text` at position `at`, and neither the character before
/// it nor the one behind it, where there is one, is a capital letter or an
/// underscore.
pub open spec fn stands_apart(text: Seq<char>, word: Seq<char>, at: int) -> bool {
    &&& occurs_at(text, word, at)
    &&& at > 0 ==> !is_capital_or_underscore(text[at - 1])
    &&& at + word.len() < text.len() ==> !is_capital_or_underscore(text[at + word.len()])
}

/// Wherever one of `words` stands in `text`, it stands apart.
pub open spec fn words_apart(text: Seq<char>, words: Set<Seq<char>>) -> bool {
    forall|word: Seq<char>, at: int|
        words.contains(word) && #[trigger] occurs_at(text, word, at) ==> stands_apart(
            text,
            word,
            at,
        )
}

/// Replacing distributes over a cut that no occurrence of the word lies
/// across.
pub proof fn lemma_replaced_splits(text: Seq<char>, from: Seq<char>, to: Seq<char>, k: int)
    requires
        0 <= k <= text.len(),
        forall|q: int| 0 <= q < k && #[trigger] occurs_at(text, from, q) ==> q + from.len() <= k,
    ensures
        replaced(text, from, to) == replaced(text.take(k), from, to) + replaced(
            text.skip(k),
            from,
            to,
        ),
    decreases text.len(),
{
    let head = text.take(k);
    let n = from.len() as int;
    if k == 0 {
        assert(text.skip(0) =~= text);
        assert(replaced(head, from, to) + replaced(text, from, to) =~= replaced(text, from, to));
    } else if n > 0 && occurs_at(text, from, 0) {
        assert(head.subrange(0, n) =~= text.subrange(0, n));
        let rest = text.skip(n);
        assert forall|q: int| 0 <= q < k - n && #[trigger] occurs_at(rest, from, q) implies q + n
            <= k - n by {
            assert(rest.subrange(q, q + n) =~= text.subrange(q + n, q + n + n));
            assert(occurs_at(text, from, q + n));
        }
        lemma_replaced_splits(rest, from, to, k - n);
        assert(rest.take(k - n) =~= head.skip(n));
        assert(rest.skip(k - n) =~= text.skip(k));
        assert(to + (replaced(head.skip(n), from, to) + replaced(text.skip(k), from, to)) =~= (to
            + replaced(head.skip(n), from, to)) + replaced(text.skip(k), from, to));
    } else {
        if n > 0 && occurs_at(head, from, 0) {
            assert(text.subrange(0, n) =~= head.subrange(0, n));
        }
        let rest = text.skip(1);
        assert forall|q: int| 0 <= q < k - 1 && #[trigger] occurs_at(rest, from, q) implies q + n
            <= k - 1 by {
            assert(rest.subrange(q, q + n) =~= text.subrange(q + 1, q + 1 + n));
            assert(occurs_at(text, from, q + 1));
        }
        lemma_replaced_splits(rest, from, to, k - 1);
        assert(rest.take(k - 1) =~= head.skip(1));
        assert(rest.skip(k - 1) =~= text.skip(k));
        assert(head[0] == text[0]);
        assert(seq![text[0]] + (replaced(head.skip(1), from, to) + replaced(
            text.skip(k),
            from,
            to,
        )) =~= (seq![text[0]] + replaced(head.skip(1), from, to)) + replaced(
            text.skip(k),
            from,
            to,
        ));
    }
}

/// Replacing a word in a text that does not hold it leaves the text as it
/// is.
pub proof fn lemma_replaced_unchanged(text: Seq<char>, from: Seq<char>, to: Seq<char>)
    requires
        !occurs_in(text, from),
    ensures
        replaced(text, from, to) == text,
    decreases text.len(),
{
    if text.len() > 0 {
        assert(!occurs_at(text, from, 0));
        let rest = text.skip(1);
        let n = from.len() as int;
        assert forall|at: int| !occurs_at(rest, from, at) by {
            if occurs_at(rest, from, at) {
                assert(rest.subrange(at, at + n) =~= text.subrange(at + 1, at + 1 + n));
                assert(occurs_at(text, from, at + 1));
            }
        }
        lemma_replaced_unchanged(rest, from, to);
        assert(seq![text[0]] + rest =~= text);
    }
}

/// Replacing a word of capitals copies a first character that is no capital.
proof fn lemma_replaced_first(text: Seq<char>, from: Seq<char>, to: Seq<char>)
    requires
        made_of_capitals(from),
        text.len() > 0,
        !is_capital_or_underscore(text[0]),
    ensures
        replaced(text, from, to) == seq![text[0]] + replaced(text.skip(1), from, to),
{
    if occurs_at(text, from, 0) {
        assert(text.subrange(0, from.len() as int)[0] == from[0]);
    }
}

/// Replacing a word of capitals copies a last character that is no capital.
proof fn lemma_replaced_last(text: Seq<char>, from: Seq<char>, to: Seq<char>)
    requires
        made_of_capitals(from),
        text.len() > 0,
        !is_capital_or_underscore(text.last()),
    ensures
        replaced(text, from, to) == replaced(text.drop_last(), from, to).push(text.last()),
{
    let k = text.len() - 1;
    let n = from.len() as int;
    assert forall|q: int| 0 <= q < k && #[trigger] occurs_at(text, from, q) implies q + n
        <= k by {
        if q + n > k {
            assert(text.subrange(q, q + n)[k - q] == text[k]);
        }
    }
    lemma_replaced_splits(text, from, to, k);
    let tail = text.skip(k);
    lemma_replaced_first(tail, from, to);
    assert(replaced(tail, from, to) =~= seq![text.last()]);
    assert(text.take(k) =~= text.drop_last());
    assert(replaced(text.drop_last(), from, to) + seq![text.last()] =~= replaced(
        text.drop_last(),
        from,
        to,
    ).push(text.last()));
}

/// Replacing a word of capitals that stands apart puts the replacement where
/// the word stood, and the replacement stands apart there.
pub proof fn lemma_replaced_puts(text: Seq<char>, from: Seq<char>, to: Seq<char>, at: int)
    requires
        made_of_capitals(from),
        stands_apart(text, from, at),
    ensures
        replaced(text, from, to) == replaced(text.take(at), from, to) + to + replaced(
            text.skip(at + from.len()),
            from,
            to,
        ),
        stands_apart(replaced(text, from, to), to, replaced(text.take(at), from, to).len() as int),
{
    let n = from.len() as int;
    assert forall|q: int| 0 <= q < at && #[trigger] occurs_at(text, from, q) implies q + n
        <= at by {
        if q + n > at {
            assert(text.subrange(q, q + n)[at - 1 - q] == text[at - 1]);
        }
    }
    lemma_replaced_splits(text, from, to, at);
    let before = text.take(at);
    let latter = text.skip(at);
    let behind = text.skip(at + n);
    assert(latter.subrange(0, n) =~= text.subrange(at, at + n));
    assert(latter.skip(n) =~= behind);
    let head = replaced(before, from, to);
    let tail = replaced(behind, from, to);
    let out = replaced(text, from, to);
    assert(out =~= head + to + tail);
    assert(out.subrange(head.len() as int, (head.len() + to.len()) as int) =~= to);
    if at > 0 {
        assert(before.last() == text[at - 1]);
        lemma_replaced_last(before, from, to);
        assert(out[head.len() - 1] == text[at - 1]);
    } else {
        assert(head.len() == 0);
    }
    if behind.len() > 0 {
        assert(behind[0] == text[at + n]);
        lemma_replaced_first(behind, from, to);
        assert(out[(head.len() + to.len()) as int] == text[at + n]);
    } else {
        assert(tail.len() == 0);
    }
}

/// Replacing a word of capitals keeps whatever stands apart and does not
/// hold the word, and it stands apart afterwards.
pub proof fn lemma_replaced_keeps(
    text: Seq<char>,
    from: Seq<char>,
    to: Seq<char>,
    word: Seq<char>,
    at: int,
)
    requires
        made_of_capitals(from),
        stands_apart(text, word, at),
        !occurs_in(word, from),
    ensures
        replaced(text, from, to) == replaced(text.take(at), from, to) + word + replaced(
            text.skip(at + word.len()),
            from,
            to,
        ),
        stands_apart(
            replaced(text, from, to),
            word,
            replaced(text.take(at), from, to).len() as int,
        ),
{
    let n = from.len() as int;
    let m = word.len() as int;
    assert forall|q: int| 0 <= q < at && #[trigger] occurs_at(text, from, q) implies q + n
        <= at by {
        if q + n > at {
            assert(text.subrange(q, q + n)[at - 1 - q] == text[at - 1]);
        }
    }
    lemma_replaced_splits(text, from, to, at);
    let before = text.take(at);
    let latter = text.skip(at);
    let behind = text.skip(at + m);
    assert forall|q: int| 0 <= q < m && #[trigger] occurs_at(latter, from, q) implies q + n
        <= m by {
        if q + n > m {
            assert(latter.subrange(q, q + n)[m - q] == latter[m]);
            assert(latter[m] == text[at + m]);
        }
    }
    lemma_replaced_splits(latter, from, to, m);
    assert(latter.take(m) =~= text.subrange(at, at + m));
    assert(latter.skip(m) =~= behind);
    lemma_replaced_unchanged(word, from, to);
    let head = replaced(before, from, to);
    let tail = replaced(behind, from, to);
    let out = replaced(text, from, to);
    assert(out =~= head + word + tail);
    assert(out.subrange(head.len() as int, (head.len() + m) as int) =~= word);
    if at > 0 {
        assert(before.last() == text[at - 1]);
        lemma_replaced_last(before, from, to);
        assert(out[head.len() - 1] == text[at - 1]);
    } else {
        assert(head.len() == 0);
    }
    if behind.len() > 0 {
        assert(behind[0] == text[at + m]);
        lemma_replaced_first(behind, from, to);
        assert(out[(head.len() + m) as int] == text[at + m]);
    } else {
        assert(tail.len() == 0);
    }
}

/// The first place at which a word stands in a text that holds it.
proof fn lemma_first_occurrence(text: Seq<char>, word: Seq<char>, at: int) -> (first: int)
    requires
        occurs_at(text, word, at),
    ensures
        0 <= first <= at,
        occurs_at(text, word, first),
        forall|q: int| 0 <= q < first ==> !occurs_at(text, word, q),
    decreases at,
{
    if exists|q: int| 0 <= q < at && occurs_at(text, word, q) {
        let q = choose|q: int| 0 <= q < at && occurs_at(text, word, q);
        lemma_first_occurrence(text, word, q)
    } else {
        at
    }
}

/// Where some words of capitals stand apart wherever they stand in a text,
/// replacing one of them by something that holds none of them leaves a text
/// that does not hold the replaced word, holds no word that the text did not
/// hold, and in which the words stand apart wherever they stand.
pub proof fn lemma_replaced_words(
    text: Seq<char>,
    from: Seq<char>,
    to: Seq<char>,
    words: Set<Seq<char>>,
)
    requires
        forall|word: Seq<char>| words.contains(word) ==> made_of_capitals(word),
        words.contains(from),
        words_apart(text, words),
        forall|word: Seq<char>| words.contains(word) ==> !occurs_in(to, word),
    ensures
        !occurs_in(replaced(text, from, to), from),
        words_apart(replaced(text, from, to), words),
        forall|word: Seq<char>|
            words.contains(word) && occurs_in(replaced(text, from, to), word) ==> occurs_in(
                text,
                word,
            ),
    decreases text.len(),
{
    let out = replaced(text, from, to);
    assert(made_of_capitals(from));
    if !occurs_in(text, from) {
        lemma_replaced_unchanged(text, from, to);
    } else {
        let some = choose|at: int| occurs_at(text, from, at);
        let p = lemma_first_occurrence(text, from, some);
        let n = from.len() as int;
        let a = text.take(p);
        let middle = text.skip(p);
        let b = text.skip(p + n);
        assert(stands_apart(text, from, p));
        // The text is `a`, the word, and `b`; what comes out is `a`, the
        // replacement, and what comes out of `b`.
        lemma_replaced_splits(text, from, to, p);
        assert(!occurs_in(a, from)) by {
            assert forall|q: int| !occurs_at(a, from, q) by {
                if occurs_at(a, from, q) {
                    assert(a.subrange(q, q + n) =~= text.subrange(q, q + n));
                    assert(occurs_at(text, from, q));
                }
            }
        }
        lemma_replaced_unchanged(a, from, to);
        assert(middle.subrange(0, n) =~= text.subrange(p, p + n));
        assert(middle.skip(n) =~= b);
        let tail = replaced(b, from, to);
        assert(out =~= a + to + tail);
        assert(words_apart(b, words)) by {
            assert forall|word: Seq<char>, at: int|
                words.contains(word) && #[trigger] occurs_at(b, word, at) implies stands_apart(
                b,
                word,
                at,
            ) by {
                let m = word.len() as int;
                assert(b.subrange(at, at + m) =~= text.subrange(at + p + n, at + p + n + m));
                assert(occurs_at(text, word, at + p + n));
                assert(stands_apart(text, word, at + p + n));
            }
        }
        lemma_replaced_words(b, from, to, words);
        if b.len() > 0 {
            assert(b[0] == text[p + n]);
            lemma_replaced_first(b, from, to);
            assert(tail[0] == b[0]);
        } else {
            assert(tail.len() == 0);
        }
        assert forall|word: Seq<char>, q: int|
            words.contains(word) && #[trigger] occurs_at(out, word, q) implies stands_apart(
            out,
            word,
            q,
        ) && word != from && occurs_in(text, word) by {
            let m = word.len() as int;
            assert(made_of_capitals(word));
            assert forall|i: int| 0 <= i < m implies is_capital_or_underscore(
                #[trigger] out[q + i],
            ) by {
                assert(out.subrange(q, q + m)[i] == out[q + i]);
                assert(is_capital_or_underscore(word[i]));
            }
            if q < a.len() {
                if q + m >= a.len() {
                    assert(out[q + (a.len() as int - 1 - q)] == text[p - 1]);
                }
                assert(a.subrange(q, q + m) =~= out.subrange(q, q + m));
                assert(text.subrange(q, q + m) =~= a.subrange(q, q + m));
                assert(occurs_at(text, word, q));
                assert(stands_apart(text, word, q));
                assert(out[q + m] == text[q + m]);
                if q > 0 {
                    assert(out[q - 1] == text[q - 1]);
                }
            } else if q < a.len() + to.len() {
                if q + m <= a.len() + to.len() {
                    assert(to.subrange(q - a.len() as int, q - a.len() as int + m) =~= out.subrange(q, q + m));
                    assert(occurs_at(to, word, q - a.len() as int));
                } else {
                    assert(out[q + (a.len() as int + to.len() as int - q)] == tail[0]);
                }
            } else {
                let j = q - a.len() as int - to.len() as int;
                assert(tail.subrange(j, j + m) =~= out.subrange(q, q + m));
                assert(occurs_at(tail, word, j));
                assert(stands_apart(tail, word, j));
                if j == 0 {
                    assert(out[q + 0] == tail[0]);
                }
                assert(out[q - 1] == tail[j - 1]);
                if j + m < tail.len() {
                    assert(out[q + m] == tail[j + m]);
                }
                assert(occurs_in(b, word));
                let at = choose|at: int| occurs_at(b, word, at);
                assert(b.subrange(at, at + m) =~= text.subrange(at + p + n, at + p + n + m));
                assert(occurs_at(text, word, at + p + n));
            }
        }
    }
}

} // verus!
