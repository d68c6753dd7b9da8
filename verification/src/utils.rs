//! Text helpers: escaping, suffixes, and rendering into a fresh string.

use vstd::prelude::*;
use crate::errors::Error;

verus! {

/// The six characters that carry meaning in HTML text and attribute values.
pub open spec fn is_special(c: char) -> bool {
    c == '&' || c == '<' || c == '>' || c == '"' || c == '\'' || c == '/'
}

/// The entity that stands for one character, or the character itself.
pub open spec fn escape_char(c: char) -> Seq<char> {
    if c == '&' {
        seq!['&', 'a', 'm', 'p', ';']
    } else if c == '<' {
        seq!['&', 'l', 't', ';']
    } else if c == '>' {
        seq!['&', 'g', 't', ';']
    } else if c == '"' {
        seq!['&', 'q', 'u', 'o', 't', ';']
    } else if c == '\'' {
        seq!['&', '#', 'x', '2', '7', ';']
    } else if c == '/' {
        seq!['&', '#', 'x', '2', 'F', ';']
    } else {
        seq![c]
    }
}

/// The escaped form of a text: each character replaced by `escape_char`, in order.
pub open spec fn escape(s: Seq<char>) -> Seq<char>
    decreases s.len(),
{
    if s.len() == 0 {
        Seq::empty()
    } else {
        escape(s.drop_last()) + escape_char(s.last())
    }
}

/// A text without any of the six special characters.
pub open spec fn is_plain(s: Seq<char>) -> bool {
    forall|i: int| 0 <= i < s.len() ==> !is_special(#[trigger] s[i])
}

/// Escaping goes character by character: the escaped form of two texts in a row
/// is the two escaped forms in a row.
pub proof fn lemma_escape_concat(a: Seq<char>, b: Seq<char>)
    ensures
        escape(a + b) == escape(a) + escape(b),
    decreases b.len(),
{
    if b.len() == 0 {
        assert(a + b =~= a);
        assert(escape(a) + escape(b) =~= escape(a));
    } else {
        lemma_escape_concat(a, b.drop_last());
        assert((a + b).drop_last() =~= a + b.drop_last());
        assert(escape(a + b) =~= escape(a) + escape(b));
    }
}

/// Escaping leaves a text without special characters as it is.
pub proof fn lemma_escape_plain(s: Seq<char>)
    requires
        is_plain(s),
    ensures
        escape(s) == s,
    decreases s.len(),
{
    if s.len() > 0 {
        lemma_escape_plain(s.drop_last());
        assert(!is_special(s[s.len() - 1]));
        assert(escape(s) =~= s);
    }
}

/// Escaping never shortens a text, and keeps its length only where it has no
/// special character.
pub proof fn lemma_escape_length(s: Seq<char>)
    ensures
        escape(s).len() >= s.len(),
        escape(s).len() == s.len() <==> is_plain(s),
    decreases s.len(),
{
    if s.len() > 0 {
        let front = s.drop_last();
        lemma_escape_length(front);
        if is_plain(s) {
            assert forall|i: int| 0 <= i < front.len() implies !is_special(#[trigger] front[i]) by {
                assert(front[i] == s[i]);
            }
            assert(!is_special(s[s.len() - 1]));
        } else if !is_special(s.last()) {
            assert(!is_plain(front)) by {
                if is_plain(front) {
                    assert forall|i: int| 0 <= i < s.len() implies !is_special(#[trigger] s[i]) by {
                        if i < front.len() {
                            assert(front[i] == s[i]);
                        }
                    }
                }
            }
        }
    }
}

/// The escaped form of a text with a special character has one too: every
/// entity begins with `&`.
pub proof fn lemma_escape_keeps_special(s: Seq<char>)
    requires
        !is_plain(s),
    ensures
        !is_plain(escape(s)),
    decreases s.len(),
{
    let front = s.drop_last();
    let at = escape(front).len() as int;
    if is_special(s.last()) {
        assert(escape(s)[at] == escape_char(s.last())[0]);
        assert(is_special(escape(s)[at]));
    } else {
        assert(!is_plain(front)) by {
            if is_plain(front) {
                assert forall|i: int| 0 <= i < s.len() implies !is_special(#[trigger] s[i]) by {
                    if i < front.len() {
                        assert(front[i] == s[i]);
                    }
                }
            }
        }
        lemma_escape_keeps_special(front);
        let j = choose|j: int| 0 <= j < escape(front).len() && is_special(#[trigger] escape(front)[j]);
        assert(escape(s)[j] == escape(front)[j]);
        assert(is_special(escape(s)[j]));
    }
}

/// Escaping a second time changes nothing exactly where the first time changed
/// nothing: on the texts without special characters. An escaped text is not
/// protected against being escaped again.
pub proof fn lemma_escape_twice(s: Seq<char>)
    ensures
        escape(escape(s)) == escape(s) <==> is_plain(s),
{
    if is_plain(s) {
        lemma_escape_plain(s);
    } else {
        lemma_escape_keeps_special(s);
        lemma_escape_length(escape(s));
    }
}

/// `String::push` of std: the string afterwards is the string before with the
/// one character added at its end.
#[verifier::external_body]
pub(crate) fn push_char(s: &mut String, c: char)
    ensures
        final(s)@ == old(s)@.push(c),
{
    s.push(c)
}

/// Whether `text` ends with the characters of `suffix`.
pub open spec fn has_suffix(text: Seq<char>, suffix: Seq<char>) -> bool {
    suffix.len() <= text.len() && text.subrange(text.len() - suffix.len(), text.len() as int)
        == suffix
}

/// `str::ends_with` of std, with a string as the pattern: whether the pattern
/// matches a suffix of the string.
#[verifier::external_body]
pub(crate) fn ends_with(text: &str, suffix: &str) -> (r: bool)
    ensures
        r == has_suffix(text@, suffix@),
{
    text.ends_with(suffix)
}

/// Escapes a text for HTML: `&`, `<`, `>`, `"`, `'` and `/` become `&amp;`, `&lt;`,
/// `&gt;`, `&quot;`, `&#x27;` and `&#x2F;`; every other character stays.
pub fn escape_html(input: &str) -> (output: String)
    ensures
        output@ == escape(input@),
        output@.len() >= input@.len(),
{
    proof {
        lemma_escape_length(input@);
    }
    let mut output = String::new();
    for c in it: input.chars()
        invariant
            it.seq() == input@,
            output@ == escape(input@.take(it.index() as int)),
    {
        proof {
            reveal_strlit("&amp;");
            reveal_strlit("&lt;");
            reveal_strlit("&gt;");
            reveal_strlit("&quot;");
            reveal_strlit("&#x27;");
            reveal_strlit("&#x2F;");
            let i = it.index() as int;
            assert(input@.take(i + 1).drop_last() =~= input@.take(i));
        }
        match c {
            '&' => output.append("&amp;"),
            '<' => output.append("&lt;"),
            '>' => output.append("&gt;"),
            '"' => output.append("&quot;"),
            '\'' => output.append("&#x27;"),
            '/' => output.append("&#x2F;"),
            _ => push_char(&mut output, c),
        }
        assert(output@ =~= escape(input@.take(it.index() + 1)));
    }
    assert(input@.take(input@.len() as int) =~= input@);
    output
}

/// Renders into a fresh string: `render` is handed an empty buffer, and what it
/// wrote is returned, or else its failure as an `Error`. `context` is not
/// called.
pub fn render_to_string<C, F, E>(context: C, render: F) -> (r: Result<String, Error>)
    where
        C: FnOnce() -> String,
        F: FnOnce(&mut String) -> Result<(), E>,
        Error: From<E>,
    requires
        forall|buffer: &mut String|
            mut_ref_current(buffer)@.len() == 0 ==> call_requires(render, (buffer,)),
    ensures
        exists|buffer: &mut String, done: Result<(), E>|
            mut_ref_current(buffer)@.len() == 0 && #[trigger] call_ensures(render, (buffer,), done)
                && match done {
                Ok(_) => r matches Ok(text) && text@ == mut_ref_future(buffer)@,
                Err(e) => r matches Err(error) && call_ensures(Error::from, (e,), error),
            },
{
    let _ = context;
    let mut buffer = String::new();
    match render(&mut buffer) {
        Ok(()) => Ok(buffer),
        Err(e) => Err(Error::from(e)),
    }
}

} // verus!
