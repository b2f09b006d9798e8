use vstd::prelude::*;
use vstd::string::StrSliceExecFns;

verus! {

/// Relies on String::push: appends the given character to the end of
/// the string (vstd specifies push_str via `append` but not push).
#[verifier::external_body]
fn push_char(s: &mut String, c: char)
    ensures
        final(s)@ == old(s)@.push(c),
{
    s.push(c);
}

/// Character-for-character string equality, proved against the views.
pub fn str_eq(a: &str, b: &str) -> (r: bool)
    ensures
        r == (a@ == b@),
{
    let na = a.unicode_len();
    let nb = b.unicode_len();
    if na != nb {
        return false;
    }
    for i in 0..na
        invariant
            na == a@.len(),
            na == b@.len(),
            forall|j: int| 0 <= j < i ==> a@[j] == b@[j],
    {
        if a.get_char(i) != b.get_char(i) {
            return false;
        }
    }
    proof {
        assert(a@ =~= b@);
    }
    true
}

/// `s` followed by a newline, unless it already ends with one.
pub open spec fn with_nl(s: Seq<char>) -> Seq<char> {
    if s.len() > 0 && s[s.len() - 1] == '\n' {
        s
    } else {
        s.push('\n')
    }
}

/// Append `frag` to `out`, guaranteeing a trailing line break after it.
pub fn append_line(out: &mut String, frag: &str)
    ensures
        final(out)@ == old(out)@ + with_nl(frag@),
{
    out.append(frag);
    let n = frag.unicode_len();
    if n == 0 || frag.get_char(n - 1) != '\n' {
        push_char(out, '\n');
    }
}

/// A Rust outer doc comment: the node text begins with three slashes.
pub open spec fn is_doc_text(s: Seq<char>) -> bool {
    s.len() >= 3 && s[0] == '/' && s[1] == '/' && s[2] == '/'
}

/// Runtime check matching `is_doc_text`.
pub fn doc_text(s: &str) -> (r: bool)
    ensures
        r == is_doc_text(s@),
{
    let n = s.unicode_len();
    n >= 3 && s.get_char(0) == '/' && s.get_char(1) == '/' && s.get_char(2) == '/'
}

/// The characters of `s` from position `i` on, with four spaces inserted
/// wherever a line begins (`at_start` says whether position `i` does).
pub open spec fn indent_from(s: Seq<char>, i: int, at_start: bool) -> Seq<char>
    decreases s.len() - i,
{
    if i < 0 || i >= s.len() {
        Seq::empty()
    } else {
        let pre: Seq<char> = if at_start {
            seq![' ', ' ', ' ', ' ']
        } else {
            Seq::empty()
        };
        pre + seq![s[i]] + indent_from(s, i + 1, s[i] == '\n')
    }
}

/// `s` with every line prefixed by four spaces (one indentation level).
pub open spec fn indent_lines(s: Seq<char>) -> Seq<char> {
    indent_from(s, 0, true)
}

/// Append `s` to `out`, indenting every line of `s` one level.
pub fn append_indented(out: &mut String, s: &str)
    ensures
        final(out)@ == old(out)@ + indent_lines(s@),
{
    let n = s.unicode_len();
    let mut at_start: bool = true;
    for i in 0..n
        invariant
            n == s@.len(),
            old(out)@ + indent_lines(s@) == out@ + indent_from(s@, i as int, at_start),
    {
        let c = s.get_char(i);
        if at_start {
            out.append("    ");
            proof {
                reveal_strlit("    ");
                assert("    "@ =~= seq![' ', ' ', ' ', ' ']);
            }
        }
        push_char(out, c);
        at_start = c == '\n';
    }
}

/// `suffix` is the tail end of `s`.
pub open spec fn ends_with(s: Seq<char>, suffix: Seq<char>) -> bool {
    s.len() >= suffix.len() && s.subrange(s.len() - suffix.len(), s.len() as int) == suffix
}

/// `prefix` is the front of `s`.
pub open spec fn begins_with(s: Seq<char>, prefix: Seq<char>) -> bool {
    s.len() >= prefix.len() && s.subrange(0, prefix.len() as int) == prefix
}

/// Concatenation always keeps its second operand as a suffix.
pub proof fn lemma_concat_ends_with(a: Seq<char>, b: Seq<char>)
    ensures
        ends_with(a + b, b),
{
    assert((a + b).subrange((a + b).len() - b.len(), (a + b).len() as int) =~= b);
}

/// Concatenation always keeps its first operand as a prefix.
pub proof fn lemma_concat_begins_with(a: Seq<char>, b: Seq<char>)
    ensures
        begins_with(a + b, a),
{
    assert((a + b).subrange(0, a.len() as int) =~= a);
}

} // verus!
