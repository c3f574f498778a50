//! Character-level building blocks: brace escaping for literal fragments,
//! whitespace stripping for specifiers, and identifier recognition.

use vstd::prelude::*;

verus! {

/// One character of a literal fragment as it appears in the template:
/// braces are doubled so the rendering primitive treats them as literal
/// characters rather than placeholder delimiters.
pub open spec fn escape_char(c: char) -> Seq<char> {
    if c == '{' {
        seq!['{', '{']
    } else if c == '}' {
        seq!['}', '}']
    } else {
        seq![c]
    }
}

/// A whole literal fragment as it appears in the template: every `{`
/// becomes `{{` and every `}` becomes `}}`.
pub open spec fn escaped(s: Seq<char>) -> Seq<char>
    decreases s.len(),
{
    if s.len() == 0 {
        Seq::empty()
    } else {
        escaped(s.drop_last()) + escape_char(s.last())
    }
}

/// Specifier text with every space removed; all other characters are
/// kept, in order.
pub open spec fn stripped(s: Seq<char>) -> Seq<char>
    decreases s.len(),
{
    if s.len() == 0 {
        Seq::empty()
    } else if s.last() == ' ' {
        stripped(s.drop_last())
    } else {
        stripped(s.drop_last()) + seq![s.last()]
    }
}

/// The placeholder emitted into the template for one expression
/// fragment: its specifier text, space-stripped, between single braces.
pub open spec fn placeholder(traits: Seq<char>) -> Seq<char> {
    seq!['{'] + stripped(traits) + seq!['}']
}

pub open spec fn is_ident_start(c: char) -> bool {
    ('a' <= c && c <= 'z') || ('A' <= c && c <= 'Z') || c == '_'
}

pub open spec fn is_ident_continue(c: char) -> bool {
    is_ident_start(c) || ('0' <= c && c <= '9')
}

/// A single plain identifier: what a name binding may introduce and
/// what a bare reuse of a bound name looks like. A lone underscore is
/// not an identifier.
pub open spec fn is_identifier(s: Seq<char>) -> bool {
    &&& s.len() > 0
    &&& is_ident_start(s[0])
    &&& (forall|i: int| 0 < i < s.len() ==> is_ident_continue(#[trigger] s[i]))
    &&& s != seq!['_']
}

/// Relies on `String::push`: appends exactly the one given character.
#[verifier::external_body]
pub fn push_char(s: &mut String, c: char)
    ensures
        final(s)@ == old(s)@.push(c),
{
    s.push(c);
}

/// Appends the escaped form of a literal fragment to the template.
pub fn append_escaped(out: &mut String, s: &str)
    ensures
        final(out)@ == old(out)@ + escaped(s@),
{
    let n = s.unicode_len();
    let mut i: usize = 0;
    while i < n
        invariant
            n == s@.len(),
            i <= n,
            out@ == old(out)@ + escaped(s@.take(i as int)),
        decreases n - i,
    {
        let c = s.get_char(i);
        if c == '{' {
            push_char(out, '{');
            push_char(out, '{');
        } else if c == '}' {
            push_char(out, '}');
            push_char(out, '}');
        } else {
            push_char(out, c);
        }
        proof {
            let pre = s@.take(i as int);
            let post = s@.take(i + 1);
            assert(post.drop_last() =~= pre);
            assert(post.last() == s@[i as int]);
            assert(out@ =~= old(out)@ + (escaped(pre) + escape_char(s@[i as int])));
        }
        i = i + 1;
    }
    proof {
        assert(s@.take(n as int) =~= s@);
    }
}

/// Appends the specifier text with spaces removed.
pub fn append_stripped(out: &mut String, s: &str)
    ensures
        final(out)@ == old(out)@ + stripped(s@),
{
    let n = s.unicode_len();
    let mut i: usize = 0;
    while i < n
        invariant
            n == s@.len(),
            i <= n,
            out@ == old(out)@ + stripped(s@.take(i as int)),
        decreases n - i,
    {
        let c = s.get_char(i);
        if c != ' ' {
            push_char(out, c);
        }
        proof {
            let pre = s@.take(i as int);
            let post = s@.take(i + 1);
            assert(post.drop_last() =~= pre);
            assert(post.last() == s@[i as int]);
            if s@[i as int] != ' ' {
                assert(out@ =~= old(out)@ + (stripped(pre) + seq![s@[i as int]]));
            }
        }
        i = i + 1;
    }
    proof {
        assert(s@.take(n as int) =~= s@);
    }
}

/// Decides whether a fragment of source text is a single plain
/// identifier.
pub fn check_identifier(s: &str) -> (r: bool)
    ensures
        r == is_identifier(s@),
{
    let n = s.unicode_len();
    if n == 0 {
        return false;
    }
    let first = s.get_char(0);
    if !(('a' <= first && first <= 'z') || ('A' <= first && first <= 'Z') || first == '_') {
        return false;
    }
    if n == 1 && first == '_' {
        proof {
            assert(s@ =~= seq!['_']);
        }
        return false;
    }
    let mut i: usize = 1;
    while i < n
        invariant
            n == s@.len(),
            1 <= i <= n,
            is_ident_start(s@[0]),
            forall|j: int| 0 < j < i ==> is_ident_continue(#[trigger] s@[j]),
            !(n == 1 && s@[0] == '_'),
        decreases n - i,
    {
        let c = s.get_char(i);
        if !(('a' <= c && c <= 'z') || ('A' <= c && c <= 'Z') || c == '_' || ('0' <= c && c
            <= '9')) {
            return false;
        }
        i = i + 1;
    }
    proof {
        if s@ == seq!['_'] {
            assert(s@.len() == 1);
            assert(s@[0] == '_');
        }
    }
    true
}

} // verus!
