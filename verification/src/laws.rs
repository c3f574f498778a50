//! The library's general guarantees, stated and proved over the
//! mathematical model that the compiler's contracts use.

use vstd::prelude::*;

use crate::text::escape_char;
use crate::text::escaped;
use crate::text::stripped;
use crate::text::placeholder;
use crate::tokens::PartModel;
use crate::tokens::parse_statement_spec;
use crate::utils::ArgumentModel;
use crate::utils::AssignmentModel;
use crate::utils::arg_of;
use crate::utils::args_of;
use crate::utils::args_upto;
use crate::utils::assigns_upto;
use crate::utils::assignments_of;
use crate::utils::bound_upto;
use crate::utils::CompiledModel;
use crate::utils::compile_parts_spec;
use crate::utils::compile_statement_spec;
use crate::utils::declared_names;
use crate::utils::first_violation_from;
use crate::utils::violation_at;

verus! {

/// Text in which every brace stands as one of an adjacent doubled
/// pair: read left to right, each unit is `{{`, `}}`, or a single
/// non-brace character. The rendering primitive shows such text
/// verbatim, one brace per pair, and never takes a brace of it for a
/// placeholder delimiter.
pub open spec fn brace_escaped(t: Seq<char>) -> bool
    decreases t.len(),
{
    if t.len() == 0 {
        true
    } else if t[0] == '{' || t[0] == '}' {
        t.len() >= 2 && t[1] == t[0] && brace_escaped(t.skip(2))
    } else {
        brace_escaped(t.skip(1))
    }
}

proof fn lemma_brace_escaped_append_unit(x: Seq<char>, u: Seq<char>)
    requires
        brace_escaped(x),
        (u.len() == 1 && u[0] != '{' && u[0] != '}') || u =~= seq!['{', '{'] || u =~= seq![
            '}',
            '}',
        ],
    ensures
        brace_escaped(x + u),
    decreases x.len(),
{
    assert(brace_escaped(Seq::<char>::empty()));
    if x.len() == 0 {
        assert(x + u =~= u);
        if u.len() == 2 {
            assert(u.skip(2) =~= Seq::<char>::empty());
            assert(brace_escaped(u.skip(2)));
            assert(brace_escaped(u));
        } else {
            assert(u.skip(1) =~= Seq::<char>::empty());
            assert(brace_escaped(u.skip(1)));
            assert(brace_escaped(u));
        }
    } else if x[0] == '{' || x[0] == '}' {
        lemma_brace_escaped_append_unit(x.skip(2), u);
        assert((x + u).skip(2) =~= x.skip(2) + u);
        assert((x + u)[0] == x[0] && (x + u)[1] == x[1]);
        assert(brace_escaped(x + u));
    } else {
        lemma_brace_escaped_append_unit(x.skip(1), u);
        assert((x + u).skip(1) =~= x.skip(1) + u);
        assert((x + u)[0] == x[0]);
        assert(brace_escaped(x + u));
    }
}

/// Brace escaping: a literal fragment's braces always reach the
/// template as adjacent `{{` / `}}` pairs, and a fragment without
/// braces reaches the template unchanged.
pub proof fn lemma_literal_brace_escaping(s: Seq<char>)
    ensures
        brace_escaped(escaped(s)),
        (forall|i: int| 0 <= i < s.len() ==> s[i] != '{' && s[i] != '}') ==> escaped(s) == s,
    decreases s.len(),
{
    if s.len() == 0 {
        assert(escaped(s) =~= s);
    } else {
        lemma_literal_brace_escaping(s.drop_last());
        lemma_brace_escaped_append_unit(escaped(s.drop_last()), escape_char(s.last()));
        if forall|i: int| 0 <= i < s.len() ==> s[i] != '{' && s[i] != '}' {
            assert(forall|i: int|
                0 <= i < s.drop_last().len() ==> s.drop_last()[i] != '{' && s.drop_last()[i]
                    != '}');
            assert(escape_char(s.last()) =~= seq![s.last()]);
            assert(escaped(s) =~= s);
        }
    }
}

/// Specifier passthrough: a specifier without spaces reaches its
/// placeholder verbatim, with no character reordered or lost, between
/// single braces.
pub proof fn lemma_specifier_passthrough(t: Seq<char>)
    requires
        forall|i: int| 0 <= i < t.len() ==> t[i] != ' ',
    ensures
        stripped(t) == t,
        placeholder(t) == seq!['{'] + t + seq!['}'],
    decreases t.len(),
{
    if t.len() == 0 {
        assert(stripped(t) =~= t);
    } else {
        assert(forall|i: int| 0 <= i < t.drop_last().len() ==> t.drop_last()[i] != ' ');
        lemma_specifier_passthrough(t.drop_last());
        assert(stripped(t) =~= t);
    }
}

proof fn lemma_first_violation_none_iff(parts: Seq<PartModel>, j: int)
    requires
        0 <= j,
    ensures
        first_violation_from(parts, j) is None <==> (forall|i: int|
            i >= j ==> !violation_at(parts, i)),
    decreases parts.len() - j,
{
    if j >= parts.len() {
        assert(forall|i: int| i >= j ==> !violation_at(parts, i));
    } else if violation_at(parts, j) {
    } else {
        lemma_first_violation_none_iff(parts, j + 1);
    }
}

/// Definition-before-use: compiling a part list succeeds exactly when
/// no part uses a declared name that no earlier part has bound — so a
/// statement with such a use fails, and the same statement with the
/// defining part moved before every use succeeds — and the only
/// compile-time failure of the emission pass is that one.
pub proof fn lemma_definition_before_use(
    target: Seq<char>,
    sink: Option<Seq<char>>,
    parts: Seq<PartModel>,
    clone_named: bool,
)
    ensures
        compile_parts_spec(target, sink, parts, clone_named) is Ok <==> (forall|i: int|
            !violation_at(parts, i)),
        compile_parts_spec(target, sink, parts, clone_named) is Err
            ==> compile_parts_spec(target, sink, parts, clone_named)->Err_0 is UseBeforeDefinition,
{
    lemma_first_violation_none_iff(parts, 0);
    if forall|i: int| i >= 0 ==> !violation_at(parts, i) {
        assert(forall|i: int| i < 0 ==> !violation_at(parts, i));
    }
}

/// Sink extraction: for a sink-consuming output form, a parsed input
/// whose first part is an expression routes that expression to the sink
/// slot and compiles the remaining parts without it — its expression
/// joins neither the argument list nor the template; a form that is not
/// sink-consuming extracts nothing even when the first part looks like
/// a sink; and a sink candidate exists exactly when the first part is
/// an expression.
pub proof fn lemma_sink_extraction(
    toks: Seq<crate::tokens::TokenModel>,
    target: Seq<char>,
    clone_named: bool,
)
    ensures
        match parse_statement_spec(toks) {
            Ok(st) => {
                &&& (st.stream is Some <==> st.parts.len() > 0 && st.parts[0] is Expression)
                &&& (st.stream is Some ==> compile_statement_spec(toks, target, true, clone_named)
                    == compile_parts_spec(
                    target,
                    st.stream,
                    st.parts.drop_first(),
                    clone_named,
                ))
                &&& (st.stream is None ==> compile_statement_spec(toks, target, true, clone_named)
                    == compile_parts_spec(target, None, st.parts, clone_named))
                &&& compile_statement_spec(toks, target, false, clone_named) == compile_parts_spec(
                    target,
                    None,
                    st.parts,
                    clone_named,
                )
            },
            Err(e) => compile_statement_spec(toks, target, true, clone_named) == Err::<
                CompiledModel,
                crate::tokens::ErrorModel,
            >(e) && compile_statement_spec(toks, target, false, clone_named) == Err::<
                CompiledModel,
                crate::tokens::ErrorModel,
            >(e),
        },
{
}

/// Whether a part is the binding form introducing `n`.
pub open spec fn binds_name(part: PartModel, n: Seq<char>) -> bool {
    match part {
        PartModel::Expression(e) => e.left == Some(n),
        PartModel::Literal(_) => false,
    }
}

/// Whether a part is a bare expression whose text is exactly `n`.
pub open spec fn bare_use_of(part: PartModel, n: Seq<char>) -> bool {
    match part {
        PartModel::Expression(e) => e.left is None && e.right == n,
        PartModel::Literal(_) => false,
    }
}

/// The value expression of a part, when it is an expression part.
pub open spec fn right_of(part: PartModel) -> Seq<char> {
    match part {
        PartModel::Expression(e) => e.right,
        PartModel::Literal(s) => s,
    }
}

/// How many of the given binding statements bind `n`.
pub open spec fn count_bindings_for(s: Seq<AssignmentModel>, n: Seq<char>) -> nat
    decreases s.len(),
{
    if s.len() == 0 {
        0
    } else {
        count_bindings_for(s.drop_last(), n) + if s.last().name == n {
            1nat
        } else {
            0nat
        }
    }
}

proof fn lemma_bound_upto_contains(parts: Seq<PartModel>, i: int, d: int, n: Seq<char>)
    requires
        0 <= d < i <= parts.len(),
        binds_name(parts[d], n),
    ensures
        bound_upto(parts, i).contains(n),
    decreases i,
{
    if i - 1 == d {
        assert(bound_upto(parts, i).last() == n);
    } else {
        lemma_bound_upto_contains(parts, i - 1, d, n);
        let prev = bound_upto(parts, i - 1);
        let k = choose|k: int| 0 <= k < prev.len() && #[trigger] prev[k] == n;
        assert(bound_upto(parts, i)[k] == n);
    }
}

proof fn lemma_assigns_count(parts: Seq<PartModel>, i: int, d: int, n: Seq<char>)
    requires
        0 <= d < parts.len(),
        binds_name(parts[d], n),
        forall|j: int| 0 <= j < parts.len() && j != d ==> !binds_name(parts[j], n),
        0 <= i <= parts.len(),
    ensures
        count_bindings_for(assigns_upto(parts, i), n) == if d < i {
            1nat
        } else {
            0nat
        },
        d < i ==> assigns_upto(parts, i).contains(
            AssignmentModel { name: n, value: right_of(parts[d]) },
        ),
    decreases i,
{
    if i == 0 {
    } else {
        lemma_assigns_count(parts, i - 1, d, n);
        let prev = assigns_upto(parts, i - 1);
        let whole = assigns_upto(parts, i);
        match parts[i - 1] {
            PartModel::Expression(e) => match e.left {
                Some(m) => {
                    let a = AssignmentModel { name: m, value: e.right };
                    assert(whole =~= prev + seq![a]);
                    assert(whole.drop_last() =~= prev);
                    assert(whole.last() == a);
                    if i - 1 == d {
                        assert(whole[prev.len() as int] == a);
                        assert(whole.contains(a));
                    } else {
                        assert(!binds_name(parts[i - 1], n));
                        assert(m != n);
                    }
                },
                None => {
                    assert(whole =~= prev);
                },
            },
            PartModel::Literal(_) => {
                assert(whole =~= prev);
            },
        }
        if d < i - 1 {
            let a = AssignmentModel { name: n, value: right_of(parts[d]) };
            let k = choose|k: int| 0 <= k < prev.len() && prev[k] == a;
            assert(whole[k] == a);
        }
    }
}

/// Reuse duplication: a name bound exactly once yields exactly one
/// binding statement — the defining expression is evaluated once, at
/// its defining part — and every bare reuse of the name is emitted as a
/// duplicated reference to the name, never as the defining expression
/// again.
pub proof fn lemma_reuse_duplication(
    parts: Seq<PartModel>,
    clone_named: bool,
    d: int,
    u: int,
    n: Seq<char>,
)
    requires
        0 <= d < parts.len(),
        binds_name(parts[d], n),
        forall|j: int| 0 <= j < parts.len() && j != d ==> !binds_name(parts[j], n),
        0 <= u < parts.len(),
        bare_use_of(parts[u], n),
    ensures
        count_bindings_for(assignments_of(parts), n) == 1,
        assignments_of(parts).contains(AssignmentModel { name: n, value: right_of(parts[d]) }),
        arg_of(parts[u], declared_names(parts), clone_named) == Some(
            ArgumentModel::Duplicated(n),
        ),
{
    lemma_assigns_count(parts, parts.len() as int, d, n);
    lemma_bound_upto_contains(parts, parts.len() as int, d, n);
}

/// How many of the first `i` parts are expression parts.
pub open spec fn expr_count(parts: Seq<PartModel>, i: int) -> nat
    decreases i,
{
    if i <= 0 || i > parts.len() {
        0
    } else {
        expr_count(parts, i - 1) + if parts[i - 1] is Expression {
            1nat
        } else {
            0nat
        }
    }
}

/// Placeholder/argument alignment: the argument list holds exactly one
/// entry per expression part, emitted in part order, as the template
/// holds exactly one placeholder per expression part.
pub proof fn lemma_one_argument_per_expression(parts: Seq<PartModel>, clone_named: bool)
    ensures
        args_of(parts, clone_named).len() == expr_count(parts, parts.len() as int),
{
    lemma_args_upto_len(parts, parts.len() as int, clone_named);
}

proof fn lemma_args_upto_len(parts: Seq<PartModel>, i: int, clone_named: bool)
    requires
        0 <= i <= parts.len(),
    ensures
        args_upto(parts, i, clone_named).len() == expr_count(parts, i),
    decreases i,
{
    if i > 0 {
        lemma_args_upto_len(parts, i - 1, clone_named);
    }
}

proof fn lemma_args_upto_index(parts: Seq<PartModel>, clone_named: bool, i: int, j: int)
    requires
        0 <= i < j <= parts.len(),
        parts[i] is Expression,
    ensures
        expr_count(parts, i) < args_upto(parts, j, clone_named).len(),
        args_upto(parts, j, clone_named)[expr_count(parts, i) as int] == arg_of(
            parts[i],
            declared_names(parts),
            clone_named,
        )->Some_0,
    decreases j,
{
    lemma_args_upto_len(parts, i, clone_named);
    if j == i + 1 {
        let prev = args_upto(parts, i, clone_named);
        let a = arg_of(parts[i], declared_names(parts), clone_named)->Some_0;
        assert(args_upto(parts, j, clone_named) =~= prev + seq![a]);
        assert(args_upto(parts, j, clone_named)[prev.len() as int] == a);
    } else {
        lemma_args_upto_index(parts, clone_named, i, j - 1);
    }
}

/// Lock-step ordering: the argument emitted for the expression part at
/// `i` stands in the argument list exactly at the index of that part's
/// placeholder — the number of expression parts before it — so the
/// template's placeholders, the binding statements and the argument
/// list all follow one left-to-right walk of the parts.
pub proof fn lemma_argument_alignment(parts: Seq<PartModel>, clone_named: bool, i: int)
    requires
        0 <= i < parts.len(),
        parts[i] is Expression,
    ensures
        expr_count(parts, i) < args_of(parts, clone_named).len(),
        args_of(parts, clone_named)[expr_count(parts, i) as int] == arg_of(
            parts[i],
            declared_names(parts),
            clone_named,
        )->Some_0,
{
    lemma_args_upto_index(parts, clone_named, i, parts.len() as int);
}

} // verus!
