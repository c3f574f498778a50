//! The template compiler: two passes over the parsed parts that emit
//! the template string, the ordered binding list, and the ordered
//! argument list, enforcing definition-before-use.

use vstd::prelude::*;

use crate::text::check_identifier;
use crate::text::is_identifier;
use crate::text::escaped;
use crate::text::placeholder;
use crate::text::push_char;
use crate::text::append_escaped;
use crate::text::append_stripped;
use crate::tokens::CompileError;
use crate::tokens::ErrorModel;
use crate::tokens::FormatPart;
use crate::tokens::FormatStatement;
use crate::tokens::PartModel;
use crate::tokens::Token;
use crate::tokens::parse_statement_spec;
use crate::tokens::parts_view;
use crate::tokens::token_views;

verus! {

/// One preparatory binding statement: `name` is bound to the verbatim
/// `value` expression, once, before the formatting call.
#[derive(Debug, PartialEq, Eq)]
pub struct Assignment {
    pub name: String,
    pub value: String,
}

/// The mathematical model of a binding statement.
pub struct AssignmentModel {
    pub name: Seq<char>,
    pub value: Seq<char>,
}

impl View for Assignment {
    type V = AssignmentModel;

    open spec fn view(&self) -> AssignmentModel {
        AssignmentModel { name: self.name@, value: self.value@ }
    }
}

/// One entry of the ordered argument list.
#[derive(Debug, PartialEq, Eq)]
pub enum Argument {
    /// A bound name handed over as itself.
    Named(String),
    /// A duplicated reference to a bound name, so the binding stays
    /// valid for further reuse.
    Duplicated(String),
    /// An opaque expression passed through verbatim.
    Passthrough(String),
}

/// The mathematical model of an argument-list entry.
pub enum ArgumentModel {
    Named(Seq<char>),
    Duplicated(Seq<char>),
    Passthrough(Seq<char>),
}

impl View for Argument {
    type V = ArgumentModel;

    open spec fn view(&self) -> ArgumentModel {
        match self {
            Argument::Named(n) => ArgumentModel::Named(n@),
            Argument::Duplicated(n) => ArgumentModel::Duplicated(n@),
            Argument::Passthrough(t) => ArgumentModel::Passthrough(t@),
        }
    }
}

/// The compiled form of one whole input: the name of the rendering
/// primitive to call, the extracted sink expression if any, the
/// template string, the ordered binding statements, and the ordered
/// argument list.
#[derive(Debug, PartialEq, Eq)]
pub struct Compiled {
    pub target: String,
    pub sink: Option<String>,
    pub template: String,
    pub assignments: Vec<Assignment>,
    pub args: Vec<Argument>,
}

/// The mathematical model of a compiled input.
pub struct CompiledModel {
    pub target: Seq<char>,
    pub sink: Option<Seq<char>>,
    pub template: Seq<char>,
    pub assignments: Seq<AssignmentModel>,
    pub args: Seq<ArgumentModel>,
}

impl View for Compiled {
    type V = CompiledModel;

    open spec fn view(&self) -> CompiledModel {
        CompiledModel {
            target: self.target@,
            sink: match self.sink {
                Some(s) => Some(s@),
                None => None,
            },
            template: self.template@,
            assignments: self.assignments@.map_values(|a: Assignment| a@),
            args: self.args@.map_values(|a: Argument| a@),
        }
    }
}

/// A sequence of owned strings, seen mathematically.
pub open spec fn names_view(v: Seq<String>) -> Seq<Seq<char>> {
    v.map_values(|s: String| s@)
}

/// The names bound by the first `i` parts, in order.
pub open spec fn bound_upto(parts: Seq<PartModel>, i: int) -> Seq<Seq<char>>
    decreases i,
{
    if i <= 0 || i > parts.len() {
        Seq::empty()
    } else {
        bound_upto(parts, i - 1) + match parts[i - 1] {
            PartModel::Expression(e) => match e.left {
                Some(n) => seq![n],
                None => Seq::empty(),
            },
            PartModel::Literal(_) => Seq::empty(),
        }
    }
}

/// Every name bound anywhere in the parts: what the collect pass of the
/// compiler gathers before any code is emitted.
pub open spec fn declared_names(parts: Seq<PartModel>) -> Seq<Seq<char>> {
    bound_upto(parts, parts.len() as int)
}

/// What one part contributes to the template: a literal fragment with
/// its braces escaped, or an expression's placeholder.
pub open spec fn frag_of(part: PartModel) -> Seq<char> {
    match part {
        PartModel::Literal(s) => escaped(s),
        PartModel::Expression(e) => placeholder(e.traits),
    }
}

/// The template emitted for the first `i` parts, in order.
pub open spec fn template_upto(parts: Seq<PartModel>, i: int) -> Seq<char>
    decreases i,
{
    if i <= 0 || i > parts.len() {
        Seq::empty()
    } else {
        template_upto(parts, i - 1) + frag_of(parts[i - 1])
    }
}

/// The whole template: escaped literals and placeholders, in part
/// order.
pub open spec fn template_of(parts: Seq<PartModel>) -> Seq<char> {
    template_upto(parts, parts.len() as int)
}

/// The binding statements emitted for the first `i` parts, in order:
/// one per binding form, carrying the verbatim value expression.
pub open spec fn assigns_upto(parts: Seq<PartModel>, i: int) -> Seq<AssignmentModel>
    decreases i,
{
    if i <= 0 || i > parts.len() {
        Seq::empty()
    } else {
        assigns_upto(parts, i - 1) + match parts[i - 1] {
            PartModel::Expression(e) => match e.left {
                Some(n) => seq![AssignmentModel { name: n, value: e.right }],
                None => Seq::empty(),
            },
            PartModel::Literal(_) => Seq::empty(),
        }
    }
}

/// All binding statements, in part order.
pub open spec fn assignments_of(parts: Seq<PartModel>) -> Seq<AssignmentModel> {
    assigns_upto(parts, parts.len() as int)
}

/// What one expression part contributes to the argument list. A
/// binding hands its name over (duplicated when `clone_named` asks for
/// it); a bare use of a declared name hands a duplicate of the name
/// over, never the defining expression again; anything else is passed
/// through verbatim.
pub open spec fn arg_of(part: PartModel, declared: Seq<Seq<char>>, clone_named: bool) -> Option<
    ArgumentModel,
> {
    match part {
        PartModel::Literal(_) => None,
        PartModel::Expression(e) => match e.left {
            Some(n) => if clone_named {
                Some(ArgumentModel::Duplicated(n))
            } else {
                Some(ArgumentModel::Named(n))
            },
            None => if declared.contains(e.right) {
                Some(ArgumentModel::Duplicated(e.right))
            } else {
                Some(ArgumentModel::Passthrough(e.right))
            },
        },
    }
}

/// The argument list emitted for the first `i` parts, in order.
pub open spec fn args_upto(parts: Seq<PartModel>, i: int, clone_named: bool) -> Seq<ArgumentModel>
    decreases i,
{
    if i <= 0 || i > parts.len() {
        Seq::empty()
    } else {
        args_upto(parts, i - 1, clone_named) + match arg_of(
            parts[i - 1],
            declared_names(parts),
            clone_named,
        ) {
            Some(a) => seq![a],
            None => Seq::empty(),
        }
    }
}

/// The whole argument list, in part order, one entry per expression
/// part.
pub open spec fn args_of(parts: Seq<PartModel>, clone_named: bool) -> Seq<ArgumentModel> {
    args_upto(parts, parts.len() as int, clone_named)
}

/// Whether part `i` uses a declared name before its defining part: a
/// bare expression whose text is a declared name that none of the
/// earlier parts has bound.
pub open spec fn violation_at(parts: Seq<PartModel>, i: int) -> bool {
    &&& 0 <= i < parts.len()
    &&& match parts[i] {
        PartModel::Expression(e) => {
            &&& e.left is None
            &&& declared_names(parts).contains(e.right)
            &&& !bound_upto(parts, i).contains(e.right)
        },
        PartModel::Literal(_) => false,
    }
}

/// The name used too early at the first definition-before-use
/// violation at or after part `i`, if any.
pub open spec fn first_violation_from(parts: Seq<PartModel>, i: int) -> Option<Seq<char>>
    decreases parts.len() - i,
{
    if i < 0 || i >= parts.len() {
        None
    } else if violation_at(parts, i) {
        Some(
            match parts[i] {
                PartModel::Expression(e) => e.right,
                PartModel::Literal(_) => Seq::empty(),
            },
        )
    } else {
        first_violation_from(parts, i + 1)
    }
}

/// The compiled form of an already-parsed part list, or the first
/// definition-before-use failure.
pub open spec fn compile_parts_spec(
    target: Seq<char>,
    sink: Option<Seq<char>>,
    parts: Seq<PartModel>,
    clone_named: bool,
) -> Result<CompiledModel, ErrorModel> {
    match first_violation_from(parts, 0) {
        Some(n) => Err(ErrorModel::UseBeforeDefinition { name: n }),
        None => Ok(
            CompiledModel {
                target,
                sink,
                template: template_of(parts),
                assignments: assignments_of(parts),
                args: args_of(parts, clone_named),
            },
        ),
    }
}

/// The whole pipeline on a raw token sequence: parse, extract the sink
/// for sink-consuming output forms, then compile the remaining parts.
pub open spec fn compile_statement_spec(
    toks: Seq<crate::tokens::TokenModel>,
    target: Seq<char>,
    uses_stream: bool,
    clone_named: bool,
) -> Result<CompiledModel, ErrorModel> {
    match parse_statement_spec(toks) {
        Err(e) => Err(e),
        Ok(st) => if uses_stream && st.stream is Some {
            compile_parts_spec(target, st.stream, st.parts.drop_first(), clone_named)
        } else {
            compile_parts_spec(target, None, st.parts, clone_named)
        },
    }
}

/// The binding name carried by an assignment target's source text: the
/// text itself when it is a single identifier, and nothing otherwise.
pub fn ident_from_left(left: &str) -> (r: Option<String>)
    ensures
        match r {
            Some(name) => is_identifier(left@) && name@ == left@,
            None => !is_identifier(left@),
        },
{
    if check_identifier(left) {
        Some(left.to_owned())
    } else {
        None
    }
}

/// Whether one of the gathered names is exactly `s`.
fn contains_name(v: &Vec<String>, s: &String) -> (b: bool)
    ensures
        b == names_view(v@).contains(s@),
{
    let n = v.len();
    let mut j: usize = 0;
    while j < n
        invariant
            j <= n,
            n == v@.len(),
            forall|k: int| 0 <= k < j ==> names_view(v@)[k] != s@,
        decreases n - j,
    {
        if s.eq(&v[j]) {
            proof {
                assert(names_view(v@)[j as int] == s@);
            }
            return true;
        }
        proof {
            assert(names_view(v@)[j as int] == v@[j as int]@);
        }
        j = j + 1;
    }
    proof {
        if names_view(v@).contains(s@) {
            let k = choose|k: int| 0 <= k < names_view(v@).len() && names_view(v@)[k] == s@;
            assert(names_view(v@)[k] != s@);
        }
    }
    false
}

/// Compiles one whole raw token sequence for the rendering primitive
/// `macro_name`: parses it, extracts the leading sink when
/// `uses_stream` is set and the first part is an expression, gathers
/// every bound name, then emits the template, the binding statements
/// and the argument list in one left-to-right walk, failing on the
/// first use of a declared name before its definition.
pub fn make_format_string(
    macro_name: &str,
    tokens: &Vec<Token>,
    uses_stream: bool,
    clone_named: bool,
) -> (r: Result<Compiled, CompileError>)
    ensures
        match r {
            Ok(c) => compile_statement_spec(token_views(tokens@), macro_name@, uses_stream,
                clone_named,
            ) == Ok::<CompiledModel, ErrorModel>(c@),
            Err(e) => compile_statement_spec(token_views(tokens@), macro_name@, uses_stream,
                clone_named,
            ) == Err::<CompiledModel, ErrorModel>(e@),
        },
{
    let ghost vm = token_views(tokens@);
    let mut statement = match FormatStatement::parse(tokens) {
        Ok(st) => st,
        Err(e) => {
            return Err(e);
        },
    };
    let ghost st0 = statement@;
    let stream: Option<String> = if uses_stream {
        match &statement.stream {
            Some(first) => {
                let sk = first.clone();
                proof {
                    assert(st0.stream is Some);
                    assert(st0.parts.len() > 0);
                    assert(statement.parts@.len() > 0);
                }
                let ghost parts0 = statement.parts@;
                statement.parts.remove(0);
                proof {
                    assert(forall|i: int|
                        0 <= i < statement.parts@.len() ==> statement.parts@[i]
                            == parts0.drop_first()[i]);
                    assert(statement.parts@ =~= parts0.drop_first());
                    assert(parts_view(statement.parts@) =~= st0.parts.drop_first());
                }
                Some(sk)
            },
            None => None,
        }
    } else {
        None
    };
    let ghost pv = parts_view(statement.parts@);
    let ghost sinkv: Option<Seq<char>> = match &stream {
        Some(s) => Some(s@),
        None => None,
    };
    proof {
        if uses_stream && st0.stream is Some {
            assert(compile_statement_spec(vm, macro_name@, uses_stream, clone_named)
                == compile_parts_spec(macro_name@, sinkv, pv, clone_named));
        } else {
            assert(pv == st0.parts);
            assert(compile_statement_spec(vm, macro_name@, uses_stream, clone_named)
                == compile_parts_spec(macro_name@, sinkv, pv, clone_named));
        }
    }
    let parts = &statement.parts;
    let n = parts.len();

    // Collect pass: gather every bound name before any emission, so a
    // use can be told apart from an expression that merely looks like a
    // name.
    let mut declared: Vec<String> = Vec::new();
    let mut i: usize = 0;
    proof {
        assert(names_view(declared@) =~= bound_upto(pv, 0));
    }
    while i < n
        invariant
            i <= n,
            n == parts@.len(),
            pv == parts_view(parts@),
            names_view(declared@) == bound_upto(pv, i as int),
        decreases n - i,
    {
        let ghost prev = names_view(declared@);
        match &parts[i] {
            FormatPart::Expression(fe) => match &fe.left {
                Some(name) => {
                    declared.push(name.clone());
                    proof {
                        assert(pv[i as int] == parts@[i as int]@);
                        assert(names_view(declared@) =~= prev + seq![name@]);
                    }
                },
                None => {
                    proof {
                        assert(pv[i as int] == parts@[i as int]@);
                        assert(names_view(declared@) =~= prev + Seq::<Seq<char>>::empty());
                    }
                },
            },
            FormatPart::Literal(_) => {
                proof {
                    assert(pv[i as int] == parts@[i as int]@);
                    assert(names_view(declared@) =~= prev + Seq::<Seq<char>>::empty());
                }
            },
        }
        i = i + 1;
    }
    proof {
        assert(names_view(declared@) == declared_names(pv));
    }

    // Emission pass: one left-to-right walk emits template fragments,
    // binding statements and arguments in lock-step, and rejects the
    // first use of a declared name that no earlier part has bound.
    let mut template = String::new();
    let mut assignments: Vec<Assignment> = Vec::new();
    let mut args: Vec<Argument> = Vec::new();
    let mut defined: Vec<String> = Vec::new();
    let mut i: usize = 0;
    proof {
        assert(template@ =~= template_upto(pv, 0));
        assert(assignments@.map_values(|a: Assignment| a@) =~= assigns_upto(pv, 0));
        assert(args@.map_values(|a: Argument| a@) =~= args_upto(pv, 0, clone_named));
        assert(names_view(defined@) =~= bound_upto(pv, 0));
    }
    while i < n
        invariant
            i <= n,
            n == parts@.len(),
            pv == parts_view(parts@),
            compile_statement_spec(token_views(tokens@), macro_name@, uses_stream, clone_named)
                == compile_parts_spec(macro_name@, sinkv, pv, clone_named),
            names_view(declared@) == declared_names(pv),
            names_view(defined@) == bound_upto(pv, i as int),
            template@ == template_upto(pv, i as int),
            assignments@.map_values(|a: Assignment| a@) == assigns_upto(pv, i as int),
            args@.map_values(|a: Argument| a@) == args_upto(pv, i as int, clone_named),
            first_violation_from(pv, 0) == first_violation_from(pv, i as int),
        decreases n - i,
    {
        let ghost prev_template = template@;
        let ghost prev_assigns = assignments@.map_values(|a: Assignment| a@);
        let ghost prev_args = args@.map_values(|a: Argument| a@);
        let ghost prev_defined = names_view(defined@);
        proof {
            assert(pv[i as int] == parts@[i as int]@);
        }
        match &parts[i] {
            FormatPart::Literal(s) => {
                append_escaped(&mut template, s.as_str());
                proof {
                    assert(template@ == template_upto(pv, i + 1));
                    assert(prev_assigns + Seq::<AssignmentModel>::empty() =~= prev_assigns);
                    assert(prev_args + Seq::<ArgumentModel>::empty() =~= prev_args);
                    assert(prev_defined + Seq::<Seq<char>>::empty() =~= prev_defined);
                    assert(!violation_at(pv, i as int));
                }
            },
            FormatPart::Expression(fe) => {
                push_char(&mut template, '{');
                append_stripped(&mut template, fe.traits.as_str());
                push_char(&mut template, '}');
                proof {
                    assert(template@ =~= prev_template + placeholder(fe@.traits));
                    assert(template@ == template_upto(pv, i + 1));
                }
                match &fe.left {
                    Some(name) => {
                        assignments.push(
                            Assignment { name: name.clone(), value: fe.right.clone() },
                        );
                        defined.push(name.clone());
                        if clone_named {
                            args.push(Argument::Duplicated(name.clone()));
                        } else {
                            args.push(Argument::Named(name.clone()));
                        }
                        proof {
                            assert(assignments@.map_values(|a: Assignment| a@) =~= prev_assigns
                                + seq![AssignmentModel { name: name@, value: fe.right@ }]);
                            assert(names_view(defined@) =~= prev_defined + seq![name@]);
                            assert(args@.map_values(|a: Argument| a@) =~= prev_args + seq![
                                arg_of(pv[i as int], declared_names(pv), clone_named)->Some_0,
                            ]);
                            assert(!violation_at(pv, i as int));
                        }
                    },
                    None => {
                        if contains_name(&declared, &fe.right) {
                            if !contains_name(&defined, &fe.right) {
                                proof {
                                    assert(violation_at(pv, i as int));
                                    assert(first_violation_from(pv, i as int) == Some(fe.right@));
                                }
                                return Err(CompileError::UseBeforeDefinition {
                                    name: fe.right.clone(),
                                });
                            }
                            args.push(Argument::Duplicated(fe.right.clone()));
                        } else {
                            args.push(Argument::Passthrough(fe.right.clone()));
                        }
                        proof {
                            assert(args@.map_values(|a: Argument| a@) =~= prev_args + seq![
                                arg_of(pv[i as int], declared_names(pv), clone_named)->Some_0,
                            ]);
                            assert(prev_assigns + Seq::<AssignmentModel>::empty() =~= prev_assigns);
                            assert(prev_defined + Seq::<Seq<char>>::empty() =~= prev_defined);
                            assert(!violation_at(pv, i as int));
                        }
                    },
                }
            },
        }
        i = i + 1;
    }
    let target = macro_name.to_owned();
    let compiled = Compiled { target, sink: stream, template, assignments, args };
    proof {
        assert(first_violation_from(pv, 0) is None);
        assert(compiled@.sink == sinkv);
        assert(compiled@ == compile_parts_spec(macro_name@, sinkv, pv, clone_named)->Ok_0);
    }
    Ok(compiled)
}

} // verus!
