//! The fragment lexer/parser: raw input tokens, the parsed parts, and
//! the grammar that turns one into the other.
//!
//! The raw input is an ordered token sequence. An expression span is
//! one token, delimited (and, for the assignment form `target = value`,
//! already split) by the downstream expression parser; this compiler
//! never looks inside an expression beyond asking whether its text is a
//! single bare identifier.

use vstd::prelude::*;

use crate::text::is_identifier;
use crate::text::push_char;

verus! {

/// An expression span exactly as the downstream expression parser hands
/// it over: the optional assignment target's source text (for the form
/// `target = value`) and the value expression's source text.
#[derive(Debug, PartialEq, Eq)]
pub struct ExprToken {
    pub bind: Option<String>,
    pub text: String,
}

/// One raw input token.
#[derive(Debug, PartialEq, Eq)]
pub enum Token {
    /// A string literal (its value).
    Str(String),
    /// An expression span, delimited by the downstream expression parser.
    Expr(ExprToken),
    /// A brace-delimited block holding an expression or binding form.
    Block(ExprToken),
    /// The specifier introducer `:`.
    Colon,
    /// The optional part separator `,`.
    Comma,
    /// Any other raw token's verbatim text; meaningful only inside a
    /// specifier.
    Raw(String),
}

/// The mathematical model of an expression span.
pub struct ExprTokenModel {
    pub bind: Option<Seq<char>>,
    pub text: Seq<char>,
}

/// The mathematical model of a raw input token.
pub enum TokenModel {
    Str(Seq<char>),
    Expr(ExprTokenModel),
    Block(ExprTokenModel),
    Colon,
    Comma,
    Raw(Seq<char>),
}

impl View for ExprToken {
    type V = ExprTokenModel;

    open spec fn view(&self) -> ExprTokenModel {
        ExprTokenModel {
            bind: match self.bind {
                Some(b) => Some(b@),
                None => None,
            },
            text: self.text@,
        }
    }
}

impl View for Token {
    type V = TokenModel;

    open spec fn view(&self) -> TokenModel {
        match self {
            Token::Str(s) => TokenModel::Str(s@),
            Token::Expr(e) => TokenModel::Expr(e@),
            Token::Block(e) => TokenModel::Block(e@),
            Token::Colon => TokenModel::Colon,
            Token::Comma => TokenModel::Comma,
            Token::Raw(s) => TokenModel::Raw(s@),
        }
    }
}

/// The whole token sequence, seen mathematically.
pub open spec fn token_views(ts: Seq<Token>) -> Seq<TokenModel> {
    ts.map_values(|t: Token| t@)
}

/// A compile-time failure. Every failure is fatal to the compilation
/// and carries the offending fragment.
#[derive(Debug, PartialEq, Eq)]
pub enum CompileError {
    /// The token sequence does not match the grammar; `pos` is the
    /// index of the token at which parsing failed.
    SyntaxError { pos: usize },
    /// An assignment form whose target is not a single identifier;
    /// `target` is the offending target text.
    InvalidBindingTarget { target: String },
    /// A bare use of a declared name before its defining fragment;
    /// `name` is the offending name.
    UseBeforeDefinition { name: String },
}

/// The mathematical model of a compile-time failure.
pub enum ErrorModel {
    Syntax { pos: int },
    InvalidBindingTarget { target: Seq<char> },
    UseBeforeDefinition { name: Seq<char> },
}

impl View for CompileError {
    type V = ErrorModel;

    open spec fn view(&self) -> ErrorModel {
        match self {
            CompileError::SyntaxError { pos } => ErrorModel::Syntax { pos: *pos as int },
            CompileError::InvalidBindingTarget { target } => ErrorModel::InvalidBindingTarget {
                target: target@,
            },
            CompileError::UseBeforeDefinition { name } => ErrorModel::UseBeforeDefinition {
                name: name@,
            },
        }
    }
}

/// A parsed expression part: the validated binding name if the span was
/// an assignment form, the value expression's verbatim text, and the
/// raw specifier text (starting with `:` when a specifier is present).
#[derive(Debug, PartialEq, Eq)]
pub struct FormatExpression {
    pub left: Option<String>,
    pub right: String,
    pub traits: String,
}

/// One parsed part: literal text or a formatting slot.
#[derive(Debug, PartialEq, Eq)]
pub enum FormatPart {
    Expression(FormatExpression),
    Literal(String),
}

/// The whole parsed input: the parts in order, and the leading sink
/// expression's text whenever the first part is an expression (it is
/// consumed in place of a part only by sink-consuming output forms).
#[derive(Debug, PartialEq, Eq)]
pub struct FormatStatement {
    pub stream: Option<String>,
    pub parts: Vec<FormatPart>,
}

/// The mathematical model of a parsed expression part.
pub struct ExpressionModel {
    pub left: Option<Seq<char>>,
    pub right: Seq<char>,
    pub traits: Seq<char>,
}

/// The mathematical model of one parsed part.
pub enum PartModel {
    Expression(ExpressionModel),
    Literal(Seq<char>),
}

/// The mathematical model of the whole parsed input.
pub struct StatementModel {
    pub stream: Option<Seq<char>>,
    pub parts: Seq<PartModel>,
}

impl View for FormatExpression {
    type V = ExpressionModel;

    open spec fn view(&self) -> ExpressionModel {
        ExpressionModel {
            left: match self.left {
                Some(l) => Some(l@),
                None => None,
            },
            right: self.right@,
            traits: self.traits@,
        }
    }
}

impl View for FormatPart {
    type V = PartModel;

    open spec fn view(&self) -> PartModel {
        match self {
            FormatPart::Expression(e) => PartModel::Expression(e@),
            FormatPart::Literal(s) => PartModel::Literal(s@),
        }
    }
}

/// A parsed part sequence, seen mathematically.
pub open spec fn parts_view(ps: Seq<FormatPart>) -> Seq<PartModel> {
    ps.map_values(|p: FormatPart| p@)
}

impl View for FormatStatement {
    type V = StatementModel;

    open spec fn view(&self) -> StatementModel {
        StatementModel {
            stream: match self.stream {
                Some(s) => Some(s@),
                None => None,
            },
            parts: parts_view(self.parts@),
        }
    }
}

/// Whether the raw-specifier scan stops before consuming position `p`:
/// at the end of input, before a string literal, before an expression,
/// or before a separator that introduces a string literal.
pub open spec fn raw_stop(toks: Seq<TokenModel>, p: int) -> bool {
    ||| p < 0
    ||| p >= toks.len()
    ||| toks[p] is Str
    ||| toks[p] is Expr
    ||| toks[p] is Block
    ||| (toks[p] is Comma && p + 1 < toks.len() && toks[p + 1] is Str)
}

/// The verbatim text one token contributes to a raw specifier.
pub open spec fn raw_text(t: TokenModel) -> Seq<char> {
    match t {
        TokenModel::Colon => seq![':'],
        TokenModel::Comma => seq![','],
        TokenModel::Raw(s) => s,
        _ => Seq::empty(),
    }
}

/// The concatenated text of the raw-specifier run starting at `p`.
pub open spec fn raw_run_text(toks: Seq<TokenModel>, p: int) -> Seq<char>
    decreases toks.len() - p,
{
    if raw_stop(toks, p) {
        Seq::empty()
    } else {
        raw_text(toks[p]) + raw_run_text(toks, p + 1)
    }
}

/// The position just past the raw-specifier run starting at `p`.
pub open spec fn raw_run_end(toks: Seq<TokenModel>, p: int) -> int
    decreases toks.len() - p,
{
    if raw_stop(toks, p) {
        p
    } else {
        raw_run_end(toks, p + 1)
    }
}

proof fn lemma_raw_run_end_bounds(toks: Seq<TokenModel>, p: int)
    requires
        0 <= p <= toks.len(),
    ensures
        p <= raw_run_end(toks, p) <= toks.len(),
    decreases toks.len() - p,
{
    if !raw_stop(toks, p) {
        lemma_raw_run_end_bounds(toks, p + 1);
    }
}

/// The specifier at position `p`, if any: its raw text (starting with
/// `:`) and the position just past it. A quoted specifier is a `:`
/// followed by a string literal whose value becomes the specifier; a
/// raw specifier is the `:` and every following token up to (not
/// including) the next string literal, a separator that introduces a
/// string literal, or the end of input.
pub open spec fn parse_spec_at(toks: Seq<TokenModel>, p: int) -> (Seq<char>, int) {
    if 0 <= p < toks.len() && toks[p] is Colon {
        if p + 1 < toks.len() && toks[p + 1] is Str {
            (
                seq![':'] + match toks[p + 1] {
                    TokenModel::Str(s) => s,
                    _ => Seq::empty(),
                },
                p + 2,
            )
        } else {
            (raw_run_text(toks, p), raw_run_end(toks, p))
        }
    } else {
        (Seq::empty(), p)
    }
}

/// An expression part parsed from position `p`: the expression span
/// itself (its assignment target, when present, must be a single
/// identifier) followed by an optional specifier. Any token other than
/// an expression span fails the grammar.
pub open spec fn parse_expression_at(toks: Seq<TokenModel>, p: int) -> Result<
    (ExpressionModel, int),
    ErrorModel,
> {
    if 0 <= p < toks.len() && (toks[p] is Expr || toks[p] is Block) {
        let et = match toks[p] {
            TokenModel::Expr(e) => e,
            TokenModel::Block(e) => e,
            _ => ExprTokenModel { bind: None, text: Seq::empty() },
        };
        match et.bind {
            Some(b) => if !is_identifier(b) {
                Err(ErrorModel::InvalidBindingTarget { target: b })
            } else {
                let (traits, q) = parse_spec_at(toks, p + 1);
                Ok((ExpressionModel { left: Some(b), right: et.text, traits }, q))
            },
            None => {
                let (traits, q) = parse_spec_at(toks, p + 1);
                Ok((ExpressionModel { left: None, right: et.text, traits }, q))
            },
        }
    } else {
        Err(ErrorModel::Syntax { pos: p })
    }
}

/// The position past one optional separator at `p`.
pub open spec fn skip_comma(toks: Seq<TokenModel>, p: int) -> int {
    if 0 <= p < toks.len() && toks[p] is Comma {
        p + 1
    } else {
        p
    }
}

/// The part list parsed from position `p` to the end of input: a string
/// literal is a literal part, an expression span (optionally followed
/// by a specifier) is an expression part, and a single separator after
/// each part is consumed and discarded.
pub open spec fn parse_parts_at(toks: Seq<TokenModel>, p: int) -> Result<Seq<PartModel>, ErrorModel>
    decreases toks.len() - p
        via parse_parts_at_decreases
{
    if p < 0 {
        Err(ErrorModel::Syntax { pos: p })
    } else if p >= toks.len() {
        Ok(Seq::empty())
    } else if toks[p] is Str {
        let s = match toks[p] {
            TokenModel::Str(s) => s,
            _ => Seq::empty(),
        };
        match parse_parts_at(toks, skip_comma(toks, p + 1)) {
            Ok(rest) => Ok(seq![PartModel::Literal(s)] + rest),
            Err(e) => Err(e),
        }
    } else {
        match parse_expression_at(toks, p) {
            Err(e) => Err(e),
            Ok((e, q)) => match parse_parts_at(toks, skip_comma(toks, q)) {
                Ok(rest) => Ok(seq![PartModel::Expression(e)] + rest),
                Err(er) => Err(er),
            },
        }
    }
}

#[via_fn]
proof fn parse_parts_at_decreases(toks: Seq<TokenModel>, p: int) {
    if 0 <= p < toks.len() && !(toks[p] is Str) && (toks[p] is Expr || toks[p] is Block) {
        lemma_raw_run_end_bounds(toks, p + 1);
    }
}

/// The whole input parsed from its token sequence. The leading sink
/// candidate is the first part's value expression whenever the first
/// part is an expression.
pub open spec fn parse_statement_spec(toks: Seq<TokenModel>) -> Result<StatementModel, ErrorModel> {
    match parse_parts_at(toks, 0) {
        Err(e) => Err(e),
        Ok(parts) => Ok(
            StatementModel {
                stream: if parts.len() > 0 && parts[0] is Expression {
                    Some(
                        match parts[0] {
                            PartModel::Expression(e) => e.right,
                            _ => Seq::empty(),
                        },
                    )
                } else {
                    None
                },
                parts,
            },
        ),
    }
}

impl FormatExpression {
    /// Parses the specifier, if any, at token position `p`, returning
    /// its raw text and the position just past it.
    fn parse_specifier(toks: &Vec<Token>, p: usize) -> (r: (String, usize))
        requires
            p <= toks@.len(),
        ensures
            r.0@ == parse_spec_at(token_views(toks@), p as int).0,
            r.1 as int == parse_spec_at(token_views(toks@), p as int).1,
            p <= r.1 <= toks@.len(),
    {
        let ghost vm = token_views(toks@);
        let n = toks.len();
        if p < n && matches!(toks[p], Token::Colon) {
            if p + 1 < n && matches!(toks[p + 1], Token::Str(_)) {
                let mut t = String::new();
                push_char(&mut t, ':');
                match &toks[p + 1] {
                    Token::Str(s) => {
                        t.append(s.as_str());
                        proof {
                            assert(vm[p + 1] is Str);
                            assert(t@ =~= seq![':'] + s@);
                        }
                    },
                    _ => {},
                }
                (t, p + 2)
            } else {
                let mut t = String::new();
                let mut cur = p;
                proof {
                    assert(!(p + 1 < vm.len() && vm[p + 1] is Str));
                }
                loop
                    invariant
                        p <= cur <= toks@.len(),
                        p < toks@.len(),
                        vm == token_views(toks@),
                        vm.len() == toks@.len(),
                        vm[p as int] is Colon,
                        !(p + 1 < vm.len() && vm[p + 1] is Str),
                        raw_run_text(vm, p as int) == t@ + raw_run_text(vm, cur as int),
                        raw_run_end(vm, p as int) == raw_run_end(vm, cur as int),
                    decreases toks@.len() - cur,
                {
                    if cur >= toks.len() {
                        proof {
                            assert(raw_stop(vm, cur as int));
                            assert(raw_run_text(vm, cur as int) =~= Seq::<char>::empty());
                            assert(t@ + raw_run_text(vm, cur as int) =~= t@);
                            assert(raw_run_end(vm, cur as int) == cur as int);
                        }
                        return (t, cur);
                    }
                    let ghost pre = t@;
                    match &toks[cur] {
                        Token::Str(_) | Token::Expr(_) | Token::Block(_) => {
                            proof {
                                assert(raw_stop(vm, cur as int));
                                assert(raw_run_text(vm, cur as int) =~= Seq::<char>::empty());
                                assert(t@ + raw_run_text(vm, cur as int) =~= t@);
                                assert(raw_run_end(vm, cur as int) == cur as int);
                            }
                            return (t, cur);
                        },
                        Token::Comma => {
                            if cur + 1 < toks.len() && matches!(toks[cur + 1], Token::Str(_)) {
                                proof {
                                    assert(vm[cur + 1] is Str);
                                    assert(raw_stop(vm, cur as int));
                                    assert(raw_run_text(vm, cur as int) =~= Seq::<char>::empty());
                                    assert(t@ + raw_run_text(vm, cur as int) =~= t@);
                                    assert(raw_run_end(vm, cur as int) == cur as int);
                                }
                                return (t, cur);
                            }
                            push_char(&mut t, ',');
                            proof {
                                assert(!raw_stop(vm, cur as int));
                                assert(raw_text(vm[cur as int]) =~= seq![',']);
                                assert(t@ =~= pre + raw_text(vm[cur as int]));
                                assert(raw_run_text(vm, cur as int) == raw_text(vm[cur as int])
                                    + raw_run_text(vm, cur + 1));
                                assert(raw_run_text(vm, p as int) =~= t@ + raw_run_text(
                                    vm,
                                    cur + 1,
                                ));
                            }
                            cur = cur + 1;
                        },
                        Token::Colon => {
                            push_char(&mut t, ':');
                            proof {
                                assert(!raw_stop(vm, cur as int));
                                assert(raw_text(vm[cur as int]) =~= seq![':']);
                                assert(t@ =~= pre + raw_text(vm[cur as int]));
                                assert(raw_run_text(vm, cur as int) == raw_text(vm[cur as int])
                                    + raw_run_text(vm, cur + 1));
                                assert(raw_run_text(vm, p as int) =~= t@ + raw_run_text(
                                    vm,
                                    cur + 1,
                                ));
                            }
                            cur = cur + 1;
                        },
                        Token::Raw(s) => {
                            t.append(s.as_str());
                            proof {
                                assert(!raw_stop(vm, cur as int));
                                assert(raw_text(vm[cur as int]) == s@);
                                assert(raw_run_text(vm, cur as int) == raw_text(vm[cur as int])
                                    + raw_run_text(vm, cur + 1));
                                assert(raw_run_text(vm, p as int) =~= t@ + raw_run_text(
                                    vm,
                                    cur + 1,
                                ));
                            }
                            cur = cur + 1;
                        },
                    }
                }
            }
        } else {
            proof {
                assert(parse_spec_at(vm, p as int).0 =~= Seq::<char>::empty());
            }
            (String::new(), p)
        }
    }

    /// Parses one expression part at token position `pos`: the
    /// expression span (whose assignment target, when present, must be
    /// a single identifier) and its optional specifier.
    pub fn parse(toks: &Vec<Token>, pos: usize) -> (r: Result<(FormatExpression, usize), CompileError>)
        ensures
            match r {
                Ok(pair) => {
                    &&& parse_expression_at(token_views(toks@), pos as int) == Ok::<
                        (ExpressionModel, int),
                        ErrorModel,
                    >((pair.0@, pair.1 as int))
                    &&& pos < pair.1 <= toks@.len()
                },
                Err(e) => parse_expression_at(token_views(toks@), pos as int) == Err::<
                    (ExpressionModel, int),
                    ErrorModel,
                >(e@),
            },
    {
        let ghost vm = token_views(toks@);
        if pos >= toks.len() {
            return Err(CompileError::SyntaxError { pos });
        }
        match &toks[pos] {
            Token::Expr(et) | Token::Block(et) => {
                let left: Option<String> = match &et.bind {
                    Some(b) => match crate::utils::ident_from_left(b.as_str()) {
                        Some(name) => Some(name),
                        None => {
                            return Err(CompileError::InvalidBindingTarget { target: b.clone() });
                        },
                    },
                    None => None,
                };
                let (traits, q) = Self::parse_specifier(toks, pos + 1);
                let fe = FormatExpression { left, right: et.text.clone(), traits };
                proof {
                    assert(parse_expression_at(vm, pos as int) == Ok::<
                        (ExpressionModel, int),
                        ErrorModel,
                    >((fe@, q as int)));
                }
                Ok((fe, q))
            },
            _ => Err(CompileError::SyntaxError { pos }),
        }
    }
}

impl FormatStatement {
    /// Parses the whole token sequence into its ordered part list and
    /// the leading sink candidate.
    pub fn parse(toks: &Vec<Token>) -> (r: Result<FormatStatement, CompileError>)
        ensures
            match r {
                Ok(st) => parse_statement_spec(token_views(toks@)) == Ok::<
                    StatementModel,
                    ErrorModel,
                >(st@),
                Err(e) => parse_statement_spec(token_views(toks@)) == Err::<
                    StatementModel,
                    ErrorModel,
                >(e@),
            },
    {
        let ghost vm = token_views(toks@);
        let n = toks.len();
        let mut parts: Vec<FormatPart> = Vec::new();
        let mut pos: usize = 0;
        proof {
            assert(parts_view(parts@) =~= Seq::<PartModel>::empty());
        }
        while pos < n
            invariant
                pos <= n,
                n == toks@.len(),
                vm == token_views(toks@),
                match parse_parts_at(vm, pos as int) {
                    Ok(rest) => parse_parts_at(vm, 0) == Ok::<Seq<PartModel>, ErrorModel>(
                        parts_view(parts@) + rest,
                    ),
                    Err(e) => parse_parts_at(vm, 0) == Err::<Seq<PartModel>, ErrorModel>(e),
                },
            decreases n - pos,
        {
            let ghost prev_parts = parts_view(parts@);
            let mut base: usize;
            match &toks[pos] {
                Token::Str(s) => {
                    let part = FormatPart::Literal(s.clone());
                    proof {
                        assert(vm[pos as int] is Str);
                        assert(part@ == PartModel::Literal(s@));
                    }
                    parts.push(part);
                    base = pos + 1;
                },
                _ => {
                    proof {
                        assert(!(vm[pos as int] is Str));
                    }
                    match FormatExpression::parse(toks, pos) {
                        Ok((fe, q)) => {
                            let part = FormatPart::Expression(fe);
                            parts.push(part);
                            base = q;
                        },
                        Err(e) => {
                            return Err(e);
                        },
                    }
                },
            }
            let mut next: usize = base;
            if next < n && matches!(toks[next], Token::Comma) {
                next = next + 1;
            }
            proof {
                assert(skip_comma(vm, base as int) == next as int);
                assert(parts_view(parts@) =~= prev_parts + seq![parts@.last()@]);
                match parse_parts_at(vm, next as int) {
                    Ok(rest) => {
                        assert(parse_parts_at(vm, pos as int) == Ok::<Seq<PartModel>, ErrorModel>(
                            seq![parts@.last()@] + rest,
                        ));
                        assert(prev_parts + (seq![parts@.last()@] + rest) =~= parts_view(parts@)
                            + rest);
                    },
                    Err(e) => {
                        assert(parse_parts_at(vm, pos as int) == Err::<Seq<PartModel>, ErrorModel>(
                            e,
                        ));
                    },
                }
            }
            pos = next;
        }
        proof {
            assert(pos == n);
            assert(parse_parts_at(vm, pos as int) == Ok::<Seq<PartModel>, ErrorModel>(
                Seq::<PartModel>::empty(),
            ));
            assert(parts_view(parts@) + Seq::<PartModel>::empty() =~= parts_view(parts@));
            assert(parse_parts_at(vm, 0) == Ok::<Seq<PartModel>, ErrorModel>(parts_view(parts@)));
            if parts@.len() > 0 {
                assert(parts_view(parts@)[0] == parts@[0]@);
            }
        }
        let stream: Option<String> = if parts.len() > 0 {
            match &parts[0] {
                FormatPart::Expression(e) => Some(e.right.clone()),
                FormatPart::Literal(_) => None,
            }
        } else {
            None
        };
        let st = FormatStatement { stream, parts };
        proof {
            assert(parse_parts_at(vm, 0) == Ok::<Seq<PartModel>, ErrorModel>(st@.parts));
            assert(parse_statement_spec(vm) == Ok::<StatementModel, ErrorModel>(st@));
        }
        Ok(st)
    }
}

} // verus!
