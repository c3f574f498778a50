use inline_format::tokens::{CompileError, ExprToken, Token};
use inline_format::utils::{Argument, Assignment, Compiled};

fn lit(s: &str) -> Token {
    Token::Str(s.to_string())
}

fn expr(text: &str) -> Token {
    Token::Expr(ExprToken { bind: None, text: text.to_string() })
}

fn assign(name: &str, text: &str) -> Token {
    Token::Expr(ExprToken { bind: Some(name.to_string()), text: text.to_string() })
}

fn block(text: &str) -> Token {
    Token::Block(ExprToken { bind: None, text: text.to_string() })
}

fn raw(s: &str) -> Token {
    Token::Raw(s.to_string())
}

fn ok(r: Result<Compiled, CompileError>) -> Compiled {
    match r {
        Ok(c) => c,
        Err(e) => panic!("compilation failed: {:?}", e),
    }
}

#[test]
fn format() {
    let val = 2 + 2;

    let std = std::format!(
        "test {{}} {{}} {val:\"<5} test {x10:o} {x10} {x10}",
        x10 = 10 * 10
    );

    // format!("test {} {} " {val}:"\"<5" " test " x10 = 10 * 10:o " " x10 " " x10)
    let tokens1 = vec![
        lit("test {} {} "),
        block("val"),
        Token::Colon,
        lit("\"<5"),
        lit(" test "),
        assign("x10", "10 * 10"),
        Token::Colon,
        raw("o"),
        lit(" "),
        expr("x10"),
        lit(" "),
        expr("x10"),
    ];
    let inline1 = ok(inline_format::format(&tokens1));

    // format!("test {} {} ", {val}:"\"<5", " test ", x10 = 10 * 10:o, " ", x10, " ", x10)
    let tokens2 = vec![
        lit("test {} {} "),
        Token::Comma,
        block("val"),
        Token::Colon,
        lit("\"<5"),
        Token::Comma,
        lit(" test "),
        Token::Comma,
        assign("x10", "10 * 10"),
        Token::Colon,
        raw("o"),
        Token::Comma,
        lit(" "),
        Token::Comma,
        expr("x10"),
        Token::Comma,
        lit(" "),
        Token::Comma,
        expr("x10"),
    ];
    let inline2 = ok(inline_format::format(&tokens2));

    assert_eq!(inline1.target, "format");
    assert_eq!(inline1.sink, None);
    assert_eq!(inline1.template, "test {{}} {{}} {:\"<5} test {:o} {} {}");
    assert_eq!(
        inline1.assignments,
        vec![Assignment { name: "x10".to_string(), value: "10 * 10".to_string() }]
    );
    assert_eq!(
        inline1.args,
        vec![
            Argument::Passthrough("val".to_string()),
            Argument::Named("x10".to_string()),
            Argument::Duplicated("x10".to_string()),
            Argument::Duplicated("x10".to_string()),
        ]
    );

    // Rendering the compiled form: evaluate the one binding, then call
    // the rendering primitive on the compiled template and arguments.
    let x10 = 10 * 10;
    let rendered1 = std::format!("test {{}} {{}} {:\"<5} test {:o} {} {}", val, x10, x10, x10);

    assert_eq!(std, rendered1);
    assert_eq!(inline1, inline2);
}

#[test]
fn format_args() {
    let val = 2 + 2;

    let std = std::format!(
        "test {{}} {{}} {val:,<5} test {x10:o} {x10} {x10}",
        x10 = 10 * 10
    );

    // format_args!("test {} {} " {val}:,<5 " test " x10 = 10 * 10:o " " x10 " " x10)
    let tokens1 = vec![
        lit("test {} {} "),
        block("val"),
        Token::Colon,
        Token::Comma,
        raw("<"),
        raw("5"),
        lit(" test "),
        assign("x10", "10 * 10"),
        Token::Colon,
        raw("o"),
        lit(" "),
        expr("x10"),
        lit(" "),
        expr("x10"),
    ];
    let inline1 = ok(inline_format::format_args(&tokens1));

    // format_args!("test {} {} ", {val}:,<5, " test ", x10 = 10 * 10:o, " ", x10, " ", x10)
    let tokens2 = vec![
        lit("test {} {} "),
        Token::Comma,
        block("val"),
        Token::Colon,
        Token::Comma,
        raw("<"),
        raw("5"),
        Token::Comma,
        lit(" test "),
        Token::Comma,
        assign("x10", "10 * 10"),
        Token::Colon,
        raw("o"),
        Token::Comma,
        lit(" "),
        Token::Comma,
        expr("x10"),
        Token::Comma,
        lit(" "),
        Token::Comma,
        expr("x10"),
    ];
    let inline2 = ok(inline_format::format_args(&tokens2));

    assert_eq!(inline1.target, "format_args");
    assert_eq!(inline1.template, "test {{}} {{}} {:,<5} test {:o} {} {}");
    // The deferred-arguments form duplicates even a binding's first
    // occurrence before storage.
    assert_eq!(
        inline1.args,
        vec![
            Argument::Passthrough("val".to_string()),
            Argument::Duplicated("x10".to_string()),
            Argument::Duplicated("x10".to_string()),
            Argument::Duplicated("x10".to_string()),
        ]
    );

    let x10 = 10 * 10;
    let rendered1 = std::format!("test {{}} {{}} {:,<5} test {:o} {} {}", val, x10, x10, x10);

    assert_eq!(std, rendered1);
    assert_eq!(inline1, inline2);
}

#[test]
fn write() -> std::io::Result<()> {
    let val = 2 + 2;

    let w1: Vec<u8> = std::format!(
        "test {{}} {{}} {val:\"<5} test {x10:o} {x10} {x10}",
        x10 = 10 * 10
    )
    .into_bytes();

    // write!(&mut w2 "test {} {} " {val}:"\"<5" " test " x10 = 10 * 10:o " " x10 " " x10)
    let tokens2 = vec![
        expr("&mut w2"),
        lit("test {} {} "),
        block("val"),
        Token::Colon,
        lit("\"<5"),
        lit(" test "),
        assign("x10", "10 * 10"),
        Token::Colon,
        raw("o"),
        lit(" "),
        expr("x10"),
        lit(" "),
        expr("x10"),
    ];
    let compiled2 = ok(inline_format::write(&tokens2));

    // write!(&mut w3, "test {} {} ", {val}:"\"<5", " test ", x10 = 10 * 10:o, " ", x10, " ", x10)
    let tokens3 = vec![
        expr("&mut w3"),
        Token::Comma,
        lit("test {} {} "),
        Token::Comma,
        block("val"),
        Token::Colon,
        lit("\"<5"),
        Token::Comma,
        lit(" test "),
        Token::Comma,
        assign("x10", "10 * 10"),
        Token::Colon,
        raw("o"),
        Token::Comma,
        lit(" "),
        Token::Comma,
        expr("x10"),
        Token::Comma,
        lit(" "),
        Token::Comma,
        expr("x10"),
    ];
    let compiled3 = ok(inline_format::write(&tokens3));

    assert_eq!(compiled2.target, "write");
    assert_eq!(compiled2.sink, Some("&mut w2".to_string()));
    assert_eq!(compiled3.sink, Some("&mut w3".to_string()));
    assert_eq!(compiled2.template, "test {{}} {{}} {:\"<5} test {:o} {} {}");
    assert_eq!(compiled2.template, compiled3.template);
    assert_eq!(compiled2.args, compiled3.args);

    // Rendering the two compiled forms into their extracted sinks.
    let x10 = 10 * 10;
    let w2: Vec<u8> =
        std::format!("test {{}} {{}} {:\"<5} test {:o} {} {}", val, x10, x10, x10).into_bytes();
    let w3: Vec<u8> =
        std::format!("test {{}} {{}} {:\"<5} test {:o} {} {}", val, x10, x10, x10).into_bytes();

    assert_eq!(w1, w2);
    assert_eq!(w2, w3);

    Ok(())
}

#[test]
fn brace_escaping_renders_literal_braces() {
    let tokens = vec![lit("a{b}c")];
    let compiled = ok(inline_format::format(&tokens));
    assert_eq!(compiled.template, "a{{b}}c");
    assert_eq!(compiled.args, vec![]);
    assert_eq!(std::format!("a{{b}}c"), "a{b}c");
}

#[test]
fn specifier_passthrough_exact_placeholder() {
    // parts ["test ", {val}:"04", " end"] with val already bound to 4
    let tokens = vec![lit("test "), block("val"), Token::Colon, lit("04"), lit(" end")];
    let compiled = ok(inline_format::format(&tokens));
    assert_eq!(compiled.template, "test {:04} end");
    assert_eq!(compiled.assignments, vec![]);
    assert_eq!(compiled.args, vec![Argument::Passthrough("val".to_string())]);

    let val = 4;
    assert_eq!(std::format!("test {:04} end", val), "test 0004 end");
}

#[test]
fn specifier_spaces_are_stripped() {
    let tokens = vec![expr("9"), Token::Colon, raw("^"), raw("5")];
    let compiled = ok(inline_format::format(&tokens));
    assert_eq!(compiled.template, "{:^5}");

    let quoted = vec![expr("9"), Token::Colon, lit("^ 5")];
    let compiled_quoted = ok(inline_format::format(&quoted));
    assert_eq!(compiled_quoted.template, "{:^5}");
}

#[test]
fn use_before_definition_fails_and_reorder_succeeds() {
    let before = vec![expr("n"), lit(" "), assign("n", "compute()")];
    assert_eq!(
        inline_format::format(&before),
        Err(CompileError::UseBeforeDefinition { name: "n".to_string() })
    );

    let after = vec![assign("n", "compute()"), lit(" "), expr("n")];
    let compiled = ok(inline_format::format(&after));
    assert_eq!(compiled.template, "{} {}");
    assert_eq!(
        compiled.args,
        vec![Argument::Named("n".to_string()), Argument::Duplicated("n".to_string())]
    );
}

#[test]
fn reuse_duplicates_the_name_not_the_expression() {
    // {x = compute()} followed by two bare uses of x: the expression is
    // bound once and both uses duplicate the binding.
    let tokens = vec![
        Token::Block(ExprToken { bind: Some("x".to_string()), text: "compute()".to_string() }),
        expr("x"),
        expr("x"),
    ];
    let compiled = ok(inline_format::format(&tokens));
    assert_eq!(
        compiled.assignments,
        vec![Assignment { name: "x".to_string(), value: "compute()".to_string() }]
    );
    assert_eq!(
        compiled.args,
        vec![
            Argument::Named("x".to_string()),
            Argument::Duplicated("x".to_string()),
            Argument::Duplicated("x".to_string()),
        ]
    );
    assert_eq!(compiled.template, "{}{}{}");
}

#[test]
fn invalid_binding_target_is_rejected() {
    let tokens = vec![Token::Expr(ExprToken {
        bind: Some("a.b".to_string()),
        text: "c".to_string(),
    })];
    assert_eq!(
        inline_format::format(&tokens),
        Err(CompileError::InvalidBindingTarget { target: "a.b".to_string() })
    );

    let underscore = vec![Token::Expr(ExprToken {
        bind: Some("_".to_string()),
        text: "c".to_string(),
    })];
    assert_eq!(
        inline_format::format(&underscore),
        Err(CompileError::InvalidBindingTarget { target: "_".to_string() })
    );
}

#[test]
fn dangling_tokens_are_syntax_errors() {
    assert_eq!(
        inline_format::format(&vec![Token::Colon]),
        Err(CompileError::SyntaxError { pos: 0 })
    );
    assert_eq!(
        inline_format::format(&vec![raw("+")]),
        Err(CompileError::SyntaxError { pos: 0 })
    );
    // A separator may stand between parts, not ahead of the first one.
    assert_eq!(
        inline_format::format(&vec![Token::Comma, lit("a")]),
        Err(CompileError::SyntaxError { pos: 0 })
    );
    // One separator after a part is consumed; a second one dangles.
    assert_eq!(
        inline_format::format(&vec![lit("a"), Token::Comma, Token::Comma]),
        Err(CompileError::SyntaxError { pos: 2 })
    );
}

#[test]
fn sink_extraction_only_for_sink_forms() {
    let tokens = vec![expr("sink_expr"), lit("literal "), expr("val")];

    let written = ok(inline_format::write(&tokens));
    assert_eq!(written.sink, Some("sink_expr".to_string()));
    assert_eq!(written.template, "literal {}");
    assert_eq!(written.args, vec![Argument::Passthrough("val".to_string())]);

    // A non-sink form extracts nothing, even though the first fragment
    // looks like a sink.
    let printed = ok(inline_format::print(&tokens));
    assert_eq!(printed.sink, None);
    assert_eq!(printed.template, "{}literal {}");
    assert_eq!(
        printed.args,
        vec![
            Argument::Passthrough("sink_expr".to_string()),
            Argument::Passthrough("val".to_string()),
        ]
    );

    // A sink form whose input starts with a literal has no sink.
    let no_sink = ok(inline_format::writeln(&vec![lit("plain")]));
    assert_eq!(no_sink.sink, None);
    assert_eq!(no_sink.template, "plain");
}

#[test]
fn every_entry_point_reaches_its_primitive() {
    let tokens = vec![lit("x")];
    assert_eq!(ok(inline_format::format(&tokens)).target, "format");
    assert_eq!(ok(inline_format::write(&tokens)).target, "write");
    assert_eq!(ok(inline_format::writeln(&tokens)).target, "writeln");
    assert_eq!(ok(inline_format::print(&tokens)).target, "print");
    assert_eq!(ok(inline_format::println(&tokens)).target, "println");
    assert_eq!(ok(inline_format::eprint(&tokens)).target, "eprint");
    assert_eq!(ok(inline_format::eprintln(&tokens)).target, "eprintln");
    assert_eq!(ok(inline_format::format_args(&tokens)).target, "format_args");
}

#[test]
fn empty_input_compiles_to_empty_template() {
    let compiled = ok(inline_format::format(&vec![]));
    assert_eq!(compiled.template, "");
    assert_eq!(compiled.sink, None);
    assert_eq!(compiled.assignments, vec![]);
    assert_eq!(compiled.args, vec![]);

    let sink_form = ok(inline_format::write(&vec![]));
    assert_eq!(sink_form.sink, None);
}

#[test]
fn ident_from_left_accepts_single_identifiers() {
    assert_eq!(inline_format::utils::ident_from_left("x10"), Some("x10".to_string()));
    assert_eq!(inline_format::utils::ident_from_left("_tmp"), Some("_tmp".to_string()));
    assert_eq!(inline_format::utils::ident_from_left("a.b"), None);
    assert_eq!(inline_format::utils::ident_from_left("_"), None);
    assert_eq!(inline_format::utils::ident_from_left(""), None);
    assert_eq!(inline_format::utils::ident_from_left("9a"), None);
}

#[test]
fn trailing_comma_specifier_stays_in_spec() {
    // The separator belongs to the specifier unless a string literal
    // follows it.
    let tokens = vec![expr("v"), Token::Colon, Token::Comma, raw("<"), raw("5"), lit("end")];
    let compiled = ok(inline_format::format(&tokens));
    assert_eq!(compiled.template, "{:,<5}end");

    let trailing = vec![expr("v"), Token::Colon, Token::Comma];
    let compiled_trailing = ok(inline_format::format(&trailing));
    assert_eq!(compiled_trailing.template, "{:,}");
}
