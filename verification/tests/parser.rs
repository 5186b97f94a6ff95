use pie::cst::CstChild;
use pie::cst::CstNode;
use pie::parser::parse;
use pie::parser::read;
use pie::parser::ParseError;
use pie::parser::SourceCursor;
use pie::span::Span;
use pie::syntax::Apply;
use pie::syntax::Atom;
use pie::syntax::Claim;
use pie::syntax::Define;
use pie::syntax::Expression;
use pie::syntax::Identifier;
use pie::syntax::Lambda;
use pie::syntax::Source;
use pie::syntax::Statement;
use pie::syntax::Type;
use pie::syntax::Variable;

fn nd(kind: &str, start: usize, end: usize, children: Vec<CstChild>) -> CstNode {
    CstNode {
        kind: kind.to_string(),
        start,
        end,
        named: true,
        children,
    }
}

fn ch(node: CstNode) -> CstChild {
    CstChild { field: None, node }
}

fn chf(field: &str, node: CstNode) -> CstChild {
    CstChild {
        field: Some(field.to_string()),
        node,
    }
}

fn expr_of(start: usize, end: usize, inner: CstNode) -> CstNode {
    nd("expression", start, end, vec![ch(inner)])
}

#[test]
fn empty_source_parses_to_no_statements() {
    let root = nd("source", 0, 0, vec![]);
    let src = parse(&root, "").expect("empty source must parse");
    assert_eq!(
        src,
        Source {
            ann: Span {
                offset: 0,
                length: 0
            },
            statements: vec![]
        }
    );
}

#[test]
fn claim_statement_parses() {
    // claim f Nat
    // 0123456789A
    let text = "claim f Nat";
    let root = nd(
        "source",
        0,
        11,
        vec![ch(nd(
            "claim",
            0,
            11,
            vec![
                chf("identifier", nd("identifier", 6, 7, vec![])),
                chf("type", expr_of(8, 11, nd("type_identifier", 8, 11, vec![]))),
            ],
        ))],
    );
    let src = parse(&root, text).expect("claim must parse");
    assert_eq!(
        src,
        Source {
            ann: Span {
                offset: 0,
                length: 11
            },
            statements: vec![Statement::Claim(Claim {
                ann: Span {
                    offset: 0,
                    length: 11
                },
                ident: Identifier("f".to_string()),
                expr: Box::new(Expression::Ty(Type {
                    ann: Span {
                        offset: 8,
                        length: 3
                    },
                    ident: Identifier("Nat".to_string()),
                })),
            })],
        }
    );
    // the recovered identifiers are the exact source substrings
    assert_eq!("f", &text[6..7]);
    assert_eq!("Nat", &text[8..11]);
}

#[test]
fn define_statement_parses() {
    // define x y
    let text = "define x y";
    let root = nd(
        "source",
        0,
        10,
        vec![ch(nd(
            "define",
            0,
            10,
            vec![
                chf("identifier", nd("identifier", 7, 8, vec![])),
                chf("body", expr_of(9, 10, nd("identifier", 9, 10, vec![]))),
            ],
        ))],
    );
    let src = parse(&root, text).expect("define must parse");
    assert_eq!(src.statements.len(), 1);
    assert_eq!(
        src.statements[0],
        Statement::Def(Define {
            ann: Span {
                offset: 0,
                length: 10
            },
            ident: Identifier("x".to_string()),
            body: Box::new(Expression::Ref(Variable {
                ann: Span {
                    offset: 9,
                    length: 1
                },
                ident: Identifier("y".to_string()),
            })),
        })
    );
}

#[test]
fn expression_statement_parses() {
    let text = "foo";
    let root = nd(
        "source",
        0,
        3,
        vec![ch(expr_of(0, 3, nd("identifier", 0, 3, vec![])))],
    );
    let src = parse(&root, text).expect("bare expression must parse");
    assert_eq!(
        src.statements,
        vec![Statement::Expr(Expression::Ref(Variable {
            ann: Span {
                offset: 0,
                length: 3
            },
            ident: Identifier("foo".to_string()),
        }))]
    );
}

#[test]
fn atom_parses_through_identifier_field() {
    // 'a
    let text = "'a";
    let root = nd(
        "source",
        0,
        2,
        vec![ch(expr_of(
            0,
            2,
            nd(
                "atom",
                0,
                2,
                vec![chf("identifier", nd("identifier", 1, 2, vec![]))],
            ),
        ))],
    );
    let src = parse(&root, text).expect("atom must parse");
    assert_eq!(
        src.statements,
        vec![Statement::Expr(Expression::Atom(Atom {
            ann: Span {
                offset: 0,
                length: 2
            },
            ident: Identifier("a".to_string()),
        }))]
    );
}

#[test]
fn application_keeps_argument_order() {
    // f a b
    let text = "f a b";
    let app = nd(
        "application",
        0,
        5,
        vec![
            chf("function", expr_of(0, 1, nd("identifier", 0, 1, vec![]))),
            chf("arguments", expr_of(2, 3, nd("identifier", 2, 3, vec![]))),
            chf("arguments", expr_of(4, 5, nd("identifier", 4, 5, vec![]))),
        ],
    );
    let root = nd("source", 0, 5, vec![ch(expr_of(0, 5, app))]);
    let src = parse(&root, text).expect("application must parse");
    let var = |o: usize, l: usize, s: &str| {
        Box::new(Expression::Ref(Variable {
            ann: Span {
                offset: o,
                length: l,
            },
            ident: Identifier(s.to_string()),
        }))
    };
    assert_eq!(
        src.statements,
        vec![Statement::Expr(Expression::App(Apply {
            ann: Span {
                offset: 0,
                length: 5
            },
            fun: var(0, 1, "f"),
            args: vec![var(2, 1, "a"), var(4, 1, "b")],
        }))]
    );
}

#[test]
fn lambda_with_no_arguments_parses_to_empty_args() {
    // (lambda () x)
    let text = "(lambda () x)";
    let lam = nd(
        "lambda",
        0,
        13,
        vec![chf("body", expr_of(11, 12, nd("identifier", 11, 12, vec![])))],
    );
    let root = nd("source", 0, 13, vec![ch(expr_of(0, 13, lam))]);
    let src = parse(&root, text).expect("lambda must parse");
    match &src.statements[0] {
        Statement::Expr(Expression::Abs(Lambda { args, body, .. })) => {
            assert_eq!(args.len(), 0);
            assert_eq!(
                **body,
                Expression::Ref(Variable {
                    ann: Span {
                        offset: 11,
                        length: 1
                    },
                    ident: Identifier("x".to_string()),
                })
            );
        }
        other => panic!("expected a lambda, got {:?}", other),
    }
}

#[test]
fn lambda_with_arguments_keeps_their_order() {
    // (lambda (x y) x)
    let text = "(lambda (x y) x)";
    let lam = nd(
        "lambda",
        0,
        16,
        vec![
            chf("arguments", expr_of(9, 10, nd("identifier", 9, 10, vec![]))),
            chf(
                "arguments",
                expr_of(11, 12, nd("identifier", 11, 12, vec![])),
            ),
            chf("body", expr_of(14, 15, nd("identifier", 14, 15, vec![]))),
        ],
    );
    let root = nd("source", 0, 16, vec![ch(expr_of(0, 16, lam))]);
    let src = parse(&root, text).expect("lambda must parse");
    match &src.statements[0] {
        Statement::Expr(Expression::Abs(Lambda { args, .. })) => {
            let names: Vec<String> = args
                .iter()
                .map(|a| match &**a {
                    Expression::Ref(v) => v.ident.0.clone(),
                    other => panic!("expected a variable, got {:?}", other),
                })
                .collect();
            assert_eq!(names, vec!["x".to_string(), "y".to_string()]);
        }
        other => panic!("expected a lambda, got {:?}", other),
    }
}

#[test]
fn missing_type_on_claim_is_reported() {
    // claim f
    let text = "claim f\n";
    let root = nd(
        "source",
        0,
        8,
        vec![ch(nd(
            "claim",
            0,
            7,
            vec![chf("identifier", nd("identifier", 6, 7, vec![]))],
        ))],
    );
    let err = parse(&root, text).expect_err("claim without a type must fail");
    match err {
        ParseError::Missing(m) => {
            assert_eq!(
                m.loc,
                Span {
                    offset: 0,
                    length: 7
                }
            );
            assert_eq!(m.token, "`claim'".to_string());
            assert_eq!(m.what, "type `expression'".to_string());
        }
        other => panic!("expected a missing-field diagnostic, got {:?}", other),
    }
}

#[test]
fn unknown_expression_kind_lists_the_alternatives_in_order() {
    let text = "42";
    let root = nd(
        "source",
        0,
        2,
        vec![ch(expr_of(0, 2, nd("number", 0, 2, vec![])))],
    );
    let err = parse(&root, text).expect_err("a stray literal must fail");
    match err {
        ParseError::Choice(c) => {
            assert_eq!(c.actual, "number".to_string());
            assert_eq!(
                c.expected,
                vec![
                    "atom".to_string(),
                    "identifier".to_string(),
                    "type_identifier".to_string(),
                    "lambda".to_string(),
                    "application".to_string(),
                ]
            );
            assert_eq!(
                c.loc,
                Span {
                    offset: 0,
                    length: 2
                }
            );
        }
        other => panic!("expected a choice diagnostic, got {:?}", other),
    }
}

#[test]
fn unknown_statement_kind_is_a_mismatch_naming_the_legal_kinds() {
    let root = nd(
        "source",
        0,
        4,
        vec![ch(nd("frob", 0, 4, vec![]))],
    );
    let err = parse(&root, "frob").expect_err("an unknown statement kind must fail");
    match err {
        ParseError::Mismatch(m) => {
            assert_eq!(m.actual, "frob".to_string());
            assert_eq!(
                m.expected,
                "one of: `claim', `define', `expression'".to_string()
            );
        }
        other => panic!("expected a mismatch diagnostic, got {:?}", other),
    }
}

#[test]
fn root_of_wrong_kind_is_a_mismatch() {
    let root = nd("statement", 0, 0, vec![]);
    let err = parse(&root, "").expect_err("a non-source root must fail");
    match err {
        ParseError::Mismatch(m) => {
            assert_eq!(m.actual, "statement".to_string());
            assert_eq!(m.expected, "`source'".to_string());
        }
        other => panic!("expected a mismatch diagnostic, got {:?}", other),
    }
}

#[test]
fn expression_without_named_child_is_missing_its_body() {
    let mut inner = nd("paren", 0, 2, vec![]);
    inner.named = false;
    let root = nd("source", 0, 2, vec![ch(nd("expression", 0, 2, vec![ch(inner)]))]);
    let err = parse(&root, "()").expect_err("an empty expression must fail");
    match err {
        ParseError::Missing(m) => {
            assert_eq!(m.token, "expression".to_string());
            assert_eq!(m.what, "expression body".to_string());
        }
        other => panic!("expected a missing-field diagnostic, got {:?}", other),
    }
}

#[test]
fn span_past_the_end_is_a_reading_error() {
    let root = nd(
        "source",
        0,
        3,
        vec![ch(expr_of(0, 3, nd("identifier", 100, 105, vec![])))],
    );
    let err = parse(&root, "foo").expect_err("a span past the end must fail");
    match err {
        ParseError::Reading(r) => {
            assert_eq!(
                r.loc,
                Span {
                    offset: 100,
                    length: 5
                }
            );
            assert_eq!(r.help, "seek past the end of the source".to_string());
        }
        other => panic!("expected a reading diagnostic, got {:?}", other),
    }
}

#[test]
fn span_overrunning_the_end_is_a_reading_error() {
    let root = nd(
        "source",
        0,
        3,
        vec![ch(expr_of(0, 3, nd("identifier", 1, 7, vec![])))],
    );
    let err = parse(&root, "foo").expect_err("a span overrunning the end must fail");
    match err {
        ParseError::Reading(r) => {
            assert_eq!(r.help, "span runs past the end of the source".to_string());
        }
        other => panic!("expected a reading diagnostic, got {:?}", other),
    }
}

#[test]
fn span_cutting_a_multibyte_character_is_an_encoding_error() {
    // "λx" holds a two-byte character followed by an ASCII one
    let text = "\u{3bb}x";
    let root = nd(
        "source",
        0,
        3,
        vec![ch(expr_of(0, 3, nd("identifier", 0, 1, vec![])))],
    );
    let err = parse(&root, text).expect_err("half a character must fail");
    match err {
        ParseError::Encoding { loc } => {
            assert_eq!(
                loc,
                Span {
                    offset: 0,
                    length: 1
                }
            );
        }
        other => panic!("expected an encoding diagnostic, got {:?}", other),
    }
}

#[test]
fn multibyte_identifier_is_recovered_byte_for_byte() {
    let text = "\u{3bb}x";
    let root = nd(
        "source",
        0,
        3,
        vec![ch(expr_of(0, 3, nd("identifier", 0, 3, vec![])))],
    );
    let src = parse(&root, text).expect("a multibyte identifier must parse");
    match &src.statements[0] {
        Statement::Expr(Expression::Ref(v)) => {
            assert_eq!(v.ident, Identifier("\u{3bb}x".to_string()));
            assert_eq!(v.ident.0.as_str(), &text[0..3]);
        }
        other => panic!("expected a variable, got {:?}", other),
    }
}

#[test]
fn comment_children_are_skipped() {
    let text = "; hi\nfoo";
    let root = nd(
        "source",
        0,
        8,
        vec![
            ch(nd("comment", 0, 4, vec![])),
            ch(expr_of(5, 8, nd("identifier", 5, 8, vec![]))),
        ],
    );
    let src = parse(&root, text).expect("a commented source must parse");
    assert_eq!(src.statements.len(), 1);
    match &src.statements[0] {
        Statement::Expr(Expression::Ref(v)) => {
            assert_eq!(v.ident, Identifier("foo".to_string()));
        }
        other => panic!("expected a variable, got {:?}", other),
    }
}

#[test]
fn parsing_twice_gives_equal_trees() {
    let text = "claim f Nat";
    let root = nd(
        "source",
        0,
        11,
        vec![ch(nd(
            "claim",
            0,
            11,
            vec![
                chf("identifier", nd("identifier", 6, 7, vec![])),
                chf("type", expr_of(8, 11, nd("type_identifier", 8, 11, vec![]))),
            ],
        ))],
    );
    let first = parse(&root, text).expect("claim must parse");
    let second = parse(&root, text).expect("claim must parse again");
    assert_eq!(first, second);
}

#[test]
fn first_error_wins_over_later_statements() {
    // the failing first statement aborts the parse even though the second is fine
    let root = nd(
        "source",
        0,
        8,
        vec![
            ch(nd("frob", 0, 3, vec![])),
            ch(expr_of(4, 7, nd("identifier", 4, 7, vec![]))),
        ],
    );
    let err = parse(&root, "bad foo").expect_err("the first statement must fail");
    assert!(matches!(err, ParseError::Mismatch(_)));
}

#[test]
fn read_recovers_the_exact_span() {
    let mut cursor = SourceCursor::new("hello world");
    let got = read(
        Span {
            offset: 6,
            length: 5,
        },
        &mut cursor,
    )
    .expect("the span lies inside the text");
    assert_eq!(got, "world".to_string());
}
