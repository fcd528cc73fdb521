use vibra::ast::lower::{lower_document, lower_document_with_id};
use vibra::ast::surface::{
    AstError, Constant, DocumentId, ExprKind, MacroExprKind, Module, Origin, PatternKind, SourceLocation, Spanned,
    SyntaxCategory, TestMeta, TopLevel, TypeExprKind, Visibility,
};
use vibra::syntax::{Atom, Node, NodeKind, Span, SyntaxDocument};

/// Reads S-expressions with the byte spans of their nodes.
fn parse(source: &str) -> SyntaxDocument {
    let bytes = source.as_bytes();
    let mut stack: Vec<(usize, Vec<Node>)> = vec![(0, Vec::new())];
    let mut at = 0;
    while at < bytes.len() {
        let start = at;
        match bytes[at] {
            b'(' => {
                stack.push((at, Vec::new()));
                at += 1;
            }
            b')' => {
                at += 1;
                let (open, nodes) = stack.pop().unwrap();
                let node = Node { kind: NodeKind::List(nodes), span: Span::new(open, at) };
                stack.last_mut().unwrap().1.push(node);
            }
            b';' => {
                while at < bytes.len() && bytes[at] != b'\n' {
                    at += 1;
                }
                let kind = NodeKind::Comment(source[start + 1..at].to_string());
                stack.last_mut().unwrap().1.push(Node { kind, span: Span::new(start, at) });
            }
            b'"' => {
                at += 1;
                while bytes[at] != b'"' {
                    at += 1;
                }
                at += 1;
                let kind = NodeKind::Atom(Atom::String(source[start + 1..at - 1].to_string()));
                stack.last_mut().unwrap().1.push(Node { kind, span: Span::new(start, at) });
            }
            byte if byte.is_ascii_whitespace() => at += 1,
            _ => {
                while at < bytes.len() && !matches!(bytes[at], b'(' | b')' | b';' | b'"') && !bytes[at].is_ascii_whitespace() {
                    at += 1;
                }
                let text = &source[start..at];
                let atom = if let Some(label) = text.strip_suffix(':') {
                    Atom::Label(label.to_string())
                } else if let Ok(value) = text.parse::<i64>() {
                    Atom::Int(value)
                } else {
                    match text {
                        "true" => Atom::Bool(true),
                        "false" => Atom::Bool(false),
                        "unit" => Atom::Unit,
                        _ => Atom::Symbol(text.to_string()),
                    }
                };
                stack.last_mut().unwrap().1.push(Node { kind: NodeKind::Atom(atom), span: Span::new(start, at) });
            }
        }
    }
    let (_, nodes) = stack.pop().unwrap();
    SyntaxDocument { nodes, span: Span::new(0, source.len()) }
}

fn module(source: &str) -> Result<Module, AstError> {
    lower_document(&parse(source))
}

#[test]
fn lowers_complete_module_surface_with_source_origins() {
    let source = r#"
(import io "./io.vibra")
(def option (enum (some t) (none void)) where: ((t)) doc: "Optional.")
(private (const limit int64 10))
(fn choose ((value bool) (fallback bool)) bool
  (do (if value (do (return value)) (do (return fallback)))))
(test works core (do (test.assert true)) tags: (fast language) clock: (fixed 0))
"#;
    let module = module(source).unwrap();
    assert_eq!(module.forms.len(), 5);
    assert!(matches!(
        module.forms[2],
        TopLevel::Constant(Constant {
            visibility: Visibility::Private,
            ..
        })
    ));
    let TopLevel::Function(function) = &module.forms[3] else {
        panic!("expected function");
    };
    assert_eq!(function.parameters.len(), 2);
    assert_eq!(function.span, function.origin.primary_span());
}

#[test]
fn lowers_expression_type_pattern_and_annotation_roles() {
    let source = r#"
(fn unwrap ((input (option int64))) int64
  (do
(let-as fallback int64 0)
(match input
  (case (option.some (bind value)) (do (return value)))
  (case (option.none) (do (return fallback)))))
  doc: "unwrap"
  where: ((t comparable))
  impls: ((impl display
types: (int64)
methods: ((method show display.show)))))
"#;
    let module = module(source).unwrap();
    let TopLevel::Function(function) = &module.forms[0] else {
        panic!("expected function");
    };
    assert_eq!(function.annotations.len(), 3);
    let ExprKind::Match { cases, .. } = &function.body[1].value else {
        panic!("expected match");
    };
    assert_eq!(cases.len(), 2);
    assert!(matches!(
        cases[0].pattern.value,
        PatternKind::Constructor { .. }
    ));
}

#[test]
fn validates_top_heads_arity_and_required_node_kinds_at_exact_spans() {
    let error = module("(wat x)").unwrap_err();
    assert_eq!(error.code, "E-SYN-007");
    assert_eq!(error.span, Span::new(1, 4));

    let error = module("(import io)").unwrap_err();
    assert_eq!(error.code, "E-SYN-009");
    assert_eq!(error.span, Span::new(0, 11));

    let error = module("(import \"io\" \"x\")").unwrap_err();
    assert_eq!(error.code, "E-SYN-010");
    assert_eq!(error.span, Span::new(8, 12));
}

#[test]
fn rejects_invalid_private_target_body_and_special_form_arity() {
    assert_eq!(
        module("(private (import io \"x\"))").unwrap_err().code,
        "E-SYN-008"
    );
    assert_eq!(
        module("(fn f () void (array))").unwrap_err().code,
        "E-SYN-008"
    );
    assert_eq!(
        module("(fn f () void (do (break 1)))").unwrap_err().code,
        "E-SYN-009"
    );
}

#[test]
fn ignores_reader_comments_in_all_grammar_positions() {
    let module =
        module("(fn ; head\n f (; params\n (x int64)) int64 (do ; body\n (return x)))")
            .unwrap();
    let TopLevel::Function(function) = &module.forms[0] else {
        panic!("expected function");
    };
    assert_eq!(function.parameters.len(), 1);
    assert_eq!(function.body.len(), 1);
}

#[test]
fn expansion_origins_retain_call_definition_and_parent_chain() {
    let source = Origin::Source(Span::new(20, 30));
    let expanded = Spanned::expanded(
        ExprKind::Break,
        Span::new(100, 107),
        Span::new(4, 10),
        Span::new(20, 30),
        source,
    );
    assert_eq!(expanded.origin.primary_span(), Span::new(4, 10));
    assert_eq!(expanded.span, Span::new(100, 107));
}

#[test]
fn generic_types_use_direct_head_application_only() {
    let parsed = module("(const value (option int64) unit)").unwrap();
    let TopLevel::Constant(constant) = &parsed.forms[0] else {
        panic!("expected constant");
    };
    assert!(matches!(
        constant.ty.value,
        TypeExprKind::Application { ref constructor, ref arguments }
            if constructor.value == "option" && arguments.len() == 1
    ));

    let error = module("(const value (inst option int64) unit)").unwrap_err();
    assert_eq!(error.code, "E-SYN-008");
    let error = module("(const value (option) unit)").unwrap_err();
    assert_eq!(error.code, "E-SYN-009");
}

#[test]
fn lowers_typed_macros_and_retains_quoted_cst() {
    let source = r#"
(private
  (macro unless ((condition expr-syntax) (body expr-syntax)) expr-syntax
(do
  (let fallback (quote expr-syntax unit))
  (if condition
    (do (quote expr-syntax (if (unquote condition) (do unit) (do (splice body)))))
    (do (capture caller))))
doc: "Conditional syntax."))
"#;
    let parsed = module(source).unwrap();
    let TopLevel::Macro(definition) = &parsed.forms[0] else {
        panic!("expected macro");
    };
    assert_eq!(definition.visibility, Visibility::Private);
    assert_eq!(definition.parameters.len(), 2);
    assert_eq!(definition.result.value, SyntaxCategory::Expression);
    assert_eq!(definition.body.len(), 2);
    assert_eq!(definition.span, Span::new(1, source.trim_end().len()));
    let MacroExprKind::Let { value, .. } = &definition.body[0].value else {
        panic!("expected macro let");
    };
    let MacroExprKind::Quote { category, form } = &value.value else {
        panic!("expected quote");
    };
    assert_eq!(category.value, SyntaxCategory::Expression);
    assert!(matches!(form.kind, NodeKind::Atom(Atom::Unit)));
}

#[test]
fn validates_macro_categories_body_and_operator_arity() {
    let error = module("(macro m ((x value-syntax)) expr-syntax (do x))").unwrap_err();
    assert_eq!(error.code, "E-SYN-008");

    let error = module("(macro m () expr-syntax (do))").unwrap_err();
    assert_eq!(error.code, "E-SYN-009");

    let error = module("(macro m () expr-syntax (do (quote expr-syntax a b)))").unwrap_err();
    assert_eq!(error.code, "E-SYN-009");

    let error = module("(macro m () expr-syntax (do (unquote)))").unwrap_err();
    assert_eq!(error.code, "E-SYN-009");

    let error = module("(private (test no core (do)))").unwrap_err();
    assert_eq!(error.code, "E-SYN-008");
}

#[test]
fn identical_list_has_contextual_type_expression_and_pattern_meaning() {
    let parsed = module(
        "(const typed (option int64) (option int64))\n\
         (fn inspect ((x int64)) bool\n\
           (do (match x (case (option int64) (do true)))))",
    )
    .unwrap();
    let TopLevel::Constant(constant) = &parsed.forms[0] else {
        panic!("expected constant");
    };
    assert!(matches!(
        constant.ty.value,
        TypeExprKind::Application { .. }
    ));
    assert!(matches!(constant.value.value, ExprKind::Call { .. }));
    let TopLevel::Function(function) = &parsed.forms[1] else {
        panic!("expected function");
    };
    let ExprKind::Match { cases, .. } = &function.body[0].value else {
        panic!("expected match");
    };
    assert!(matches!(
        cases[0].pattern.value,
        PatternKind::Constructor { .. }
    ));
}

#[test]
fn validates_trailing_attributes_and_keeps_calls_positional() {
    for source in [
        "(fn f () doc: \"early\" void (do))",
        "(fn f () void (do) doc:)",
        "(fn f () void (do) doc: \"a\" doc: \"b\")",
        "(fn f () void (do) unknown: unit)",
        "(test t core (do) tags: (fast) tags: (slow))",
        "(fn f () void (do (call value: 1)))",
    ] {
        let error = module(source).unwrap_err();
        assert_eq!(error.code, "E-SYN-011", "source: {source}");
    }
}

#[test]
fn lowers_all_test_attribute_roles() {
    let parsed = module(
        "(test measured core (do)\n\
         tags: (fast arithmetic)\n\
         expect-error: (compile E-OP-002 \"overflow\")\n\
         clock: (fixed 0)\n\
         benchmark: (iterations 100)\n\
         workspace: temp)",
    )
    .unwrap();
    let TopLevel::Test(test) = &parsed.forms[0] else {
        panic!("expected test");
    };
    assert_eq!(test.metadata.len(), 5);
    assert!(matches!(test.metadata[3], TestMeta::Benchmark(_)));
    assert!(matches!(test.metadata[4], TestMeta::Workspace(_)));
}

#[test]
fn document_and_ast_ids_are_stable_per_snapshot_and_document_qualified() {
    let syntax = parse("(fn main () void (do (return)))");
    let document_a = DocumentId::from_raw(41);
    let document_b = DocumentId::from_raw(42);

    let first = lower_document_with_id(&syntax, document_a).unwrap();
    let second = lower_document_with_id(&syntax, document_a).unwrap();
    let other_document = lower_document_with_id(&syntax, document_b).unwrap();

    let TopLevel::Function(first_fn) = &first.forms[0] else {
        panic!("expected function");
    };
    let TopLevel::Function(second_fn) = &second.forms[0] else {
        panic!("expected function");
    };
    let TopLevel::Function(other_fn) = &other_document.forms[0] else {
        panic!("expected function");
    };

    assert_eq!(first.document_id, document_a);
    assert_eq!(first_fn.origin.document_id(), Some(document_a));
    assert_eq!(other_fn.origin.document_id(), Some(document_b));
    assert_eq!(first_fn.origin.ast_id(), second_fn.origin.ast_id());
    assert_eq!(first_fn.origin.ast_id(), other_fn.origin.ast_id());
    assert_eq!(
        first_fn.body[0].ast_id(),
        second_fn.body[0].ast_id(),
        "the same snapshot assigns the same node identity"
    );
    assert_ne!(
        first_fn.origin.ast_id(),
        first_fn.body[0].ast_id(),
        "distinct source nodes have distinct identities"
    );
}

#[test]
fn document_expansion_retains_both_document_locations() {
    let call_site = SourceLocation {
        document: DocumentId::from_raw(1),
        span: Span::new(10, 20),
    };
    let definition = SourceLocation {
        document: DocumentId::from_raw(2),
        span: Span::new(30, 40),
    };
    let expanded = Spanned::expanded_in(
        ExprKind::Break,
        Span::new(100, 107),
        call_site,
        definition,
        Origin::Source(definition.span),
    );
    let Origin::DocumentExpansion {
        call_site: actual_call,
        definition: actual_definition,
        ..
    } = &expanded.origin
    else {
        panic!("expected document-qualified expansion");
    };
    assert_eq!(*actual_call, call_site);
    assert_eq!(*actual_definition, definition);
    assert_eq!(expanded.origin.document_id(), Some(call_site.document));
    assert!(expanded.ast_id().is_some());
}

#[test]
fn documents_differ_in_their_identity_alone() {
    let sources = [
        "(import io \"io.vibra\")\n(private (def size (record (a int64))))\n",
        "(fn main ((x int64)) int64 (do (let y x) (return y)) doc: \"text\")\n",
        "(test one core (do unit) tags: (fast))\n(macro m ((v expr-syntax)) expr-syntax (do (unquote v)))\n",
    ];
    for source in sources {
        let syntax = parse(source);
        let first = lower_document_with_id(&syntax, DocumentId::from_raw(41)).unwrap();
        let second = lower_document_with_id(&syntax, DocumentId::from_raw(42)).unwrap();
        let shown = format!("{first:?}");
        assert_ne!(shown, format!("{second:?}"));
        assert_eq!(shown.replace("DocumentId(41)", "DocumentId(42)"), format!("{second:?}"));
    }
    let refused = parse("(fn main)");
    let first = lower_document_with_id(&refused, DocumentId::from_raw(41)).unwrap_err();
    let second = lower_document_with_id(&refused, DocumentId::from_raw(42)).unwrap_err();
    assert_eq!(format!("{first:?}"), format!("{second:?}"));
}
