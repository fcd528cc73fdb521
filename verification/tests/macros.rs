use std::collections::BTreeSet;
use vibra::ast::lower::lower_document_with_id;
use vibra::ast::surface::{DocumentId, ExprKind, Module, Origin, TopLevel, TypeExprKind};
use vibra::ast::typed_macro_expand::{expand_typed_macro_program, expand_typed_macros};
use vibra::syntax::{Atom, Node, NodeKind, Span, SyntaxDocument};

/// Reads S-expressions with the byte spans of their nodes.
fn parse(source: &str) -> SyntaxDocument {
    let bytes = source.as_bytes();
    let mut stack: Vec<(usize, Vec<Node>)> = vec![(0, Vec::new())];
    let mut at = 0;
    while at < bytes.len() {
        let start = at;
        match bytes[at] {
            b'(' => {
                stack.push((at, Vec::new()));
                at += 1;
            }
            b')' => {
                at += 1;
                let (open, nodes) = stack.pop().unwrap();
                let node = Node { kind: NodeKind::List(nodes), span: Span::new(open, at) };
                stack.last_mut().unwrap().1.push(node);
            }
            b';' => {
                while at < bytes.len() && bytes[at] != b'\n' {
                    at += 1;
                }
                let kind = NodeKind::Comment(source[start + 1..at].to_string());
                stack.last_mut().unwrap().1.push(Node { kind, span: Span::new(start, at) });
            }
            b'"' => {
                at += 1;
                while bytes[at] != b'"' {
                    at += 1;
                }
                at += 1;
                let kind = NodeKind::Atom(Atom::String(source[start + 1..at - 1].to_string()));
                stack.last_mut().unwrap().1.push(Node { kind, span: Span::new(start, at) });
            }
            byte if byte.is_ascii_whitespace() => at += 1,
            _ => {
                while at < bytes.len() && !matches!(bytes[at], b'(' | b')' | b';' | b'"') && !bytes[at].is_ascii_whitespace() {
                    at += 1;
                }
                let text = &source[start..at];
                let atom = if let Some(label) = text.strip_suffix(':') {
                    Atom::Label(label.to_string())
                } else if let Ok(value) = text.parse::<i64>() {
                    Atom::Int(value)
                } else {
                    match text {
                        "true" => Atom::Bool(true),
                        "false" => Atom::Bool(false),
                        "unit" => Atom::Unit,
                        _ => Atom::Symbol(text.to_string()),
                    }
                };
                stack.last_mut().unwrap().1.push(Node { kind: NodeKind::Atom(atom), span: Span::new(start, at) });
            }
        }
    }
    let (_, nodes) = stack.pop().unwrap();
    SyntaxDocument { nodes, span: Span::new(0, source.len()) }
}

fn module(source: &str, id: u64) -> Module {
    let document = parse(source);
    lower_document_with_id(&document, DocumentId::from_raw(id)).unwrap()
}

#[test]
fn expands_expression_macros_with_hygiene_and_document_origins() {
    let source = "
(macro twice ((value expr-syntax)) expr-syntax
  (do (quote expr-syntax
(do (let temporary (unquote value)) temporary))))
(fn main ((temporary int64)) int64 (do (twice temporary)))";
    let expanded = expand_typed_macros(module(source, 10)).unwrap();
    assert_eq!(expanded.forms.len(), 1);
    let TopLevel::Function(function) = &expanded.forms[0] else {
        panic!("expected function");
    };
    let ExprKind::Do(values) = &function.body[0].value else {
        panic!("expected quoted do");
    };
    let ExprKind::Let { name, value, .. } = &values[0].value else {
        panic!("expected hygienic let");
    };
    assert_eq!(name.value, "temporary--macro-1");
    assert!(matches!(
        value.value,
        ExprKind::Reference(ref name) if name == "temporary"
    ));
    let Origin::DocumentExpansion {
        call_site,
        definition,
        parent,
        ..
    } = &function.body[0].origin
    else {
        panic!("expected document-qualified expansion origin");
    };
    assert_eq!(call_site.document, DocumentId::from_raw(10));
    assert_eq!(definition.document, DocumentId::from_raw(10));
    assert_eq!(parent.document_id(), Some(DocumentId::from_raw(10)));
    let generated_ids = [
        function.body[0].origin.ast_id().unwrap(),
        values[0].origin.ast_id().unwrap(),
        values[1].origin.ast_id().unwrap(),
        name.origin.ast_id().unwrap(),
    ]
    .into_iter()
    .collect::<BTreeSet<_>>();
    assert_eq!(generated_ids.len(), 4);
    assert!(matches!(values[0].origin, Origin::DocumentExpansion { .. }));
    assert!(matches!(values[1].origin, Origin::DocumentExpansion { .. }));
}

#[test]
fn rejects_parameter_and_result_category_mismatches() {
    let source = "
(macro as-type ((value type-syntax)) type-syntax
  (do (unquote value)))
(fn main () int64 (do (as-type 1)))";
    let error = expand_typed_macros(module(source, 1)).unwrap_err();
    assert_eq!(error.code, "E-MACRO-002");
    assert!(!error.related.is_empty());
}

#[test]
fn expands_type_category_without_an_untyped_bridge() {
    let source = "
(macro optional ((value type-syntax)) type-syntax
  (do (quote type-syntax (option (unquote value)))))
(def maybe-int (optional int64))";
    let expanded = expand_typed_macros(module(source, 7)).unwrap();
    let TopLevel::Definition(definition) = &expanded.forms[0] else {
        panic!("expected definition");
    };
    let TypeExprKind::Application {
        constructor,
        arguments,
    } = &definition.body.value
    else {
        panic!("expected expanded type application");
    };
    assert_eq!(constructor.value, "option");
    assert!(matches!(
        arguments[0].value,
        TypeExprKind::Named(ref name) if name == "int64"
    ));
    assert!(matches!(
        definition.body.origin,
        Origin::DocumentExpansion { .. }
    ));
}

#[test]
fn expands_and_annotates_mutable_reference_types() {
    let source = "
(macro exclusive ((value type-syntax)) type-syntax
  (do (quote type-syntax (mut-ref (unquote value)))))
(def exclusive-int (exclusive int64))";
    let expanded = expand_typed_macros(module(source, 8)).unwrap();
    let TopLevel::Definition(definition) = &expanded.forms[0] else {
        panic!("expected definition");
    };
    let TypeExprKind::MutableReference(inner) = &definition.body.value else {
        panic!("expected expanded mutable reference");
    };
    assert!(matches!(
        inner.value,
        TypeExprKind::Named(ref name) if name == "int64"
    ));
    assert!(matches!(
        definition.body.origin,
        Origin::DocumentExpansion { .. }
    ));
    assert_eq!(inner.origin.document_id(), Some(DocumentId::from_raw(8)));
}

#[test]
fn rejects_splice_outside_a_quote_sequence() {
    let source = "
(macro invalid ((value expr-syntax)) expr-syntax
  (do (splice value)))
(fn main () int64 (do (invalid 1)))";
    let error = expand_typed_macros(module(source, 1)).unwrap_err();
    assert_eq!(error.code, "E-MACRO-007");
}

#[test]
fn hygiene_respects_lexical_branch_scope() {
    let source = "
(macro scoped () expr-syntax
  (do (quote expr-syntax
(do
  (if true (do (let branch-value 1) branch-value) (do unit))
  branch-value))))
(fn main () int64 (do (scoped)))";
    let expanded = expand_typed_macros(module(source, 9)).unwrap();
    let TopLevel::Function(function) = &expanded.forms[0] else {
        panic!("expected function");
    };
    let ExprKind::Do(values) = &function.body[0].value else {
        panic!("expected expanded do");
    };
    let ExprKind::If { then_body, .. } = &values[0].value else {
        panic!("expected if");
    };
    assert!(matches!(
        then_body[1].value,
        ExprKind::Reference(ref name) if name == "branch-value--macro-1"
    ));
    assert!(matches!(
        values[1].value,
        ExprKind::Reference(ref name) if name == "branch-value"
    ));
}

#[test]
fn unsupported_definition_and_module_categories_are_rejected_honestly() {
    for category in ["definition-syntax", "module-syntax"] {
        let source: String = format!(
            "(macro unsupported () {category} (do (quote {category} (const x int64 1))))"
        );
        let error = expand_typed_macros(module(&source, 4)).unwrap_err();
        assert_eq!(error.code, "E-MACRO-011");
    }
}

#[test]
fn expansion_depth_limit_retains_call_and_definition_locations() {
    let source = "
(macro recurse ((value expr-syntax)) expr-syntax
  (do (quote expr-syntax (recurse (unquote value)))))
(fn main () int64 (do (recurse 1)))";
    let error = expand_typed_macros(module(source, 22)).unwrap_err();
    assert_eq!(error.code, "E-MACRO-006");
    assert_eq!(error.document, Some(DocumentId::from_raw(22)));
    assert_eq!(error.related[0].1.document, DocumentId::from_raw(22));
}

#[test]
fn expands_local_cross_part_and_imported_macros_before_validation() {
    let main = module(
        "(import helpers \"helpers.vibra\")\n\
         (fn main ((caller int64)) int64\n\
           (do (local caller) (helpers.use-helper caller)))\n",
        1,
    );
    let part = module(
        "(macro local ((value expr-syntax)) expr-syntax\n\
           (do (quote expr-syntax (unquote value))))\n",
        2,
    );
    let helpers = module(
        "(fn helper ((value int64)) int64 (do value))\n\
         (macro use-helper ((value expr-syntax)) expr-syntax\n\
           (do (quote expr-syntax (helper (unquote value)))))\n",
        3,
    );
    let modules = vec![("helpers.vibra".to_string(), vec![helpers]), ("main.vibra".to_string(), vec![part, main])];
    let imports = vec![
        ("main.vibra".to_string(), vec![("helpers".to_string(), "helpers.vibra".to_string())]),
        ("helpers.vibra".to_string(), vec![]),
    ];
    let expanded = expand_typed_macro_program(modules, &imports).unwrap();
    let parts = &expanded.iter().find(|entry| entry.0 == "main.vibra").unwrap().1;
    let forms: Vec<&TopLevel> = parts.iter().flat_map(|part| part.forms.iter()).collect();
    assert!(forms.iter().all(|form| !matches!(form, TopLevel::Macro(_))));
    let TopLevel::Function(function) = forms.iter().find(|form| matches!(form, TopLevel::Function(_))).unwrap() else {
        unreachable!()
    };
    let ExprKind::Call { callee, .. } = &function.body[1].value else {
        panic!("expected imported macro expansion call");
    };
    assert_eq!(callee.value, "helpers.helper");
}

#[test]
fn imported_private_macros_are_rejected() {
    let main = module("(import helpers \"helpers.vibra\")\n(fn main () void (do (helpers.secret unit)))\n", 1);
    let helpers = module(
        "(private (macro secret ((value expr-syntax)) expr-syntax\n\
           (do (unquote value))))\n",
        2,
    );
    let modules = vec![("helpers.vibra".to_string(), vec![helpers]), ("main.vibra".to_string(), vec![main])];
    let imports = vec![("main.vibra".to_string(), vec![("helpers".to_string(), "helpers.vibra".to_string())])];
    let error = expand_typed_macro_program(modules, &imports).unwrap_err();
    assert_eq!(error.code, "E-MACRO-010");
}

#[test]
fn returned_values_are_expanded_and_renamed() {
    let source = "
(macro keep ((value expr-syntax)) expr-syntax
  (do (quote expr-syntax
    (do (let kept (unquote value)) (return kept)))))
(fn main ((x int64)) int64 (do (return (keep x))))";
    let expanded = expand_typed_macros(module(source, 12)).unwrap();
    let TopLevel::Function(function) = &expanded.forms[0] else {
        panic!("expected function");
    };
    let ExprKind::Return(Some(value)) = &function.body[0].value else {
        panic!("expected return");
    };
    let ExprKind::Do(values) = &value.value else {
        panic!("expected expanded do");
    };
    let ExprKind::Return(Some(kept)) = &values[1].value else {
        panic!("expected return");
    };
    assert!(matches!(kept.value, ExprKind::Reference(ref name) if name == "kept--macro-1"));
    assert!(matches!(kept.origin, Origin::DocumentExpansion { .. }));
}

#[test]
fn expanded_programs_keep_their_parts_and_expand_to_themselves() {
    let main = "(macro keep ((value expr-syntax)) expr-syntax (do (quote expr-syntax (unquote value))))\n\
                (fn main ((x int64)) int64 (do (return (keep x))))\n\
                (def size int64)\n";
    let build = || {
        vec![
            ("a.vibra".to_string(), vec![module("(fn other () void (do unit))\n", 1)]),
            ("b.vibra".to_string(), vec![module("(test part core (do unit))\n", 2), module(main, 3)]),
        ]
    };
    let before = build();
    let once = expand_typed_macro_program(build(), &vec![]).unwrap();
    assert_eq!(once.len(), 2);
    for (old, new) in before.iter().zip(&once) {
        assert_eq!(old.0, new.0);
        assert_eq!(old.1.len(), new.1.len());
        for (old, new) in old.1.iter().zip(&new.1) {
            assert_eq!(old.document_id, new.document_id);
            assert_eq!(old.span, new.span);
        }
    }
    assert_eq!(once[1].1[1].forms.len(), 2);
    assert!(matches!(once[1].1[1].forms[0], TopLevel::Function(_)));
    assert!(matches!(once[1].1[1].forms[1], TopLevel::Definition(_)));
    let shown = format!("{once:?}");
    let twice = expand_typed_macro_program(once, &vec![]).unwrap();
    assert_eq!(format!("{twice:?}"), shown);
    let plain = || vec![("a.vibra".to_string(), vec![module("(fn other () void (do unit))\n", 1)])];
    assert_eq!(format!("{:?}", expand_typed_macro_program(plain(), &vec![]).unwrap()), format!("{:?}", plain()));
}
