use vibra::ast::lower::lower_document_with_id;
use vibra::ast::scope::validate_lexical_scopes;
use vibra::ast::surface::{DocumentId, Expr, ExprField, ExprKind, Literal, Module, Origin, TopLevel, TypeExprKind};
use vibra::expand_json::module_json;
use vibra::frontend::compile_value::{infer_embed_format, load_typed_embed, MAX_EMBED_SOURCE_BYTES};
use vibra::frontend::compile_time::{embedded_files, expand_module_compile_time_data, InputFailure, InputFile, Inputs};
use vibra::frontend::model::{EmbedFormat, FloatText, TemplateFailure};
use vibra::frontend::modules::{
    add_alias, check_module_path, check_package_file, import_request, module_part_paths, package_file_path,
    add_module, modules_in_order, validate_direct_import_aliases, validate_unique_symbols, Candidate, ImportRequest, LoadStep, Loader, SourceModule,
    SourcePart,
};
use vibra::frontend::template::load_typed_template;
use vibra::syntax::{Atom, Node, NodeKind, Span, SyntaxDocument};

/// Reads S-expressions with the byte spans of their nodes.
fn parse(source: &str) -> SyntaxDocument {
    let bytes = source.as_bytes();
    let mut stack: Vec<(usize, Vec<Node>)> = vec![(0, Vec::new())];
    let mut at = 0;
    while at < bytes.len() {
        let start = at;
        match bytes[at] {
            b'(' => {
                stack.push((at, Vec::new()));
                at += 1;
            }
            b')' => {
                at += 1;
                let (open, nodes) = stack.pop().unwrap();
                let node = Node { kind: NodeKind::List(nodes), span: Span::new(open, at) };
                stack.last_mut().unwrap().1.push(node);
            }
            b';' => {
                while at < bytes.len() && bytes[at] != b'\n' {
                    at += 1;
                }
                let kind = NodeKind::Comment(source[start + 1..at].to_string());
                stack.last_mut().unwrap().1.push(Node { kind, span: Span::new(start, at) });
            }
            b'"' => {
                at += 1;
                while bytes[at] != b'"' {
                    at += 1;
                }
                at += 1;
                let kind = NodeKind::Atom(Atom::String(source[start + 1..at - 1].to_string()));
                stack.last_mut().unwrap().1.push(Node { kind, span: Span::new(start, at) });
            }
            byte if byte.is_ascii_whitespace() => at += 1,
            _ => {
                while at < bytes.len() && !matches!(bytes[at], b'(' | b')' | b';' | b'"') && !bytes[at].is_ascii_whitespace() {
                    at += 1;
                }
                let text = &source[start..at];
                let atom = if let Some(label) = text.strip_suffix(':') {
                    Atom::Label(label.to_string())
                } else if let Ok(value) = text.parse::<i64>() {
                    Atom::Int(value)
                } else {
                    match text {
                        "true" => Atom::Bool(true),
                        "false" => Atom::Bool(false),
                        "unit" => Atom::Unit,
                        _ => Atom::Symbol(text.to_string()),
                    }
                };
                stack.last_mut().unwrap().1.push(Node { kind: NodeKind::Atom(atom), span: Span::new(start, at) });
            }
        }
    }
    let (_, nodes) = stack.pop().unwrap();
    SyntaxDocument { nodes, span: Span::new(0, source.len()) }
}

fn module(source: &str, path: &str) -> Module {
    lower_document_with_id(&parse(source), DocumentId::from_path(path)).unwrap()
}

fn part(path: &str, source: &str) -> SourcePart {
    SourcePart {
        path: path.to_string(),
        source: source.to_string(),
        document: parse(source),
        module: module(source, path),
    }
}

fn text(value: &str) -> String {
    value.to_string()
}

fn texts(values: &[&str]) -> Vec<String> {
    values.iter().map(|value| value.to_string()).collect()
}

fn candidates(paths: &[&str]) -> Vec<Candidate> {
    paths.iter().map(|path| Candidate { path: text(path), resolved: text(path) }).collect()
}

fn origin() -> Origin {
    Origin::Source(Span::new(3, 9))
}

fn embed(path: &str, bytes: &[u8]) -> Result<(Expr, String), String> {
    load_typed_embed(path, EmbedFormat::Auto, &bytes.to_vec(), Span::new(3, 9), &origin())
}

fn bindings(source: &str) -> Vec<ExprField> {
    let mut module = module(&format!("(const data dynamic {source})"), "data.vibra");
    let TopLevel::Constant(constant) = module.forms.remove(0) else {
        panic!("expected constant");
    };
    let ExprKind::Record(fields) = constant.value.value else {
        panic!("expected record");
    };
    fields
}

fn template(source: &str, data: &str) -> Result<(Expr, String), TemplateFailure> {
    load_typed_template(&source.as_bytes().to_vec(), &bindings(data), &vec![], Span::new(3, 9), &origin())
}

fn rendered(source: &str, data: &str) -> String {
    match template(source, data).unwrap().0.value {
        ExprKind::Literal(Literal::String(value)) => value,
        _ => panic!("expected text"),
    }
}

fn template_error(source: &str, data: &str) -> String {
    match template(source, data).unwrap_err() {
        TemplateFailure::Message(message) => message,
        TemplateFailure::NeedsFloatText(_) => panic!("expected message"),
    }
}

#[test]
fn preserves_visible_top_level_names_as_object_keys() {
    let module = module("(const answer int64 42)\n", "m.vibra");
    assert_eq!(module_json(&module), [(text("answer"), text("constant"))]);
}

#[test]
fn names_are_listed_once_in_order() {
    let module = module("(fn b () void (do unit))\n(const a int64 1)\n(import b \"x\")\n", "m.vibra");
    assert_eq!(module_json(&module), [(text("a"), text("constant")), (text("b"), text("import"))]);
}

#[test]
fn shadowing_is_rejected() {
    let ok = module("(fn f ((x int64)) int64 (do (if true (do (let y x)) (do (let y 1))) x))", "m.vibra");
    assert!(validate_lexical_scopes(&ok).is_ok());
    let shadowed = module("(fn f ((x int64)) int64 (do (let x 1) x))", "m.vibra");
    let error = validate_lexical_scopes(&shadowed).unwrap_err();
    assert_eq!(error.code, "E-SCOPE-001");
    assert_eq!(error.message, "binding `x` shadows an enclosing lexical binding; choose a different name");
    assert_eq!(error.related.len(), 1);
    assert_eq!(error.related[0].1.span, Span::new(8, 9));
    assert!(error.to_text().starts_with("E-SCOPE-001 at bytes "));
    let discard = module("(fn f ((_ int64)) int64 (do (let _ 1) unit))", "m.vibra");
    assert!(validate_lexical_scopes(&discard).is_ok());
}

#[test]
fn loads_import_graph_and_merges_selected_parts_deterministically() {
    let main = "(import helper \"helper.vibra\")\n(fn main () void (do (helper.run)))\n";
    let paths = module_part_paths(
        "/p/main.vibra",
        &candidates(&["/p/main.vibra", "/p/main.unix.vibra", "/p/main.test.vibra", "/p/helper.vibra"]),
        &texts(&["test"]),
        &texts(&["test", "unix"]),
    )
    .unwrap();
    assert_eq!(paths, ["/p/main.test.vibra", "/p/main.vibra"]);
    let entry = SourceModule {
        path: text("/p/main.vibra"),
        parts: vec![
            part("/p/main.test.vibra", "(test main-runs core (do unit))\n"),
            part("/p/main.vibra", main),
        ],
    };
    assert_eq!(entry.forms().len(), 3);
    assert_ne!(entry.parts[0].module.document_id, entry.parts[1].module.document_id);
    for part in &entry.parts {
        assert_eq!(part.module.document_id, DocumentId::from_path(&part.path));
    }
    let mut loader = Loader::new(texts(&["/p/main.vibra"]));
    let LoadStep::Read(path) = loader.step() else {
        panic!("expected a module to read");
    };
    assert_eq!(path, "/p/main.vibra");
    loader.provide(path, &texts(&["/p/helper.vibra"]));
    let LoadStep::Read(path) = loader.step() else {
        panic!("expected a module to read");
    };
    assert_eq!(path, "/p/helper.vibra");
    loader.provide(path, &vec![]);
    assert!(matches!(loader.step(), LoadStep::Finished));
    assert_eq!(loader.loaded, ["/p/helper.vibra", "/p/main.vibra"]);
}

#[test]
fn duplicate_symbols_across_parts_are_rejected() {
    let module = SourceModule {
        path: text("main.vibra"),
        parts: vec![part("main.test.vibra", "(const answer int64 2)\n"), part("main.vibra", "(const answer int64 1)\n")],
    };
    let error = validate_unique_symbols(&vec![module]).unwrap_err();
    assert!(error.contains("E-MOD-002"), "{error}");
    assert!(error.contains("answer"), "{error}");
}

#[test]
fn cycles_have_a_stable_error() {
    let mut loader = Loader::new(texts(&["a.vibra"]));
    let LoadStep::Read(first) = loader.step() else {
        panic!("expected a module to read");
    };
    loader.provide(first, &texts(&["b.vibra"]));
    let LoadStep::Read(second) = loader.step() else {
        panic!("expected a module to read");
    };
    loader.provide(second, &texts(&["a.vibra"]));
    let LoadStep::Cycle(error) = loader.step() else {
        panic!("expected a cycle");
    };
    assert!(error.contains("E-MOD-003"), "{error}");
}

#[test]
fn expands_typed_compile_time_data_with_origins_and_fingerprints() {
    let (value, first) = embed("message.txt", b"hello").unwrap();
    assert!(matches!(value.value, ExprKind::Literal(Literal::String(ref value)) if value == "hello"));
    assert_eq!(value.origin, origin());
    assert!(matches!(embed("data.json", br#"{"ok":true,"count":2}"#).unwrap().0.value, ExprKind::Record(_)));
    assert!(matches!(embed("config.toml", b"enabled = true").unwrap().0.value, ExprKind::Record(_)));
    assert!(matches!(
        embed("document.xml", b"<root><name>Vibra</name></root>").unwrap().0.value,
        ExprKind::Record(_)
    ));
    let (bytes, _) = embed("payload.bin", &[0, 127, 255]).unwrap();
    assert!(matches!(
        bytes.value,
        ExprKind::Array(ref values)
            if matches!(
                values[2].value,
                ExprKind::Convert { ref value, ref into, ref fallback }
                    if matches!(value.value, ExprKind::Literal(Literal::Int(255)))
                        && matches!(into.value, TypeExprKind::Named(ref name) if name == "uint8")
                        && matches!(fallback, Literal::Int(0))
            )
    ));
    assert_eq!(
        rendered("Hello {{name}}:{{#items}} {{.}}{{/items}}", "(record (name \"Vibra\") (items (array 1 2)))"),
        "Hello Vibra: 1 2"
    );
    let (_, changed) = embed("message.txt", b"changed").unwrap();
    assert_ne!(first, changed);
    assert_eq!(first, "2cf24dba5fb0a30e26e83b2ac5b9e29e1b161e5c1fa7425e73043362938b9824");
}

#[test]
fn typed_compile_time_data_preserves_package_sandbox() {
    let error = package_file_path("../secret.txt", "/root/package/main.vibra", "E-EMBED-002", "embedded").unwrap_err();
    assert!(error.contains("E-EMBED-002"), "{error}");
    assert_eq!(
        package_file_path("a/b.txt", "/root/package/main.vibra", "E-EMBED-002", "embedded"),
        Ok(text("/root/package/a/b.txt"))
    );
    assert!(check_package_file("/root/package/a", "/root/package", true, "E-EMBED-002", "embedded").is_ok());
    assert_eq!(
        check_package_file("/root/packages/a", "/root/package", true, "E-EMBED-002", "embedded"),
        Err(text("E-EMBED-002: embedded file `/root/packages/a` escapes package root /root/package"))
    );
    assert!(check_package_file("/root/package/a", "/root/package", false, "E-EMBED-002", "embedded").is_err());
}

#[test]
fn typed_compile_time_data_rejects_unsupported_inputs_explicitly() {
    let error = embed("data.unknown", b"value").unwrap_err();
    assert!(error.contains("E-EMBED-001"), "{error}");
    let error = template_error("{{name}}", "(record (name runtime-value))");
    assert!(error.contains("E-TEMPLATE-005"), "{error}");
}

#[test]
fn typed_json_integers_preserve_signed_boundaries_without_float_coercion() {
    let (value, _) = embed("data.json", b"[-9223372036854775808,9223372036854775807]").unwrap();
    let ExprKind::Array(values) = value.value else {
        panic!("expected array");
    };
    assert!(matches!(values[0].value, ExprKind::Literal(Literal::Int(i64::MIN))));
    assert!(matches!(values[1].value, ExprKind::Literal(Literal::Int(i64::MAX))));
    for source in ["9223372036854775808", "18446744073709551615", "-9223372036854775809"] {
        let error = embed("data.json", source.as_bytes()).unwrap_err();
        assert!(
            error.contains("E-EMBED-005: structured integer is outside signed 64-bit range"),
            "{source}: {error}"
        );
    }
}

#[test]
fn typed_compile_time_inputs_are_bounded_before_expansion() {
    let oversized = vec![b'x'; MAX_EMBED_SOURCE_BYTES + 1];
    let error = embed("large.txt", &oversized).unwrap_err();
    assert!(error.contains("E-EMBED-006"), "{error}");
    let failure = load_typed_template(&oversized, &vec![], &vec![], Span::new(0, 1), &origin()).unwrap_err();
    let TemplateFailure::Message(error) = failure else {
        panic!("expected message");
    };
    assert!(error.contains("E-TEMPLATE-006"), "{error}");
}

#[test]
fn template_rendering_normalizes_crlf_but_fingerprints_raw_bytes() {
    let crlf = template("Hello\r\n{{name}}\r\n", "(record (name \"Vibra\"))").unwrap();
    let lf = template("Hello\n{{name}}\n", "(record (name \"Vibra\"))").unwrap();
    assert!(matches!(crlf.0.value, ExprKind::Literal(Literal::String(ref value)) if value == "Hello\nVibra\n"));
    assert_eq!(crlf.0.value, lf.0.value);
    assert_ne!(crlf.1, lf.1);
}

#[test]
fn entry_discovery_selects_test_parts_without_import_loading() {
    let paths = module_part_paths(
        "main.vibra",
        &candidates(&["main.vibra", "main.test.vibra"]),
        &texts(&["test"]),
        &texts(&["test"]),
    )
    .unwrap();
    let module = SourceModule {
        path: text("main.vibra"),
        parts: vec![
            part(&paths[0], "(test selected core (do unit))\n"),
            part(&paths[1], "(import missing \"missing.vibra\")\n"),
        ],
    };
    assert_eq!(module.parts.len(), 2);
    assert!(module.forms().iter().any(|form| matches!(form, TopLevel::Test(_))));
}

#[test]
fn rejects_transitive_import_alias_references() {
    let main = "(import middle \"middle.vibra\")\n(fn main () void (do (leaf.run)))\n";
    let middle = "(import leaf \"leaf.vibra\")\n(fn run () void (do (leaf.run)))\n";
    let leaf = "(fn run () void (do unit))\n";
    let modules: Vec<SourceModule> = [("leaf.vibra", leaf), ("main.vibra", main), ("middle.vibra", middle)]
        .iter()
        .map(|(path, source)| SourceModule { path: text(path), parts: vec![part(path, source)] })
        .collect();
    let error = validate_direct_import_aliases(&modules).unwrap_err();
    assert!(error.contains("E-MOD-004"), "{error}");
    assert!(error.contains("leaf"), "{error}");
}

#[test]
fn formats_follow_extensions() {
    assert_eq!(infer_embed_format(EmbedFormat::Auto, "a.TXT"), Ok(EmbedFormat::Text));
    assert_eq!(infer_embed_format(EmbedFormat::Auto, "a.bin"), Ok(EmbedFormat::Binary));
    assert_eq!(infer_embed_format(EmbedFormat::Xml, "a.bin"), Ok(EmbedFormat::Xml));
    assert!(infer_embed_format(EmbedFormat::Auto, "a").is_err());
    assert_eq!(embed("a.json", b"{").unwrap_err(), "E-EMBED-004: parse embedded JSON");
    assert_eq!(embed("a.toml", b"=").unwrap_err(), "E-EMBED-004: parse embedded TOML");
    assert_eq!(embed("a.xml", b"<a>").unwrap_err(), "E-EMBED-004: parse embedded XML");
    assert_eq!(embed("a.txt", &[0xff]).unwrap_err(), "E-EMBED-004: text embed is not valid UTF-8");
    assert_eq!(embed("a.toml", &[0xff]).unwrap_err(), "E-EMBED-004: TOML embed is not valid UTF-8");
    assert_eq!(embed("a.xml", &[0xff]).unwrap_err(), "E-EMBED-004: XML embed is not valid UTF-8");
}

#[test]
fn structured_floats_keep_their_bits() {
    let (value, _) = embed("a.json", b"1.5e0").unwrap();
    assert!(matches!(value.value, ExprKind::Literal(Literal::Float(bits)) if bits == 1.5_f64.to_bits()));
    assert_eq!(
        embed("a.json", b"1e999").unwrap_err(),
        "E-EMBED-005: structured float is outside Vibra numeric range"
    );
    let (value, _) = embed("a.toml", b"x = 2.5\ny = 1979-05-27\n").unwrap();
    let ExprKind::Record(fields) = value.value else {
        panic!("expected record");
    };
    assert_eq!(fields[0].name.value, "x");
    assert!(matches!(fields[0].value.value, ExprKind::Literal(Literal::Float(bits)) if bits == 2.5_f64.to_bits()));
    assert!(matches!(fields[1].value.value, ExprKind::Literal(Literal::String(ref date)) if date == "1979-05-27"));
}

#[test]
fn templates_render_sections_and_names() {
    let data = "(record (a (record (b \"x\"))) (none (array)) (yes true) (list (array (record (n 1)) (record (n 2)))))";
    assert_eq!(rendered("{{a.b}}{{{a.b}}}{{& a.b }}", data), "xxx");
    assert_eq!(rendered("{{^none}}empty{{/none}}{{#none}}full{{/none}}", data), "empty");
    assert_eq!(rendered("{{#list}}{{n}}{{yes}};{{/list}}", data), "1true;2true;");
    assert_eq!(rendered("{{! note }}{{#a}}{{b}}{{/a}}", data), "x");
    assert_eq!(rendered("plain }} text", data), "plain }} text");
    for (source, message) in [
        ("{{", "E-TEMPLATE-004: unclosed template tag"),
        ("{{{a", "E-TEMPLATE-004: unclosed triple-brace variable"),
        ("{{#a}}", "E-TEMPLATE-004: unclosed section `a`"),
        ("{{/a}}", "E-TEMPLATE-004: unexpected closing section `a`"),
        ("{{a b}}", "E-TEMPLATE-004: invalid variable name `a b`"),
        ("{{missing}}", "E-TEMPLATE-005: unknown template value `missing`"),
        ("{{#missing}}{{/missing}}", "E-TEMPLATE-005: unknown template section `missing`"),
        ("{{a}}", "E-TEMPLATE-005: template value `a` must be a scalar"),
    ] {
        assert_eq!(template_error(source, data), message);
    }
    let deep: String = "{{#yes}}".repeat(65);
    assert_eq!(template_error(&deep, data), "E-TEMPLATE-006: template section nesting exceeds 64");
}

#[test]
fn float_texts_come_from_the_table() {
    let mut fields = bindings("(record (x 1))");
    fields[0].value.value = ExprKind::Literal(Literal::Float(2.5_f64.to_bits()));
    let source = b"{{x}}".to_vec();
    let failure = load_typed_template(&source, &fields, &vec![], Span::new(0, 1), &origin()).unwrap_err();
    assert!(matches!(failure, TemplateFailure::NeedsFloatText(bits) if bits == 2.5_f64.to_bits()));
    let floats = vec![FloatText { bits: 2.5_f64.to_bits(), text: text("2.5") }];
    let (expr, _) = load_typed_template(&source, &fields, &floats, Span::new(0, 1), &origin()).unwrap();
    assert!(matches!(expr.value, ExprKind::Literal(Literal::String(ref value)) if value == "2.5"));
}

#[test]
fn module_files_are_checked() {
    assert!(check_module_path("/p/main.vibra").is_ok());
    assert_eq!(
        check_module_path("/p/main.vibra.yaml"),
        Err(text("E-SYN-012: `.vibra.yaml` is not supported by the S-expression frontend"))
    );
    assert_eq!(
        check_module_path("/p/main.txt"),
        Err(text("E-SYN-012: S-expression source must use the `.vibra` extension: /p/main.txt"))
    );
    assert_eq!(check_module_path("/"), Err(text("/ has no UTF-8 file name")));
    assert_eq!(
        module_part_paths("main.vibra", &candidates(&["main.Bad.vibra"]), &vec![], &texts(&["test"])),
        Err(text("E-FLAG-002: malformed conditional source suffix in `main.Bad.vibra`"))
    );
    assert!(matches!(
        import_request("/p/main.vibra", "x.vibra", false),
        Ok(ImportRequest::File(path)) if path == "/p/x.vibra"
    ));
    assert!(matches!(
        import_request("/p/main.vibra", "@std/x.vibra", true),
        Ok(ImportRequest::Project(path)) if path == "@std/x.vibra"
    ));
    assert!(import_request("/p/main.vibra", "@std/x.vibra", false).is_err());
}

#[test]
fn compile_time_forms_are_filled_from_inputs() {
    let module = module(
        "(const message str (embed \"message.txt\"))\n\
         (fn f () str (do (if true (do (template \"t.mustache\" (record (name \"Vibra\")))) (do unit))))\n",
        "m.vibra",
    );
    let mut inputs = Inputs { files: vec![], floats: vec![] };
    let missing = expand_module_compile_time_data(&module, &inputs).unwrap_err();
    assert!(matches!(missing, InputFailure::NeedsFile { ref path, template: false } if path == "message.txt"));
    inputs.files.push(InputFile { requested: text("message.txt"), path: text("/p/message.txt"), bytes: b"hello".to_vec() });
    let missing = expand_module_compile_time_data(&module, &inputs).unwrap_err();
    assert!(matches!(missing, InputFailure::NeedsFile { ref path, template: true } if path == "t.mustache"));
    inputs.files.push(InputFile { requested: text("t.mustache"), path: text("/p/t"), bytes: b"Hi {{name}}".to_vec() });
    let filled = expand_module_compile_time_data(&module, &inputs).unwrap();
    let TopLevel::Constant(constant) = &filled.forms[0] else {
        panic!("expected constant");
    };
    assert!(matches!(constant.value.value, ExprKind::Literal(Literal::String(ref value)) if value == "hello"));
    let TopLevel::Function(function) = &filled.forms[1] else {
        panic!("expected function");
    };
    let ExprKind::If { then_body, .. } = &function.body[0].value else {
        panic!("expected if");
    };
    assert!(matches!(then_body[0].value, ExprKind::Literal(Literal::String(ref value)) if value == "Hi Vibra"));
    assert_eq!(embedded_files(&inputs).len(), 2);
    assert_eq!(embedded_files(&inputs)[0].0, "/p/message.txt");
    inputs.files[0].path = text("/p/message.unknown");
    let refused = expand_module_compile_time_data(&module, &inputs).unwrap_err();
    assert!(matches!(refused, InputFailure::Message(ref message) if message.contains("E-EMBED-001")));
}

#[test]
fn later_imports_take_the_place_of_earlier_ones() {
    let mut aliases = vec![];
    add_alias(&mut aliases, text("b"), text("1"));
    add_alias(&mut aliases, text("a"), text("2"));
    add_alias(&mut aliases, text("b"), text("3"));
    assert_eq!(aliases, [(text("a"), text("2")), (text("b"), text("3"))]);
}

#[test]
fn modules_are_kept_in_path_order() {
    let source = |path: &str| SourceModule { path: text(path), parts: vec![] };
    let mut modules = vec![];
    for path in ["b.vibra", "a/c.vibra", "a.vibra", "b.vibra"] {
        add_module(&mut modules, source(path));
    }
    assert!(modules_in_order(&modules));
    assert!(!modules_in_order(&vec![source("b.vibra"), source("a.vibra")]));
    let paths: Vec<&str> = modules.iter().map(|module| module.path.as_str()).collect();
    assert_eq!(paths, ["a/c.vibra", "a.vibra", "b.vibra"]);
}

#[test]
fn structured_data_may_be_nested() {
    let deep = format!("{}{}", "[".repeat(100), "]".repeat(100));
    assert!(embed("a.json", deep.as_bytes()).is_ok());
    let tags: String = (0..60).map(|_| "<a>").collect();
    let ends: String = (0..60).map(|_| "</a>").collect();
    assert!(embed("a.xml", format!("<r>{tags}x{ends}</r>").as_bytes()).is_ok());
    assert!(embed("a.toml", b"a = [[1, 2], [{ b = true, c = \"x\" }]]\n").is_ok());
    let (expr, _) = embed("a.json", b"{\"b\": [1, null], \"a\": {\"c\": \"x\"}}").unwrap();
    let ExprKind::Record(fields) = &expr.value else {
        panic!("expected record");
    };
    assert_eq!(fields.iter().map(|field| field.name.value.as_str()).collect::<Vec<_>>(), ["a", "b"]);
}
