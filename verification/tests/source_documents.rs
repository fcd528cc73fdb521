use vibra::annotations::{lint_codes, strip, validate};
use vibra::code::cli::{build_report, check_unchanged, run_pipeline};
use vibra::code::model::{
    ChangeSet, CodeErrorKind, Form, NodeKind, Path, Pattern, PipelineOutcome, Query, Segment, SemanticIndex, SemanticKind,
    SourceDatabase,
};
use vibra::code::workspace_path::{entries_in_order, is_before, names_source, normalize_path, put_entry_at, skips_directory};
use vibra::code_doc;
use vibra::yaml::model::{YamlEntry, YamlValue};
use vibra::yaml::read::parse;
use vibra::yaml::render::render;

const MAIN: &str = "io:\n  $import: lib/io.vibra\nmain:\n  $function: $void\n  do:\n    - $io.println: hello\n    - $helper: world\nhelper:\n  $function: $void\n";
const LIBRARY: &str = "println:\n  $function: $void\n";

fn workspace() -> SourceDatabase {
    SourceDatabase::from_sources(
        "/workspace".to_string(),
        vec![
            ("main.vibra".to_string(), MAIN.to_string()),
            ("./lib//io.vibra".to_string(), LIBRARY.to_string()),
        ],
    )
    .unwrap()
}

fn key(text: &str) -> Segment {
    Segment::key(text.to_string())
}

fn path(keys: &[&str]) -> Path {
    Path::new(keys.iter().map(|text| key(text)).collect())
}

fn main_source(database: &SourceDatabase) -> String {
    database.document("main.vibra").unwrap().source().to_string()
}

#[test]
fn validates_and_strips_universal_annotations() {
    let mut value = parse(
        r#"=comment: module
main:
  =lint:
    disable: [W-STYLE-001]
  $function: $void
  do:
    - =comment: call
      $io.println: hello
"#,
    )
    .unwrap();

    validate(&value).unwrap();
    strip(&mut value);
    let rendered = render(&value).unwrap();
    assert!(!rendered.contains("=comment"));
    assert!(!rendered.contains("=lint"));
    assert!(rendered.contains("$io.println"));
}

#[test]
fn rejects_malformed_or_unattached_annotations() {
    for (source, code) in [
        ("=comment: 1\nvalue: ok\n", "E-COMMENT-001"),
        ("=lint:\n  disable: [E-YAML-001]\nvalue: ok\n", "E-LINT-001"),
        ("items:\n  - =comment: unattached\n", "E-ANNO-003"),
    ] {
        let value = parse(source).unwrap();
        let error = validate(&value).unwrap_err();
        assert!(error.contains(code), "{error}");
    }
}

#[test]
fn lint_annotations_name_suppressible_codes() {
    assert_eq!(lint_codes(&parse("disable: [all, W-STYLE-001]").unwrap()).unwrap(), ["all", "W-STYLE-001"]);
    for (source, message) in [
        ("[all]", "E-LINT-001: `=lint` must be a mapping"),
        ("enable: [all]", "E-LINT-001: `=lint` accepts exactly one `disable` key"),
        ("disable: all", "E-LINT-001: `=lint.disable` must be an array"),
        ("disable: []", "E-LINT-001: `=lint.disable` must not be empty"),
        ("disable: [1]", "E-LINT-001: lint codes must be strings"),
        ("disable: [W-1]", "E-LINT-001: unknown or unsuppressible lint code `W-1`"),
    ] {
        assert_eq!(lint_codes(&parse(source).unwrap()).unwrap_err(), message);
    }
}

#[test]
fn yaml_values_are_rendered_in_block_style() {
    let value = parse("{b: [1, 2.5, null], a: 'x: y', c: 18446744073709551615}").unwrap();
    assert_eq!(render(&value).unwrap(), "b:\n- 1\n- 2.5\n- null\na: 'x: y'\nc: 18446744073709551615\n");
    assert!(parse("a: [").is_err());
}

#[test]
fn paths_lead_to_their_children() {
    let base = path(&["main", "do"]);
    let child = base.child(Segment::index(1));
    assert!(base.is_prefix_of(&child));
    assert!(!child.is_prefix_of(&base));
    assert!(child.parent().unwrap().same(&base));
    assert_eq!(child.to_compact_strings(), ["main", "do", "1"]);
    assert!(Path::root().parent().is_none());
}

#[test]
fn forms_are_parsed_and_rendered() {
    let form = Form::parse("    a: 1\n    b:\n      - x\n").unwrap();
    assert_eq!(form.render().unwrap(), "a: 1\nb:\n- x");
    assert!(Form::parse("1.0").unwrap().same(&Form::Float("1.0".to_string())));
    assert!(Form::Float("0.0".to_string()).same(&Form::Float("-0.0".to_string())));
    assert!(!Form::parse(".nan").unwrap().same(&Form::parse(".nan").unwrap()));
    assert!(Form::parse("18446744073709551615").unwrap().same(&Form::Float("1.8446744073709552e19".to_string())));
    assert_eq!(Form::parse("a: [").unwrap_err().kind, CodeErrorKind::InvalidSource);
    assert_eq!(Form::parse("? [1]\n: 2\n").unwrap_err().kind, CodeErrorKind::InvalidForm);
    assert_eq!(Form::parse("!tag x").unwrap_err().message, "YAML tags are not part of the Vibra source subset");
}

#[test]
fn documents_are_found_by_normal_paths() {
    let database = workspace();
    assert_eq!(database.paths(), ["./lib/io.vibra", "main.vibra"]);
    assert_eq!(database.root(), "/workspace");
    let document = database.document("main.vibra").unwrap();
    assert_eq!(document.path(), "main.vibra");
    assert_eq!(document.revision().len(), 16);
    assert_ne!(document.revision(), database.document("./lib/io.vibra").unwrap().revision());
    let error = database.document("missing.vibra").unwrap_err();
    assert_eq!(error.kind, CodeErrorKind::DocumentNotFound);
    assert_eq!(error.message, "source document `missing.vibra` does not exist");
}

#[test]
fn sources_with_bad_annotations_are_refused() {
    let error = SourceDatabase::from_sources(
        String::new(),
        vec![("a.vibra".to_string(), "=comment: alone\n".to_string())],
    )
    .unwrap_err();
    assert_eq!(error.kind, CodeErrorKind::InvalidSource);
    assert!(error.message.contains("E-ANNO-003"));
    assert_eq!(error.document, Some("a.vibra".to_string()));
}

#[test]
fn nodes_are_reached_by_paths() {
    let document = workspace().document("main.vibra").unwrap();
    let node = document.at(&path(&["main", "do"])).unwrap();
    assert_eq!(node.kind(), NodeKind::Sequence);
    assert_eq!(node.children().unwrap().len(), 2);
    let call = node.children().unwrap()[0].children().unwrap();
    assert_eq!(call[0].source(), "hello");
    assert_eq!(call[0].path().to_compact_strings(), ["main", "do", "0", "$io.println"]);
    assert!(node.parent(&document).unwrap().unwrap().path().same(&path(&["main"])));
    assert!(document.root().unwrap().parent(&document).unwrap().is_none());
    for (place, message) in [
        (path(&["missing"]), "mapping key `missing` does not exist"),
        (Path::new(vec![Segment::index(0)]), "cannot use index `0` on a mapping"),
        (path(&["main", "do"]).child(key("x")), "cannot use key `x` on a sequence"),
        (path(&["main", "do"]).child(Segment::index(9)), "sequence index `9` is out of bounds"),
        (path(&["main", "$function", "x"]), "cannot descend through a scalar"),
    ] {
        let error = document.at(&place).unwrap_err();
        assert_eq!(error.message, message);
        assert_eq!(error.kind, CodeErrorKind::InvalidPath);
        assert_eq!(error.document, Some("main.vibra".to_string()));
    }
}

#[test]
fn queries_select_by_key_kind_and_pattern() {
    let document = workspace().document("main.vibra").unwrap();
    let found = Query::descendants(Path::root()).with_mapping_key("$function".to_string()).execute(&document).unwrap();
    assert_eq!(found.len(), 2);
    let limited = Query::descendants(Path::root())
        .with_mapping_key("$function".to_string())
        .with_limit(1)
        .execute(&document)
        .unwrap();
    assert_eq!(limited.len(), 1);
    let sequences = Query::subtree(Path::root()).with_kind(NodeKind::Sequence).execute(&document).unwrap();
    assert_eq!(sequences.len(), 1);
    let pattern = Pattern::Mapping(vec![(
        "$io.println".to_string(),
        Pattern::capture("text".to_string(), Pattern::Any),
    )]);
    let calls = Query::subtree(Path::root()).with_pattern(pattern).execute(&document).unwrap();
    assert_eq!(calls.len(), 1);
    assert_eq!(calls[0].captures.len(), 1);
    assert_eq!(calls[0].captures[0].0, "text");
    assert!(calls[0].captures[0].1.same(&Form::String("hello".to_string())));
}

#[test]
fn change_sets_edit_the_text_in_place() {
    let database = workspace();
    let document = database.document("main.vibra").unwrap();
    let call = document.at(&path(&["main", "do"]).child(Segment::index(1))).unwrap();
    let changes = ChangeSet::new().delete(call.locator());
    let applied = database.apply(&changes).unwrap();
    assert_eq!(applied.changed_files, ["main.vibra"]);
    assert_eq!(main_source(&applied.database), MAIN.replace("    - $helper: world\n", ""));

    let body = document.at(&path(&["main", "do"])).unwrap();
    let changes = ChangeSet::new().insert_sequence(body.locator(), 0, Form::String("first".to_string()));
    let applied = database.apply(&changes).unwrap();
    assert_eq!(
        main_source(&applied.database),
        MAIN.replace("    - $io.println", "    - first\n    - $io.println")
    );

    let root = document.root().unwrap();
    let changes = ChangeSet::new().insert_mapping(root.locator(), "extra".to_string(), Form::Int(7));
    let applied = database.apply(&changes).unwrap();
    assert_eq!(main_source(&applied.database), format!("{MAIN}extra: 7\n"));

    let helper = document.at(&path(&["helper"])).unwrap();
    let changes = ChangeSet::new().rename_mapping_key(helper.locator(), "assist".to_string());
    let applied = database.apply(&changes).unwrap();
    assert_eq!(main_source(&applied.database), MAIN.replace("\nhelper:", "\nassist:"));

    let changes = ChangeSet::new().splice_sequence(body.locator(), 0, 2, vec![Form::Int(1), Form::Int(2)]);
    let applied = database.apply(&changes).unwrap();
    assert_eq!(
        main_source(&applied.database),
        MAIN.replace("    - $io.println: hello\n    - $helper: world\n", "    - 1\n    - 2\n")
    );
}

#[test]
fn replaced_values_are_set_through_the_parsed_document() {
    let database = workspace();
    let document = database.document("main.vibra").unwrap();
    let node = document.at(&path(&["main", "$function"])).unwrap();
    let changes = ChangeSet::new().replace(node.locator(), Form::String("$str".to_string()));
    let applied = database.apply(&changes).unwrap();
    let after = applied.database.document("main.vibra").unwrap();
    assert_eq!(after.at(&path(&["main", "$function"])).unwrap().source(), "$str");
    assert_eq!(after.revision(), applied.database.document("main.vibra").unwrap().revision());
    assert_ne!(after.revision(), document.revision());
}

#[test]
fn stale_and_overlapping_edits_are_refused() {
    let database = workspace();
    let document = database.document("main.vibra").unwrap();
    let outer = document.at(&path(&["main"])).unwrap();
    let inner = document.at(&path(&["main", "do"])).unwrap();
    let changes = ChangeSet::new().delete(outer.locator()).delete(inner.locator());
    let error = database.apply(&changes).unwrap_err();
    assert_eq!(error.kind, CodeErrorKind::OverlappingEdits);
    assert_eq!(error.message, "edits at [\"main\"] and [\"main\", \"do\"] overlap");

    let mut stale = outer.locator();
    stale.revision = "0".to_string();
    assert_eq!(database.apply(&ChangeSet::new().delete(stale)).unwrap_err().kind, CodeErrorKind::StaleRevision);
    let mut changed = outer.locator();
    changed.fingerprint = "0".to_string();
    assert_eq!(database.apply(&ChangeSet::new().delete(changed)).unwrap_err().kind, CodeErrorKind::StaleNode);
    let moved = ChangeSet::new().move_node(outer.locator(), inner.locator(), Segment::index(0));
    assert_eq!(
        database.apply(&moved).unwrap_err().message,
        "cannot move a node into itself or one of its descendants"
    );
    let applied = database.apply(&ChangeSet::new()).unwrap();
    assert!(applied.changed_files.is_empty());
}

#[test]
fn moves_take_the_value_along() {
    let database = workspace();
    let document = database.document("main.vibra").unwrap();
    let body = document.at(&path(&["main", "do"])).unwrap();
    let second = document.at(&path(&["main", "do"]).child(Segment::index(1))).unwrap();
    let changes = ChangeSet::new().move_node(second.locator(), body.locator(), Segment::index(0));
    let applied = database.apply(&changes).unwrap();
    let after = applied.database.document("main.vibra").unwrap();
    let items = after.at(&path(&["main", "do"])).unwrap().children().unwrap();
    assert_eq!(items.len(), 2);
    assert!(items[0].source().starts_with("$helper"));
}

#[test]
fn symbols_are_renamed_with_their_references() {
    let database = SourceDatabase::from_sources(
        String::new(),
        vec![
            ("main.vibra".to_string(), MAIN.to_string()),
            ("lib/io.vibra".to_string(), LIBRARY.to_string()),
        ],
    )
    .unwrap();
    let index = SemanticIndex::build(&database).unwrap();
    assert_eq!(index.query(Some(SemanticKind::Import), None).len(), 1);
    assert_eq!(index.query(Some(SemanticKind::Import), None)[0].target_document, Some("lib/io.vibra".to_string()));
    assert_eq!(index.query(Some(SemanticKind::Call), Some("io.println")).len(), 1);

    let changes = index.rename_symbol(&database, "lib/io.vibra", "println", "write-line").unwrap();
    let applied = database.apply(&changes).unwrap();
    assert_eq!(applied.changed_files, ["lib/io.vibra", "main.vibra"]);
    assert!(main_source(&applied.database).contains("$io.write-line: hello"));
    assert!(applied.database.document("lib/io.vibra").unwrap().source().starts_with("write-line:"));

    let changes = index.rename_import_alias(&database, "main.vibra", "io", "out").unwrap();
    let applied = database.apply(&changes).unwrap();
    assert!(main_source(&applied.database).contains("$out.println: hello"));
    assert!(main_source(&applied.database).starts_with("out:"));

    assert_eq!(
        index.rename_symbol(&database, "main.vibra", "helper", "Bad").unwrap_err().message,
        "symbol `Bad` must be kebab-case"
    );
    assert_eq!(
        index.rename_symbol(&database, "main.vibra", "helper", "main").unwrap_err().kind,
        CodeErrorKind::EditConflict
    );
    assert_eq!(
        index.rename_symbol(&database, "main.vibra", "nothing", "other").unwrap_err().kind,
        CodeErrorKind::InvalidPath
    );
    assert_eq!(
        index.rename_symbol(&database, "none.vibra", "helper", "other").unwrap_err().kind,
        CodeErrorKind::DocumentNotFound
    );
    assert_eq!(
        index.rename_import_alias(&database, "main.vibra", "helper", "other").unwrap_err().message,
        "import alias `helper` does not exist"
    );
}

#[test]
fn pipelines_look_and_edit() {
    let PipelineOutcome::Output(text) = run_pipeline(
        workspace(),
        "- $code.file: main.vibra\n- $code.at: [main, do, 0, $io.println]\n- $code.project: source\n",
    )
    .unwrap() else {
        panic!("expected output");
    };
    assert_eq!(text, "hello\n");

    let PipelineOutcome::Output(text) = run_pipeline(workspace(), "[]").unwrap() else {
        panic!("expected output");
    };
    assert_eq!(text, "workspace\n");

    let PipelineOutcome::Transaction(state) = run_pipeline(
        workspace(),
        "- $code.file: main.vibra\n- $code.find: {key: $helper}\n- $code.rename-key: $assist\n",
    )
    .unwrap() else {
        panic!("expected transaction");
    };
    assert_eq!(state.changed, ["main.vibra"]);
    assert!(main_source(&state.database).contains("$assist: world"));
    let report = build_report(&state, false).unwrap();
    assert!(report.starts_with("status: preview\n"), "{report}");
    assert!(report.contains("+    - $assist: world"), "{report}");
    assert!(check_unchanged(&workspace(), &state).is_ok());
    assert_eq!(check_unchanged(&state.database, &state).unwrap_err().kind, CodeErrorKind::StaleRevision);
}

#[test]
fn pipeline_errors_name_their_stage() {
    for (pipeline, message) in [
        ("a: 1", "`vibra code` input must be a sequence of pipeline stages"),
        ("- 1", "pipeline stage 1: pipeline stage must be a singleton mapping"),
        ("- {a: 1, b: 2}", "pipeline stage 1: pipeline stage must contain exactly one operation"),
        ("- $code.nothing: 1", "pipeline stage 1: unknown `vibra code` operation `$code.nothing`"),
        ("- $code.root: null", "pipeline stage 1: operation requires a selected file"),
        ("- $code.file: main.vibra\n- $code.delete: null", "pipeline stage 2: operation requires a node selection"),
        (
            "- $code.file: main.vibra\n- $code.load: x",
            "pipeline stage 2: saved pipeline value `x` does not exist",
        ),
    ] {
        assert_eq!(run_pipeline(workspace(), pipeline).unwrap_err().message, message);
    }
}

#[test]
fn dependencies_are_read_only_to_pipelines() {
    let database = SourceDatabase::from_sources(
        String::new(),
        vec![("dep/a.vibra".to_string(), "main: 1\n".to_string())],
    )
    .unwrap();
    let error =
        run_pipeline(database, "- $code.file: dep/a.vibra\n- $code.at: [main]\n- $code.replace: 2\n").unwrap_err();
    assert_eq!(error.kind, CodeErrorKind::EditConflict);
    assert!(error.message.contains("read-only"));
}

#[test]
fn saved_selections_are_loaded_again() {
    let PipelineOutcome::Output(text) = run_pipeline(
        workspace(),
        "- $code.file: main.vibra\n- $code.save: file\n- $code.root: null\n- $code.load: file\n",
    )
    .unwrap() else {
        panic!("expected output");
    };
    assert_eq!(text, "main.vibra\n");
}

#[test]
fn pointers_read_and_edit_documents() {
    let document = "# head\na:\n  - 1\n  - 2\nb/c: x\n";
    assert_eq!(code_doc::get(document, "/a/1").unwrap(), "2");
    assert_eq!(code_doc::get(document, "/b~1c").unwrap(), "x");
    assert_eq!(code_doc::parse(document).unwrap(), document);
    assert_eq!(code_doc::emit(document).unwrap(), document);
    assert_eq!(code_doc::get(&code_doc::set(document, "/a/0", "9").unwrap(), "/a/0").unwrap(), "9");
    assert!(code_doc::set(document, "/a/0", "9").unwrap().starts_with("# head\n"));
    assert_eq!(code_doc::get(&code_doc::append(document, "/a/-", "3").unwrap(), "/a/2").unwrap(), "3");
    assert!(code_doc::get(&code_doc::remove(document, "/b~1c").unwrap(), "/b~1c").is_err());
    assert_eq!(code_doc::get(&code_doc::remove(document, "/a/0").unwrap(), "/a/0").unwrap(), "2");
    for (result, message) in [
        (code_doc::get(document, "a"), "JSON Pointer must start with `/`"),
        (code_doc::get(document, "/a/9"), "JSON Pointer index `9` is out of bounds"),
        (code_doc::get(document, "/a/x"), "JSON Pointer segment `x` is not a sequence index"),
        (code_doc::get(document, "/z"), "JSON Pointer key `z` does not exist"),
        (code_doc::get(document, "/a~2"), "invalid JSON Pointer escape `~2`"),
        (code_doc::get(document, "/a~"), "invalid trailing `~` in JSON Pointer"),
        (code_doc::get("a: [", "/a"), "parse Vibra code document"),
        (code_doc::remove(document, ""), "JSON Pointer root cannot be removed"),
        (code_doc::append(document, "/a", "1"), "JSON Pointer append path must end in `/-`"),
        (code_doc::append(document, "/b~1c/-", "1"), "JSON Pointer append target is not a sequence"),
        (
            code_doc::set(document, "/a/-", "1"),
            "JSON Pointer append marker `-` is only valid for `code.append`",
        ),
        (code_doc::set(document, "/a/9", "1"), "JSON Pointer index `9` is out of bounds"),
    ] {
        assert_eq!(result.unwrap_err(), message);
    }
}

#[test]
fn workspaces_hold_source_documents() {
    assert!(skips_directory("target"));
    assert!(!skips_directory("src"));
    assert!(names_source("a/b.vibra"));
    assert!(names_source("b.vibra.yaml"));
    assert!(!names_source("b.yaml"));
}

#[test]
fn aliases_under_two_tags_are_not_edited_around() {
    let twice = "a:\n  c: &x 1\nb: !t !u *x\n";
    let message = "Vibra code document has an alias under two tags that would lose what it names";
    assert_eq!(code_doc::remove(twice, "/a").unwrap_err(), message);
    assert_eq!(code_doc::set(twice, "/a", "2").unwrap_err(), message);
    let listed = "- [&x 1]\n- !t !u *x\n";
    assert_eq!(code_doc::remove(listed, "/0").unwrap_err(), message);
    assert_eq!(code_doc::set(listed, "/0", "2").unwrap_err(), message);
    let own = "- &x 1\n- !t !u *x\n";
    assert_eq!(code_doc::remove(own, "/0").unwrap_err(), message);
    assert_eq!(code_doc::set(own, "/0", "2").unwrap(), "- &x 2\n- !t !u *x\n");
    let keyed = "a: &x 1\nb: !t !u *x\nc: 3\n";
    assert_eq!(code_doc::remove(keyed, "/a").unwrap_err(), message);
    assert_eq!(code_doc::set(keyed, "/a", "2").unwrap(), "a: &x 2\nb: !t !u *x\nc: 3\n");
    assert_eq!(code_doc::set(keyed, "/c", "4").unwrap(), "a: &x 1\nb: !t !u *x\nc: 4\n");
    assert_eq!(code_doc::set(keyed, "/d", "4").unwrap(), "a: &x 1\nb: !t !u *x\nc: 3\nd: 4\n");
    assert_eq!(code_doc::remove(keyed, "/c").unwrap(), "a: &x 1\nb: !t !u *x\n");
    assert_eq!(code_doc::remove(keyed, "/b").unwrap(), "a: &x 1\nc: 3\n");
    let other = "a: &x 1\nb: !t !u *x\nc: &y 3\nd: *y\n";
    assert_eq!(code_doc::remove(other, "/c").unwrap(), "a: &x 1\nb: !t !u *x\nd: &y 3\n");
    let inside = "a:\n  p: &x 1\n  q: !t !u *x\nb: 2\n";
    assert_eq!(code_doc::remove(inside, "/a").unwrap(), "b: 2\n");
    let once = "a:\n  c: &x 1\nb: !t *x\n";
    let removed = code_doc::remove(once, "/a").unwrap();
    assert!(!removed.contains("a:"), "{removed}");
    assert!(removed.contains("b: "), "{removed}");
    let apart = "a: 1\nb: !t\nc: !u x\nd: &y 2\ne: *y\n";
    assert_eq!(code_doc::set(apart, "/a", "3").unwrap(), "a: 3\nb: !t\nc: !u x\nd: &y 2\ne: *y\n");
    let document = "- a: 1\n  b: 2\n- c\n";
    assert_eq!(code_doc::set(document, "/0/b", "9").unwrap(), "- a: 1\n  b: 9\n- c\n");
    assert_eq!(code_doc::remove(document, "/1").unwrap(), "- a: 1\n  b: 2\n");
    assert_eq!(code_doc::append(document, "/-", "d").unwrap(), "- a: 1\n  b: 2\n- c\n- d\n");
}

#[test]
fn values_are_built_before_they_are_rendered() {
    let text = |held: &str| YamlValue::Text(held.to_string());
    let entry = |key: &str, value: YamlValue| YamlEntry { key: text(key), value };
    let value = YamlValue::Mapping(vec![
        entry("a", YamlValue::Int(-3)),
        entry("b", YamlValue::Large(7)),
        entry("c", YamlValue::Large(u64::MAX)),
        entry("d", YamlValue::Float("1.5".to_string())),
        entry("e", YamlValue::Sequence(vec![YamlValue::Null, YamlValue::Bool(true), text("true")])),
        entry("a", text("last")),
    ]);
    assert_eq!(
        render(&value).unwrap(),
        "a: last\nb: 7\nc: 18446744073709551615\nd: 1.5\ne:\n- null\n- true\n- 'true'\n"
    );
    let message = "value has a tag, a key that is no text or a float that is no number";
    let tagged = YamlValue::Tagged("!t".to_string(), Box::new(YamlValue::Null));
    assert_eq!(render(&tagged).unwrap_err(), message);
    let keyed = YamlValue::Mapping(vec![YamlEntry { key: YamlValue::Int(1), value: YamlValue::Null }]);
    assert_eq!(render(&keyed).unwrap_err(), message);
    assert_eq!(render(&YamlValue::Float("x".to_string())).unwrap_err(), message);
}

#[test]
fn the_last_source_of_a_path_is_held() {
    let source = |path: &str, text: &str| (path.to_string(), text.to_string());
    let database = SourceDatabase::from_sources(
        String::new(),
        vec![source("b.vibra", "x: 1\n"), source("a//c.vibra", "y: 1\n"), source("a/./c.vibra", "y: 2\n"), source("b", "z: 1\n")],
    )
    .unwrap();
    assert_eq!(database.paths(), ["a/c.vibra", "b", "b.vibra"]);
    let held = database.document("a/c.vibra/").unwrap();
    assert_eq!(held.source(), "y: 2\n");
    assert_eq!(held.path(), "a/c.vibra");
    let again = SourceDatabase::from_sources(String::new(), vec![source("q", "y: 2\n")]).unwrap();
    assert_eq!(held.revision(), again.document("q").unwrap().revision());
    assert_eq!(normalize_path("/a//b/./c/"), "/a/b/c");
    assert_eq!(normalize_path(&normalize_path("./a/../b")), normalize_path("./a/../b"));
    assert!(is_before("a/b", "a.b") && !is_before("a.b", "a/b") && !is_before("a/b", "a//b"));
}

#[test]
fn change_sets_leave_other_documents_alone() {
    let database = workspace();
    let main = database.document("main.vibra").unwrap();
    let target = main.at(&path(&["helper"])).unwrap();
    let applied = database.apply(&ChangeSet::new().delete(target.locator())).unwrap();
    assert_eq!(applied.changed_files, ["main.vibra"]);
    assert_eq!(applied.database.paths(), database.paths());
    assert_eq!(applied.database.document("./lib/io.vibra").unwrap().source(), LIBRARY);
    assert!(!main_source(&applied.database).contains("\nhelper:"));
    let error = applied.database.apply(&ChangeSet::new().delete(target.locator())).unwrap_err();
    assert_eq!(error.kind, CodeErrorKind::StaleRevision);
    assert_eq!(error.document, Some("main.vibra".to_string()));
    let empty = database.apply(&ChangeSet::new()).unwrap();
    assert!(empty.changed_files.is_empty());
    assert_eq!(main_source(&empty.database), MAIN);
}

#[test]
fn tables_by_path_stay_in_order() {
    let mut table: Vec<(String, u8)> = vec![];
    for (path, value) in [("b", 1), ("a/c", 2), ("a.c", 3), ("a//c", 4)] {
        put_entry_at(&mut table, path.to_string(), value);
    }
    assert!(entries_in_order(&table));
    assert!(!entries_in_order(&vec![("b".to_string(), 1), ("a".to_string(), 2)]));
    assert!(!entries_in_order(&vec![("a/b".to_string(), 1), ("a//b".to_string(), 2)]));
    assert_eq!(table, [("a//c".to_string(), 4), ("a.c".to_string(), 3), ("b".to_string(), 1)]);
}
