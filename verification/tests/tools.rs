use vibra::diagnostics::file_uri;
use vibra::docs::{collect, resolve_entry, Documentation, Target};
use vibra::emit::emit_println_wasm;

#[test]
fn println_modules_have_exact_bytes() {
    let bytes = emit_println_wasm(b"hi");
    let expected: Vec<u8> = vec![
        0, 0x61, 0x73, 0x6d, 1, 0, 0, 0, //
        1, 9, 2, 0x60, 2, 0x7f, 0x7f, 0, 0x60, 0, 0, //
        2, 15, 1, 3, 0x65, 0x6e, 0x76, 7, 0x70, 0x72, 0x69, 0x6e, 0x74, 0x6c, 0x6e, 0, 0, //
        3, 2, 1, 1, //
        5, 3, 1, 0, 1, //
        7, 17, 2, 6, 0x6d, 0x65, 0x6d, 0x6f, 0x72, 0x79, 2, 0, 4, 0x6d, 0x61, 0x69, 0x6e, 0, 1, //
        10, 11, 1, 9, 0, 0x41, 0x80, 0x08, 0x41, 2, 0x10, 0, 0x0b, //
        11, 9, 1, 0, 0x41, 0x80, 0x08, 0x0b, 2, 0x68, 0x69,
    ];
    assert_eq!(bytes, expected);
}

#[test]
fn long_messages_use_longer_numbers() {
    let message = vec![b'x'; 64512];
    let bytes = emit_println_wasm(&message);
    assert_eq!(bytes[bytes.len() - 64512..], message[..]);
    let tail = &bytes[..bytes.len() - 64512];
    assert_eq!(tail[tail.len() - 3..], [0x80, 0xf8, 0x03]);
}

#[test]
fn file_uris_encode_what_is_not_plain() {
    assert_eq!(file_uri("/a b/ä.vibra"), "file:///a%20b/%C3%A4.vibra");
    assert_eq!(file_uri("C:\\x"), "file:///C:/x");
}

fn doc(symbol: &str, text: &str) -> Documentation {
    Documentation {
        symbol: symbol.to_string(),
        kind: "function".to_string(),
        documentation: text.to_string(),
        module: "m".to_string(),
    }
}

#[test]
fn documentation_is_listed_by_symbol_behind_the_package() {
    let docs = vec![doc("b", "1"), doc("a", "2"), doc("b", "3")];
    let listed = collect(&docs, Some(doc("zebra", "package")));
    let symbols: Vec<_> = listed.iter().map(|entry| (entry.symbol.as_str(), entry.documentation.as_str())).collect();
    assert_eq!(symbols, [("zebra", "package"), ("a", "2"), ("b", "3")]);
    assert_eq!(collect(&docs, None).len(), 2);
}

fn target(name: &str, entry: &str) -> Target {
    Target { name: name.to_string(), root: "src".to_string(), entry: entry.to_string() }
}

#[test]
fn targets_are_chosen_by_name_or_alone() {
    let targets = vec![target("core", "lib.vibra"), target("tool", "main.vibra")];
    let entry = |path: &str, is_file: bool, name: Option<&str>| resolve_entry(path, is_file, "/p", &targets, name);
    assert_eq!(entry("/p", false, Some("tool")), Ok("/p/src/main.vibra".to_string()));
    assert_eq!(entry("/p/project.vibra", true, Some("core")), Ok("/p/src/lib.vibra".to_string()));
    assert_eq!(entry("/p/other.vibra", true, None), Ok("/p/other.vibra".to_string()));
    assert_eq!(entry("/p", false, Some("x")), Err("project target `x` does not exist".to_string()));
    assert_eq!(
        entry("/p", false, None),
        Err("project has multiple targets; select one with `--target <name>`".to_string())
    );
    let only = vec![target("core", "lib.vibra")];
    assert_eq!(resolve_entry("/p", false, "/p", &only, None), Ok("/p/src/lib.vibra".to_string()));
}
