use grafy::language::Language;
use grafy::pipeline::channels::StructureKind;
use grafy::pipeline::pass3::build_symbol_table;
use grafy::pipeline::syntax::{def_captures, file_calls, file_routes, file_structure, query_captures, run_query};

const RUST_DEFS: &str = "(function_item name: (identifier) @function.name) @function.def\n(struct_item name: (type_identifier) @struct.name) @struct.def";

#[test]
fn structure_of_a_rust_file() {
    let src = b"struct S;\nfn main() {}\n";
    let (events, parse_ms) = file_structure("/r/a.rs", Language::Rust, RUST_DEFS, src);
    assert!(parse_ms < 5000);
    assert_eq!(events.len(), 2);
    assert_eq!(events[0].kind, StructureKind::Struct);
    assert_eq!(events[0].name, "S");
    assert_eq!((events[0].byte_start, events[0].byte_end), (0, 9));
    assert_eq!(events[1].kind, StructureKind::Function);
    assert_eq!(events[1].name, "main");
    assert_eq!(events[1].file_path, "/r/a.rs");
}

#[test]
fn a_query_that_does_not_compile_gives_no_structure() {
    let (events, _) = file_structure("/r/a.rs", Language::Rust, "(not_a_node) @x", b"fn main() {}");
    assert!(events.is_empty());
    assert!(run_query(Language::Rust, "(((", b"fn main() {}").matches.is_none());
}

#[test]
fn captures_carry_their_text() {
    let run = run_query(Language::Python, "(identifier) @id", b"abc = 1\n");
    let ms = run.matches.unwrap();
    assert_eq!(ms.len(), 1);
    assert_eq!((ms[0][0].start_byte, ms[0][0].end_byte, ms[0][0].row), (0, 3, 0));
    let q = query_captures(&ms, b"abc = 1\n");
    assert_eq!(q[0][0].text, "abc");
    assert_eq!(q[0][0].name, "id");
    let d = def_captures(&ms, b"abc = 1\n");
    assert_eq!(d[0][0].text.as_deref(), Some("abc"));
}

#[test]
fn calls_of_a_non_utf8_file_are_empty() {
    let sym = build_symbol_table(&vec![], "/r");
    let r = file_calls("/r", "/r/a.rs", Language::Rust, &sym, "(call_expression) @call", "", &[0xff, 0xfe]);
    assert_eq!(r.edges.map(|e| e.len()), Some(0));
    let r = file_routes("/r", "/r/a.py", Language::Python, &sym, "(call) @c", &[0xff]);
    assert_eq!(r.writes.map(|w| w.len()), Some(0));
}
