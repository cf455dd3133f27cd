use parse_describe::levels::{level_to_status_level, EngineLevel, StatusLevel};
use parse_describe::parse_describe::{
    output_message, output_messages, outputString_Level, outputString_SourceRange,
    outputString_optSourceRange, write_document_end, write_document_head, DummyFileLoader,
    MessagesHandler, StructureElementKind,
};
use parse_describe::source_model::{position_of, SourceMessage, SourcePosition, SourceRange};
use parse_describe::structure_visitor::{classify, DeclNode, NodeCategory, StructureVisitor};
use parse_describe::token_writer::TokenWriter;

fn chars(s: &str) -> Vec<char> {
    s.chars().collect()
}

fn node(category: NodeCategory, name: Option<&str>, lo: usize, hi: usize) -> DeclNode {
    DeclNode { category, name: name.map(|n| n.to_string()), lo, hi }
}

/// Decodes the inside of a string token, as the reader of a document does.
fn unescape(t: &str) -> String {
    let mut out = String::new();
    let mut it = t.chars();
    while let Some(c) = it.next() {
        if c == '\\' {
            match it.next() {
                Some('n') => out.push('\n'),
                Some('r') => out.push('\r'),
                Some('t') => out.push('\t'),
                Some('x') => {
                    let digits: String = it.by_ref().take(2).collect();
                    let code = u32::from_str_radix(&digits, 16).unwrap();
                    out.push(char::from_u32(code).unwrap());
                }
                Some(o) => out.push(o),
                None => out.push('\\'),
            }
        } else {
            out.push(c);
        }
    }
    out
}

fn range(l1: usize, c1: usize, l2: usize, c2: usize) -> SourceRange {
    SourceRange {
        start_pos: SourcePosition { line: l1, col: c1 },
        end_pos: SourcePosition { line: l2, col: c2 },
    }
}

#[test]
fn levels_map_onto_three_severities() {
    assert_eq!(level_to_status_level(EngineLevel::Help), StatusLevel::OK);
    assert_eq!(level_to_status_level(EngineLevel::Note), StatusLevel::OK);
    assert_eq!(level_to_status_level(EngineLevel::Warning), StatusLevel::WARNING);
    assert_eq!(level_to_status_level(EngineLevel::Error), StatusLevel::ERROR);
    assert_eq!(level_to_status_level(EngineLevel::Fatal), StatusLevel::ERROR);
    assert_eq!(level_to_status_level(EngineLevel::PhaseFatal), StatusLevel::ERROR);
}

#[test]
fn kind_tags() {
    let mut w = TokenWriter::new();
    StructureElementKind::EnumVariant.writeString(&mut w);
    w.writeRaw(" ");
    StructureElementKind::TypeAlias.writeString(&mut w);
    w.writeRaw(" ");
    StructureElementKind::Var.writeString(&mut w);
    assert_eq!(w.out, "EnumVariant TypeAlias Var");
}

#[test]
fn numbers_in_decimal() {
    let mut w = TokenWriter::new();
    w.writeNumber(0);
    w.writeRaw(" ");
    w.writeNumber(7);
    w.writeRaw(" ");
    w.writeNumber(12345);
    w.writeRaw(" ");
    w.writeNumber(100);
    assert_eq!(w.out, "0 7 12345 100");
}

#[test]
fn level_and_ranges() {
    let mut w = TokenWriter::new();
    outputString_Level(&StatusLevel::WARNING, &mut w);
    outputString_SourceRange(&range(1, 0, 3, 12), &mut w);
    assert_eq!(w.out, "WARNING { 1 0 3 12 }");
    let mut w = TokenWriter::new();
    outputString_optSourceRange(&None, &mut w);
    outputString_optSourceRange(&Some(range(2, 4, 2, 9)), &mut w);
    assert_eq!(w.out, "{ } { 2 4 2 9 } ");
}

#[test]
fn string_token_escapes_quote_and_newline() {
    let text = "expected `\"`,\nfound \\ and\ttab";
    let mut w = TokenWriter::new();
    w.writeStringToken(text);
    assert_eq!(w.out, "\"expected `\\\"`,\\nfound \\\\ and\\ttab\" ");
    assert!(!w.out.contains('\n'));
    let inner = &w.out[1..w.out.len() - 2];
    assert_eq!(unescape(inner), text);
}

#[test]
fn string_token_escapes_every_control_character() {
    let text = "a\u{1}b\u{0}\u{1f}\u{7f}c\u{1b}[0m x";
    let mut w = TokenWriter::new();
    w.writeStringToken(text);
    assert_eq!(w.out, "\"a\\x01b\\x00\\x1f\\x7fc\\x1b[0m x\" ");
    assert!(!w.out.chars().any(|c| c.is_control()));
    let inner = &w.out[1..w.out.len() - 2];
    assert_eq!(unescape(inner), text);
}

#[test]
fn string_token_round_trips_all_ascii_and_more() {
    let text: String = (0u32..0x100).filter_map(char::from_u32).chain("é€😀\\x41".chars()).collect();
    let mut w = TokenWriter::new();
    w.writeStringToken(&text);
    assert!(!w.out.chars().any(|c| c.is_ascii_control()));
    let inner = &w.out[1..w.out.len() - 2];
    assert_eq!(unescape(inner), text);
}

#[test]
fn one_message_line() {
    let mut w = TokenWriter::new();
    output_message(&mut w, Some(range(1, 4, 1, 9)), "say \"hi\"\nnow", &StatusLevel::ERROR);
    assert_eq!(w.out, "MESSAGE { ERROR { 1 4 1 9 } \"say \\\"hi\\\"\\nnow\" }\n");
    let mut w = TokenWriter::new();
    output_message(&mut w, None, "note", &StatusLevel::OK);
    assert_eq!(w.out, "MESSAGE { OK { } \"note\" }\n");
}

#[test]
fn positions_count_lines_from_one_and_columns_from_zero() {
    let text = chars("fn a() {}\nstruct S;\n\nx");
    assert_eq!(position_of(&text, 0), SourcePosition { line: 1, col: 0 });
    assert_eq!(position_of(&text, 3), SourcePosition { line: 1, col: 3 });
    assert_eq!(position_of(&text, 10), SourcePosition { line: 2, col: 0 });
    assert_eq!(position_of(&text, 17), SourcePosition { line: 2, col: 7 });
    assert_eq!(position_of(&text, 21), SourcePosition { line: 4, col: 0 });
    assert_eq!(position_of(&text, 22), SourcePosition { line: 4, col: 1 });
    let r = SourceRange::new(&text, 3, 17);
    assert_eq!(r, range(1, 3, 2, 7));
}

#[test]
fn positions_count_characters_not_bytes() {
    let text = chars("é\"ü\nß");
    assert_eq!(position_of(&text, 3), SourcePosition { line: 1, col: 3 });
    assert_eq!(position_of(&text, 5), SourcePosition { line: 2, col: 1 });
}

#[test]
fn ranges_are_ordered_and_inside_the_buffer() {
    let text = chars("mod m;\nuse a::b;\n");
    let len = text.len();
    for lo in 0..=len {
        for hi in lo..=len {
            let r = SourceRange::new(&text, lo, hi);
            let (s, e) = (r.start_pos, r.end_pos);
            assert!(s.line < e.line || (s.line == e.line && s.col <= e.col));
            assert!(s.line >= 1 && e.line <= 3);
        }
    }
}

#[test]
fn collector_keeps_arrival_order() {
    let text = chars("struct S {\n  a: u8,\n");
    let mut h = MessagesHandler::new(text);
    h.emit(Some((0, 6)), "first", None, EngineLevel::Warning);
    h.custom_emit("second", EngineLevel::Error);
    h.emit(None, "third", None, EngineLevel::Note);
    h.emit(Some((11, 13)), "fourth", None, EngineLevel::Fatal);
    let got: Vec<(&str, StatusLevel, Option<SourceRange>)> =
        h.messages.iter().map(|m| (m.message.as_str(), m.status_level, m.sourcerange)).collect();
    assert_eq!(
        got,
        vec![
            ("first", StatusLevel::WARNING, Some(range(1, 0, 1, 6))),
            ("second", StatusLevel::ERROR, None),
            ("third", StatusLevel::OK, None),
            ("fourth", StatusLevel::ERROR, Some(range(2, 0, 2, 2))),
        ]
    );
}

#[test]
fn advisory_free_form_notes_are_left_out() {
    let mut h = MessagesHandler::new(chars("x"));
    h.custom_emit("help: try this", EngineLevel::Help);
    h.custom_emit("note: see that", EngineLevel::Note);
    assert!(h.messages.is_empty());
    h.custom_emit("warning", EngineLevel::Warning);
    assert_eq!(h.messages.len(), 1);
    assert_eq!(h.messages[0].status_level, StatusLevel::WARNING);
}

#[test]
fn document_without_diagnostics() {
    let mut w = TokenWriter::new();
    write_document_head(&mut w, &vec![]);
    write_document_end(&mut w);
    assert_eq!(w.out, "RUST_PARSE_DESCRIBE 0.1 {\nMESSAGES {\n}\n}");
}

#[test]
fn messages_block_in_order() {
    let msgs = vec![
        SourceMessage { status_level: StatusLevel::ERROR, sourcerange: Some(range(1, 0, 1, 1)), message: "b".to_string() },
        SourceMessage { status_level: StatusLevel::WARNING, sourcerange: None, message: "a".to_string() },
    ];
    let mut w = TokenWriter::new();
    output_messages(&mut w, &msgs);
    assert_eq!(
        w.out,
        "MESSAGES {\nMESSAGE { ERROR { 1 0 1 1 } \"b\" }\nMESSAGE { WARNING { } \"a\" }\n}"
    );
}

fn describe(source: &str) -> String {
    let text = chars(source);
    let mut h = MessagesHandler::new(text.clone());
    h.emit(Some((0, 4)), "unused \"x\"", None, EngineLevel::Warning);
    let mut w = TokenWriter::new();
    write_document_head(&mut w, &h.messages);
    let mut v = StructureVisitor::new(w, text);
    v.visit_leaves(&vec![node(NodeCategory::Fn, Some("main"), 0, source.len())]);
    let mut w = v.writer;
    write_document_end(&mut w);
    w.out
}

#[test]
fn same_input_gives_same_document() {
    let a = describe("fn main() {}\n");
    let b = describe("fn main() {}\n");
    assert_eq!(a, b);
    assert_eq!(
        a,
        "RUST_PARSE_DESCRIBE 0.1 {\nMESSAGES {\nMESSAGE { WARNING { 1 0 1 4 } \"unused \\\"x\\\"\" }\n}Function { \"main\" { 1 0 2 0 } }\n\n}"
    );
}

#[test]
fn classification_is_total_and_fixed() {
    assert_eq!(classify(NodeCategory::Static), Some(StructureElementKind::Var));
    assert_eq!(classify(NodeCategory::Const), Some(StructureElementKind::Var));
    assert_eq!(classify(NodeCategory::Method), Some(StructureElementKind::Function));
    assert_eq!(classify(NodeCategory::Ty), Some(StructureElementKind::TypeAlias));
    assert_eq!(classify(NodeCategory::ExternCrate), Some(StructureElementKind::ExternCrate));
    assert_eq!(classify(NodeCategory::Mac), None);
    assert_eq!(classify(NodeCategory::ForeignMod), None);
    assert_eq!(classify(NodeCategory::DefaultImpl), None);
}

#[test]
fn enum_variants_nest_in_order() {
    let src = "enum E { A, B(u8), C }";
    let mut v = StructureVisitor::new(TokenWriter::new(), chars(src));
    v.visit_container(
        &node(NodeCategory::Enum, Some("E"), 0, 22),
        &vec![
            node(NodeCategory::Variant, Some("A"), 9, 10),
            node(NodeCategory::Variant, Some("B"), 12, 17),
            node(NodeCategory::Variant, Some("C"), 19, 20),
        ],
    );
    assert_eq!(
        v.writer.out,
        "Enum { \"E\" { 1 0 1 22 } EnumVariant { \"A\" { 1 9 1 10 } }\nEnumVariant { \"B\" { 1 12 1 17 } }\nEnumVariant { \"C\" { 1 19 1 20 } }\n}\n"
    );
}

#[test]
fn impl_members_nest_in_order() {
    let src = "impl S {\n  fn a() {}\n  fn b() {}\n}";
    let mut v = StructureVisitor::new(TokenWriter::new(), chars(src));
    v.visit_container(
        &node(NodeCategory::Impl, None, 0, 34),
        &vec![
            node(NodeCategory::Method, Some("a"), 11, 20),
            node(NodeCategory::Method, Some("b"), 23, 32),
        ],
    );
    assert_eq!(
        v.writer.out,
        "Impl { { 1 0 4 1 } Function { \"a\" { 2 2 2 11 } }\nFunction { \"b\" { 3 2 3 11 } }\n}\n"
    );
}

#[test]
fn trait_with_one_required_function() {
    let src = "trait T {\n  fn f(&self);\n}";
    let mut h = MessagesHandler::new(chars(src));
    let mut w = TokenWriter::new();
    write_document_head(&mut w, &h.messages);
    let mut v = StructureVisitor::new(w, chars(src));
    v.visit_container(
        &node(NodeCategory::Trait, Some("T"), 0, 26),
        &vec![node(NodeCategory::Method, Some("f"), 12, 24)],
    );
    let mut w = v.writer;
    write_document_end(&mut w);
    h.custom_emit("nothing", EngineLevel::Note);
    assert!(h.messages.is_empty());
    assert_eq!(
        w.out,
        "RUST_PARSE_DESCRIBE 0.1 {\nMESSAGES {\n}Trait { \"T\" { 1 0 3 1 } Function { \"f\" { 2 2 2 14 } }\n}\n\n}"
    );
}

#[test]
fn nested_modules_open_and_close() {
    let src = "mod a {\n  use b;\n  macro!();\n}";
    let mut v = StructureVisitor::new(TokenWriter::new(), chars(src));
    assert!(v.begin_element(&node(NodeCategory::Mod, Some("a"), 0, 30)));
    assert_eq!(v.depth, 1);
    v.visit_leaves(&vec![
        node(NodeCategory::Use, None, 10, 16),
        node(NodeCategory::Mac, None, 19, 28),
    ]);
    assert!(!v.begin_element(&node(NodeCategory::Mac, None, 19, 28)));
    v.end_element();
    assert_eq!(v.depth, 0);
    assert_eq!(v.writer.out, "Mod { \"a\" { 1 0 4 1 } Use { { 2 2 2 8 } }\n}\n");
}

#[test]
fn file_loader_answers_without_reading() {
    let l = DummyFileLoader::new();
    assert!(l.file_exists(&Some("mod.rs".to_string())));
    assert!(!l.file_exists(&Some("lib.rs".to_string())));
    assert!(!l.file_exists(&None));
    assert_eq!(l.read_file(), "");
}
