//! End-to-end tests of the front-end pipeline: tokenizing, parsing, type
//! resolution, sizes and the name hash.

use iris::ast::{ComplexTypes, FieldType, Package, PrimitiveTypes, Struct, StructField};
use iris::parser::Parser;
use iris::token::TokenTypes;

const SCHEMA: &str = "version 0.1.0;\npackage telemetry;\n\nstruct Battery {\n    f32 charge;\n}\n\nenum Status {\n    ACTIVE;\n    IDLE;\n}\n\nstruct Computer {\n    u32 id;\n    Battery[2] batteries;\n    Status status;\n}\n";

fn parsed(src: &str) -> Package {
    let mut p = Parser::new(src.to_string()).expect("tokenize");
    p.generate_ast().expect("parse");
    p.ast.packages.remove(0)
}

#[test]
fn parses_example_schema() {
    let pkg = parsed(SCHEMA);
    assert_eq!(pkg.name.as_deref(), Some("telemetry"));
    assert_eq!(pkg.version.as_deref(), Some("0.1.0"));
    assert_eq!(pkg.structs.len(), 2);
    assert_eq!(pkg.enums.len(), 1);
    assert_eq!(pkg.structs[0].name, "Battery");
    assert_eq!(pkg.structs[1].name, "Computer");
    assert_eq!(pkg.enums[0].name, "Status");
    assert_eq!(pkg.enums[0].variants.len(), 2);
    // Ordinals are assigned strictly by declaration order, starting at 0.
    assert_eq!(pkg.enums[0].variants[0].name, "ACTIVE");
    assert_eq!(pkg.enums[0].variants[0].value, 0);
    assert_eq!(pkg.enums[0].variants[1].name, "IDLE");
    assert_eq!(pkg.enums[0].variants[1].value, 1);
    assert!(pkg.is_some());
    assert!(pkg.version_matches("0.1.0"));
    assert!(!pkg.version_matches("0.2.0"));
}

#[test]
fn field_types_resolve_against_prescan() {
    let pkg = parsed(SCHEMA);
    let computer = &pkg.structs[1];
    assert_eq!(computer.fields.len(), 3);
    assert!(matches!(computer.fields[0].t, FieldType::PRIMITIVE(PrimitiveTypes::U32)));
    assert!(matches!(
        computer.fields[1].t,
        FieldType::COMPLEX(ComplexTypes::Struct(ref n)) if n == "Battery"
    ));
    assert_eq!(computer.fields[1].array, Some(2));
    assert!(matches!(
        computer.fields[2].t,
        FieldType::COMPLEX(ComplexTypes::Enum(ref n)) if n == "Status"
    ));
}

#[test]
fn forward_reference_resolves() {
    // Computer embeds Battery although Battery is declared later in the file:
    // the tokenizer pre-scan makes the name known before parsing begins.
    let src = "version 0.1.0;\npackage p;\nstruct Computer { Battery b; }\nstruct Battery { u8 x; }\n";
    let pkg = parsed(src);
    assert!(matches!(
        pkg.structs[0].fields[0].t,
        FieldType::COMPLEX(ComplexTypes::Struct(ref n)) if n == "Battery"
    ));
}

#[test]
fn sizes_follow_the_table() {
    let pkg = parsed(SCHEMA);
    // Battery: one f32 = 4 bytes; Computer: u32 + Battery[2] + Status enum.
    assert_eq!(pkg.structs[0].size(&pkg), Some(4));
    assert_eq!(pkg.structs[1].size(&pkg), Some(4 + 2 * 4 + 4));
    // fieldSize(array of n) == n * elementSize.
    assert_eq!(pkg.structs[1].fields[1].size(&pkg), Some(8));
    assert_eq!(pkg.structs[1].fields[1].t.size(&pkg), Some(4));
    assert_eq!(pkg.enums[0].size(), 4);
}

#[test]
fn primitive_sizes() {
    let pkg = parsed(SCHEMA);
    let mk = |n: &str| PrimitiveTypes::new(n.to_string());
    assert_eq!(mk("u8").size(), 1);
    assert_eq!(mk("i8").size(), 1);
    assert_eq!(mk("bool").size(), 1);
    assert_eq!(mk("u16").size(), 2);
    assert_eq!(mk("i16").size(), 2);
    assert_eq!(mk("u32").size(), 4);
    assert_eq!(mk("i32").size(), 4);
    assert_eq!(mk("f32").size(), 4);
    let _ = pkg;
}

#[test]
fn name_hash_is_fnv1a_of_the_name() {
    let pkg = parsed(SCHEMA);
    assert_eq!(pkg.structs[0].fnv_1a(), 2215305518); // "Battery"
    assert_eq!(pkg.structs[1].fnv_1a(), 3613607352); // "Computer"
}

#[test]
fn tag_is_deterministic_and_name_only() {
    // Two structs with the same name but different fields carry the same tag.
    let a = Struct { name: "Battery".to_string(), fields: vec![] };
    let b = Struct {
        name: "Battery".to_string(),
        fields: vec![StructField {
            name: "x".to_string(),
            t: FieldType::PRIMITIVE(PrimitiveTypes::U8),
            array: None,
        }],
    };
    assert_eq!(a.fnv_1a(), b.fnv_1a());
    // Changing only the name changes the hash (for these names).
    let c = Struct { name: "battery".to_string(), fields: vec![] };
    assert_ne!(a.fnv_1a(), c.fnv_1a());
}

#[test]
fn duplicate_struct_is_rejected() {
    let src = "version 0.1.0;\npackage p;\nstruct Battery {}\nstruct Battery {}\n";
    let mut p = Parser::new(src.to_string()).expect("tokenize");
    let e = p.generate_ast().expect_err("duplicate must fail");
    assert_eq!(e.msg, "Name already used.");
}

#[test]
fn duplicate_field_is_rejected() {
    let src = "version 0.1.0;\npackage p;\nstruct S { u8 a; u8 a; }\n";
    let mut p = Parser::new(src.to_string()).expect("tokenize");
    let e = p.generate_ast().expect_err("duplicate field must fail");
    assert_eq!(e.msg, "Field name already used.");
}

#[test]
fn duplicate_variant_is_rejected() {
    let src = "version 0.1.0;\npackage p;\nenum E { A; A; }\n";
    let mut p = Parser::new(src.to_string()).expect("tokenize");
    let e = p.generate_ast().expect_err("duplicate variant must fail");
    assert_eq!(e.msg, "Variant name already used.");
}

#[test]
fn missing_version_is_rejected() {
    let src = "package p;\nstruct S { u8 a; }\n";
    let mut p = Parser::new(src.to_string()).expect("tokenize");
    let e = p.generate_ast().expect_err("missing version must fail");
    assert_eq!(e.msg, "Version not declared.");
}

#[test]
fn version_after_struct_is_rejected() {
    let src = "package p;\nstruct S { u8 a; }\nversion 0.1.0;\n";
    let mut p = Parser::new(src.to_string()).expect("tokenize");
    let e = p.generate_ast().expect_err("late version must fail");
    assert_eq!(e.msg, "Version must be declared before any struct or enum.");
}

#[test]
fn duplicate_version_is_rejected() {
    let src = "version 0.1.0;\nversion 0.1.0;\npackage p;\n";
    let mut p = Parser::new(src.to_string()).expect("tokenize");
    let e = p.generate_ast().expect_err("duplicate version must fail");
    assert_eq!(e.msg, "Version already declared.");
}

#[test]
fn unclosed_brace_is_rejected() {
    let src = "version 0.1.0;\npackage p;\nstruct S { u8 a;\n";
    let mut p = Parser::new(src.to_string()).expect("tokenize");
    let e = p.generate_ast().expect_err("unclosed brace must fail");
    assert_eq!(e.msg, "Opened curly brackets not closed.");
}

#[test]
fn stray_close_brace_is_rejected() {
    let src = "version 0.1.0;\npackage p;\n}\n";
    let mut p = Parser::new(src.to_string()).expect("tokenize");
    let e = p.generate_ast().expect_err("stray brace must fail");
    assert_eq!(e.msg, "Unexpected closed curly bracket `}`.");
}

#[test]
fn missing_semicolon_is_rejected() {
    let src = "version 0.1.0\npackage p;\n";
    let mut p = Parser::new(src.to_string()).expect("tokenize");
    let e = p.generate_ast().expect_err("missing semicolon must fail");
    assert_eq!(e.msg, "Expected semicolon.");
}

#[test]
fn unknown_character_is_a_lexical_error() {
    let e = match Parser::new("version 0.1.0; @".to_string()) {
        Err(e) => e,
        Ok(_) => panic!("lex must fail"),
    };
    assert_eq!(e.msg, "Syntax error, unknown token.");
    assert_eq!(e.row, 1);
}

#[test]
fn single_dot_number_is_a_lexical_error() {
    let e = match Parser::new("version 1.2;".to_string()) {
        Err(e) => e,
        Ok(_) => panic!("lex must fail"),
    };
    assert_eq!(e.msg, "Expected semantic version as MAJOR.MINOR.PATCH.");
}

#[test]
fn comments_and_whitespace_are_skipped() {
    let src = "# a comment\nversion 0.1.0; # trailing\npackage p;\n";
    let pkg = parsed(src);
    assert_eq!(pkg.name.as_deref(), Some("p"));
}

#[test]
fn tokenizer_ends_with_end_of_stream() {
    let p = Parser::new("version 0.1.0;\npackage p;\n".to_string()).expect("tokenize");
    let toks = &p.tokenizer.tokens;
    assert!(toks.len() > 0);
    assert!(matches!(toks[toks.len() - 1].t, TokenTypes::EndOfStream));
    for t in &toks[..toks.len() - 1] {
        assert!(!matches!(t.t, TokenTypes::EndOfStream));
    }
}

#[test]
fn array_size_overflow_is_invalid_index() {
    let src = "version 0.1.0;\npackage p;\nstruct S { u8[4294967296] a; }\n";
    let mut p = Parser::new(src.to_string()).expect("tokenize");
    let e = p.generate_ast().expect_err("overflowing index must fail");
    assert_eq!(e.msg, "Invalid index.");
}

#[test]
fn parse_u32_bounds() {
    assert_eq!(iris::parser::parse_u32("0"), Some(0));
    assert_eq!(iris::parser::parse_u32("4294967295"), Some(u32::MAX));
    assert_eq!(iris::parser::parse_u32("4294967296"), None);
    assert_eq!(iris::parser::parse_u32(""), None);
    assert_eq!(iris::parser::parse_u32("12x"), None);
}

#[test]
fn error_values_carry_stage_and_position() {
    let e = iris::error::error(iris::error::ErrorType::Parser, "boom", 1, 3, 7);
    assert_eq!(e.msg, "boom");
    assert_eq!(e.row, 3);
    assert_eq!(e.col, 7);
    assert_eq!(e.ctx.str(), "Parser");
    assert_eq!(iris::error::ErrorType::Tokenizer.str(), "Tokenizer");
    assert_eq!(iris::error::ErrorType::CodeGenerator.str(), "Code generator");
}
