//! Tests of the code generators: language selection, emission ordering, and
//! the emitted source of each backend.

use iris::ast::Package;
use iris::generators::code_gen::{emission_order, u32_str, CodeGen, Langs};
use iris::parser::Parser;

const SCHEMA: &str = "version 0.1.0;\npackage telemetry;\nstruct Computer {\n    u32 id;\n    Battery[2] batteries;\n    Status status;\n}\nstruct Battery {\n    f32 charge;\n}\nenum Status {\n    ACTIVE;\n    IDLE;\n}\n";

fn parsed(src: &str) -> Package {
    let mut p = Parser::new(src.to_string()).expect("tokenize");
    p.generate_ast().expect("parse");
    p.ast.packages.remove(0)
}

#[test]
fn language_selection() {
    assert!(matches!(Langs::from_string("rust"), Some(Langs::RUST(_))));
    assert!(matches!(Langs::from_string("rs"), Some(Langs::RUST(_))));
    assert!(matches!(Langs::from_string("python"), Some(Langs::PYTHON(_))));
    assert!(matches!(Langs::from_string("py"), Some(Langs::PYTHON(_))));
    assert!(matches!(Langs::from_string("c++"), Some(Langs::CPP(_))));
    assert!(matches!(Langs::from_string("cpp"), Some(Langs::CPP(_))));
    assert!(Langs::from_string("java").is_none());
    assert_eq!(Langs::from_string("rust").unwrap().ext(), "rs");
    assert_eq!(Langs::from_string("py").unwrap().ext(), "py");
    assert_eq!(Langs::from_string("c++").unwrap().ext(), "hpp");
}

#[test]
fn decimal_spelling() {
    assert_eq!(u32_str(0), "0");
    assert_eq!(u32_str(7), "7");
    assert_eq!(u32_str(10), "10");
    assert_eq!(u32_str(3613607352), "3613607352");
    assert_eq!(u32_str(u32::MAX), "4294967295");
}

#[test]
fn emission_order_puts_dependencies_first() {
    // Computer embeds Battery, so Battery (index 1) must come before
    // Computer (index 0).
    let pkg = parsed(SCHEMA);
    let ord = emission_order(&pkg).expect("acyclic");
    assert_eq!(ord.len(), 2);
    let pos_battery = ord.iter().position(|&i| i == 1).unwrap();
    let pos_computer = ord.iter().position(|&i| i == 0).unwrap();
    assert!(pos_battery < pos_computer);
}

#[test]
fn cyclic_embedding_is_rejected() {
    let src = "version 0.1.0;\npackage p;\nstruct A { B b; }\nstruct B { A a; }\n";
    let pkg = parsed(src);
    let e = emission_order(&pkg).expect_err("cycle must fail");
    assert_eq!(e.msg, "Cyclic type dependency.");
    // Code generation for the cyclic package fails the same way.
    let e2 = iris::generators::rust::gen_code(&pkg).expect_err("cycle must fail");
    assert_eq!(e2.msg, "Cyclic type dependency.");
}

#[test]
fn unknown_field_type_fails_before_generation() {
    // The parser records the unresolved name; generation rejects it.
    let src = "version 0.1.0;\npackage p;\nstruct S { Missing m; }\n";
    let pkg = parsed(src);
    assert_eq!(pkg.structs[0].size(&pkg), None);
    assert!(iris::generators::rust::gen_code(&pkg).is_err());
    assert!(iris::generators::cpp::gen_code(&pkg).is_err());
    assert!(iris::generators::python::gen_code(&pkg).is_err());
}

#[test]
fn rust_backend_emits_the_package() {
    let pkg = parsed(SCHEMA);
    let out = iris::generators::rust::gen_code(&pkg).expect("generates");
    assert!(out.starts_with("#![no_std]\n"));
    assert!(out.contains("pub mod telemetry {\n"));
    assert!(out.contains("pub struct Battery {\n"));
    assert!(out.contains("pub charge: f32,\n"));
    assert!(out.contains("pub batteries: [Battery; 2],\n"));
    assert!(out.contains("pub const NAME_HASH: u32 = 2215305518;\n"));
    assert!(out.contains("pub const BYTES_LENGTH: usize = 16 + 4;\n"));
    assert!(out.contains("pub enum Status {\n"));
    assert!(out.contains("ACTIVE = 0,\n"));
    assert!(out.contains("IDLE = 1,\n"));
    assert!(out.contains("pub fn decode(data: &[u8]) -> Result<Structs, &str> {\n"));
    // The embedded struct is emitted before the struct embedding it.
    let battery_at = out.find("pub struct Battery").unwrap();
    let computer_at = out.find("pub struct Computer").unwrap();
    assert!(battery_at < computer_at);
    // The same text comes through the generator trait.
    let via_trait = iris::generators::rust::Rust {}.gen_code(&pkg).expect("generates");
    assert_eq!(via_trait, out);
}

#[test]
fn cpp_backend_emits_the_header() {
    let pkg = parsed(SCHEMA);
    let out = iris::generators::cpp::gen_code(&pkg).expect("generates");
    assert!(out.starts_with("#pragma once\n"));
    assert!(out.contains("namespace telemetry {\n"));
    assert!(out.contains("class Battery {\n"));
    assert!(out.contains("static inline unsigned int NAME_HASH() { return 2215305518; }\n"));
    assert!(out.contains("static inline size_t BYTES_LENGTH() { return 16 + 4; }\n"));
    assert!(out.contains("class Status {\n"));
    assert!(out.contains("enum Value : uint32_t {\n"));
    assert!(out.contains("Structs check_type(byte *raw, size_t len) {\n"));
    let battery_at = out.find("class Battery").unwrap();
    let computer_at = out.find("class Computer").unwrap();
    assert!(battery_at < computer_at);
}

#[test]
fn python_backend_emits_the_module() {
    let pkg = parsed(SCHEMA);
    let out = iris::generators::python::gen_code(&pkg).expect("generates");
    assert!(out.starts_with("import enum\n"));
    assert!(out.contains("class telemetry:\n"));
    assert!(out.contains("class Battery:\n"));
    assert!(out.contains("NAME_HASH = 2215305518\n"));
    assert!(out.contains("BYTES_LENGTH = 16 + 4\n"));
    assert!(out.contains("class Status(enum.IntEnum):\n"));
    assert!(out.contains("ACTIVE = 0\n"));
    assert!(out.contains("def decode(raw: bytes):\n"));
    let battery_at = out.find("class Battery:").unwrap();
    let computer_at = out.find("class Computer:").unwrap();
    assert!(battery_at < computer_at);
}

#[test]
fn per_field_generators_emit_exact_text() {
    let pkg = parsed(SCHEMA);
    let computer = &pkg.structs[0];
    let decl = iris::generators::rust::field::gen_declaration(&computer.fields[0]);
    assert_eq!(decl, "pub id: u32,\n");
    let decl2 = iris::generators::rust::field::gen_declaration(&computer.fields[1]);
    assert_eq!(decl2, "pub batteries: [Battery; 2],\n");
    let prop = iris::generators::cpp::field::gen_prop_declaration(&computer.fields[1]);
    assert_eq!(prop, "Battery batteries[2];\n");
    let arg = iris::generators::cpp::field::gen_arg_declaration(&computer.fields[1]);
    assert_eq!(arg, "Battery *batteries");
    let fmt = iris::generators::python::types::gen_pack_format(&computer.fields[1].t, &pkg)
        .expect("resolves");
    assert_eq!(fmt, "4B");
    let fmt2 = iris::generators::python::types::gen_pack_format(&computer.fields[2].t, &pkg)
        .expect("resolves");
    assert_eq!(fmt2, "I");
    let pack = iris::generators::python::field::gen_pack_arg(&computer.fields[0], &pkg)
        .expect("resolves");
    assert_eq!(pack, "struct.pack('>I', self.id)");
}

#[test]
fn rust_default_values() {
    let pkg = parsed(SCHEMA);
    let computer = &pkg.structs[0];
    let d0 = iris::generators::rust::types::gen_default_value(&computer.fields[0].t, &pkg)
        .expect("resolves");
    assert_eq!(d0, "0");
    let d2 = iris::generators::rust::types::gen_default_value(&computer.fields[2].t, &pkg)
        .expect("resolves");
    assert_eq!(d2, "Status::ACTIVE");
    let d1 = iris::generators::rust::types::gen_default_value(&computer.fields[1].t, &pkg)
        .expect("resolves");
    assert_eq!(d1, "Battery {\ncharge: 0.0,\n}\n");
}

#[test]
fn kronos_schema_flattens_nested_properties() {
    let pkg = parsed(SCHEMA);
    let k = iris::kronos::KronosCodeGen::generate(&pkg).expect("resolvable");
    assert_eq!(k.package, "telemetry");
    assert_eq!(k.size.len(), 2);
    let computer_size = k.size.iter().find(|p| p.0 == "Computer").unwrap().1;
    assert_eq!(computer_size, 16);
    let data = &k.data.iter().find(|p| p.0 == "Computer").unwrap().1;
    // Arrays are expanded index by index and embedded structs field by
    // field, in declaration order.
    assert_eq!(
        data.iter().map(|p| (p.0.as_str(), p.1.as_str())).collect::<Vec<_>>(),
        vec![
            ("id", "u32"),
            ("batteries[0].charge", "f32"),
            ("batteries[1].charge", "f32"),
            ("status", "Status"),
        ]
    );
}
