use wgsldoc::models::function::FunctionType;
use wgsldoc::models::DeclKind;
use wgsldoc::models::import::Import;
use wgsldoc::models::types::{ImportModule, Type};
use wgsldoc::parser::error::ParsingError;
use wgsldoc::parser::{Rule, WgslParser};
use wgsldoc::{classify_path, Document, FileData, InputKind, SourceFile};

fn module(path: &str, text: &str) -> SourceFile {
    SourceFile {
        path: path.to_string(),
        data: FileData::Text(text.to_string()),
    }
}

#[test]
fn empty_module_has_nothing() {
    let shader = WgslParser::parse("empty", "").unwrap();
    assert!(shader.imports.is_empty());
    assert!(shader.functions.is_empty());
    assert!(shader.structures.is_empty());
    assert!(shader.constants.is_empty());
    assert!(shader.bindings.is_empty());
    assert!(shader.global_docs.is_none());
    assert_eq!(shader.source_code, "");
}

#[test]
fn doc_lines_join_with_newlines() {
    let shader = WgslParser::parse("m", "/// Line one\n/// Line two\nfn f() {}").unwrap();
    assert_eq!(shader.functions[0].docs(), Some("Line one\nLine two"));
}

#[test]
fn leading_empty_doc_lines_are_dropped() {
    let shader = WgslParser::parse("m", "///\n/// Body\nstruct S { x: f32 }").unwrap();
    assert_eq!(shader.structures[0].docs(), Some("Body"));
    let empty = WgslParser::parse("m", "///\nstruct S { x: f32 }").unwrap();
    assert_eq!(empty.structures[0].docs(), None);
}

#[test]
fn global_docs_accumulate() {
    let shader = WgslParser::parse("m", "//! First\n//! Second\nfn f() {}").unwrap();
    assert_eq!(shader.global_docs.as_deref(), Some("First\nSecond"));
}

#[test]
fn field_and_argument_docs_are_kept() {
    let shader = WgslParser::parse(
        "m",
        "struct P {\n  /// The x\n  x: f32,\n}\nfn f(\n  /// The value\n  v: f32) {}",
    )
    .unwrap();
    assert_eq!(shader.structures[0].fields()[0].docs(), Some("The x"));
    assert_eq!(shader.functions[0].args()[0].docs(), Some("The value"));
}

#[test]
fn first_duplicate_structure_wins() {
    let shader = WgslParser::parse("m", "struct Point{x:f32,}\nstruct Point{y:f32,}").unwrap();
    assert_eq!(shader.structures.len(), 1);
    assert_eq!(shader.structures[0].name(), "Point");
    assert_eq!(shader.structures[0].fields().len(), 1);
    assert_eq!(shader.structures[0].fields()[0].name(), "x");
    assert_eq!(shader.duplicates.len(), 1);
    assert_eq!(shader.duplicates[0].kind, DeclKind::Structure);
    assert_eq!(shader.duplicates[0].name, "Point");
}

#[test]
fn first_duplicate_import_and_field_win() {
    let shader = WgslParser::parse(
        "m",
        "#import a.wgsl as U;\n#import b.wgsl as U;\nstruct S { x: f32, x: i32 }",
    )
    .unwrap();
    assert_eq!(shader.imports.len(), 1);
    assert_eq!(shader.imports[0].path(), "a.wgsl");
    assert_eq!(shader.structures[0].fields().len(), 1);
    assert!(matches!(shader.structures[0].fields()[0].field_type(), Type::Primitive(_)));
}

#[test]
fn plain_comment_is_not_documentation() {
    let shader = WgslParser::parse("m", "// just a note\nfn f() {}").unwrap();
    assert!(shader.functions[0].docs().is_none());
}

#[test]
fn imported_type_resolves_to_its_import() {
    let files = vec![
        module("shaders/utils.wgsl", "struct Camera { pos: vec3<f32> }"),
        module(
            "shaders/main.wgsl",
            "#import utils.wgsl as Utils;\nstruct Scene { camera: Utils::Camera }",
        ),
    ];
    let doc = Document::new("pkg", &files).unwrap().register();
    let main = &doc.shaders()[1];
    assert!(main.imports[0].registered());
    match main.structures[0].fields()[0].field_type() {
        Type::Path(p) => assert_eq!(*p.import_module(), ImportModule::Named("Utils".to_string())),
        _ => panic!("expected a path type"),
    }
}

#[test]
fn missing_import_stays_unregistered() {
    let files = vec![module(
        "main.wgsl",
        "#import other.wgsl as O;\nstruct S { c: O::Camera }",
    )];
    let doc = Document::new("pkg", &files).unwrap().register();
    let main = &doc.shaders()[0];
    assert!(!main.imports[0].registered());
    match main.structures[0].fields()[0].field_type() {
        Type::Path(p) => assert_eq!(*p.import_module(), ImportModule::Undefined),
        _ => panic!("expected a path type"),
    }
}

#[test]
fn same_module_type_resolves_to_this() {
    let files = vec![module(
        "geo.wgsl",
        "struct Point{x:f32,y:f32,}\nfn len(p: Point, q: ptr<function, Point>) -> Point {}",
    )];
    let doc = Document::new("pkg", &files).unwrap().register();
    let f = &doc.shaders()[0].functions[0];
    match f.args()[0].argument_type() {
        FunctionType::Path(p) => assert_eq!(*p.import_module(), ImportModule::This),
        _ => panic!("expected a path type"),
    }
    match f.args()[1].argument_type() {
        FunctionType::FunctionPointer(Type::Path(p)) => {
            assert_eq!(*p.import_module(), ImportModule::This)
        }
        _ => panic!("expected a pointer to a path type"),
    }
    match f.return_type() {
        Some(Type::Path(p)) => assert_eq!(*p.import_module(), ImportModule::This),
        _ => panic!("expected a path return type"),
    }
}

#[test]
fn unknown_type_stays_undefined() {
    let files = vec![module(
        "m.wgsl",
        "fn helper() {}\nstruct A { b: Unknown, c: Missing::Thing, d: helper }",
    )];
    let doc = Document::new("pkg", &files).unwrap().register();
    for field in doc.shaders()[0].structures[0].fields() {
        match field.field_type() {
            Type::Path(p) => assert_eq!(*p.import_module(), ImportModule::Undefined),
            _ => panic!("expected a path type"),
        }
    }
}

#[test]
fn unterminated_structure_is_a_syntax_error() {
    let result = WgslParser::parse("m", "struct Point{x:f32,y:f32");
    assert!(matches!(result, Err(ParsingError::InputParsingError(_))));
}

#[test]
fn function_without_body_is_a_syntax_error() {
    let result = WgslParser::parse("m", "fn test()");
    assert!(matches!(result, Err(ParsingError::InputParsingError(_))));
}

#[test]
fn syntax_error_reports_its_position() {
    match WgslParser::parse("m", "fn f() {}\n  struct {") {
        Err(ParsingError::InputParsingError(e)) => {
            assert_eq!(e.position, 12);
            assert_eq!(e.line, 2);
            assert_eq!(e.column, 3);
        }
        _ => panic!("expected a syntax error"),
    }
}

#[test]
fn non_numeric_group_defaults_to_zero() {
    let shader =
        WgslParser::parse("m", "@group(abc) @binding(2) var<uniform> data: f32;").unwrap();
    assert_eq!(shader.bindings.len(), 1);
    assert_eq!(shader.bindings[0].attr_group, 0);
    assert_eq!(shader.bindings[0].attr_binding, 2);
}

#[test]
fn group_numbers_are_read() {
    let shader = WgslParser::parse(
        "m",
        "@group(7) @binding(65535) var a: f32;\n@group(70000) var b: f32;\nvar c: f32;",
    )
    .unwrap();
    assert_eq!(shader.bindings[0].attr_group, 7);
    assert_eq!(shader.bindings[0].attr_binding, 65535);
    assert_eq!(shader.bindings[1].attr_group, 0);
    assert_eq!(shader.bindings[2].attr_group, 0);
    assert_eq!(shader.bindings[2].attr_binding, 0);
}

#[test]
fn constants_keep_their_value_text() {
    let shader =
        WgslParser::parse("m", "const PI: f32 = 3.14159;\nconst V = vec3<f32>(1.0, 2.0) ;").unwrap();
    assert_eq!(shader.constants[0].value(), "3.14159");
    assert!(shader.constants[0].constant_type().is_some());
    assert_eq!(shader.constants[1].value(), "vec3<f32>(1.0, 2.0)");
    assert!(shader.constants[1].constant_type().is_none());
}

#[test]
fn path_types_keep_module_and_name() {
    let shader = WgslParser::parse("m", "struct S { a: Utils::Array<f32>, b: vec2<u32>, c: i64 }")
        .unwrap();
    let fields = shader.structures[0].fields();
    match fields[0].field_type() {
        Type::Path(p) => {
            assert_eq!(p.module(), Some("Utils"));
            assert_eq!(p.name(), "Array");
        }
        _ => panic!("expected a path type"),
    }
    assert_eq!(fields[1].field_type().rendered_type(&[], false).name, "vec2&lt;u32&gt;");
    assert_eq!(fields[2].field_type().rendered_type(&[], false).name, "i64");
}

#[test]
fn rendered_type_names_the_import_stem() {
    let files = vec![
        module("lib/math.wgsl", "struct V { x: f32 }"),
        module("main.wgsl", "#import lib/math.wgsl as M;\nfn f(v: M::V) {}"),
    ];
    let doc = Document::new("pkg", &files).unwrap().register();
    let main = &doc.shaders()[1];
    let rendered = main.functions[0].rendered_args(&main.imports);
    assert_eq!(rendered[0].ty.import.as_deref(), Some("math"));
    assert_eq!(rendered[0].ty.module.as_deref(), Some("M"));
    assert!(!rendered[0].ty.is_this);
}

#[test]
fn classify_paths() {
    assert_eq!(classify_path("a/b/shader.wgsl"), InputKind::Module);
    assert_eq!(classify_path("a/.hidden.wgsl"), InputKind::HiddenModule);
    assert_eq!(classify_path("docs/README.md"), InputKind::Readme);
    assert_eq!(classify_path("favicon.png"), InputKind::Favicon);
    assert_eq!(classify_path("notes.txt"), InputKind::Other);
    assert_eq!(classify_path(".wgsl"), InputKind::Other);
}

#[test]
fn hidden_modules_are_registered_not_parsed() {
    let files = vec![
        module(".hidden.wgsl", "this is not valid {{{{"),
        module("visible.wgsl", "fn visible() {}"),
        module("README.md", "# Title"),
        SourceFile {
            path: "favicon.png".to_string(),
            data: FileData::Bytes(vec![1, 2, 3]),
        },
    ];
    let doc = Document::new("pkg", &files).unwrap();
    assert_eq!(doc.shaders().len(), 1);
    assert_eq!(doc.shaders()[0].module_name, "visible");
    assert_eq!(doc.file_registry().len(), 2);
    assert_eq!(doc.readme(), Some("# Title"));
    assert_eq!(doc.favicon(), Some(&vec![1u8, 2, 3]));
}

#[test]
fn invalid_module_fails_the_document() {
    let files = vec![module("bad.wgsl", "this is not valid WGSL syntax {{{{")];
    assert!(Document::new("pkg", &files).is_err());
}

#[test]
fn rule_mismatches_fail() {
    assert!(WgslParser::parse_rule(Rule::TYPE, "").is_err());
    assert!(WgslParser::parse_rule(Rule::PRIMITIVE, "f33").is_err());
    assert!(WgslParser::parse_rule(Rule::VECTOR_DIMENSION, "5").is_err());
    assert!(WgslParser::parse_rule(Rule::STRUCTURE, "struct P { x }").is_err());
    assert_eq!(WgslParser::parse_rule(Rule::IDENT, "abc def").unwrap(), 3);
}

#[test]
fn pointer_argument_keeps_its_target_type() {
    let shader = WgslParser::parse("m", "fn f(p: ptr<function, vec3<f32>>) {}").unwrap();
    match shader.functions[0].args()[0].argument_type() {
        FunctionType::FunctionPointer(Type::Vector(v)) => {
            assert_eq!(v.to_string(), "vec3&lt;f32&gt;")
        }
        _ => panic!("expected a pointer to a vector"),
    }
}

#[test]
fn binding_with_bad_group_keeps_name_and_binding() {
    let shader = WgslParser::parse("m", "@group(abc) @binding(1) var<uniform> buf: f32;").unwrap();
    assert_eq!(shader.bindings.len(), 1);
    assert_eq!(shader.bindings[0].name(), "buf");
    assert_eq!(shader.bindings[0].attr_group, 0);
    assert_eq!(shader.bindings[0].attr_binding, 1);
}

#[test]
fn import_docs_are_kept_as_written() {
    let shader = WgslParser::parse("m", "/// One\n/// Two\n#import lib/u.wgsl as U;").unwrap();
    assert_eq!(shader.imports[0].docs(), Some("One\nTwo"));
    assert_eq!(shader.imports[0].path(), "lib/u.wgsl");
    assert_eq!(shader.imports[0].name(), "U");
}

#[test]
fn file_stems_follow_path_components() {
    let a = Import::new(None, "lib/dir/".to_string(), "A".to_string());
    assert_eq!(a.module_name(), "dir");
    let b = Import::new(None, "lib/..".to_string(), "B".to_string());
    assert_eq!(b.module_name(), "");
    let c = Import::new(None, "lib/x.wgsl/.".to_string(), "C".to_string());
    assert_eq!(c.module_name(), "x");
    assert_eq!(classify_path("a/b.wgsl/"), InputKind::Module);
}
