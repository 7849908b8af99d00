use wgsldoc::{Document, FileData, SourceFile};

#[test]
fn test_document_new_empty() {
    let result = Document::new("test_project", &[] as &[SourceFile]);
    assert!(result.is_ok());
    let doc = result.unwrap();
    assert_eq!(doc.pkg_name(), "test_project");
    assert_eq!(doc.shaders().len(), 0);
}

#[test]
fn test_document_with_test_shaders() {
    let paths = vec![SourceFile {
        path: "test_shaders/ray.wgsl".to_string(),
        data: FileData::Unread,
    }];

    let result = Document::new("test_project", &paths);
    if let Ok(doc) = result {
        assert_eq!(doc.pkg_name(), "test_project");
        assert!(!doc.shaders().is_empty());
    }
}

fn text(path: &str, contents: &str) -> SourceFile {
    SourceFile {
        path: path.to_string(),
        data: FileData::Text(contents.to_string()),
    }
}

#[test]
fn test_document_open_directory() {
    let files = vec![text("tmp/test.wgsl", "fn test() {}")];
    let result = Document::new("test_project", &files);
    assert!(result.is_ok());

    let doc = result.unwrap();
    assert_eq!(doc.pkg_name(), "test_project");
    assert_eq!(doc.shaders().len(), 1);
    assert_eq!(doc.shaders()[0].module_name, "test");
}

#[test]
fn test_document_ignores_non_wgsl_files() {
    let files = vec![
        text("tmp/shader.wgsl", "fn test() {}"),
        SourceFile { path: "tmp/readme.txt".to_string(), data: FileData::Unread },
        SourceFile { path: "tmp/data.json".to_string(), data: FileData::Unread },
    ];
    let result = Document::new("test_project", &files);
    assert!(result.is_ok());

    let doc = result.unwrap();
    assert_eq!(doc.shaders().len(), 1);
}

#[test]
fn test_document_with_readme() {
    let files = vec![
        text("tmp/README.md", "# Test Project\n\nThis is a test."),
        text("tmp/test.wgsl", "fn test() {}"),
    ];
    let result = Document::new("test_project", &files);
    assert!(result.is_ok());

    let doc = result.unwrap();
    assert!(doc.readme().is_some());
    assert!(doc.readme().unwrap().contains("Test Project"));
}

#[test]
fn test_document_with_favicon() {
    let png_data = vec![0x89, 0x50, 0x4E, 0x47, 0x0D, 0x0A, 0x1A, 0x0A];
    let files = vec![
        SourceFile { path: "tmp/favicon.png".to_string(), data: FileData::Bytes(png_data) },
        text("tmp/test.wgsl", "fn test() {}"),
    ];
    let result = Document::new("test_project", &files);
    assert!(result.is_ok());

    let doc = result.unwrap();
    assert!(!doc.favicon().unwrap().is_empty());
}

#[test]
fn test_document_ignores_hidden_files() {
    let files = vec![
        SourceFile { path: "tmp/.hidden.wgsl".to_string(), data: FileData::Unread },
        text("tmp/visible.wgsl", "fn visible() {}"),
    ];
    let result = Document::new("test_project", &files);
    assert!(result.is_ok());

    let doc = result.unwrap();
    assert_eq!(doc.shaders().len(), 1);
    assert_eq!(doc.shaders()[0].module_name, "visible");
}

#[test]
fn test_document_register() {
    let files = vec![text("tmp/test.wgsl", "fn test() {}")];
    let doc = Document::new("test_project", &files).unwrap();
    let registered = doc.register();

    assert_eq!(registered.pkg_name(), "test_project");
    assert_eq!(registered.shaders().len(), 1);
}

#[test]
fn test_document_multiple_shaders() {
    let files = vec![
        text("tmp/shader1.wgsl", "fn func1() {}"),
        text("tmp/shader2.wgsl", "fn func2() {}"),
        text("tmp/shader3.wgsl", "fn func3() {}"),
    ];
    let result = Document::new("test_project", &files);
    assert!(result.is_ok());

    let doc = result.unwrap();
    assert_eq!(doc.shaders().len(), 3);
    assert_eq!(doc.shaders()[0].module_name, "shader1");
    assert_eq!(doc.shaders()[2].module_name, "shader3");
}

#[test]
fn test_document_file_registry() {
    let files = vec![text("tmp/test.wgsl", "fn test() {}")];
    let doc = Document::new("test_project", &files).unwrap();

    assert_eq!(doc.file_registry().len(), 1);
    assert!(doc.file_registry().iter().any(|p| p.ends_with("test.wgsl")));
}

#[test]
fn test_document_with_complex_shader() {
    let shader_code = r#"
//! Module documentation

struct Point {
    x: f32,
    y: f32,
}

fn distance(a: Point, b: Point) -> f32 {
    let dx = a.x - b.x;
    let dy = a.y - b.y;
    return sqrt(dx * dx + dy * dy);
}
"#;
    let files = vec![text("tmp/complex.wgsl", shader_code)];
    let result = Document::new("test_project", &files);
    assert!(result.is_ok());

    let doc = result.unwrap();
    assert_eq!(doc.shaders().len(), 1);

    let shader = &doc.shaders()[0];
    assert!(shader.global_docs.is_some());
    assert_eq!(shader.structures.len(), 1);
    assert_eq!(shader.functions.len(), 1);
}

#[test]
fn test_registered_document_accessors() {
    let files = vec![text("tmp/test.wgsl", "fn test() {}")];
    let doc = Document::new("test_project", &files).unwrap();
    let registered = doc.register();

    assert_eq!(registered.pkg_name(), "test_project");
    assert!(!registered.shaders().is_empty());
    assert!(!registered.file_registry().is_empty());
    assert!(registered.readme().is_none());
    assert!(registered.favicon().is_none());
}

#[test]
fn test_document_invalid_wgsl_file() {
    let files = vec![text("tmp/invalid.wgsl", "this is not valid WGSL syntax {{{{")];
    let result = Document::new("test_project", &files);
    assert!(result.is_err());
}

#[test]
fn last_readme_and_favicon_win() {
    let files = vec![
        text("a/README.md", "first"),
        SourceFile { path: "a/favicon.png".to_string(), data: FileData::Bytes(vec![1]) },
        text("b/README.md", "second"),
        SourceFile { path: "b/favicon.png".to_string(), data: FileData::Bytes(vec![2]) },
    ];
    let doc = Document::new("p", &files).unwrap();
    assert_eq!(doc.readme(), Some("second"));
    assert_eq!(doc.favicon(), Some(&vec![2u8]));
}
