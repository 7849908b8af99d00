use wgsldoc::models::constant::Constant;
use wgsldoc::models::import::Import;
use wgsldoc::models::structure::Structure;
use wgsldoc::parser::WgslParser;

#[test]
fn plain_summary_is_the_rendered_text() {
    let structure = Structure::new(Some("Helper module".to_string()), "S".to_string(), vec![]);
    assert_eq!(structure.info_plain_text().summary.as_deref(), Some("Helper module"));
}

#[test]
fn plain_summary_drops_markup() {
    let constant = Constant::new(Some("# Title".to_string()), "C".to_string(), None, "1".to_string());
    assert_eq!(constant.info_plain_text().summary.as_deref(), Some("Title"));
}

#[test]
fn long_summaries_are_cut() {
    let docs = "a".repeat(300);
    let structure = Structure::new(Some(docs), "S".to_string(), vec![]);
    let summary = structure.info_plain_text().summary.unwrap();
    assert_eq!(summary, format!("{}...", "a".repeat(256)));
}

#[test]
fn rich_summary_is_html() {
    let shader = WgslParser::parse("m", "//! Some **bold** words\n").unwrap();
    let info = shader.info_rich_text();
    assert_eq!(info.name, "m");
    assert!(info.summary.unwrap().contains("<strong>bold</strong>"));
}

#[test]
fn import_docs_are_rendered() {
    let import = Import::new(Some("Utility *functions*".to_string()), "lib/utils.wgsl".to_string(), "U".to_string());
    assert_eq!(import.docs(), Some("Utility *functions*"));
    assert!(import.info_rich_text().summary.unwrap().contains("<em>functions</em>"));
    assert_eq!(import.module_name(), "utils");
}
