use gemini_crawler::export::{format_flag, node_attributes, output_format, ExportError};
use gemini_crawler::resource::Resource;

#[test]
fn node_attributes_spell_label_group_and_font() {
    let r = Resource::parse("gemini://example.org/a/b?q").unwrap();
    assert_eq!(
        node_attributes(&r).unwrap(),
        "label=\"example.org/a/b\" group=\"example.org\" fontname=\"monospace\""
    );
    let bare = Resource::parse("gemini://example.org").unwrap();
    assert_eq!(
        node_attributes(&bare).unwrap(),
        "label=\"example.org\" group=\"example.org\" fontname=\"monospace\""
    );
}

#[test]
fn node_attributes_need_a_domain() {
    let r = Resource::parse("gemini://[::1]/a").unwrap();
    assert_eq!(node_attributes(&r).unwrap_err(), ExportError::MissingDomain);
}

#[test]
fn format_flag_names_the_extension() {
    assert_eq!(format_flag(Some("svg".to_string())).unwrap(), "-Tsvg");
    assert_eq!(format_flag(Some(String::new())).unwrap(), "-T");
    assert_eq!(format_flag(None).unwrap_err(), ExportError::MissingExtension);
}

#[test]
fn output_format_reads_the_extension_of_the_file() {
    assert_eq!(output_format("web.svg").unwrap(), "-Tsvg");
    assert_eq!(output_format("out/graph.v2.png").unwrap(), "-Tpng");
    assert_eq!(output_format("web").unwrap_err(), ExportError::MissingExtension);
    assert_eq!(output_format(".hidden").unwrap_err(), ExportError::MissingExtension);
    assert_eq!(output_format("").unwrap_err(), ExportError::MissingExtension);
}
