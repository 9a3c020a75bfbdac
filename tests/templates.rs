use librarian::markdown::MdFormatConfig;

#[test]
fn default_templates() {
    let config = MdFormatConfig::default();
    assert_eq!(config.system, "# {{name}}");
    assert_eq!(config.category, "- {{full_id id}} {{topic}}");
    assert_eq!(config.markdown, "---\ntags: [johnny-decimal, Librarian]\n---");
    assert!(config.folder.starts_with("  - {{#if (is_folder kind)}}"));
    assert!(config.xfolder.starts_with("    - {{#if (is_folder kind)}}"));
    assert_eq!(
        config.area,
        "## {{id}}.{{start id_range}}-{{end id_range}} {{topic}}"
    );
}
