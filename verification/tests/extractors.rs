use icthub_server::imports::extractors::preview_file_name;
use icthub_server::imports::extractors::{
    append_limited, language_for_extension, non_empty, numeric_suffix, should_extract_plain_text,
    truncate_chars,
};

#[test]
fn sorts_numbered_office_parts_numerically() {
    assert!(numeric_suffix("ppt/slides/slide2.xml") < numeric_suffix("ppt/slides/slide10.xml"));
}

#[test]
fn identifies_common_source_languages() {
    assert_eq!(language_for_extension("rs"), Some("Rust"));
    assert_eq!(language_for_extension("tsx"), Some("TypeScript"));
    assert_eq!(language_for_extension("bin"), None);
}

#[test]
fn numeric_suffixes_and_limits() {
    assert_eq!(numeric_suffix("slide12.xml"), 12);
    assert_eq!(numeric_suffix("slide.xml"), usize::MAX);
    assert_eq!(truncate_chars("一二三四", 2), "一二");
    assert_eq!(non_empty("   ".to_owned()), None);
    let mut target = vec!['a'];
    append_limited(&mut target, &['b', 'c', 'd'], 3);
    assert_eq!(target, vec!['a', 'b', 'c']);
    assert!(should_extract_plain_text("docs/README.md", 10));
    assert!(!should_extract_plain_text("docs/README.md", 10 * 1024 * 1024));
}

#[test]
fn extracts_text_from_ooxml_namespaces() {
    let xml = r#"<w:document xmlns:w="urn:w"><w:body><w:p><w:r><w:t>项目名称</w:t></w:r><w:r><w:t>测试平台</w:t></w:r></w:p></w:body></w:document>"#;
    assert_eq!(
        icthub_server::imports::ooxml::extract_xml_text(xml.as_bytes()),
        Some("项目名称 测试平台".to_owned())
    );
}

#[test]
fn ooxml_paragraphs_end_in_line_breaks_and_ignore_other_text() {
    let xml = r#"<doc><p><t> one </t><x>skipped</x></p><p><t>two</t></p></doc>"#;
    assert_eq!(
        icthub_server::imports::ooxml::extract_xml_text(xml.as_bytes()),
        Some("one\ntwo".to_owned())
    );
}

#[test]
fn broken_ooxml_is_refused() {
    assert_eq!(
        icthub_server::imports::ooxml::extract_xml_text(b"<a><t>x</t></b>"),
        None
    );
}

#[test]
fn slide_and_note_headings() {
    let mut text: Vec<char> = Vec::new();
    icthub_server::imports::ooxml::append_slide_text(&mut text, 0, "标题");
    icthub_server::imports::ooxml::append_slide_text(&mut text, 1, "   ");
    icthub_server::imports::ooxml::append_note_text(&mut text, "备注");
    let s: String = text.iter().collect();
    assert_eq!(s, "\n[第 1 页]\n标题\n[演讲者备注]\n备注");
}

#[test]
fn word_parts_are_sorted_and_unique() {
    let names = vec![
        "word/footer1.xml".to_owned(),
        "word/styles.xml".to_owned(),
        "word/header2.xml".to_owned(),
        "word/document.xml".to_owned(),
        "word/header1.xml".to_owned(),
        "word/header1.xml.rels".to_owned(),
    ];
    assert_eq!(
        icthub_server::imports::ooxml::docx_parts(&names),
        vec![
            "word/document.xml".to_owned(),
            "word/footer1.xml".to_owned(),
            "word/header1.xml".to_owned(),
            "word/header2.xml".to_owned(),
        ]
    );
}

#[test]
fn slides_are_ordered_by_number() {
    let names = vec![
        "ppt/slides/slide10.xml".to_owned(),
        "ppt/slides/_rels/slide1.xml.rels".to_owned(),
        "ppt/slides/slide2.xml".to_owned(),
        "ppt/notesSlides/notesSlide1.xml".to_owned(),
        "ppt/slides/slide1.xml".to_owned(),
    ];
    assert_eq!(
        icthub_server::imports::ooxml::series_parts(&names, "ppt/slides/slide"),
        vec![
            "ppt/slides/slide1.xml".to_owned(),
            "ppt/slides/slide2.xml".to_owned(),
            "ppt/slides/slide10.xml".to_owned(),
        ]
    );
    assert_eq!(
        icthub_server::imports::ooxml::series_parts(&names, "ppt/notesSlides/notesSlide"),
        vec!["ppt/notesSlides/notesSlide1.xml".to_owned()]
    );
}

#[test]
fn counts_non_blank_lines() {
    assert_eq!(icthub_server::imports::ooxml::paragraph_count("a\n\n  \nb\r\nc\n"), 3);
    assert_eq!(icthub_server::imports::ooxml::paragraph_count(""), 0);
}

#[test]
fn preview_files_are_named_by_the_path_checksum() {
    assert_eq!(preview_file_name("abc"), "preview-ba7816bf8f01cfea.jpg");
}
