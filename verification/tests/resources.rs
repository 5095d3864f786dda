use icthub_server::checksum::{agent_input_checksum, sha256_of_text, FileDigest};
use icthub_server::error::AppError;
use icthub_server::resources::{
    check_import_previewable, check_previewable, hash_token, import_artifact_location,
    import_preview_path, infer_preview_kind, is_safe_relative_path, preview_asset_path,
    public_preview_url, resource_preview_path, served_mime_type, mime_type_of, storage_key,
    stored_file_name,
};
use icthub_server::ids::{fresh_id, fresh_preview_token};

#[test]
fn storage_paths_reject_traversal() {
    assert!(is_safe_relative_path("project/resource/original.pdf"));
    assert!(!is_safe_relative_path("../secret"));
    assert!(!is_safe_relative_path("C:/secret"));
}

#[test]
fn common_documents_get_preview_kinds() {
    assert_eq!(infer_preview_kind("report.pdf", None), "pdf");
    assert_eq!(infer_preview_kind("report.docx", None), "docx");
    assert_eq!(infer_preview_kind("poster.png", None), "image");
}

#[test]
fn other_preview_kinds() {
    assert_eq!(infer_preview_kind("clip.MOV", None), "video");
    assert_eq!(infer_preview_kind("main.rs", None), "code");
    assert_eq!(infer_preview_kind("scan", Some("image/tiff")), "image");
    assert_eq!(infer_preview_kind("data.bin", None), "download");
}

#[test]
fn keys_tokens_and_links() {
    assert_eq!(storage_key("p", "r", "original.pdf"), "p/r/original.pdf");
    assert_eq!(
        hash_token("abc"),
        "ba7816bf8f01cfea414140de5dae2223b00361a396177a9cb410ff61f20015ad"
    );
    assert_eq!(public_preview_url(&Some("https://preview.test".to_owned()), "/x"), "https://preview.test/x");
    assert_eq!(public_preview_url(&None, "/x"), "/x");
    assert_eq!(resource_preview_path("tok", &None), "/api/v1/resource-previews/tok/index.html");
    assert_eq!(import_preview_path("tok", "deck/index.HTML"), "/api/v1/import-previews/tok/index.HTML");
    assert!(check_previewable(&Some("html_bundle".to_owned())).is_ok());
    assert!(matches!(check_previewable(&Some("pdf".to_owned())), Err(AppError::BadRequest(_))));
    assert!(check_import_previewable("presentation", "deck/index.HTML").is_ok());
    assert!(check_import_previewable("document", "deck/index.html").is_err());
    assert_eq!(preview_asset_path(Some(String::new()), Some("index.html".to_owned())).unwrap(), "index.html");
    assert!(matches!(preview_asset_path(Some("../x".to_owned()), None), Err(AppError::NotFound)));
    assert!(matches!(preview_asset_path(None, None), Err(AppError::NotFound)));
}

#[test]
fn import_files_and_stored_names() {
    let (root, path) = import_artifact_location("/data/jobs/j1", "analysis/previews/a.jpg").unwrap();
    assert_eq!((root.as_str(), path.as_str()), ("/data/jobs/j1", "/data/jobs/j1/analysis/previews/a.jpg"));
    let (root, path) = import_artifact_location("/data/jobs/j1", "src/main.rs").unwrap();
    assert_eq!((root.as_str(), path.as_str()), ("/data/jobs/j1/extracted", "/data/jobs/j1/extracted/src/main.rs"));
    assert!(matches!(import_artifact_location("/data", "../x"), Err(AppError::NotFound)));
    assert_eq!(stored_file_name("docs/Report.PDF"), "original.pdf");
    assert_eq!(stored_file_name("docs/Makefile"), "original");
}

#[test]
fn media_types_come_from_the_store_or_the_name() {
    assert_eq!(served_mime_type(None, "slides/a.png"), "image/png");
    assert_eq!(served_mime_type(None, "notes.unknownext"), "application/octet-stream");
    assert_eq!(served_mime_type(Some("text/x-own".to_owned()), "a.png"), "text/x-own");
    assert_eq!(mime_type_of(None, "doc.pdf"), Some("application/pdf".to_owned()));
    assert_eq!(mime_type_of(None, "noext"), None);
}

#[test]
fn fresh_ids_and_tokens_differ() {
    let a = fresh_id();
    let b = fresh_id();
    assert_eq!(a.len(), 36);
    assert_ne!(a, b);
    for (i, c) in a.chars().enumerate() {
        if [8, 13, 18, 23].contains(&i) {
            assert_eq!(c, '-');
        } else {
            assert!(c.is_ascii_digit() || ('a'..='f').contains(&c));
        }
    }
    assert_eq!(a.chars().nth(14), Some('4'));
    let token = fresh_preview_token();
    assert_eq!(token.len(), 64);
    assert!(token.chars().all(|c| c.is_ascii_digit() || ('a'..='f').contains(&c)));
    assert_eq!(token.chars().nth(12), Some('4'));
    assert_eq!(token.chars().nth(44), Some('4'));
    assert_ne!(token, fresh_preview_token());
}

#[test]
fn file_checksums_follow_the_bytes_fed() {
    let mut digest = FileDigest::new();
    digest.update(b"a");
    digest.update(b"bc");
    assert_eq!(digest.finish(), "ba7816bf8f01cfea414140de5dae2223b00361a396177a9cb410ff61f20015ad");
    assert_eq!(
        FileDigest::new().finish(),
        "e3b0c44298fc1c149afbf4c8996fb92427ae41e4649b934ca495991b7852b855"
    );
    assert_eq!(sha256_of_text("abc"), hash_token("abc"));
    assert_eq!(agent_input_checksum(b"ab", "c"), sha256_of_text("abc"));
}
