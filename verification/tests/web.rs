use presence_relay::error::AppError;
use presence_relay::web::{StaticReply, TemplateStore};

fn store_with_index(body: &str) -> TemplateStore {
    let mut store = TemplateStore::new();
    store.add("index.html".to_string(), body.to_string());
    store
}

#[test]
fn get_template_finds_stored_content() {
    let mut store = TemplateStore::new();
    store.add("index.html".to_string(), "<html></html>".to_string());
    store.add("other.html".to_string(), "<p>hi</p>".to_string());
    assert_eq!(store.get_template("index.html"), Ok("<html></html>".to_string()));
    assert_eq!(store.get_template("other.html"), Ok("<p>hi</p>".to_string()));
}

#[test]
fn get_template_reports_missing_files() {
    let store = TemplateStore::new();
    assert_eq!(
        store.get_template("index.html"),
        Err(AppError::Error("File not found".to_string()))
    );
}

#[test]
fn index_page_substitutes_the_key() {
    let store = store_with_index("key is {{API_KEY}}!");
    let page = store.index_page("1234-abcd").unwrap();
    assert_eq!(page, "key is 1234-abcd!");
}

#[test]
fn index_page_without_template_fails() {
    let store = TemplateStore::new();
    assert_eq!(
        store.index_page("1234-abcd"),
        Err(AppError::Error("File not found".to_string()))
    );
}

#[test]
fn index_page_reports_renderer_errors() {
    let store = store_with_index("{{#if}}broken");
    match store.index_page("1234-abcd") {
        Err(AppError::Error(m)) => assert!(!m.is_empty()),
        other => panic!("expected a renderer error, got {:?}", other),
    }
}

#[test]
fn found_static_files_get_type_and_cache_header() {
    match presence_relay::web::plan_static_reply("app.html", true) {
        StaticReply::File { content_type, cache_control } => {
            assert_eq!(content_type, "text/html");
            assert_eq!(cache_control, "max-age=31536000");
        },
        other => panic!("expected a file plan, got {:?}", other),
    }
    match presence_relay::web::plan_static_reply("data.bin.zzz", true) {
        StaticReply::File { content_type, .. } => {
            assert_eq!(content_type, "application/octet-stream");
        },
        other => panic!("expected a file plan, got {:?}", other),
    }
}

#[test]
fn missing_static_files_are_not_found() {
    assert_eq!(presence_relay::web::plan_static_reply("nope.css", false), StaticReply::NotFound);
}
