use rexisce::util::xml::Element;
use rexisce::xmpp::modules::file_upload::{FileUploadManager, NS_UPLOAD};
use rexisce::xmpp::modules::NS_CLIENT;

fn make_slot_result_iq(iq_id: &str, put_url: &str, get_url: &str, headers: &[(&str, &str)]) -> Element {
    let mut put = Element::new("put", NS_UPLOAD).with_attr("url", put_url);
    for (name, value) in headers {
        put.push_child(Element::new("header", NS_UPLOAD).with_attr("name", name).with_text(value));
    }
    let get_el = Element::new("get", NS_UPLOAD).with_attr("url", get_url);
    let slot_el = Element::new("slot", NS_UPLOAD).with_child(put).with_child(get_el);
    Element::new("iq", NS_CLIENT).with_attr("type", "result").with_attr("id", iq_id).with_child(slot_el)
}

fn make_error_iq(iq_id: &str) -> Element {
    Element::new("iq", NS_CLIENT).with_attr("type", "error").with_attr("id", iq_id)
}

fn request_child(el: &Element) -> &Element {
    el.children().iter().find(|c| c.name() == "request").expect("<request> child must exist")
}

#[test]
fn request_slot_registers_pending() {
    let mut mgr = FileUploadManager::new();
    let (id, _el) = mgr.request_slot("photo.jpg", 102400, "image/jpeg", "upload.example.com");
    assert!(mgr.is_pending(&id));
}

#[test]
fn request_slot_iq_has_correct_namespace() {
    let mut mgr = FileUploadManager::new();
    let (_id, el) = mgr.request_slot("photo.jpg", 102400, "image/jpeg", "upload.example.com");
    assert_eq!(request_child(&el).ns(), NS_UPLOAD);
}

#[test]
fn request_slot_iq_has_filename_size_content_type() {
    let mut mgr = FileUploadManager::new();
    let (_id, el) = mgr.request_slot("report.pdf", 20480, "application/pdf", "upload.example.com");
    let req = request_child(&el);
    assert_eq!(req.attr("filename"), Some("report.pdf"));
    assert_eq!(req.attr("size"), Some("20480"));
    assert_eq!(req.attr("content-type"), Some("application/pdf"));
}

#[test]
fn on_slot_result_parses_put_and_get_urls() {
    let mut mgr = FileUploadManager::new();
    let (id, _el) = mgr.request_slot("photo.jpg", 1024, "image/jpeg", "upload.example.com");
    let result_iq = make_slot_result_iq(&id, "https://upload.example.com/files/abc?sig=xyz", "https://cdn.example.com/files/abc", &[]);
    let slot = mgr.on_slot_result(&result_iq).expect("must parse slot");
    assert_eq!(slot.put_url, "https://upload.example.com/files/abc?sig=xyz");
    assert_eq!(slot.get_url, "https://cdn.example.com/files/abc");
}

#[test]
fn on_slot_result_parses_put_headers() {
    let mut mgr = FileUploadManager::new();
    let (id, _el) = mgr.request_slot("photo.jpg", 1024, "image/jpeg", "upload.example.com");
    let result_iq = make_slot_result_iq(
        &id,
        "https://upload.example.com/files/abc",
        "https://cdn.example.com/files/abc",
        &[("Authorization", "Basic dXNlcjpwYXNz"), ("Cookie", "session=abc123")],
    );
    let slot = mgr.on_slot_result(&result_iq).expect("must parse slot");
    assert_eq!(slot.put_headers.len(), 2);
    assert_eq!(slot.put_headers[0], ("Authorization".to_string(), "Basic dXNlcjpwYXNz".to_string()));
    assert_eq!(slot.put_headers[1], ("Cookie".to_string(), "session=abc123".to_string()));
}

#[test]
fn on_slot_result_clears_pending() {
    let mut mgr = FileUploadManager::new();
    let (id, _el) = mgr.request_slot("photo.jpg", 1024, "image/jpeg", "upload.example.com");
    let result_iq = make_slot_result_iq(&id, "https://upload.example.com/files/abc", "https://cdn.example.com/files/abc", &[]);
    mgr.on_slot_result(&result_iq);
    assert!(!mgr.is_pending(&id), "pending must be cleared after result");
}

#[test]
fn on_slot_error_clears_pending() {
    let mut mgr = FileUploadManager::new();
    let (id, _el) = mgr.request_slot("photo.jpg", 1024, "image/jpeg", "upload.example.com");
    let returned_id = mgr.on_slot_error(&make_error_iq(&id)).expect("must return id on error");
    assert_eq!(returned_id, id);
    assert!(!mgr.is_pending(&id), "pending must be cleared after error");
}

#[test]
fn is_pending_false_after_result() {
    let mut mgr = FileUploadManager::new();
    let (id, _el) = mgr.request_slot("video.mp4", 5_000_000, "video/mp4", "upload.example.com");
    assert!(mgr.is_pending(&id));
    let result_iq = make_slot_result_iq(&id, "https://upload.example.com/files/vid", "https://cdn.example.com/files/vid", &[]);
    mgr.on_slot_result(&result_iq);
    assert!(!mgr.is_pending(&id));
}

#[test]
fn multiple_concurrent_requests() {
    let mut mgr = FileUploadManager::new();
    let (id_a, _) = mgr.request_slot("a.jpg", 1024, "image/jpeg", "upload.example.com");
    let (id_b, _) = mgr.request_slot("b.png", 2048, "image/png", "upload.example.com");
    let (id_c, _) = mgr.request_slot("c.pdf", 4096, "application/pdf", "upload.example.com");
    assert!(mgr.is_pending(&id_a));
    assert!(mgr.is_pending(&id_b));
    assert!(mgr.is_pending(&id_c));
    let result_b = make_slot_result_iq(&id_b, "https://upload.example.com/files/b", "https://cdn.example.com/files/b", &[]);
    let slot_b = mgr.on_slot_result(&result_b).expect("slot_b must parse");
    assert_eq!(slot_b.get_url, "https://cdn.example.com/files/b");
    assert!(mgr.is_pending(&id_a));
    assert!(!mgr.is_pending(&id_b));
    assert!(mgr.is_pending(&id_c));
    mgr.on_slot_error(&make_error_iq(&id_c));
    assert!(mgr.is_pending(&id_a));
    assert!(!mgr.is_pending(&id_c));
}
