use poll_store::pages::{feedback_endpoint, new_poll_message, poll_url, render_page};

#[test]
fn feedback_message_prefixes_the_text() {
    let m = feedback_endpoint("love the site".to_string());
    assert_eq!(m, "NEW FEEDBACK: love the site".to_string());
}

#[test]
fn poll_url_embeds_the_id() {
    let u = poll_url(&"17".to_string());
    assert_eq!(u, "https://celeste.exposed/poll/17".to_string());
}

#[test]
fn new_poll_message_carries_the_url() {
    let m = new_poll_message(&"17".to_string());
    assert_eq!(m, "NEW POLL: https://celeste.exposed/poll/17".to_string());
}

#[test]
fn render_page_keeps_title_and_renders_markdown() {
    let p = render_page("index", "# Hello\n");
    assert_eq!(p.title, "index".to_string());
    assert_ne!(p.body, "# Hello\n".to_string());
    assert!(p.body.contains("<h1>"));
    assert!(p.body.contains("Hello"));
}

#[test]
fn render_page_renders_footnotes() {
    let p = render_page("note", "Hi[^x].\n\n[^x]: A greeting.\n");
    assert!(p.body.contains("footnote"));
}
