//! Page and notification text building: the computing half of the site
//! glue around the poll core.  Reading files, sending notifications and
//! template rendering live outside; this module turns plain values into
//! the exact strings handed to them.

use vstd::prelude::*;

verus! {

/// A rendered page: title and HTML body, ready for the template layer.
pub struct Page {
    pub title: String,
    pub body: String,
}

/// The HTML that comrak's renderer produces for a markdown text under the
/// fixed options used here: a function of the text alone.
pub uninterp spec fn html_of(md: Seq<char>) -> Seq<char>;

/// Relies on comrak::markdown_to_html: renders markdown to HTML, a pure
/// function of the input text and the options passed (here fixed: the
/// footnotes extension enabled).
#[verifier::external_body]
fn render_markdown(md: &str) -> (r: String)
    ensures
        r@ == html_of(md@),
{
    let mut options = comrak::Options::default();
    options.extension.footnotes = true;
    comrak::markdown_to_html(md, &options)
}

/// Build the page record for a markdown source: the title as given, the
/// body rendered to HTML.
pub fn render_page(title: &str, markdown: &str) -> (p: Page)
    ensures
        p.title@ == title@,
        p.body@ == html_of(markdown@),
{
    Page { title: String::from_str(title), body: render_markdown(markdown) }
}

/// The notification line sent when a visitor submits feedback.
pub fn feedback_endpoint(feedback: String) -> (m: String)
    ensures
        m@ == "NEW FEEDBACK: "@ + feedback@,
{
    let mut m = String::from_str("NEW FEEDBACK: ");
    m.append(feedback.as_str());
    m
}

/// The shareable URL for a poll id.
pub fn poll_url(poll_id: &String) -> (u: String)
    ensures
        u@ == "https://celeste.exposed/poll/"@ + poll_id@,
{
    let mut u = String::from_str("https://celeste.exposed/poll/");
    u.append(poll_id.as_str());
    u
}

/// The notification line sent when a poll is created.
pub fn new_poll_message(poll_id: &String) -> (m: String)
    ensures
        m@ == "NEW POLL: "@ + "https://celeste.exposed/poll/"@ + poll_id@,
{
    let mut m = String::from_str("NEW POLL: ");
    let url = poll_url(poll_id);
    m.append(url.as_str());
    proof {
        assert(m@ =~= "NEW POLL: "@ + "https://celeste.exposed/poll/"@ + poll_id@);
    }
    m
}

} // verus!
