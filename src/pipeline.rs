//! What happens to each seed URL: pages of single-page applications are
//! skipped; other pages are fetched, converted and written under a root.
use vstd::prelude::*;
use crate::dom::document_events;
use crate::dom::trees_of_events;
use crate::markdown::{html_to_markdown, md_forest};
use crate::paths::{host_of, host_or_empty, output_path, slug_spec};
use crate::policy::{HostRenderPolicy, RenderMode};

verus! {

/// The directory that Markdown files are written to unless another is configured.
pub const OUTPUT_ROOT: &'static str = "output/";

/// What to do with one seed URL.
pub enum PageAction {
    /// The host is a single-page application: nothing is fetched or written.
    Skip,
    /// Fetch this URL and hand its response to `page_output`.
    Fetch(String),
}

/// Decides, by the host of `url` (empty when it has none), whether the page
/// is fetched.
pub fn plan_page(policy: &HostRenderPolicy, url: &str) -> (r: PageAction)
    ensures
        policy.mode_of(host_or_empty(url@)) == RenderMode::SPA ==> r is Skip,
        policy.mode_of(host_or_empty(url@)) == RenderMode::SSR ==> (r matches PageAction::Fetch(u)
            && u@ == url@),
{
    let host = host_of(url);
    match policy.classify(host.as_str()) {
        RenderMode::SPA => PageAction::Skip,
        RenderMode::SSR => PageAction::Fetch(String::from_str(url)),
    }
}

/// A converted page: the file to write and its Markdown.
pub struct PageOutput {
    pub path: String,
    pub markdown: String,
}

/// What a fetched page gives: nothing unless the status is 2xx; else the
/// file `{root}{slug}.md` and the Markdown of the body.
pub fn page_output(root: &str, url: &str, status: u16, body: &str) -> (r: Option<PageOutput>)
    ensures
        !(200 <= status <= 299) <==> r is None,
        r matches Some(o) ==> o.path@ == root@ + slug_spec(url@) + ".md"@
            && o.markdown@ == md_forest(trees_of_events(document_events(body@))),
{
    if 200 <= status && status <= 299 {
        let path = output_path(root, url);
        let markdown = html_to_markdown(body);
        Some(PageOutput { path, markdown })
    } else {
        None
    }
}

} // verus!
