//! Which hosts serve their content ready-made and which assemble it in the
//! browser.
use vstd::prelude::*;
use crate::text::{chars_of, same_chars};

verus! {

/// How a host delivers its pages.
#[derive(Debug, Clone, Copy, PartialEq, Eq, Structural)]
pub enum RenderMode {
    /// Rendered on the server: the HTML already holds the content.
    SSR,
    /// A single-page application: the content is built by scripts, and the page is skipped.
    SPA,
}

/// The built-in host table: the one host known to be a single-page
/// application is `www.heygoody.com`; every other host, the empty one
/// included, is server rendered.
pub open spec fn render_mode_of(host: Seq<char>) -> RenderMode {
    if host == "www.heygoody.com"@ {
        RenderMode::SPA
    } else {
        RenderMode::SSR
    }
}

/// Classifies a host by the built-in table.
pub fn get_render_mode(domain: &str) -> (r: RenderMode)
    ensures
        r == render_mode_of(domain@),
{
    let v = chars_of(domain);
    if same_chars(&v, "www.heygoody.com") {
        RenderMode::SPA
    } else if same_chars(&v, "www.example.com") {
        RenderMode::SSR
    } else {
        RenderMode::SSR
    }
}

/// A host table that can be loaded at run time: the first entry whose host
/// matches decides, and a host that no entry names is server rendered.
pub struct HostRenderPolicy {
    pub entries: Vec<(String, RenderMode)>,
}

/// The mode that `entries[i..]` give `host`.
pub open spec fn lookup_from(entries: Seq<(String, RenderMode)>, host: Seq<char>, i: int) -> RenderMode
    decreases entries.len() - i,
{
    if i < 0 || i >= entries.len() {
        RenderMode::SSR
    } else if entries[i].0@ == host {
        entries[i].1
    } else {
        lookup_from(entries, host, i + 1)
    }
}

impl HostRenderPolicy {
    /// The mode that this table gives `host`.
    pub open spec fn mode_of(&self, host: Seq<char>) -> RenderMode {
        lookup_from(self.entries@, host, 0)
    }

    /// The built-in table as entries.
    pub fn builtin() -> (r: Self)
        ensures
            forall|h: Seq<char>| r.mode_of(h) == render_mode_of(h),
    {
        let mut entries: Vec<(String, RenderMode)> = Vec::new();
        entries.push((String::from_str("www.heygoody.com"), RenderMode::SPA));
        entries.push((String::from_str("www.example.com"), RenderMode::SSR));
        let r = HostRenderPolicy { entries };
        assert forall|h: Seq<char>| r.mode_of(h) == render_mode_of(h) by {
            assert(r.entries@[0].0@ == "www.heygoody.com"@);
            assert(lookup_from(r.entries@, h, 2) == RenderMode::SSR);
            assert(lookup_from(r.entries@, h, 1) == RenderMode::SSR);
        }
        r
    }

    /// Looks `host` up; unmatched hosts are server rendered.
    pub fn classify(&self, host: &str) -> (r: RenderMode)
        ensures
            r == self.mode_of(host@),
    {
        let h = chars_of(host);
        let mut i: usize = 0;
        while i < self.entries.len()
            invariant
                i <= self.entries@.len(),
                lookup_from(self.entries@, host@, 0) == lookup_from(self.entries@, host@, i as int),
            decreases self.entries@.len() - i,
        {
            let k = chars_of(self.entries[i].0.as_str());
            if same_chars(&k, host) {
                return self.entries[i].1;
            }
            i = i + 1;
        }
        RenderMode::SSR
    }
}

} // verus!
