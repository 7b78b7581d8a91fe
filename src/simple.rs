//! A lightweight converter that reads the HTML text character by character
//! and knows only headings, paragraphs and line breaks; everything outside a
//! tag is copied as it stands.
use vstd::prelude::*;
use crate::text::{all_ws, chars_of, is_blank, push_range, push_str, same_chars, string_of};

verus! {

/// What `str::to_lowercase` makes of a string.
pub uninterp spec fn lower_of(s: Seq<char>) -> Seq<char>;

/// Relies on `str::to_lowercase`: the lower case of a string depends on the
/// string alone.
#[verifier::external_body]
fn lowercase(s: &str) -> (r: String)
    ensures
        r@ == lower_of(s@),
{
    s.to_lowercase()
}

/// The state of the scan: the Markdown so far, the tag being read, whether
/// the scan is inside a tag, and the text read since the last tag.
pub struct Scan {
    pub md: Seq<char>,
    pub tag: Seq<char>,
    pub inside: bool,
    pub buffer: Seq<char>,
}

/// What a tag (already in lower case) adds to the Markdown when it closes.
pub open spec fn tag_md(t: Seq<char>) -> Seq<char> {
    if t == "h1"@ {
        "# "@
    } else if t == "/h1"@ {
        "\n\n"@
    } else if t == "h2"@ {
        "## "@
    } else if t == "/h2"@ {
        "\n\n"@
    } else if t == "/p"@ {
        "\n\n"@
    } else if t == "br"@ {
        "\n"@
    } else {
        seq![]
    }
}

/// Reading one character. At `<` the text read since the last tag is
/// flushed unless it is whitespace only, in which case it is kept.
pub open spec fn scan_step(st: Scan, c: char) -> Scan {
    if c == '<' {
        if all_ws(st.buffer) {
            Scan { md: st.md, tag: seq![], inside: true, buffer: st.buffer }
        } else {
            Scan { md: st.md + st.buffer, tag: seq![], inside: true, buffer: seq![] }
        }
    } else if c == '>' {
        Scan { md: st.md + tag_md(lower_of(st.tag)), tag: st.tag, inside: false, buffer: st.buffer }
    } else if st.inside {
        Scan { md: st.md, tag: st.tag.push(c), inside: st.inside, buffer: st.buffer }
    } else {
        Scan { md: st.md, tag: st.tag, inside: st.inside, buffer: st.buffer.push(c) }
    }
}

/// The state after reading `s` from the start.
pub open spec fn scan(s: Seq<char>) -> Scan
    decreases s.len(),
{
    if s.len() == 0 {
        Scan { md: seq![], tag: seq![], inside: false, buffer: seq![] }
    } else {
        scan_step(scan(s.drop_last()), s.last())
    }
}

/// The Markdown of `s`: the scan's output and the text left after the last tag.
pub open spec fn simple_md(s: Seq<char>) -> Seq<char> {
    scan(s).md + scan(s).buffer
}

/// What a tag, given in lower case, adds to the Markdown when it closes.
pub fn tag_markdown(lowered: &str) -> (r: String)
    ensures
        r@ == tag_md(lowered@),
{
    let lv = chars_of(lowered);
    if same_chars(&lv, "h1") {
        String::from_str("# ")
    } else if same_chars(&lv, "/h1") {
        String::from_str("\n\n")
    } else if same_chars(&lv, "h2") {
        String::from_str("## ")
    } else if same_chars(&lv, "/h2") {
        String::from_str("\n\n")
    } else if same_chars(&lv, "/p") {
        String::from_str("\n\n")
    } else if same_chars(&lv, "br") {
        String::from_str("\n")
    } else {
        proof { reveal_strlit(""); }
        assert(""@ =~= tag_md(lowered@));
        String::from_str("")
    }
}

fn push_tag_md(md: &mut Vec<char>, tag: &Vec<char>)
    ensures
        final(md)@ == old(md)@ + tag_md(lower_of(tag@)),
{
    let t = string_of(tag);
    let l = lowercase(t.as_str());
    let m = tag_markdown(l.as_str());
    push_str(md, m.as_str());
}

/// Converts HTML text to Markdown by a single scan of its characters.
pub fn simple_html_to_markdown(html: &str) -> (r: String)
    ensures
        r@ == simple_md(html@),
{
    let v = chars_of(html);
    let mut md: Vec<char> = Vec::new();
    let mut tag: Vec<char> = Vec::new();
    let mut inside = false;
    let mut buffer: Vec<char> = Vec::new();
    let mut i: usize = 0;
    while i < v.len()
        invariant
            i <= v@.len(),
            scan(v@.subrange(0, i as int)) == (Scan { md: md@, tag: tag@, inside, buffer: buffer@ }),
        decreases v@.len() - i,
    {
        let c = v[i];
        assert(v@.subrange(0, i + 1).drop_last() =~= v@.subrange(0, i as int));
        if c == '<' {
            inside = true;
            tag = Vec::new();
            if !is_blank(&buffer) {
                push_range(&mut md, &buffer, 0, buffer.len());
                assert(buffer@.subrange(0, buffer@.len() as int) =~= buffer@);
                buffer = Vec::new();
            }
            assert(tag@ =~= Seq::<char>::empty());
            assert(buffer@ =~= scan(v@.subrange(0, i + 1)).buffer);
        } else if c == '>' {
            inside = false;
            push_tag_md(&mut md, &tag);
        } else if inside {
            tag.push(c);
        } else {
            buffer.push(c);
        }
        i = i + 1;
    }
    assert(v@.subrange(0, v@.len() as int) =~= v@);
    push_range(&mut md, &buffer, 0, buffer.len());
    assert(buffer@.subrange(0, buffer@.len() as int) =~= buffer@);
    string_of(&md)
}

} // verus!
