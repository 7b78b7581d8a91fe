//! Markdown from a parsed document: a depth-first walk with one rule per tag;
//! an element whose tag has no rule is passed through to its children.
use vstd::prelude::*;
use crate::dom::{Attr, AttrV, HtmlEvent, HtmlNode, Tree, attr_views, build_tree, document_events, events_view,
    forest_of, lemma_forest_push, parse_events, tree_of, trees_of_events};
use crate::text::{chars_of, decimal, lines, push_decimal, push_range, push_str, push_trimmed,
    same_chars, split_nl, string_of, trim, lemma_split_nl_nonempty};

verus! {

/// All text below a node, in document order.
pub open spec fn text_tree(t: Tree) -> Seq<char>
    decreases t,
{
    match t {
        Tree::Element(_, _, kids) => text_forest(kids),
        Tree::Text(s) => s,
        Tree::Other => seq![],
    }
}

/// All text below a list of nodes, in document order.
pub open spec fn text_forest(f: Seq<Tree>) -> Seq<char>
    decreases f,
{
    if f.len() == 0 {
        seq![]
    } else {
        text_forest(f.drop_last()) + text_tree(f.last())
    }
}

/// The trimmed texts of the `li` elements below a node, itself included,
/// in document order.
pub open spec fn items_tree(t: Tree) -> Seq<Seq<char>>
    decreases t,
{
    match t {
        Tree::Element(n, _, kids) => if n == "li"@ {
            seq![trim(text_forest(kids))] + items_forest(kids)
        } else {
            items_forest(kids)
        },
        _ => seq![],
    }
}

/// The trimmed texts of the `li` elements in a list of nodes and below them.
pub open spec fn items_forest(f: Seq<Tree>) -> Seq<Seq<char>>
    decreases f,
{
    if f.len() == 0 {
        seq![]
    } else {
        items_forest(f.drop_last()) + items_tree(f.last())
    }
}

/// The value of the first attribute without a namespace named `key`, if any.
pub open spec fn attr_lookup(a: Seq<AttrV>, key: Seq<char>) -> Option<Seq<char>>
    decreases a.len(),
{
    if a.len() == 0 {
        None
    } else if a[0].0.len() == 0 && a[0].1 == key {
        Some(a[0].2)
    } else {
        attr_lookup(a.drop_first(), key)
    }
}

/// The value of the attribute named `key`, or `default`.
pub open spec fn attr_or(a: Seq<AttrV>, key: Seq<char>, default: Seq<char>) -> Seq<char> {
    match attr_lookup(a, key) {
        Some(v) => v,
        None => default,
    }
}

/// The `k`-th item of a list (from 1), whose trimmed text is `text`.
pub open spec fn item_md(text: Seq<char>, ordered: bool, k: nat) -> Seq<char> {
    if ordered {
        decimal(k) + ". "@ + text + "\n"@
    } else {
        "- "@ + text + "\n"@
    }
}

/// The items of a list, numbered from 1.
pub open spec fn items_md(s: Seq<Seq<char>>, ordered: bool) -> Seq<char>
    decreases s.len(),
{
    if s.len() == 0 {
        seq![]
    } else {
        items_md(s.drop_last(), ordered) + item_md(s.last(), ordered, s.len())
    }
}

/// A line without the `\r` of a `\r\n` line break.
pub open spec fn strip_cr(l: Seq<char>) -> Seq<char> {
    if l.len() > 0 && l.last() == '\r' { l.drop_last() } else { l }
}

/// The lines of a quotation, each marked with `> `.
pub open spec fn quote_md(ls: Seq<Seq<char>>) -> Seq<char>
    decreases ls.len(),
{
    if ls.len() == 0 {
        seq![]
    } else {
        quote_md(ls.drop_last()) + "> "@ + strip_cr(ls.last()) + "\n"@
    }
}

/// The Markdown of a node, by its tag: text and other nodes give nothing
/// by themselves.
pub open spec fn md_tree(t: Tree) -> Seq<char>
    decreases t,
{
    match t {
        Tree::Element(n, a, kids) => element_md(n, a, kids, md_forest(kids)),
        _ => seq![],
    }
}

/// The Markdown of an element, given the Markdown of its children for
/// tags without a rule.
pub open spec fn element_md(n: Seq<char>, a: Seq<AttrV>, kids: Seq<Tree>, inner: Seq<char>) -> Seq<char> {
    let text = trim(text_forest(kids));
    if n == "h1"@ {
        "# "@ + text + "\n"@
    } else if n == "h2"@ {
        "## "@ + text + "\n"@
    } else if n == "p"@ {
        text + "\n"@
    } else if n == "ul"@ {
        items_md(items_forest(kids), false)
    } else if n == "ol"@ {
        items_md(items_forest(kids), true)
    } else if n == "a"@ {
        "["@ + text + "]("@ + attr_or(a, "href"@, "#"@) + ")\n"@
    } else if n == "img"@ {
        "!["@ + attr_or(a, "alt"@, seq![]) + "]("@ + attr_or(a, "src"@, seq![]) + ")\n"@
    } else if n == "strong"@ {
        "**"@ + text + "**"@
    } else if n == "em"@ {
        "_"@ + text + "_"@
    } else if n == "blockquote"@ {
        quote_md(lines(text))
    } else if n == "br"@ {
        "\n"@
    } else {
        inner
    }
}

/// The Markdown of a list of nodes, in order.
pub open spec fn md_forest(f: Seq<Tree>) -> Seq<char>
    decreases f,
{
    if f.len() == 0 {
        seq![]
    } else {
        md_forest(f.drop_last()) + md_tree(f.last())
    }
}

/// Appends all text below `n`.
pub fn collect_text(n: &HtmlNode, out: &mut Vec<char>)
    ensures
        final(out)@ == old(out)@ + text_tree(tree_of(*n)),
    decreases n,
{
    match n {
        HtmlNode::Element { children, .. } => {
            collect_text_all(children, out);
        },
        HtmlNode::Text(s) => {
            push_str(out, s.as_str());
        },
        HtmlNode::Other => {
            assert(final(out)@ =~= old(out)@ + text_tree(tree_of(*n)));
        },
    }
}

/// Appends all text below the nodes of `v`.
pub fn collect_text_all(v: &Vec<HtmlNode>, out: &mut Vec<char>)
    ensures
        final(out)@ == old(out)@ + text_forest(forest_of(v@)),
    decreases v,
{
    let mut i: usize = 0;
    assert(forest_of(v@.subrange(0, 0)) =~= Seq::<Tree>::empty());
    assert(out@ =~= old(out)@ + text_forest(forest_of(v@.subrange(0, 0))));
    while i < v.len()
        invariant
            i <= v@.len(),
            out@ == old(out)@ + text_forest(forest_of(v@.subrange(0, i as int))),
        decreases v@.len() - i,
    {
        let ghost f = forest_of(v@.subrange(0, i as int));
        assert(v@.subrange(0, i + 1) =~= v@.subrange(0, i as int).push(v@[i as int]));
        proof { lemma_forest_push(v@.subrange(0, i as int), v@[i as int]); }
        assert(f.push(tree_of(v@[i as int])).drop_last() =~= f);
        collect_text(&v[i], out);
        i = i + 1;
    }
    assert(v@.subrange(0, v@.len() as int) =~= v@);
}

/// The values of a list of character vectors.
pub open spec fn char_views(s: Seq<Vec<char>>) -> Seq<Seq<char>> {
    s.map_values(|v: Vec<char>| v@)
}

/// Appends the trimmed text of each `li` element at or below `n`.
fn collect_items(n: &HtmlNode, out: &mut Vec<Vec<char>>)
    ensures
        char_views(final(out)@) == char_views(old(out)@) + items_tree(tree_of(*n)),
    decreases n,
{
    match n {
        HtmlNode::Element { name, children, .. } => {
            let nv = chars_of(name.as_str());
            if same_chars(&nv, "li") {
                let mut t: Vec<char> = Vec::new();
                collect_text_all(children, &mut t);
                let mut e: Vec<char> = Vec::new();
                push_trimmed(&mut e, &t, 0, t.len());
                assert(t@.subrange(0, t@.len() as int) =~= t@);
                let ghost mid = out@.push(e);
                out.push(e);
                assert(char_views(mid) =~= char_views(old(out)@) + seq![trim(text_forest(forest_of(children@)))]);
                collect_items_all(children, out);
                assert(char_views(final(out)@) =~= char_views(old(out)@) + items_tree(tree_of(*n)));
            } else {
                collect_items_all(children, out);
            }
        },
        _ => {
            assert(char_views(final(out)@) =~= char_views(old(out)@) + items_tree(tree_of(*n)));
        },
    }
}

/// Appends the trimmed text of each `li` element in or below the nodes of `v`.
fn collect_items_all(v: &Vec<HtmlNode>, out: &mut Vec<Vec<char>>)
    ensures
        char_views(final(out)@) == char_views(old(out)@) + items_forest(forest_of(v@)),
    decreases v,
{
    let mut i: usize = 0;
    assert(forest_of(v@.subrange(0, 0)) =~= Seq::<Tree>::empty());
    assert(char_views(out@) =~= char_views(old(out)@) + items_forest(forest_of(v@.subrange(0, 0))));
    while i < v.len()
        invariant
            i <= v@.len(),
            char_views(out@) == char_views(old(out)@) + items_forest(forest_of(v@.subrange(0, i as int))),
        decreases v@.len() - i,
    {
        let ghost f = forest_of(v@.subrange(0, i as int));
        assert(v@.subrange(0, i + 1) =~= v@.subrange(0, i as int).push(v@[i as int]));
        proof { lemma_forest_push(v@.subrange(0, i as int), v@[i as int]); }
        assert(f.push(tree_of(v@[i as int])).drop_last() =~= f);
        collect_items(&v[i], out);
        i = i + 1;
    }
    assert(v@.subrange(0, v@.len() as int) =~= v@);
}

/// Appends the items of a list, numbered from 1 where `ordered`.
fn emit_items(md: &mut Vec<char>, items: &Vec<Vec<char>>, ordered: bool)
    ensures
        final(md)@ == old(md)@ + items_md(char_views(items@), ordered),
{
    let mut i: usize = 0;
    assert(char_views(items@).subrange(0, 0) =~= Seq::<Seq<char>>::empty());
    assert(md@ =~= old(md)@ + items_md(char_views(items@).subrange(0, 0), ordered));
    while i < items.len()
        invariant
            i <= items@.len(),
            md@ == old(md)@ + items_md(char_views(items@).subrange(0, i as int), ordered),
        decreases items@.len() - i,
    {
        let ghost before = md@;
        if ordered {
            push_decimal(md, i + 1);
            push_str(md, ". ");
        } else {
            push_str(md, "- ");
        }
        push_range(md, &items[i], 0, items[i].len());
        push_str(md, "\n");
        let ghost s = char_views(items@).subrange(0, i + 1);
        assert(s.drop_last() =~= char_views(items@).subrange(0, i as int));
        assert(items[i as int]@.subrange(0, items[i as int]@.len() as int) =~= s.last());
        assert(md@ =~= before + item_md(s.last(), ordered, s.len()));
        i = i + 1;
    }
    assert(char_views(items@).subrange(0, items@.len() as int) =~= char_views(items@));
}

/// Appends `> `, the line `v[lo..hi]` without a final `\r`, and a line break.
fn emit_quote_line(md: &mut Vec<char>, v: &Vec<char>, lo: usize, hi: usize)
    requires
        lo <= hi <= v@.len(),
    ensures
        final(md)@ == old(md)@ + "> "@ + strip_cr(v@.subrange(lo as int, hi as int)) + "\n"@,
{
    push_str(md, "> ");
    let end: usize = if hi > lo && v[hi - 1] == '\r' { hi - 1 } else { hi };
    assert(strip_cr(v@.subrange(lo as int, hi as int)) =~= v@.subrange(lo as int, end as int));
    push_range(md, v, lo, end);
    push_str(md, "\n");
}

/// Appends each line of `v` as a quoted line.
fn emit_quote(md: &mut Vec<char>, v: &Vec<char>)
    ensures
        final(md)@ == old(md)@ + quote_md(lines(v@)),
{
    let n = v.len();
    let mut start: usize = 0;
    let mut i: usize = 0;
    proof { lemma_split_nl_nonempty(v@.subrange(0, 0)); }
    assert(split_nl(v@.subrange(0, 0)).drop_last() =~= Seq::<Seq<char>>::empty());
    assert(md@ =~= old(md)@ + quote_md(split_nl(v@.subrange(0, 0)).drop_last()));
    while i < n
        invariant
            n == v@.len(),
            start <= i <= n,
            split_nl(v@.subrange(0, i as int)).len() >= 1,
            split_nl(v@.subrange(0, i as int)).last() == v@.subrange(start as int, i as int),
            md@ == old(md)@ + quote_md(split_nl(v@.subrange(0, i as int)).drop_last()),
        decreases n - i,
    {
        let ghost p = split_nl(v@.subrange(0, i as int));
        let ghost q = split_nl(v@.subrange(0, i + 1));
        assert(v@.subrange(0, i + 1).drop_last() =~= v@.subrange(0, i as int));
        if v[i] == '\n' {
            emit_quote_line(md, v, start, i);
            assert(q == p.push(Seq::<char>::empty()));
            assert(q.drop_last() =~= p);
            assert(p.drop_last().push(p.last()) =~= p);
            assert(v@.subrange(i + 1, i + 1) =~= Seq::<char>::empty());
            start = i + 1;
        } else {
            assert(q == p.update(p.len() - 1, p.last().push(v@[i as int])));
            assert(q.drop_last() =~= p.drop_last());
            assert(v@.subrange(start as int, i + 1) =~= v@.subrange(start as int, i as int).push(v@[i as int]));
        }
        i = i + 1;
    }
    let ghost p = split_nl(v@.subrange(0, n as int));
    assert(v@.subrange(0, n as int) =~= v@);
    assert(p.drop_last().push(p.last()) =~= p);
    if start < n {
        emit_quote_line(md, v, start, n);
    } else {
        assert(p.last().len() == 0);
    }
}

/// Appends the value of the first attribute named `key`, or `default`.
fn push_attr(md: &mut Vec<char>, attrs: &Vec<Attr>, key: &str, default: &str)
    ensures
        final(md)@ == old(md)@ + attr_or(attr_views(attrs@), key@, default@),
{
    let mut i: usize = 0;
    assert(attr_views(attrs@).subrange(0, attrs@.len() as int) =~= attr_views(attrs@));
    while i < attrs.len()
        invariant
            i <= attrs@.len(),
            md@ == old(md)@,
            attr_lookup(attr_views(attrs@), key@) == attr_lookup(attr_views(attrs@).subrange(i as int, attrs@.len() as int), key@),
        decreases attrs@.len() - i,
    {
        let ghost rest = attr_views(attrs@).subrange(i as int, attrs@.len() as int);
        assert(rest.drop_first() =~= attr_views(attrs@).subrange(i + 1, attrs@.len() as int));
        assert(rest[0] == (attrs@[i as int].ns@, attrs@[i as int].name@, attrs@[i as int].value@));
        let k = chars_of(attrs[i].name.as_str());
        if attrs[i].ns.as_str().unicode_len() == 0 && same_chars(&k, key) {
            assert(attr_lookup(rest, key@) == Some(attrs@[i as int].value@));
            push_str(md, attrs[i].value.as_str());
            return;
        }
        i = i + 1;
    }
    assert(attr_lookup(attr_views(attrs@).subrange(i as int, attrs@.len() as int), key@) is None);
    push_str(md, default);
}

/// Appends the Markdown of `n` and of what lies below it.
pub fn handle_element(md: &mut Vec<char>, n: &HtmlNode)
    ensures
        final(md)@ == old(md)@ + md_tree(tree_of(*n)),
    decreases n,
{
    match n {
        HtmlNode::Element { name, attrs, children } => {
            let ghost kids = forest_of(children@);
            let nv = chars_of(name.as_str());
            let mut raw: Vec<char> = Vec::new();
            collect_text_all(children, &mut raw);
            let mut text: Vec<char> = Vec::new();
            push_trimmed(&mut text, &raw, 0, raw.len());
            assert(raw@.subrange(0, raw@.len() as int) =~= raw@);
            assert(raw@ =~= text_forest(kids));
            assert(text@ =~= trim(text_forest(kids)));
            assert(md_tree(tree_of(*n)) == element_md(name@, attr_views(attrs@), kids, md_forest(kids)));
            let tn = text.len();
            assert(text@.subrange(0, tn as int) =~= text@);
            if same_chars(&nv, "h1") {
                push_str(md, "# ");
                push_range(md, &text, 0, tn);
                push_str(md, "\n");
            } else if same_chars(&nv, "h2") {
                push_str(md, "## ");
                push_range(md, &text, 0, tn);
                push_str(md, "\n");
            } else if same_chars(&nv, "p") {
                push_range(md, &text, 0, tn);
                push_str(md, "\n");
            } else if same_chars(&nv, "ul") {
                let mut items: Vec<Vec<char>> = Vec::new();
                collect_items_all(children, &mut items);
                assert(char_views(items@) =~= items_forest(kids));
                emit_items(md, &items, false);
            } else if same_chars(&nv, "ol") {
                let mut items: Vec<Vec<char>> = Vec::new();
                collect_items_all(children, &mut items);
                assert(char_views(items@) =~= items_forest(kids));
                emit_items(md, &items, true);
            } else if same_chars(&nv, "a") {
                push_str(md, "[");
                push_range(md, &text, 0, tn);
                push_str(md, "](");
                push_attr(md, attrs, "href", "#");
                push_str(md, ")\n");
            } else if same_chars(&nv, "img") {
                push_str(md, "![");
                proof { reveal_strlit(""); }
                assert(""@ =~= Seq::<char>::empty());
                push_attr(md, attrs, "alt", "");
                push_str(md, "](");
                push_attr(md, attrs, "src", "");
                push_str(md, ")\n");
            } else if same_chars(&nv, "strong") {
                push_str(md, "**");
                push_range(md, &text, 0, tn);
                push_str(md, "**");
            } else if same_chars(&nv, "em") {
                push_str(md, "_");
                push_range(md, &text, 0, tn);
                push_str(md, "_");
            } else if same_chars(&nv, "blockquote") {
                emit_quote(md, &text);
            } else if same_chars(&nv, "br") {
                push_str(md, "\n");
            } else {
                handle_all(md, children);
            }
            assert(final(md)@ =~= old(md)@ + md_tree(tree_of(*n)));
        },
        _ => {
            assert(final(md)@ =~= old(md)@ + md_tree(tree_of(*n)));
        },
    }
}

/// Appends the Markdown of each node of `v`, in order.
pub fn handle_all(md: &mut Vec<char>, v: &Vec<HtmlNode>)
    ensures
        final(md)@ == old(md)@ + md_forest(forest_of(v@)),
    decreases v,
{
    let mut i: usize = 0;
    assert(forest_of(v@.subrange(0, 0)) =~= Seq::<Tree>::empty());
    assert(md@ =~= old(md)@ + md_forest(forest_of(v@.subrange(0, 0))));
    while i < v.len()
        invariant
            i <= v@.len(),
            md@ == old(md)@ + md_forest(forest_of(v@.subrange(0, i as int))),
        decreases v@.len() - i,
    {
        let ghost f = forest_of(v@.subrange(0, i as int));
        assert(v@.subrange(0, i + 1) =~= v@.subrange(0, i as int).push(v@[i as int]));
        proof { lemma_forest_push(v@.subrange(0, i as int), v@[i as int]); }
        assert(f.push(tree_of(v@[i as int])).drop_last() =~= f);
        handle_element(md, &v[i]);
        i = i + 1;
    }
    assert(v@.subrange(0, v@.len() as int) =~= v@);
}

/// The Markdown of a list of nodes.
pub fn markdown_of_nodes(nodes: &Vec<HtmlNode>) -> (r: String)
    ensures
        r@ == md_forest(forest_of(nodes@)),
{
    let mut md: Vec<char> = Vec::new();
    handle_all(&mut md, nodes);
    assert(md@ =~= md_forest(forest_of(nodes@)));
    string_of(&md)
}

/// The Markdown of the document that a depth-first walk describes.
pub fn markdown_of_events(events: Vec<HtmlEvent>) -> (r: String)
    ensures
        r@ == md_forest(trees_of_events(events_view(events@))),
{
    let nodes = build_tree(events);
    markdown_of_nodes(&nodes)
}

/// Parses an HTML document, leniently, and returns its Markdown.
pub fn html_to_markdown(html: &str) -> (r: String)
    ensures
        r@ == md_forest(trees_of_events(document_events(html@))),
{
    markdown_of_events(parse_events(html))
}

} // verus!
