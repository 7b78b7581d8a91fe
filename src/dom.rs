//! A parsed HTML document as a tree of plain values, and how that tree is
//! rebuilt from the open and close events of a depth-first walk.
use vstd::prelude::*;

verus! {

/// A node of a parsed document.
pub enum HtmlNode {
    /// An element: its local name, its attributes (in the order the parser
    /// keeps them, sorted by qualified name), its children.
    Element { name: String, attrs: Vec<Attr>, children: Vec<HtmlNode> },
    /// A text node.
    Text(String),
    /// A comment, a processing instruction or another node without content.
    Other,
}

/// An attribute: its namespace (empty for a plain HTML attribute), its
/// local name and its value.
pub struct Attr {
    pub ns: String,
    pub name: String,
    pub value: String,
}

/// An attribute as values: namespace, local name, value.
pub type AttrV = (Seq<char>, Seq<char>, Seq<char>);

/// A node as values.
pub enum Tree {
    Element(Seq<char>, Seq<AttrV>, Seq<Tree>),
    Text(Seq<char>),
    Other,
}

/// The values of a list of attributes.
pub open spec fn attr_views(a: Seq<Attr>) -> Seq<AttrV> {
    a.map_values(|p: Attr| (p.ns@, p.name@, p.value@))
}

/// The value of a node.
pub open spec fn tree_of(n: HtmlNode) -> Tree
    decreases n,
{
    match n {
        HtmlNode::Element { name, attrs, children } => Tree::Element(
            name@,
            attr_views(attrs@),
            forest_of(children@),
        ),
        HtmlNode::Text(s) => Tree::Text(s@),
        HtmlNode::Other => Tree::Other,
    }
}

/// The values of a list of nodes.
pub open spec fn forest_of(s: Seq<HtmlNode>) -> Seq<Tree>
    decreases s,
{
    if s.len() == 0 {
        seq![]
    } else {
        forest_of(s.drop_last()).push(tree_of(s.last()))
    }
}

pub proof fn lemma_forest_push(s: Seq<HtmlNode>, n: HtmlNode)
    ensures
        forest_of(s.push(n)) == forest_of(s).push(tree_of(n)),
{
    assert(s.push(n).drop_last() =~= s);
}

/// What an event opens.
pub enum NodeKind {
    Element(String, Vec<Attr>),
    Text(String),
    Other,
}

/// A step of a depth-first walk: a node is entered, or the node entered
/// last and not yet left is left.
pub enum HtmlEvent {
    Open(NodeKind),
    Close,
}

/// What an event opens, as values.
pub enum KindV {
    Element(Seq<char>, Seq<AttrV>),
    Text(Seq<char>),
    Other,
}

/// An event as values.
pub enum EventV {
    Open(KindV),
    Close,
}

pub open spec fn kind_view(k: NodeKind) -> KindV {
    match k {
        NodeKind::Element(n, a) => KindV::Element(n@, attr_views(a@)),
        NodeKind::Text(s) => KindV::Text(s@),
        NodeKind::Other => KindV::Other,
    }
}

pub open spec fn event_view(e: HtmlEvent) -> EventV {
    match e {
        HtmlEvent::Open(k) => EventV::Open(kind_view(k)),
        HtmlEvent::Close => EventV::Close,
    }
}

pub open spec fn events_view(s: Seq<HtmlEvent>) -> Seq<EventV> {
    s.map_values(|e: HtmlEvent| event_view(e))
}

/// The node that a closed event makes, with the children gathered for it.
pub open spec fn make_tree(k: KindV, kids: Seq<Tree>) -> Tree {
    match k {
        KindV::Element(n, a) => Tree::Element(n, a, kids),
        KindV::Text(s) => Tree::Text(s),
        KindV::Other => Tree::Other,
    }
}

/// The walk read so far: the nodes entered and not yet left, each with the
/// children gathered for it, innermost last; and the finished top-level nodes.
pub struct Progress {
    pub open: Seq<(KindV, Seq<Tree>)>,
    pub done: Seq<Tree>,
}

/// Reading one event. A close with nothing open is ignored.
pub open spec fn advance(p: Progress, e: EventV) -> Progress {
    match e {
        EventV::Open(k) => Progress { open: p.open.push((k, seq![])), done: p.done },
        EventV::Close => if p.open.len() == 0 {
            p
        } else {
            let top = p.open.last();
            let t = make_tree(top.0, top.1);
            let rest = p.open.drop_last();
            if rest.len() == 0 {
                Progress { open: rest, done: p.done.push(t) }
            } else {
                let parent = rest.last();
                Progress { open: rest.drop_last().push((parent.0, parent.1.push(t))), done: p.done }
            }
        },
    }
}

/// Reading a list of events from the start.
pub open spec fn progress_of(es: Seq<EventV>) -> Progress
    decreases es.len(),
{
    if es.len() == 0 {
        Progress { open: seq![], done: seq![] }
    } else {
        advance(progress_of(es.drop_last()), es.last())
    }
}

/// The top-level nodes that a walk describes; nodes still open at its end
/// are dropped.
pub open spec fn trees_of_events(es: Seq<EventV>) -> Seq<Tree> {
    progress_of(es).done
}

pub open spec fn frame_view(f: (NodeKind, Vec<HtmlNode>)) -> (KindV, Seq<Tree>) {
    (kind_view(f.0), forest_of(f.1@))
}

pub open spec fn frames_view(s: Seq<(NodeKind, Vec<HtmlNode>)>) -> Seq<(KindV, Seq<Tree>)> {
    s.map_values(|f: (NodeKind, Vec<HtmlNode>)| frame_view(f))
}

fn close_node(k: NodeKind, kids: Vec<HtmlNode>) -> (r: HtmlNode)
    ensures
        tree_of(r) == make_tree(kind_view(k), forest_of(kids@)),
{
    match k {
        NodeKind::Element(name, attrs) => HtmlNode::Element { name, attrs, children: kids },
        NodeKind::Text(s) => HtmlNode::Text(s),
        NodeKind::Other => HtmlNode::Other,
    }
}

/// Rebuilds the tree that a depth-first walk describes.
pub fn build_tree(events: Vec<HtmlEvent>) -> (r: Vec<HtmlNode>)
    ensures
        forest_of(r@) == trees_of_events(events_view(events@)),
{
    let ghost evs = events_view(events@);
    let mut open: Vec<(NodeKind, Vec<HtmlNode>)> = Vec::new();
    let mut done: Vec<HtmlNode> = Vec::new();
    let ghost total = events@.len();
    let mut pending = events;
    let mut events: Vec<HtmlEvent> = Vec::new();
    while pending.len() > 0
        invariant
            total == evs.len(),
            pending@.len() + events@.len() == total,
            evs == events_view(pending@ + events@.reverse()),
            forall|j: int| 0 <= j < events@.len() ==>
                event_view(#[trigger] events@[j]) == evs[total - 1 - j],
        decreases pending@.len(),
    {
        let ghost before = pending@;
        let e = pending.pop().unwrap();
        proof {
            assert(before =~= pending@.push(e));
            assert(pending@ + events@.push(e).reverse() =~= before + events@.reverse());
            assert(evs[total - 1 - events@.len()] == event_view(e));
        }
        events.push(e);
    }
    assert(frames_view(open@) =~= progress_of(evs.subrange(0, 0)).open);
    assert(forest_of(done@) =~= progress_of(evs.subrange(0, 0)).done);
    while events.len() > 0
        invariant
            total == evs.len(),
            events@.len() <= total,
            forall|j: int| 0 <= j < events@.len() ==>
                event_view(#[trigger] events@[j]) == evs[total - 1 - j],
            frames_view(open@) == progress_of(evs.subrange(0, total - events@.len())).open,
            forest_of(done@) == progress_of(evs.subrange(0, total - events@.len())).done,
        decreases events@.len(),
    {
        let ghost i = total - events@.len();
        let ghost p = progress_of(evs.subrange(0, i));
        let e = events.pop().unwrap();
        assert(event_view(e) == evs[i]);
        assert(evs.subrange(0, i + 1).drop_last() =~= evs.subrange(0, i));
        match e {
            HtmlEvent::Open(k) => {
                open.push((k, Vec::new()));
                assert(frames_view(open@) =~= p.open.push((kind_view(k), seq![])));
            },
            HtmlEvent::Close => {
                if open.len() > 0 {
                    let (k, kids) = open.pop().unwrap();
                    assert(frames_view(open@) =~= p.open.drop_last());
                    let node = close_node(k, kids);
                    if open.len() == 0 {
                        proof { lemma_forest_push(done@, node); }
                        done.push(node);
                    } else {
                        let (pk, mut pkids) = open.pop().unwrap();
                        proof { lemma_forest_push(pkids@, node); }
                        pkids.push(node);
                        open.push((pk, pkids));
                        assert(frames_view(open@) =~= p.open.drop_last().drop_last().push(
                            (p.open.drop_last().last().0, p.open.drop_last().last().1.push(tree_of(node)))));
                    }
                }
            },
        }
    }
    assert(evs.subrange(0, total as int) =~= evs);
    done
}

/// What `scraper::Html::parse_document` makes of a document, as the events
/// of a depth-first walk that starts and ends at its root element.
pub uninterp spec fn document_events(s: Seq<char>) -> Seq<EventV>;

/// Relies on `scraper::Html::parse_document` and ego-tree's `traverse`: the
/// parsed document's walk, each node with its local name, attributes
/// (`Element::attrs`, with namespace and local name) or text.
#[verifier::external_body]
pub(crate) fn parse_events(html: &str) -> (r: Vec<HtmlEvent>)
    ensures
        events_view(r@) == document_events(html@),
{
    let doc = scraper::Html::parse_document(html);
    doc.root_element().traverse().map(|edge| match edge {
        ego_tree::iter::Edge::Open(n) => HtmlEvent::Open(match n.value() {
            scraper::Node::Element(e) => NodeKind::Element(e.name().to_string(),
                e.attrs.iter().map(|(q, v)| Attr {
                    ns: q.ns.to_string(), name: q.local.to_string(), value: String::from(&**v),
                }).collect()),
            scraper::Node::Text(t) => NodeKind::Text(String::from(&**t)),
            _ => NodeKind::Other,
        }),
        ego_tree::iter::Edge::Close(_) => HtmlEvent::Close,
    }).collect()
}

} // verus!
