use vstd::prelude::*;

verus! {

/// A minimal document node: an element with a tag, attribute pairs and
/// child nodes, or plain text.
pub enum DomNode {
    Element { tag: String, attrs: Vec<(String, String)>, children: Vec<DomNode> },
    Text(String),
}

/// A document: the top-level nodes in order.
pub struct Dom {
    pub nodes: Vec<DomNode>,
}

/// The text one attribute pair renders to: a leading space, the key, and
/// the quoted value.
pub open spec fn attr_text(k: Seq<char>, v: Seq<char>) -> Seq<char> {
    " "@ + k + "=\""@ + v + "\""@
}

/// The text of the attribute pairs from index `i` on.
pub open spec fn attrs_text(attrs: Seq<(String, String)>, i: int) -> Seq<char>
    decreases attrs.len() - i,
{
    if i < 0 || i >= attrs.len() {
        Seq::empty()
    } else {
        attr_text(attrs[i].0@, attrs[i].1@) + attrs_text(attrs, i + 1)
    }
}

/// The markup text of one node: text renders as itself; an element as
/// its open tag with attributes, its children's text, and its close tag.
pub open spec fn html_of_node(n: DomNode) -> Seq<char>
    decreases n, 0int,
{
    match n {
        DomNode::Text(s) => s@,
        DomNode::Element { tag, attrs, children } => "<"@ + tag@ + attrs_text(attrs@, 0) + ">"@
            + nodes_text(children@, 0) + "</"@ + tag@ + ">"@,
    }
}

/// The markup text of the nodes from index `i` on.
pub open spec fn nodes_text(nodes: Seq<DomNode>, i: int) -> Seq<char>
    decreases nodes, nodes.len() - i,
{
    if i < 0 || i >= nodes.len() {
        Seq::empty()
    } else {
        html_of_node(nodes[i]) + nodes_text(nodes, i + 1)
    }
}

/// Relies on `String::push_str`: appends the slice's characters to the
/// string.
#[verifier::external_body]
fn push_str(s: &mut String, t: &str)
    ensures
        final(s)@ == old(s)@ + t@,
{
    s.push_str(t);
}

impl DomNode {
    /// An element node built from borrowed tag and attribute texts.
    pub fn element(tag: &str, attrs: Vec<(&str, &str)>, children: Vec<DomNode>) -> (r: Self)
        ensures
            (r matches DomNode::Element { tag: t, attrs: a, children: c } && t@ == tag@
                && a@.len() == attrs@.len() && (forall|i: int|
                0 <= i < attrs@.len() ==> (#[trigger] a@[i]).0@ == attrs@[i].0@ && a@[i].1@
                    == attrs@[i].1@) && c == children),
    {
        let mut owned: Vec<(String, String)> = Vec::new();
        let n = attrs.len();
        let mut i: usize = 0;
        while i < n
            invariant
                i <= n,
                n == attrs@.len(),
                owned@.len() == i,
                forall|k: int|
                    0 <= k < i ==> (#[trigger] owned@[k]).0@ == attrs@[k].0@ && owned@[k].1@
                        == attrs@[k].1@,
            decreases n - i,
        {
            let pair = attrs[i];
            owned.push((pair.0.to_owned(), pair.1.to_owned()));
            i = i + 1;
        }
        DomNode::Element { tag: tag.to_owned(), attrs: owned, children }
    }

    /// A text node.
    pub fn text(content: &str) -> (r: Self)
        ensures
            (r matches DomNode::Text(s) && s@ == content@),
    {
        DomNode::Text(content.to_owned())
    }

    /// Renders the node to markup text, exactly as `html_of_node`
    /// describes.
    pub fn to_html(&self) -> (r: String)
        ensures
            r@ == html_of_node(*self),
        decreases *self,
    {
        match self {
            DomNode::Text(s) => s.clone(),
            DomNode::Element { tag, attrs, children } => {
                let mut out = String::new();
                push_str(&mut out, "<");
                push_str(&mut out, tag.as_str());
                let na = attrs.len();
                let mut i: usize = 0;
                while i < na
                    invariant
                        i <= na,
                        na == attrs@.len(),
                        out@ + attrs_text(attrs@, i as int) == "<"@ + tag@ + attrs_text(
                            attrs@,
                            0,
                        ),
                    decreases na - i,
                {
                    let ghost before = out@;
                    push_str(&mut out, " ");
                    push_str(&mut out, attrs[i].0.as_str());
                    push_str(&mut out, "=\"");
                    push_str(&mut out, attrs[i].1.as_str());
                    push_str(&mut out, "\"");
                    proof {
                        assert(out@ =~= before + attr_text(
                            attrs@[i as int].0@,
                            attrs@[i as int].1@,
                        ));
                        assert(attrs_text(attrs@, i as int) == attr_text(
                            attrs@[i as int].0@,
                            attrs@[i as int].1@,
                        ) + attrs_text(attrs@, i + 1));
                        assert(out@ + attrs_text(attrs@, i + 1) =~= before + attrs_text(
                            attrs@,
                            i as int,
                        ));
                    }
                    i = i + 1;
                }
                proof {
                    assert(attrs_text(attrs@, na as int) =~= Seq::<char>::empty());
                    assert(out@ + Seq::<char>::empty() =~= out@);
                }
                push_str(&mut out, ">");
                let ghost mid = out@;
                let nc = children.len();
                let mut j: usize = 0;
                while j < nc
                    invariant
                        j <= nc,
                        nc == children@.len(),
                        out@ + nodes_text(children@, j as int) == mid + nodes_text(children@, 0),
                        forall|k: int|
                            0 <= k < children@.len() ==> (decreases_to!(*self =>
                            children@[k])),
                    decreases nc - j,
                {
                    let ghost before = out@;
                    proof {
                        assert(decreases_to!(*self => children@[j as int]));
                    }
                    let piece = children[j].to_html();
                    push_str(&mut out, piece.as_str());
                    proof {
                        assert(nodes_text(children@, j as int) == html_of_node(
                            children@[j as int],
                        ) + nodes_text(children@, j + 1));
                        assert(out@ + nodes_text(children@, j + 1) =~= before + nodes_text(
                            children@,
                            j as int,
                        ));
                    }
                    j = j + 1;
                }
                proof {
                    assert(nodes_text(children@, nc as int) =~= Seq::<char>::empty());
                    assert(out@ + Seq::<char>::empty() =~= out@);
                }
                push_str(&mut out, "</");
                push_str(&mut out, tag.as_str());
                push_str(&mut out, ">");
                proof {
                    assert(out@ =~= html_of_node(*self));
                }
                out
            },
        }
    }
}

impl Dom {
    /// Renders the whole document: the nodes' markup in order.
    pub fn to_html(&self) -> (r: String)
        ensures
            r@ == nodes_text(self.nodes@, 0),
    {
        let mut out = String::new();
        let n = self.nodes.len();
        let mut j: usize = 0;
        while j < n
            invariant
                j <= n,
                n == self.nodes@.len(),
                out@ + nodes_text(self.nodes@, j as int) == nodes_text(self.nodes@, 0),
            decreases n - j,
        {
            let ghost before = out@;
            let piece = self.nodes[j].to_html();
            push_str(&mut out, piece.as_str());
            proof {
                assert(nodes_text(self.nodes@, j as int) == html_of_node(self.nodes@[j as int])
                    + nodes_text(self.nodes@, j + 1));
                assert(out@ + nodes_text(self.nodes@, j + 1) =~= before + nodes_text(
                    self.nodes@,
                    j as int,
                ));
            }
            j = j + 1;
        }
        proof {
            assert(nodes_text(self.nodes@, n as int) =~= Seq::<char>::empty());
            assert(out@ + Seq::<char>::empty() =~= out@);
        }
        out
    }
}

} // verus!
