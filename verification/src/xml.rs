//! XML documents as rows of nodes.

use crate::text::{lower, same, same_ignoring_case};
use vstd::prelude::*;

verus! {

/// A node of a document.
#[derive(Debug)]
pub struct XmlNode {
    /// The row of the node that holds this one.
    pub parent: Option<usize>,
    pub is_element: bool,
    /// Local name of an element.
    pub name: String,
    /// Local names and values of attributes, in order.
    pub attributes: Vec<(String, String)>,
    /// The text that an element begins with.
    pub text: Option<String>,
}

/// Model of `XmlNode`.
pub struct XmlNodeView {
    pub parent: Option<usize>,
    pub is_element: bool,
    pub name: Seq<char>,
    pub attributes: Seq<(Seq<char>, Seq<char>)>,
    pub text: Option<Seq<char>>,
}

impl DeepView for XmlNode {
    type V = XmlNodeView;

    open spec fn deep_view(&self) -> XmlNodeView {
        XmlNodeView {
            parent: self.parent,
            is_element: self.is_element,
            name: self.name@,
            attributes: self.attributes.deep_view(),
            text: self.text.deep_view(),
        }
    }
}

/// Model of a row as plain values.
pub open spec fn row_of(n: XmlNodeView) -> (
    Option<usize>,
    bool,
    Seq<char>,
    Seq<(Seq<char>, Seq<char>)>,
    Option<Seq<char>>,
) {
    (n.parent, n.is_element, n.name, n.attributes, n.text)
}

/// The nodes of a document in document order: the row of the node that holds it, whether it is an
/// element, its local name, its attributes and its text; or why the text is no document.
pub uninterp spec fn xml_rows(text: Seq<char>) -> core::result::Result<
    Seq<(Option<usize>, bool, Seq<char>, Seq<(Seq<char>, Seq<char>)>, Option<Seq<char>>)>,
    Seq<char>,
>;

/// The rows of nodes.
pub open spec fn rows_of(nodes: Seq<XmlNodeView>) -> Seq<
    (Option<usize>, bool, Seq<char>, Seq<(Seq<char>, Seq<char>)>, Option<Seq<char>>),
> {
    nodes.map_values(|n: XmlNodeView| row_of(n))
}

/// The nodes of rows.
pub open spec fn nodes_of(
    rows: Seq<(Option<usize>, bool, Seq<char>, Seq<(Seq<char>, Seq<char>)>, Option<Seq<char>>)>,
) -> Seq<XmlNodeView> {
    rows.map_values(
        |r: (Option<usize>, bool, Seq<char>, Seq<(Seq<char>, Seq<char>)>, Option<Seq<char>>)|
            XmlNodeView { parent: r.0, is_element: r.1, name: r.2, attributes: r.3, text: r.4 },
    )
}

/// Nodes are found again in their rows.
pub proof fn lemma_nodes_of_rows(nodes: Seq<XmlNodeView>)
    ensures
        nodes_of(rows_of(nodes)) == nodes,
{
    assert(nodes_of(rows_of(nodes)) =~= nodes);
}

/// `roxmltree::Document::parse` and `Document::descendants`: the nodes in document order, each after
/// the node that holds it, or the message of the error.
#[verifier::external_body]
pub(crate) fn parse_xml(text: &str) -> (r: core::result::Result<Vec<XmlNode>, String>)
    ensures
        match r {
            Ok(nodes) => xml_rows(text@) is Ok && xml_rows(text@)->Ok_0 == rows_of(
                nodes.deep_view(),
            ),
            Err(e) => xml_rows(text@) is Err && xml_rows(text@)->Err_0 == e@,
        },
{
    let document = roxmltree::Document::parse(text).map_err(|error| error.to_string())?;
    let mut nodes = Vec::new();
    for node in document.descendants() {
        nodes.push(XmlNode {
            parent: node.parent().map(|parent| parent.id().get_usize()),
            is_element: node.is_element(),
            name: node.tag_name().name().to_string(),
            attributes: node.attributes().map(|a| (a.name().into(), a.value().into())).collect(),
            text: node.text().map(str::to_string),
        });
    }
    Ok(nodes)
}

/// An element of a given name inside a given node.
pub open spec fn is_child(n: XmlNodeView, parent: int, name: Seq<char>) -> bool {
    n.is_element && n.parent == Some(parent as usize) && n.name == name
}

/// The elements of a given name inside a node, from row `i` on.
pub open spec fn children_from(doc: Seq<XmlNodeView>, parent: int, name: Seq<char>, i: int) -> Seq<int>
    decreases doc.len() - i,
{
    if i < 0 || i >= doc.len() {
        Seq::empty()
    } else if is_child(doc[i], parent, name) {
        seq![i] + children_from(doc, parent, name, i + 1)
    } else {
        children_from(doc, parent, name, i + 1)
    }
}

/// The elements of a given name inside a node.
pub open spec fn children(doc: Seq<XmlNodeView>, parent: int, name: Seq<char>) -> Seq<int> {
    children_from(doc, parent, name, 0)
}

/// The first element of a given name inside a node.
pub open spec fn first_child(doc: Seq<XmlNodeView>, parent: int, name: Seq<char>) -> Option<int> {
    if children(doc, parent, name).len() > 0 {
        Some(children(doc, parent, name)[0])
    } else {
        None
    }
}

/// The value of the first attribute of a name, from position `i` on.
pub open spec fn attr_from(attributes: Seq<(Seq<char>, Seq<char>)>, name: Seq<char>, i: int) -> Option<
    Seq<char>,
>
    decreases attributes.len() - i,
{
    if i < 0 || i >= attributes.len() {
        None
    } else if attributes[i].0 == name {
        Some(attributes[i].1)
    } else {
        attr_from(attributes, name, i + 1)
    }
}

/// The value of an attribute of a node.
pub open spec fn attr_of(doc: Seq<XmlNodeView>, node: int, name: Seq<char>) -> Option<Seq<char>> {
    attr_from(doc[node].attributes, name, 0)
}

/// The first element of a name in the document, from row `i` on.
pub open spec fn element_from(doc: Seq<XmlNodeView>, name: Seq<char>, i: int) -> Option<int>
    decreases doc.len() - i,
{
    if i < 0 || i >= doc.len() {
        None
    } else if doc[i].is_element && doc[i].name == name {
        Some(i)
    } else {
        element_from(doc, name, i + 1)
    }
}

/// The elements of a given name inside a node.
pub fn children_of(doc: &Vec<XmlNode>, parent: usize, name: &str) -> (r: Vec<usize>)
    ensures
        r@.map_values(|i: usize| i as int) == children(doc.deep_view(), parent as int, name@),
        forall|k: int| 0 <= k < r@.len() ==> #[trigger] r@[k] < doc@.len(),
{
    let ghost view = doc.deep_view();
    let mut out: Vec<usize> = Vec::new();
    let mut i: usize = 0;
    let ghost whole = children(view, parent as int, name@);
    assert(out@.map_values(|i: usize| i as int) + whole =~= whole);
    while i < doc.len()
        invariant
            i <= doc@.len(),
            view == doc.deep_view(),
            forall|k: int| 0 <= k < out@.len() ==> #[trigger] out@[k] < doc@.len(),
            out@.map_values(|i: usize| i as int) + children_from(
                view,
                parent as int,
                name@,
                i as int,
            ) == whole,
        decreases doc@.len() - i,
    {
        let ghost before = out@.map_values(|i: usize| i as int);
        let node: &XmlNode = &doc[i];
        assert(view[i as int] == node.deep_view());
        let inside: bool = match node.parent {
            Some(p) => p == parent,
            None => false,
        };
        if node.is_element && inside && same(node.name.as_str(), name) {
            out.push(i);
            assert(out@.map_values(|i: usize| i as int) =~= before.push(i as int));
            assert(out@.map_values(|i: usize| i as int) + children_from(
                view,
                parent as int,
                name@,
                i + 1,
            ) =~= before + children_from(view, parent as int, name@, i as int));
        }
        i = i + 1;
    }
    assert(out@.map_values(|i: usize| i as int) =~= whole);
    out
}

/// The first element of a given name inside a node.
pub fn first_child_of(doc: &Vec<XmlNode>, parent: usize, name: &str) -> (r: Option<usize>)
    ensures
        match r {
            Some(i) => first_child(doc.deep_view(), parent as int, name@) == Some(i as int) && i
                < doc@.len(),
            None => first_child(doc.deep_view(), parent as int, name@) is None,
        },
{
    let all: Vec<usize> = children_of(doc, parent, name);
    let ghost whole = children(doc.deep_view(), parent as int, name@);
    assert(whole.len() == all@.len());
    if all.len() > 0 {
        assert(whole[0] == all@[0]);
        Some(all[0])
    } else {
        None
    }
}

/// The value of an attribute of a node.
pub fn attr<'a>(doc: &'a Vec<XmlNode>, node: usize, name: &str) -> (r: Option<&'a str>)
    requires
        node < doc@.len(),
    ensures
        crate::text::opt(r) == attr_of(doc.deep_view(), node as int, name@),
{
    let n: &XmlNode = &doc[node];
    let ghost all = n.attributes.deep_view();
    assert(doc.deep_view()[node as int].attributes == all);
    let mut i: usize = 0;
    while i < n.attributes.len()
        invariant
            i <= n.attributes@.len(),
            all == n.attributes.deep_view(),
            doc.deep_view()[node as int].attributes == all,
            attr_from(all, name@, 0) == attr_from(all, name@, i as int),
        decreases n.attributes@.len() - i,
    {
        assert(all[i as int] == n.attributes@[i as int].deep_view());
        if same(n.attributes[i].0.as_str(), name) {
            return Some(n.attributes[i].1.as_str());
        }
        i = i + 1;
    }
    None
}

/// The value of the first attribute whose name equals `name` up to ASCII case, from position `i` on.
pub open spec fn loose_attr_from(
    attributes: Seq<(Seq<char>, Seq<char>)>,
    name: Seq<char>,
    i: int,
) -> Option<Seq<char>>
    decreases attributes.len() - i,
{
    if i < 0 || i >= attributes.len() {
        None
    } else if lower(attributes[i].0) == lower(name) {
        Some(attributes[i].1)
    } else {
        loose_attr_from(attributes, name, i + 1)
    }
}

/// The value of an attribute of a node, whatever the ASCII case of its name.
pub fn loose_attr<'a>(doc: &'a Vec<XmlNode>, node: usize, name: &str) -> (r: Option<&'a str>)
    requires
        node < doc@.len(),
    ensures
        crate::text::opt(r) == loose_attr_from(
            doc.deep_view()[node as int].attributes,
            name@,
            0,
        ),
{
    let n: &XmlNode = &doc[node];
    let ghost all = n.attributes.deep_view();
    assert(doc.deep_view()[node as int].attributes == all);
    let mut i: usize = 0;
    while i < n.attributes.len()
        invariant
            i <= n.attributes@.len(),
            all == n.attributes.deep_view(),
            doc.deep_view()[node as int].attributes == all,
            loose_attr_from(all, name@, 0) == loose_attr_from(all, name@, i as int),
        decreases n.attributes@.len() - i,
    {
        assert(all[i as int] == n.attributes@[i as int].deep_view());
        if same_ignoring_case(n.attributes[i].0.as_str(), name) {
            return Some(n.attributes[i].1.as_str());
        }
        i = i + 1;
    }
    None
}

/// The first element of a name in the document.
pub fn find_element(doc: &Vec<XmlNode>, name: &str) -> (r: Option<usize>)
    ensures
        match r {
            Some(i) => element_from(doc.deep_view(), name@, 0) == Some(i as int) && i < doc@.len(),
            None => element_from(doc.deep_view(), name@, 0) is None,
        },
{
    let ghost view = doc.deep_view();
    let mut i: usize = 0;
    while i < doc.len()
        invariant
            i <= doc@.len(),
            view == doc.deep_view(),
            element_from(view, name@, 0) == element_from(view, name@, i as int),
        decreases doc@.len() - i,
    {
        assert(view[i as int] == doc@[i as int].deep_view());
        if doc[i].is_element && same(doc[i].name.as_str(), name) {
            return Some(i);
        }
        i = i + 1;
    }
    None
}

} // verus!
