//! The tree model the parser populates: documents, elements, attributes and
//! text/CDATA nodes, together with their mathematical images.

use vstd::prelude::*;

verus! {

broadcast use vstd::std_specs::vec::group_vec_axioms;

/// One attribute of an element: a name and a raw (unexpanded) value.
#[derive(Clone, Debug, PartialEq, Eq)]
pub struct XmlAttr {
    pub name: String,
    pub value: String,
}

/// An element: a name, an ordered attribute list and an ordered child list.
#[derive(Debug, PartialEq, Eq)]
pub struct XmlElem {
    pub name: String,
    pub attributes: Vec<XmlAttr>,
    pub children: Vec<XmlNode>,
}

/// One node of the assembled tree.
#[derive(Debug, PartialEq, Eq)]
pub enum XmlNode {
    Element(XmlElem),
    Text(String),
    CData(String),
}

/// A whole document: the root element, if one was assembled, and the prolog
/// metadata captured from the declaration.
#[derive(Debug, PartialEq, Eq)]
pub struct XmlDoc {
    pub root: Option<XmlElem>,
    pub encoding: Option<String>,
    pub standalone: Option<bool>,
}

/// The mathematical image of an attribute.
pub ghost struct AttrModel {
    pub name: Seq<char>,
    pub value: Seq<char>,
}

/// The mathematical image of a tree node.
pub ghost enum NodeModel {
    Element(ElemModel),
    Text(Seq<char>),
    CData(Seq<char>),
}

/// The mathematical image of an element.
pub ghost struct ElemModel {
    pub name: Seq<char>,
    pub attrs: Seq<AttrModel>,
    pub children: Seq<NodeModel>,
}

/// Maps an attribute to its image.
pub open spec fn attr_view(a: XmlAttr) -> AttrModel {
    AttrModel { name: a.name@, value: a.value@ }
}

/// Maps an attribute list to its image.
pub open spec fn attrs_view(s: Seq<XmlAttr>) -> Seq<AttrModel> {
    s.map_values(|a: XmlAttr| attr_view(a))
}

/// Maps a node to its image.
pub open spec fn node_view(n: XmlNode) -> NodeModel
    decreases n,
{
    match n {
        XmlNode::Element(e) => NodeModel::Element(elem_view(e)),
        XmlNode::Text(s) => NodeModel::Text(s@),
        XmlNode::CData(s) => NodeModel::CData(s@),
    }
}

/// Maps a child list to its image, node by node.
pub open spec fn nodes_view(s: Seq<XmlNode>) -> Seq<NodeModel>
    decreases s,
{
    if s.len() == 0 {
        Seq::empty()
    } else {
        seq![node_view(s[0])] + nodes_view(s.subrange(1, s.len() as int))
    }
}

/// Maps an element to its image.
pub open spec fn elem_view(e: XmlElem) -> ElemModel
    decreases e,
{
    ElemModel { name: e.name@, attrs: attrs_view(e.attributes@), children: nodes_view(e.children@) }
}


/// The image of a node list is index-wise the image of its nodes.
pub proof fn lemma_nodes_view_props(s: Seq<XmlNode>)
    ensures
        nodes_view(s).len() == s.len(),
        forall|i: int| 0 <= i < s.len() ==> nodes_view(s)[i] == node_view(s[i]),
    decreases s.len(),
{
    if s.len() > 0 {
        lemma_nodes_view_props(s.subrange(1, s.len() as int));
    }
}

/// Appending a node appends its image.
pub proof fn lemma_nodes_view_push(s: Seq<XmlNode>, x: XmlNode)
    ensures
        nodes_view(s.push(x)) == nodes_view(s).push(node_view(x)),
{
    lemma_nodes_view_props(s);
    lemma_nodes_view_props(s.push(x));
    assert(nodes_view(s.push(x)) =~= nodes_view(s).push(node_view(x)));
}

/// Whether an attribute list already holds the given name.
pub open spec fn has_attr_name(attrs: Seq<AttrModel>, n: Seq<char>) -> bool {
    exists|i: int| 0 <= i < attrs.len() && attrs[i].name == n
}

/// Decides whether an attribute list already holds the given name.
pub fn attrs_contain(attrs: &Vec<XmlAttr>, n: &String) -> (r: bool)
    ensures
        r == has_attr_name(attrs_view(attrs@), n@),
{
    let mut i: usize = 0;
    while i < attrs.len()
        invariant
            i <= attrs@.len(),
            forall|j: int| 0 <= j < i ==> attrs_view(attrs@)[j].name != n@,
        decreases attrs@.len() - i,
    {
        if attrs[i].name == *n {
            proof {
                assert(attrs_view(attrs@)[i as int].name == n@);
            }
            return true;
        }
        i = i + 1;
    }
    false
}

impl XmlNode {
    /// An exact copy of the node, children included.
    pub fn deep_copy(&self) -> (r: XmlNode)
        ensures
            node_view(r) == node_view(*self),
        decreases *self,
    {
        match self {
            XmlNode::Element(e) => XmlNode::Element(e.deep_copy()),
            XmlNode::Text(s) => XmlNode::Text(s.clone()),
            XmlNode::CData(s) => XmlNode::CData(s.clone()),
        }
    }
}

impl XmlElem {
    /// An exact copy of the element, attributes and children included.
    pub fn deep_copy(&self) -> (r: XmlElem)
        ensures
            elem_view(r) == elem_view(*self),
        decreases *self,
    {
        let mut attributes: Vec<XmlAttr> = Vec::new();
        let mut i: usize = 0;
        while i < self.attributes.len()
            invariant
                i <= self.attributes@.len(),
                attributes@.len() == i,
                forall|j: int|
                    0 <= j < i ==> attr_view(#[trigger] attributes@[j]) == attr_view(
                        self.attributes@[j],
                    ),
            decreases self.attributes@.len() - i,
        {
            let a = XmlAttr {
                name: self.attributes[i].name.clone(),
                value: self.attributes[i].value.clone(),
            };
            attributes.push(a);
            i = i + 1;
        }
        let mut children: Vec<XmlNode> = Vec::new();
        let mut k: usize = 0;
        while k < self.children.len()
            invariant
                k <= self.children@.len(),
                children@.len() == k,
                forall|j: int|
                    0 <= j < k ==> node_view(#[trigger] children@[j]) == node_view(
                        self.children@[j],
                    ),
            decreases self.children@.len() - k,
        {
            let copy = self.children[k].deep_copy();
            children.push(copy);
            k = k + 1;
        }
        let r = XmlElem { name: self.name.clone(), attributes, children };
        proof {
            assert(attrs_view(r.attributes@) =~= attrs_view(self.attributes@));
            lemma_nodes_view_props(r.children@);
            lemma_nodes_view_props(self.children@);
            assert(nodes_view(r.children@) =~= nodes_view(self.children@));
        }
        r
    }
}

impl XmlElem {
    /// Builds an element with the given name and no attributes or children.
    pub fn new(name: String) -> (e: XmlElem)
        ensures
            elem_view(e) == (ElemModel {
                name: name@,
                attrs: Seq::<AttrModel>::empty(),
                children: Seq::<NodeModel>::empty(),
            }),
    {
        let e = XmlElem { name, attributes: Vec::new(), children: Vec::new() };
        proof {
            assert(attrs_view(e.attributes@) =~= Seq::<AttrModel>::empty());
            assert(nodes_view(e.children@) =~= Seq::<NodeModel>::empty());
        }
        e
    }
}


impl XmlDoc {
    /// Builds an empty document: no root, no prolog metadata.
    pub fn new() -> (d: XmlDoc)
        ensures
            d.root is None,
            d.encoding is None,
            d.standalone is None,
    {
        XmlDoc { root: None, encoding: None, standalone: None }
    }

    /// Sets the root element.
    pub fn set_root(&mut self, root: XmlElem)
        ensures
            final(self).root == Some(root),
            final(self).encoding == old(self).encoding,
            final(self).standalone == old(self).standalone,
    {
        self.root = Some(root);
    }

    /// Records the declared encoding.
    pub fn set_encoding(&mut self, encoding: String)
        ensures
            final(self).encoding == Some(encoding),
            final(self).root == old(self).root,
            final(self).standalone == old(self).standalone,
    {
        self.encoding = Some(encoding);
    }

    /// Records the standalone declaration.
    pub fn set_standalone(&mut self, standalone: bool)
        ensures
            final(self).standalone == Some(standalone),
            final(self).root == old(self).root,
            final(self).encoding == old(self).encoding,
    {
        self.standalone = Some(standalone);
    }
}

impl XmlElem {
    /// Appends an attribute unless one of the same name is already present;
    /// reports whether it was appended.
    pub fn append_attribute(&mut self, attr: XmlAttr) -> (ok: bool)
        ensures
            ok == !has_attr_name(attrs_view(old(self).attributes@), attr.name@),
            ok ==> elem_view(*final(self)) == (ElemModel {
                attrs: elem_view(*old(self)).attrs.push(attr_view(attr)),
                ..elem_view(*old(self))
            }),
            !ok ==> *final(self) == *old(self),
    {
        if attrs_contain(&self.attributes, &attr.name) {
            false
        } else {
            let ghost old_attrs = self.attributes@;
            let ghost av = attr_view(attr);
            self.attributes.push(attr);
            proof {
                assert(attrs_view(self.attributes@) =~= attrs_view(old_attrs).push(av));
            }
            true
        }
    }

    /// Appends a child node.
    pub fn append_child(&mut self, child: XmlNode)
        ensures
            elem_view(*final(self)) == (ElemModel {
                children: elem_view(*old(self)).children.push(node_view(child)),
                ..elem_view(*old(self))
            }),
    {
        let ghost old_children = self.children@;
        let ghost cv = node_view(child);
        self.children.push(child);
        proof {
            lemma_nodes_view_push(old_children, child);
        }
    }
}

} // verus!
