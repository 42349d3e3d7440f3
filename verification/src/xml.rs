//! A tree of XML elements, and how to find one's way in it.
//!
//! The tree holds elements only: for an element its name, its attributes,
//! its child elements in order, and the text it starts with, if it starts
//! with text.

use crate::text::str_equal;
use vstd::prelude::*;

verus! {

#[derive(Debug)]
pub struct XmlAttr {
    /// The namespace of the attribute's name, if it has one.
    pub namespace: Option<String>,
    /// The local part of the attribute's name.
    pub name: String,
    pub value: String,
}

#[derive(Debug)]
pub struct XmlNode {
    /// The namespace of the element's name, if it has one.
    pub namespace: Option<String>,
    /// The local part of the element's name.
    pub name: String,
    pub attributes: Vec<XmlAttr>,
    pub children: Vec<XmlNode>,
    /// The text that the element starts with.
    pub text: Option<String>,
}

pub open spec fn in_namespace(namespace: Option<String>, ns: Seq<char>) -> bool {
    namespace matches Some(n) && n@ == ns
}

impl XmlNode {
    /// Whether the element has a name in a namespace.
    pub open spec fn named(&self, ns: Seq<char>, name: Seq<char>) -> bool {
        self.name@ == name && in_namespace(self.namespace, ns)
    }

    pub fn has_name(&self, ns: &str, name: &str) -> (b: bool)
        ensures
            b == self.named(ns@, name@),
    {
        let here = match &self.namespace {
            Some(n) => str_equal(n.as_str(), ns),
            None => false,
        };
        here && str_equal(self.name.as_str(), name)
    }

    /// The index of the first child at or after `from` with a name.
    pub open spec fn child_index(&self, ns: Seq<char>, name: Seq<char>, from: int) -> Option<int>
        decreases self.children@.len() - from,
    {
        if 0 <= from < self.children@.len() {
            if self.children@[from].named(ns, name) {
                Some(from)
            } else {
                self.child_index(ns, name, from + 1)
            }
        } else {
            None
        }
    }

    /// The first child with a name.
    pub open spec fn child_named(&self, ns: Seq<char>, name: Seq<char>) -> Option<XmlNode> {
        match self.child_index(ns, name, 0) {
            Some(i) => Some(self.children@[i]),
            None => None,
        }
    }

    /// Finds the first child with a name.
    pub fn child(&self, ns: &str, name: &str) -> (c: Option<&XmlNode>)
        ensures
            match c {
                Some(n) => self.child_named(ns@, name@) == Some(*n) && n.named(ns@, name@),
                None => self.child_named(ns@, name@) is None,
            },
    {
        let mut i: usize = 0;
        while i < self.children.len()
            invariant
                i <= self.children@.len(),
                self.child_index(ns@, name@, 0) == self.child_index(ns@, name@, i as int),
            decreases self.children.len() - i,
        {
            if self.children[i].has_name(ns, name) {
                return Some(&self.children[i]);
            }
            i += 1;
        }
        None
    }

    /// The index of the first attribute at or after `from` with a local
    /// name, whatever its namespace.
    pub open spec fn attr_index(&self, name: Seq<char>, from: int) -> Option<int>
        decreases self.attributes@.len() - from,
    {
        if 0 <= from < self.attributes@.len() {
            if self.attributes@[from].name@ == name {
                Some(from)
            } else {
                self.attr_index(name, from + 1)
            }
        } else {
            None
        }
    }

    /// The index of the first attribute at or after `from` with a name in a
    /// namespace.
    pub open spec fn attr_index_ns(&self, ns: Seq<char>, name: Seq<char>, from: int) -> Option<int>
        decreases self.attributes@.len() - from,
    {
        if 0 <= from < self.attributes@.len() {
            if self.attributes@[from].name@ == name && in_namespace(
                self.attributes@[from].namespace,
                ns,
            ) {
                Some(from)
            } else {
                self.attr_index_ns(ns, name, from + 1)
            }
        } else {
            None
        }
    }

    /// The value of the first attribute with a local name.
    pub open spec fn attr_value(&self, name: Seq<char>) -> Option<Seq<char>> {
        match self.attr_index(name, 0) {
            Some(i) => Some(self.attributes@[i].value@),
            None => None,
        }
    }

    /// The value of the first attribute with a name in a namespace.
    pub open spec fn attr_value_ns(&self, ns: Seq<char>, name: Seq<char>) -> Option<Seq<char>> {
        match self.attr_index_ns(ns, name, 0) {
            Some(i) => Some(self.attributes@[i].value@),
            None => None,
        }
    }

    pub fn attribute(&self, name: &str) -> (v: Option<&str>)
        ensures
            match v {
                Some(s) => self.attr_value(name@) == Some(s@),
                None => self.attr_value(name@) is None,
            },
    {
        let mut i: usize = 0;
        while i < self.attributes.len()
            invariant
                i <= self.attributes@.len(),
                self.attr_index(name@, 0) == self.attr_index(name@, i as int),
            decreases self.attributes.len() - i,
        {
            if str_equal(self.attributes[i].name.as_str(), name) {
                return Some(self.attributes[i].value.as_str());
            }
            i += 1;
        }
        None
    }

    pub fn attribute_ns(&self, ns: &str, name: &str) -> (v: Option<&str>)
        ensures
            match v {
                Some(s) => self.attr_value_ns(ns@, name@) == Some(s@),
                None => self.attr_value_ns(ns@, name@) is None,
            },
    {
        let mut i: usize = 0;
        while i < self.attributes.len()
            invariant
                i <= self.attributes@.len(),
                self.attr_index_ns(ns@, name@, 0) == self.attr_index_ns(ns@, name@, i as int),
            decreases self.attributes.len() - i,
        {
            let a = &self.attributes[i];
            let here = match &a.namespace {
                Some(n) => str_equal(n.as_str(), ns),
                None => false,
            };
            if here && str_equal(a.name.as_str(), name) {
                return Some(a.value.as_str());
            }
            i += 1;
        }
        None
    }
}

/// The first element with a name among an element and all elements below
/// it, in document order.
pub open spec fn first_named(node: XmlNode, ns: Seq<char>, name: Seq<char>) -> Option<XmlNode>
    decreases node, node.children@.len() + 1,
{
    if node.named(ns, name) {
        Some(node)
    } else {
        named_below(node, ns, name, 0)
    }
}

/// The first element with a name among the children of an element from
/// child `from` on, and all elements below them.
pub open spec fn named_below(node: XmlNode, ns: Seq<char>, name: Seq<char>, from: int) -> Option<
    XmlNode,
>
    decreases node, node.children@.len() - from,
{
    if 0 <= from < node.children@.len() {
        match first_named(node.children@[from], ns, name) {
            Some(n) => Some(n),
            None => named_below(node, ns, name, from + 1),
        }
    } else {
        None
    }
}

/// Finds the first element with a name among an element and all elements
/// below it.
pub fn find_named<'a>(node: &'a XmlNode, ns: &str, name: &str) -> (found: Option<&'a XmlNode>)
    ensures
        match found {
            Some(n) => first_named(*node, ns@, name@) == Some(*n),
            None => first_named(*node, ns@, name@) is None,
        },
    decreases node,
{
    if node.has_name(ns, name) {
        return Some(node);
    }
    let mut i: usize = 0;
    while i < node.children.len()
        invariant
            i <= node.children@.len(),
            !node.named(ns@, name@),
            first_named(*node, ns@, name@) == named_below(*node, ns@, name@, i as int),
        decreases node.children.len() - i,
    {
        match find_named(&node.children[i], ns, name) {
            Some(n) => {
                return Some(n);
            },
            None => {},
        }
        i += 1;
    }
    None
}

/// Every element with a name among an element and all elements below it,
/// in document order.
pub open spec fn all_named(node: XmlNode, ns: Seq<char>, name: Seq<char>) -> Seq<XmlNode>
    decreases node, node.children@.len() + 1,
{
    let own = if node.named(ns, name) {
        seq![node]
    } else {
        Seq::empty()
    };
    own + all_below(node, ns, name, node.children@.len() as int)
}

/// Every element with a name among the first `n` children of an element
/// and all elements below them.
pub open spec fn all_below(node: XmlNode, ns: Seq<char>, name: Seq<char>, n: int) -> Seq<XmlNode>
    decreases node, n,
{
    if 0 < n <= node.children@.len() {
        all_below(node, ns, name, n - 1) + all_named(node.children@[n - 1], ns, name)
    } else {
        Seq::empty()
    }
}

pub open spec fn nodes_view(nodes: Seq<&XmlNode>) -> Seq<XmlNode> {
    Seq::new(nodes.len(), |i: int| *nodes[i])
}

/// Gathers every element with a name among an element and all elements
/// below it, behind those that are gathered already.
pub fn collect_named<'a>(node: &'a XmlNode, ns: &str, name: &str, found: &mut Vec<&'a XmlNode>)
    ensures
        nodes_view(final(found)@) == nodes_view(old(found)@) + all_named(*node, ns@, name@),
    decreases node,
{
    let ghost start = nodes_view(found@);
    if node.has_name(ns, name) {
        found.push(node);
    }
    let ghost own = if node.named(ns@, name@) {
        seq![*node]
    } else {
        Seq::empty()
    };
    let mut i: usize = 0;
    while i < node.children.len()
        invariant
            i <= node.children@.len(),
            nodes_view(found@) == start + own + all_below(*node, ns@, name@, i as int),
        decreases node.children.len() - i,
    {
        collect_named(&node.children[i], ns, name, found);
        i += 1;
    }
}

} // verus!
