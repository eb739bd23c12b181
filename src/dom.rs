//! A minimal document tree: what the extraction reads of parsed markup.

use vstd::prelude::*;

verus! {

/// One node of a parsed document: a run of text, an element with its
/// attributes and ordered children, or a comment.
#[derive(Debug, PartialEq, Eq)]
pub enum Node {
    Text(String),
    Element { name: String, attrs: Vec<(String, String)>, children: Vec<Node> },
    Comment(String),
}

/// The concatenation of every text node in `n`'s subtree, in document order.
pub open spec fn text_content(n: Node) -> Seq<char>
    decreases n,
{
    match n {
        Node::Text(t) => t@,
        Node::Element { children, .. } => text_content_all(children@),
        Node::Comment(_) => Seq::empty(),
    }
}

/// The concatenation of `text_content` over a sequence of sibling nodes.
pub open spec fn text_content_all(s: Seq<Node>) -> Seq<char>
    decreases s,
{
    if s.len() == 0 {
        Seq::empty()
    } else {
        text_content_all(s.drop_last()) + text_content(s.last())
    }
}

/// The value of the first attribute in `attrs` whose name is `key`.
pub open spec fn attr_value(attrs: Seq<(String, String)>, key: Seq<char>) -> Option<Seq<char>>
    decreases attrs.len(),
{
    if attrs.len() == 0 {
        None
    } else if attrs[0].0@ == key {
        Some(attrs[0].1@)
    } else {
        attr_value(attrs.drop_first(), key)
    }
}

/// The value of attribute `key` on `n`; only elements carry attributes.
pub open spec fn attr_of(n: Node, key: Seq<char>) -> Option<Seq<char>> {
    match n {
        Node::Element { attrs, .. } => attr_value(attrs@, key),
        _ => None,
    }
}

/// Whether `n` is an element whose tag name is `tag`.
pub open spec fn is_element_named(n: Node, tag: Seq<char>) -> bool {
    n matches Node::Element { name, .. } && name@ == tag
}

/// The children of `n`; nodes other than elements have none.
pub open spec fn children_of(n: Node) -> Seq<Node> {
    match n {
        Node::Element { children, .. } => children@,
        _ => Seq::empty(),
    }
}

/// A test on one node: its tag name, or the exact value of one attribute.
#[derive(Clone, Copy, Debug, PartialEq, Eq)]
pub enum Selector<'a> {
    Name(&'a str),
    Attr(&'a str, &'a str),
}

/// Whether `sel` accepts `n`.
pub open spec fn selects(sel: Selector, n: Node) -> bool {
    match sel {
        Selector::Name(tag) => is_element_named(n, tag@),
        Selector::Attr(key, value) => attr_of(n, key@) == Some(value@),
    }
}

/// The first node of `n`'s subtree, `n` included, that `sel` accepts, in
/// document order.
pub open spec fn find_in_tree(n: Node, sel: Selector) -> Option<Node>
    decreases n,
{
    if selects(sel, n) {
        Some(n)
    } else {
        match n {
            Node::Element { children, .. } => find_in_forest(children@, sel),
            _ => None,
        }
    }
}

/// The first node, in document order, of the subtrees rooted at `s` that
/// `sel` accepts.
pub open spec fn find_in_forest(s: Seq<Node>, sel: Selector) -> Option<Node>
    decreases s,
{
    if s.len() == 0 {
        None
    } else {
        match find_in_tree(s[0], sel) {
            Some(x) => Some(x),
            None => find_in_forest(s.drop_first(), sel),
        }
    }
}

/// The first proper descendant of `n` that `sel` accepts, in document order.
pub open spec fn find_below(n: Node, sel: Selector) -> Option<Node> {
    find_in_forest(children_of(n), sel)
}

/// `o` with the reference taken away.
pub open spec fn deref_opt(o: Option<&Node>) -> Option<Node> {
    match o {
        Some(x) => Some(*x),
        None => None,
    }
}

impl<'a> Selector<'a> {
    /// Whether this selector accepts `n`.
    pub fn accepts(&self, n: &Node) -> (r: bool)
        ensures
            r == selects(*self, *n),
    {
        match self {
            Selector::Name(tag) => n.is_named(tag),
            Selector::Attr(key, value) => match n.attr(key) {
                Some(v) => v.to_owned() == (*value).to_owned(),
                None => false,
            },
        }
    }
}

/// The first node of the subtrees rooted at `nodes` that `sel` accepts, in
/// document order.
pub fn find_first<'n>(nodes: &'n [Node], sel: &Selector) -> (r: Option<&'n Node>)
    ensures
        deref_opt(r) == find_in_forest(nodes@, *sel),
    decreases nodes@,
{
    let mut i: usize = 0;
    assert(nodes@.skip(0) =~= nodes@);
    while i < nodes.len()
        invariant
            i <= nodes.len(),
            find_in_forest(nodes@, *sel) == find_in_forest(nodes@.skip(i as int), *sel),
        decreases nodes.len() - i,
    {
        assert(nodes@.skip(i as int).drop_first() =~= nodes@.skip(i + 1));
        let n = &nodes[i];
        assert(nodes@.skip(i as int)[0] == *n);
        if sel.accepts(n) {
            assert(find_in_tree(*n, *sel) == Some(*n));
            assert(find_in_forest(nodes@.skip(i as int), *sel) == Some(*n));
            return Some(n);
        }
        if let Node::Element { children, .. } = n {
            assert(decreases_to!(nodes@ => children@)) by {
                assert(decreases_to!(nodes@ => nodes@[i as int]));
                assert(decreases_to!(nodes@[i as int] => nodes@[i as int]->children));
                assert(decreases_to!(nodes@[i as int]->children => children@));
            }
            if let Some(x) = find_first(children.as_slice(), sel) {
                assert(find_in_tree(*n, *sel) == Some(*x));
                assert(find_in_forest(nodes@.skip(i as int), *sel) == Some(*x));
                return Some(x);
            }
        }
        i = i + 1;
    }
    None
}

impl Node {
    /// The first proper descendant of this node that `sel` accepts, in
    /// document order.
    pub fn find(&self, sel: &Selector) -> (r: Option<&Node>)
        ensures
            deref_opt(r) == find_below(*self, *sel),
    {
        find_first(self.children(), sel)
    }

    /// The tag name, for an element.
    pub fn name(&self) -> (r: Option<&str>)
        ensures
            r.deep_view() == match *self {
                Node::Element { name, .. } => Some(name@),
                _ => None,
            },
    {
        match self {
            Node::Element { name, .. } => Some(name.as_str()),
            _ => None,
        }
    }

    /// Whether this node is an element whose tag name is `tag`.
    pub fn is_named(&self, tag: &str) -> (r: bool)
        ensures
            r == is_element_named(*self, tag@),
    {
        match self {
            Node::Element { name, .. } => *name == tag.to_owned(),
            _ => false,
        }
    }

    /// The value of the first attribute named `key`, for an element.
    pub fn attr(&self, key: &str) -> (r: Option<&str>)
        ensures
            r.deep_view() == attr_of(*self, key@),
    {
        match self {
            Node::Element { attrs, .. } => {
                let want = key.to_owned();
                let mut i: usize = 0;
                assert(attrs@.skip(0) =~= attrs@);
                while i < attrs.len()
                    invariant
                        i <= attrs.len(),
                        *self is Element,
                        (*self)->attrs == *attrs,
                        want@ == key@,
                        attr_value(attrs@, key@) == attr_value(attrs@.skip(i as int), key@),
                    decreases attrs.len() - i,
                {
                    assert(attrs@.skip(i as int).drop_first() =~= attrs@.skip(i + 1));
                    if attrs[i].0 == want {
                        return Some(attrs[i].1.as_str());
                    }
                    i = i + 1;
                }
                None
            },
            _ => None,
        }
    }

    /// The children of this node, in document order.
    pub fn children(&self) -> (r: &[Node])
        ensures
            r@ == children_of(*self),
    {
        match self {
            Node::Element { children, .. } => children.as_slice(),
            _ => &[],
        }
    }

    /// Appends the text content of this node's subtree to `out`.
    pub fn push_text(&self, out: &mut String)
        ensures
            final(out)@ == old(out)@ + text_content(*self),
        decreases self,
    {
        match self {
            Node::Text(t) => {
                out.append(t.as_str());
            },
            Node::Element { children, .. } => {
                let ghost start = out@;
                let mut i: usize = 0;
                while i < children.len()
                    invariant
                        i <= children.len(),
                        *self is Element,
                        (*self)->children == *children,
                        out@ == start + text_content_all(children@.take(i as int)),
                    decreases children.len() - i,
                {
                    assert(children@.take(i + 1).drop_last() =~= children@.take(i as int));
                    assert(decreases_to!(*self => children@[i as int]));
                    children[i].push_text(out);
                    i = i + 1;
                }
                assert(children@.take(i as int) =~= children@);
            },
            Node::Comment(_) => {},
        }
    }
}

} // verus!
