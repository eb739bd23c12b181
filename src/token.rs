//! Fragments and tokens: resolving ruby annotations and classifying the
//! children of a paragraph into a flat, ordered token stream.

use vstd::prelude::*;
use crate::dom::{Node, attr_of, children_of, is_element_named, text_content};

verus! {

/// Class marking a `span` that wraps a place name.
pub const LOCATION_CLASS: &'static str = "colorL";

/// Class marking a `span` that wraps a personal name.
pub const NAME_CLASS: &'static str = "colorN";

/// A run of text with its optional phonetic reading.
#[derive(Clone, Debug, PartialEq, Eq)]
pub struct Fragment {
    pub text: String,
    pub furigana: Option<String>,
}

/// A classified unit of paragraph content.
#[derive(Clone, Debug, PartialEq, Eq)]
pub enum Token {
    Location(Vec<Fragment>),
    Name(Vec<Fragment>),
    Other(Fragment),
}

/// The tokens of one paragraph (or title), in document order.
#[derive(Clone, Debug, PartialEq, Eq)]
pub struct Tokens(pub Vec<Token>);

/// How many nested anchors are unwrapped; a node under more anchors than
/// this gives no token.
pub const MAX_LINK_DEPTH: u32 = 8;

/// The semantic category that a wrapper `span` can mark.
#[derive(Clone, Copy, Debug, PartialEq, Eq)]
pub enum Category {
    Location,
    Name,
}

/// Mathematical value of a `Fragment`.
pub struct FragmentView {
    pub text: Seq<char>,
    pub furigana: Option<Seq<char>>,
}

/// Mathematical value of a `Token`.
pub enum TokenView {
    Location(Seq<FragmentView>),
    Name(Seq<FragmentView>),
    Other(FragmentView),
}

impl View for Fragment {
    type V = FragmentView;

    open spec fn view(&self) -> FragmentView {
        FragmentView { text: self.text@, furigana: self.furigana.deep_view() }
    }
}

/// The values of a sequence of fragments.
pub open spec fn fragment_views(s: Seq<Fragment>) -> Seq<FragmentView> {
    s.map_values(|f: Fragment| f@)
}

/// The value of an optional fragment.
pub open spec fn opt_fragment_view(o: Option<Fragment>) -> Option<FragmentView> {
    match o {
        Some(f) => Some(f@),
        None => None,
    }
}

impl View for Token {
    type V = TokenView;

    open spec fn view(&self) -> TokenView {
        match self {
            Token::Location(v) => TokenView::Location(fragment_views(v@)),
            Token::Name(v) => TokenView::Name(fragment_views(v@)),
            Token::Other(f) => TokenView::Other(f@),
        }
    }
}

/// The value of an optional token.
pub open spec fn opt_token_view(o: Option<Token>) -> Option<TokenView> {
    match o {
        Some(t) => Some(t@),
        None => None,
    }
}

impl View for Tokens {
    type V = Seq<TokenView>;

    open spec fn view(&self) -> Seq<TokenView> {
        self.0@.map_values(|t: Token| t@)
    }
}

/// The first text of `n`'s subtree in depth-first order, not looking inside
/// `rt` elements: a reading annotation is never base text.
pub open spec fn base_text(n: Node) -> Option<Seq<char>>
    decreases n,
{
    match n {
        Node::Text(t) => Some(t@),
        Node::Element { name, children, .. } => {
            if name@ == "rt"@ {
                None
            } else {
                base_text_all(children@)
            }
        },
        Node::Comment(_) => None,
    }
}

/// The first `base_text` found among sibling nodes, in order.
pub open spec fn base_text_all(s: Seq<Node>) -> Option<Seq<char>>
    decreases s,
{
    if s.len() == 0 {
        None
    } else {
        match base_text(s[0]) {
            Some(t) => Some(t),
            None => base_text_all(s.drop_first()),
        }
    }
}

/// The first `rt` element among sibling nodes.
pub open spec fn first_rt(s: Seq<Node>) -> Option<Node>
    decreases s.len(),
{
    if s.len() == 0 {
        None
    } else if is_element_named(s[0], "rt"@) {
        Some(s[0])
    } else {
        first_rt(s.drop_first())
    }
}

/// What a ruby element with these children resolves to: its base text, and
/// the full text of its first `rt` child as the reading; nothing without
/// base text.
pub open spec fn ruby_fragment(children: Seq<Node>) -> Option<FragmentView> {
    match base_text_all(children) {
        None => None,
        Some(t) => Some(
            FragmentView {
                text: t,
                furigana: match first_rt(children) {
                    Some(rt) => Some(text_content(rt)),
                    None => None,
                },
            },
        ),
    }
}

/// What a single node resolves to: a text node gives its text with no
/// reading, a `ruby` element its annotated text, anything else nothing.
pub open spec fn fragment_of(n: Node) -> Option<FragmentView> {
    match n {
        Node::Text(t) => Some(FragmentView { text: t@, furigana: None }),
        Node::Element { name, children, .. } => {
            if name@ == "ruby"@ {
                ruby_fragment(children@)
            } else {
                None
            }
        },
        Node::Comment(_) => None,
    }
}

/// The fragments that a sequence of sibling nodes resolves to, in order,
/// skipping those that resolve to nothing.
pub open spec fn fragments_of(s: Seq<Node>) -> Seq<FragmentView>
    decreases s.len(),
{
    if s.len() == 0 {
        Seq::empty()
    } else {
        fragments_of(s.drop_last()) + match fragment_of(s.last()) {
            Some(f) => seq![f],
            None => Seq::empty(),
        }
    }
}

/// The category that a `span` with this `class` attribute marks.
pub open spec fn category_of(class: Option<Seq<char>>) -> Option<Category> {
    if class == Some(LOCATION_CLASS@) {
        Some(Category::Location)
    } else if class == Some(NAME_CLASS@) {
        Some(Category::Name)
    } else {
        None
    }
}

/// The token that one node of a paragraph classifies to, if any, with at
/// most `links` anchors left to unwrap: a marked `span` gives a location or
/// name made of its children's fragments, an anchor is replaced by its first
/// child, any other span gives nothing, and any other node gives its
/// fragment.
pub open spec fn token_within(n: Node, links: nat) -> Option<TokenView>
    decreases n,
{
    match n {
        Node::Element { name, children, .. } => {
            if name@ == "span"@ {
                match category_of(attr_of(n, "class"@)) {
                    Some(Category::Location) => Some(TokenView::Location(fragments_of(children@))),
                    Some(Category::Name) => Some(TokenView::Name(fragments_of(children@))),
                    None => None,
                }
            } else if name@ == "a"@ {
                if children.len() == 0 || links == 0 {
                    None
                } else {
                    token_within(children@[0], (links - 1) as nat)
                }
            } else {
                match fragment_of(n) {
                    Some(f) => Some(TokenView::Other(f)),
                    None => None,
                }
            }
        },
        _ => match fragment_of(n) {
            Some(f) => Some(TokenView::Other(f)),
            None => None,
        },
    }
}

/// The token that one node of a paragraph classifies to (see
/// `token_within`), unwrapping at most `MAX_LINK_DEPTH` nested anchors.
pub open spec fn token_of(n: Node) -> Option<TokenView> {
    token_within(n, MAX_LINK_DEPTH as nat)
}

/// The tokens that a sequence of sibling nodes classifies to: one per node
/// that yields a token, in document order.
pub open spec fn tokens_of(s: Seq<Node>) -> Seq<TokenView>
    decreases s.len(),
{
    if s.len() == 0 {
        Seq::empty()
    } else {
        tokens_of(s.drop_last()) + match token_of(s.last()) {
            Some(t) => seq![t],
            None => Seq::empty(),
        }
    }
}

/// The first base text in `n`'s subtree (see `base_text`).
fn find_base_text(n: &Node) -> (r: Option<String>)
    ensures
        r.deep_view() == base_text(*n),
    decreases n,
{
    match n {
        Node::Text(t) => Some(t.clone()),
        Node::Element { name, children, .. } => {
            if *name == "rt".to_owned() {
                return None;
            }
            let mut i: usize = 0;
            assert(children@.skip(0) =~= children@);
            while i < children.len()
                invariant
                    i <= children.len(),
                    *n is Element,
                    (*n)->children == *children,
                    (*n)->name@ != "rt"@,
                    base_text(*n) == base_text_all(children@.skip(i as int)),
                decreases children.len() - i,
            {
                assert(children@.skip(i as int).drop_first() =~= children@.skip(i + 1));
                assert(decreases_to!(*n => children@[i as int]));
                let found = find_base_text(&children[i]);
                if found.is_some() {
                    return found;
                }
                i = i + 1;
            }
            None
        },
        Node::Comment(_) => None,
    }
}

/// The full text of the first `rt` element among `nodes`, if there is one.
fn find_reading(nodes: &[Node]) -> (r: Option<String>)
    ensures
        r.deep_view() == match first_rt(nodes@) {
            Some(rt) => Some(text_content(rt)),
            None => None,
        },
{
    let mut i: usize = 0;
    assert(nodes@.skip(0) =~= nodes@);
    while i < nodes.len()
        invariant
            i <= nodes.len(),
            first_rt(nodes@) == first_rt(nodes@.skip(i as int)),
        decreases nodes.len() - i,
    {
        assert(nodes@.skip(i as int).drop_first() =~= nodes@.skip(i + 1));
        if nodes[i].is_named("rt") {
            let mut out = String::new();
            nodes[i].push_text(&mut out);
            return Some(out);
        }
        i = i + 1;
    }
    None
}

/// Resolves a ruby element: its first base text, read as the full text of
/// its first `rt` child. Nothing without base text.
pub fn parse_ruby(node: &Node) -> (r: Option<Fragment>)
    ensures
        opt_fragment_view(r) == ruby_fragment(children_of(*node)),
{
    let children = node.children();
    let mut i: usize = 0;
    assert(children@.skip(0) =~= children@);
    while i < children.len()
        invariant
            i <= children.len(),
            children@ == children_of(*node),
            base_text_all(children@) == base_text_all(children@.skip(i as int)),
        decreases children.len() - i,
    {
        assert(children@.skip(i as int).drop_first() =~= children@.skip(i + 1));
        if let Some(text) = find_base_text(&children[i]) {
            return Some(Fragment { text, furigana: find_reading(children) });
        }
        i = i + 1;
    }
    None
}

/// Resolves one node to a fragment: a text node to its text with no
/// reading, a `ruby` element as `parse_ruby` does, anything else to nothing.
pub fn parse_fragment(node: &Node) -> (r: Option<Fragment>)
    ensures
        opt_fragment_view(r) == fragment_of(*node),
{
    match node {
        Node::Text(t) => Some(Fragment::from(t.clone())),
        Node::Element { .. } => {
            if node.is_named("ruby") {
                parse_ruby(node)
            } else {
                None
            }
        },
        Node::Comment(_) => None,
    }
}

/// Resolves each node, in order, keeping the fragments that result.
pub fn parse_fragments(nodes: &[Node]) -> (r: Vec<Fragment>)
    ensures
        fragment_views(r@) == fragments_of(nodes@),
{
    let mut out: Vec<Fragment> = Vec::new();
    let mut i: usize = 0;
    while i < nodes.len()
        invariant
            i <= nodes.len(),
            fragment_views(out@) == fragments_of(nodes@.take(i as int)),
        decreases nodes.len() - i,
    {
        assert(nodes@.take(i + 1).drop_last() =~= nodes@.take(i as int));
        let ghost before = out@;
        if let Some(f) = parse_fragment(&nodes[i]) {
            out.push(f);
            assert(fragment_views(out@) =~= fragment_views(before) + seq![f@]);
        } else {
            assert(fragment_views(out@) =~= fragment_views(before) + Seq::<FragmentView>::empty());
        }
        i = i + 1;
    }
    assert(nodes@.take(i as int) =~= nodes@);
    out
}

/// Looks a `span`'s class attribute up in the table of marked categories.
pub fn span_category(class: Option<&str>) -> (r: Option<Category>)
    ensures
        r == category_of(class.deep_view()),
{
    match class {
        Some(c) => {
            let c = c.to_owned();
            if c == LOCATION_CLASS.to_owned() {
                Some(Category::Location)
            } else if c == NAME_CLASS.to_owned() {
                Some(Category::Name)
            } else {
                None
            }
        },
        None => None,
    }
}

/// Classifies one node with at most `links` anchors left to unwrap (see
/// `token_within`).
fn parse_token_within(node: &Node, links: u32) -> (r: Option<Token>)
    ensures
        opt_token_view(r) == token_within(*node, links as nat),
    decreases node,
{
    if node.is_named("span") {
        let fragments = parse_fragments(node.children());
        match span_category(node.attr("class")) {
            Some(Category::Location) => Some(Token::Location(fragments)),
            Some(Category::Name) => Some(Token::Name(fragments)),
            None => None,
        }
    } else if node.is_named("a") {
        let children = node.children();
        if children.len() == 0 || links == 0 {
            None
        } else {
            assert(decreases_to!(*node => children@[0]));
            parse_token_within(&children[0], links - 1)
        }
    } else {
        match parse_fragment(node) {
            Some(f) => Some(Token::Other(f)),
            None => None,
        }
    }
}

/// Classifies one node of a paragraph (see `token_of`).
pub fn parse_token(node: &Node) -> (r: Option<Token>)
    ensures
        opt_token_view(r) == token_of(*node),
{
    parse_token_within(node, MAX_LINK_DEPTH)
}

/// Classifies a sequence of sibling nodes, in order, keeping one token for
/// each node that yields one.
pub fn classify(nodes: &[Node]) -> (r: Tokens)
    ensures
        r@ == tokens_of(nodes@),
{
    let mut out: Vec<Token> = Vec::new();
    let mut i: usize = 0;
    while i < nodes.len()
        invariant
            i <= nodes.len(),
            Tokens(out)@ == tokens_of(nodes@.take(i as int)),
        decreases nodes.len() - i,
    {
        assert(nodes@.take(i + 1).drop_last() =~= nodes@.take(i as int));
        let ghost before = Tokens(out)@;
        if let Some(t) = parse_token(&nodes[i]) {
            out.push(t);
            assert(Tokens(out)@ =~= before + seq![t@]);
        } else {
            assert(Tokens(out)@ =~= before + Seq::<TokenView>::empty());
        }
        i = i + 1;
    }
    assert(nodes@.take(i as int) =~= nodes@);
    Tokens(out)
}

/// Classifies the children of a paragraph (or title) element.
pub fn parse_tokens(node: &Node) -> (r: Tokens)
    ensures
        r@ == tokens_of(children_of(*node)),
{
    classify(node.children())
}

impl From<String> for Fragment {
    /// A fragment of plain text, without a reading.
    fn from(text: String) -> (r: Fragment)
        ensures
            r.text == text,
            r.furigana.is_none(),
    {
        Fragment { text, furigana: None }
    }
}

impl vstd::std_specs::convert::FromSpecImpl<String> for Fragment {
    open spec fn obeys_from_spec() -> bool {
        true
    }

    open spec fn from_spec(text: String) -> Fragment {
        Fragment { text, furigana: None }
    }
}

/// Classifying no siblings yields no tokens.
pub proof fn lemma_classify_empty()
    ensures
        tokens_of(Seq::empty()) == Seq::<TokenView>::empty(),
{
}

/// Classification keeps document order: the tokens of two consecutive runs
/// of siblings are the tokens of the first run followed by those of the
/// second.
pub proof fn lemma_classify_concat(a: Seq<Node>, b: Seq<Node>)
    ensures
        tokens_of(a + b) == tokens_of(a) + tokens_of(b),
    decreases b.len(),
{
    if b.len() == 0 {
        assert(a + b =~= a);
        assert(tokens_of(b) =~= Seq::<TokenView>::empty());
        assert(tokens_of(a) + tokens_of(b) =~= tokens_of(a));
    } else {
        assert((a + b).drop_last() =~= a + b.drop_last());
        assert((a + b).last() == b.last());
        lemma_classify_concat(a, b.drop_last());
        assert(tokens_of(a + b) =~= tokens_of(a) + tokens_of(b));
    }
}

/// A single sibling contributes exactly its own classification: one token
/// if it yields one, none otherwise.
pub proof fn lemma_classify_single(n: Node)
    ensures
        tokens_of(seq![n]) == match token_of(n) {
            Some(t) => seq![t],
            None => Seq::<TokenView>::empty(),
        },
{
    assert(seq![n].drop_last() =~= Seq::<Node>::empty());
    assert(seq![n].last() == n);
    assert(tokens_of(Seq::<Node>::empty()) == Seq::<TokenView>::empty());
    assert(tokens_of(seq![n]) =~= match token_of(n) {
        Some(t) => seq![t],
        None => Seq::<TokenView>::empty(),
    });
}

/// Each sibling yields at most one token, so there are never more tokens
/// than siblings.
pub proof fn lemma_classify_len(s: Seq<Node>)
    ensures
        tokens_of(s).len() <= s.len(),
    decreases s.len(),
{
    if s.len() > 0 {
        lemma_classify_len(s.drop_last());
    }
}

/// Resolving one node twice gives equal fragments: resolution depends on
/// the node alone.
pub proof fn lemma_fragment_repeatable(n: Node, first: Option<Fragment>, second: Option<Fragment>)
    requires
        opt_fragment_view(first) == fragment_of(n),
        opt_fragment_view(second) == fragment_of(n),
    ensures
        opt_fragment_view(first) == opt_fragment_view(second),
{
}

/// Classifying one node twice gives equal tokens: classification depends on
/// the node alone.
pub proof fn lemma_token_repeatable(n: Node, first: Option<Token>, second: Option<Token>)
    requires
        opt_token_view(first) == token_of(n),
        opt_token_view(second) == token_of(n),
    ensures
        opt_token_view(first) == opt_token_view(second),
{
}

} // verus!
