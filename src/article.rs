//! Assembling an article from the tree of its page: title, lead image,
//! video marker and paragraphs.

use vstd::prelude::*;
use crate::dom::{Node, Selector, attr_of, children_of, deref_opt, find_below, find_in_forest, is_element_named};
use crate::token::{TokenView, Tokens, parse_tokens, tokens_of};

verus! {

/// The lead image of an article.
#[derive(Clone, Debug, PartialEq, Eq)]
pub struct Image {
    pub url: String,
    pub caption: Option<String>,
}

/// The content of one news article.
#[derive(Clone, Debug, PartialEq, Eq)]
pub struct Article {
    pub title: Tokens,
    pub image: Option<Image>,
    pub video: Option<String>,
    pub paragraphs: Vec<Tokens>,
}

/// Mathematical value of an `Image`.
pub struct ImageView {
    pub url: Seq<char>,
    pub caption: Option<Seq<char>>,
}

/// Mathematical value of an `Article`.
pub struct ArticleView {
    pub title: Seq<TokenView>,
    pub image: Option<ImageView>,
    pub video: Option<Seq<char>>,
    pub paragraphs: Seq<Seq<TokenView>>,
}

impl View for Image {
    type V = ImageView;

    open spec fn view(&self) -> ImageView {
        ImageView { url: self.url@, caption: self.caption.deep_view() }
    }
}

/// The values of a sequence of paragraphs.
pub open spec fn paragraph_views(s: Seq<Tokens>) -> Seq<Seq<TokenView>> {
    s.map_values(|t: Tokens| t@)
}

impl View for Article {
    type V = ArticleView;

    open spec fn view(&self) -> ArticleView {
        ArticleView {
            title: self.title@,
            image: match self.image {
                Some(i) => Some(i@),
                None => None,
            },
            video: self.video.deep_view(),
            paragraphs: paragraph_views(self.paragraphs@),
        }
    }
}

/// The value of an optional article.
pub open spec fn opt_article_view(o: Option<Article>) -> Option<ArticleView> {
    match o {
        Some(a) => Some(a@),
        None => None,
    }
}

/// Whether `n` carries the id of the article body.
pub open spec fn is_article_body(n: Node) -> bool {
    attr_of(n, "id"@) == Some("newsarticle"@)
}

/// The non-empty token sequences of the `p` elements in `n`'s subtree, `n`
/// included, in document order; a `p` counts only inside the article body
/// (`inside`: an ancestor of `n`, or `n`'s container, is the body).
pub open spec fn paragraphs_in_tree(n: Node, inside: bool) -> Seq<Seq<TokenView>>
    decreases n,
{
    let here = if inside && is_element_named(n, "p"@) && tokens_of(children_of(n)).len() > 0 {
        seq![tokens_of(children_of(n))]
    } else {
        Seq::empty()
    };
    match n {
        Node::Element { children, .. } => here + paragraphs_in_forest(
            children@,
            inside || is_article_body(n),
        ),
        _ => here,
    }
}

/// `paragraphs_in_tree` over a sequence of siblings, in order.
pub open spec fn paragraphs_in_forest(s: Seq<Node>, inside: bool) -> Seq<Seq<TokenView>>
    decreases s,
{
    if s.len() == 0 {
        Seq::empty()
    } else {
        paragraphs_in_forest(s.drop_last(), inside) + paragraphs_in_tree(s.last(), inside)
    }
}

/// The lead image inside the image block: its first `img` with a source.
pub open spec fn image_of(block: Option<Node>) -> Option<ImageView> {
    match block {
        None => None,
        Some(b) => match find_below(b, Selector::Name("img")) {
            None => None,
            Some(img) => match attr_of(img, "src"@) {
                None => None,
                Some(url) => Some(ImageView { url, caption: attr_of(img, "alt"@) }),
            },
        },
    }
}

/// The video marker inside the image block: the id of its first play button.
pub open spec fn video_of(block: Option<Node>) -> Option<Seq<char>> {
    match block {
        None => None,
        Some(b) => match find_below(b, Selector::Attr("class", "playBT")) {
            None => None,
            Some(button) => attr_of(button, "id"@),
        },
    }
}

/// The article that the page content rooted at `root` holds: nothing
/// without a title heading.
pub open spec fn article_of(root: Node) -> Option<ArticleView> {
    let heading = match find_below(root, Selector::Attr("id", "newstitle")) {
        Some(t) => find_below(t, Selector::Name("h2")),
        None => None,
    };
    let block = find_below(root, Selector::Attr("id", "mainimage"));
    match heading {
        None => None,
        Some(h) => Some(
            ArticleView {
                title: tokens_of(children_of(h)),
                image: image_of(block),
                video: video_of(block),
                paragraphs: paragraphs_in_forest(children_of(root), is_article_body(root)),
            },
        ),
    }
}

/// The article of a whole document: that of its first node with id `main`.
pub open spec fn document_article(nodes: Seq<Node>) -> Option<ArticleView> {
    match find_in_forest(nodes, Selector::Attr("id", "main")) {
        Some(root) => article_of(root),
        None => None,
    }
}

/// Appends to `out` the paragraphs of `n`'s subtree (see `paragraphs_in_tree`).
fn collect_paragraphs(n: &Node, inside: bool, out: &mut Vec<Tokens>)
    ensures
        paragraph_views(final(out)@) == paragraph_views(old(out)@) + paragraphs_in_tree(*n, inside),
    decreases n,
{
    let ghost start = paragraph_views(out@);
    if inside && n.is_named("p") {
        let tokens = parse_tokens(n);
        if tokens.0.len() > 0 {
            out.push(tokens);
            assert(paragraph_views(out@) =~= start + seq![tokens_of(children_of(*n))]);
        }
    }
    let ghost here = paragraph_views(out@);
    assert(here =~= start + (if inside && is_element_named(*n, "p"@) && tokens_of(children_of(*n)).len() > 0 {
        seq![tokens_of(children_of(*n))]
    } else {
        Seq::empty()
    }));
    if let Node::Element { children, .. } = n {
        let inner = inside || Selector::Attr("id", "newsarticle").accepts(n);
        let mut i: usize = 0;
        while i < children.len()
            invariant
                i <= children.len(),
                *n is Element,
                (*n)->children == *children,
                inner == (inside || is_article_body(*n)),
                paragraph_views(out@) == here + paragraphs_in_forest(children@.take(i as int), inner),
            decreases children.len() - i,
        {
            assert(children@.take(i + 1).drop_last() =~= children@.take(i as int));
            assert(decreases_to!(*n => children@[i as int]));
            collect_paragraphs(&children[i], inner, out);
            i = i + 1;
        }
        assert(children@.take(i as int) =~= children@);
    } else {
        assert(paragraph_views(out@) =~= start + paragraphs_in_tree(*n, inside));
    }
}

/// The lead image inside the image block, if any (see `image_of`).
fn find_image(block: Option<&Node>) -> (r: Option<Image>)
    ensures
        match r {
            Some(i) => Some(i@),
            None => None,
        } == image_of(deref_opt(block)),
{
    let img = match block {
        Some(b) => b.find(&Selector::Name("img")),
        None => None,
    };
    match img {
        None => None,
        Some(img) => match img.attr("src") {
            None => None,
            Some(url) => Some(
                Image {
                    url: url.to_owned(),
                    caption: match img.attr("alt") {
                        Some(alt) => Some(alt.to_owned()),
                        None => None,
                    },
                },
            ),
        },
    }
}

/// The video marker inside the image block, if any (see `video_of`).
fn find_video(block: Option<&Node>) -> (r: Option<String>)
    ensures
        r.deep_view() == video_of(deref_opt(block)),
{
    let button = match block {
        Some(b) => b.find(&Selector::Attr("class", "playBT")),
        None => None,
    };
    match button {
        None => None,
        Some(button) => match button.attr("id") {
            Some(id) => Some(id.to_owned()),
            None => None,
        },
    }
}

/// Builds the article held by the page content rooted at `root`: the tokens
/// of the first `h2` under the `newstitle` element, the lead image and video
/// marker of the `mainimage` element, and every non-empty paragraph under
/// the `newsarticle` element, in document order. Nothing without a title.
pub fn parse_article_from_node(root: &Node) -> (r: Option<Article>)
    ensures
        opt_article_view(r) == article_of(*root),
{
    let heading = match root.find(&Selector::Attr("id", "newstitle")) {
        Some(t) => t.find(&Selector::Name("h2")),
        None => None,
    };
    let heading = match heading {
        Some(h) => h,
        None => {
            return None;
        },
    };
    let title = parse_tokens(heading);
    let block = root.find(&Selector::Attr("id", "mainimage"));
    let image = find_image(block);
    let video = find_video(block);
    let mut paragraphs: Vec<Tokens> = Vec::new();
    let inside = Selector::Attr("id", "newsarticle").accepts(root);
    let children = root.children();
    let mut i: usize = 0;
    while i < children.len()
        invariant
            i <= children.len(),
            children@ == children_of(*root),
            inside == is_article_body(*root),
            paragraph_views(paragraphs@) == paragraphs_in_forest(children@.take(i as int), inside),
        decreases children.len() - i,
    {
        assert(children@.take(i + 1).drop_last() =~= children@.take(i as int));
        collect_paragraphs(&children[i], inside, &mut paragraphs);
        i = i + 1;
    }
    assert(children@.take(i as int) =~= children@);
    Some(Article { title, image, video, paragraphs })
}

/// Builds the article of a whole document, given its top-level nodes: that
/// of its first node, in document order, with id `main`.
pub fn parse_document(nodes: &[Node]) -> (r: Option<Article>)
    ensures
        opt_article_view(r) == document_article(nodes@),
{
    match crate::dom::find_first(nodes, &Selector::Attr("id", "main")) {
        Some(root) => parse_article_from_node(root),
        None => None,
    }
}

} // verus!
