//! Extraction of structured content from easy-Japanese news article markup:
//! ruby annotations resolve to fragments (text with an optional reading),
//! and the children of a paragraph classify into a flat stream of tokens
//! (plain fragments, place names and personal names).

pub mod article;
pub mod dom;
pub mod token;

pub use article::{parse_article_from_node, parse_document, Article, Image};
pub use dom::{find_first, Node, Selector};
pub use token::{
    classify, parse_fragment, parse_fragments, parse_ruby, parse_token, parse_tokens,
    span_category, Category, Fragment, Token, Tokens, LOCATION_CLASS, MAX_LINK_DEPTH, NAME_CLASS,
};
