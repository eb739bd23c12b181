use nhk_easy_news::{
    classify, parse_fragment, parse_fragments, parse_ruby, parse_token, parse_tokens,
    span_category, Category, Fragment, Node, Token, Tokens, MAX_LINK_DEPTH,
};

fn text(s: &str) -> Node {
    Node::Text(s.to_string())
}

fn el(name: &str, attrs: &[(&str, &str)], children: Vec<Node>) -> Node {
    Node::Element {
        name: name.to_string(),
        attrs: attrs.iter().map(|(k, v)| (k.to_string(), v.to_string())).collect(),
        children,
    }
}

fn frag(text: &str, furigana: Option<&str>) -> Fragment {
    Fragment {
        text: text.into(),
        furigana: furigana.map(|f| f.into()),
    }
}

#[test]
fn ruby() {
    let ruby = el("ruby", &[], vec![text("強"), el("rt", &[], vec![text("つよ")])]);
    assert_eq!(
        parse_ruby(&ruby),
        Some(Fragment {
            text: "強".into(),
            furigana: Some("つよ".into()),
        })
    );
}

/// The tree of `<div><ruby>今<rt>いま</rt></ruby>、<span class='colorL'>スイス</span>にある
/// <a href='javascript:void(0)' class='dicWin' id='id-0000'><ruby><span class="under">国連</span>
/// <rt>こくれん</rt></ruby></a>の<span class='colorC'>ヨーロッパ<ruby>本部<rt>ほんぶ</rt></ruby>
/// </span>で、</div>`.
fn worked_example() -> Node {
    el(
        "div",
        &[],
        vec![
            el("ruby", &[], vec![text("今"), el("rt", &[], vec![text("いま")])]),
            text("、"),
            el("span", &[("class", "colorL")], vec![text("スイス")]),
            text("にある"),
            el(
                "a",
                &[("href", "javascript:void(0)"), ("class", "dicWin"), ("id", "id-0000")],
                vec![el(
                    "ruby",
                    &[],
                    vec![
                        el("span", &[("class", "under")], vec![text("国連")]),
                        el("rt", &[], vec![text("こくれん")]),
                    ],
                )],
            ),
            text("の"),
            el(
                "span",
                &[("class", "colorC")],
                vec![
                    text("ヨーロッパ"),
                    el("ruby", &[], vec![text("本部"), el("rt", &[], vec![text("ほんぶ")])]),
                ],
            ),
            text("で、"),
        ],
    )
}

#[test]
fn tokens() {
    let contents = worked_example();
    let expected = vec![
        Token::Other(Fragment {
            text: "今".into(),
            furigana: Some("いま".into()),
        }),
        Token::Other(Fragment {
            text: "、".into(),
            furigana: None,
        }),
        Token::Location(vec![Fragment {
            text: "スイス".into(),
            furigana: None,
        }]),
        Token::Other(Fragment {
            text: "にある".into(),
            furigana: None,
        }),
        Token::Other(Fragment {
            text: "国連".into(),
            furigana: Some("こくれん".into()),
        }),
        Token::Other(Fragment {
            text: "の".into(),
            furigana: None,
        }),
        Token::Other(Fragment {
            text: "で、".into(),
            furigana: None,
        }),
    ];
    assert_eq!(parse_tokens(&contents), Tokens(expected));
}

#[test]
fn ruby_without_reading() {
    let ruby = el("ruby", &[], vec![text("強")]);
    assert_eq!(parse_ruby(&ruby), Some(frag("強", None)));
    assert_eq!(parse_fragment(&ruby), Some(frag("強", None)));
}

#[test]
fn ruby_without_base_text() {
    let ruby = el("ruby", &[], vec![el("rt", &[], vec![text("つよ")])]);
    assert_eq!(parse_ruby(&ruby), None);
    assert_eq!(parse_fragment(&ruby), None);
    assert_eq!(parse_token(&ruby), None);
}

#[test]
fn ruby_reading_spans_nested_markup() {
    let rt = el("rt", &[], vec![text("こく"), el("b", &[], vec![text("れん")])]);
    let ruby = el("ruby", &[], vec![el("span", &[], vec![text("国連")]), rt]);
    assert_eq!(parse_ruby(&ruby), Some(frag("国連", Some("こくれん"))));
}

#[test]
fn ruby_takes_first_base_text_and_first_reading() {
    let ruby = el(
        "ruby",
        &[],
        vec![
            el("rt", &[], vec![text("a")]),
            text("一"),
            text("二"),
            el("rt", &[], vec![text("b")]),
        ],
    );
    assert_eq!(parse_ruby(&ruby), Some(frag("一", Some("a"))));
}

#[test]
fn plain_text_passthrough() {
    assert_eq!(parse_fragment(&text("、")), Some(frag("、", None)));
    assert_eq!(parse_token(&text("、")), Some(Token::Other(frag("、", None))));
}

#[test]
fn whitespace_text_is_kept() {
    assert_eq!(parse_fragment(&text("  ")), Some(frag("  ", None)));
}

#[test]
fn other_nodes_resolve_to_nothing() {
    assert_eq!(parse_fragment(&Node::Comment("note".to_string())), None);
    assert_eq!(parse_fragment(&el("b", &[], vec![text("x")])), None);
    assert_eq!(parse_token(&Node::Comment("note".to_string())), None);
}

#[test]
fn location_classification() {
    let span = el("span", &[("class", "colorL")], vec![text("スイス")]);
    assert_eq!(parse_token(&span), Some(Token::Location(vec![frag("スイス", None)])));
}

#[test]
fn name_classification() {
    let span = el(
        "span",
        &[("class", "colorN")],
        vec![
            el("ruby", &[], vec![text("安倍"), el("rt", &[], vec![text("あべ")])]),
            el("b", &[], vec![text("x")]),
            text("さん"),
        ],
    );
    assert_eq!(
        parse_token(&span),
        Some(Token::Name(vec![frag("安倍", Some("あべ")), frag("さん", None)]))
    );
}

#[test]
fn marked_span_may_be_empty() {
    let span = el("span", &[("class", "colorL")], vec![]);
    assert_eq!(parse_token(&span), Some(Token::Location(vec![])));
}

#[test]
fn unmarked_span_gives_nothing() {
    let span = el("span", &[("class", "colorC")], vec![text("ヨーロッパ")]);
    assert_eq!(parse_token(&span), None);
    assert_eq!(parse_token(&el("span", &[], vec![text("x")])), None);
}

#[test]
fn class_table() {
    assert_eq!(span_category(Some("colorL")), Some(Category::Location));
    assert_eq!(span_category(Some("colorN")), Some(Category::Name));
    assert_eq!(span_category(Some("colorC")), None);
    assert_eq!(span_category(Some("colorL colorN")), None);
    assert_eq!(span_category(None), None);
}

#[test]
fn hyperlink_unwrapping() {
    let ruby = el("ruby", &[], vec![text("国連"), el("rt", &[], vec![text("こくれん")])]);
    let link = el("a", &[("class", "colorL")], vec![ruby]);
    let expected = Some(Token::Other(frag("国連", Some("こくれん"))));
    assert_eq!(parse_token(&link), expected);
}

#[test]
fn hyperlink_uses_first_child_only() {
    let link = el("a", &[], vec![el("span", &[("class", "colorN")], vec![text("太郎")]), text("x")]);
    assert_eq!(parse_token(&link), Some(Token::Name(vec![frag("太郎", None)])));
    let comment_first = el("a", &[], vec![Node::Comment("c".to_string()), text("x")]);
    assert_eq!(parse_token(&comment_first), None);
}

#[test]
fn empty_hyperlink_gives_nothing() {
    assert_eq!(parse_token(&el("a", &[], vec![])), None);
}

#[test]
fn order_preservation() {
    let div = worked_example();
    let result = parse_tokens(&div);
    assert_eq!(result.0.len(), 7);
    if let Node::Element { children, .. } = &div {
        assert_eq!(children.len(), 8);
        let one_by_one: Vec<Token> = children.iter().filter_map(parse_token).collect();
        assert_eq!(result, Tokens(one_by_one));
        let (left, right) = children.split_at(3);
        let mut joined = classify(left).0;
        joined.extend(classify(right).0);
        assert_eq!(result, Tokens(joined));
    }
}

#[test]
fn idempotence() {
    let div = worked_example();
    assert_eq!(parse_tokens(&div), parse_tokens(&div));
    let ruby = el("ruby", &[], vec![text("強"), el("rt", &[], vec![text("つよ")])]);
    assert_eq!(parse_fragment(&ruby), parse_fragment(&ruby));
    assert_eq!(parse_token(&ruby), parse_token(&ruby));
}

#[test]
fn empty_input() {
    assert_eq!(classify(&[]), Tokens(vec![]));
    assert_eq!(parse_tokens(&el("p", &[], vec![])), Tokens(vec![]));
    assert_eq!(parse_tokens(&text("x")), Tokens(vec![]));
}

#[test]
fn fragments_skip_unresolved_nodes() {
    let nodes = vec![text("a"), Node::Comment("c".to_string()), el("i", &[], vec![]), text("b")];
    assert_eq!(parse_fragments(&nodes), vec![frag("a", None), frag("b", None)]);
    assert_eq!(parse_fragments(&[]), vec![]);
}

#[test]
fn fragment_from_string() {
    assert_eq!(Fragment::from("今".to_string()), frag("今", None));
}

#[test]
fn nested_links_are_bounded() {
    let mut within = text("x");
    for _ in 0..MAX_LINK_DEPTH {
        within = el("a", &[], vec![within]);
    }
    assert_eq!(parse_token(&within), Some(Token::Other(frag("x", None))));
    let too_deep = el("a", &[], vec![within]);
    assert_eq!(parse_token(&too_deep), None);
}
