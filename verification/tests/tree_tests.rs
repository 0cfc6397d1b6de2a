use htmlr::dom::{Attr, DomNode, NodeData};
use htmlr::pretty::pretty_tree;
use htmlr::slim::slim_tree;
use htmlr::{PrettyOptions, SlimOptions};

fn chars(s: &str) -> Vec<char> {
    s.chars().collect()
}

fn text(s: &str) -> DomNode {
    DomNode {
        data: NodeData::Text { text: chars(s) },
        children: Vec::new(),
    }
}

fn element(name: &str, attrs: &[(&str, &str)], children: Vec<DomNode>) -> DomNode {
    DomNode {
        data: NodeData::Element {
            name: chars(name),
            attrs: attrs
                .iter()
                .map(|(n, v)| Attr {
                    name: chars(n),
                    value: chars(v),
                })
                .collect(),
        },
        children,
    }
}

#[test]
fn slim_tree_on_a_built_tree() {
    let doc = DomNode {
        data: NodeData::Document,
        children: vec![element(
            "html",
            &[],
            vec![
                element(
                    "head",
                    &[],
                    vec![
                        element("title", &[], vec![text("T")]),
                        element("script", &[], vec![text("x()")]),
                    ],
                ),
                element(
                    "body",
                    &[],
                    vec![
                        element("div", &[], vec![text("  ")]),
                        element("p", &[("class", "c"), ("style", "s")], vec![text("Hi")]),
                    ],
                ),
            ],
        )],
    };
    let out = slim_tree(&doc, &SlimOptions::default()).unwrap();
    assert_eq!(out, "<head><title>T</title></head><body><p class=\"c\">Hi</p></body>");
}

#[test]
fn pretty_tree_on_a_built_tree() {
    let frag = DomNode {
        data: NodeData::Fragment,
        children: vec![element("div", &[], vec![element("p", &[], vec![text("Hello")])])],
    };
    let out = pretty_tree(&frag, false, &PrettyOptions::default());
    assert_eq!(out, "<div>\n  <p>Hello</p>\n</div>");
}
