use emblem::ast::{Dash, Loc, Par, ParPart};
use emblem::html::HtmlBuilder;
use emblem::parsed::{Attr, Attrs, Content, Sugar};

fn word(w: &str, start: usize) -> Content {
    Content::Word { word: w.to_string(), loc: Loc::new(start, start + w.len()) }
}

#[test]
fn nested_sugar_renders_nested_markup() {
    let italic = Content::Sugar(Sugar::Italic { arg: vec![word("x", 2)], loc: Loc::new(1, 4) });
    let bold = Content::Sugar(Sugar::Bold { arg: vec![italic], loc: Loc::new(0, 5) });
    let mut b = HtmlBuilder::new();
    b.build_parpart(&Par::from_part(ParPart::Command(bold)));
    assert_eq!(b.complete(), "<b><i>x</i></b>");
}

#[test]
fn line_items_end_with_line_breaks() {
    let line = ParPart::Line(vec![
        word("a", 0),
        Content::Whitespace { whitespace: " ".to_string(), loc: Loc::new(1, 2) },
        Content::Dash { dash: Dash::Em, loc: Loc::new(2, 5) },
    ]);
    let mut b = HtmlBuilder::new();
    b.build_parpart(&Par::from(vec![line]));
    assert_eq!(b.complete(), "a —\n");
}

#[test]
fn command_renders_attrs_and_args() {
    let attrs = Attrs::new(
        vec![
            Attr::new("id".to_string(), Some("v".to_string()), Loc::new(4, 8)),
            Attr::new("flag".to_string(), None, Loc::new(9, 13)),
        ],
        Loc::new(3, 14),
    );
    let trailer = Par::from(vec![ParPart::Line(vec![word("t", 30)])]);
    let cmd = Content::Command {
        name: "note".to_string(),
        pluses: 0,
        attrs: Some(attrs),
        inline_args: vec![vec![word("in", 15)], vec![]],
        remainder_arg: Some(vec![word("rest", 20)]),
        trailer_args: vec![vec![trailer]],
        loc: Loc::new(0, 31),
    };
    let mut b = HtmlBuilder::new();
    b.build(&cmd);
    assert_eq!(b.complete(), "<note id=\"v\" flag>inrestt\n</note>");
}

#[test]
fn unrendered_nodes_produce_nothing() {
    let mut b = HtmlBuilder::new();
    b.build(&Content::Glue { glue: emblem::ast::Glue::Nbsp, loc: Loc::new(0, 2) });
    b.build(&Content::Comment { comment: "c".to_string(), loc: Loc::new(2, 5) });
    b.build(&Content::Sugar(Sugar::Smallcaps { arg: vec![word("s", 6)], loc: Loc::new(5, 8) }));
    b.build(&Content::Dash { dash: Dash::En, loc: Loc::new(8, 10) });
    assert_eq!(b.complete(), "–");
}

#[test]
fn monospace_and_empty_builder() {
    assert_eq!(HtmlBuilder::new().complete(), "");
    let mut b = HtmlBuilder::new();
    b.build(&Content::Sugar(Sugar::Monospace { arg: vec![word("m", 1)], loc: Loc::new(0, 3) }));
    assert_eq!(b.complete(), "<code>m</code>");
}

#[test]
fn one_line_break_ends_each_line() {
    let mut b = HtmlBuilder::new();
    b.build_parpart(&Par::from(vec![ParPart::Line(vec![])]));
    assert_eq!(b.complete(), "\n");
    let mut b = HtmlBuilder::new();
    b.build_parpart(&Par::from(vec![ParPart::Line(vec![word("a", 0), word("b", 1)])]));
    assert_eq!(b.complete(), "ab\n");
}

#[test]
fn file_renders_paragraphs_in_order() {
    let file = emblem::ast::File::from(vec![
        Par::from(vec![ParPart::Line(vec![word("one", 0)]), ParPart::Line(vec![word("two", 4)])]),
        Par::from_part(ParPart::Command(Content::Sugar(Sugar::Italic {
            arg: vec![word("three", 10)],
            loc: Loc::new(9, 16),
        }))),
    ]);
    let mut b = HtmlBuilder::new();
    b.build_file(&file);
    assert_eq!(b.complete(), "one\ntwo\n<i>three</i>");
}
