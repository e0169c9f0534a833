use emblem::ast::{File, Loc, Par, ParPart};
use emblem::lint::DuplicateAttrs;
use emblem::log::Severity;
use emblem::parsed::{Attr, Attrs, Content, Sugar};

fn command(attrs: Vec<(&str, &str, usize)>) -> Content {
    let args = attrs
        .into_iter()
        .map(|(n, v, at)| Attr::new(n.to_string(), Some(v.to_string()), Loc::new(at, at + 3)))
        .collect();
    Content::Command {
        name: "cmd".to_string(),
        pluses: 0,
        attrs: Some(Attrs::new(args, Loc::new(4, 30))),
        inline_args: vec![],
        remainder_arg: None,
        trailer_args: vec![],
        loc: Loc::new(0, 40),
    }
}

#[test]
fn one_duplicate_gives_one_diagnostic() {
    let c = command(vec![("a", "1", 5), ("a", "2", 10), ("b", "3", 15)]);
    let logs = DuplicateAttrs::new().analyse(&c);
    assert_eq!(logs.len(), 1);
    let log = &logs[0];
    assert_eq!(log.severity, Severity::Warn);
    assert_eq!(log.msg, "duplicate attributes");
    let src = log.src.as_ref().unwrap();
    assert_eq!(src.loc, Loc::new(0, 40));
    assert_eq!(src.notes.len(), 2);
    assert_eq!(src.notes[0].loc, Loc::new(10, 13));
    assert_eq!(src.notes[0].severity, Severity::Warn);
    assert_eq!(src.notes[0].msg, "found duplicate 'a' here");
    assert_eq!(src.notes[1].loc, Loc::new(5, 8));
    assert_eq!(src.notes[1].severity, Severity::Info);
    assert_eq!(src.notes[1].msg, "'a' first defined here");
    assert_eq!(log.help.as_deref(), Some("remove multiple occurrences of the same attribute"));
}

#[test]
fn distinct_attributes_give_nothing() {
    let c = command(vec![("a", "1", 5), ("b", "2", 10)]);
    assert!(DuplicateAttrs::new().analyse(&c).is_empty());
}

#[test]
fn later_duplicates_point_at_first_definition() {
    let c = command(vec![("a", "1", 5), ("b", "2", 10), ("a", "3", 15), ("a", "4", 20), ("b", "5", 25)]);
    let logs = DuplicateAttrs::new().analyse(&c);
    assert_eq!(logs.len(), 3);
    let locs: Vec<(Loc, Loc)> = logs
        .iter()
        .map(|l| {
            let s = l.src.as_ref().unwrap();
            (s.notes[0].loc, s.notes[1].loc)
        })
        .collect();
    assert_eq!(locs[0], (Loc::new(15, 18), Loc::new(5, 8)));
    assert_eq!(locs[1], (Loc::new(20, 23), Loc::new(5, 8)));
    assert_eq!(locs[2], (Loc::new(25, 28), Loc::new(10, 13)));
    assert_eq!(logs[2].src.as_ref().unwrap().notes[0].msg, "found duplicate 'b' here");
}

#[test]
fn other_nodes_give_nothing() {
    let mut lint = DuplicateAttrs::new();
    assert_eq!(lint.id(), "duplicate-attrs");
    let w = Content::Word { word: "a".to_string(), loc: Loc::new(0, 1) };
    assert!(lint.analyse(&w).is_empty());
    let bare = Content::Command {
        name: "c".to_string(),
        pluses: 1,
        attrs: None,
        inline_args: vec![],
        remainder_arg: None,
        trailer_args: vec![],
        loc: Loc::new(0, 2),
    };
    assert!(lint.analyse(&bare).is_empty());
}

fn attrs_cmd(name: &str, attrs: Vec<(&str, usize)>, children: Vec<Content>, at: usize) -> Content {
    let args = attrs
        .into_iter()
        .map(|(n, a)| Attr::new(n.to_string(), None, Loc::new(a, a + 1)))
        .collect();
    Content::Command {
        name: name.to_string(),
        pluses: 0,
        attrs: Some(Attrs::new(args, Loc::new(at, at + 10))),
        inline_args: vec![children],
        remainder_arg: None,
        trailer_args: vec![],
        loc: Loc::new(at, at + 100),
    }
}

#[test]
fn tree_diagnostics_follow_document_order() {
    let inner = attrs_cmd("inner", vec![("y", 20), ("y", 22)], vec![], 18);
    let wrapped = Content::Sugar(Sugar::Bold { arg: vec![inner], loc: Loc::new(17, 120) });
    let outer = attrs_cmd("outer", vec![("x", 2), ("x", 4)], vec![wrapped], 0);
    let later = attrs_cmd("later", vec![("z", 202), ("z", 204), ("z", 206)], vec![], 200);
    let mut lint = DuplicateAttrs::new();
    let dups: Vec<Loc> = lint
        .analyse_tree(&outer)
        .iter()
        .map(|l| l.src.as_ref().unwrap().notes[0].loc)
        .collect();
    assert_eq!(dups, vec![Loc::new(4, 5), Loc::new(22, 23)]);

    let file = File::from(vec![
        Par::from(vec![ParPart::Command(outer)]),
        Par::from(vec![ParPart::Line(vec![later])]),
    ]);
    let anchors: Vec<Loc> = lint
        .analyse_file(&file)
        .iter()
        .map(|l| l.src.as_ref().unwrap().loc)
        .collect();
    assert_eq!(
        anchors,
        vec![Loc::new(0, 100), Loc::new(18, 118), Loc::new(200, 300), Loc::new(200, 300)]
    );
}
