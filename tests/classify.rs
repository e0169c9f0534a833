use emblem::ast::{Dash, Glue, Loc, RunError};

#[test]
fn dash_runs_resolve_by_length() {
    assert_eq!(Dash::resolve("-"), Ok(Dash::Hyphen));
    assert_eq!(Dash::resolve("--"), Ok(Dash::En));
    assert_eq!(Dash::resolve("---"), Ok(Dash::Em));
}

#[test]
fn dash_runs_out_of_range_fail() {
    assert_eq!(Dash::resolve(""), Err(RunError::Length(0)));
    assert_eq!(Dash::resolve("----"), Err(RunError::Length(4)));
    assert_eq!(Dash::resolve("-~-"), Err(RunError::Mixed));
}

#[test]
fn dash_from_run() {
    assert_eq!(Dash::from("-"), Dash::Hyphen);
    assert_eq!(Dash::from("--"), Dash::En);
    assert_eq!(Dash::from("---"), Dash::Em);
}

#[test]
fn glue_runs_resolve_by_length() {
    assert_eq!(Glue::resolve("~"), Ok(Glue::Tight));
    assert_eq!(Glue::resolve("~~"), Ok(Glue::Nbsp));
    assert_eq!(Glue::from("~~"), Glue::Nbsp);
}

#[test]
fn glue_runs_out_of_range_fail() {
    assert_eq!(Glue::resolve(""), Err(RunError::Length(0)));
    assert_eq!(Glue::resolve("~~~"), Err(RunError::Length(3)));
    assert_eq!(Glue::resolve("~-"), Err(RunError::Mixed));
}

#[test]
fn span_covers_both() {
    let a = Loc::new(3, 5);
    let b = Loc::new(1, 4);
    assert_eq!(a.span(&b), Loc::new(1, 5));
    assert_eq!(b.span(&a), Loc::new(1, 5));
}

#[test]
fn span_text_and_position() {
    let src = "ab\ncd — e\nf";
    let loc = Loc::new(3, 7);
    assert_eq!(loc.text(src), "cd —");
    assert_eq!(loc.line_col(src), (1, 0));
    assert_eq!(Loc::new(8, 9).line_col(src), (1, 5));
    assert_eq!(Loc::new(10, 11).line_col(src), (2, 0));
    assert_eq!(Loc::new(0, 0).line_col(src), (0, 0));
    assert_eq!(Loc::new(2, 2).text(src), "");
}
