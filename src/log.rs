use vstd::prelude::*;
use crate::ast::Loc;

verus! {

/// How serious a diagnostic or one of its notes is.
#[derive(Clone, Copy, Debug, PartialEq, Eq, Structural)]
pub enum Severity {
    Info,
    Warn,
}

/// A message attached to one span.
pub struct Note {
    pub loc: Loc,
    pub severity: Severity,
    pub msg: String,
}

impl Note {
    pub fn warn(loc: &Loc, msg: String) -> (r: Note)
        ensures
            r.loc == *loc,
            r.severity == Severity::Warn,
            r.msg == msg,
    {
        Note { loc: *loc, severity: Severity::Warn, msg }
    }

    pub fn info(loc: &Loc, msg: String) -> (r: Note)
        ensures
            r.loc == *loc,
            r.severity == Severity::Info,
            r.msg == msg,
    {
        Note { loc: *loc, severity: Severity::Info, msg }
    }
}

/// The primary anchor of a diagnostic, with the notes attached to it in order.
pub struct Src {
    pub loc: Loc,
    pub notes: Vec<Note>,
}

impl Src {
    pub fn new(loc: &Loc) -> (r: Src)
        ensures
            r.loc == *loc,
            r.notes@.len() == 0,
    {
        Src { loc: *loc, notes: Vec::new() }
    }

    /// Attaches one more note after those already present.
    pub fn annotate(self, note: Note) -> (r: Src)
        ensures
            r.loc == self.loc,
            r.notes@ == self.notes@.push(note),
    {
        let mut s = self;
        s.notes.push(note);
        s
    }
}

/// A diagnostic: a headline, an optional anchor with notes, and an optional hint.
pub struct Log {
    pub severity: Severity,
    pub msg: String,
    pub src: Option<Src>,
    pub help: Option<String>,
}

impl Log {
    pub fn warn(msg: &str) -> (r: Log)
        ensures
            r.severity == Severity::Warn,
            r.msg@ == msg@,
            r.src.is_none(),
            r.help.is_none(),
    {
        Log { severity: Severity::Warn, msg: msg.to_owned(), src: None, help: None }
    }

    pub fn info(msg: &str) -> (r: Log)
        ensures
            r.severity == Severity::Info,
            r.msg@ == msg@,
            r.src.is_none(),
            r.help.is_none(),
    {
        Log { severity: Severity::Info, msg: msg.to_owned(), src: None, help: None }
    }

    /// Sets the anchor of this diagnostic.
    pub fn src(self, src: Src) -> (r: Log)
        ensures
            r.severity == self.severity,
            r.msg == self.msg,
            r.src == Some(src),
            r.help == self.help,
    {
        Log { severity: self.severity, msg: self.msg, src: Some(src), help: self.help }
    }

    /// Sets the remediation hint of this diagnostic.
    pub fn help(self, help: &str) -> (r: Log)
        ensures
            r.severity == self.severity,
            r.msg == self.msg,
            r.src == self.src,
            r.help.is_some(),
            r.help.unwrap()@ == help@,
    {
        Log { severity: self.severity, msg: self.msg, src: self.src, help: Some(help.to_owned()) }
    }
}

} // verus!
