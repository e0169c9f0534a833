use vstd::prelude::*;
use vstd::string::StrSliceExecFns;
use std::str::Chars;
use vstd::std_specs::iter::IteratorSpec;

verus! {

/// A half-open range of offsets into one source buffer.
#[derive(Clone, Copy, Debug, PartialEq, Eq, Structural)]
pub struct Loc {
    pub start: usize,
    pub end: usize,
}

impl Loc {
    pub open spec fn wf(self) -> bool {
        self.start <= self.end
    }

    /// True when `inner` lies entirely within this span.
    pub open spec fn contains(self, inner: Loc) -> bool {
        self.start <= inner.start && inner.end <= self.end
    }

    pub fn new(start: usize, end: usize) -> (r: Loc)
        requires
            start <= end,
        ensures
            r.start == start,
            r.end == end,
            r.wf(),
    {
        Loc { start, end }
    }

    /// The smallest span covering both `self` and `other`.
    pub fn span(&self, other: &Loc) -> (r: Loc)
        requires
            self.wf(),
            other.wf(),
        ensures
            r.wf(),
            r.contains(*self),
            r.contains(*other),
            r.start == if self.start <= other.start { self.start } else { other.start },
            r.end == if self.end >= other.end { self.end } else { other.end },
    {
        let start = if self.start <= other.start { self.start } else { other.start };
        let end = if self.end >= other.end { self.end } else { other.end };
        Loc { start, end }
    }
}

/// The zero-based line and column of offset `n` in `s`: lines end after each `\n`.
pub open spec fn line_col_at(s: Seq<char>, n: int) -> (int, int)
    decreases n,
{
    if n <= 0 {
        (0, 0)
    } else {
        let prev = line_col_at(s, n - 1);
        if s[n - 1] == '\n' {
            (prev.0 + 1, 0)
        } else {
            (prev.0, prev.1 + 1)
        }
    }
}

proof fn lemma_line_col_bound(s: Seq<char>, n: int)
    requires
        n >= 0,
    ensures
        0 <= line_col_at(s, n).0 <= n,
        0 <= line_col_at(s, n).1 <= n,
    decreases n,
{
    if n > 0 {
        lemma_line_col_bound(s, n - 1);
    }
}

impl Loc {
    /// The text that this span covers in `src`.
    pub fn text<'a>(&self, src: &'a str) -> (r: &'a str)
        requires
            self.wf(),
            self.end <= src@.len(),
        ensures
            r@ == src@.subrange(self.start as int, self.end as int),
    {
        src.substring_char(self.start, self.end)
    }

    /// The zero-based line and column at which this span starts in `src`.
    pub fn line_col(&self, src: &str) -> (r: (usize, usize))
        requires
            self.start <= src@.len(),
        ensures
            r.0 as int == line_col_at(src@, self.start as int).0,
            r.1 as int == line_col_at(src@, self.start as int).1,
    {
        let mut it: Chars = src.chars();
        let mut k: usize = 0;
        let mut line: usize = 0;
        let mut col: usize = 0;
        while k < self.start
            invariant
                k <= self.start <= src@.len(),
                it.remaining() == src@.subrange(k as int, src@.len() as int),
                line as int == line_col_at(src@, k as int).0,
                col as int == line_col_at(src@, k as int).1,
            decreases self.start - k,
        {
            proof {
                lemma_line_col_bound(src@, k as int);
            }
            let next = it.next();
            assert(src@.subrange(k as int, src@.len() as int)[0] == src@[k as int]);
            assert(src@.subrange(k as int, src@.len() as int).drop_first()
                =~= src@.subrange(k as int + 1, src@.len() as int));
            match next {
                Some(c) => {
                    if c == '\n' {
                        line = line + 1;
                        col = 0;
                    } else {
                        col = col + 1;
                    }
                },
                None => {},
            }
            k = k + 1;
        }
        (line, col)
    }
}

/// A file: an ordered sequence of paragraphs.
pub struct File<T> {
    pub pars: Vec<Par<T>>,
}

impl<T> File<T> {
    pub fn from(pars: Vec<Par<T>>) -> (r: File<T>)
        ensures
            r.pars@ == pars@,
    {
        File { pars }
    }
}

/// A paragraph: an ordered sequence of parts.
pub struct Par<T> {
    pub parts: Vec<T>,
}

impl<T> Par<T> {
    pub fn from(parts: Vec<T>) -> (r: Par<T>)
        ensures
            r.parts@ == parts@,
    {
        Par { parts }
    }

    pub fn from_part(part: T) -> (r: Par<T>)
        ensures
            r.parts@ == seq![part],
    {
        let mut parts = Vec::new();
        parts.push(part);
        Par { parts }
    }
}

/// A part of a paragraph: either a line of inline content or one block-level command.
pub enum ParPart<T> {
    Line(Vec<T>),
    Command(T),
}

/// Why a punctuation run could not be classified.
#[derive(Clone, Copy, Debug, PartialEq, Eq, Structural)]
pub enum RunError {
    /// The run holds a character other than the expected one.
    Mixed,
    /// The run has a length outside the accepted range.
    Length(usize),
}

/// True when every character of `s` is `c`.
pub open spec fn all_chars(s: Seq<char>, c: char) -> bool {
    forall|i: int| 0 <= i < s.len() ==> s[i] == c
}

/// Checks whether every character of `s` is `c`.
fn is_run_of(s: &str, c: char) -> (r: bool)
    ensures
        r == all_chars(s@, c),
{
    let n = s.unicode_len();
    let mut i: usize = 0;
    while i < n
        invariant
            n == s@.len(),
            i <= n,
            all_chars(s@.subrange(0, i as int), c),
        decreases n - i,
    {
        if s.get_char(i) != c {
            assert(s@.subrange(0, i as int + 1)[i as int] != c);
            return false;
        }
        assert(s@.subrange(0, i as int + 1) =~= s@.subrange(0, i as int).push(c));
        i = i + 1;
    }
    assert(s@.subrange(0, n as int) =~= s@);
    true
}

/// A dash, classified from a run of `-` characters.
#[derive(Clone, Copy, Debug, PartialEq, Eq, Structural)]
pub enum Dash {
    Hyphen,
    En,
    Em,
}

/// The dash that a run of `n` dashes stands for, when `n` is in `1..=3`.
pub open spec fn dash_of_len(n: nat) -> Option<Dash> {
    if n == 1 {
        Some(Dash::Hyphen)
    } else if n == 2 {
        Some(Dash::En)
    } else if n == 3 {
        Some(Dash::Em)
    } else {
        None
    }
}

/// What resolving the run `s` as a dash gives.
pub open spec fn dash_run(s: Seq<char>) -> Result<Dash, RunError> {
    if !all_chars(s, '-') {
        Err(RunError::Mixed)
    } else {
        match dash_of_len(s.len()) {
            Some(x) => Ok(x),
            None => Err(RunError::Length(s.len() as usize)),
        }
    }
}

/// A run of one to three `-` characters resolves by its length, to a hyphen, an en dash or an em dash;
/// an empty run, or a longer one, is an error.
pub proof fn lemma_dash_classification(s: Seq<char>)
    requires
        all_chars(s, '-'),
    ensures
        s.len() == 1 ==> dash_run(s) == Ok::<Dash, RunError>(Dash::Hyphen),
        s.len() == 2 ==> dash_run(s) == Ok::<Dash, RunError>(Dash::En),
        s.len() == 3 ==> dash_run(s) == Ok::<Dash, RunError>(Dash::Em),
        s.len() == 0 || s.len() > 3 ==> dash_run(s) is Err,
{
}

impl Dash {
    /// Builds a dash from a run of one to three `-` characters.
    pub fn from(s: &str) -> (r: Dash)
        requires
            all_chars(s@, '-'),
            1 <= s@.len() <= 3,
        ensures
            dash_of_len(s@.len()) == Some(r),
    {
        let n = s.unicode_len();
        if n == 1 {
            Dash::Hyphen
        } else if n == 2 {
            Dash::En
        } else {
            Dash::Em
        }
    }

    /// Classifies a punctuation run as a dash, or says why it is not one.
    pub fn resolve(s: &str) -> (r: Result<Dash, RunError>)
        ensures
            r == dash_run(s@),
    {
        if !is_run_of(s, '-') {
            return Err(RunError::Mixed);
        }
        let n = s.unicode_len();
        if 1 <= n && n <= 3 {
            Ok(Dash::from(s))
        } else {
            Err(RunError::Length(n))
        }
    }
}

/// Glue, classified from a run of `~` characters.
#[derive(Clone, Copy, Debug, PartialEq, Eq, Structural)]
pub enum Glue {
    Tight,
    Nbsp,
}

/// The glue that a run of `n` tildes stands for, when `n` is in `1..=2`.
pub open spec fn glue_of_len(n: nat) -> Option<Glue> {
    if n == 1 {
        Some(Glue::Tight)
    } else if n == 2 {
        Some(Glue::Nbsp)
    } else {
        None
    }
}

/// What resolving the run `s` as glue gives.
pub open spec fn glue_run(s: Seq<char>) -> Result<Glue, RunError> {
    if !all_chars(s, '~') {
        Err(RunError::Mixed)
    } else {
        match glue_of_len(s.len()) {
            Some(x) => Ok(x),
            None => Err(RunError::Length(s.len() as usize)),
        }
    }
}

/// A run of one or two `~` characters resolves by its length, to tight glue or a non-breaking space;
/// an empty run, or a longer one, is an error.
pub proof fn lemma_glue_classification(s: Seq<char>)
    requires
        all_chars(s, '~'),
    ensures
        s.len() == 1 ==> glue_run(s) == Ok::<Glue, RunError>(Glue::Tight),
        s.len() == 2 ==> glue_run(s) == Ok::<Glue, RunError>(Glue::Nbsp),
        s.len() == 0 || s.len() > 2 ==> glue_run(s) is Err,
{
}

impl Glue {
    /// Builds glue from a run of one or two `~` characters.
    pub fn from(s: &str) -> (r: Glue)
        requires
            all_chars(s@, '~'),
            1 <= s@.len() <= 2,
        ensures
            glue_of_len(s@.len()) == Some(r),
    {
        let n = s.unicode_len();
        if n == 1 {
            Glue::Tight
        } else {
            Glue::Nbsp
        }
    }

    /// Classifies a punctuation run as glue, or says why it is not glue.
    pub fn resolve(s: &str) -> (r: Result<Glue, RunError>)
        ensures
            r == glue_run(s@),
    {
        if !is_run_of(s, '~') {
            return Err(RunError::Mixed);
        }
        let n = s.unicode_len();
        if 1 <= n && n <= 2 {
            Ok(Glue::from(s))
        } else {
            Err(RunError::Length(n))
        }
    }
}

} // verus!
