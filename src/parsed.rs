use vstd::prelude::*;
use crate::ast::{Dash, File, Glue, Loc, Par, ParPart};

verus! {

/// One attribute of a command: a name, an optional value, and where it was written.
pub struct Attr {
    pub name: String,
    pub value: Option<String>,
    pub loc: Loc,
}

impl Attr {
    pub fn new(name: String, value: Option<String>, loc: Loc) -> (r: Attr)
        ensures
            r.name@ == name@,
            r.value == value,
            r.loc == loc,
    {
        Attr { name, value, loc }
    }

    pub fn name(&self) -> (r: &str)
        ensures
            r@ == self.name@,
    {
        self.name.as_str()
    }

    pub fn value(&self) -> (r: Option<&str>)
        ensures
            r.is_some() == self.value.is_some(),
            r.is_some() ==> r.unwrap()@ == self.value.unwrap()@,
    {
        match &self.value {
            Some(v) => Some(v.as_str()),
            None => None,
        }
    }

    pub fn loc(&self) -> (r: &Loc)
        ensures
            *r == self.loc,
    {
        &self.loc
    }
}

/// An attribute block, in the order in which its attributes were written.
pub struct Attrs {
    pub args: Vec<Attr>,
    pub loc: Loc,
}

impl Attrs {
    pub fn new(args: Vec<Attr>, loc: Loc) -> (r: Attrs)
        ensures
            r.args@ == args@,
            r.loc == loc,
    {
        Attrs { args, loc }
    }

    pub fn args(&self) -> (r: &Vec<Attr>)
        ensures
            r@ == self.args@,
    {
        &self.args
    }
}

/// The structure of a multi-line comment.
pub enum MultiLineCommentPart {
    Word(String),
    Whitespace(String),
    /// Content one indentation level deeper, with the exact width of its indent.
    Indented { width: usize, inner: Vec<MultiLineCommentPart> },
    /// Content of a comment nested inside this one.
    Nested(Vec<MultiLineCommentPart>),
}

/// Built-in inline formatting.
pub enum Sugar {
    Italic { arg: Vec<Content>, loc: Loc },
    Bold { arg: Vec<Content>, loc: Loc },
    Monospace { arg: Vec<Content>, loc: Loc },
    Smallcaps { arg: Vec<Content>, loc: Loc },
    AlternateFace { arg: Vec<Content>, loc: Loc },
}

/// A node of the resolved content tree.
pub enum Content {
    Command {
        name: String,
        pluses: usize,
        attrs: Option<Attrs>,
        inline_args: Vec<Vec<Content>>,
        remainder_arg: Option<Vec<Content>>,
        trailer_args: Vec<Vec<Par<ParPart<Content>>>>,
        loc: Loc,
    },
    Word { word: String, loc: Loc },
    Whitespace { whitespace: String, loc: Loc },
    Sugar(Sugar),
    Dash { dash: Dash, loc: Loc },
    Glue { glue: Glue, loc: Loc },
    Verbatim { verbatim: String, loc: Loc },
    Comment { comment: String, loc: Loc },
    MultiLineComment { content: Vec<MultiLineCommentPart>, loc: Loc },
}

/// The inline content that a sugar node wraps.
pub open spec fn sugar_arg(s: Sugar) -> Vec<Content> {
    match s {
        Sugar::Italic { arg, .. } => arg,
        Sugar::Bold { arg, .. } => arg,
        Sugar::Monospace { arg, .. } => arg,
        Sugar::Smallcaps { arg, .. } => arg,
        Sugar::AlternateFace { arg, .. } => arg,
    }
}

/// The nodes of a content tree in document order: each node before its children, the
/// children from left to right.
pub open spec fn preorder(c: Content) -> Seq<Content>
    decreases c,
{
    seq![c] + match c {
        Content::Command { inline_args, remainder_arg, trailer_args, .. } => {
            pre_groups(inline_args@) + match remainder_arg {
                Some(a) => pre_seq(a@),
                None => Seq::empty(),
            } + pre_trailers(trailer_args@)
        },
        Content::Sugar(s) => pre_seq(sugar_arg(s)@),
        _ => Seq::empty(),
    }
}

pub open spec fn pre_seq(s: Seq<Content>) -> Seq<Content>
    decreases s,
{
    if s.len() == 0 {
        Seq::empty()
    } else {
        pre_seq(s.subrange(0, s.len() - 1)) + preorder(s[s.len() - 1])
    }
}

pub open spec fn pre_groups(s: Seq<Vec<Content>>) -> Seq<Content>
    decreases s,
{
    if s.len() == 0 {
        Seq::empty()
    } else {
        pre_groups(s.subrange(0, s.len() - 1)) + pre_seq(s[s.len() - 1]@)
    }
}

pub open spec fn pre_part(p: ParPart<Content>) -> Seq<Content>
    decreases p,
{
    match p {
        ParPart::Line(cs) => pre_seq(cs@),
        ParPart::Command(c) => preorder(c),
    }
}

pub open spec fn pre_parts(s: Seq<ParPart<Content>>) -> Seq<Content>
    decreases s,
{
    if s.len() == 0 {
        Seq::empty()
    } else {
        pre_parts(s.subrange(0, s.len() - 1)) + pre_part(s[s.len() - 1])
    }
}

pub open spec fn pre_pars(s: Seq<Par<ParPart<Content>>>) -> Seq<Content>
    decreases s,
{
    if s.len() == 0 {
        Seq::empty()
    } else {
        pre_pars(s.subrange(0, s.len() - 1)) + pre_parts(s[s.len() - 1].parts@)
    }
}

pub open spec fn pre_trailers(s: Seq<Vec<Par<ParPart<Content>>>>) -> Seq<Content>
    decreases s,
{
    if s.len() == 0 {
        Seq::empty()
    } else {
        pre_trailers(s.subrange(0, s.len() - 1)) + pre_pars(s[s.len() - 1]@)
    }
}


/// The span of a content node.
pub open spec fn content_loc(c: Content) -> Loc {
    match c {
        Content::Command { loc, .. } => loc,
        Content::Word { loc, .. } => loc,
        Content::Whitespace { loc, .. } => loc,
        Content::Sugar(Sugar::Italic { loc, .. }) => loc,
        Content::Sugar(Sugar::Bold { loc, .. }) => loc,
        Content::Sugar(Sugar::Monospace { loc, .. }) => loc,
        Content::Sugar(Sugar::Smallcaps { loc, .. }) => loc,
        Content::Sugar(Sugar::AlternateFace { loc, .. }) => loc,
        Content::Dash { loc, .. } => loc,
        Content::Glue { loc, .. } => loc,
        Content::Verbatim { loc, .. } => loc,
        Content::Comment { loc, .. } => loc,
        Content::MultiLineComment { loc, .. } => loc,
    }
}

/// The nodes of argument groups, one group after another.
pub open spec fn group_kids(s: Seq<Vec<Content>>) -> Seq<Content>
    decreases s.len(),
{
    if s.len() == 0 {
        Seq::empty()
    } else {
        group_kids(s.subrange(0, s.len() - 1)) + s[s.len() - 1]@
    }
}

/// The top-level nodes of a part: those of a line, or the one command.
pub open spec fn part_kids(p: ParPart<Content>) -> Seq<Content> {
    match p {
        ParPart::Line(cs) => cs@,
        ParPart::Command(c) => seq![c],
    }
}

pub open spec fn parts_kids(s: Seq<ParPart<Content>>) -> Seq<Content>
    decreases s.len(),
{
    if s.len() == 0 {
        Seq::empty()
    } else {
        parts_kids(s.subrange(0, s.len() - 1)) + part_kids(s[s.len() - 1])
    }
}

/// The top-level nodes of a run of paragraphs, in order.
pub open spec fn pars_kids(s: Seq<Par<ParPart<Content>>>) -> Seq<Content>
    decreases s.len(),
{
    if s.len() == 0 {
        Seq::empty()
    } else {
        pars_kids(s.subrange(0, s.len() - 1)) + parts_kids(s[s.len() - 1].parts@)
    }
}

pub open spec fn trailer_kids(s: Seq<Vec<Par<ParPart<Content>>>>) -> Seq<Content>
    decreases s.len(),
{
    if s.len() == 0 {
        Seq::empty()
    } else {
        trailer_kids(s.subrange(0, s.len() - 1)) + pars_kids(s[s.len() - 1]@)
    }
}

/// The direct children of a node, left to right.
pub open spec fn kids(c: Content) -> Seq<Content> {
    match c {
        Content::Command { inline_args, remainder_arg, trailer_args, .. } => {
            group_kids(inline_args@) + match remainder_arg {
                Some(a) => a@,
                None => Seq::empty(),
            } + trailer_kids(trailer_args@)
        },
        Content::Sugar(s) => sugar_arg(s)@,
        _ => Seq::empty(),
    }
}

/// Sibling spans are well formed, do not overlap, and run left to right.
pub open spec fn spans_in_order(s: Seq<Content>) -> bool {
    &&& forall|i: int| 0 <= i < s.len() ==> (#[trigger] content_loc(s[i])).wf()
    &&& forall|i: int, j: int|
        0 <= i < j < s.len() ==> #[trigger] content_loc(s[i]).end <= #[trigger] content_loc(
            s[j],
        ).start
}

/// The span of `c` covers the spans of its children, which are in order.
pub open spec fn spans_nested_here(c: Content) -> bool {
    &&& content_loc(c).wf()
    &&& spans_in_order(kids(c))
    &&& forall|i: int|
        0 <= i < kids(c).len() ==> content_loc(c).contains(#[trigger] content_loc(kids(c)[i]))
}

/// Every node of the tree under `c` covers its children, and siblings are in order.
pub open spec fn spans_nested(c: Content) -> bool {
    forall|i: int| 0 <= i < preorder(c).len() ==> spans_nested_here(#[trigger] preorder(c)[i])
}

/// The top-level nodes of a paragraph are in order, and each tree under them is nested.
pub open spec fn par_spans_nested(p: Par<ParPart<Content>>) -> bool {
    &&& spans_in_order(parts_kids(p.parts@))
    &&& forall|i: int|
        0 <= i < parts_kids(p.parts@).len() ==> spans_nested(#[trigger] parts_kids(p.parts@)[i])
}

/// The top-level nodes of a file, across its paragraphs, are in order, and each tree under
/// them is nested.
pub open spec fn file_spans_nested(f: File<ParPart<Content>>) -> bool {
    &&& spans_in_order(pars_kids(f.pars@))
    &&& forall|i: int|
        0 <= i < pars_kids(f.pars@).len() ==> spans_nested(#[trigger] pars_kids(f.pars@)[i])
}

} // verus!
