use vstd::prelude::*;
use vstd::string::StringExecFns;
use crate::ast::{Dash, File, Par, ParPart};
use crate::parsed::{Attr, Attrs, Content, Sugar};

verus! {

/// The glyph that a dash renders as.
pub open spec fn dash_html(d: Dash) -> Seq<char> {
    match d {
        Dash::Hyphen => "-"@,
        Dash::En => "–"@,
        Dash::Em => "—"@,
    }
}

/// One attribute inside an opening tag: ` name` or ` name="value"`.
pub open spec fn attr_html(a: Attr) -> Seq<char> {
    " "@ + a.name@ + match a.value {
        Some(v) => "=\""@ + v@ + "\""@,
        None => Seq::empty(),
    }
}

pub open spec fn attr_list_html(s: Seq<Attr>) -> Seq<char>
    decreases s.len(),
{
    if s.len() == 0 {
        Seq::empty()
    } else {
        attr_list_html(s.drop_last()) + attr_html(s.last())
    }
}

pub open spec fn attrs_html(a: Option<Attrs>) -> Seq<char> {
    match a {
        Some(a) => attr_list_html(a.args@),
        None => Seq::empty(),
    }
}

/// The HTML of one content node.
pub open spec fn html_of(c: Content) -> Seq<char>
    decreases c,
{
    match c {
        Content::Command { name, attrs, inline_args, remainder_arg, trailer_args, .. } => {
            "<"@ + name@ + attrs_html(attrs) + ">"@ + html_groups(inline_args@) + match remainder_arg {
                Some(a) => html_seq(a@),
                None => Seq::empty(),
            } + html_trailers(trailer_args@) + "</"@ + name@ + ">"@
        },
        Content::Word { word, .. } => word@,
        Content::Whitespace { whitespace, .. } => whitespace@,
        Content::Sugar(Sugar::Italic { arg, .. }) => "<i>"@ + html_seq(arg@) + "</i>"@,
        Content::Sugar(Sugar::Bold { arg, .. }) => "<b>"@ + html_seq(arg@) + "</b>"@,
        Content::Sugar(Sugar::Monospace { arg, .. }) => "<code>"@ + html_seq(arg@) + "</code>"@,
        Content::Dash { dash, .. } => dash_html(dash),
        _ => Seq::empty(),
    }
}

/// The HTML of a sequence of nodes, one after another.
pub open spec fn html_seq(s: Seq<Content>) -> Seq<char>
    decreases s,
{
    if s.len() == 0 {
        Seq::empty()
    } else {
        html_seq(s.subrange(0, s.len() - 1)) + html_of(s[s.len() - 1])
    }
}

/// The HTML of the inline argument groups of a command, flattened.
pub open spec fn html_groups(s: Seq<Vec<Content>>) -> Seq<char>
    decreases s,
{
    if s.len() == 0 {
        Seq::empty()
    } else {
        html_groups(s.subrange(0, s.len() - 1)) + html_seq(s[s.len() - 1]@)
    }
}

/// The HTML of a part: a line is its nodes one after another, then one line break.
pub open spec fn html_part(p: ParPart<Content>) -> Seq<char>
    decreases p,
{
    match p {
        ParPart::Line(cs) => html_seq(cs@) + "\n"@,
        ParPart::Command(c) => html_of(c),
    }
}

pub open spec fn html_parts(s: Seq<ParPart<Content>>) -> Seq<char>
    decreases s,
{
    if s.len() == 0 {
        Seq::empty()
    } else {
        html_parts(s.subrange(0, s.len() - 1)) + html_part(s[s.len() - 1])
    }
}

/// The HTML of a paragraph.
pub open spec fn html_par(p: Par<ParPart<Content>>) -> Seq<char>
    decreases p,
{
    html_parts(p.parts@)
}

pub open spec fn html_pars(s: Seq<Par<ParPart<Content>>>) -> Seq<char>
    decreases s,
{
    if s.len() == 0 {
        Seq::empty()
    } else {
        html_pars(s.subrange(0, s.len() - 1)) + html_par(s[s.len() - 1])
    }
}

/// The HTML of the trailer argument groups of a command, flattened.
pub open spec fn html_trailers(s: Seq<Vec<Par<ParPart<Content>>>>) -> Seq<char>
    decreases s,
{
    if s.len() == 0 {
        Seq::empty()
    } else {
        html_trailers(s.subrange(0, s.len() - 1)) + html_pars(s[s.len() - 1]@)
    }
}

/// Accumulates the HTML of the content handed to it.
pub struct HtmlBuilder {
    content: String,
}

impl View for HtmlBuilder {
    type V = Seq<char>;

    closed spec fn view(&self) -> Seq<char> {
        self.content@
    }
}

impl HtmlBuilder {
    pub fn new() -> (r: HtmlBuilder)
        ensures
            r@ == Seq::<char>::empty(),
    {
        HtmlBuilder { content: String::new() }
    }

    fn push(&mut self, s: &str)
        ensures
            final(self)@ == old(self)@ + s@,
    {
        self.content.append(s);
    }

    fn build_seq(&mut self, cs: &Vec<Content>)
        ensures
            final(self)@ == old(self)@ + html_seq(cs@),
        decreases cs,
    {
        let mut i: usize = 0;
        while i < cs.len()
            invariant
                i <= cs@.len(),
                self@ == old(self)@ + html_seq(cs@.subrange(0, i as int)),
            decreases cs@.len() - i,
        {
            proof {
                assert(cs@.subrange(0, i as int + 1).subrange(0, i as int) =~= cs@.subrange(0, i as int));
            }
            self.build(&cs[i]);
            i = i + 1;
        }
        assert(cs@.subrange(0, cs@.len() as int) =~= cs@);
    }

    fn build_groups(&mut self, gs: &Vec<Vec<Content>>)
        ensures
            final(self)@ == old(self)@ + html_groups(gs@),
        decreases gs,
    {
        let mut i: usize = 0;
        while i < gs.len()
            invariant
                i <= gs@.len(),
                self@ == old(self)@ + html_groups(gs@.subrange(0, i as int)),
            decreases gs@.len() - i,
        {
            proof {
                assert(gs@.subrange(0, i as int + 1).subrange(0, i as int) =~= gs@.subrange(0, i as int));
            }
            self.build_seq(&gs[i]);
            i = i + 1;
        }
        assert(gs@.subrange(0, gs@.len() as int) =~= gs@);
    }

    fn build_part(&mut self, p: &ParPart<Content>)
        ensures
            final(self)@ == old(self)@ + html_part(*p),
        decreases p,
    {
        match p {
            ParPart::Line(cs) => {
                self.build_seq(cs);
                self.push("\n");
            },
            ParPart::Command(c) => self.build(c),
        }
    }

    fn build_parts(&mut self, ps: &Vec<ParPart<Content>>)
        ensures
            final(self)@ == old(self)@ + html_parts(ps@),
        decreases ps,
    {
        let mut i: usize = 0;
        while i < ps.len()
            invariant
                i <= ps@.len(),
                self@ == old(self)@ + html_parts(ps@.subrange(0, i as int)),
            decreases ps@.len() - i,
        {
            proof {
                assert(ps@.subrange(0, i as int + 1).subrange(0, i as int) =~= ps@.subrange(0, i as int));
            }
            self.build_part(&ps[i]);
            i = i + 1;
        }
        assert(ps@.subrange(0, ps@.len() as int) =~= ps@);
    }

    fn build_pars(&mut self, ps: &Vec<Par<ParPart<Content>>>)
        ensures
            final(self)@ == old(self)@ + html_pars(ps@),
        decreases ps,
    {
        let mut i: usize = 0;
        while i < ps.len()
            invariant
                i <= ps@.len(),
                self@ == old(self)@ + html_pars(ps@.subrange(0, i as int)),
            decreases ps@.len() - i,
        {
            proof {
                assert(ps@.subrange(0, i as int + 1).subrange(0, i as int) =~= ps@.subrange(0, i as int));
            }
            self.build_parpart(&ps[i]);
            i = i + 1;
        }
        assert(ps@.subrange(0, ps@.len() as int) =~= ps@);
    }

    fn build_trailers(&mut self, ts: &Vec<Vec<Par<ParPart<Content>>>>)
        ensures
            final(self)@ == old(self)@ + html_trailers(ts@),
        decreases ts,
    {
        let mut i: usize = 0;
        while i < ts.len()
            invariant
                i <= ts@.len(),
                self@ == old(self)@ + html_trailers(ts@.subrange(0, i as int)),
            decreases ts@.len() - i,
        {
            proof {
                assert(ts@.subrange(0, i as int + 1).subrange(0, i as int) =~= ts@.subrange(0, i as int));
            }
            self.build_pars(&ts[i]);
            i = i + 1;
        }
        assert(ts@.subrange(0, ts@.len() as int) =~= ts@);
    }

    /// Appends the HTML of one paragraph.
    pub fn build_parpart(&mut self, par: &Par<ParPart<Content>>)
        ensures
            final(self)@ == old(self)@ + html_par(*par),
        decreases par,
    {
        self.build_parts(&par.parts);
    }

    /// Appends the HTML of every paragraph of a file, in order.
    pub fn build_file(&mut self, file: &File<ParPart<Content>>)
        ensures
            final(self)@ == old(self)@ + html_pars(file.pars@),
    {
        self.build_pars(&file.pars);
    }

    /// Appends the HTML of one content node.
    pub fn build(&mut self, content: &Content)
        ensures
            final(self)@ == old(self)@ + html_of(*content),
        decreases content,
    {
        match content {
            Content::Command { name, attrs, inline_args, remainder_arg, trailer_args, .. } => {
                let ghost start = self@;
                self.push("<");
                self.push(name.as_str());
                match attrs {
                    Some(attrs) => {
                        let args = attrs.args();
                        let ghost before = self@;
                        let mut i: usize = 0;
                        while i < args.len()
                            invariant
                                i <= args@.len(),
                                self@ == before + attr_list_html(args@.subrange(0, i as int)),
                            decreases args@.len() - i,
                        {
                            proof {
                                assert(args@.subrange(0, i as int + 1).drop_last()
                                    =~= args@.subrange(0, i as int));
                            }
                            let arg = &args[i];
                            self.push(" ");
                            self.push(arg.name());
                            match arg.value() {
                                Some(value) => {
                                    self.push("=\"");
                                    self.push(value);
                                    self.push("\"");
                                },
                                None => {},
                            }
                            i = i + 1;
                        }
                        assert(args@.subrange(0, args@.len() as int) =~= args@);
                    },
                    None => {},
                }
                self.push(">");
                self.build_groups(inline_args);
                match remainder_arg {
                    Some(arg) => {
                        self.build_seq(arg);
                    },
                    None => {},
                }
                self.build_trailers(trailer_args);
                self.push("</");
                self.push(name.as_str());
                self.push(">");
                assert(self@ =~= start + html_of(*content));
            },
            Content::Word { word, .. } => {
                self.push(word.as_str());
            },
            Content::Whitespace { whitespace, .. } => {
                self.push(whitespace.as_str());
            },
            Content::Sugar(sugar) => match sugar {
                Sugar::Italic { arg, .. } => {
                    self.push("<i>");
                    self.build_seq(arg);
                    self.push("</i>");
                },
                Sugar::Bold { arg, .. } => {
                    self.push("<b>");
                    self.build_seq(arg);
                    self.push("</b>");
                },
                Sugar::Monospace { arg, .. } => {
                    self.push("<code>");
                    self.build_seq(arg);
                    self.push("</code>");
                },
                _ => {},
            },
            Content::Dash { dash, .. } => {
                match dash {
                    Dash::Hyphen => self.push("-"),
                    Dash::En => self.push("–"),
                    Dash::Em => self.push("—"),
                }
            },
            _ => {},
        }
    }

    /// The HTML accumulated so far.
    pub fn complete(self) -> (r: String)
        ensures
            r@ == self@,
    {
        self.content
    }
}

} // verus!
