use vstd::prelude::*;
use vstd::string::StringExecFns;
use crate::ast::{File, Loc, Par, ParPart};
use crate::log::{Log, Note, Severity, Src};
use crate::parsed::{
    pre_groups, pre_pars, pre_part, pre_parts, pre_seq, pre_trailers, preorder, sugar_arg, Attr,
    Content, Sugar,
};

verus! {

/// The index of the first of `a[0..n]` named `name`, or -1 when there is none.
pub open spec fn first_index(a: Seq<Attr>, name: Seq<char>, n: int) -> int
    decreases n,
{
    if n <= 0 {
        -1
    } else {
        let f = first_index(a, name, n - 1);
        if f >= 0 {
            f
        } else if a[n - 1].name@ == name {
            n - 1
        } else {
            -1
        }
    }
}

/// For each of `a[0..n]` in order whose name came earlier, the pair of its index and the
/// index of the first attribute of that name.
pub open spec fn dup_pairs(a: Seq<Attr>, n: int) -> Seq<(int, int)>
    decreases n,
{
    if n <= 0 {
        Seq::empty()
    } else {
        let rest = dup_pairs(a, n - 1);
        let f = first_index(a, a[n - 1].name@, n - 1);
        if f >= 0 {
            rest.push((n - 1, f))
        } else {
            rest
        }
    }
}

/// The diagnostic reported for attribute `dup`, whose name was first given by `def`, on
/// the command at `loc`.
pub open spec fn is_dup_log(log: Log, loc: Loc, dup: Attr, def: Attr) -> bool {
    &&& log.severity == Severity::Warn
    &&& log.msg@ == "duplicate attributes"@
    &&& log.src.is_some()
    &&& log.src.unwrap().loc == loc
    &&& log.src.unwrap().notes@.len() == 2
    &&& log.src.unwrap().notes@[0].loc == dup.loc
    &&& log.src.unwrap().notes@[0].severity == Severity::Warn
    &&& log.src.unwrap().notes@[0].msg@ == "found duplicate '"@ + dup.name@ + "' here"@
    &&& log.src.unwrap().notes@[1].loc == def.loc
    &&& log.src.unwrap().notes@[1].severity == Severity::Info
    &&& log.src.unwrap().notes@[1].msg@ == "'"@ + dup.name@ + "' first defined here"@
    &&& log.help.is_some()
    &&& log.help.unwrap()@ == "remove multiple occurrences of the same attribute"@
}

/// The diagnostics that the duplicate-attribute lint owes for one content node.
pub open spec fn dup_logs_ok(content: Content, r: Seq<Log>) -> bool {
    match content {
        Content::Command { loc, attrs: Some(attrs), .. } => {
            let a = attrs.args@;
            let p = dup_pairs(a, a.len() as int);
            &&& r.len() == p.len()
            &&& forall|k: int|
                0 <= k < r.len() ==> #[trigger] is_dup_log(r[k], loc, a[p[k].0], a[p[k].1])
        },
        _ => r.len() == 0,
    }
}

proof fn lemma_first_index_none(a: Seq<Attr>, name: Seq<char>, n: int)
    requires
        n <= a.len(),
        forall|j: int| 0 <= j < n ==> a[j].name@ != name,
    ensures
        first_index(a, name, n) == -1,
    decreases n,
{
    if n > 0 {
        lemma_first_index_none(a, name, n - 1);
    }
}

proof fn lemma_first_index_found(a: Seq<Attr>, name: Seq<char>, j: int, n: int)
    requires
        0 <= j < n <= a.len(),
        a[j].name@ == name,
        forall|k: int| 0 <= k < j ==> a[k].name@ != name,
    ensures
        first_index(a, name, n) == j,
    decreases n,
{
    if n == j + 1 {
        lemma_first_index_none(a, name, j);
    } else {
        lemma_first_index_found(a, name, j, n - 1);
    }
}

/// How many diagnostics the duplicate-attribute lint owes for one node.
pub open spec fn dup_count(content: Content) -> int {
    match content {
        Content::Command { attrs: Some(attrs), .. } => dup_pairs(
            attrs.args@,
            attrs.args@.len() as int,
        ).len() as int,
        _ => 0,
    }
}

/// `r` is the concatenation, in order, of the diagnostics owed for each of `nodes`.
pub open spec fn lint_ok(nodes: Seq<Content>, r: Seq<Log>) -> bool
    decreases nodes.len(),
{
    if nodes.len() == 0 {
        r.len() == 0
    } else {
        let last = nodes[nodes.len() - 1];
        let n = r.len() - dup_count(last);
        &&& 0 <= n
        &&& lint_ok(nodes.subrange(0, nodes.len() - 1), r.subrange(0, n))
        &&& dup_logs_ok(last, r.subrange(n, r.len() as int))
    }
}

proof fn lemma_lint_single(c: Content, r: Seq<Log>)
    requires
        dup_logs_ok(c, r),
    ensures
        lint_ok(seq![c], r),
{
    assert(r.len() == dup_count(c)) by {
        match c {
            Content::Command { attrs: Some(attrs), .. } => {},
            _ => {},
        }
    }
    let nodes = seq![c];
    assert(nodes[nodes.len() - 1] == c);
    assert(nodes.subrange(0, 0) =~= Seq::<Content>::empty());
    assert(r.subrange(0, 0).len() == 0);
    assert(lint_ok(nodes.subrange(0, 0), r.subrange(0, 0)));
    assert(dup_logs_ok(c, r.subrange(0, r.len() as int)));
    assert(r.subrange(0, r.len() as int) =~= r);
}

/// Diagnostics of two runs of nodes, one after the other, are those of the joined run.
proof fn lemma_lint_concat(a: Seq<Content>, r: Seq<Log>, b: Seq<Content>, s: Seq<Log>)
    requires
        lint_ok(a, r),
        lint_ok(b, s),
    ensures
        lint_ok(a + b, r + s),
    decreases b.len(),
{
    if b.len() == 0 {
        assert(a + b =~= a);
        assert(r + s =~= r);
    } else {
        let last = b[b.len() - 1];
        let n = s.len() - dup_count(last);
        let b0 = b.subrange(0, b.len() - 1);
        let s0 = s.subrange(0, n);
        lemma_lint_concat(a, r, b0, s0);
        let ab = a + b;
        let rs = r + s;
        assert(ab.subrange(0, ab.len() - 1) =~= a + b0);
        assert(ab[ab.len() - 1] == last);
        assert(rs.subrange(0, rs.len() - dup_count(last)) =~= r + s0);
        assert(rs.subrange(rs.len() - dup_count(last), rs.len() as int) =~= s.subrange(n, s.len() as int));
    }
}

/// A command whose attribute names are pairwise distinct owes no duplicate-attribute
/// diagnostics.
pub proof fn lemma_distinct_names_no_dups(a: Seq<Attr>)
    requires
        forall|i: int, j: int| 0 <= i < j < a.len() ==> a[i].name@ != a[j].name@,
    ensures
        dup_pairs(a, a.len() as int).len() == 0,
{
    lemma_no_dups_prefix(a, a.len() as int);
}

proof fn lemma_no_dups_prefix(a: Seq<Attr>, n: int)
    requires
        n <= a.len(),
        forall|i: int, j: int| 0 <= i < j < a.len() ==> a[i].name@ != a[j].name@,
    ensures
        dup_pairs(a, n).len() == 0,
    decreases n,
{
    if n > 0 {
        lemma_no_dups_prefix(a, n - 1);
        lemma_first_index_none(a, a[n - 1].name@, n - 1);
    }
}

/// Warns about attributes whose name was already given to the same command.
pub struct DuplicateAttrs {}

impl DuplicateAttrs {
    pub fn new() -> (r: DuplicateAttrs) {
        DuplicateAttrs {}
    }

    /// The stable name of this lint.
    pub fn id(&self) -> (r: &'static str)
        ensures
            r@ == "duplicate-attrs"@,
    {
        "duplicate-attrs"
    }

    fn dup_log(loc: &Loc, dup: &Attr, def: &Attr) -> (r: Log)
        ensures
            is_dup_log(r, *loc, *dup, *def),
    {
        let mut found = "found duplicate '".to_owned();
        found.append(dup.name());
        found.append("' here");
        let mut first = "'".to_owned();
        first.append(dup.name());
        first.append("' first defined here");
        let src = Src::new(loc).annotate(Note::warn(dup.loc(), found)).annotate(
            Note::info(def.loc(), first),
        );
        Log::warn("duplicate attributes").src(src).help(
            "remove multiple occurrences of the same attribute",
        )
    }

    /// One diagnostic for each attribute of a command whose name an earlier attribute of
    /// that command already has, in the order in which the duplicates were written.
    pub fn analyse(&mut self, content: &Content) -> (r: Vec<Log>)
        ensures
            dup_logs_ok(*content, r@),
    {
        match content {
            Content::Command { loc, attrs: Some(attrs), .. } => {
                let args = attrs.args();
                let ghost a = args@;
                let mut ret: Vec<Log> = Vec::new();
                let mut i: usize = 0;
                while i < args.len()
                    invariant
                        a == args@,
                        i <= a.len(),
                        ret@.len() == dup_pairs(a, i as int).len(),
                        forall|k: int|
                            0 <= k < ret@.len() ==> #[trigger] is_dup_log(
                                ret@[k],
                                *loc,
                                a[dup_pairs(a, i as int)[k].0],
                                a[dup_pairs(a, i as int)[k].1],
                            ),
                    decreases a.len() - i,
                {
                    let mut j: usize = 0;
                    let mut found = false;
                    while j < i
                        invariant_except_break
                            !found,
                        invariant
                            a == args@,
                            i < a.len(),
                            j <= i,
                            forall|k: int| 0 <= k < j ==> a[k].name@ != a[i as int].name@,
                        ensures
                            found ==> j < i && a[j as int].name@ == a[i as int].name@,
                            !found ==> j == i,
                        decreases i - j,
                    {
                        if args[j].name == args[i].name {
                            found = true;
                            break;
                        }
                        j = j + 1;
                    }
                    let ghost prev = dup_pairs(a, i as int);
                    if found {
                        proof {
                            lemma_first_index_found(a, a[i as int].name@, j as int, i as int);
                        }
                        let log = Self::dup_log(loc, &args[i], &args[j]);
                        ret.push(log);
                        assert(dup_pairs(a, i + 1) == prev.push((i as int, j as int)));
                    } else {
                        proof {
                            lemma_first_index_none(a, a[i as int].name@, i as int);
                        }
                        assert(dup_pairs(a, i + 1) == prev);
                    }
                    i = i + 1;
                }
                ret
            },
            _ => Vec::new(),
        }
    }

    fn walk_seq(&mut self, cs: &Vec<Content>) -> (r: Vec<Log>)
        ensures
            lint_ok(pre_seq(cs@), r@),
        decreases cs,
    {
        let mut acc: Vec<Log> = Vec::new();
        let mut i: usize = 0;
        while i < cs.len()
            invariant
                i <= cs@.len(),
                lint_ok(pre_seq(cs@.subrange(0, i as int)), acc@),
            decreases cs@.len() - i,
        {
            proof {
                assert(cs@.subrange(0, i as int + 1).subrange(0, i as int) =~= cs@.subrange(0, i as int));
            }
            let mut sub = self.walk(&cs[i]);
            proof {
                lemma_lint_concat(pre_seq(cs@.subrange(0, i as int)), acc@, preorder(cs@[i as int]), sub@);
            }
            acc.append(&mut sub);
            i = i + 1;
        }
        assert(cs@.subrange(0, cs@.len() as int) =~= cs@);
        acc
    }

    fn walk_groups(&mut self, gs: &Vec<Vec<Content>>) -> (r: Vec<Log>)
        ensures
            lint_ok(pre_groups(gs@), r@),
        decreases gs,
    {
        let mut acc: Vec<Log> = Vec::new();
        let mut i: usize = 0;
        while i < gs.len()
            invariant
                i <= gs@.len(),
                lint_ok(pre_groups(gs@.subrange(0, i as int)), acc@),
            decreases gs@.len() - i,
        {
            proof {
                assert(gs@.subrange(0, i as int + 1).subrange(0, i as int) =~= gs@.subrange(0, i as int));
            }
            let mut sub = self.walk_seq(&gs[i]);
            proof {
                lemma_lint_concat(pre_groups(gs@.subrange(0, i as int)), acc@, pre_seq(gs@[i as int]@), sub@);
            }
            acc.append(&mut sub);
            i = i + 1;
        }
        assert(gs@.subrange(0, gs@.len() as int) =~= gs@);
        acc
    }

    fn walk_parts(&mut self, ps: &Vec<ParPart<Content>>) -> (r: Vec<Log>)
        ensures
            lint_ok(pre_parts(ps@), r@),
        decreases ps,
    {
        let mut acc: Vec<Log> = Vec::new();
        let mut i: usize = 0;
        while i < ps.len()
            invariant
                i <= ps@.len(),
                lint_ok(pre_parts(ps@.subrange(0, i as int)), acc@),
            decreases ps@.len() - i,
        {
            proof {
                assert(ps@.subrange(0, i as int + 1).subrange(0, i as int) =~= ps@.subrange(0, i as int));
            }
            let mut sub = self.walk_part(&ps[i]);
            proof {
                lemma_lint_concat(pre_parts(ps@.subrange(0, i as int)), acc@, pre_part(ps@[i as int]), sub@);
            }
            acc.append(&mut sub);
            i = i + 1;
        }
        assert(ps@.subrange(0, ps@.len() as int) =~= ps@);
        acc
    }

    fn walk_pars(&mut self, ps: &Vec<Par<ParPart<Content>>>) -> (r: Vec<Log>)
        ensures
            lint_ok(pre_pars(ps@), r@),
        decreases ps,
    {
        let mut acc: Vec<Log> = Vec::new();
        let mut i: usize = 0;
        while i < ps.len()
            invariant
                i <= ps@.len(),
                lint_ok(pre_pars(ps@.subrange(0, i as int)), acc@),
            decreases ps@.len() - i,
        {
            proof {
                assert(ps@.subrange(0, i as int + 1).subrange(0, i as int) =~= ps@.subrange(0, i as int));
            }
            let mut sub = self.walk_par(&ps[i]);
            proof {
                lemma_lint_concat(pre_pars(ps@.subrange(0, i as int)), acc@, pre_parts(ps@[i as int].parts@), sub@);
            }
            acc.append(&mut sub);
            i = i + 1;
        }
        assert(ps@.subrange(0, ps@.len() as int) =~= ps@);
        acc
    }

    fn walk_trailers(&mut self, ts: &Vec<Vec<Par<ParPart<Content>>>>) -> (r: Vec<Log>)
        ensures
            lint_ok(pre_trailers(ts@), r@),
        decreases ts,
    {
        let mut acc: Vec<Log> = Vec::new();
        let mut i: usize = 0;
        while i < ts.len()
            invariant
                i <= ts@.len(),
                lint_ok(pre_trailers(ts@.subrange(0, i as int)), acc@),
            decreases ts@.len() - i,
        {
            proof {
                assert(ts@.subrange(0, i as int + 1).subrange(0, i as int) =~= ts@.subrange(0, i as int));
            }
            let mut sub = self.walk_pars(&ts[i]);
            proof {
                lemma_lint_concat(pre_trailers(ts@.subrange(0, i as int)), acc@, pre_pars(ts@[i as int]@), sub@);
            }
            acc.append(&mut sub);
            i = i + 1;
        }
        assert(ts@.subrange(0, ts@.len() as int) =~= ts@);
        acc
    }

    fn walk_part(&mut self, p: &ParPart<Content>) -> (r: Vec<Log>)
        ensures
            lint_ok(pre_part(*p), r@),
        decreases p,
    {
        match p {
            ParPart::Line(cs) => self.walk_seq(cs),
            ParPart::Command(c) => self.walk(c),
        }
    }

    fn walk_par(&mut self, par: &Par<ParPart<Content>>) -> (r: Vec<Log>)
        ensures
            lint_ok(pre_parts(par.parts@), r@),
        decreases par,
    {
        self.walk_parts(&par.parts)
    }

    fn walk(&mut self, content: &Content) -> (r: Vec<Log>)
        ensures
            lint_ok(preorder(*content), r@),
        decreases content,
    {
        let mut ret = self.analyse(content);
        proof {
            lemma_lint_single(*content, ret@);
        }
        let ghost own = ret@;
        match content {
            Content::Command { inline_args, remainder_arg, trailer_args, .. } => {
                let mut g = self.walk_groups(inline_args);
                let mut rem = match remainder_arg {
                    Some(a) => self.walk_seq(a),
                    None => Vec::new(),
                };
                let ghost rem_pre = match remainder_arg {
                    Some(a) => pre_seq(a@),
                    None => Seq::empty(),
                };
                let mut t = self.walk_trailers(trailer_args);
                proof {
                    let pg = pre_groups(inline_args@);
                    let pt = pre_trailers(trailer_args@);
                    lemma_lint_concat(pg, g@, rem_pre, rem@);
                    lemma_lint_concat(pg + rem_pre, g@ + rem@, pt, t@);
                    lemma_lint_concat(seq![*content], own, pg + rem_pre + pt, g@ + rem@ + t@);
                    assert(own + g@ + rem@ + t@ =~= own + (g@ + rem@ + t@));
                }
                ret.append(&mut g);
                ret.append(&mut rem);
                ret.append(&mut t);
            },
            Content::Sugar(sugar) => {
                let mut sub = match sugar {
                    Sugar::Italic { arg, .. } => self.walk_seq(arg),
                    Sugar::Bold { arg, .. } => self.walk_seq(arg),
                    Sugar::Monospace { arg, .. } => self.walk_seq(arg),
                    Sugar::Smallcaps { arg, .. } => self.walk_seq(arg),
                    Sugar::AlternateFace { arg, .. } => self.walk_seq(arg),
                };
                proof {
                    lemma_lint_concat(seq![*content], own, pre_seq(sugar_arg(*sugar)@), sub@);
                }
                ret.append(&mut sub);
            },
            _ => {
                assert(preorder(*content) =~= seq![*content]);
            },
        }
        ret
    }

    /// Runs this lint over every node of a content tree, in document order: a node before
    /// its children, the children from left to right. The diagnostics of each node follow
    /// those of the nodes before it.
    pub fn analyse_tree(&mut self, content: &Content) -> (r: Vec<Log>)
        ensures
            lint_ok(preorder(*content), r@),
    {
        self.walk(content)
    }

    /// Runs this lint over every node of every paragraph of a file, in document order.
    pub fn analyse_file(&mut self, file: &File<ParPart<Content>>) -> (r: Vec<Log>)
        ensures
            lint_ok(pre_pars(file.pars@), r@),
    {
        self.walk_pars(&file.pars)
    }
}

} // verus!
