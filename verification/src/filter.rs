//! The filtering engine: a [`Filter`] owns the compiled directives and the
//! optional content filter, and decides per record whether it is emitted.
//!
//! A [`Builder`] accumulates directives — by explicit calls and/or by
//! parsing a specification string — and finalizes them into an immutable
//! `Filter`. At finalize time the directives are sorted by ascending name
//! length (stably, so directives of equal length keep declaration order),
//! which lets the engine scan them in reverse for the longest matching
//! prefix. A builder that never saw a directive yields the single default
//! directive: global, at the `Error` threshold.

use vstd::prelude::*;

use crate::directive::{
    dir_key, insert_by_len, lemma_insert_at_pos, lemma_insert_sorted, lemma_sort_sorted,
    sort_by_len, sorted_by_len, spec_enabled, Directive, DirectiveView, enabled,
};
use crate::level::{Level, LevelFilter, filter_num};
use crate::op::{regex_match, FilterOp};
use crate::parser::{parse_spec, spec_parse};
use crate::record::LogRecord;

verus! {

/// A compiled log filter.
#[derive(Debug)]
pub struct Filter {
    directives: Vec<Directive>,
    filter: Option<FilterOp>,
}

/// Ghost image of a [`Filter`]: the directive views in their stored
/// (sorted) order and the content-filter pattern.
pub struct FilterView {
    /// Views of the stored directives, sorted by ascending name length.
    pub directives: Seq<DirectiveView>,
    /// The content-filter pattern, if one is present.
    pub pattern: Option<Seq<char>>,
}

impl View for Filter {
    type V = FilterView;

    closed spec fn view(&self) -> FilterView {
        FilterView {
            directives: self.directives.deep_view(),
            pattern: match self.filter {
                Some(f) => Some(f@),
                None => None,
            },
        }
    }
}

/// Does the whole filter admit a record at `level`, with `target`, whose
/// rendered message is `message`? The directives decide by longest prefix;
/// a present content filter must additionally match the message.
pub open spec fn spec_matches(
    f: FilterView,
    level: Level,
    target: Seq<char>,
    message: Seq<char>,
) -> bool {
    spec_enabled(f.directives, level, target) && match f.pattern {
        Some(p) => regex_match(p, message),
        None => true,
    }
}

impl Filter {
    /// The maximum threshold any directive of this filter is configured
    /// with: records above it are admitted nowhere. An empty directive
    /// list yields `Off`.
    pub fn filter(&self) -> (r: LevelFilter)
        ensures
            self@.directives.len() == 0 ==> r == LevelFilter::Off,
            forall|i: int|
                0 <= i < self@.directives.len() ==> (#[trigger] self@.directives[i].level).as_nat()
                    <= r.as_nat(),
            self@.directives.len() > 0 ==> exists|i: int|
                0 <= i < self@.directives.len() && self@.directives[i].level == r,
    {
        let ghost dv = self.directives.deep_view();
        let mut r = LevelFilter::Off;
        let ghost found: int = 0;
        let mut i: usize = 0;
        while i < self.directives.len()
            invariant
                i <= self.directives.len(),
                dv == self.directives.deep_view(),
                forall|j: int| 0 <= j < i ==> (#[trigger] dv[j].level).as_nat() <= r.as_nat(),
                i > 0 ==> 0 <= found < i && dv[found].level == r,
                i == 0 ==> r == LevelFilter::Off,
            decreases self.directives.len() - i,
        {
            let d = &self.directives[i];
            if filter_num(d.level) > filter_num(r) || i == 0 {
                r = d.level;
                proof {
                    found = i as int;
                }
            }
            i = i + 1;
        }
        r
    }

    /// Is a record at `level` with this `target` admitted by the
    /// directives alone (the content filter not consulted)?
    pub fn enabled(&self, level: Level, target: &str) -> (r: bool)
        ensures
            r == spec_enabled(self@.directives, level, target@),
    {
        enabled(&self.directives, level, target)
    }

    /// Does this record pass the filter: enabled by the directives, and —
    /// when a content filter is present — its message matched by it?
    pub fn matches(&self, record: &LogRecord) -> (r: bool)
        ensures
            r == spec_matches(self@, record@.level, record@.target, record@.args),
    {
        if !self.enabled(record.level, record.target.as_str()) {
            return false;
        }
        match &self.filter {
            Some(f) => f.is_match(record.args.as_str()),
            None => true,
        }
    }

    /// The stored directives, in their sorted order.
    pub fn directives(&self) -> (r: &Vec<Directive>)
        ensures
            r.deep_view() == self@.directives,
    {
        &self.directives
    }

    /// The stored content filter, if any.
    pub fn content_filter(&self) -> (r: &Option<FilterOp>)
        ensures
            match r {
                Some(f) => self@.pattern == Some(f@),
                None => self@.pattern is None,
            },
    {
        &self.filter
    }
}

/// A builder for a [`Filter`].
#[derive(Debug)]
pub struct Builder {
    directives: Vec<Directive>,
    filter: Option<FilterOp>,
}

/// Ghost image of a [`Builder`]: directives in declaration order.
pub struct BuilderView {
    /// Views of the accumulated directives, in declaration order.
    pub directives: Seq<DirectiveView>,
    /// The content-filter pattern, if one was parsed.
    pub pattern: Option<Seq<char>>,
}

impl View for Builder {
    type V = BuilderView;

    closed spec fn view(&self) -> BuilderView {
        BuilderView {
            directives: self.directives.deep_view(),
            pattern: match self.filter {
                Some(f) => Some(f@),
                None => None,
            },
        }
    }
}

/// The default directive a builder that saw none falls back to: global, at
/// the `Error` threshold.
pub open spec fn default_directive() -> DirectiveView {
    DirectiveView { name: None, level: LevelFilter::Error }
}

/// The directive sequence a finished filter holds, given the builder's
/// accumulated sequence: the single default directive if none was added,
/// otherwise the stable sort by ascending name length.
pub open spec fn built_directives(dirs: Seq<DirectiveView>) -> Seq<DirectiveView> {
    if dirs.len() == 0 {
        seq![default_directive()]
    } else {
        sort_by_len(dirs)
    }
}

impl Builder {
    /// An empty builder: no directives, no content filter.
    pub fn new() -> (r: Builder)
        ensures
            r@.directives.len() == 0,
            r@.pattern is None,
    {
        let r = Builder { directives: Vec::new(), filter: None };
        proof {
            assert(r@.directives =~= Seq::<DirectiveView>::empty());
        }
        r
    }

    /// Add one directive: the given module prefix (or none, for a global
    /// directive) will log at most at `level`.
    pub fn filter(&mut self, module: Option<&str>, level: LevelFilter)
        ensures
            final(self)@.directives == old(self)@.directives.push(
                (DirectiveView {
                    name: match module {
                        Some(m) => Some(m@),
                        None => None,
                    },
                    level,
                }),
            ),
            final(self)@.pattern == old(self)@.pattern,
    {
        let name: Option<String> = match module {
            Some(m) => Some(m.to_owned()),
            None => None,
        };
        let d = Directive { name, level };
        let ghost dv = d@;
        self.directives.push(d);
        proof {
            assert(self.directives.deep_view() =~= old(self).directives.deep_view().push(dv));
        }
    }

    /// Parse a specification string in the `RUST_LOG` form and accumulate
    /// its directives; the content filter is replaced by the parse's
    /// outcome. Errors of malformed pieces are dropped silently: the
    /// builder keeps whatever was recovered.
    pub fn parse(&mut self, filters: &str)
        ensures
            final(self)@.directives == old(self)@.directives + spec_parse(filters@).directives,
            final(self)@.pattern == spec_parse(filters@).pattern,
    {
        let mut parsed = parse_spec(filters);
        let ghost dirs_before = self.directives.deep_view();
        let ghost parsed_dirs = parsed.directives.deep_view();
        self.filter = None;
        core::mem::swap(&mut self.filter, &mut parsed.filter);
        self.directives.append(&mut parsed.directives);
        proof {
            assert(self.directives.deep_view() =~= dirs_before + parsed_dirs);
        }
    }

    /// Finalize into a [`Filter`]. A builder without directives yields the
    /// single default directive; otherwise the directives are sorted,
    /// stably, by ascending name length. The builder is left empty.
    pub fn build(&mut self) -> (r: Filter)
        ensures
            r@.directives == built_directives(old(self)@.directives),
            sorted_by_len(r@.directives),
            r@.pattern == old(self)@.pattern,
            final(self)@.directives.len() == 0,
            final(self)@.pattern is None,
    {
        if self.directives.len() == 0 {
            self.directives.push(Directive { name: None, level: LevelFilter::Error });
            proof {
                assert(self.directives.deep_view() =~= seq![default_directive()]);
            }
        } else {
            sort_directives(&mut self.directives);
            proof {
                lemma_sort_sorted(old(self).directives.deep_view());
            }
        }
        let mut dirs: Vec<Directive> = Vec::new();
        core::mem::swap(&mut dirs, &mut self.directives);
        let mut op: Option<FilterOp> = None;
        core::mem::swap(&mut op, &mut self.filter);
        proof {
            assert(self.directives.deep_view() =~= Seq::<DirectiveView>::empty());
        }
        Filter { directives: dirs, filter: op }
    }
}

/// Move the directive at `i` out of `v`, leaving a placeholder there.
fn take_directive(v: &mut Vec<Directive>, i: usize) -> (r: Directive)
    requires
        i < old(v)@.len(),
    ensures
        r@ == old(v).deep_view()[i as int],
        final(v)@.len() == old(v)@.len(),
        final(v).deep_view() == old(v).deep_view().update(
            i as int,
            (DirectiveView { name: None, level: LevelFilter::Off }),
        ),
{
    let mut d = Directive { name: None, level: LevelFilter::Off };
    let slot = &mut v[i];
    core::mem::swap(&mut d, slot);
    proof {
        assert(v.deep_view() =~= old(v).deep_view().update(
            i as int,
            (DirectiveView { name: None, level: LevelFilter::Off }),
        ));
    }
    d
}

/// Sort the directives, stably, by ascending name length.
fn sort_directives(v: &mut Vec<Directive>)
    ensures
        final(v).deep_view() == sort_by_len(old(v).deep_view()),
{
    let ghost input = v.deep_view();
    let mut out: Vec<Directive> = Vec::new();
    let mut i: usize = 0;
    let n = v.len();
    proof {
        assert(out.deep_view() =~= Seq::<DirectiveView>::empty());
        assert(input.take(0) =~= Seq::<DirectiveView>::empty());
        assert(sort_by_len(Seq::<DirectiveView>::empty()) == Seq::<DirectiveView>::empty());
        assert(input.len() == n);
    }
    while i < n
        invariant
            i <= n,
            n == v@.len(),
            input.len() == n,
            v.deep_view().len() == n,
            forall|j: int| i <= j < n ==> v.deep_view()[j] == input[j],
            out.deep_view() == sort_by_len(input.take(i as int)),
            sorted_by_len(out.deep_view()),
        decreases n - i,
    {
        let d = take_directive(v, i);
        let ghost ov = out.deep_view();
        let key = directive_len(&d);
        // find the first position whose key exceeds the new directive's
        let mut p: usize = 0;
        while p < out.len() && directive_len(&out[p]) <= key
            invariant
                p <= out@.len(),
                out.deep_view() == ov,
                out@.len() == ov.len(),
                key as nat == dir_key(d@),
                forall|j: int| 0 <= j < p ==> dir_key(#[trigger] ov[j]) <= key as nat,
            decreases out@.len() - p,
        {
            p = p + 1;
        }
        proof {
            assert forall|j: int| p <= j < ov.len() implies dir_key(#[trigger] ov[j])
                > key as nat by {
                assert(dir_key(ov[p as int]) > key as nat);
                assert(dir_key(ov[p as int]) <= dir_key(ov[j]));
            }
            lemma_insert_at_pos(d@, ov, p as int);
            lemma_insert_sorted(d@, ov);
        }
        out.insert(p, d);
        proof {
            assert(out.deep_view() =~= ov.take(p as int) + seq![d@] + ov.skip(p as int));
            assert(input.take(i as int + 1).drop_last() =~= input.take(i as int));
            assert(input.take(i as int + 1).last() == input[i as int]);
            assert(out.deep_view() == sort_by_len(input.take(i as int + 1)));
        }
        i = i + 1;
    }
    core::mem::swap(v, &mut out);
    proof {
        assert(input.take(n as int) =~= input);
    }
}

/// Length of a directive's name in characters; 0 for a global directive.
fn directive_len(d: &Directive) -> (r: usize)
    ensures
        r as nat == dir_key(d@),
{
    match &d.name {
        Some(n) => n.as_str().unicode_len(),
        None => 0,
    }
}

/// Re-deriving a filter from the same specification string reproduces the
/// same behavior: two filters built from one specification agree on the
/// enablement of every record and carry the same content-filter pattern.
pub proof fn lemma_reparse_equivalent(
    f1: FilterView,
    f2: FilterView,
    s: Seq<char>,
    level: Level,
    target: Seq<char>,
)
    requires
        f1.directives == built_directives(spec_parse(s).directives),
        f1.pattern == spec_parse(s).pattern,
        f2.directives == built_directives(spec_parse(s).directives),
        f2.pattern == spec_parse(s).pattern,
    ensures
        spec_enabled(f1.directives, level, target) == spec_enabled(f2.directives, level, target),
        f1.pattern == f2.pattern,
{
}

} // verus!
