//! The specification-string parser.
//!
//! A specification such as `crate1::mod1=error,crate2=debug/pattern` is
//! split on `/` into a module list and an optional content-filter pattern.
//! The module list is split on `,`; each piece, trimmed, is either a bare
//! level (a global directive), a bare module name (admitted in full), or
//! `name=level`. A malformed piece is skipped with a recorded error and
//! parsing continues: partial failure is local, never fatal. More than one
//! `/` rejects the whole specification with a single error.

use vstd::prelude::*;

use crate::chars::{
    count_char, find_char_range, find_idx, lemma_count_head, lemma_count_none, lemma_count_split,
    lemma_find_idx_char, spec_trim, trim_str,
};
use crate::directive::{Directive, DirectiveView};
use crate::level::{parse_level_filter, spec_parse_level, LevelFilter};
use crate::op::{regex_err_of, regex_ok, FilterOp};

verus! {

/// Everything a parse produces: the directives in the order their pieces
/// stood in the specification, the compiled content filter if one was
/// given and valid, and the error messages for the malformed parts.
pub struct ParseResult {
    /// Successfully parsed directives, in specification order.
    pub directives: Vec<Directive>,
    /// The content filter, when a `/` segment was present and compiled.
    pub filter: Option<FilterOp>,
    /// One message for each malformed piece or pattern.
    pub errors: Vec<String>,
}

/// Ghost image of a [`ParseResult`].
pub struct ParseView {
    /// Views of the parsed directives.
    pub directives: Seq<DirectiveView>,
    /// The content-filter pattern, when one was compiled.
    pub pattern: Option<Seq<char>>,
    /// The recorded error messages.
    pub errors: Seq<Seq<char>>,
}

impl View for ParseResult {
    type V = ParseView;

    open spec fn view(&self) -> ParseView {
        ParseView {
            directives: self.directives.deep_view(),
            pattern: match self.filter {
                Some(f) => Some(f@),
                None => None,
            },
            errors: self.errors.deep_view(),
        }
    }
}

impl ParseResult {
    fn add_directive(&mut self, directive: Directive)
        ensures
            final(self).directives@ == old(self).directives@.push(directive),
            final(self).filter == old(self).filter,
            final(self).errors == old(self).errors,
    {
        self.directives.push(directive);
    }

    fn set_filter(&mut self, filter: FilterOp)
        ensures
            final(self).directives == old(self).directives,
            final(self).filter == Some(filter),
            final(self).errors == old(self).errors,
    {
        self.filter = Some(filter);
    }

    fn add_error(&mut self, message: String)
        ensures
            final(self).directives == old(self).directives,
            final(self).filter == old(self).filter,
            final(self).errors@ == old(self).errors@.push(message),
    {
        self.errors.push(message);
    }
}

/// The outcome of one comma-separated piece: ignored, a directive, or a
/// recorded error.
pub enum PieceOut {
    /// The piece was empty after trimming and is skipped silently.
    Skip,
    /// The piece parsed into a directive.
    Dir {
        /// Module-path prefix, or `None` for a global directive.
        name: Option<Seq<char>>,
        /// Threshold of the directive.
        level: LevelFilter,
    },
    /// The piece was malformed; `msg` is the recorded error.
    Fail {
        /// The error message recorded for this piece.
        msg: Seq<char>,
    },
}

/// The error message recorded for a malformed piece or level.
pub open spec fn msg_invalid(part: Seq<char>) -> Seq<char> {
    "invalid logging spec '"@ + part + "'"@
}

/// The error message recorded when the specification holds more than one
/// `/`.
pub open spec fn msg_too_many_slashes(s: Seq<char>) -> Seq<char> {
    "invalid logging spec '"@ + s + "' (too many '/'s)"@
}

/// The error message recorded when the content-filter pattern does not
/// compile.
pub open spec fn msg_bad_filter(pattern: Seq<char>) -> Seq<char> {
    "invalid regex filter - "@ + regex_err_of(pattern)
}

/// How one comma-separated piece is read. The piece is trimmed; an empty
/// piece is skipped. With no `=`, a piece that parses as a level becomes a
/// global directive, anything else a module name admitted in full. With
/// one `=`, the part before it is the name and the trimmed part after it
/// the level — empty meaning "everything". More than one `=`, or an
/// unparseable level, records an error for this piece alone.
pub open spec fn spec_parse_piece(raw: Seq<char>) -> PieceOut {
    let p = spec_trim(raw);
    if p.len() == 0 {
        PieceOut::Skip
    } else {
        let eqs = count_char(p, '=');
        if eqs == 0 {
            match spec_parse_level(p) {
                Some(lv) => PieceOut::Dir { name: None, level: lv },
                None => PieceOut::Dir { name: Some(p), level: LevelFilter::Trace },
            }
        } else if eqs == 1 {
            let i = find_idx(p, '=');
            let name = p.take(i as int);
            let lv = spec_trim(p.skip(i as int + 1));
            if lv.len() == 0 {
                PieceOut::Dir { name: Some(name), level: LevelFilter::Trace }
            } else {
                match spec_parse_level(lv) {
                    Some(l) => PieceOut::Dir { name: Some(name), level: l },
                    None => PieceOut::Fail { msg: msg_invalid(lv) },
                }
            }
        } else {
            PieceOut::Fail { msg: msg_invalid(p) }
        }
    }
}

/// Fold one piece's outcome onto the outcome of the pieces after it.
pub open spec fn piece_into(
    h: PieceOut,
    rest: (Seq<DirectiveView>, Seq<Seq<char>>),
) -> (Seq<DirectiveView>, Seq<Seq<char>>) {
    match h {
        PieceOut::Skip => rest,
        PieceOut::Dir { name, level } => (seq![DirectiveView { name, level }] + rest.0, rest.1),
        PieceOut::Fail { msg } => (rest.0, seq![msg] + rest.1),
    }
}

/// Directives and errors of a module list: the list is split on `,` and
/// each piece read by [`spec_parse_piece`], keeping the pieces'
/// left-to-right order.
pub open spec fn spec_parse_mods(m: Seq<char>) -> (Seq<DirectiveView>, Seq<Seq<char>>)
    decreases m.len(),
{
    let i = find_idx(m, ',');
    if i >= m.len() {
        piece_into(spec_parse_piece(m), (Seq::empty(), Seq::empty()))
    } else {
        piece_into(spec_parse_piece(m.take(i as int)), spec_parse_mods(m.skip(i as int + 1)))
    }
}

/// What parsing a whole specification yields. At most one `/` is allowed;
/// the part before it is the module list, the part after it the
/// content-filter pattern. A pattern that does not compile leaves the
/// filter empty and records an error after the module list's own.
pub open spec fn spec_parse(s: Seq<char>) -> ParseView {
    let i = find_idx(s, '/');
    if i >= s.len() {
        let md = spec_parse_mods(s);
        ParseView { directives: md.0, pattern: None, errors: md.1 }
    } else {
        let rest = s.skip(i as int + 1);
        if count_char(rest, '/') > 0 {
            ParseView {
                directives: Seq::empty(),
                pattern: None,
                errors: seq![msg_too_many_slashes(s)],
            }
        } else {
            let md = spec_parse_mods(s.take(i as int));
            if regex_ok(rest) {
                ParseView { directives: md.0, pattern: Some(rest), errors: md.1 }
            } else {
                ParseView { directives: md.0, pattern: None, errors: md.1.push(msg_bad_filter(rest)) }
            }
        }
    }
}

fn invalid_spec_msg(part: &str) -> (r: String)
    ensures
        r@ == msg_invalid(part@),
{
    let mut s = String::from_str("invalid logging spec '");
    s.append(part);
    s.append("'");
    proof {
        assert(s@ =~= msg_invalid(part@));
    }
    s
}

fn too_many_slashes_msg(whole: &str) -> (r: String)
    ensures
        r@ == msg_too_many_slashes(whole@),
{
    let mut s = String::from_str("invalid logging spec '");
    s.append(whole);
    s.append("' (too many '/'s)");
    proof {
        assert(s@ =~= msg_too_many_slashes(whole@));
    }
    s
}

/// Executable outcome of one piece.
enum PieceResult {
    Skip,
    Dir(Directive),
    Fail(String),
}

/// Read one comma-separated piece, as [`spec_parse_piece`] describes.
fn parse_piece(piece: &str) -> (r: PieceResult)
    ensures
        match spec_parse_piece(piece@) {
            PieceOut::Skip => r is Skip,
            PieceOut::Dir { name, level } => r matches PieceResult::Dir(d) && d@ == (DirectiveView {
                name,
                level,
            }),
            PieceOut::Fail { msg } => r matches PieceResult::Fail(m) && m@ == msg,
        },
{
    let t = trim_str(piece);
    if t.is_empty() {
        return PieceResult::Skip;
    }
    let n = t.unicode_len();
    let e1 = find_char_range(t, '=', 0, n);
    proof {
        lemma_find_idx_char(t@, '=', e1 as int);
    }
    if e1 == n {
        proof {
            lemma_count_none(t@, '=');
        }
        match parse_level_filter(t) {
            Some(lv) => PieceResult::Dir(Directive { name: None, level: lv }),
            None => PieceResult::Dir(
                Directive { name: Some(t.to_owned()), level: LevelFilter::Trace },
            ),
        }
    } else {
        let e2 = find_char_range(t, '=', e1 + 1, n);
        proof {
            let a = t@.take(e1 as int);
            assert(forall|i: int| 0 <= i < a.len() ==> #[trigger] a[i] != '=');
            lemma_count_none(a, '=');
            lemma_count_split(t@, '=', e1 as int);
            let b = t@.skip(e1 as int);
            lemma_count_head(b, '=');
            let c = t@.skip(e1 as int + 1);
            assert(b.drop_first() =~= c);
            if e2 < n {
                lemma_count_split(c, '=', e2 - e1 - 1);
                let d = c.skip(e2 - e1 - 1);
                assert(d =~= t@.skip(e2 as int));
                lemma_count_head(t@.skip(e2 as int), '=');
                assert(count_char(t@, '=') >= 2);
            } else {
                assert(forall|i: int| 0 <= i < c.len() ==> #[trigger] c[i] != '=');
                lemma_count_none(c, '=');
                assert(count_char(t@, '=') == 1);
            }
        }
        if e2 < n {
            return PieceResult::Fail(invalid_spec_msg(t));
        }
        let name = t.substring_char(0, e1);
        let lv_raw = t.substring_char(e1 + 1, n);
        proof {
            assert(lv_raw@ =~= t@.skip(e1 as int + 1));
        }
        let lv = trim_str(lv_raw);
        if lv.is_empty() {
            PieceResult::Dir(Directive { name: Some(name.to_owned()), level: LevelFilter::Trace })
        } else {
            match parse_level_filter(lv) {
                Some(l) => PieceResult::Dir(Directive { name: Some(name.to_owned()), level: l }),
                None => PieceResult::Fail(invalid_spec_msg(lv)),
            }
        }
    }
}

/// Parse a logging specification (e.g. `crate1,crate2::mod=error/foo`)
/// into directives, an optional content filter, and the errors met on the
/// way.
pub fn parse_spec(spec: &str) -> (r: ParseResult)
    ensures
        r@ == spec_parse(spec@),
{
    let mut result = ParseResult { directives: Vec::new(), filter: None, errors: Vec::new() };
    let n = spec.unicode_len();
    let slash = find_char_range(spec, '/', 0, n);
    proof {
        lemma_find_idx_char(spec@, '/', slash as int);
    }
    if slash < n {
        let slash2 = find_char_range(spec, '/', slash + 1, n);
        let ghost rest = spec@.skip(slash as int + 1);
        if slash2 < n {
            proof {
                lemma_count_split(rest, '/', slash2 - slash - 1);
                assert(rest.skip(slash2 - slash - 1) =~= spec@.skip(slash2 as int));
                lemma_count_head(spec@.skip(slash2 as int), '/');
            }
            let msg = too_many_slashes_msg(spec);
            result.add_error(msg);
            proof {
                assert(result.directives.deep_view() =~= Seq::<DirectiveView>::empty());
                assert(result.errors.deep_view() =~= seq![msg_too_many_slashes(spec@)]);
            }
            return result;
        }
        proof {
            assert(forall|i: int| 0 <= i < rest.len() ==> #[trigger] rest[i] != '/');
            lemma_count_none(rest, '/');
        }
    }
    let mods_end = slash;
    let ghost m = spec@.take(mods_end as int);
    let mut pos: usize = 0;
    proof {
        assert(m.skip(0) =~= m);
        assert(result.directives.deep_view() =~= Seq::<DirectiveView>::empty());
        assert(result.errors.deep_view() =~= Seq::<Seq<char>>::empty());
        assert(Seq::<DirectiveView>::empty() + spec_parse_mods(m).0 =~= spec_parse_mods(m).0);
        assert(Seq::<Seq<char>>::empty() + spec_parse_mods(m).1 =~= spec_parse_mods(m).1);
    }
    loop
        invariant_except_break
            pos <= mods_end,
            mods_end <= n,
            n == spec@.len(),
            m == spec@.take(mods_end as int),
            result.filter is None,
            spec_parse_mods(m).0 == result.directives.deep_view() + spec_parse_mods(
                m.skip(pos as int),
            ).0,
            spec_parse_mods(m).1 == result.errors.deep_view() + spec_parse_mods(
                m.skip(pos as int),
            ).1,
        ensures
            result.filter is None,
            result.directives.deep_view() == spec_parse_mods(m).0,
            result.errors.deep_view() == spec_parse_mods(m).1,
        decreases mods_end - pos,
    {
        let c = find_char_range(spec, ',', pos, mods_end);
        let piece = spec.substring_char(pos, c);
        let ghost rem = m.skip(pos as int);
        proof {
            assert forall|i: int| 0 <= i < c - pos implies #[trigger] rem[i] != ',' by {
                assert(rem[i] == spec@[pos + i]);
            }
            if c < mods_end {
                assert(rem[c - pos] == spec@[c as int]);
            }
            lemma_find_idx_char(rem, ',', c - pos);
            assert(piece@ =~= rem.take(c - pos));
            if c == mods_end {
                assert(piece@ =~= rem);
            }
        }
        let pr = parse_piece(piece);
        let ghost dirs_before = result.directives.deep_view();
        let ghost errs_before = result.errors.deep_view();
        match pr {
            PieceResult::Skip => {},
            PieceResult::Dir(d) => {
                let ghost dv = d@;
                result.add_directive(d);
                proof {
                    assert(result.directives.deep_view() =~= dirs_before.push(dv));
                }
            },
            PieceResult::Fail(e) => {
                let ghost ev = e@;
                result.add_error(e);
                proof {
                    assert(result.errors.deep_view() =~= errs_before.push(ev));
                }
            },
        }
        proof {
            let head = spec_parse_piece(rem.take(c - pos));
            if c == mods_end {
                // the last piece: the remainder holds no comma
                assert(spec_parse_mods(rem) == piece_into(
                    spec_parse_piece(rem),
                    (Seq::<DirectiveView>::empty(), Seq::<Seq<char>>::empty()),
                ));
                assert(rem.take(c - pos) == rem);
                match head {
                    PieceOut::Skip => {
                        assert(spec_parse_mods(rem).0 =~= Seq::<DirectiveView>::empty());
                        assert(spec_parse_mods(rem).1 =~= Seq::<Seq<char>>::empty());
                        assert(dirs_before + spec_parse_mods(rem).0 =~= dirs_before);
                        assert(errs_before + spec_parse_mods(rem).1 =~= errs_before);
                    },
                    PieceOut::Dir { name, level } => {
                        assert(dirs_before + spec_parse_mods(rem).0 =~= dirs_before.push(
                            DirectiveView { name, level },
                        ));
                        assert(errs_before + spec_parse_mods(rem).1 =~= errs_before);
                    },
                    PieceOut::Fail { msg } => {
                        assert(dirs_before + spec_parse_mods(rem).0 =~= dirs_before);
                        assert(errs_before + spec_parse_mods(rem).1 =~= errs_before.push(msg));
                    },
                }
            } else {
                let rem2 = m.skip(c as int + 1);
                assert(rem.skip(c - pos + 1) =~= rem2);
                assert(spec_parse_mods(rem) == piece_into(head, spec_parse_mods(rem2)));
                match head {
                    PieceOut::Skip => {},
                    PieceOut::Dir { name, level } => {
                        assert(dirs_before + (seq![DirectiveView { name, level }]
                            + spec_parse_mods(rem2).0) =~= dirs_before.push(
                            DirectiveView { name, level },
                        ) + spec_parse_mods(rem2).0);
                    },
                    PieceOut::Fail { msg } => {
                        assert(errs_before + (seq![msg] + spec_parse_mods(rem2).1)
                            =~= errs_before.push(msg) + spec_parse_mods(rem2).1);
                    },
                }
            }
        }
        if c == mods_end {
            break;
        }
        pos = c + 1;
    }
    if slash < n {
        let pat = spec.substring_char(slash + 1, n);
        proof {
            assert(pat@ =~= spec@.skip(slash as int + 1));
        }
        match FilterOp::new(pat) {
            Ok(f) => {
                result.set_filter(f);
            },
            Err(e) => {
                let mut msg = String::from_str("invalid regex filter - ");
                msg.append(e.as_str());
                proof {
                    assert(msg@ =~= msg_bad_filter(pat@));
                }
                result.add_error(msg);
                proof {
                    assert(result.errors.deep_view() =~= spec_parse_mods(m).1.push(
                        msg_bad_filter(pat@),
                    ));
                }
            },
        }
    } else {
        proof {
            assert(m =~= spec@);
        }
    }
    result
}

} // verus!
