//! Directives and the longest-prefix enablement algorithm.
//!
//! A [`Directive`] pairs an optional module-path prefix with a level
//! threshold; a directive without a name is global and matches every
//! target. A set of directives is kept sorted by ascending name length,
//! and [`enabled`] scans it in reverse, so the most specific (longest)
//! matching prefix decides. If nothing matches, the record is not enabled.

use vstd::prelude::*;

use crate::chars::str_starts_with;
use crate::level::{spec_level_enabled, Level, LevelFilter, level_passes};

verus! {

/// A single filtering rule: an optional module-path prefix and the level
/// threshold applied to targets under it. `name == None` is a global rule.
#[derive(Debug)]
pub struct Directive {
    /// Module-path prefix the rule applies to; `None` matches everything.
    pub name: Option<String>,
    /// Threshold for records whose target this rule matches.
    pub level: LevelFilter,
}

/// Ghost image of a [`Directive`]: the name as a character sequence.
pub struct DirectiveView {
    /// Prefix as a character sequence, or `None` for a global rule.
    pub name: Option<Seq<char>>,
    /// Threshold of the rule.
    pub level: LevelFilter,
}

impl View for Directive {
    type V = DirectiveView;

    open spec fn view(&self) -> DirectiveView {
        DirectiveView {
            name: match self.name {
                Some(n) => Some(n@),
                None => None,
            },
            level: self.level,
        }
    }
}

impl DeepView for Directive {
    type V = DirectiveView;

    open spec fn deep_view(&self) -> DirectiveView {
        self.view()
    }
}

/// Length of a directive's name; a global directive counts as length 0.
pub open spec fn dir_key(d: DirectiveView) -> nat {
    match d.name {
        Some(n) => n.len(),
        None => 0,
    }
}

/// Does the directive apply to `target`? A named directive applies iff its
/// name is a prefix of the target; a global directive always applies.
pub open spec fn dir_matches(d: DirectiveView, target: Seq<char>) -> bool {
    match d.name {
        Some(n) => n.is_prefix_of(target),
        None => true,
    }
}

/// The directive that decides for `target`: scanning the sequence from its
/// end, the first one that matches. With the sequence sorted by ascending
/// name length this is a longest matching prefix.
pub open spec fn selected_directive(dirs: Seq<DirectiveView>, target: Seq<char>) -> Option<
    DirectiveView,
>
    decreases dirs.len(),
{
    if dirs.len() == 0 {
        None
    } else if dir_matches(dirs.last(), target) {
        Some(dirs.last())
    } else {
        selected_directive(dirs.drop_last(), target)
    }
}

/// Is a record at `level` with the given `target` admitted by `dirs`?
/// The selected directive's threshold decides; with no match the record is
/// not admitted.
pub open spec fn spec_enabled(dirs: Seq<DirectiveView>, level: Level, target: Seq<char>) -> bool {
    match selected_directive(dirs, target) {
        Some(d) => spec_level_enabled(level, d.level),
        None => false,
    }
}

/// Are the directives sorted by ascending name length?
pub open spec fn sorted_by_len(dirs: Seq<DirectiveView>) -> bool {
    forall|i: int, j: int| 0 <= i <= j < dirs.len() ==> dir_key(dirs[i]) <= dir_key(dirs[j])
}

/// Check whether a record at `level` for `target` is admitted by the
/// directives, scanning from the most specific end.
pub fn enabled(directives: &Vec<Directive>, level: Level, target: &str) -> (r: bool)
    ensures
        r == spec_enabled(directives.deep_view(), level, target@),
{
    let ghost dv = directives.deep_view();
    let mut i = directives.len();
    assert(dv.take(i as int) =~= dv);
    while i > 0
        invariant
            i <= directives.len(),
            dv == directives.deep_view(),
            selected_directive(dv.take(i as int), target@) == selected_directive(dv, target@),
        decreases i,
    {
        i = i - 1;
        let d = &directives[i];
        proof {
            assert(dv.take(i + 1).last() == dv[i as int]);
            assert(dv.take(i + 1).drop_last() =~= dv.take(i as int));
        }
        match &d.name {
            Some(n) => {
                if str_starts_with(target, n.as_str()) {
                    assert(dir_matches(dv[i as int], target@));
                    return level_passes(level, d.level);
                }
                assert(!dir_matches(dv[i as int], target@));
            },
            None => {
                assert(dir_matches(dv[i as int], target@));
                return level_passes(level, d.level);
            },
        }
    }
    assert(dv.take(0) =~= Seq::<DirectiveView>::empty());
    false
}

/// The selected directive, when there is one, is an element of the
/// sequence and matches the target; when there is none, nothing matches.
pub proof fn lemma_selected_matches(dirs: Seq<DirectiveView>, target: Seq<char>)
    ensures
        match selected_directive(dirs, target) {
            Some(d) => dir_matches(d, target) && exists|i: int|
                0 <= i < dirs.len() && dirs[i] == d,
            None => forall|i: int| 0 <= i < dirs.len() ==> !dir_matches(dirs[i], target),
        },
    decreases dirs.len(),
{
    if dirs.len() > 0 {
        if dir_matches(dirs.last(), target) {
            assert(dirs[dirs.len() - 1] == dirs.last());
        } else {
            let t = dirs.drop_last();
            lemma_selected_matches(t, target);
            match selected_directive(t, target) {
                Some(d) => {
                    let i = choose|i: int| 0 <= i < t.len() && t[i] == d;
                    assert(dirs[i] == d);
                },
                None => {
                    assert forall|i: int| 0 <= i < dirs.len() implies !dir_matches(
                        dirs[i],
                        target,
                    ) by {
                        if i < dirs.len() - 1 {
                            assert(t[i] == dirs[i]);
                        }
                    }
                },
            }
        }
    }
}

/// In a sequence sorted by ascending name length, the selected directive
/// has a name at least as long as that of every directive matching the
/// target: the longest matching prefix wins.
pub proof fn lemma_selected_is_longest(dirs: Seq<DirectiveView>, target: Seq<char>)
    requires
        sorted_by_len(dirs),
    ensures
        match selected_directive(dirs, target) {
            Some(d) => forall|i: int|
                0 <= i < dirs.len() && dir_matches(#[trigger] dirs[i], target) ==> dir_key(dirs[i])
                    <= dir_key(d),
            None => true,
        },
    decreases dirs.len(),
{
    if dirs.len() > 0 && !dir_matches(dirs.last(), target) {
        let t = dirs.drop_last();
        assert(forall|i: int, j: int|
            0 <= i <= j < t.len() ==> dir_key(#[trigger] t[i]) <= dir_key(#[trigger] t[j]));
        lemma_selected_is_longest(t, target);
        match selected_directive(t, target) {
            Some(d) => {
                assert forall|i: int|
                    0 <= i < dirs.len() && dir_matches(#[trigger] dirs[i], target) implies dir_key(
                    dirs[i],
                ) <= dir_key(d) by {
                    assert(i < dirs.len() - 1);
                    assert(t[i] == dirs[i]);
                }
            },
            None => {},
        }
    }
}

/// A target that no directive matches — in particular, with no global
/// directive present — is not enabled at any level: the filter fails
/// closed.
pub proof fn lemma_no_match_not_enabled(dirs: Seq<DirectiveView>, level: Level, target: Seq<char>)
    requires
        forall|i: int| 0 <= i < dirs.len() ==> !dir_matches(#[trigger] dirs[i], target),
    ensures
        !spec_enabled(dirs, level, target),
{
    lemma_selected_matches(dirs, target);
    if selected_directive(dirs, target) is Some {
        let d = selected_directive(dirs, target).unwrap();
        let i = choose|i: int| 0 <= i < dirs.len() && dirs[i] == d;
        assert(!dir_matches(dirs[i], target));
    }
}

/// A directive with threshold `Off`, once it is the one selected for a
/// target, disables every level for that target — even `Error`.
pub proof fn lemma_off_disables(dirs: Seq<DirectiveView>, level: Level, target: Seq<char>)
    requires
        selected_directive(dirs, target) matches Some(d) && d.level == LevelFilter::Off,
    ensures
        !spec_enabled(dirs, level, target),
{
    assert(level.as_nat() >= 1);
}

/// When a directive matches the target and nothing after it does, it is
/// the one the reverse scan selects.
pub proof fn lemma_selected_at(dirs: Seq<DirectiveView>, target: Seq<char>, k: int)
    requires
        0 <= k < dirs.len(),
        dir_matches(dirs[k], target),
        forall|j: int| k < j < dirs.len() ==> !dir_matches(#[trigger] dirs[j], target),
    ensures
        selected_directive(dirs, target) == Some(dirs[k]),
    decreases dirs.len(),
{
    if k == dirs.len() - 1 {
        assert(dirs.last() == dirs[k]);
    } else {
        assert(!dir_matches(dirs.last(), target));
        let t = dirs.drop_last();
        assert(t[k] == dirs[k]);
        assert(forall|j: int| k < j < t.len() ==> !dir_matches(#[trigger] t[j], target));
        lemma_selected_at(t, target, k);
    }
}

/// A directive with threshold `Off` on a prefix disables every level for
/// every target under that prefix — even `Error` — whenever it is the most
/// specific rule that applies: in a sorted directive sequence, if the
/// `Off` directive matches the target and every other matching directive
/// has a strictly shorter name, nothing is enabled.
pub proof fn lemma_off_prefix_disables(
    dirs: Seq<DirectiveView>,
    level: Level,
    target: Seq<char>,
    k: int,
)
    requires
        sorted_by_len(dirs),
        0 <= k < dirs.len(),
        dirs[k].level == LevelFilter::Off,
        dir_matches(dirs[k], target),
        forall|j: int|
            0 <= j < dirs.len() && j != k && dir_matches(#[trigger] dirs[j], target) ==> dir_key(
                dirs[j],
            ) < dir_key(dirs[k]),
    ensures
        !spec_enabled(dirs, level, target),
{
    // every matcher other than dirs[k] has a shorter name, so it stands
    // before dirs[k] in the sorted order; nothing after k matches
    assert forall|j: int| k < j < dirs.len() implies !dir_matches(#[trigger] dirs[j], target) by {
        if dir_matches(dirs[j], target) {
            assert(dir_key(dirs[j]) < dir_key(dirs[k]));
            assert(dir_key(dirs[k]) <= dir_key(dirs[j]));
        }
    }
    lemma_selected_at(dirs, target, k);
    lemma_off_disables(dirs, level, target);
}

/// Insert `d` into a sequence sorted by ascending name length, after every
/// element whose name is not longer: the stable insertion step.
pub open spec fn insert_by_len(d: DirectiveView, s: Seq<DirectiveView>) -> Seq<DirectiveView>
    decreases s.len(),
{
    if s.len() == 0 {
        seq![d]
    } else if dir_key(s.last()) <= dir_key(d) {
        s.push(d)
    } else {
        insert_by_len(d, s.drop_last()).push(s.last())
    }
}

/// Stable sort by ascending name length: each directive is inserted, in
/// the order it was declared, after those already placed whose names are
/// not longer. Directives of equal name length keep their declaration
/// order.
pub open spec fn sort_by_len(s: Seq<DirectiveView>) -> Seq<DirectiveView>
    decreases s.len(),
{
    if s.len() == 0 {
        Seq::empty()
    } else {
        insert_by_len(s.last(), sort_by_len(s.drop_last()))
    }
}

/// Inserting into a sorted sequence keeps it sorted and adds exactly the
/// inserted directive.
pub proof fn lemma_insert_sorted(d: DirectiveView, s: Seq<DirectiveView>)
    requires
        sorted_by_len(s),
    ensures
        sorted_by_len(insert_by_len(d, s)),
        insert_by_len(d, s).len() == s.len() + 1,
        insert_by_len(d, s).to_multiset() == s.push(d).to_multiset(),
    decreases s.len(),
{
    if s.len() == 0 {
        assert(s.push(d) =~= seq![d]);
    } else if dir_key(s.last()) <= dir_key(d) {
        assert forall|i: int, j: int|
            0 <= i <= j < s.push(d).len() implies dir_key(#[trigger] s.push(d)[i]) <= dir_key(
            #[trigger] s.push(d)[j],
        ) by {
            if j < s.len() {
            } else if i < s.len() {
                assert(dir_key(s[i]) <= dir_key(s.last()));
            }
        }
    } else {
        let t = s.drop_last();
        assert(forall|i: int, j: int|
            0 <= i <= j < t.len() ==> dir_key(#[trigger] t[i]) <= dir_key(#[trigger] t[j]));
        lemma_insert_sorted(d, t);
        let r = insert_by_len(d, t);
        let out = r.push(s.last());
        // every element of r is either d or an element of t, so its key is
        // at most dir_key(s.last())
        assert forall|i: int| 0 <= i < r.len() implies dir_key(#[trigger] r[i]) <= dir_key(
            s.last(),
        ) by {
            lemma_insert_elements(d, t, i);
        }
        assert forall|i: int, j: int|
            0 <= i <= j < out.len() implies dir_key(#[trigger] out[i]) <= dir_key(
            #[trigger] out[j],
        ) by {
            if j < r.len() {
                assert(sorted_by_len(r));
            }
        }
        broadcast use vstd::seq_lib::group_to_multiset_ensures;

        // out = r.push(s.last()), r holds the elements of t.push(d), and
        // s.push(d) holds those of t plus s.last() and d
        assert(insert_by_len(d, s) == out);
        assert(out.to_multiset() =~= t.to_multiset().insert(d).insert(s.last()));
        assert(s =~= t.push(s.last()));
        assert(s.push(d) =~= t.push(s.last()).push(d));
        assert(s.push(d).to_multiset() =~= t.to_multiset().insert(s.last()).insert(d));
        assert(t.to_multiset().insert(d).insert(s.last()) =~= t.to_multiset().insert(
            s.last(),
        ).insert(d));
        assert(insert_by_len(d, s).to_multiset() == s.push(d).to_multiset());
    }
}

/// Every element of `insert_by_len(d, s)` is `d` or an element of `s`.
proof fn lemma_insert_elements(d: DirectiveView, s: Seq<DirectiveView>, i: int)
    requires
        0 <= i < insert_by_len(d, s).len(),
    ensures
        insert_by_len(d, s)[i] == d || exists|j: int|
            0 <= j < s.len() && s[j] == insert_by_len(d, s)[i],
    decreases s.len(),
{
    let r = insert_by_len(d, s);
    if s.len() == 0 {
    } else if dir_key(s.last()) <= dir_key(d) {
        if i < s.len() {
            assert(s[i] == r[i]);
        }
    } else {
        let t = s.drop_last();
        if i < insert_by_len(d, t).len() {
            lemma_insert_elements(d, t, i);
            if insert_by_len(d, t)[i] != d {
                let j = choose|j: int| 0 <= j < t.len() && t[j] == insert_by_len(d, t)[i];
                assert(s[j] == r[i]);
            }
        } else {
            assert(r[i] == s.last());
            assert(s[s.len() - 1] == s.last());
        }
    }
}

/// The stable sort sorts: its result is ordered by ascending name length
/// and holds the same directives.
pub proof fn lemma_sort_sorted(s: Seq<DirectiveView>)
    ensures
        sorted_by_len(sort_by_len(s)),
        sort_by_len(s).len() == s.len(),
        sort_by_len(s).to_multiset() == s.to_multiset(),
    decreases s.len(),
{
    if s.len() == 0 {
        assert(s =~= Seq::<DirectiveView>::empty());
    } else {
        let t = s.drop_last();
        lemma_sort_sorted(t);
        lemma_insert_sorted(s.last(), sort_by_len(t));
        broadcast use vstd::seq_lib::group_to_multiset_ensures;

        assert(sort_by_len(s) == insert_by_len(s.last(), sort_by_len(t)));
        assert(sort_by_len(s).to_multiset() =~= sort_by_len(t).to_multiset().insert(s.last()));
        assert(t.push(s.last()) =~= s);
        assert(s.to_multiset() =~= t.to_multiset().insert(s.last()));
        assert(sort_by_len(s).to_multiset() == s.to_multiset());
    }
}

/// Where an insertion lands: with `s` sorted and `p` the first index whose
/// key exceeds `dir_key(d)`, the insertion places `d` exactly there.
pub proof fn lemma_insert_at_pos(d: DirectiveView, s: Seq<DirectiveView>, p: int)
    requires
        sorted_by_len(s),
        0 <= p <= s.len(),
        forall|i: int| 0 <= i < p ==> dir_key(#[trigger] s[i]) <= dir_key(d),
        forall|i: int| p <= i < s.len() ==> dir_key(#[trigger] s[i]) > dir_key(d),
    ensures
        insert_by_len(d, s) == s.take(p) + seq![d] + s.skip(p),
    decreases s.len(),
{
    if s.len() == 0 {
        assert(seq![d] =~= s.take(0) + seq![d] + s.skip(0));
    } else if dir_key(s.last()) <= dir_key(d) {
        assert(p == s.len());
        assert(s.push(d) =~= s.take(p) + seq![d] + s.skip(p));
    } else {
        let t = s.drop_last();
        assert(p <= t.len());
        assert(forall|i: int, j: int|
            0 <= i <= j < t.len() ==> dir_key(#[trigger] t[i]) <= dir_key(#[trigger] t[j]));
        lemma_insert_at_pos(d, t, p);
        assert((t.take(p) + seq![d] + t.skip(p)).push(s.last()) =~= s.take(p) + seq![d] + s.skip(
            p,
        ));
    }
}

/// For a pair of directives where one's name is a proper prefix of the
/// other's, and a target equal to the longer name, the longer directive's
/// threshold is the one applied — regardless of the order in which the two
/// were declared.
pub proof fn lemma_longest_prefix_wins(a: DirectiveView, b: DirectiveView, level: Level)
    requires
        a.name is Some,
        b.name is Some,
        a.name.unwrap().is_prefix_of(b.name.unwrap()),
        a.name.unwrap().len() < b.name.unwrap().len(),
    ensures
        spec_enabled(sort_by_len(seq![a, b]), level, b.name.unwrap()) == spec_level_enabled(
            level,
            b.level,
        ),
        spec_enabled(sort_by_len(seq![b, a]), level, b.name.unwrap()) == spec_level_enabled(
            level,
            b.level,
        ),
{
    let target = b.name.unwrap();
    assert(target.is_prefix_of(target)) by {
        assert(target.subrange(0, target.len() as int) =~= target);
    }
    assert(dir_matches(b, target));
    // sorting either declaration order yields [a, b]
    lemma_sort_two(a, b);
    lemma_sort_two(b, a);
    assert(sort_by_len(seq![a, b]) == seq![a, b]);
    assert(sort_by_len(seq![b, a]) == seq![a, b]);
    // in [a, b] the reverse scan selects b for this target
    assert(seq![a, b].last() == b);
    assert(selected_directive(seq![a, b], target) == Some(b));
}

/// Sorting a two-directive sequence: the one with the shorter name comes
/// first; with equal lengths the declaration order is kept.
pub proof fn lemma_sort_two(x: DirectiveView, y: DirectiveView)
    ensures
        sort_by_len(seq![x, y]) == if dir_key(y) < dir_key(x) {
            seq![y, x]
        } else {
            seq![x, y]
        },
{
    let e = Seq::<DirectiveView>::empty();
    assert(sort_by_len(e) == e);
    assert(seq![x].last() == x);
    assert(seq![x].drop_last() =~= e);
    assert(seq![x].drop_last() == e);
    assert(insert_by_len(x, e) == seq![x]);
    assert(sort_by_len(seq![x]) == seq![x]);
    assert(seq![x, y].last() == y);
    assert(seq![x, y].drop_last() =~= seq![x]);
    assert(seq![x, y].drop_last() == seq![x]);
    assert(sort_by_len(seq![x, y]) == insert_by_len(y, seq![x]));
    if dir_key(x) <= dir_key(y) {
        assert(insert_by_len(y, seq![x]) == seq![x].push(y));
        assert(seq![x].push(y) =~= seq![x, y]);
    } else {
        assert(insert_by_len(y, seq![x]) == insert_by_len(y, e).push(x));
        assert(insert_by_len(y, e) == seq![y]);
        assert(seq![y].push(x) =~= seq![y, x]);
    }
}

} // verus!
