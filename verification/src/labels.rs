//! Sell/drop labels, parsed from the app-managed block at the foot of a
//! character's instance prompt. Rule workers sell and drop only what these
//! labels name, so the marks a player applies in the bag drawer survive
//! rule-based play.

use vstd::prelude::*;

use crate::text::{
    lemma_trim_idempotent, chars_of, contains_in, occurs_at_exec, contains_seq, find_char, has_prefix, lines, split_on, string_of, strip_cr, trim,
    trim_bounds,
};

verus! {

broadcast use vstd::string::group_string_axioms;

/// The marker the desktop app writes above its labels block.
pub const LABELS_MARKER: &'static str = "<!-- BAG LABELS: DO NOT EDIT BELOW (managed by the app) -->";

/// The key of the line naming what may be sold.
pub const SELLABLE_KEY: &'static str = "Sellable:";

/// The key of the line naming what may be dropped.
pub const DROPABLE_KEY: &'static str = "Dropable:";

/// The sellable/dropable lists named in a character's instance prompt.
#[derive(Debug, Clone, PartialEq)]
pub struct BagLabels {
    pub sellable: Vec<String>,
    pub dropable: Vec<String>,
}

/// What a label block says, as sequences of ids.
#[verifier::ext_equal]
pub struct LabelsView {
    pub sellable: Seq<Seq<char>>,
    pub dropable: Seq<Seq<char>>,
}

/// The chars of each string.
pub open spec fn views(v: Seq<String>) -> Seq<Seq<char>> {
    v.map_values(|s: String| s@)
}

impl View for BagLabels {
    type V = LabelsView;

    open spec fn view(&self) -> LabelsView {
        LabelsView { sellable: views(self.sellable@), dropable: views(self.dropable@) }
    }
}

/// No labels: nothing sells, nothing drops.
pub open spec fn no_labels() -> LabelsView {
    LabelsView { sellable: Seq::empty(), dropable: Seq::empty() }
}

impl Default for BagLabels {
    fn default() -> (r: Self)
        ensures
            r@ == no_labels(),
    {
        let r = BagLabels { sellable: Vec::new(), dropable: Vec::new() };
        assert(r@.sellable =~= Seq::<Seq<char>>::empty());
        assert(r@.dropable =~= Seq::<Seq<char>>::empty());
        r
    }
}

/// The trimmed pieces that are not empty, in order.
pub open spec fn nonempty_trimmed(pieces: Seq<Seq<char>>) -> Seq<Seq<char>>
    decreases pieces.len(),
{
    if pieces.len() == 0 {
        Seq::empty()
    } else {
        let t = trim(pieces[0]);
        (if t.len() > 0 {
            seq![t]
        } else {
            Seq::empty()
        }) + nonempty_trimmed(pieces.drop_first())
    }
}

/// The ids of a comma-separated list: each piece trimmed, empty ones dropped.
pub open spec fn ids_of(list: Seq<char>) -> Seq<Seq<char>> {
    nonempty_trimmed(split_on(list, ','))
}

/// What one line below the marker does to the labels read so far: a
/// `Sellable:` line replaces the sellable list, a `Dropable:` line the
/// dropable one, anything else leaves them be.
pub open spec fn apply_label_line(acc: LabelsView, line: Seq<char>) -> LabelsView {
    let t = trim(line);
    if has_prefix(t, SELLABLE_KEY@) {
        LabelsView { sellable: ids_of(t.skip(SELLABLE_KEY@.len() as int)), dropable: acc.dropable }
    } else if has_prefix(t, DROPABLE_KEY@) {
        LabelsView { sellable: acc.sellable, dropable: ids_of(t.skip(DROPABLE_KEY@.len() as int)) }
    } else {
        acc
    }
}

/// The labels after reading `ls` in order.
pub open spec fn apply_label_lines(acc: LabelsView, ls: Seq<Seq<char>>) -> LabelsView
    decreases ls.len(),
{
    if ls.len() == 0 {
        acc
    } else {
        apply_label_lines(apply_label_line(acc, ls[0]), ls.drop_first())
    }
}

/// Whether line `i` is the first that carries the marker.
pub open spec fn is_marker_line(ls: Seq<Seq<char>>, i: int) -> bool {
    &&& 0 <= i < ls.len()
    &&& contains_seq(ls[i], LABELS_MARKER@)
    &&& forall|j: int| 0 <= j < i ==> !contains_seq(ls[j], LABELS_MARKER@)
}

/// The labels a prompt's text carries: the lines below the first line
/// holding the marker, read in order; none at all without a marker.
pub open spec fn labels_in(text: Seq<char>) -> LabelsView {
    let ls = lines(text);
    if exists|i: int| is_marker_line(ls, i) {
        let at = choose|i: int| is_marker_line(ls, i);
        apply_label_lines(no_labels(), ls.subrange(at + 1, ls.len() as int))
    } else {
        no_labels()
    }
}

/// The pieces of `v` that `bounds` marks out.
pub open spec fn pieces(v: Seq<char>, bounds: Seq<(usize, usize)>) -> Seq<Seq<char>> {
    bounds.map_values(|r: (usize, usize)| v.subrange(r.0 as int, r.1 as int))
}

/// Whether every range in `bounds` lies inside `v`.
pub open spec fn within(v: Seq<char>, bounds: Seq<(usize, usize)>) -> bool {
    forall|i: int| 0 <= i < bounds.len() ==> #[trigger] bounds[i].0 <= bounds[i].1 <= v.len()
}

/// Where each line of `v` lies in it, as `str::lines` splits it.
pub fn line_bounds(v: &Vec<char>) -> (out: Vec<(usize, usize)>)
    ensures
        within(v@, out@),
        pieces(v@, out@) == lines(v@),
{
    let n: usize = v.len();
    let mut out: Vec<(usize, usize)> = Vec::new();
    let mut start: usize = 0;
    proof {
        assert(v@.subrange(0, n as int) == v@);
        assert(pieces(v@, out@) + lines(v@) == lines(v@));
    }
    while start < n
        invariant
            n == v.len(),
            start <= n,
            within(v@, out@),
            pieces(v@, out@) + lines(v@.subrange(start as int, n as int)) == lines(v@),
        decreases n - start,
    {
        let ghost s = v@.subrange(start as int, n as int);
        let ghost prev = out@;
        let at = find_char(v, start, n, '\n');
        if at < n {
            let mut end: usize = at;
            if end > start && v[end - 1] == '\r' {
                end = end - 1;
            }
            out.push((start, end));
            proof {
                assert(s.subrange(0, at - start) == v@.subrange(start as int, at as int));
                assert(s.subrange(at - start + 1, s.len() as int) == v@.subrange(at + 1, n as int));
                assert(v@.subrange(start as int, end as int) == strip_cr(
                    v@.subrange(start as int, at as int),
                ));
                assert(lines(s) == seq![v@.subrange(start as int, end as int)] + lines(
                    v@.subrange(at + 1, n as int),
                ));
                assert(pieces(v@, out@) == pieces(v@, prev).push(v@.subrange(start as int, end as int)));
                assert(pieces(v@, out@) + lines(v@.subrange(at + 1, n as int)) == pieces(v@, prev)
                    + lines(s));
                assert(within(v@, out@)) by {
                    assert forall|i: int| 0 <= i < out@.len() implies #[trigger] out@[i].0
                        <= out@[i].1 <= v.len() by {
                        if i < prev.len() {
                            assert(out@[i] == prev[i]);
                        }
                    }
                }
            }
            start = at + 1;
        } else {
            out.push((start, n));
            proof {
                assert(lines(s) == seq![s]);
                assert(lines(v@.subrange(n as int, n as int)) == Seq::<Seq<char>>::empty());
                assert(pieces(v@, out@) == pieces(v@, prev).push(s));
                assert(pieces(v@, out@) + lines(v@.subrange(n as int, n as int)) == pieces(v@, prev)
                    + lines(s));
                assert(within(v@, out@)) by {
                    assert forall|i: int| 0 <= i < out@.len() implies #[trigger] out@[i].0
                        <= out@[i].1 <= v.len() by {
                        if i < prev.len() {
                            assert(out@[i] == prev[i]);
                        }
                    }
                }
            }
            start = n;
        }
    }
    proof {
        assert(lines(v@.subrange(n as int, n as int)) == Seq::<Seq<char>>::empty());
        assert(pieces(v@, out@) + Seq::<Seq<char>>::empty() == pieces(v@, out@));
    }
    out
}

/// The ids of the comma-separated list `v[lo..hi]`.
pub fn split_ids_in(v: &Vec<char>, lo: usize, hi: usize) -> (out: Vec<String>)
    requires
        lo <= hi <= v.len(),
    ensures
        views(out@) == ids_of(v@.subrange(lo as int, hi as int)),
{
    let mut out: Vec<String> = Vec::new();
    let mut start = lo;
    loop
        invariant
            lo <= start <= hi <= v.len(),
            views(out@) + nonempty_trimmed(split_on(v@.subrange(start as int, hi as int), ','))
                == ids_of(v@.subrange(lo as int, hi as int)),
        decreases hi - start,
    {
        let ghost s = v@.subrange(start as int, hi as int);
        let ghost before = views(out@);
        let at = find_char(v, start, hi, ',');
        let (a, b) = trim_bounds(v, start, at);
        proof {
            assert(s.subrange(0, at - start) == v@.subrange(start as int, at as int));
        }
        if a < b {
            let id = string_of(v, a, b);
            out.push(id);
            proof {
                assert(views(out@) == before.push(id@));
            }
        }
        if at == hi {
            proof {
                assert(split_on(s, ',') == seq![s]);
                assert(seq![s].drop_first() == Seq::<Seq<char>>::empty());
                assert(nonempty_trimmed(Seq::<Seq<char>>::empty()) == Seq::<Seq<char>>::empty());
                assert(nonempty_trimmed(seq![s]) == (if trim(s).len() > 0 {
                    seq![trim(s)]
                } else {
                    Seq::empty()
                }) + nonempty_trimmed(Seq::<Seq<char>>::empty()));
                assert(views(out@) + Seq::<Seq<char>>::empty() == views(out@));
            }
            return out;
        }
        proof {
            let rest = v@.subrange(at + 1, hi as int);
            assert(s.subrange(at - start + 1, s.len() as int) == rest);
            assert(split_on(s, ',') == seq![v@.subrange(start as int, at as int)] + split_on(rest, ','));
            assert((seq![v@.subrange(start as int, at as int)] + split_on(rest, ',')).drop_first()
                == split_on(rest, ','));
            let piece = trim(v@.subrange(start as int, at as int));
            let head: Seq<Seq<char>> = if piece.len() > 0 {
                seq![piece]
            } else {
                Seq::empty()
            };
            assert(nonempty_trimmed(split_on(s, ',')) == head + nonempty_trimmed(
                split_on(rest, ','),
            ));
            assert(views(out@) == before + head);
            assert(views(out@) + nonempty_trimmed(split_on(rest, ',')) == before + nonempty_trimmed(
                split_on(s, ','),
            ));
        }
        start = at + 1;
    }
}

/// `split_ids` over a string slice: the ids of a comma-separated list.
pub fn split_ids(list: &str) -> (out: Vec<String>)
    ensures
        views(out@) == ids_of(list@),
{
    let v = chars_of(list);
    proof {
        assert(v@.subrange(0, v@.len() as int) == v@);
    }
    split_ids_in(&v, 0, v.len())
}

/// Whether the chars `v[lo..hi]` start with `p`.
fn starts_with_in(v: &Vec<char>, lo: usize, hi: usize, p: &Vec<char>) -> (r: bool)
    requires
        lo <= hi <= v.len(),
    ensures
        r == has_prefix(v@.subrange(lo as int, hi as int), p@),
{
    if p.len() > hi - lo {
        return false;
    }
    let r = occurs_at_exec(v, lo, p);
    assert(v@.subrange(lo as int, hi as int).subrange(0, p@.len() as int) == v@.subrange(
        lo as int,
        lo + p@.len(),
    ));
    r
}

proof fn lemma_marker_line_found(ls: Seq<Seq<char>>, k: int)
    requires
        is_marker_line(ls, k),
    ensures
        (choose|i: int| is_marker_line(ls, i)) == k,
{
    let j = choose|i: int| is_marker_line(ls, i);
    assert(is_marker_line(ls, j));
    if j < k {
        assert(!contains_seq(ls[j], LABELS_MARKER@));
    } else if k < j {
        assert(!contains_seq(ls[k], LABELS_MARKER@));
    }
}

/// Parse the `Sellable:`/`Dropable:` lines below the app's marker. Prose
/// above the marker is the player's own and never mistaken for a label.
pub fn parse_labels(text: &str) -> (labels: BagLabels)
    ensures
        labels@ == labels_in(text@),
{
    let v = chars_of(text);
    let bounds = line_bounds(&v);
    let ghost ls = lines(v@);
    let marker = chars_of(LABELS_MARKER);
    let sell_key = chars_of(SELLABLE_KEY);
    let drop_key = chars_of(DROPABLE_KEY);
    let n: usize = bounds.len();
    let mut k: usize = 0;
    while k < n && !contains_in(&v, bounds[k].0, bounds[k].1, &marker)
        invariant
            k <= n == bounds@.len() == ls.len(),
            ls == lines(v@),
            within(v@, bounds@),
            pieces(v@, bounds@) == ls,
            marker@ == LABELS_MARKER@,
            forall|j: int| 0 <= j < k ==> !contains_seq(ls[j], LABELS_MARKER@),
        decreases n - k,
    {
        assert(pieces(v@, bounds@)[k as int] == ls[k as int]);
        k += 1;
    }
    if k == n {
        proof {
            if exists|i: int| is_marker_line(ls, i) {
                let i = choose|i: int| is_marker_line(ls, i);
                assert(!contains_seq(ls[i], LABELS_MARKER@));
            }
        }
        return BagLabels::default();
    }
    proof {
        assert(pieces(v@, bounds@)[k as int] == ls[k as int]);
        assert(is_marker_line(ls, k as int));
        lemma_marker_line_found(ls, k as int);
    }
    let mut labels = BagLabels::default();
    let mut j = k + 1;
    proof {
        assert(apply_label_lines(labels@, ls.subrange(j as int, n as int)) == apply_label_lines(
            no_labels(),
            ls.subrange(k + 1, ls.len() as int),
        ));
    }
    while j < n
        invariant
            k < j <= n == bounds@.len() == ls.len(),
            ls == lines(v@),
            within(v@, bounds@),
            pieces(v@, bounds@) == ls,
            sell_key@ == SELLABLE_KEY@,
            drop_key@ == DROPABLE_KEY@,
            apply_label_lines(labels@, ls.subrange(j as int, n as int)) == apply_label_lines(
                no_labels(),
                ls.subrange(k + 1, n as int),
            ),
        decreases n - j,
    {
        let (lo, hi) = bounds[j];
        assert(bounds@[j as int].0 <= bounds@[j as int].1 <= v@.len());
        let ghost line = ls[j as int];
        assert(pieces(v@, bounds@)[j as int] == line);
        let ghost before = labels@;
        let (a, b) = trim_bounds(&v, lo, hi);
        let ghost t = trim(line);
        if starts_with_in(&v, a, b, &sell_key) {
            labels.sellable = split_ids_in(&v, a + sell_key.len(), b);
            assert(t.skip(SELLABLE_KEY@.len() as int) == v@.subrange(a + sell_key@.len(), b as int));
        } else if starts_with_in(&v, a, b, &drop_key) {
            labels.dropable = split_ids_in(&v, a + drop_key.len(), b);
            assert(t.skip(DROPABLE_KEY@.len() as int) == v@.subrange(a + drop_key@.len(), b as int));
        }
        proof {
            assert(labels@ == apply_label_line(before, line));
            assert(ls.subrange(j as int, n as int).drop_first() == ls.subrange(j + 1, n as int));
            assert(ls.subrange(j as int, n as int)[0] == line);
        }
        j += 1;
    }
    proof {
        assert(ls.subrange(n as int, n as int) == Seq::<Seq<char>>::empty());
    }
    labels
}

/// An id as a label names it: not empty, nothing to trim.
pub open spec fn clean_id(id: Seq<char>) -> bool {
    id.len() > 0 && trim(id) == id
}

/// Every id of the list is clean.
pub open spec fn clean_ids(ids: Seq<Seq<char>>) -> bool {
    forall|i: int| 0 <= i < ids.len() ==> clean_id(#[trigger] ids[i])
}

proof fn lemma_nonempty_trimmed_clean(pieces: Seq<Seq<char>>)
    ensures
        clean_ids(nonempty_trimmed(pieces)),
    decreases pieces.len(),
{
    if pieces.len() > 0 {
        lemma_nonempty_trimmed_clean(pieces.drop_first());
        let t = trim(pieces[0]);
        lemma_trim_idempotent(pieces[0]);
        let head: Seq<Seq<char>> = if t.len() > 0 {
            seq![t]
        } else {
            Seq::empty()
        };
        let rest = nonempty_trimmed(pieces.drop_first());
        assert forall|i: int| 0 <= i < (head + rest).len() implies clean_id(#[trigger] (head
            + rest)[i]) by {
            if i < head.len() {
                assert((head + rest)[i] == t);
            } else {
                assert((head + rest)[i] == rest[i - head.len()]);
            }
        }
    }
}

proof fn lemma_label_lines_clean(acc: LabelsView, ls: Seq<Seq<char>>)
    requires
        clean_ids(acc.sellable),
        clean_ids(acc.dropable),
    ensures
        clean_ids(apply_label_lines(acc, ls).sellable),
        clean_ids(apply_label_lines(acc, ls).dropable),
    decreases ls.len(),
{
    if ls.len() > 0 {
        let t = trim(ls[0]);
        lemma_nonempty_trimmed_clean(split_on(t.skip(SELLABLE_KEY@.len() as int), ','));
        lemma_nonempty_trimmed_clean(split_on(t.skip(DROPABLE_KEY@.len() as int), ','));
        lemma_label_lines_clean(apply_label_line(acc, ls[0]), ls.drop_first());
    }
}

/// Whatever a prompt holds, every id its labels name is a whole id: never
/// empty, and with no surrounding whitespace left on it.
pub proof fn law_labels_name_clean_ids(text: Seq<char>)
    ensures
        clean_ids(labels_in(text).sellable),
        clean_ids(labels_in(text).dropable),
{
    let ls = lines(text);
    if exists|i: int| is_marker_line(ls, i) {
        let at = choose|i: int| is_marker_line(ls, i);
        lemma_label_lines_clean(no_labels(), ls.subrange(at + 1, ls.len() as int));
    }
}

/// A prompt with no line holding the app's marker carries no labels:
/// nothing sells, nothing drops — prose is never mistaken for a label.
pub proof fn law_no_block_no_labels(text: Seq<char>)
    requires
        forall|i: int| 0 <= i < lines(text).len() ==> !contains_seq(#[trigger] lines(text)[i], LABELS_MARKER@),
    ensures
        labels_in(text) == no_labels(),
{
    let ls = lines(text);
    if exists|i: int| is_marker_line(ls, i) {
        let at = choose|i: int| is_marker_line(ls, i);
        assert(!contains_seq(ls[at], LABELS_MARKER@));
    }
}

/// The ids of a list are clean, whatever the list.
pub proof fn law_split_ids_are_clean(list: Seq<char>)
    ensures
        clean_ids(ids_of(list)),
{
    lemma_nonempty_trimmed_clean(split_on(list, ','));
}

} // verus!
