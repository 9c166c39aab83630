//! The tail of an agent's memory file that goes into each prompt: the
//! lines with something on them, the newest of them only; and the entry a
//! reply's memory update appends to the file. The caller reads and appends
//! to the file, which is tiny and re-read for every prompt so that notes
//! written this session reach the model without a restart.

use vstd::prelude::*;
use vstd::string::StringExecFns;

use crate::labels::{line_bounds, pieces, within};
use crate::text::{chars_of, joined, lines, push_joined, string_of, trim, trim_bounds};

verus! {

/// How many of the newest memory lines go into a prompt.
pub const MEMORY_LINES: usize = 50;

/// The lines with more than blanks on them, in order.
pub open spec fn noted_lines(ls: Seq<Seq<char>>) -> Seq<Seq<char>>
    decreases ls.len(),
{
    if ls.len() == 0 {
        Seq::empty()
    } else {
        let prev = noted_lines(ls.drop_last());
        if trim(ls.last()).len() > 0 {
            prev.push(ls.last())
        } else {
            prev
        }
    }
}

/// The tail of a memory file: its newest `MEMORY_LINES` lines with
/// something on them, one per line; none when no line has anything.
pub open spec fn memory_tail_spec(content: Seq<char>) -> Option<Seq<char>> {
    let kept = noted_lines(lines(content));
    if kept.len() == 0 {
        None
    } else {
        let start: int = if kept.len() > MEMORY_LINES {
            kept.len() - MEMORY_LINES
        } else {
            0
        };
        Some(joined(kept.subrange(start, kept.len() as int), "\n"@))
    }
}

/// The tail of a memory file's contents.
pub fn memory_tail(content: &str) -> (r: Option<String>)
    ensures
        match r {
            Some(t) => memory_tail_spec(content@) == Some(t@),
            None => memory_tail_spec(content@) is None,
        },
{
    let v = chars_of(content);
    let bounds = line_bounds(&v);
    let ghost ls = pieces(v@, bounds@);
    let mut kept: Vec<(usize, usize)> = Vec::new();
    let mut k: usize = 0;
    while k < bounds.len()
        invariant
            k <= bounds.len(),
            within(v@, bounds@),
            ls == pieces(v@, bounds@),
            within(v@, kept@),
            pieces(v@, kept@) == noted_lines(ls.take(k as int)),
        decreases bounds.len() - k,
    {
        let (lo, hi) = bounds[k];
        let ghost prev = kept@;
        assert(bounds@[k as int].0 <= bounds@[k as int].1 <= v@.len());
        let (a, b) = trim_bounds(&v, lo, hi);
        assert(ls.take(k + 1).drop_last() == ls.take(k as int));
        assert(ls.take(k + 1).last() == v@.subrange(lo as int, hi as int));
        if a < b {
            kept.push((lo, hi));
            assert(pieces(v@, kept@) == pieces(v@, prev).push(v@.subrange(lo as int, hi as int)));
        }
        assert(within(v@, kept@)) by {
            assert forall|i: int| 0 <= i < kept@.len() implies #[trigger] kept@[i].0 <= kept@[i].1
                <= v.len() by {
                if i < prev.len() {
                    assert(kept@[i] == prev[i]);
                }
            }
        }
        k = k + 1;
    }
    assert(ls.take(bounds.len() as int) == ls);
    if kept.len() == 0 {
        return None;
    }
    let start: usize = if kept.len() > MEMORY_LINES {
        kept.len() - MEMORY_LINES
    } else {
        0
    };
    let ghost all = pieces(v@, kept@);
    let mut tail: Vec<String> = Vec::new();
    let mut i: usize = start;
    while i < kept.len()
        invariant
            start <= i <= kept.len(),
            within(v@, kept@),
            all == pieces(v@, kept@),
            tail@.map_values(|s: String| s@) == all.subrange(start as int, i as int),
        decreases kept.len() - i,
    {
        let (lo, hi) = kept[i];
        assert(kept@[i as int].0 <= kept@[i as int].1 <= v@.len());
        let s = string_of(&v, lo, hi);
        let ghost before = tail@;
        tail.push(s);
        assert(tail@.map_values(|s: String| s@) == before.map_values(|s: String| s@).push(
            all[i as int],
        ));
        assert(all.subrange(start as int, i + 1) == all.subrange(start as int, i as int).push(
            all[i as int],
        ));
        i = i + 1;
    }
    let mut out = String::new();
    push_joined(&mut out, &tail, "\n");
    proof {
        assert(out@ == Seq::<char>::empty() + joined(all.subrange(start as int, kept@.len() as int), "\n"@));
        assert(Seq::<char>::empty() + joined(all.subrange(start as int, kept@.len() as int), "\n"@)
            == joined(all.subrange(start as int, kept@.len() as int), "\n"@));
    }
    Some(out)
}

/// What a reply's memory update appends to the memory file: the update
/// trimmed, on a line of its own; nothing for an update with nothing on it.
pub open spec fn memory_entry_spec(update: Seq<char>) -> Option<Seq<char>> {
    if trim(update).len() == 0 {
        None
    } else {
        Some("\n"@ + trim(update) + "\n"@)
    }
}

/// What a reply's memory update appends to the memory file.
pub fn memory_entry(update: &str) -> (r: Option<String>)
    ensures
        match r {
            Some(e) => memory_entry_spec(update@) == Some(e@),
            None => memory_entry_spec(update@) is None,
        },
{
    let v = chars_of(update);
    let (a, b) = trim_bounds(&v, 0, v.len());
    assert(v@.subrange(0, v@.len() as int) == update@);
    if a == b {
        return None;
    }
    let body = string_of(&v, a, b);
    let mut e = String::from_str("\n");
    e.append(body.as_str());
    e.append("\n");
    Some(e)
}

} // verus!
