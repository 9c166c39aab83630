//! The operator announcements an agent is shown once, as a web player reads
//! them on the login screen: the newest few, each as its date and title
//! with the start of its body. The caller fetches them and picks each one's
//! translation.

use vstd::prelude::*;
use vstd::string::StringExecFns;

use crate::text::{chars_of, string_of, trim, trim_bounds};

verus! {

broadcast use vstd::string::group_string_axioms;

/// How many announcements are shown.
pub const MAX_NOTICES: usize = 3;

/// How many chars of a body are shown.
pub const BODY_CHARS: usize = 200;

/// One announcement as the event the agent reads: `[Notice] [date] title`,
/// then ` — ` and the start of the trimmed body when there is one, with `…`
/// when the body was cut.
pub open spec fn notice_spec(date: Seq<char>, title: Seq<char>, body: Seq<char>) -> Seq<char> {
    let head = "[Notice] ["@ + date + "] "@ + title;
    let b = trim(body);
    if b.len() == 0 {
        head
    } else if b.len() > BODY_CHARS {
        head + " — "@ + b.take(BODY_CHARS as int) + "…"@
    } else {
        head + " — "@ + b
    }
}

/// One announcement as the event the agent reads.
pub fn notice_line(date: &str, title: &str, body: &str) -> (r: String)
    ensures
        r@ == notice_spec(date@, title@, body@),
{
    let mut r = String::from_str("[Notice] [");
    r.append(date);
    r.append("] ");
    r.append(title);
    let v = chars_of(body);
    let (a, b) = trim_bounds(&v, 0, v.len());
    assert(v@.subrange(0, v@.len() as int) == body@);
    if a < b {
        r.append(" — ");
        if b - a > BODY_CHARS {
            let cut = string_of(&v, a, a + BODY_CHARS);
            assert(v@.subrange(a as int, (a + BODY_CHARS) as int) == v@.subrange(a as int, b as int).take(
                BODY_CHARS as int,
            ));
            r.append(cut.as_str());
            r.append("…");
        } else {
            let all = string_of(&v, a, b);
            r.append(all.as_str());
        }
    }
    r
}

/// The events shown: the first `MAX_NOTICES` announcements, newest first as
/// served, less those that had no title in any language (none).
pub open spec fn notices_spec(entries: Seq<Option<(String, String, String)>>) -> Seq<Seq<char>> {
    if entries.len() == 0 {
        Seq::empty()
    } else {
        let shown = entries.take(if entries.len() > MAX_NOTICES {
            MAX_NOTICES as int
        } else {
            entries.len() as int
        });
        shown_lines(shown)
    }
}

/// The lines of the announcements that have a title, in order.
pub open spec fn shown_lines(entries: Seq<Option<(String, String, String)>>) -> Seq<Seq<char>>
    decreases entries.len(),
{
    if entries.len() == 0 {
        Seq::empty()
    } else {
        let prev = shown_lines(entries.drop_last());
        match entries.last() {
            Some((d, t, b)) => prev.push(notice_spec(d@, t@, b@)),
            None => prev,
        }
    }
}

/// The events shown for the served announcements (date, title and body of
/// each, none for one with no title).
pub fn notice_lines(entries: &Vec<Option<(String, String, String)>>) -> (r: Vec<String>)
    ensures
        r@.map_values(|s: String| s@) == notices_spec(entries@),
{
    let n: usize = if entries.len() > MAX_NOTICES {
        MAX_NOTICES
    } else {
        entries.len()
    };
    let ghost shown = entries@.take(n as int);
    let mut out: Vec<String> = Vec::new();
    let mut k: usize = 0;
    while k < n
        invariant
            k <= n <= entries.len(),
            shown == entries@.take(n as int),
            out@.map_values(|s: String| s@) == shown_lines(shown.take(k as int)),
        decreases n - k,
    {
        let ghost before = out@;
        assert(shown.take(k + 1).drop_last() == shown.take(k as int));
        assert(shown.take(k + 1).last() == entries@[k as int]);
        match &entries[k] {
            Some((d, t, b)) => {
                let line = notice_line(d.as_str(), t.as_str(), b.as_str());
                out.push(line);
                assert(out@.map_values(|s: String| s@) == before.map_values(|s: String| s@).push(
                    notice_spec(d@, t@, b@),
                ));
            },
            None => {},
        }
        k = k + 1;
    }
    assert(shown.take(n as int) == shown);
    if entries.len() == 0 {
        assert(shown_lines(shown) == Seq::<Seq<char>>::empty());
    }
    out
}

} // verus!
