//! The plan that an assistant proposes inside its text, between two markers.

use crate::text::{chars_of, find_sub, find_sub_from, string_of_range};
use vstd::prelude::*;

verus! {

pub const OPEN_MARKER: &'static str = "<proposed_plan>";

pub const CLOSE_MARKER: &'static str = "</proposed_plan>";

/// The text without what stands from an opening marker to the next closing
/// marker, the markers included. A marker that is never closed stays.
pub open spec fn without_plan_blocks(s: Seq<char>) -> Seq<char>
    decreases s.len(),
{
    match find_sub(s, OPEN_MARKER@) {
        None => s,
        Some(i) => {
            let inner = s.skip((i + OPEN_MARKER@.len()) as int);
            match find_sub(inner, CLOSE_MARKER@) {
                None => s,
                Some(j) => {
                    let rest = inner.skip((j + CLOSE_MARKER@.len()) as int);
                    if rest.len() < s.len() {
                        s.take(i as int) + without_plan_blocks(rest)
                    } else {
                        s
                    }
                },
            }
        },
    }
}

/// Removes the proposed-plan blocks from a text that is to be shown.
pub fn strip_proposed_plan_blocks(text: &str) -> (r: String)
    ensures
        r@ == without_plan_blocks(text@),
{
    let v = chars_of(text);
    let open = chars_of(OPEN_MARKER);
    let close = chars_of(CLOSE_MARKER);
    let mut out = String::new();
    let total: usize = v.len();
    let mut from: usize = 0;
    proof {
        reveal_strlit("<proposed_plan>");
    }
    assert(v@.skip(0) =~= text@);
    assert(out@ + without_plan_blocks(text@) =~= without_plan_blocks(text@));
    loop
        invariant
            from <= v@.len(),
            v@ == text@,
            total == v@.len(),
            open@ == OPEN_MARKER@,
            close@ == CLOSE_MARKER@,
            OPEN_MARKER@.len() > 0,
            out@ + without_plan_blocks(v@.skip(from as int)) == without_plan_blocks(text@),
        decreases v@.len() - from,
    {
        let ghost s = v@.skip(from as int);
        let i = match find_sub_from(&v, from, &open) {
            None => {
                let rest = string_of_range(&v, from, total);
                assert(rest@ =~= s);
                out.append(rest.as_str());
                return out;
            },
            Some(i) => i,
        };
        let inner: usize = i + open.len();
        assert(s.skip(i - from + open@.len()) =~= v@.skip(inner as int));
        let j = match find_sub_from(&v, inner, &close) {
            None => {
                let rest = string_of_range(&v, from, total);
                assert(rest@ =~= s);
                out.append(rest.as_str());
                return out;
            },
            Some(j) => j,
        };
        let next: usize = j + close.len();
        assert(v@.skip(inner as int).skip(j - inner + close@.len()) =~= v@.skip(next as int));
        let kept = string_of_range(&v, from, i);
        assert(kept@ =~= s.take(i - from));
        let ghost before = out@;
        out.append(kept.as_str());
        assert(before + (kept@ + without_plan_blocks(v@.skip(next as int))) =~= out@
            + without_plan_blocks(v@.skip(next as int)));
        from = next;
    }
}

/// A text without a plan block stays, and so does one whose block is not closed.
pub proof fn texts_without_a_whole_block_stay(s: Seq<char>)
    ensures
        find_sub(s, "<proposed_plan>"@) is None ==> without_plan_blocks(s) == s,
        find_sub(s, "<proposed_plan>"@) matches Some(i) ==> (find_sub(
            s.skip((i + "<proposed_plan>"@.len()) as int),
            "</proposed_plan>"@,
        ) is None ==> without_plan_blocks(s) == s),
{
}

/// A plan block is taken out with its markers and all between; what stands before it
/// stays, and what follows is treated in the same way.
pub proof fn a_plan_block_is_taken_out(before: Seq<char>, inner: Seq<char>, rest: Seq<char>)
    requires
        find_sub(
            before + "<proposed_plan>"@ + inner + "</proposed_plan>"@ + rest,
            "<proposed_plan>"@,
        ) == Some(before.len()),
        find_sub(inner + "</proposed_plan>"@ + rest, "</proposed_plan>"@) == Some(inner.len()),
    ensures
        without_plan_blocks(before + "<proposed_plan>"@ + inner + "</proposed_plan>"@ + rest)
            == before + without_plan_blocks(rest),
{
    reveal_strlit("<proposed_plan>");
    let s = before + "<proposed_plan>"@ + inner + "</proposed_plan>"@ + rest;
    let tail = inner + "</proposed_plan>"@ + rest;
    assert(s.skip((before.len() + "<proposed_plan>"@.len()) as int) =~= tail);
    assert(tail.skip((inner.len() + "</proposed_plan>"@.len()) as int) =~= rest);
    assert(s.take(before.len() as int) =~= before);
}

} // verus!
