//! Short queues of task indices: an array of which a prefix is in use.

use vstd::prelude::*;

use crate::kernel::types::MAX_TASKS;
use crate::seqs::{lemma_filter_take, other_than, swap_out, swap_out_from, swap_remove};

verus! {

/// What a queue holds: the first `len` entries of its array.
pub open spec fn queue(items: [usize; MAX_TASKS], len: usize) -> Seq<usize> {
    items@.take(len as int)
}

/// Whether the queue holds `x`.
pub fn queue_contains(items: &[usize; MAX_TASKS], len: usize, x: usize) -> (r: bool)
    requires
        len <= MAX_TASKS,
    ensures
        r == queue(*items, len).contains(x),
{
    let mut pos: usize = 0;
    while pos < len
        invariant
            pos <= len <= MAX_TASKS,
            forall|j: int| 0 <= j < pos ==> items@[j] != x,
        decreases len - pos,
    {
        if items[pos] == x {
            assert(queue(*items, len)[pos as int] == x);
            return true;
        }
        pos += 1;
    }
    false
}

/// Appends `x`.
pub fn queue_push(items: &mut [usize; MAX_TASKS], len: &mut usize, x: usize)
    requires
        *old(len) < MAX_TASKS,
    ensures
        *final(len) == *old(len) + 1,
        queue(*final(items), *final(len)) == queue(*old(items), *old(len)).push(x),
{
    let n: usize = *len;
    items[n] = x;
    *len = n + 1;
    assert(queue(*items, *len) =~= queue(*old(items), *old(len)).push(x));
}

/// Takes out the entry at `pos`; the last one takes its place.
pub fn queue_swap_remove(items: &mut [usize; MAX_TASKS], len: &mut usize, pos: usize) -> (x: usize)
    requires
        pos < *old(len) <= MAX_TASKS,
    ensures
        *final(len) == *old(len) - 1,
        x == old(items)@[pos as int],
        queue(*final(items), *final(len)) == swap_remove(
            queue(*old(items), *old(len)),
            pos as int,
        ),
{
    let last: usize = *len - 1;
    let x: usize = items[pos];
    let y: usize = items[last];
    items[pos] = y;
    *len = last;
    assert(queue(*items, *len) =~= swap_remove(queue(*old(items), *old(len)), pos as int));
    x
}

/// Takes out every `x`; each time the last entry takes its place.
pub fn queue_swap_out(items: &mut [usize; MAX_TASKS], len: &mut usize, x: usize)
    requires
        *old(len) <= MAX_TASKS,
    ensures
        *final(len) <= *old(len),
        queue(*final(items), *final(len)) == swap_out(queue(*old(items), *old(len)), x),
{
    let mut pos: usize = 0;
    while pos < *len
        invariant
            pos <= *len <= *old(len) <= MAX_TASKS,
            swap_out_from(queue(*items, *len), x, pos as int) == swap_out(
                queue(*old(items), *old(len)),
                x,
            ),
        decreases *len - pos,
    {
        assert(queue(*items, *len)[pos as int] == items@[pos as int]);
        if items[pos] == x {
            queue_swap_remove(items, len, pos);
        } else {
            pos += 1;
        }
    }
}

/// Takes out every `x` and keeps the order of the others; tells whether there was one.
pub fn queue_remove(items: &mut [usize; MAX_TASKS], len: &mut usize, x: usize) -> (removed: bool)
    requires
        *old(len) <= MAX_TASKS,
    ensures
        *final(len) <= *old(len),
        queue(*final(items), *final(len)) == queue(*old(items), *old(len)).filter(
            other_than(x),
        ),
        removed == queue(*old(items), *old(len)).contains(x),
{
    let n: usize = *len;
    let ghost s = queue(*old(items), *old(len));
    let ghost p = other_than(x);
    let mut write_pos: usize = 0;
    let mut read_pos: usize = 0;
    let mut removed: bool = false;
    assert(s.take(0) =~= Seq::empty());
    proof {
        reveal(Seq::filter);
    }
    while read_pos < n
        invariant
            write_pos <= read_pos <= n <= MAX_TASKS,
            n == *len == *old(len),
            s == queue(*old(items), *old(len)),
            p == other_than(x),
            queue(*items, write_pos) == s.take(read_pos as int).filter(p),
            forall|j: int| read_pos <= j < n ==> #[trigger] items@[j] == s[j],
            removed == s.take(read_pos as int).contains(x),
        decreases n - read_pos,
    {
        let v: usize = items[read_pos];
        assert(v == s[read_pos as int]);
        proof {
            lemma_filter_take(s, p, read_pos as int);
        }
        let ghost before = s.take(read_pos as int);
        let ghost after = s.take(read_pos + 1);
        assert(after =~= before.push(v));
        if v == x {
            removed = true;
            assert(after[read_pos as int] == x);
        } else {
            let ghost was = *items;
            items[write_pos] = v;
            write_pos += 1;
            assert(queue(*items, write_pos) =~= queue(was, (write_pos - 1) as usize).push(v));
            assert(after.contains(x) == before.contains(x)) by {
                if after.contains(x) {
                    let k = choose|k: int| 0 <= k < after.len() && after[k] == x;
                    assert(before[k] == x);
                }
                if before.contains(x) {
                    let k = choose|k: int| 0 <= k < before.len() && before[k] == x;
                    assert(after[k] == x);
                }
            }
        }
        read_pos += 1;
    }
    assert(s.take(n as int) =~= s);
    *len = write_pos;
    removed
}

} // verus!
