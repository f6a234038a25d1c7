//! Facts about sequences that the queues and tables of the kernel rest on.

use vstd::prelude::*;

verus! {

/// Being `x`.
pub open spec fn equal_to<A>(x: A) -> spec_fn(A) -> bool {
    |y: A| y == x
}

/// Being anything but `x`.
pub open spec fn other_than<A>(x: A) -> spec_fn(A) -> bool {
    |y: A| y != x
}

/// The first position at or after `i` whose element satisfies `p`.
pub open spec fn first_from<A>(s: Seq<A>, p: spec_fn(A) -> bool, i: int) -> Option<int>
    decreases s.len() - i,
{
    if i < 0 || i >= s.len() {
        None
    } else if p(s[i]) {
        Some(i)
    } else {
        first_from(s, p, i + 1)
    }
}

/// The first position whose element satisfies `p`.
pub open spec fn first_such<A>(s: Seq<A>, p: spec_fn(A) -> bool) -> Option<int> {
    first_from(s, p, 0)
}

proof fn lemma_first_from<A>(s: Seq<A>, p: spec_fn(A) -> bool, i: int)
    requires
        0 <= i,
    ensures
        first_from(s, p, i) matches Some(k) ==> i <= k < s.len() && p(s[k]) && forall|j: int|
            i <= j < k ==> !p(#[trigger] s[j]),
        first_from(s, p, i) is None ==> forall|j: int| i <= j < s.len() ==> !p(#[trigger] s[j]),
    decreases s.len() - i,
{
    if i < s.len() && !p(s[i]) {
        lemma_first_from(s, p, i + 1);
    }
}

/// What `first_such` gives is a position with the property, and none before it has it.
pub proof fn lemma_first_such<A>(s: Seq<A>, p: spec_fn(A) -> bool)
    ensures
        first_such(s, p) matches Some(k) ==> 0 <= k < s.len() && p(s[k]) && forall|j: int|
            0 <= j < k ==> !p(#[trigger] s[j]),
        first_such(s, p) is None ==> forall|j: int| 0 <= j < s.len() ==> !p(#[trigger] s[j]),
{
    lemma_first_from(s, p, 0);
}

/// A position with the property and none before it is what `first_such` gives.
pub proof fn lemma_first_such_is<A>(s: Seq<A>, p: spec_fn(A) -> bool, k: int)
    requires
        0 <= k < s.len(),
        p(s[k]),
        forall|j: int| 0 <= j < k ==> !p(#[trigger] s[j]),
    ensures
        first_such(s, p) == Some(k),
{
    lemma_first_such(s, p);
    if first_such(s, p) is None {
        assert(!p(s[k]));
    } else {
        let m = first_such(s, p)->0;
        if m < k {
            assert(!p(s[m]));
        } else if k < m {
            assert(!p(s[k]));
        }
    }
}

/// Where nothing has the property, `first_such` gives nothing.
pub proof fn lemma_first_such_none<A>(s: Seq<A>, p: spec_fn(A) -> bool)
    requires
        forall|j: int| 0 <= j < s.len() ==> !p(#[trigger] s[j]),
    ensures
        first_such(s, p) is None,
{
    lemma_first_such(s, p);
    if first_such(s, p) is Some {
        assert(!p(s[first_such(s, p)->0]));
    }
}

/// The last position whose element satisfies `p`.
pub open spec fn last_such<A>(s: Seq<A>, p: spec_fn(A) -> bool) -> Option<int>
    decreases s.len(),
{
    if s.len() == 0 {
        None
    } else if p(s.last()) {
        Some(s.len() - 1)
    } else {
        last_such(s.drop_last(), p)
    }
}

/// What `last_such` gives is a position with the property, and none after it has it.
pub proof fn lemma_last_such<A>(s: Seq<A>, p: spec_fn(A) -> bool)
    ensures
        last_such(s, p) matches Some(k) ==> 0 <= k < s.len() && p(s[k]) && forall|j: int|
            k < j < s.len() ==> !p(#[trigger] s[j]),
        last_such(s, p) is None ==> forall|j: int| 0 <= j < s.len() ==> !p(#[trigger] s[j]),
    decreases s.len(),
{
    if s.len() > 0 && !p(s.last()) {
        lemma_last_such(s.drop_last(), p);
        let t = s.drop_last();
        assert forall|j: int|
            (if last_such(s, p) is Some {
                last_such(s, p)->0 < j < s.len()
            } else {
                0 <= j < s.len()
            }) implies !p(#[trigger] s[j]) by {
            if j < t.len() {
                assert(t[j] == s[j]);
            }
        }
    }
}

/// A position with the property and none after it is what `last_such` gives.
pub proof fn lemma_last_such_is<A>(s: Seq<A>, p: spec_fn(A) -> bool, k: int)
    requires
        0 <= k < s.len(),
        p(s[k]),
        forall|j: int| k < j < s.len() ==> !p(#[trigger] s[j]),
    ensures
        last_such(s, p) == Some(k),
{
    lemma_last_such(s, p);
    if last_such(s, p) is None {
        assert(!p(s[k]));
    } else {
        let m = last_such(s, p)->0;
        if m < k {
            assert(!p(s[k]));
        } else if k < m {
            assert(!p(s[m]));
        }
    }
}

/// Where nothing has the property, `last_such` gives nothing.
pub proof fn lemma_last_such_none<A>(s: Seq<A>, p: spec_fn(A) -> bool)
    requires
        forall|j: int| 0 <= j < s.len() ==> !p(#[trigger] s[j]),
    ensures
        last_such(s, p) is None,
{
    lemma_last_such(s, p);
    if last_such(s, p) is Some {
        assert(!p(s[last_such(s, p)->0]));
    }
}

/// The sequence without the element at `pos`, whose place the last one takes.
pub open spec fn swap_remove<A>(s: Seq<A>, pos: int) -> Seq<A> {
    s.update(pos, s.last()).drop_last()
}

/// The sequence from `pos` on without any `x`: each one found makes room for the last
/// element.
pub open spec fn swap_out_from<A>(s: Seq<A>, x: A, pos: int) -> Seq<A>
    decreases s.len() - pos,
{
    if pos < 0 || pos >= s.len() {
        s
    } else if s[pos] == x {
        swap_out_from(swap_remove(s, pos), x, pos)
    } else {
        swap_out_from(s, x, pos + 1)
    }
}

/// The sequence without any `x`: each one found makes room for the last element.
pub open spec fn swap_out<A>(s: Seq<A>, x: A) -> Seq<A> {
    swap_out_from(s, x, 0)
}

/// Taking an element out by swapping keeps every other element.
pub proof fn lemma_swap_remove<A>(s: Seq<A>, pos: int)
    requires
        0 <= pos < s.len(),
    ensures
        swap_remove(s, pos).len() == s.len() - 1,
        s.no_duplicates() ==> swap_remove(s, pos).no_duplicates(),
        forall|y: A| #[trigger]
            swap_remove(s, pos).contains(y) ==> s.contains(y) && (s.no_duplicates() ==> y
                != s[pos]),
        forall|y: A| #[trigger] s.contains(y) && y != s[pos] ==> swap_remove(s, pos).contains(y),
{
    let t = swap_remove(s, pos);
    assert forall|y: A| #[trigger] t.contains(y) implies s.contains(y) && (s.no_duplicates() ==> y
        != s[pos]) by {
        let k = choose|k: int| 0 <= k < t.len() && t[k] == y;
        if k == pos {
            assert(s[s.len() - 1] == y);
        } else {
            assert(s[k] == y);
        }
    }
    assert forall|y: A| #[trigger] s.contains(y) && y != s[pos] implies t.contains(y) by {
        let k = choose|k: int| 0 <= k < s.len() && s[k] == y;
        if k == s.len() - 1 {
            assert(t[pos] == y);
        } else {
            assert(t[k] == y);
        }
    }
}

proof fn lemma_swap_out_from<A>(s: Seq<A>, x: A, pos: int)
    requires
        0 <= pos <= s.len(),
        forall|j: int| 0 <= j < pos ==> s[j] != x,
    ensures
        swap_out_from(s, x, pos).len() <= s.len(),
        !swap_out_from(s, x, pos).contains(x),
        s.no_duplicates() ==> swap_out_from(s, x, pos).no_duplicates(),
        forall|y: A| #[trigger] swap_out_from(s, x, pos).contains(y) ==> s.contains(y),
        forall|y: A| #[trigger]
            s.contains(y) && y != x ==> swap_out_from(s, x, pos).contains(y),
    decreases s.len() - pos,
{
    if pos < s.len() {
        if s[pos] == x {
            lemma_swap_remove(s, pos);
            lemma_swap_out_from(swap_remove(s, pos), x, pos);
        } else {
            lemma_swap_out_from(s, x, pos + 1);
        }
    }
}

/// `swap_out` takes out `x` and nothing else.
pub proof fn lemma_swap_out<A>(s: Seq<A>, x: A)
    ensures
        swap_out(s, x).len() <= s.len(),
        !swap_out(s, x).contains(x),
        s.no_duplicates() ==> swap_out(s, x).no_duplicates(),
        forall|y: A| #[trigger] swap_out(s, x).contains(y) ==> s.contains(y),
        forall|y: A| #[trigger] s.contains(y) && y != x ==> swap_out(s, x).contains(y),
{
    lemma_swap_out_from(s, x, 0);
}

/// Filtering one more element of a prefix appends it or not.
pub proof fn lemma_filter_take<A>(s: Seq<A>, p: spec_fn(A) -> bool, i: int)
    requires
        0 <= i < s.len(),
    ensures
        s.take(i + 1).filter(p) == if p(s[i]) {
            s.take(i).filter(p).push(s[i])
        } else {
            s.take(i).filter(p)
        },
{
    reveal(Seq::filter);
    assert(s.take(i + 1).drop_last() =~= s.take(i));
    assert(s.take(i + 1).last() == s[i]);
}

/// A filtered sequence is no longer than the sequence.
pub proof fn lemma_filter_len<A>(s: Seq<A>, p: spec_fn(A) -> bool)
    ensures
        s.filter(p).len() <= s.len(),
    decreases s.len(),
{
    reveal(Seq::filter);
    if s.len() > 0 {
        lemma_filter_len(s.drop_last(), p);
    }
}

/// Replacing an element changes the number of those with the property by what leaves and
/// what comes.
pub proof fn lemma_filter_update_len<A>(s: Seq<A>, p: spec_fn(A) -> bool, pos: int, x: A)
    requires
        0 <= pos < s.len(),
    ensures
        s.update(pos, x).filter(p).len() + (if p(s[pos]) {
            1int
        } else {
            0
        }) == s.filter(p).len() + (if p(x) {
            1int
        } else {
            0
        }),
    decreases s.len(),
{
    reveal(Seq::filter);
    let t = s.drop_last();
    let u = s.update(pos, x);
    if pos == s.len() - 1 {
        assert(u.drop_last() =~= t);
    } else {
        lemma_filter_update_len(t, p, pos, x);
        assert(u.drop_last() =~= t.update(pos, x));
    }
}

/// Nothing is filtered out exactly if everything has the property.
pub proof fn lemma_filter_full_len<A>(s: Seq<A>, p: spec_fn(A) -> bool)
    ensures
        s.filter(p).len() == s.len() <==> forall|j: int| 0 <= j < s.len() ==> p(#[trigger] s[j]),
    decreases s.len(),
{
    reveal(Seq::filter);
    if s.len() > 0 {
        let t = s.drop_last();
        lemma_filter_full_len(t, p);
        lemma_filter_len(t, p);
        if s.filter(p).len() == s.len() {
            assert forall|j: int| 0 <= j < s.len() implies p(#[trigger] s[j]) by {
                if j < t.len() {
                    assert(t[j] == s[j]);
                }
            }
        } else if forall|j: int| 0 <= j < s.len() ==> p(#[trigger] s[j]) {
            assert(p(s[s.len() - 1]));
            assert forall|j: int| 0 <= j < t.len() implies p(#[trigger] t[j]) by {
                assert(t[j] == s[j]);
            }
        }
    }
}

/// What is left after filtering was there before, and has the property.
pub proof fn lemma_filter_from<A>(s: Seq<A>, p: spec_fn(A) -> bool)
    ensures
        forall|j: int|
            0 <= j < s.filter(p).len() ==> p(#[trigger] s.filter(p)[j]) && s.contains(
                s.filter(p)[j],
            ),
        forall|y: A| #[trigger] s.filter(p).contains(y) <==> s.contains(y) && p(y),
        s.no_duplicates() ==> s.filter(p).no_duplicates(),
    decreases s.len(),
{
    reveal(Seq::filter);
    let f = s.filter(p);
    if s.len() > 0 {
        let t = s.drop_last();
        lemma_filter_from(t, p);
        assert(s =~= t.push(s.last()));
        assert forall|y: A| #[trigger] f.contains(y) <==> s.contains(y) && p(y) by {
            if f.contains(y) {
                let k = choose|k: int| 0 <= k < f.len() && f[k] == y;
                if k < t.filter(p).len() {
                    assert(t.filter(p)[k] == y);
                    let l = choose|l: int| 0 <= l < t.len() && t[l] == y;
                    assert(s[l] == y);
                } else {
                    assert(s[s.len() - 1] == y);
                }
            }
            if s.contains(y) && p(y) {
                let k = choose|k: int| 0 <= k < s.len() && s[k] == y;
                if k < t.len() {
                    assert(t[k] == y);
                    assert(t.filter(p).contains(y));
                    let l = choose|l: int| 0 <= l < t.filter(p).len() && t.filter(p)[l] == y;
                    assert(f[l] == y);
                } else {
                    assert(f[f.len() - 1] == y);
                }
            }
        }
        assert forall|j: int| 0 <= j < f.len() implies p(#[trigger] f[j]) && s.contains(f[j]) by {
            assert(f.contains(f[j]));
        }
        if s.no_duplicates() {
            assert(t.no_duplicates());
            assert forall|a: int, b: int| 0 <= a < f.len() && 0 <= b < f.len() && a != b implies f[a]
                != f[b] by {
                if p(s.last()) {
                    let g = t.filter(p);
                    if a == g.len() || b == g.len() {
                        let c = if a == g.len() {
                            b
                        } else {
                            a
                        };
                        assert(t.contains(g[c]));
                        let l = choose|l: int| 0 <= l < t.len() && t[l] == g[c];
                        assert(s[l] == g[c]);
                        assert(s[l] != s[s.len() - 1]);
                    }
                }
            }
        }
    }
}

/// What holds of any two that are left after filtering, if it holds of any two that have the
/// property.
pub proof fn lemma_filter_pairs<A>(
    s: Seq<A>,
    p: spec_fn(A) -> bool,
    apart: spec_fn(A, A) -> bool,
)
    requires
        forall|i: int, j: int|
            0 <= i < j < s.len() && p(s[i]) && p(s[j]) ==> apart(#[trigger] s[i], #[trigger] s[j]),
    ensures
        forall|a: int, b: int|
            0 <= a < b < s.filter(p).len() ==> apart(
                #[trigger] s.filter(p)[a],
                #[trigger] s.filter(p)[b],
            ),
    decreases s.len(),
{
    reveal(Seq::filter);
    if s.len() > 0 {
        let t = s.drop_last();
        assert forall|i: int, j: int| 0 <= i < j < t.len() && p(t[i]) && p(t[j]) implies apart(
            #[trigger] t[i],
            #[trigger] t[j],
        ) by {
            assert(apart(s[i], s[j]));
        }
        lemma_filter_pairs(t, p, apart);
        lemma_filter_from(t, p);
        let f = s.filter(p);
        let g = t.filter(p);
        assert forall|a: int, b: int| 0 <= a < b < f.len() implies apart(
            #[trigger] f[a],
            #[trigger] f[b],
        ) by {
            assert(f[a] == g[a]);
            if b < g.len() {
                assert(f[b] == g[b]);
            } else {
                assert(t.contains(g[a]));
                let l = choose|l: int| 0 <= l < t.len() && t[l] == g[a];
                assert(apart(s[l], s[s.len() - 1]));
            }
        }
    }
}

/// Filtering keeps the order.
pub proof fn lemma_filter_order<A>(s: Seq<A>, p: spec_fn(A) -> bool, x: int, y: int)
    requires
        0 <= x < y < s.len(),
        p(s[x]),
        p(s[y]),
    ensures
        exists|c: int, d: int|
            0 <= c < d < s.filter(p).len() && #[trigger] s.filter(p)[c] == s[x]
                && #[trigger] s.filter(p)[d] == s[y],
    decreases s.len(),
{
    reveal(Seq::filter);
    let t = s.drop_last();
    let f = s.filter(p);
    let g = t.filter(p);
    if y == s.len() - 1 {
        lemma_filter_from(t, p);
        assert(t[x] == s[x]);
        assert(t.contains(t[x]));
        assert(g.contains(t[x]));
        let c = choose|c: int| 0 <= c < g.len() && g[c] == t[x];
        assert(f[c] == s[x] && f[g.len() as int] == s[y]);
    } else {
        assert(t[x] == s[x] && t[y] == s[y]);
        lemma_filter_order(t, p, x, y);
        let (c, d) = choose|c: int, d: int|
            0 <= c < d < g.len() && #[trigger] g[c] == t[x] && #[trigger] g[d] == t[y];
        assert(f[c] == g[c] && f[d] == g[d]);
    }
}

/// Filtering by a property that all have changes nothing.
pub proof fn lemma_filter_all<A>(s: Seq<A>, p: spec_fn(A) -> bool)
    requires
        forall|j: int| 0 <= j < s.len() ==> p(#[trigger] s[j]),
    ensures
        s.filter(p) == s,
    decreases s.len(),
{
    reveal(Seq::filter);
    if s.len() > 0 {
        let t = s.drop_last();
        assert forall|j: int| 0 <= j < t.len() implies p(#[trigger] t[j]) by {
            assert(t[j] == s[j]);
        }
        lemma_filter_all(t, p);
        assert(p(s[s.len() - 1]));
        assert(s =~= t.push(s.last()));
    }
}

/// Filtering by a property that none has leaves nothing.
pub proof fn lemma_filter_none<A>(s: Seq<A>, p: spec_fn(A) -> bool)
    requires
        forall|j: int| 0 <= j < s.len() ==> !p(#[trigger] s[j]),
    ensures
        s.filter(p).len() == 0,
    decreases s.len(),
{
    reveal(Seq::filter);
    if s.len() > 0 {
        let t = s.drop_last();
        assert forall|j: int| 0 <= j < t.len() implies !p(#[trigger] t[j]) by {
            assert(t[j] == s[j]);
        }
        lemma_filter_none(t, p);
        assert(!p(s[s.len() - 1]));
    }
}

/// Appending an element adds it and nothing else.
pub proof fn lemma_push<A>(s: Seq<A>, x: A)
    ensures
        forall|y: A| #[trigger] s.push(x).contains(y) <==> s.contains(y) || y == x,
        s.no_duplicates() && !s.contains(x) ==> s.push(x).no_duplicates(),
{
    let t = s.push(x);
    assert forall|y: A| #[trigger] t.contains(y) <==> s.contains(y) || y == x by {
        if t.contains(y) {
            let k = choose|k: int| 0 <= k < t.len() && t[k] == y;
            if k < s.len() {
                assert(s[k] == y);
            }
        }
        if s.contains(y) {
            let k = choose|k: int| 0 <= k < s.len() && s[k] == y;
            assert(t[k] == y);
        }
        assert(t[s.len() as int] == x);
    }
    if s.no_duplicates() && !s.contains(x) {
        assert forall|a: int, b: int| 0 <= a < t.len() && 0 <= b < t.len() && a != b implies t[a]
            != t[b] by {
            if a == s.len() {
                assert(s[b] != x);
            } else if b == s.len() {
                assert(s[a] != x);
            }
        }
    }
}

/// Dropping the last element of a sequence without duplicates drops it and nothing else.
pub proof fn lemma_drop_last<A>(s: Seq<A>)
    requires
        s.len() > 0,
        s.no_duplicates(),
    ensures
        s.drop_last().no_duplicates(),
        forall|y: A| #[trigger] s.drop_last().contains(y) <==> s.contains(y) && y != s.last(),
{
    let t = s.drop_last();
    assert forall|y: A| #[trigger] t.contains(y) <==> s.contains(y) && y != s.last() by {
        if t.contains(y) {
            let k = choose|k: int| 0 <= k < t.len() && t[k] == y;
            assert(s[k] == y);
        }
        if s.contains(y) && y != s.last() {
            let k = choose|k: int| 0 <= k < s.len() && s[k] == y;
            assert(t[k] == y);
        }
    }
}

} // verus!
