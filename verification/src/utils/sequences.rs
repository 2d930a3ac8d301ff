//! Facts about sequences that are joined, filtered and mapped.

use vstd::prelude::*;

verus! {

/// One more element of a sequence adds its image to the flattened images.
pub proof fn lemma_flat_map_step<A, B>(s: Seq<A>, f: spec_fn(A) -> Seq<B>, i: int)
    requires
        0 <= i < s.len(),
    ensures
        s.take(i + 1).map_values(f).flatten() == s.take(i).map_values(f).flatten() + f(s[i]),
{
    assert(s.take(i + 1).map_values(f) =~= s.take(i).map_values(f).push(f(s[i])));
    s.take(i).map_values(f).lemma_flatten_push(f(s[i]));
}

/// One more element of a sequence is kept by a filter or not.
pub proof fn lemma_filter_step<A>(s: Seq<A>, pred: spec_fn(A) -> bool, i: int)
    requires
        0 <= i < s.len(),
    ensures
        s.take(i + 1).filter(pred) == if pred(s[i]) {
            s.take(i).filter(pred).push(s[i])
        } else {
            s.take(i).filter(pred)
        },
{
    assert(s.take(i + 1) =~= s.take(i).push(s[i]));
    s.take(i).lemma_filter_push(s[i], pred);
}

/// What holds of every part holds of the whole that they are joined into.
pub proof fn lemma_flatten_all<A>(parts: Seq<Seq<A>>, holds: spec_fn(A) -> bool)
    requires
        forall|i: int, j: int|
            0 <= i < parts.len() && 0 <= j < parts[i].len() ==> holds(#[trigger] parts[i][j]),
    ensures
        forall|k: int| 0 <= k < parts.flatten().len() ==> holds(#[trigger] parts.flatten()[k]),
    decreases parts.len(),
{
    if parts.len() > 0 {
        let rest = parts.drop_first();
        assert forall|i: int, j: int| 0 <= i < rest.len() && 0 <= j < rest[i].len() implies holds(
            #[trigger] rest[i][j],
        ) by {
            assert(rest[i][j] == parts[i + 1][j]);
        }
        lemma_flatten_all(rest, holds);
        assert forall|k: int| 0 <= k < parts.flatten().len() implies holds(
            #[trigger] parts.flatten()[k],
        ) by {
            if k < parts.first().len() {
                assert(parts.flatten()[k] == parts[0][k]);
            } else {
                assert(parts.flatten()[k] == rest.flatten()[k - parts.first().len()]);
            }
        }
    }
}

/// What holds of every element holds of those that a filter keeps.
pub proof fn lemma_filter_all<A>(s: Seq<A>, pred: spec_fn(A) -> bool, holds: spec_fn(A) -> bool)
    requires
        forall|i: int| 0 <= i < s.len() ==> holds(#[trigger] s[i]),
    ensures
        forall|k: int|
            0 <= k < s.filter(pred).len() ==> holds(#[trigger] s.filter(pred)[k]) && pred(
                s.filter(pred)[k],
            ),
    decreases s.len(),
{
    reveal(Seq::filter);
    if s.len() > 0 {
        let rest = s.drop_last();
        let kept = rest.filter(pred);
        assert forall|i: int| 0 <= i < rest.len() implies holds(#[trigger] rest[i]) by {
            assert(rest[i] == s[i]);
        }
        lemma_filter_all(rest, pred, holds);
        assert(holds(s[s.len() - 1]));
        assert forall|k: int| 0 <= k < s.filter(pred).len() implies holds(
            #[trigger] s.filter(pred)[k],
        ) && pred(s.filter(pred)[k]) by {
            if k < kept.len() {
                assert(s.filter(pred)[k] == kept[k]);
            } else {
                assert(s.filter(pred)[k] == s.last());
            }
        }
    }
}

/// Parts that are all empty are joined into an empty whole.
pub proof fn lemma_flatten_nothing<A>(parts: Seq<Seq<A>>)
    requires
        forall|i: int| 0 <= i < parts.len() ==> (#[trigger] parts[i]).len() == 0,
    ensures
        parts.flatten() =~= Seq::<A>::empty(),
{
    let never = |x: A| false;
    lemma_flatten_all(parts, never);
    if parts.flatten().len() > 0 {
        assert(never(parts.flatten()[0]));
    }
}

/// Parts of which all but one are empty are joined into that one.
pub proof fn lemma_flatten_single<A>(parts: Seq<Seq<A>>, j: int)
    requires
        0 <= j < parts.len(),
        forall|i: int| 0 <= i < parts.len() && i != j ==> (#[trigger] parts[i]).len() == 0,
    ensures
        parts.flatten() =~= parts[j],
    decreases parts.len(),
{
    let rest = parts.drop_first();
    if j == 0 {
        assert forall|i: int| 0 <= i < rest.len() implies (#[trigger] rest[i]).len() == 0 by {
            assert(rest[i] == parts[i + 1]);
        }
        lemma_flatten_nothing(rest);
    } else {
        assert forall|i: int| 0 <= i < rest.len() && i != j - 1 implies (#[trigger] rest[i]).len()
            == 0 by {
            assert(rest[i] == parts[i + 1]);
        }
        lemma_flatten_single(rest, j - 1);
        assert(rest[j - 1] == parts[j]);
        assert(parts[0].len() == 0);
    }
}

/// Eight parts are joined into their concatenation.
pub proof fn lemma_flatten_eight<A, B>(s: Seq<A>, f: spec_fn(A) -> Seq<B>)
    requires
        s.len() == 8,
    ensures
        s.map_values(f).flatten() == f(s[0]) + f(s[1]) + f(s[2]) + f(s[3]) + f(s[4]) + f(s[5]) + f(
            s[6],
        ) + f(s[7]),
{
    assert(s.take(0).map_values(f) =~= Seq::<Seq<B>>::empty());
    assert(s.take(0).map_values(f).flatten() =~= Seq::<B>::empty());
    lemma_flat_map_step(s, f, 0);
    lemma_flat_map_step(s, f, 1);
    lemma_flat_map_step(s, f, 2);
    lemma_flat_map_step(s, f, 3);
    lemma_flat_map_step(s, f, 4);
    lemma_flat_map_step(s, f, 5);
    lemma_flat_map_step(s, f, 6);
    lemma_flat_map_step(s, f, 7);
    assert(s.take(8) =~= s);
    assert(s.take(1).map_values(f).flatten() =~= f(s[0]));
}

/// A filter that every element passes keeps the sequence as it is.
pub proof fn lemma_filter_keeps_all<A>(s: Seq<A>, pred: spec_fn(A) -> bool)
    requires
        forall|i: int| 0 <= i < s.len() ==> pred(#[trigger] s[i]),
    ensures
        s.filter(pred) == s,
    decreases s.len(),
{
    reveal(Seq::filter);
    if s.len() > 0 {
        let rest = s.drop_last();
        assert forall|i: int| 0 <= i < rest.len() implies pred(#[trigger] rest[i]) by {
            assert(rest[i] == s[i]);
        }
        lemma_filter_keeps_all(rest, pred);
        assert(pred(s[s.len() - 1]));
        assert(rest.push(s.last()) =~= s);
    }
}

/// A filter that no element passes keeps nothing.
pub proof fn lemma_filter_keeps_none<A>(s: Seq<A>, pred: spec_fn(A) -> bool)
    requires
        forall|i: int| 0 <= i < s.len() ==> !pred(#[trigger] s[i]),
    ensures
        s.filter(pred) =~= Seq::<A>::empty(),
    decreases s.len(),
{
    reveal(Seq::filter);
    if s.len() > 0 {
        let rest = s.drop_last();
        assert forall|i: int| 0 <= i < rest.len() implies !pred(#[trigger] rest[i]) by {
            assert(rest[i] == s[i]);
        }
        lemma_filter_keeps_none(rest, pred);
        assert(!pred(s[s.len() - 1]));
    }
}

/// An element of two sequences joined is an element of one of them.
pub proof fn lemma_concat_contains<A>(a: Seq<A>, b: Seq<A>, x: A)
    ensures
        (a + b).contains(x) <==> a.contains(x) || b.contains(x),
{
    let joined = a + b;
    if a.contains(x) {
        let i = choose|i: int| 0 <= i < a.len() && a[i] == x;
        assert(joined[i] == x);
    }
    if b.contains(x) {
        let i = choose|i: int| 0 <= i < b.len() && b[i] == x;
        assert(joined[a.len() + i] == x);
    }
    if joined.contains(x) {
        let i = choose|i: int| 0 <= i < joined.len() && joined[i] == x;
        if i < a.len() {
            assert(a[i] == x);
        } else {
            assert(b[i - a.len()] == x);
        }
    }
}

/// An element of the whole is an element of one of the parts.
pub proof fn lemma_flatten_contains<A>(parts: Seq<Seq<A>>, x: A)
    ensures
        parts.flatten().contains(x) <==> exists|i: int|
            0 <= i < parts.len() && (#[trigger] parts[i]).contains(x),
    decreases parts.len(),
{
    if parts.len() == 0 {
        assert(!parts.flatten().contains(x));
    } else {
        let rest = parts.drop_first();
        lemma_flatten_contains(rest, x);
        lemma_concat_contains(parts.first(), rest.flatten(), x);
        if parts.flatten().contains(x) {
            if parts.first().contains(x) {
                assert(parts[0].contains(x));
            } else {
                let i = choose|i: int| 0 <= i < rest.len() && (#[trigger] rest[i]).contains(x);
                assert(parts[i + 1] == rest[i]);
                assert(parts[i + 1].contains(x));
            }
        }
        if exists|i: int| 0 <= i < parts.len() && (#[trigger] parts[i]).contains(x) {
            let i = choose|i: int| 0 <= i < parts.len() && (#[trigger] parts[i]).contains(x);
            if i > 0 {
                assert(rest[i - 1] == parts[i]);
                assert(rest[i - 1].contains(x));
            }
        }
    }
}

/// An element that a filter keeps is an element that passes it.
pub proof fn lemma_filter_contains<A>(s: Seq<A>, pred: spec_fn(A) -> bool, x: A)
    ensures
        s.filter(pred).contains(x) <==> s.contains(x) && pred(x),
    decreases s.len(),
{
    reveal(Seq::filter);
    if s.len() == 0 {
        assert(!s.contains(x));
        assert(!s.filter(pred).contains(x));
    } else {
        let rest = s.drop_last();
        let last = s.last();
        lemma_filter_contains(rest, pred, x);
        assert(s =~= rest + seq![last]);
        lemma_concat_contains(rest, seq![last], x);
        assert(seq![last].contains(x) <==> last == x) by {
            if last == x {
                assert(seq![last][0] == x);
            }
        }
        if pred(last) {
            assert(s.filter(pred) =~= rest.filter(pred) + seq![last]);
            lemma_concat_contains(rest.filter(pred), seq![last], x);
        }
    }
}

/// A sequence read backwards holds the same elements.
pub proof fn lemma_reverse_contains<A>(s: Seq<A>, x: A)
    ensures
        s.reverse().contains(x) <==> s.contains(x),
{
    let r = s.reverse();
    if s.contains(x) {
        let i = choose|i: int| 0 <= i < s.len() && s[i] == x;
        assert(r[s.len() - 1 - i] == x);
    }
    if r.contains(x) {
        let i = choose|i: int| 0 <= i < r.len() && r[i] == x;
        assert(s[s.len() - 1 - i] == x);
    }
}

} // verus!
