//! Sequences of views, and the joining of text.

use vstd::prelude::*;
use vstd::string::*;

verus! {

/// The views of the elements of a sequence, in order.
pub open spec fn views<T: View>(s: Seq<T>) -> Seq<T::V> {
    Seq::new(s.len(), |i: int| s[i]@)
}

/// The view of what an option holds.
pub open spec fn option_view<T: View>(o: Option<T>) -> Option<T::V> {
    match o {
        Some(x) => Some(x@),
        None => None,
    }
}

/// The parts in order, with `separator` between each two neighbours.
pub open spec fn joined(parts: Seq<Seq<char>>, separator: Seq<char>) -> Seq<char>
    decreases parts.len(),
{
    if parts.len() == 0 {
        Seq::empty()
    } else {
        let before = parts.drop_last();
        if before.len() == 0 {
            parts.last()
        } else {
            joined(before, separator) + separator + parts.last()
        }
    }
}

/// Joins `parts`, with `separator` between each two neighbours.
pub fn join(parts: &Vec<String>, separator: &str) -> (text: String)
    ensures
        text@ == joined(views(parts@), separator@),
{
    let mut text = String::new();
    let mut i: usize = 0;
    while i < parts.len()
        invariant
            i <= parts.len(),
            text@ == joined(views(parts@).take(i as int), separator@),
        decreases parts.len() - i,
    {
        if i > 0 {
            text.append(separator);
        }
        text.append(parts[i].as_str());
        proof {
            let next = views(parts@).take(i + 1);
            assert(next.drop_last() =~= views(parts@).take(i as int));
            assert(next.last() == parts@[i as int]@);
            if i == 0 {
                assert(text@ =~= next.last());
            }
        }
        i = i + 1;
    }
    assert(views(parts@).take(i as int) =~= views(parts@));
    text
}

/// Whether two texts are the same.
pub fn same(a: &String, b: &str) -> (r: bool)
    ensures
        r == (a@ == b@),
{
    *a == b.to_owned()
}

/// An option of text, copied.
pub fn copy_option(o: &Option<String>) -> (r: Option<String>)
    ensures
        option_view(r) == option_view(*o),
{
    match o {
        Some(s) => Some(s.clone()),
        None => None,
    }
}

/// Taking one element more through a `filter_map` adds what the element maps to.
pub proof fn lemma_filter_map_step<A, B>(s: Seq<A>, f: spec_fn(A) -> Option<B>, i: int)
    requires
        0 <= i < s.len(),
    ensures
        s.take(i + 1).filter_map(f) == (match f(s[i]) {
            Some(b) => s.take(i).filter_map(f).push(b),
            None => s.take(i).filter_map(f),
        }),
{
    let next = s.take(i + 1);
    assert(next.drop_last() =~= s.take(i));
    assert(next.last() == s[i]);
    reveal(Seq::filter_map);
    match f(s[i]) {
        Some(b) => {
            assert(s.take(i).filter_map(f) + seq![b] =~= s.take(i).filter_map(f).push(b));
        },
        None => {},
    }
}

/// What a `filter_map` yields starts with what a prefix yields.
pub proof fn lemma_filter_map_prefix<A, B>(s: Seq<A>, f: spec_fn(A) -> Option<B>, n: int)
    requires
        0 <= n <= s.len(),
    ensures
        s.take(n).filter_map(f).len() <= s.filter_map(f).len(),
        forall|i: int|
            0 <= i < s.take(n).filter_map(f).len() ==> s.filter_map(f)[i] == #[trigger] s.take(
                n,
            ).filter_map(f)[i],
    decreases s.len() - n,
{
    if n == s.len() {
        assert(s.take(n) =~= s);
    } else {
        lemma_filter_map_step(s, f, n);
        lemma_filter_map_prefix(s, f, n + 1);
        assert forall|i: int| 0 <= i < s.take(n).filter_map(f).len() implies s.filter_map(f)[i]
            == #[trigger] s.take(n).filter_map(f)[i] by {
            assert(s.take(n + 1).filter_map(f)[i] == s.take(n).filter_map(f)[i]);
        }
    }
}

/// What a `filter_map` yields is what some element maps to.
pub proof fn lemma_filter_map_source<A, B>(s: Seq<A>, f: spec_fn(A) -> Option<B>, i: int) -> (j:
    int)
    requires
        0 <= i < s.filter_map(f).len(),
    ensures
        0 <= j < s.len(),
        f(s[j]) == Some(s.filter_map(f)[i]),
    decreases s.len(),
{
    reveal(Seq::filter_map);
    let before = s.drop_last();
    if i < before.filter_map(f).len() {
        lemma_filter_map_source(before, f, i)
    } else {
        s.len() - 1
    }
}

/// What an element maps to is among what a `filter_map` yields.
pub proof fn lemma_filter_map_yields<A, B>(s: Seq<A>, f: spec_fn(A) -> Option<B>, j: int) -> (i:
    int)
    requires
        0 <= j < s.len(),
        f(s[j]) is Some,
    ensures
        0 <= i < s.filter_map(f).len(),
        s.filter_map(f)[i] == f(s[j])->0,
{
    lemma_filter_map_step(s, f, j);
    lemma_filter_map_prefix(s, f, j + 1);
    let i = s.take(j).filter_map(f).len() as int;
    assert(s.take(j + 1).filter_map(f)[i] == f(s[j])->0);
    i
}

/// A `filter_map` over two sequences in a row yields what each yields.
pub proof fn lemma_filter_map_concat<A, B>(a: Seq<A>, b: Seq<A>, f: spec_fn(A) -> Option<B>)
    ensures
        (a + b).filter_map(f) == a.filter_map(f) + b.filter_map(f),
    decreases b.len(),
{
    reveal(Seq::filter_map);
    if b.len() == 0 {
        assert(a + b =~= a);
        assert(a.filter_map(f) + b.filter_map(f) =~= a.filter_map(f));
    } else {
        let before = b.drop_last();
        lemma_filter_map_concat(a, before, f);
        assert((a + b).drop_last() =~= a + before);
        assert((a + b).last() == b.last());
        assert((a + b).filter_map(f) =~= a.filter_map(f) + b.filter_map(f));
    }
}

/// A `filter_map` depends only on what the elements map to.
pub proof fn lemma_filter_map_agree<A, B>(
    s: Seq<A>,
    f: spec_fn(A) -> Option<B>,
    g: spec_fn(A) -> Option<B>,
)
    requires
        forall|i: int| 0 <= i < s.len() ==> f(#[trigger] s[i]) == g(s[i]),
    ensures
        s.filter_map(f) == s.filter_map(g),
    decreases s.len(),
{
    reveal(Seq::filter_map);
    if s.len() > 0 {
        let before = s.drop_last();
        assert forall|i: int| 0 <= i < before.len() implies f(#[trigger] before[i]) == g(
            before[i],
        ) by {
            assert(before[i] == s[i]);
        }
        lemma_filter_map_agree(before, f, g);
        assert(f(s[s.len() - 1]) == g(s[s.len() - 1]));
    }
}

/// Two `filter_map`s that keep the same elements yield equally many.
pub proof fn lemma_filter_map_same_len<A, B, C>(
    s: Seq<A>,
    f: spec_fn(A) -> Option<B>,
    g: spec_fn(A) -> Option<C>,
)
    requires
        forall|a: A| #![trigger f(a)] f(a) is Some <==> g(a) is Some,
    ensures
        s.filter_map(f).len() == s.filter_map(g).len(),
    decreases s.len(),
{
    reveal(Seq::filter_map);
    if s.len() > 0 {
        lemma_filter_map_same_len(s.drop_last(), f, g);
        assert(f(s.last()) is Some <==> g(s.last()) is Some);
    }
}

/// Two `filter_map`s that keep the same elements yield at each place what the
/// same element maps to.
pub proof fn lemma_filter_map_same_source<A, B, C>(
    s: Seq<A>,
    f: spec_fn(A) -> Option<B>,
    g: spec_fn(A) -> Option<C>,
    i: int,
) -> (j: int)
    requires
        forall|a: A| #![trigger f(a)] f(a) is Some <==> g(a) is Some,
        0 <= i < s.filter_map(f).len(),
    ensures
        0 <= j < s.len(),
        f(s[j]) == Some(s.filter_map(f)[i]),
        g(s[j]) == Some(s.filter_map(g)[i]),
    decreases s.len(),
{
    reveal(Seq::filter_map);
    let before = s.drop_last();
    lemma_filter_map_same_len(before, f, g);
    assert(f(s.last()) is Some <==> g(s.last()) is Some);
    if i < before.filter_map(f).len() {
        lemma_filter_map_same_source(before, f, g, i)
    } else {
        s.len() - 1
    }
}

/// What an element is flat-mapped to stands together in what a `flat_map` yields.
pub proof fn lemma_flat_map_yields<A, B>(s: Seq<A>, f: spec_fn(A) -> Seq<B>, j: int) -> (i: int)
    requires
        0 <= j < s.len(),
    ensures
        0 <= i,
        i + f(s[j]).len() <= s.flat_map(f).len(),
        s.flat_map(f).subrange(i, i + f(s[j]).len()) == f(s[j]),
    decreases s.len(),
{
    let n = (s.len() - 1) as int;
    s.lemma_flat_map_take_append(f, n);
    assert(s.take(n + 1) =~= s);
    let before = s.take(n);
    if j == n {
        let i = before.flat_map(f).len() as int;
        assert(s.flat_map(f).subrange(i, i + f(s[j]).len()) =~= f(s[j]));
        i
    } else {
        let i = lemma_flat_map_yields(before, f, j);
        assert(before[j] == s[j]);
        assert(s.flat_map(f).subrange(i, i + f(s[j]).len()) =~= before.flat_map(f).subrange(
            i,
            i + f(s[j]).len(),
        ));
        i
    }
}

/// A `filter_map` that keeps what a filter keeps maps the filtered elements one by one.
pub proof fn lemma_filter_map_of_filter<A, B>(
    s: Seq<A>,
    keep: spec_fn(A) -> bool,
    f: spec_fn(A) -> Option<B>,
)
    requires
        forall|a: A| #![trigger f(a)] f(a) is Some <==> keep(a),
    ensures
        s.filter(keep).filter_map(f) == s.filter_map(f),
        s.filter(keep).len() == s.filter_map(f).len(),
        forall|i: int|
            0 <= i < s.filter(keep).len() ==> f(#[trigger] s.filter(keep)[i]) == Some(
                s.filter_map(f)[i],
            ),
    decreases s.len(),
{
    reveal(Seq::filter);
    reveal(Seq::filter_map);
    if s.len() > 0 {
        let before = s.drop_last();
        let a = s.last();
        lemma_filter_map_of_filter(before, keep, f);
        assert(f(a) is Some <==> keep(a));
        if keep(a) {
            let kept = before.filter(keep).push(a);
            assert(s.filter(keep) == kept);
            assert(kept.drop_last() =~= before.filter(keep));
            assert(kept.last() == a);
            assert(s.filter_map(f) == before.filter_map(f) + seq![f(a)->0]);
            assert forall|i: int| 0 <= i < kept.len() implies f(#[trigger] kept[i]) == Some(
                s.filter_map(f)[i],
            ) by {
                if i < before.filter(keep).len() {
                    assert(kept[i] == before.filter(keep)[i]);
                }
            }
        }
    }
}

/// A filter after a `filter_map` is one `filter_map`.
pub proof fn lemma_filter_after_filter_map<A, B>(
    s: Seq<A>,
    f: spec_fn(A) -> Option<B>,
    keep: spec_fn(B) -> bool,
    g: spec_fn(A) -> Option<B>,
)
    requires
        forall|a: A|
            #![trigger g(a)]
            g(a) == (match f(a) {
                Some(b) => if keep(b) {
                    Some(b)
                } else {
                    None
                },
                None => None,
            }),
    ensures
        s.filter_map(f).filter(keep) == s.filter_map(g),
    decreases s.len(),
{
    reveal(Seq::filter);
    reveal(Seq::filter_map);
    if s.len() > 0 {
        let before = s.drop_last();
        let a = s.last();
        lemma_filter_after_filter_map(before, f, keep, g);
        let _ = g(a);
        match f(a) {
            Some(b) => {
                let mapped = before.filter_map(f) + seq![b];
                assert(mapped.drop_last() =~= before.filter_map(f));
                assert(mapped.last() == b);
                assert(before.filter_map(g) + seq![b] =~= before.filter_map(g).push(b));
            },
            None => {},
        }
    }
}

/// Two `filter_map`s in a row are one.
pub proof fn lemma_filter_map_twice<A, B, C>(
    s: Seq<A>,
    f: spec_fn(A) -> Option<B>,
    g: spec_fn(B) -> Option<C>,
    h: spec_fn(A) -> Option<C>,
)
    requires
        forall|a: A|
            #![trigger h(a)]
            h(a) == (match f(a) {
                Some(b) => g(b),
                None => None,
            }),
    ensures
        s.filter_map(f).filter_map(g) == s.filter_map(h),
    decreases s.len(),
{
    reveal(Seq::filter_map);
    if s.len() > 0 {
        let before = s.drop_last();
        let a = s.last();
        lemma_filter_map_twice(before, f, g, h);
        assert(h(a) == (match f(a) {
            Some(b) => g(b),
            None => None,
        }));
        match f(a) {
            Some(b) => {
                let t = before.filter_map(f) + seq![b];
                assert(t.drop_last() =~= before.filter_map(f));
                assert(t.last() == b);
            },
            None => {},
        }
    }
}

/// The views of a sequence with one element more.
pub proof fn lemma_views_push<T: View>(s: Seq<T>, x: T)
    ensures
        views(s.push(x)) == views(s).push(x@),
{
    assert(views(s.push(x)) =~= views(s).push(x@));
}

} // verus!
