//! Small verified helpers over sequences.

use vstd::prelude::*;

verus! {

/// The values of the `Some` elements of `s`, in order.
pub open spec fn collect_some<T>(s: Seq<Option<T>>) -> Seq<T>
    decreases s.len(),
{
    if s.len() == 0 {
        Seq::empty()
    } else {
        match s[0] {
            Some(v) => seq![v] + collect_some(s.drop_first()),
            None => collect_some(s.drop_first()),
        }
    }
}

pub proof fn lemma_collect_some_snoc<T>(s: Seq<Option<T>>, o: Option<T>)
    ensures
        collect_some(s.push(o)) == match o {
            Some(v) => collect_some(s).push(v),
            None => collect_some(s),
        },
    decreases s.len(),
{
    if s.len() == 0 {
        assert(s.push(o).drop_first() =~= s);
        match o {
            Some(v) => {
                assert(collect_some(s.push(o)) =~= collect_some(s).push(v));
            },
            None => {
                assert(collect_some(s.push(o)) =~= collect_some(s));
            },
        }
    } else {
        lemma_collect_some_snoc(s.drop_first(), o);
        assert(s.push(o).drop_first() =~= s.drop_first().push(o));
        match s[0] {
            Some(v0) => {
                match o {
                    Some(v) => {
                        assert(collect_some(s.push(o)) =~= collect_some(s).push(v));
                    },
                    None => {
                        assert(collect_some(s.push(o)) =~= collect_some(s));
                    },
                }
            },
            None => {},
        }
    }
}

/// All values of a sequence of options, or `None` as soon as one element
/// is absent.
pub open spec fn unwrap_all<T>(s: Seq<Option<T>>) -> Option<Seq<T>>
    decreases s.len(),
{
    if s.len() == 0 {
        Some(Seq::empty())
    } else {
        match s[0] {
            None => None,
            Some(v) => match unwrap_all(s.drop_first()) {
                None => None,
                Some(rest) => Some(seq![v] + rest),
            },
        }
    }
}

pub proof fn lemma_unwrap_all_snoc<T>(s: Seq<Option<T>>, o: Option<T>)
    ensures
        unwrap_all(s.push(o)) == match (unwrap_all(s), o) {
            (Some(vs), Some(v)) => Some::<Seq<T>>(vs.push(v)),
            _ => None::<Seq<T>>,
        },
    decreases s.len(),
{
    if s.len() == 0 {
        assert(s.push(o).drop_first() =~= s);
        match o {
            Some(v) => {
                assert(seq![v] + Seq::<T>::empty() =~= unwrap_all(s)->Some_0.push(v));
            },
            None => {},
        }
    } else {
        lemma_unwrap_all_snoc(s.drop_first(), o);
        assert(s.push(o).drop_first() =~= s.drop_first().push(o));
        match (s[0], unwrap_all(s.drop_first()), o) {
            (Some(v0), Some(rest), Some(v)) => {
                assert(seq![v0] + rest.push(v) =~= (seq![v0] + rest).push(v));
            },
            _ => {},
        }
    }
}

/// A failing prefix fails the whole sequence.
pub proof fn lemma_unwrap_all_prefix_none<T>(s: Seq<Option<T>>, n: int)
    requires
        0 <= n <= s.len(),
        unwrap_all(s.subrange(0, n)) is None,
    ensures
        unwrap_all(s) is None,
    decreases s.len() - n,
{
    if n < s.len() {
        assert(s.subrange(0, n + 1) =~= s.subrange(0, n).push(s[n]));
        lemma_unwrap_all_snoc(s.subrange(0, n), s[n]);
        lemma_unwrap_all_prefix_none(s, n + 1);
    } else {
        assert(s.subrange(0, n) =~= s);
    }
}

/// Concatenation of a sequence of sequences, in order.
pub open spec fn concat_all<T>(s: Seq<Seq<T>>) -> Seq<T>
    decreases s.len(),
{
    if s.len() == 0 {
        Seq::empty()
    } else {
        s[0] + concat_all(s.drop_first())
    }
}

pub proof fn lemma_concat_all_snoc<T>(s: Seq<Seq<T>>, t: Seq<T>)
    ensures
        concat_all(s.push(t)) == concat_all(s) + t,
    decreases s.len(),
{
    if s.len() == 0 {
        assert(s.push(t).drop_first() =~= s);
        assert(concat_all(s.push(t)) =~= concat_all(s) + t);
    } else {
        lemma_concat_all_snoc(s.drop_first(), t);
        assert(s.push(t).drop_first() =~= s.drop_first().push(t));
        assert(concat_all(s.push(t)) =~= concat_all(s) + t);
    }
}

} // verus!
