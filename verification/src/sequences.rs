//! Facts about sequences that are built up one element at a time.

use vstd::prelude::*;

verus! {

/// The texts of a list of strings.
pub open spec fn texts(list: Seq<String>) -> Seq<Seq<char>> {
    list.map_values(|s: String| s@)
}

/// The text of an optional string.
pub open spec fn text_of(text: Option<String>) -> Option<Seq<char>> {
    match text {
        Some(text) => Some(text@),
        None => None,
    }
}

/// A copy of an optional string.
pub fn clone_text(text: &Option<String>) -> (r: Option<String>)
    ensures
        r == *text,
{
    match text {
        Some(text) => Some(text.clone()),
        None => None,
    }
}

/// Adding a string to a list adds its text.
pub proof fn lemma_texts_push(list: Seq<String>, s: String)
    ensures
        texts(list.push(s)) == texts(list).push(s@),
{
    assert(texts(list.push(s)) =~= texts(list).push(s@));
}

/// Filtering one element more.
pub proof fn lemma_filter_step<A>(s: Seq<A>, i: int, keep: spec_fn(A) -> bool)
    requires
        0 <= i < s.len(),
    ensures
        s.take(i + 1).filter(keep) == (if keep(s[i]) {
            s.take(i).filter(keep).push(s[i])
        } else {
            s.take(i).filter(keep)
        }),
{
    reveal(Seq::filter);
    assert(s.take(i + 1).drop_last() =~= s.take(i));
    assert(s.take(i + 1).last() == s[i]);
}

/// Filtering nothing, and filtering everything.
pub proof fn lemma_filter_ends<A>(s: Seq<A>, keep: spec_fn(A) -> bool)
    ensures
        s.take(0).filter(keep) == Seq::<A>::empty(),
        s.take(s.len() as int) == s,
{
    reveal(Seq::filter);
    assert(s.take(0) =~= Seq::<A>::empty());
    assert(s.take(s.len() as int) =~= s);
}

/// What a filter keeps are elements of the sequence that pass it, every one of
/// them, and none twice if the sequence has none twice.
pub proof fn lemma_filter_subset<A>(s: Seq<A>, keep: spec_fn(A) -> bool)
    ensures
        forall|x: A| #[trigger] s.filter(keep).contains(x) <==> s.contains(x) && keep(x),
        forall|i: int| 0 <= i < s.filter(keep).len() ==> keep(#[trigger] s.filter(keep)[i]) && s.contains(s.filter(keep)[i]),
        s.no_duplicates() ==> s.filter(keep).no_duplicates(),
    decreases s.len(),
{
    reveal(Seq::filter);
    if s.len() > 0 {
        let init = s.drop_last();
        let kept = init.filter(keep);
        lemma_filter_subset(init, keep);
        assert forall|x: A| #[trigger] s.filter(keep).contains(x) <==> s.contains(x) && keep(x) by {
            if s.contains(x) && keep(x) {
                let i = s.index_of(x);
                if i < init.len() {
                    assert(init[i] == x);
                    assert(kept.contains(x));
                    let j = kept.index_of(x);
                    assert(s.filter(keep)[j] == x);
                } else {
                    assert(s.filter(keep).last() == x);
                    assert(s.filter(keep)[kept.len() as int] == x);
                }
            }
            if s.filter(keep).contains(x) {
                let j = s.filter(keep).index_of(x);
                if j < kept.len() {
                    assert(kept[j] == x);
                    assert(kept.contains(x));
                    let i = init.index_of(x);
                    assert(s[i] == x);
                } else {
                    assert(s[s.len() - 1] == x);
                }
            }
        }
        assert forall|i: int| 0 <= i < s.filter(keep).len() implies keep(
            #[trigger] s.filter(keep)[i],
        ) && s.contains(s.filter(keep)[i]) by {
            assert(s.filter(keep).contains(s.filter(keep)[i]));
        }
        if s.no_duplicates() {
            assert(init.no_duplicates());
            if keep(s.last()) && kept.contains(s.last()) {
                let i = init.index_of(s.last());
                assert(s[i] == s[s.len() - 1]);
            }
            assert forall|i: int, j: int|
                0 <= i < j < s.filter(keep).len() implies s.filter(keep)[i] != s.filter(keep)[j] by {
                if j == kept.len() {
                    assert(kept[i] == s.filter(keep)[i]);
                    assert(kept.contains(kept[i]));
                } else {
                    assert(kept[i] == s.filter(keep)[i]);
                    assert(kept[j] == s.filter(keep)[j]);
                }
            }
        }
    } else {
        assert(s.filter(keep) =~= Seq::empty());
    }
}

/// A text that may be missing is shown as it is, and so is every text of a list.
pub proof fn law_texts_are_shown_as_they_are(text: Option<String>, list: Seq<String>, i: int)
    ensures
        match text {
            Some(held) => text_of(text) == Some(held@),
            None => text_of(text) is None,
        },
        texts(list).len() == list.len(),
        0 <= i < list.len() ==> texts(list)[i] == list[i]@,
{
}

} // verus!
