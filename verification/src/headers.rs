//! Header-list rewriting: dropping every entry with a given name
//! (case-insensitive), the one operation the response rewriter and the
//! CORS upsert are built from.

use vstd::prelude::*;

use crate::model::{hviews, Header};
use crate::text::{eq_ignore_case, name_matches};

verus! {

/// The header list `s` with every entry whose name matches `n`
/// (ASCII case folded) removed; the order of the rest is kept.
pub open spec fn remove_name(
    s: Seq<(Seq<char>, Seq<char>)>,
    n: Seq<char>,
) -> Seq<(Seq<char>, Seq<char>)>
    decreases s.len(),
{
    if s.len() == 0 {
        Seq::empty()
    } else {
        let rest = remove_name(s.drop_last(), n);
        if name_matches(s.last().0, n) {
            rest
        } else {
            rest.push(s.last())
        }
    }
}

/// No entry of `remove_name(s, n)` has a name matching `n`.
pub proof fn lemma_remove_name_removes(s: Seq<(Seq<char>, Seq<char>)>, n: Seq<char>)
    ensures
        forall|i: int|
            0 <= i < remove_name(s, n).len() ==> !name_matches(remove_name(s, n)[i].0, n),
    decreases s.len(),
{
    if s.len() > 0 {
        lemma_remove_name_removes(s.drop_last(), n);
        let rest = remove_name(s.drop_last(), n);
        assert forall|i: int|
            0 <= i < remove_name(s, n).len() implies !name_matches(
            remove_name(s, n)[i].0,
            n,
        ) by {
            if i < rest.len() {
                assert(remove_name(s, n)[i] == rest[i]);
            }
        }
    }
}

/// Every entry of `remove_name(s, n)` is an entry of `s`: removal never
/// invents or alters a header.
pub proof fn lemma_remove_name_entries_from(s: Seq<(Seq<char>, Seq<char>)>, n: Seq<char>)
    ensures
        forall|i: int|
            0 <= i < remove_name(s, n).len() ==> s.contains(#[trigger] remove_name(s, n)[i]),
    decreases s.len(),
{
    if s.len() > 0 {
        lemma_remove_name_entries_from(s.drop_last(), n);
        assert forall|i: int|
            0 <= i < remove_name(s, n).len() implies s.contains(
            #[trigger] remove_name(s, n)[i],
        ) by {
            let rest = remove_name(s.drop_last(), n);
            if i < rest.len() {
                let j = choose|j: int| 0 <= j < s.drop_last().len() && s.drop_last()[j] == rest[i];
                assert(s[j] == rest[i]);
            } else {
                assert(s[s.len() - 1] == remove_name(s, n)[i]);
            }
        }
    }
}

/// Holds of a header entry whose name does not match `n` (ASCII case
/// folded): the entries that removal keeps.
pub open spec fn name_differs(n: Seq<char>) -> spec_fn((Seq<char>, Seq<char>)) -> bool {
    |e: (Seq<char>, Seq<char>)| !name_matches(e.0, n)
}

/// Removal drops nothing else: it keeps exactly the entries whose name
/// does not match `n`, in their original order.
pub proof fn lemma_remove_name_is_filter(s: Seq<(Seq<char>, Seq<char>)>, n: Seq<char>)
    ensures
        remove_name(s, n) == s.filter(name_differs(n)),
    decreases s.len(),
{
    reveal(Seq::filter);
    if s.len() == 0 {
        assert(remove_name(s, n) =~= s.filter(name_differs(n)));
    } else {
        lemma_remove_name_is_filter(s.drop_last(), n);
    }
}

/// Returns `headers` without the entries named `name`, matched with ASCII
/// case folding; everything else is kept in order.
pub fn remove_header(headers: &Vec<Header>, name: &str) -> (r: Vec<Header>)
    ensures
        hviews(r@) == remove_name(hviews(headers@), name@),
{
    let mut out: Vec<Header> = Vec::new();
    let mut i: usize = 0;
    while i < headers.len()
        invariant
            i <= headers@.len(),
            hviews(out@) == remove_name(hviews(headers@).take(i as int), name@),
        decreases headers@.len() - i,
    {
        proof {
            assert(hviews(headers@).take(i + 1).drop_last() =~= hviews(headers@).take(i as int));
            assert(hviews(headers@).take(i + 1).last() == headers@[i as int]@);
        }
        let ghost prev = hviews(out@);
        let h = &headers[i];
        if !eq_ignore_case(h.name.as_str(), name) {
            out.push(Header { name: h.name.clone(), value: h.value.clone() });
            proof {
                assert(hviews(out@) =~= prev.push(headers@[i as int]@));
            }
        }
        i = i + 1;
    }
    proof {
        assert(hviews(headers@).take(headers@.len() as int) =~= hviews(headers@));
    }
    out
}

} // verus!
