//! The account's recent search queries.

use vstd::prelude::*;
use crate::text::{string_views, chars_of, eq_ignore_ascii_case, eq_ignore_case, trim, trimmed, string_of};

verus! {

/// How many recent queries are kept.
pub const MAX_QUERIES: usize = 20;

#[derive(Debug, Clone)]
pub struct SearchHistory {
    pub values: Vec<String>,
}

impl Default for SearchHistory {
    fn default() -> (r: Self)
        ensures
            r.values@.len() == 0,
    {
        SearchHistory { values: Vec::new() }
    }
}

/// The values that do not equal `query`, ignoring ASCII case, in order.
pub open spec fn without_query(values: Seq<Seq<char>>, query: Seq<char>) -> Seq<Seq<char>>
    decreases values.len(),
{
    if values.len() == 0 {
        seq![]
    } else {
        let init = without_query(values.drop_last(), query);
        if eq_ignore_case(values.last(), query) {
            init
        } else {
            init.push(values.last())
        }
    }
}

/// The list after `query` was searched for: the query first, then the
/// earlier queries that differ from it (ignoring ASCII case), capped at
/// [`MAX_QUERIES`].
pub open spec fn with_query_spec(values: Seq<Seq<char>>, query: Seq<char>) -> Seq<Seq<char>> {
    let all = seq![query] + without_query(values, query);
    if all.len() > MAX_QUERIES {
        all.subrange(0, MAX_QUERIES as int)
    } else {
        all
    }
}

proof fn lemma_without_query(values: Seq<Seq<char>>, query: Seq<char>)
    ensures
        without_query(values, query).len() <= values.len(),
        forall|i: int|
            0 <= i < without_query(values, query).len() ==> !eq_ignore_case(
                #[trigger] without_query(values, query)[i],
                query,
            ),
    decreases values.len(),
{
    if values.len() > 0 {
        lemma_without_query(values.drop_last(), query);
    }
}

/// The recent queries after `query` was searched for; see [`with_query_spec`].
/// The query leads the list, appears in it once (ignoring ASCII case), and
/// the list never grows past [`MAX_QUERIES`].
pub fn with_query(values: Vec<String>, query: &str) -> (r: Vec<String>)
    ensures
        string_views(r@) == with_query_spec(string_views(values@), query@),
        r@.len() <= MAX_QUERIES,
        r@.len() > 0 && r@[0]@ == query@,
        forall|i: int| 1 <= i < r@.len() ==> !eq_ignore_case(#[trigger] r@[i]@, query@),
{
    let q = chars_of(query);
    let mut kept: Vec<String> = Vec::new();
    kept.push(string_of(q.as_slice()));
    let mut i: usize = 0;
    while i < values.len()
        invariant
            i <= values.len(),
            q@ == query@,
            string_views(kept@) =~= seq![query@] + without_query(
                string_views(values@).subrange(0, i as int),
                query@,
            ),
        decreases values.len() - i,
    {
        let v = chars_of(values[i].as_str());
        assert(string_views(values@).subrange(0, i + 1).last() == values@[i as int]@);
        assert(string_views(values@).subrange(0, i + 1).drop_last() =~= string_views(
            values@,
        ).subrange(0, i as int));
        if !eq_ignore_ascii_case(&v, &q) {
            let ghost before = kept@;
            kept.push(values[i].clone());
            assert(string_views(kept@) =~= string_views(before).push(values@[i as int]@));
        }
        i += 1;
        assert(string_views(kept@) =~= seq![query@] + without_query(
            string_views(values@).subrange(0, i as int),
            query@,
        ));
    }
    assert(string_views(values@).subrange(0, values@.len() as int) =~= string_views(values@));
    kept.truncate(MAX_QUERIES);
    proof {
        lemma_without_query(string_views(values@), query@);
        let all = seq![query@] + without_query(string_views(values@), query@);
        assert(string_views(kept@) =~= with_query_spec(string_views(values@), query@));
        assert forall|i: int| 1 <= i < kept@.len() implies !eq_ignore_case(
            #[trigger] kept@[i]@,
            query@,
        ) by {
            assert(kept@[i]@ == string_views(kept@)[i]);
            assert(string_views(kept@)[i] == all[i]);
            assert(all[i] == without_query(string_views(values@), query@)[i - 1]);
        }
        assert(kept@[0]@ == string_views(kept@)[0]);
    }
    kept
}

impl SearchHistory {
    /// The history held in a stored file, or an empty one when there is none.
    pub fn load(stored: Option<SearchHistory>) -> (r: SearchHistory)
        ensures
            stored matches Some(h) ==> r == h,
            stored is None ==> r.values@.len() == 0,
    {
        match stored {
            Some(h) => h,
            None => SearchHistory::default(),
        }
    }

    /// The history after a search for `query`, to be stored, or `None` when
    /// the query is blank and nothing changes.
    pub fn add_for(&self, query: &str) -> (r: Option<SearchHistory>)
        ensures
            trimmed(query@).len() == 0 ==> r is None,
            trimmed(query@).len() > 0 ==> (r matches Some(h) && string_views(h.values@)
                == with_query_spec(string_views(self.values@), trimmed(query@))),
    {
        let q = trim(&chars_of(query));
        if q.len() == 0 {
            return None;
        }
        let qs = string_of(q.as_slice());
        let values = with_query(self.values.clone(), qs.as_str());
        Some(SearchHistory { values })
    }

    /// The history after it was cleared.
    pub fn clear_for() -> (r: SearchHistory)
        ensures
            r.values@.len() == 0,
    {
        SearchHistory::default()
    }
}


proof fn lemma_without_query_concat(a: Seq<Seq<char>>, b: Seq<Seq<char>>, query: Seq<char>)
    ensures
        without_query(a + b, query) == without_query(a, query) + without_query(b, query),
    decreases b.len(),
{
    if b.len() == 0 {
        assert(a + b =~= a);
        assert(without_query(a, query) + without_query(b, query) =~= without_query(a, query));
    } else {
        assert((a + b).drop_last() =~= a + b.drop_last());
        assert((a + b).last() == b.last());
        lemma_without_query_concat(a, b.drop_last(), query);
        if eq_ignore_case(b.last(), query) {
        } else {
            assert(without_query(a, query) + without_query(b, query) =~= (without_query(a, query)
                + without_query(b.drop_last(), query)).push(b.last()));
        }
    }
}

proof fn lemma_without_query_keeps(values: Seq<Seq<char>>, query: Seq<char>)
    requires
        forall|i: int| 0 <= i < values.len() ==> !eq_ignore_case(#[trigger] values[i], query),
    ensures
        without_query(values, query) == values,
    decreases values.len(),
{
    if values.len() > 0 {
        lemma_without_query_keeps(values.drop_last(), query);
        assert(values.drop_last().push(values.last()) =~= values);
    }
}

/// Searching for the same query again leaves the recent queries as they
/// are: it already leads the list and is listed once.
pub proof fn law_repeated_query_changes_nothing(values: Seq<Seq<char>>, query: Seq<char>)
    ensures
        with_query_spec(with_query_spec(values, query), query) == with_query_spec(values, query),
{
    lemma_without_query(values, query);
    let w = with_query_spec(values, query);
    let x = w.drop_first();
    assert(w =~= seq![query] + x);
    assert forall|i: int| 0 <= i < x.len() implies !eq_ignore_case(#[trigger] x[i], query) by {
        assert(x[i] == (seq![query] + without_query(values, query))[i + 1]);
        assert(x[i] == without_query(values, query)[i]);
    }
    lemma_without_query_concat(seq![query], x, query);
    lemma_without_query_keeps(x, query);
    assert(seq![query].drop_last() =~= Seq::<Seq<char>>::empty());
    assert(seq![query].last() == query);
    assert(eq_ignore_case(query, query));
    assert(without_query(Seq::<Seq<char>>::empty(), query) =~= Seq::<Seq<char>>::empty());
    assert(without_query(seq![query], query) =~= Seq::<Seq<char>>::empty());
    assert(without_query(w, query) =~= x);
    assert(seq![query] + without_query(w, query) =~= w);
}

} // verus!
