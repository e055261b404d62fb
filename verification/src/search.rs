//! Searching the concept list: a concept matches a query when one of its
//! texts contains the query, ignoring case.
use vstd::prelude::*;
use vstd::string::StrSliceExecFns;
use crate::concept_model::concepts_view;
use crate::concepts::{Concept, ConceptView};
use crate::text::{str_equal, trim, trimmed};

verus! {

/// What `str::to_lowercase` makes of a text: its Unicode lower-case
/// mapping.
pub uninterp spec fn lowercase_of(text: Seq<char>) -> Seq<char>;

/// A text in lower case (`str::to_lowercase`).
///
/// Trusted: the result is the lower-case mapping of the text, named by
/// [`lowercase_of`]; nothing more is stated of the mapping.
#[verifier::external_body]
fn lowercase(text: &str) -> (res: String)
    ensures
        res@ == lowercase_of(text@),
{
    text.to_lowercase()
}

/// Whether `needle` occurs in `hay` as a run of characters.
pub open spec fn has_infix(hay: Seq<char>, needle: Seq<char>) -> bool {
    exists|i: int| 0 <= i <= hay.len() - needle.len() && #[trigger] hay.subrange(i, i + needle.len()) == needle
}

/// Whether a text occurs in another.
pub fn contains_text(hay: &str, needle: &str) -> (res: bool)
    ensures
        res == has_infix(hay@, needle@),
{
    let n: usize = hay.unicode_len();
    let m: usize = needle.unicode_len();
    if m > n {
        assert(!has_infix(hay@, needle@)) by {
            if has_infix(hay@, needle@) {
                let i = choose|i: int| 0 <= i <= hay@.len() - needle@.len() && #[trigger] hay@.subrange(i, i + needle@.len())
                    == needle@;
            }
        }
        return false;
    }
    let last: usize = n - m;
    let mut i: usize = 0;
    loop
        invariant
            n == hay@.len(),
            m == needle@.len(),
            last == n - m,
            i <= last,
            forall|k: int| 0 <= k < i ==> #[trigger] hay@.subrange(k, k + m) != needle@,
        decreases last - i,
    {
        let part = hay.substring_char(i, i + m);
        if str_equal(part, needle) {
            assert(hay@.subrange(i as int, i + m) == needle@);
            return true;
        }
        if i == last {
            assert(!has_infix(hay@, needle@)) by {
                if has_infix(hay@, needle@) {
                    let k = choose|k: int| 0 <= k <= hay@.len() - needle@.len() && #[trigger] hay@.subrange(
                        k,
                        k + needle@.len(),
                    ) == needle@;
                    if k < i {
                        assert(hay@.subrange(k, k + m) != needle@);
                    }
                }
            }
            return false;
        }
        i += 1;
    }
}

/// Whether an optional text contains the query, ignoring case.
pub open spec fn opt_matches(t: Option<Seq<char>>, q: Seq<char>) -> bool {
    match t {
        Some(s) => has_infix(lowercase_of(s), q),
        None => false,
    }
}

/// Whether a concept matches a lower-case query: its preferred term,
/// definition, accepted term, source, legal source or identifier contains
/// it, ignoring case.
pub open spec fn concept_matches(c: ConceptView, q: Seq<char>) -> bool {
    ||| has_infix(lowercase_of(c.preferred_term), q)
    ||| has_infix(lowercase_of(c.definition), q)
    ||| opt_matches(c.accepted_term, q)
    ||| opt_matches(c.source, q)
    ||| opt_matches(c.legal_source, q)
    ||| opt_matches(c.identifier, q)
}

/// The concepts that match a lower-case query.
pub open spec fn matching(q: Seq<char>) -> spec_fn(ConceptView) -> bool {
    |c: ConceptView| concept_matches(c, q)
}

/// The query as matched: trimmed, in lower case.
pub open spec fn normalized_query(query: Seq<char>) -> Seq<char> {
    lowercase_of(trimmed(query))
}

fn opt_contains(t: Option<&str>, q: &str) -> (res: bool)
    ensures
        res == opt_matches(crate::concepts::opt_str_view(t), q@),
{
    match t {
        Some(s) => {
            let low = lowercase(s);
            contains_text(low.as_str(), q)
        },
        None => false,
    }
}

fn matches_query(c: &Concept, q: &str) -> (res: bool)
    ensures
        res == concept_matches(c@, q@),
{
    let term = lowercase(c.preferred_term());
    if contains_text(term.as_str(), q) {
        return true;
    }
    let def = lowercase(c.definition());
    if contains_text(def.as_str(), q) {
        return true;
    }
    opt_contains(c.accepted_term(), q) || opt_contains(c.source(), q) || opt_contains(c.legal_source(), q)
        || opt_contains(c.identifier(), q)
}

/// The concepts shown for a search: all of them for a blank query, else
/// those that match it, in order.
pub fn filtered_concepts<'a>(concepts: &'a [Concept], query: &str) -> (res: Vec<&'a Concept>)
    ensures
        res@.map_values(|c: &Concept| c@) == if normalized_query(query@).len() == 0 {
            concepts_view(concepts@)
        } else {
            concepts_view(concepts@).filter(matching(normalized_query(query@)))
        },
{
    let q = lowercase(trim(query));
    let ghost cs = concepts_view(concepts@);
    let ghost keep = if q@.len() == 0 { |c: ConceptView| true } else { matching(q@) };
    let all = q.unicode_len() == 0;
    let mut out: Vec<&Concept> = Vec::new();
    let mut i: usize = 0;
    while i < concepts.len()
        invariant
            cs == concepts_view(concepts@),
            all == (q@.len() == 0),
            keep == if q@.len() == 0 { |c: ConceptView| true } else { matching(q@) },
            i <= concepts@.len(),
            out@.map_values(|c: &Concept| c@) == cs.take(i as int).filter(keep),
        decreases concepts@.len() - i,
    {
        proof {
            crate::seqs::lemma_filter_step(cs, keep, i as int);
        }
        let c = &concepts[i];
        assert(c@ == cs[i as int]);
        let ghost before = out@.map_values(|c: &Concept| c@);
        let take = all || matches_query(c, q.as_str());
        assert(take == keep(cs[i as int]));
        if take {
            out.push(c);
            assert(out@.map_values(|c: &Concept| c@) =~= before.push(c@));
        }
        i += 1;
    }
    assert(cs.take(cs.len() as int) =~= cs);
    proof {
        if q@.len() == 0 {
            lemma_filter_all(cs);
        }
    }
    out
}

/// A search with a non-blank query shows a concept exactly when its
/// preferred term, definition, accepted term, source, legal source or
/// identifier holds the trimmed query, ignoring case.
pub proof fn search_looks_in_every_field(cs: Seq<ConceptView>, query: Seq<char>, i: int)
    requires
        0 <= i < cs.len(),
        normalized_query(query).len() > 0,
    ensures
        ({
            let q = normalized_query(query);
            let c = cs[i];
            cs.filter(matching(q)).contains(c) <==> {
                ||| has_infix(lowercase_of(c.preferred_term), q)
                ||| has_infix(lowercase_of(c.definition), q)
                ||| (c.accepted_term matches Some(t) && has_infix(lowercase_of(t), q))
                ||| (c.source matches Some(t) && has_infix(lowercase_of(t), q))
                ||| (c.legal_source matches Some(t) && has_infix(lowercase_of(t), q))
                ||| (c.identifier matches Some(t) && has_infix(lowercase_of(t), q))
            }
        }),
{
    broadcast use vstd::seq_lib::group_filter_ensures;
    let q = normalized_query(query);
    let f = cs.filter(matching(q));
    if f.contains(cs[i]) {
        let k = choose|k: int| 0 <= k < f.len() && f[k] == cs[i];
        assert(matching(q)(f[k]));
    }
    if concept_matches(cs[i], q) {
        assert(matching(q)(cs[i]));
        cs.lemma_filter_contains(matching(q), i);
    }
}

proof fn lemma_filter_all(s: Seq<ConceptView>)
    ensures
        s.filter(|c: ConceptView| true) == s,
    decreases s.len(),
{
    reveal_with_fuel(Seq::filter, 1);
    if s.len() > 0 {
        lemma_filter_all(s.drop_last());
        assert(s.drop_last().push(s.last()) =~= s);
    } else {
        assert(s.filter(|c: ConceptView| true) =~= s);
    }
}

} // verus!
