//! The filter/sort engine. Given a catalog and a free-text term it keeps the
//! entries whose display name contains the term, case folded, and orders them
//! by the position of the first occurrence, ties broken by the folded name;
//! entries that agree on both keys keep their relative order.

use vstd::prelude::*;

use crate::entry::{copy_entry, views, FileData, FileView};
use crate::text::{
    find_match, has_match, lemma_lex_le_refl, lemma_lex_le_total, lemma_lex_le_trans, lex_le,
    lex_le_x, lower, match_pos, to_lower_chars,
};

verus! {

// ---------------------------------------------------------------------------
// The specification: which entries stay and in what order
// ---------------------------------------------------------------------------
/// An entry matches a term when the folded term occurs in its folded name;
/// the empty term matches everything.
pub open spec fn entry_matches(e: FileView, term: Seq<char>) -> bool {
    has_match(lower(e.shortname), lower(term))
}

/// The matching entries, in catalog order.
pub open spec fn matching(entries: Seq<FileView>, term: Seq<char>) -> Seq<FileView> {
    entries.filter(|e: FileView| entry_matches(e, term))
}

/// Sort order of the filtered view: an earlier first occurrence of the folded
/// term comes first; at equal positions the folded names decide
/// lexicographically. A name without an occurrence takes its length as
/// position, which places it after every match.
pub open spec fn key_le(a: FileView, b: FileView, term: Seq<char>) -> bool {
    let pa = match_pos(lower(a.shortname), lower(term));
    let pb = match_pos(lower(b.shortname), lower(term));
    pa < pb || (pa == pb && lex_le(lower(a.shortname), lower(b.shortname)))
}

/// `e` placed into `s` after every element at or before it in the order, so
/// that an insertion sort built from this is stable.
pub open spec fn insert_sorted(s: Seq<FileView>, e: FileView, term: Seq<char>) -> Seq<FileView>
    decreases s.len(),
{
    if s.len() == 0 {
        seq![e]
    } else if key_le(s.last(), e, term) {
        s.push(e)
    } else {
        insert_sorted(s.drop_last(), e, term).push(s.last())
    }
}

/// Stable insertion sort of `s` under the match-position order.
pub open spec fn sort_by_key(s: Seq<FileView>, term: Seq<char>) -> Seq<FileView>
    decreases s.len(),
{
    if s.len() == 0 {
        s
    } else {
        insert_sorted(sort_by_key(s.drop_last(), term), s.last(), term)
    }
}

/// The whole engine: keep the matching entries, then order them.
pub open spec fn filter_sorted(entries: Seq<FileView>, term: Seq<char>) -> Seq<FileView> {
    sort_by_key(matching(entries, term), term)
}

/// Every pair of the sequence respects the order.
pub open spec fn sorted_by(s: Seq<FileView>, term: Seq<char>) -> bool {
    forall|i: int, j: int| 0 <= i < j < s.len() ==> key_le(s[i], s[j], term)
}

// ---------------------------------------------------------------------------
// The order is a total preorder
// ---------------------------------------------------------------------------
pub proof fn lemma_key_le_refl(a: FileView, term: Seq<char>)
    ensures
        key_le(a, a, term),
{
    lemma_lex_le_refl(lower(a.shortname));
}

pub proof fn lemma_key_le_total(a: FileView, b: FileView, term: Seq<char>)
    ensures
        key_le(a, b, term) || key_le(b, a, term),
{
    lemma_lex_le_total(lower(a.shortname), lower(b.shortname));
}

pub proof fn lemma_key_le_trans(a: FileView, b: FileView, c: FileView, term: Seq<char>)
    requires
        key_le(a, b, term),
        key_le(b, c, term),
    ensures
        key_le(a, c, term),
{
    if lex_le(lower(a.shortname), lower(b.shortname)) && lex_le(
        lower(b.shortname),
        lower(c.shortname),
    ) {
        lemma_lex_le_trans(lower(a.shortname), lower(b.shortname), lower(c.shortname));
    }
}

// ---------------------------------------------------------------------------
// What insertion does to contents and order
// ---------------------------------------------------------------------------
/// Every element of `insert_sorted(s, e, term)` is `e` or one of `s`.
proof fn lemma_insert_sorted_elems(s: Seq<FileView>, e: FileView, term: Seq<char>)
    ensures
        insert_sorted(s, e, term).len() == s.len() + 1,
        forall|i: int|
            0 <= i < insert_sorted(s, e, term).len() ==> (insert_sorted(s, e, term)[i] == e
                || s.contains(#[trigger] insert_sorted(s, e, term)[i])),
    decreases s.len(),
{
    let out = insert_sorted(s, e, term);
    if s.len() == 0 {
    } else if key_le(s.last(), e, term) {
    } else {
        lemma_insert_sorted_elems(s.drop_last(), e, term);
        let sub = insert_sorted(s.drop_last(), e, term);
        assert forall|i: int| 0 <= i < out.len() implies (out[i] == e || s.contains(
            #[trigger] out[i],
        )) by {
            if i < sub.len() {
                assert(out[i] == sub[i]);
                if sub[i] != e {
                    let k = choose|k: int|
                        0 <= k < s.drop_last().len() && s.drop_last()[k] == sub[i];
                    assert(s[k] == sub[i]);
                }
            } else {
                assert(out[i] == s[s.len() - 1]);
            }
        }
    }
}

/// Inserting into a sorted sequence keeps it sorted.
proof fn lemma_insert_sorted_sorted(s: Seq<FileView>, e: FileView, term: Seq<char>)
    requires
        sorted_by(s, term),
    ensures
        sorted_by(insert_sorted(s, e, term), term),
    decreases s.len(),
{
    let out = insert_sorted(s, e, term);
    if s.len() == 0 {
    } else if key_le(s.last(), e, term) {
        assert forall|i: int, j: int| 0 <= i < j < out.len() implies key_le(
            out[i],
            out[j],
            term,
        ) by {
            if j == out.len() - 1 && i < s.len() - 1 {
                lemma_key_le_trans(s[i], s[s.len() - 1], e, term);
            }
        }
    } else {
        assert(sorted_by(s.drop_last(), term)) by {
            assert(forall|i: int, j: int|
                0 <= i < j < s.drop_last().len() ==> key_le(
                    #[trigger] s.drop_last()[i],
                    #[trigger] s.drop_last()[j],
                    term,
                ));
        }
        lemma_insert_sorted_sorted(s.drop_last(), e, term);
        lemma_insert_sorted_elems(s.drop_last(), e, term);
        let sub = insert_sorted(s.drop_last(), e, term);
        lemma_key_le_total(s.last(), e, term);
        assert forall|i: int, j: int| 0 <= i < j < out.len() implies key_le(
            out[i],
            out[j],
            term,
        ) by {
            if j < sub.len() {
                assert(key_le(sub[i], sub[j], term));
            } else {
                assert(out[j] == s.last());
                assert(out[i] == sub[i]);
                if sub[i] == e {
                    assert(key_le(e, s.last(), term));
                } else {
                    let k = choose|k: int|
                        0 <= k < s.drop_last().len() && s.drop_last()[k] == sub[i];
                    assert(s[k] == sub[i]);
                    if k < s.len() - 1 {
                        assert(key_le(s[k], s[s.len() - 1], term));
                    } else {
                        lemma_key_le_refl(s.last(), term);
                    }
                }
            }
        }
    }
}

/// The sort returns a sorted sequence whose elements come from its input.
pub proof fn lemma_sort_by_key_sorted(s: Seq<FileView>, term: Seq<char>)
    ensures
        sorted_by(sort_by_key(s, term), term),
        sort_by_key(s, term).len() == s.len(),
        forall|i: int|
            0 <= i < sort_by_key(s, term).len() ==> s.contains(#[trigger] sort_by_key(s, term)[i]),
    decreases s.len(),
{
    let out = sort_by_key(s, term);
    if s.len() == 0 {
    } else {
        lemma_sort_by_key_sorted(s.drop_last(), term);
        let sub = sort_by_key(s.drop_last(), term);
        lemma_insert_sorted_sorted(sub, s.last(), term);
        lemma_insert_sorted_elems(sub, s.last(), term);
        assert forall|i: int| 0 <= i < out.len() implies s.contains(#[trigger] out[i]) by {
            if out[i] == s.last() {
                assert(s[s.len() - 1] == s.last());
            } else {
                assert(sub.contains(out[i]));
                let k = choose|k: int| 0 <= k < sub.len() && sub[k] == out[i];
                let m = choose|m: int|
                    0 <= m < s.drop_last().len() && s.drop_last()[m] == sub[k];
                assert(s[m] == out[i]);
            }
        }
    }
}

/// Where the scan of a sorted sequence stops is where the specification
/// inserts.
proof fn lemma_insert_sorted_at(s: Seq<FileView>, e: FileView, term: Seq<char>, p: int)
    requires
        0 <= p <= s.len(),
        forall|j: int| 0 <= j < p ==> key_le(#[trigger] s[j], e, term),
        forall|j: int| p <= j < s.len() ==> !key_le(#[trigger] s[j], e, term),
    ensures
        insert_sorted(s, e, term) == s.insert(p, e),
    decreases s.len(),
{
    if s.len() == 0 {
        assert(insert_sorted(s, e, term) =~= s.insert(0, e));
    } else if p == s.len() {
        assert(key_le(s[s.len() - 1], e, term));
        assert(insert_sorted(s, e, term) =~= s.insert(p, e));
    } else {
        assert(!key_le(s[s.len() - 1], e, term));
        assert forall|j: int| 0 <= j < p implies key_le(#[trigger] s.drop_last()[j], e, term) by {
            assert(s.drop_last()[j] == s[j]);
        }
        assert forall|j: int| p <= j < s.drop_last().len() implies !key_le(
            #[trigger] s.drop_last()[j],
            e,
            term,
        ) by {
            assert(s.drop_last()[j] == s[j]);
        }
        lemma_insert_sorted_at(s.drop_last(), e, term, p);
        assert(insert_sorted(s, e, term) =~= s.insert(p, e));
    }
}

// ---------------------------------------------------------------------------
// Laws of the engine
// ---------------------------------------------------------------------------
/// Filtering a sequence whose every element passes the predicate returns it
/// unchanged.
proof fn lemma_filter_all(s: Seq<FileView>, pred: spec_fn(FileView) -> bool)
    requires
        forall|i: int| 0 <= i < s.len() ==> pred(#[trigger] s[i]),
    ensures
        s.filter(pred) == s,
    decreases s.len(),
{
    reveal(Seq::filter);
    if s.len() > 0 {
        assert forall|i: int| 0 <= i < s.drop_last().len() implies pred(
            #[trigger] s.drop_last()[i],
        ) by {
            assert(s.drop_last()[i] == s[i]);
        }
        lemma_filter_all(s.drop_last(), pred);
        assert(s.filter(pred) =~= s);
    }
}

/// Sorting an already sorted sequence returns it unchanged.
proof fn lemma_sort_of_sorted(s: Seq<FileView>, term: Seq<char>)
    requires
        sorted_by(s, term),
    ensures
        sort_by_key(s, term) == s,
    decreases s.len(),
{
    if s.len() > 0 {
        assert forall|i: int, j: int| 0 <= i < j < s.drop_last().len() implies key_le(
            #[trigger] s.drop_last()[i],
            #[trigger] s.drop_last()[j],
            term,
        ) by {
            assert(s.drop_last()[i] == s[i] && s.drop_last()[j] == s[j]);
        }
        lemma_sort_of_sorted(s.drop_last(), term);
        if s.len() == 1 {
            assert(sort_by_key(s, term) =~= s);
        } else {
            assert(key_le(s.drop_last().last(), s.last(), term));
            assert(sort_by_key(s, term) =~= s);
        }
    }
}

/// The filtered view is ordered: every pair respects the match-position
/// order.
pub proof fn lemma_filter_sorted_sorted(entries: Seq<FileView>, term: Seq<char>)
    ensures
        sorted_by(filter_sorted(entries, term), term),
{
    lemma_sort_by_key_sorted(matching(entries, term), term);
}

/// Every entry of the filtered view is an entry of the catalog it was
/// filtered from, and it matches the term.
pub proof fn lemma_filter_sorted_subset(entries: Seq<FileView>, term: Seq<char>)
    ensures
        forall|i: int|
            0 <= i < filter_sorted(entries, term).len() ==> entries.contains(
                #[trigger] filter_sorted(entries, term)[i],
            ),
        forall|i: int|
            0 <= i < filter_sorted(entries, term).len() ==> entry_matches(
                #[trigger] filter_sorted(entries, term)[i],
                term,
            ),
{
    let kept = matching(entries, term);
    let out = filter_sorted(entries, term);
    lemma_sort_by_key_sorted(kept, term);
    assert forall|i: int| 0 <= i < out.len() implies entries.contains(#[trigger] out[i])
        && entry_matches(out[i], term) by {
        assert(kept.contains(out[i]));
        let k = choose|k: int| 0 <= k < kept.len() && kept[k] == out[i];
        Seq::lemma_filter_pred(entries, |e: FileView| entry_matches(e, term), k);
        Seq::lemma_filter_contains_rev(entries, |e: FileView| entry_matches(e, term), out[i]);
    }
}

/// Filtering is idempotent: running the engine on its own output with the
/// same term changes nothing.
pub proof fn lemma_filter_sorted_idempotent(entries: Seq<FileView>, term: Seq<char>)
    ensures
        filter_sorted(filter_sorted(entries, term), term) == filter_sorted(entries, term),
{
    let out = filter_sorted(entries, term);
    lemma_filter_sorted_subset(entries, term);
    lemma_filter_all(out, |e: FileView| entry_matches(e, term));
    lemma_filter_sorted_sorted(entries, term);
    lemma_sort_of_sorted(out, term);
}

/// Stability: any class of mutually tied entries keeps its relative order
/// through the sort. Instantiating `cls` with "has this match position and
/// this folded name" says that entries equal under both sort keys come out
/// in catalog order.
pub proof fn lemma_sort_by_key_stable(s: Seq<FileView>, term: Seq<char>, cls: spec_fn(
    FileView,
) -> bool)
    requires
        forall|x: FileView, y: FileView| cls(x) && cls(y) ==> key_le(x, y, term),
    ensures
        sort_by_key(s, term).filter(cls) == s.filter(cls),
    decreases s.len(),
{
    reveal(Seq::filter);
    if s.len() > 0 {
        lemma_sort_by_key_stable(s.drop_last(), term, cls);
        lemma_insert_sorted_filter(sort_by_key(s.drop_last(), term), s.last(), term, cls);
    }
}

/// Stability of the whole engine: the entries of any tied class come out of
/// the filtered view in catalog order.
pub proof fn lemma_filter_sorted_stable(
    entries: Seq<FileView>,
    term: Seq<char>,
    cls: spec_fn(FileView) -> bool,
)
    requires
        forall|x: FileView, y: FileView| cls(x) && cls(y) ==> key_le(x, y, term),
    ensures
        filter_sorted(entries, term).filter(cls) == matching(entries, term).filter(cls),
{
    lemma_sort_by_key_stable(matching(entries, term), term, cls);
}

/// What inserting one entry does to the members of a tied class: a class
/// member goes to the end of its class, anything else leaves the class
/// subsequence alone.
proof fn lemma_insert_sorted_filter(
    s: Seq<FileView>,
    e: FileView,
    term: Seq<char>,
    cls: spec_fn(FileView) -> bool,
)
    requires
        forall|x: FileView, y: FileView| cls(x) && cls(y) ==> key_le(x, y, term),
    ensures
        insert_sorted(s, e, term).filter(cls) == if cls(e) {
            s.filter(cls).push(e)
        } else {
            s.filter(cls)
        },
    decreases s.len(),
{
    reveal(Seq::filter);
    if s.len() == 0 {
        assert(seq![e].drop_last() =~= s);
        assert(insert_sorted(s, e, term).filter(cls) == if cls(e) {
            s.filter(cls).push(e)
        } else {
            s.filter(cls)
        });
    } else if key_le(s.last(), e, term) {
        assert(s.push(e).drop_last() =~= s);
        assert(insert_sorted(s, e, term).filter(cls) == if cls(e) {
            s.filter(cls).push(e)
        } else {
            s.filter(cls)
        });
    } else {
        lemma_insert_sorted_filter(s.drop_last(), e, term, cls);
        let sub = insert_sorted(s.drop_last(), e, term);
        assert(sub.push(s.last()).drop_last() =~= sub);
        assert(insert_sorted(s, e, term).filter(cls) == if cls(s.last()) {
            sub.filter(cls).push(s.last())
        } else {
            sub.filter(cls)
        });
        assert(s.filter(cls) == if cls(s.last()) {
            s.drop_last().filter(cls).push(s.last())
        } else {
            s.drop_last().filter(cls)
        });
        if cls(e) {
            assert(!cls(s.last())) by {
                if cls(s.last()) {
                    assert(key_le(s.last(), e, term));
                }
            }
        }
    }
}

// ---------------------------------------------------------------------------
// The executable engine
// ---------------------------------------------------------------------------
/// Position of the first occurrence of the folded term in the folded name,
/// or the folded name's length when there is none.
fn entry_pos(a: &FileData, lt: &Vec<char>, Ghost(term): Ghost<Seq<char>>) -> (r: usize)
    requires
        lt@ == lower(term),
    ensures
        r == match_pos(lower(a@.shortname), lower(term)),
{
    let la = to_lower_chars(a.shortname.as_str());
    match find_match(&la, lt) {
        Some(p) => p,
        None => {
            proof {
                crate::text::lemma_match_pos_no_match(la@, lt@);
            }
            la.len()
        },
    }
}

/// Executable decision of the sort order between two entries.
fn entry_le(a: &FileData, b: &FileData, lt: &Vec<char>, Ghost(term): Ghost<Seq<char>>) -> (r:
    bool)
    requires
        lt@ == lower(term),
    ensures
        r == key_le(a@, b@, term),
{
    let pa = entry_pos(a, lt, Ghost(term));
    let pb = entry_pos(b, lt, Ghost(term));
    if pa < pb {
        true
    } else if pa == pb {
        let la = to_lower_chars(a.shortname.as_str());
        let lb = to_lower_chars(b.shortname.as_str());
        lex_le_x(&la, &lb)
    } else {
        false
    }
}

/// The filtered, ordered view of a catalog for one search term.
///
/// The result is exactly `filter_sorted` of the catalog: the entries whose
/// folded display name contains the folded term, ordered by first-occurrence
/// position and then folded name, stably. The input is never changed.
pub fn filter_file_data(files: &Vec<FileData>, search_term: &str) -> (out: Vec<FileData>)
    ensures
        views(out@) == filter_sorted(views(files@), search_term@),
{
    let ghost term: Seq<char> = search_term@;
    let lt = to_lower_chars(search_term);
    let mut out: Vec<FileData> = Vec::new();
    proof {
        assert(views(files@.take(0)) =~= Seq::<FileView>::empty());
        assert(matching(views(files@.take(0)), term) =~= Seq::<FileView>::empty()) by {
            reveal(Seq::filter);
        }
    }
    let n = files.len();
    for i in 0..n
        invariant
            n == files.len(),
            lt@ == lower(term),
            term == search_term@,
            views(out@) == sort_by_key(matching(views(files@.take(i as int)), term), term),
        decreases n - i,
    {
        let f = &files[i];
        let low = to_lower_chars(f.shortname.as_str());
        let ghost pre = matching(views(files@.take(i as int)), term);
        proof {
            assert(views(files@.take(i + 1)) =~= views(files@.take(i as int)).push(f@));
            assert(views(files@.take(i + 1)).drop_last() =~= views(files@.take(i as int)));
            reveal(Seq::filter);
        }
        if find_match(&low, &lt).is_some() {
            proof {
                assert(entry_matches(f@, term));
                assert(matching(views(files@.take(i + 1)), term) =~= pre.push(f@));
                lemma_sort_by_key_sorted(pre, term);
            }
            let mut p: usize = 0;
            while p < out.len() && entry_le(&out[p], f, &lt, Ghost(term))
                invariant
                    lt@ == lower(term),
                    p <= out.len(),
                    views(out@) == sort_by_key(pre, term),
                    forall|j: int| 0 <= j < p ==> key_le(#[trigger] views(out@)[j], f@, term),
                decreases out.len() - p,
            {
                p = p + 1;
            }
            proof {
                lemma_sort_by_key_sorted(pre, term);
                assert forall|j: int| p <= j < views(out@).len() implies !key_le(
                    #[trigger] views(out@)[j],
                    f@,
                    term,
                ) by {
                    if j > p {
                        if key_le(views(out@)[j], f@, term) {
                            lemma_key_le_trans(views(out@)[p as int], views(out@)[j], f@, term);
                        }
                    }
                }
                lemma_insert_sorted_at(views(out@), f@, term, p as int);
            }
            let cp = copy_entry(f);
            out.insert(p, cp);
            proof {
                assert(views(out@) =~= sort_by_key(pre, term).insert(p as int, f@));
                assert(sort_by_key(pre.push(f@), term) == insert_sorted(sort_by_key(pre, term),
                    f@, term)) by {
                    assert(pre.push(f@).drop_last() =~= pre);
                }
            }
        } else {
            proof {
                assert(!entry_matches(f@, term));
                assert(matching(views(files@.take(i + 1)), term) =~= pre);
            }
        }
    }
    proof {
        assert(files@.take(n as int) =~= files@);
    }
    out
}

} // verus!
