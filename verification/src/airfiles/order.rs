use vstd::prelude::*;
use vstd::string::*;
use std::cmp::Ordering;
use crate::airfiles::fs::FsEntry;
use crate::airfiles::panel::{
    SortOrder, entry_order, is_stable_sort, number_order, size_key, text_from, text_order,
    lemma_text_order_end, lemma_text_order_first, lemma_text_order_step,
};

verus! {

/// The number an `Ordering` stands for: -1, 0 or 1.
pub open spec fn ordering_number(o: Ordering) -> int {
    match o {
        Ordering::Less => -1,
        Ordering::Equal => 0,
        Ordering::Greater => 1,
    }
}

/// Compares two texts character by character.
fn compare_text(a: &str, b: &str) -> (o: Ordering)
    ensures
        ordering_number(o) == text_order(a@, b@),
{
    let la = a.unicode_len();
    let lb = b.unicode_len();
    let mut i: usize = 0;
    proof {
        if la > 0 && lb > 0 {
            lemma_text_order_first(a@, b@, 0);
        } else {
            lemma_text_order_end(a@, b@, 0);
        }
    }
    while i < la && i < lb
        invariant
            la == a@.len(),
            lb == b@.len(),
            i <= la,
            i <= lb,
            text_order(a@, b@) == text_order(text_from(a@, i), text_from(b@, i)),
        decreases la - i,
    {
        let ca = a.get_char(i);
        let cb = b.get_char(i);
        proof {
            lemma_text_order_first(a@, b@, i);
        }
        if ca < cb {
            return Ordering::Less;
        }
        if ca > cb {
            return Ordering::Greater;
        }
        proof {
            lemma_text_order_step(a@, b@, i);
        }
        i = i + 1;
    }
    proof {
        lemma_text_order_end(a@, b@, i);
    }
    if la < lb {
        Ordering::Less
    } else if la > lb {
        Ordering::Greater
    } else {
        Ordering::Equal
    }
}

fn compare_numbers(a: u64, b: u64) -> (o: Ordering)
    ensures
        ordering_number(o) == number_order(a, b),
{
    if a < b {
        Ordering::Less
    } else if a > b {
        Ordering::Greater
    } else {
        Ordering::Equal
    }
}

fn size_of_entry(e: &FsEntry) -> (s: u64)
    ensures
        s == size_key(*e),
{
    match e.meta.size_bytes {
        Some(s) => s,
        None => 0,
    }
}

/// Where `a` goes relative to `b` under `order`.
pub fn compare_entries(order: SortOrder, a: &FsEntry, b: &FsEntry) -> (o: Ordering)
    ensures
        ordering_number(o) == entry_order(order, *a, *b),
{
    match order {
        SortOrder::NameAsc => compare_text(a.name.as_str(), b.name.as_str()),
        SortOrder::NameDesc => compare_text(b.name.as_str(), a.name.as_str()),
        SortOrder::SizeAsc => compare_numbers(size_of_entry(a), size_of_entry(b)),
        SortOrder::SizeDesc => compare_numbers(size_of_entry(b), size_of_entry(a)),
    }
}

/// Sorts with the standard library's stable `sort_by`, comparing with
/// `compare_entries` (a total order). Trusted to leave the entries sorted in
/// `order`, in a permutation that keeps equal entries in their old relative
/// order; `sort_by`'s documentation promises this of a total order.
#[verifier::external_body]
pub(crate) fn sort_stable(entries: &mut Vec<FsEntry>, order: SortOrder)
    ensures
        is_stable_sort(order, old(entries)@, final(entries)@),
{
    entries.sort_by(|a, b| compare_entries(order, a, b));
}

} // verus!
