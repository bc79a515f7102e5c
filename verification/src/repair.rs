//! Repair of an already-stored batch: records with missing display fields
//! are dropped, and records that repeat an earlier record's title and
//! company — compared with all whitespace removed — are flagged as
//! duplicates, keeping each listing's first occurrence. The store itself
//! lives outside this library; whichever sink holds the batch reads the
//! flags and deletes the marked records.

use vstd::prelude::*;

use crate::strutil::strip_spaces;
use crate::strutil::strip_spaces_of;

verus! {

/// The title and company of one stored record, absent where the record
/// has none.
pub open spec fn entry_views(entries: Seq<(Option<String>, Option<String>)>) -> Seq<
    (Option<Seq<char>>, Option<Seq<char>>),
> {
    entries.map_values(
        |e: (Option<String>, Option<String>)|
            (
                match e.0 {
                    Some(t) => Some(t@),
                    None => None::<Seq<char>>,
                },
                match e.1 {
                    Some(c) => Some(c@),
                    None => None::<Seq<char>>,
                },
            ),
    )
}

/// Whether two entries carry the same listing: both have a title and a
/// company, and both pairs agree once every whitespace character is
/// removed.
pub open spec fn same_listing(
    a: (Option<Seq<char>>, Option<Seq<char>>),
    b: (Option<Seq<char>>, Option<Seq<char>>),
) -> bool {
    &&& a.0 is Some
    &&& a.1 is Some
    &&& b.0 is Some
    &&& b.1 is Some
    &&& strip_spaces_of(a.0->0) == strip_spaces_of(b.0->0)
    &&& strip_spaces_of(a.1->0) == strip_spaces_of(b.1->0)
}

/// Whether the `i`-th record is to be removed: it lacks a title or a
/// company, or some earlier record carries the same listing.
pub open spec fn entry_removed(
    entries: Seq<(Option<Seq<char>>, Option<Seq<char>>)>,
    i: int,
) -> bool
    recommends
        0 <= i < entries.len(),
{
    ||| entries[i].0 is None
    ||| entries[i].1 is None
    ||| exists|j: int| 0 <= j < i && same_listing(#[trigger] entries[j], entries[i])
}

fn chars_eq(a: &Vec<char>, b: &Vec<char>) -> (r: bool)
    ensures
        r == (a@ == b@),
{
    if a.len() != b.len() {
        proof {
            assert(a@.len() != b@.len());
        }
        return false;
    }
    let mut i: usize = 0;
    while i < a.len()
        invariant
            i <= a@.len(),
            a@.len() == b@.len(),
            forall|j: int| 0 <= j < i ==> a@[j] == b@[j],
        decreases a@.len() - i,
    {
        if a[i] != b[i] {
            return false;
        }
        i += 1;
    }
    proof {
        assert(a@ =~= b@);
    }
    true
}

/// One record's comparison key, precomputed: its title and company with
/// all whitespace removed, or nothing where a field is missing.
fn entry_key(entry: &(Option<String>, Option<String>)) -> (r: Option<(Vec<char>, Vec<char>)>)
    ensures
        r is Some <==> (entry.0 is Some && entry.1 is Some),
        r matches Some(key) ==> key.0@ == strip_spaces_of(entry.0->0@) && key.1@
            == strip_spaces_of(entry.1->0@),
{
    match (&entry.0, &entry.1) {
        (Some(title), Some(company)) => Some(
            (strip_spaces(title.as_str()), strip_spaces(company.as_str())),
        ),
        _ => None,
    }
}

/// Flags each record of a stored batch for removal: `true` where the
/// record lacks a title or a company, and `true` where an earlier record
/// already carries the same whitespace-stripped title and company. Every
/// listing's first complete occurrence is kept.
pub fn removal_flags(entries: &Vec<(Option<String>, Option<String>)>) -> (r: Vec<bool>)
    ensures
        r@.len() == entries@.len(),
        forall|i: int|
            0 <= i < r@.len() ==> r@[i] == entry_removed(entry_views(entries@), i),
{
    let ghost views = entry_views(entries@);
    let mut keys: Vec<Option<(Vec<char>, Vec<char>)>> = Vec::new();
    let mut i: usize = 0;
    while i < entries.len()
        invariant
            i <= entries@.len(),
            views == entry_views(entries@),
            keys@.len() == i,
            forall|j: int|
                0 <= j < i ==> ((#[trigger] keys@[j]) is Some <==> (views[j].0 is Some
                    && views[j].1 is Some)),
            forall|j: int|
                0 <= j < i ==> ((#[trigger] keys@[j]) matches Some(key) ==> key.0@ == strip_spaces_of(
                    views[j].0->0,
                ) && key.1@ == strip_spaces_of(views[j].1->0)),
        decreases entries@.len() - i,
    {
        let key = entry_key(&entries[i]);
        keys.push(key);
        i += 1;
    }
    let mut flags: Vec<bool> = Vec::new();
    let mut i: usize = 0;
    while i < entries.len()
        invariant
            i <= entries@.len(),
            views == entry_views(entries@),
            keys@.len() == entries@.len(),
            forall|j: int|
                0 <= j < keys@.len() ==> ((#[trigger] keys@[j]) is Some <==> (views[j].0 is Some
                    && views[j].1 is Some)),
            forall|j: int|
                0 <= j < keys@.len() ==> ((#[trigger] keys@[j]) matches Some(key) ==> key.0@ == strip_spaces_of(
                    views[j].0->0,
                ) && key.1@ == strip_spaces_of(views[j].1->0)),
            flags@.len() == i,
            forall|j: int| 0 <= j < i ==> flags@[j] == entry_removed(views, j),
        decreases entries@.len() - i,
    {
        let removed: bool = match &keys[i] {
            None => true,
            Some(key) => {
                let mut dup = false;
                let mut j: usize = 0;
                while j < i
                    invariant
                        j <= i,
                        i < keys@.len(),
                        views == entry_views(entries@),
                        keys@.len() == entries@.len(),
                        forall|l: int|
                            0 <= l < keys@.len() ==> ((#[trigger] keys@[l]) is Some <==> (
                            views[l].0 is Some && views[l].1 is Some)),
                        forall|l: int|
                            0 <= l < keys@.len() ==> ((#[trigger] keys@[l]) matches Some(k) ==> k.0@
                                == strip_spaces_of(views[l].0->0) && k.1@ == strip_spaces_of(
                                views[l].1->0,
                            )),
                        keys@[i as int] is Some,
                        key.0@ == strip_spaces_of(views[i as int].0->0),
                        key.1@ == strip_spaces_of(views[i as int].1->0),
                        views[i as int].0 is Some && views[i as int].1 is Some,
                        dup <==> exists|l: int|
                            0 <= l < j && same_listing(#[trigger] views[l], views[i as int]),
                    decreases i - j,
                {
                    match &keys[j] {
                        Some(other) => {
                            if chars_eq(&other.0, &key.0) && chars_eq(&other.1, &key.1) {
                                proof {
                                    assert(same_listing(views[j as int], views[i as int]));
                                }
                                dup = true;
                            }
                        },
                        None => {
                            proof {
                                assert(!same_listing(views[j as int], views[i as int]));
                            }
                        },
                    }
                    j += 1;
                }
                dup
            },
        };
        flags.push(removed);
        i += 1;
        proof {
            assert(flags@[i - 1] == entry_removed(views, i - 1));
        }
    }
    flags
}

} // verus!
