//! The record store and the evaluation of filters against records.

use vstd::prelude::*;
use crate::models::string::{Filters, RecordModel, StoredString, models_of};
use crate::utils::digest::{compute_sha256, content_hash};
use crate::utils::text::{contains_char, same_text};

verus! {

/// The record is a palindrome, or is none, as the filter asks.
pub open spec fn palindrome_ok(record: RecordModel, filters: Filters) -> bool {
    filters.is_palindrome matches Some(wanted) ==> record.properties.is_palindrome == wanted
}

/// The record is at least as long as the filter asks.
pub open spec fn min_length_ok(record: RecordModel, filters: Filters) -> bool {
    filters.min_length matches Some(min) ==> record.properties.length >= min
}

/// The record is at most as long as the filter asks.
pub open spec fn max_length_ok(record: RecordModel, filters: Filters) -> bool {
    filters.max_length matches Some(max) ==> record.properties.length <= max
}

/// The record has as many words as the filter asks.
pub open spec fn word_count_ok(record: RecordModel, filters: Filters) -> bool {
    filters.word_count matches Some(count) ==> record.properties.word_count == count
}

/// The text of the record holds the character that the filter asks for,
/// in exactly that case.
pub open spec fn character_ok(record: RecordModel, filters: Filters) -> bool {
    filters.contains_character matches Some(c) ==> record.value.contains(c)
}

/// The record meets every condition that is present in the filter set.
pub open spec fn matches(record: RecordModel, filters: Filters) -> bool {
    &&& palindrome_ok(record, filters)
    &&& min_length_ok(record, filters)
    &&& max_length_ok(record, filters)
    &&& word_count_ok(record, filters)
    &&& character_ok(record, filters)
}

/// The number of conditions that a filter set can hold.
pub open spec fn check_count() -> int {
    5
}

/// The conditions of a filter set, by number.
pub open spec fn check(which: int, record: RecordModel, filters: Filters) -> bool {
    if which == 0 {
        palindrome_ok(record, filters)
    } else if which == 1 {
        min_length_ok(record, filters)
    } else if which == 2 {
        max_length_ok(record, filters)
    } else if which == 3 {
        word_count_ok(record, filters)
    } else {
        character_ok(record, filters)
    }
}

/// The outcome of making the checks in the order `order`, stopping at the
/// first that fails.
pub open spec fn checked_in_order(order: Seq<int>, record: RecordModel, filters: Filters) -> bool
    decreases order.len(),
{
    if order.len() == 0 {
        true
    } else if !check(order[0], record, filters) {
        false
    } else {
        checked_in_order(order.drop_first(), record, filters)
    }
}

/// `order` lists each of the checks exactly once.
pub open spec fn is_check_order(order: Seq<int>) -> bool {
    &&& order.len() == check_count()
    &&& order.no_duplicates()
    &&& forall|i: int| 0 <= i < order.len() ==> 0 <= #[trigger] order[i] < check_count()
}

/// Checks made in some order all pass exactly when each listed check passes.
proof fn lemma_checked_in_order(order: Seq<int>, record: RecordModel, filters: Filters)
    ensures
        checked_in_order(order, record, filters) <==> forall|i: int|
            0 <= i < order.len() ==> check(#[trigger] order[i], record, filters),
    decreases order.len(),
{
    if order.len() > 0 {
        let rest = order.drop_first();
        lemma_checked_in_order(rest, record, filters);
        if checked_in_order(order, record, filters) {
            assert forall|i: int| 0 <= i < order.len() implies check(
                #[trigger] order[i],
                record,
                filters,
            ) by {
                if i > 0 {
                    assert(order[i] == rest[i - 1]);
                }
            }
        } else if check(order[0], record, filters) {
            let i = choose|i: int| 0 <= i < rest.len() && !check(#[trigger] rest[i], record, filters);
            assert(order[i + 1] == rest[i]);
        }
    }
}

/// Each check is listed somewhere in an order of the checks.
proof fn lemma_order_covers(order: Seq<int>, which: int)
    requires
        is_check_order(order),
        0 <= which < check_count(),
    ensures
        order.contains(which),
{
    if !order.contains(which) {
        // five distinct numbers, none of them `which`, do not fit in the four that are left
        let others = Set::new(|k: int| 0 <= k < check_count() && k != which);
        assert(others =~= set![0int, 1, 2, 3, 4].remove(which));
        order.unique_seq_to_set();
        assert(order.to_set().subset_of(others)) by {
            assert forall|k: int| order.to_set().contains(k) implies others.contains(k) by {
                let i = choose|i: int| 0 <= i < order.len() && order[i] == k;
                assert(0 <= order[i] < check_count());
            }
        }
        vstd::set_lib::lemma_len_subset(order.to_set(), others);
    }
}

/// The result of the evaluation does not depend on the order of the checks:
/// made in any order, stopping at the first failure or not, they give what
/// [`matches`] gives.
pub proof fn law_order_independent(order: Seq<int>, record: RecordModel, filters: Filters)
    requires
        is_check_order(order),
    ensures
        checked_in_order(order, record, filters) == matches(record, filters),
{
    lemma_checked_in_order(order, record, filters);
    if matches(record, filters) {
        assert forall|i: int| 0 <= i < order.len() implies check(
            #[trigger] order[i],
            record,
            filters,
        ) by {
            assert(0 <= order[i] < check_count());
        }
    } else {
        let failing = if !palindrome_ok(record, filters) {
            0int
        } else if !min_length_ok(record, filters) {
            1int
        } else if !max_length_ok(record, filters) {
            2int
        } else if !word_count_ok(record, filters) {
            3int
        } else {
            4int
        };
        assert(!check(failing, record, filters));
        lemma_order_covers(order, failing);
        let i = choose|i: int| 0 <= i < order.len() && order[i] == failing;
        assert(!check(order[i], record, filters));
    }
}

/// Whether a record meets every condition that is present in the filter set.
pub fn apply_filters(stored: &StoredString, filters: &Filters) -> (matched: bool)
    ensures
        matched == matches(stored@, *filters),
{
    if let Some(is_pal) = filters.is_palindrome {
        if stored.properties.is_palindrome != is_pal {
            return false;
        }
    }
    if let Some(min) = filters.min_length {
        if stored.properties.length < min {
            return false;
        }
    }
    if let Some(max) = filters.max_length {
        if stored.properties.length > max {
            return false;
        }
    }
    if let Some(wc) = filters.word_count {
        if stored.properties.word_count != wc {
            return false;
        }
    }
    if let Some(ch) = filters.contains_character {
        if !contains_char(stored.value.as_str(), ch) {
            return false;
        }
    }
    true
}

/// Why the store refused a request.
#[derive(Clone, Copy, Debug, PartialEq, Eq)]
pub enum StoreError {
    /// A record with the same identifier is stored already.
    AlreadyExists,
    /// No record has the identifier.
    NotFound,
}

impl StoreError {
    /// The text that describes the refusal to a user.
    pub open spec fn spec_message(self) -> Seq<char> {
        match self {
            StoreError::AlreadyExists => "String already exists"@,
            StoreError::NotFound => "String not found"@,
        }
    }

    /// The text that describes the refusal to a user.
    pub fn message(&self) -> (text: String)
        ensures
            text@ == self.spec_message(),
    {
        match self {
            StoreError::AlreadyExists => String::from_str("String already exists"),
            StoreError::NotFound => String::from_str("String not found"),
        }
    }
}

/// Some record of `records` has the identifier `id`.
pub open spec fn holds(records: Seq<RecordModel>, id: Seq<char>) -> bool {
    exists|i: int| 0 <= i < records.len() && #[trigger] records[i].id == id
}

/// The first record of `records` with the identifier `id`.
pub open spec fn lookup(records: Seq<RecordModel>, id: Seq<char>) -> Option<RecordModel>
    decreases records.len(),
{
    if records.len() == 0 {
        None
    } else if records[0].id == id {
        Some(records[0])
    } else {
        lookup(records.drop_first(), id)
    }
}

/// No two records of `records` share an identifier.
pub open spec fn distinct_ids(records: Seq<RecordModel>) -> bool {
    forall|i: int, j: int|
        0 <= i < j < records.len() ==> (#[trigger] records[i]).id != (#[trigger] records[j]).id
}

/// The records of `records` that `filters` selects, in their order.
pub open spec fn selected(records: Seq<RecordModel>, filters: Filters) -> Seq<RecordModel> {
    records.filter(|r: RecordModel| matches(r, filters))
}

/// `records` without the records that have the identifier `id`.
pub open spec fn without(records: Seq<RecordModel>, id: Seq<char>) -> Seq<RecordModel> {
    records.filter(|r: RecordModel| r.id != id)
}

/// A lookup finds a record exactly when the store holds the identifier, and
/// what it finds has that identifier and is in the store.
pub proof fn lemma_lookup(records: Seq<RecordModel>, id: Seq<char>)
    ensures
        lookup(records, id) is Some <==> holds(records, id),
        lookup(records, id) matches Some(found) ==> found.id == id && records.contains(found),
    decreases records.len(),
{
    if records.len() > 0 {
        let rest = records.drop_first();
        lemma_lookup(rest, id);
        if records[0].id == id {
            assert(records[0].id == id);
        } else {
            if holds(rest, id) {
                let i = choose|i: int| 0 <= i < rest.len() && #[trigger] rest[i].id == id;
                assert(records[i + 1].id == id);
            }
            if holds(records, id) {
                let i = choose|i: int| 0 <= i < records.len() && #[trigger] records[i].id == id;
                assert(rest[i - 1].id == id);
            }
            if let Some(found) = lookup(rest, id) {
                let i = choose|i: int| 0 <= i < rest.len() && rest[i] == found;
                assert(records[i + 1] == found);
            }
        }
    }
}

/// The records in store, in the order in which they were stored. No two of
/// them share an identifier.
#[derive(Debug)]
pub struct RecordStore {
    records: Vec<StoredString>,
}

impl View for RecordStore {
    type V = Seq<RecordModel>;

    closed spec fn view(&self) -> Seq<RecordModel> {
        models_of(self.records@)
    }
}

impl RecordStore {
    #[verifier::type_invariant]
    spec fn well_formed(self) -> bool {
        distinct_ids(models_of(self.records@))
    }

    /// A store without records.
    pub fn new() -> (store: RecordStore)
        ensures
            store@ == Seq::<RecordModel>::empty(),
    {
        let store = RecordStore { records: Vec::new() };
        assert(store@ =~= Seq::<RecordModel>::empty());
        store
    }

    /// The number of records in store.
    pub fn len(&self) -> (n: usize)
        ensures
            n == self@.len(),
            distinct_ids(self@),
    {
        proof {
            use_type_invariant(self);
        }
        self.records.len()
    }

    /// The position of the first record with the identifier `id`.
    fn position(&self, id: &str) -> (at: Option<usize>)
        ensures
            match at {
                Some(i) => i < self.records@.len() && self.records@[i as int].id@ == id@
                    && lookup(self@, id@) == Some(self.records@[i as int]@),
                None => !holds(self@, id@),
            },
    {
        let ghost all = self@;
        assert(all.skip(0) == all);
        let mut i: usize = 0;
        while i < self.records.len()
            invariant
                i <= self.records@.len(),
                all == models_of(self.records@),
                forall|k: int| 0 <= k < i ==> (#[trigger] all[k]).id != id@,
                lookup(all, id@) == lookup(all.skip(i as int), id@),
            decreases self.records@.len() - i,
        {
            if same_text(self.records[i].id.as_str(), id) {
                assert(all.skip(i as int)[0] == all[i as int]);
                return Some(i);
            }
            proof {
                assert(all.skip(i as int)[0] == all[i as int]);
                assert(all.skip(i as int).drop_first() == all.skip(i + 1));
            }
            i += 1;
        }
        proof {
            lemma_lookup(all, id@);
            assert(all.skip(i as int).len() == 0);
        }
        None
    }
}

/// Taking out the one record with an identifier is taking out every record
/// with that identifier.
proof fn lemma_without_is_remove(records: Seq<RecordModel>, at: int, id: Seq<char>)
    requires
        0 <= at < records.len(),
        records[at].id == id,
        forall|k: int| 0 <= k < records.len() && k != at ==> (#[trigger] records[k]).id != id,
    ensures
        without(records, id) == records.remove(at),
    decreases records.len(),
{
    let keep = |r: RecordModel| r.id != id;
    let init = records.drop_last();
    assert(records == init.push(records.last()));
    init.lemma_filter_push(records.last(), keep);
    if at == records.len() - 1 {
        lemma_without_nothing(init, id);
        assert(records.remove(at) == init);
    } else {
        lemma_without_is_remove(init, at, id);
        assert(records.remove(at) == init.remove(at).push(records.last()));
    }
}

/// Where no record has the identifier, taking it out changes nothing.
proof fn lemma_without_nothing(records: Seq<RecordModel>, id: Seq<char>)
    requires
        forall|k: int| 0 <= k < records.len() ==> (#[trigger] records[k]).id != id,
    ensures
        without(records, id) == records,
    decreases records.len(),
{
    let keep = |r: RecordModel| r.id != id;
    if records.len() == 0 {
        reveal(Seq::filter);
    } else {
        let init = records.drop_last();
        assert(records == init.push(records.last()));
        init.lemma_filter_push(records.last(), keep);
        lemma_without_nothing(init, id);
    }
}

/// Stores a record, unless one with its identifier is stored already.
pub fn save_string(store: &mut RecordStore, string: StoredString) -> (outcome: Result<
    (),
    StoreError,
>)
    ensures
        distinct_ids(final(store)@),
        match outcome {
            Ok(_) => !holds(old(store)@, string.id@) && final(store)@ == old(store)@.push(string@),
            Err(e) => e == StoreError::AlreadyExists && holds(old(store)@, string.id@)
                && final(store)@ == old(store)@,
        },
{
    proof {
        use_type_invariant(&*store);
    }
    match store.position(string.id.as_str()) {
        Some(i) => {
            assert(old(store)@[i as int].id == string.id@);
            Err(StoreError::AlreadyExists)
        },
        None => {
            let ghost before = models_of(store.records@);
            proof {
                let after = models_of(store.records@.push(string));
                assert(after == before.push(string@));
                assert forall|i: int, j: int| 0 <= i < j < after.len() implies (
                #[trigger] after[i]).id != (#[trigger] after[j]).id by {
                    if j == before.len() {
                        assert(before[i].id != string.id@);
                    } else {
                        assert(before[i].id != before[j].id);
                    }
                }
            }
            let mut records: Vec<StoredString> = Vec::new();
            std::mem::swap(&mut store.records, &mut records);
            records.push(string);
            std::mem::swap(&mut store.records, &mut records);
            Ok(())
        },
    }
}

/// The record with the identifier `hash`.
pub fn get_string_by_hash(store: &RecordStore, hash: &str) -> (found: Option<StoredString>)
    ensures
        found is Some <==> holds(store@, hash@),
        match found {
            Some(record) => lookup(store@, hash@) == Some(record@),
            None => lookup(store@, hash@) is None,
        },
{
    proof {
        lemma_lookup(store@, hash@);
    }
    match store.position(hash) {
        Some(i) => Some(store.records[i].clone()),
        None => None,
    }
}

/// The record of the text `value`.
pub fn get_string_by_value(store: &RecordStore, value: &str) -> (found: Option<StoredString>)
    ensures
        found is Some <==> holds(store@, content_hash(value@)),
        match found {
            Some(record) => lookup(store@, content_hash(value@)) == Some(record@),
            None => lookup(store@, content_hash(value@)) is None,
        },
{
    let hash = compute_sha256(value);
    get_string_by_hash(store, hash.as_str())
}

/// The records that `filters` selects, in the order in which they were
/// stored.
pub fn get_all_strings(store: &RecordStore, filters: Filters) -> (found: Vec<StoredString>)
    ensures
        models_of(found@) == selected(store@, filters),
{
    let ghost all = store@;
    let ghost wanted = |r: RecordModel| matches(r, filters);
    let mut found: Vec<StoredString> = Vec::new();
    let mut i: usize = 0;
    assert(all.take(0).filter(wanted) == Seq::<RecordModel>::empty()) by {
        reveal(Seq::filter);
    }
    assert(models_of(found@) == Seq::<RecordModel>::empty());
    while i < store.records.len()
        invariant
            i <= store.records@.len(),
            all == models_of(store.records@),
            wanted == |r: RecordModel| matches(r, filters),
            models_of(found@) == all.take(i as int).filter(wanted),
        decreases store.records@.len() - i,
    {
        let record = &store.records[i];
        proof {
            assert(all.take(i + 1) == all.take(i as int).push(all[i as int]));
            all.take(i as int).lemma_filter_push(all[i as int], wanted);
        }
        if apply_filters(record, &filters) {
            let ghost before = found@;
            let copy = record.clone();
            found.push(copy);
            assert(models_of(found@) == models_of(before).push(copy@));
        }
        i += 1;
    }
    assert(all.take(i as int) == all);
    found
}

/// Removes the record of the text `value`.
pub fn delete_string(store: &mut RecordStore, value: &str) -> (outcome: Result<(), StoreError>)
    ensures
        distinct_ids(final(store)@),
        final(store)@ == without(old(store)@, content_hash(value@)),
        match outcome {
            Ok(_) => holds(old(store)@, content_hash(value@)),
            Err(e) => e == StoreError::NotFound && !holds(old(store)@, content_hash(value@))
                && final(store)@ == old(store)@,
        },
{
    proof {
        use_type_invariant(&*store);
    }
    let hash = compute_sha256(value);
    let ghost before = store@;
    match store.position(hash.as_str()) {
        Some(i) => {
            proof {
                let after = models_of(store.records@.remove(i as int));
                assert(after == before.remove(i as int));
                assert(before[i as int].id == hash@);
                assert forall|k: int| 0 <= k < before.len() && k != i implies (
                #[trigger] before[k]).id != hash@ by {
                    if k < i {
                        assert(before[k].id != before[i as int].id);
                    } else {
                        assert(before[i as int].id != before[k].id);
                    }
                }
                lemma_without_is_remove(before, i as int, hash@);
                assert forall|a: int, b: int| 0 <= a < b < after.len() implies (
                #[trigger] after[a]).id != (#[trigger] after[b]).id by {
                    let a0 = if a < i { a } else { a + 1 };
                    let b0 = if b < i { b } else { b + 1 };
                    assert(after[a] == before[a0]);
                    assert(after[b] == before[b0]);
                    assert(before[a0].id != before[b0].id);
                }
            }
            let mut records: Vec<StoredString> = Vec::new();
            std::mem::swap(&mut store.records, &mut records);
            records.remove(i);
            std::mem::swap(&mut store.records, &mut records);
            Ok(())
        },
        None => {
            proof {
                assert forall|k: int| 0 <= k < before.len() implies (#[trigger] before[k]).id
                    != hash@ by {}
                lemma_without_nothing(before, hash@);
            }
            Err(StoreError::NotFound)
        },
    }
}

/// Whether a record with the identifier `hash` is stored.
pub fn string_exists(store: &RecordStore, hash: &str) -> (exists: bool)
    ensures
        exists == holds(store@, hash@),
{
    match store.position(hash) {
        Some(i) => {
            assert(store@[i as int].id == hash@);
            true
        },
        None => false,
    }
}

/// The filter set that asks only for the character `c`.
pub open spec fn only_character(c: char) -> Filters {
    Filters {
        is_palindrome: None,
        min_length: None,
        max_length: None,
        word_count: None,
        contains_character: Some(c),
    }
}

/// A record that has just been stored is selected by a filter on a
/// character exactly when its text holds that character.
pub proof fn law_stored_record_is_found(store: Seq<RecordModel>, record: RecordModel, c: char)
    requires
        distinct_ids(store),
        !holds(store, record.id),
    ensures
        record.value.contains(c) ==> selected(store.push(record), only_character(c)).contains(
            record,
        ),
        !record.value.contains(c) ==> !selected(store.push(record), only_character(c)).contains(
            record,
        ),
{
    let filters = only_character(c);
    let wanted = |r: RecordModel| matches(r, filters);
    let all = store.push(record);
    let found = all.filter(wanted);
    store.lemma_filter_push(record, wanted);
    if record.value.contains(c) {
        assert(wanted(record));
        assert(found == store.filter(wanted).push(record));
        assert(found[found.len() - 1] == record);
    } else {
        assert(!wanted(record));
        if found.contains(record) {
            all.lemma_filter_contains_rev(wanted, record);
        }
    }
}

} // verus!
