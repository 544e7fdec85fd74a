//! How often each character occurs in a string.

use std::collections::HashMap;
use vstd::prelude::*;
use vstd::utf8::char_u32_cast;

verus! {

broadcast use vstd::std_specs::hash::group_hash_axioms;

/// How many positions of `s` hold the character `c`.
pub open spec fn occurrences(s: Seq<char>, c: char) -> nat
    decreases s.len(),
{
    if s.len() == 0 {
        0
    } else {
        occurrences(s.drop_last(), c) + if s.last() == c {
            1nat
        } else {
            0nat
        }
    }
}

/// The histogram of `s`: each character that occurs in `s`, with the number
/// of its occurrences.
pub open spec fn frequencies(s: Seq<char>) -> Map<char, nat> {
    Map::new(|c: char| s.contains(c), |c: char| occurrences(s, c))
}

/// A character is counted at most once per position, and at least once
/// exactly when it occurs.
pub proof fn lemma_occurrences_bounds(s: Seq<char>, c: char)
    ensures
        occurrences(s, c) <= s.len(),
        occurrences(s, c) > 0 <==> s.contains(c),
    decreases s.len(),
{
    if s.len() > 0 {
        let init = s.drop_last();
        lemma_occurrences_bounds(init, c);
        if init.contains(c) {
            let k = choose|k: int| 0 <= k < init.len() && init[k] == c;
            assert(s[k] == c);
        }
        if s.last() == c {
            assert(s[s.len() - 1] == c);
        }
        if s.contains(c) && s.last() != c {
            let k = choose|k: int| 0 <= k < s.len() && s[k] == c;
            assert(init[k] == c);
        }
    }
}

/// A histogram of characters.
///
/// The counts are kept in a hash map keyed by the character's code point;
/// the characters themselves are also kept in a list, so that the map can be
/// walked.
#[derive(Debug)]
pub struct FrequencyMap {
    keys: Vec<char>,
    counts: HashMap<u32, usize>,
}

impl View for FrequencyMap {
    type V = Map<char, nat>;

    closed spec fn view(&self) -> Map<char, nat> {
        Map::new(
            |c: char| self.counts@.contains_key(code_of(c)),
            |c: char| self.counts@[code_of(c)] as nat,
        )
    }
}

impl FrequencyMap {
    #[verifier::type_invariant]
    spec fn well_formed(self) -> bool {
        &&& self.keys@.no_duplicates()
        &&& forall|c: char| #[trigger]
            self.keys@.contains(c) ==> self.counts@.contains_key(code_of(c))
        &&& forall|k: u32| #[trigger]
            self.counts@.contains_key(k) ==> code_of(char_of(k)) == k && self.keys@.contains(
                char_of(k),
            )
    }

    /// The histogram of the characters `chars`.
    pub fn build(chars: &Vec<char>) -> (map: FrequencyMap)
        ensures
            map@ == frequencies(chars@),
    {
        let mut keys: Vec<char> = Vec::new();
        let mut counts: HashMap<u32, usize> = HashMap::new();
        let mut i: usize = 0;
        while i < chars.len()
            invariant
                i <= chars@.len(),
                keys@.no_duplicates(),
                forall|c: char| keys@.contains(c) <==> chars@.take(i as int).contains(c),
                forall|c: char| #[trigger]
                    keys@.contains(c) ==> counts@.contains_key(code_of(c)) && counts@[code_of(c)]
                        == occurrences(chars@.take(i as int), c),
                forall|k: u32| #[trigger]
                    counts@.contains_key(k) ==> code_of(char_of(k)) == k && keys@.contains(
                        char_of(k),
                    ),
            decreases chars@.len() - i,
        {
            let c = chars[i];
            let code = c as u32;
            let ghost seen = chars@.take(i as int);
            let ghost next = chars@.take(i + 1);
            let ghost old_keys = keys@;
            proof {
                assert(next == seen.push(c));
                assert(next.drop_last() == seen);
                lemma_occurrences_bounds(seen, c);
                lemma_contains_after_push(seen, next, c);
                lemma_code(c);
            }
            let known = match counts.get(&code) {
                Some(n) => Some(*n),
                None => None,
            };
            match known {
                Some(n) => {
                    assert(char_of(code) == c);
                    assert(old_keys.contains(c));
                    counts.insert(code, n + 1);
                },
                None => {
                    assert(!old_keys.contains(c));
                    counts.insert(code, 1);
                    keys.push(c);
                    proof {
                        lemma_contains_after_push(old_keys, keys@, c);
                    }
                },
            }
            proof {
                assert forall|d: char| #[trigger] keys@.contains(d) implies counts@.contains_key(
                    code_of(d),
                ) && counts@[code_of(d)] == occurrences(next, d) by {
                    lemma_code(d);
                    if d != c {
                        assert(code_of(d) != code);
                        assert(old_keys.contains(d));
                    }
                }
                assert forall|k: u32| #[trigger] counts@.contains_key(k) implies code_of(
                    char_of(k),
                ) == k && keys@.contains(char_of(k)) by {
                    if k == code {
                        assert(char_of(k) == c);
                    }
                }
            }
            i += 1;
        }
        assert(chars@.take(i as int) == chars@);
        let map = FrequencyMap { keys, counts };
        assert(map@ =~= frequencies(chars@)) by {
            assert forall|c: char| map@.contains_key(c) <==> chars@.contains(c) by {
                lemma_code(c);
                if map@.contains_key(c) {
                    assert(map.counts@.contains_key(code_of(c)));
                    assert(map.keys@.contains(char_of(code_of(c))));
                }
                if chars@.contains(c) {
                    assert(map.keys@.contains(c));
                }
            }
            assert forall|c: char| map@.contains_key(c) implies map@[c] == frequencies(chars@)[c] by {
                lemma_code(c);
                assert(map.keys@.contains(c));
            }
        }
        map
    }

    /// How often `ch` was counted, if at all.
    pub fn get(&self, ch: &char) -> (count: Option<&usize>)
        ensures
            match count {
                Some(n) => self@.contains_key(*ch) && self@[*ch] == *n,
                None => !self@.contains_key(*ch),
            },
    {
        let code = *ch as u32;
        self.counts.get(&code)
    }

    /// The listed characters are exactly the characters with a count.
    proof fn lemma_keys_cover(self)
        requires
            self.well_formed(),
        ensures
            self@.dom() == self.keys@.to_set(),
            self@.dom().finite(),
            self@.dom().len() == self.keys@.len(),
    {
        self.keys@.unique_seq_to_set();
        assert(self.keys@.to_set() =~= self@.dom()) by {
            assert forall|c: char| self.keys@.to_set().contains(c) <==> self@.dom().contains(
                c,
            ) by {
                lemma_code(c);
                if self@.dom().contains(c) {
                    assert(self.counts@.contains_key(code_of(c)));
                }
            }
        }
    }

    /// The number of distinct characters counted.
    pub fn len(&self) -> (n: usize)
        ensures
            n == self@.dom().len(),
            self@.dom().finite(),
    {
        proof {
            use_type_invariant(self);
            self.lemma_keys_cover();
        }
        self.keys.len()
    }

    /// Every counted character with its count, each character once.
    pub fn entries(&self) -> (list: Vec<(char, usize)>)
        ensures
            list@.len() == self@.dom().len(),
            forall|i: int|
                0 <= i < list@.len() ==> self@.contains_key(#[trigger] list@[i].0) && self@[list@[i].0]
                    == list@[i].1,
            forall|i: int, j: int|
                0 <= i < j < list@.len() ==> #[trigger] list@[i].0 != #[trigger] list@[j].0,
    {
        proof {
            use_type_invariant(self);
            self.lemma_keys_cover();
        }
        let mut list: Vec<(char, usize)> = Vec::new();
        let mut i: usize = 0;
        while i < self.keys.len()
            invariant
                i <= self.keys@.len(),
                list@.len() == i,
                self.keys@.no_duplicates(),
                forall|c: char| #[trigger]
                    self.keys@.contains(c) ==> self.counts@.contains_key(code_of(c)),
                forall|k: int|
                    0 <= k < i ==> (#[trigger] list@[k]).0 == self.keys@[k] && self.counts@[code_of(
                        list@[k].0,
                    )] == list@[k].1,
            decreases self.keys@.len() - i,
        {
            let c = self.keys[i];
            let code = c as u32;
            assert(self.keys@.contains(c));
            match self.counts.get(&code) {
                Some(n) => {
                    list.push((c, *n));
                },
                None => {
                    assert(false);
                },
            }
            i += 1;
        }
        list
    }
}

impl Clone for FrequencyMap {
    fn clone(&self) -> (copy: Self)
        ensures
            copy@ == self@,
    {
        proof {
            use_type_invariant(self);
        }
        let mut keys: Vec<char> = Vec::new();
        let mut i: usize = 0;
        while i < self.keys.len()
            invariant
                i <= self.keys@.len(),
                keys@ == self.keys@.take(i as int),
            decreases self.keys@.len() - i,
        {
            keys.push(self.keys[i]);
            i += 1;
        }
        assert(keys@ == self.keys@);
        FrequencyMap { keys, counts: self.counts.clone() }
    }
}

/// The code point of `c`.
spec fn code_of(c: char) -> u32 {
    c as u32
}

/// The character with the code point `k`.
spec fn char_of(k: u32) -> char {
    k as char
}

/// A character is found again from its code point.
proof fn lemma_code(c: char)
    ensures
        char_of(code_of(c)) == c,
{
    char_u32_cast(c, c as u32);
}

/// After a push, a sequence holds what it held before and the new element.
proof fn lemma_contains_after_push(before: Seq<char>, after: Seq<char>, c: char)
    requires
        after == before.push(c),
    ensures
        forall|d: char| after.contains(d) <==> (before.contains(d) || d == c),
{
    assert forall|d: char| after.contains(d) <==> (before.contains(d) || d == c) by {
        if before.contains(d) {
            let k = choose|k: int| 0 <= k < before.len() && before[k] == d;
            assert(after[k] == d);
        }
        if d == c {
            assert(after[before.len() as int] == d);
        }
        if after.contains(d) && d != c {
            let k = choose|k: int| 0 <= k < after.len() && after[k] == d;
            assert(before[k] == d);
        }
    }
}

} // verus!
