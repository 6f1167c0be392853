//! Device options: settings by name, as text on this side of the boundary and
//! as bytes on the other.

use crate::marshal::{c_safe, is_c_safe, text_from_native, text_of, text_to_native, zero_free};
use crate::marshal::lemma_text_round_trip;
use vstd::prelude::*;
use vstd::utf8::*;

verus! {

/// An option as text: its name, then its value.
pub type TextPair = (Seq<char>, Seq<char>);

/// An option as the native container holds it: the bytes of its name, then
/// the bytes of its value.
pub type BytePair = (Seq<u8>, Seq<u8>);

/// No name occurs twice.
pub open spec fn distinct_keys(pairs: Seq<TextPair>) -> bool {
    forall|i: int, j: int| 0 <= i < j < pairs.len() ==> pairs[i].0 != pairs[j].0
}

/// The mapping that results from entering the pairs one after another into a
/// keyed container: where a name comes again, the later value replaces the
/// earlier one.
pub open spec fn pairs_map(pairs: Seq<TextPair>) -> Map<Seq<char>, Seq<char>>
    decreases pairs.len(),
{
    if pairs.len() == 0 {
        Map::empty()
    } else {
        pairs_map(pairs.drop_last()).insert(pairs.last().0, pairs.last().1)
    }
}

/// The name and the value can be sent whole.
pub open spec fn pair_sendable(pair: TextPair) -> bool {
    c_safe(pair.0) && c_safe(pair.1)
}

/// Every name and every value can be sent whole.
pub open spec fn sendable(pairs: Seq<TextPair>) -> bool {
    forall|i: int| 0 <= i < pairs.len() ==> pair_sendable(#[trigger] pairs[i])
}

/// The pairs as they cross to the native side, in the same order.
pub open spec fn encoded(pairs: Seq<TextPair>) -> Seq<BytePair> {
    pairs.map_values(|p: TextPair| (encode_utf8(p.0), encode_utf8(p.1)))
}

/// Native entries read as text, in the same order.
pub open spec fn decoded(entries: Seq<BytePair>) -> Seq<TextPair> {
    entries.map_values(|e: BytePair| (text_of(e.0), text_of(e.1)))
}

/// One entry of the native option container.
#[derive(Debug, Clone, PartialEq, Eq)]
pub struct NativeOption {
    pub key: Vec<u8>,
    pub value: Vec<u8>,
}

impl View for NativeOption {
    type V = BytePair;

    open spec fn view(&self) -> BytePair {
        (self.key@, self.value@)
    }
}

/// The entries of a native container as pairs of byte strings.
pub open spec fn byte_pairs(entries: Seq<NativeOption>) -> Seq<BytePair> {
    entries.map_values(|e: NativeOption| e@)
}

/// A name is in the mapping exactly when some pair carries it.
pub proof fn lemma_pairs_map_dom(pairs: Seq<TextPair>, key: Seq<char>)
    ensures
        pairs_map(pairs).contains_key(key) <==> exists|i: int|
            0 <= i < pairs.len() && #[trigger] pairs[i].0 == key,
    decreases pairs.len(),
{
    if pairs.len() > 0 {
        let front = pairs.drop_last();
        lemma_pairs_map_dom(front, key);
        if exists|i: int| 0 <= i < pairs.len() && #[trigger] pairs[i].0 == key {
            let i = choose|i: int| 0 <= i < pairs.len() && #[trigger] pairs[i].0 == key;
            if i < pairs.len() - 1 {
                assert(front[i].0 == key);
            }
        }
    }
}

/// Where no name occurs twice, each pair's value is the one the mapping holds
/// for its name.
pub proof fn lemma_pairs_map_value(pairs: Seq<TextPair>, i: int)
    requires
        distinct_keys(pairs),
        0 <= i < pairs.len(),
    ensures
        pairs_map(pairs).contains_key(pairs[i].0),
        pairs_map(pairs)[pairs[i].0] == pairs[i].1,
    decreases pairs.len(),
{
    let front = pairs.drop_last();
    if i < pairs.len() - 1 {
        assert(distinct_keys(front));
        lemma_pairs_map_value(front, i);
    }
}

/// Where no name occurs twice, the mapping has one entry for each pair.
pub proof fn lemma_pairs_map_len(pairs: Seq<TextPair>)
    requires
        distinct_keys(pairs),
    ensures
        pairs_map(pairs).dom().finite(),
        pairs_map(pairs).len() == pairs.len(),
    decreases pairs.len(),
{
    if pairs.len() > 0 {
        let front = pairs.drop_last();
        assert(distinct_keys(front));
        lemma_pairs_map_len(front);
        lemma_pairs_map_dom(front, pairs.last().0);
        assert(!pairs_map(front).contains_key(pairs.last().0));
    }
}

/// Adding a pair at the end enters it into the mapping.
proof fn lemma_pairs_map_push(pairs: Seq<TextPair>, pair: TextPair)
    ensures
        pairs_map(pairs.push(pair)) == pairs_map(pairs).insert(pair.0, pair.1),
{
    assert(pairs.push(pair).drop_last() == pairs);
}

/// Replacing the value of a name that is held once enters the new value.
proof fn lemma_pairs_map_update(pairs: Seq<TextPair>, i: int, value: Seq<char>)
    requires
        distinct_keys(pairs),
        0 <= i < pairs.len(),
    ensures
        distinct_keys(pairs.update(i, (pairs[i].0, value))),
        pairs_map(pairs.update(i, (pairs[i].0, value))) == pairs_map(pairs).insert(
            pairs[i].0,
            value,
        ),
    decreases pairs.len(),
{
    let key = pairs[i].0;
    let changed = pairs.update(i, (key, value));
    let front = pairs.drop_last();
    assert(distinct_keys(changed));
    if i == pairs.len() - 1 {
        assert(changed.drop_last() == front);
    } else {
        assert(distinct_keys(front));
        lemma_pairs_map_update(front, i, value);
        assert(changed.drop_last() == front.update(i, (key, value)));
    }
}

/// Device options: a value for each option name, every name held once.
///
/// The order of the entries carries no meaning. It is kept only so that the
/// entries can be listed and sent one by one.
#[derive(Debug)]
pub struct DeviceOptions {
    entries: Vec<(String, String)>,
}

impl View for DeviceOptions {
    type V = Map<Seq<char>, Seq<char>>;

    open spec fn view(&self) -> Map<Seq<char>, Seq<char>> {
        pairs_map(self.pairs())
    }
}

impl Clone for DeviceOptions {
    /// A copy that holds the same entries in buffers of its own.
    fn clone(&self) -> (copy: Self)
        ensures
            copy.pairs() == self.pairs(),
            copy@ == self@,
    {
        proof {
            use_type_invariant(self);
        }
        let mut entries: Vec<(String, String)> = Vec::new();
        let mut i: usize = 0;
        while i < self.entries.len()
            invariant
                i <= self.entries@.len(),
                entries@.len() == i,
                forall|j: int|
                    0 <= j < i ==> (#[trigger] entries@[j]).0@ == self.entries@[j].0@
                        && entries@[j].1@ == self.entries@[j].1@,
            decreases self.entries@.len() - i,
        {
            entries.push((self.entries[i].0.clone(), self.entries[i].1.clone()));
            i += 1;
        }
        assert(entries@.map_values(|e: (String, String)| (e.0@, e.1@)) =~= self.pairs());
        DeviceOptions { entries }
    }
}

impl DeviceOptions {
    /// The entries as they are held, each name once.
    pub closed spec fn pairs(&self) -> Seq<TextPair> {
        self.entries@.map_values(|e: (String, String)| (e.0@, e.1@))
    }

    #[verifier::type_invariant]
    spec fn well_formed(&self) -> bool {
        distinct_keys(self.pairs())
    }

    /// No options.
    pub fn new() -> (options: Self)
        ensures
            options.pairs() == Seq::<TextPair>::empty(),
            options@ == Map::<Seq<char>, Seq<char>>::empty(),
    {
        let options = DeviceOptions { entries: Vec::new() };
        options
    }

    /// How many options are held.
    pub fn len(&self) -> (n: usize)
        ensures
            n == self.pairs().len(),
            n == self@.len(),
            distinct_keys(self.pairs()),
    {
        proof {
            use_type_invariant(self);
            lemma_pairs_map_len(self.pairs());
        }
        self.entries.len()
    }

    /// Whether no option is held.
    pub fn is_empty(&self) -> (empty: bool)
        ensures
            empty == (self.pairs().len() == 0),
            empty == (self@ == Map::<Seq<char>, Seq<char>>::empty()),
    {
        proof {
            use_type_invariant(self);
            lemma_pairs_map_len(self.pairs());
            if self.pairs().len() == 0 {
            }
        }
        self.entries.len() == 0
    }

    /// Where `key` is held, if it is.
    fn position(&self, key: &String) -> (found: Option<usize>)
        ensures
            distinct_keys(self.pairs()),
            match found {
                Some(i) => i < self.pairs().len() && self.pairs()[i as int].0 == key@
                    && self.entries@[i as int].1@ == self.pairs()[i as int].1,
                None => forall|j: int| 0 <= j < self.pairs().len() ==> self.pairs()[j].0 != key@,
            },
    {
        proof {
            use_type_invariant(self);
        }
        let mut i: usize = 0;
        while i < self.entries.len()
            invariant
                i <= self.entries@.len(),
                self.pairs().len() == self.entries@.len(),
                distinct_keys(self.pairs()),
                forall|j: int| 0 <= j < i ==> self.pairs()[j].0 != key@,
            decreases self.entries@.len() - i,
        {
            if self.entries[i].0 == *key {
                return Some(i);
            }
            i += 1;
        }
        None
    }

    /// The value held for `key`, if any.
    pub fn get(&self, key: &String) -> (value: Option<&String>)
        ensures
            match value {
                Some(v) => self@.contains_key(key@) && v@ == self@[key@],
                None => !self@.contains_key(key@),
            },
    {
        let found = self.position(key);
        proof {
            lemma_pairs_map_dom(self.pairs(), key@);
        }
        match found {
            Some(i) => {
                proof {
                    lemma_pairs_map_value(self.pairs(), i as int);
                }
                Some(&self.entries[i].1)
            },
            None => None,
        }
    }

    /// Whether a value is held for `key`.
    pub fn contains_key(&self, key: &String) -> (held: bool)
        ensures
            held == self@.contains_key(key@),
    {
        self.get(key).is_some()
    }

    /// Sets the value of `key`, replacing the one held before, and returns
    /// the replaced value.
    pub fn insert(&mut self, key: String, value: String) -> (previous: Option<String>)
        ensures
            final(self)@ == old(self)@.insert(key@, value@),
            match previous {
                Some(p) => old(self)@.contains_key(key@) && p@ == old(self)@[key@],
                None => !old(self)@.contains_key(key@),
            },
            old(self)@.contains_key(key@) ==> exists|i: int|
                0 <= i < old(self).pairs().len() && #[trigger] old(self).pairs()[i].0 == key@
                    && final(self).pairs() == old(self).pairs().update(i, (key@, value@)),
            !old(self)@.contains_key(key@) ==> final(self).pairs() == old(self).pairs().push(
                (key@, value@),
            ),
    {
        let found = self.position(&key);
        let ghost before = self.pairs();
        let ghost held = self.entries@;
        proof {
            lemma_pairs_map_dom(before, key@);
            assert(Seq::<(String, String)>::empty().map_values(
                |e: (String, String)| (e.0@, e.1@),
            ) == Seq::<TextPair>::empty());
        }
        // The entries are taken out while they change, so that `self` holds
        // a list with distinct names at every step.
        let mut entries: Vec<(String, String)> = Vec::new();
        std::mem::swap(&mut entries, &mut self.entries);
        let previous = match found {
            Some(i) => {
                proof {
                    lemma_pairs_map_value(before, i as int);
                    lemma_pairs_map_update(before, i as int, value@);
                    assert(held.update(i as int, (key, value)).map_values(
                        |e: (String, String)| (e.0@, e.1@),
                    ) == before.update(i as int, (key@, value@)));
                }
                let mut entry = (key, value);
                std::mem::swap(&mut entries[i], &mut entry);
                Some(entry.1)
            },
            None => {
                proof {
                    lemma_pairs_map_push(before, (key@, value@));
                    assert(held.push((key, value)).map_values(
                        |e: (String, String)| (e.0@, e.1@),
                    ) == before.push((key@, value@)));
                }
                entries.push((key, value));
                None
            },
        };
        std::mem::swap(&mut entries, &mut self.entries);
        previous
    }

    /// The entries, each name once, in no order that matters.
    pub fn into_entries(self) -> (entries: Vec<(String, String)>)
        ensures
            entries@.len() == self.pairs().len(),
            forall|i: int|
                0 <= i < entries@.len() ==> entries@[i].0@ == self.pairs()[i].0 && entries@[i].1@
                    == self.pairs()[i].1,
            distinct_keys(self.pairs()),
    {
        proof {
            use_type_invariant(&self);
        }
        self.entries
    }

    /// Whether every name and every value can be sent whole.
    pub fn is_sendable(&self) -> (ok: bool)
        ensures
            ok == sendable(self.pairs()),
    {
        let mut i: usize = 0;
        while i < self.entries.len()
            invariant
                i <= self.entries@.len(),
                self.pairs().len() == self.entries@.len(),
                forall|j: int| 0 <= j < i ==> pair_sendable(#[trigger] self.pairs()[j]),
            decreases self.entries@.len() - i,
        {
            let key_ok = is_c_safe(self.entries[i].0.as_str());
            let value_ok = is_c_safe(self.entries[i].1.as_str());
            assert((key_ok && value_ok) == pair_sendable(self.pairs()[i as int]));
            if !key_ok || !value_ok {
                return false;
            }
            i += 1;
        }
        true
    }

    /// The entries as they are handed to the native container, one for each
    /// option and each in buffers of its own.
    pub fn to_native(&self) -> (entries: Vec<NativeOption>)
        requires
            sendable(self.pairs()),
        ensures
            byte_pairs(entries@) == encoded(self.pairs()),
            forall|i: int|
                0 <= i < entries@.len() ==> zero_free(#[trigger] entries@[i].key@) && zero_free(
                    entries@[i].value@,
                ),
    {
        let mut entries: Vec<NativeOption> = Vec::new();
        let mut i: usize = 0;
        while i < self.entries.len()
            invariant
                i <= self.entries@.len(),
                entries@.len() == i,
                self.pairs().len() == self.entries@.len(),
                sendable(self.pairs()),
                forall|j: int|
                    0 <= j < i ==> (#[trigger] entries@[j])@ == (
                        encode_utf8(self.pairs()[j].0),
                        encode_utf8(self.pairs()[j].1),
                    ),
                forall|j: int|
                    0 <= j < i ==> zero_free(#[trigger] entries@[j].key@) && zero_free(
                        entries@[j].value@,
                    ),
            decreases self.entries@.len() - i,
        {
            assert(pair_sendable(self.pairs()[i as int]));
            let key = text_to_native(self.entries[i].0.as_str());
            let value = text_to_native(self.entries[i].1.as_str());
            entries.push(NativeOption { key, value });
            i += 1;
        }
        entries
    }

    /// The options that the entries of a native container describe, read in
    /// the order given. Where a name comes more than once, its last value is
    /// the one held.
    pub fn from_native(entries: &Vec<NativeOption>) -> (options: Self)
        ensures
            options@ == pairs_map(decoded(byte_pairs(entries@))),
    {
        let ghost all = decoded(byte_pairs(entries@));
        let mut options = DeviceOptions::new();
        let mut i: usize = 0;
        while i < entries.len()
            invariant
                i <= entries@.len(),
                all == decoded(byte_pairs(entries@)),
                options@ == pairs_map(all.take(i as int)),
            decreases entries@.len() - i,
        {
            let key = text_from_native(&entries[i].key);
            let value = text_from_native(&entries[i].value);
            proof {
                assert(all.take(i + 1).drop_last() == all.take(i as int));
            }
            options.insert(key, value);
            i += 1;
        }
        assert(all.take(i as int) == all);
        options
    }
}

/// Options that are sent and read back unchanged are the same options.
pub proof fn lemma_options_round_trip(pairs: Seq<TextPair>)
    ensures
        decoded(encoded(pairs)) == pairs,
        pairs_map(decoded(encoded(pairs))) == pairs_map(pairs),
{
    assert forall|i: int| 0 <= i < pairs.len() implies decoded(encoded(pairs))[i] == pairs[i] by {
        lemma_text_round_trip(pairs[i].0);
        lemma_text_round_trip(pairs[i].1);
    }
}

/// Whatever the order and whatever comes twice, the value that the mapping
/// holds for a name is the value of some pair that carries the name.
pub proof fn lemma_pairs_map_witness(pairs: Seq<TextPair>, key: Seq<char>)
    requires
        pairs_map(pairs).contains_key(key),
    ensures
        exists|i: int|
            0 <= i < pairs.len() && (#[trigger] pairs[i]) == (key, pairs_map(pairs)[key]),
    decreases pairs.len(),
{
    if pairs.len() > 0 {
        let front = pairs.drop_last();
        if pairs.last().0 != key {
            lemma_pairs_map_witness(front, key);
            let i = choose|i: int|
                0 <= i < front.len() && (#[trigger] front[i]) == (key, pairs_map(front)[key]);
            assert(pairs[i] == front[i]);
        }
    }
}

/// Options that were sent are found again among the options in effect, each
/// with the value it was sent with, where the native side neither dropped nor
/// altered them: every entry sent is among the entries reported, and every
/// entry reported under a name that was sent reads as the entry sent.
/// Entries that the native side added under other names stand beside them.
pub proof fn lemma_reply_keeps_sent_options(sent: Seq<TextPair>, reply: Seq<BytePair>)
    requires
        distinct_keys(sent),
        forall|i: int| 0 <= i < sent.len() ==> reply.contains(#[trigger] encoded(sent)[i]),
        forall|j: int|
            0 <= j < reply.len() && pairs_map(sent).contains_key((#[trigger] decoded(reply)[j]).0)
                ==> sent.contains(decoded(reply)[j]),
    ensures
        pairs_map(sent).submap_of(pairs_map(decoded(reply))),
{
    let got = decoded(reply);
    assert forall|key: Seq<char>| #[trigger] pairs_map(sent).dom().contains(key) implies pairs_map(
        got,
    ).dom().contains(key) && pairs_map(sent)[key] == pairs_map(got)[key] by {
        lemma_pairs_map_dom(sent, key);
        let i = choose|i: int| 0 <= i < sent.len() && #[trigger] sent[i].0 == key;
        lemma_pairs_map_value(sent, i);
        let j = choose|j: int| 0 <= j < reply.len() && reply[j] == encoded(sent)[i];
        lemma_text_round_trip(sent[i].0);
        lemma_text_round_trip(sent[i].1);
        assert(got[j] == sent[i]);
        lemma_pairs_map_dom(got, key);
        lemma_pairs_map_witness(got, key);
        let k = choose|k: int|
            0 <= k < got.len() && (#[trigger] got[k]) == (key, pairs_map(got)[key]);
        let h = choose|h: int| 0 <= h < sent.len() && sent[h] == got[k];
        assert(h == i);
    }
}

} // verus!
