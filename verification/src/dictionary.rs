//! Arrays and dictionaries of decoded values.

use vstd::prelude::*;

use crate::bytes::{spec_read_u32, Reader};
use crate::error::{decodes_as, Decoded, Error, ErrorView};
use crate::parse::{
    read_dictionary_member, spec_dictionary_member, Parse, TypeReader, TypeReaderView,
};
use crate::varint::str_eq;

verus! {

/// A run of values of one type.
#[derive(Debug, PartialEq, Eq)]
pub struct Array<T> {
    pub vec: Vec<T>,
}

impl<T: DeepView> DeepView for Array<T> {
    type V = Seq<T::V>;

    open spec fn deep_view(&self) -> Seq<T::V> {
        self.vec.deep_view()
    }
}

/// A key of a dictionary that is a number or a string.
#[derive(PartialEq, Eq, Hash, Debug)]
pub enum DictionaryKey {
    Int(i32),
    String(String),
}

/// A type whose values can serve as keys of a [`Dictionary`]: two values can
/// be told apart.
pub trait Key: Parse {
    /// Whether two keys are the same key.
    fn same_key(&self, other: &Self) -> (same: bool)
        ensures
            same == (self.deep_view() == other.deep_view()),
    ;
}

impl Key for i32 {
    fn same_key(&self, other: &Self) -> (same: bool) {
        *self == *other
    }
}

impl Key for char {
    fn same_key(&self, other: &Self) -> (same: bool) {
        *self == *other
    }
}

impl Key for String {
    fn same_key(&self, other: &Self) -> (same: bool) {
        str_eq(self.as_str(), other.as_str())
    }
}

/// The map that a run of insertions builds, each entry inserted in turn: of
/// two entries with one key the later one stays.
pub open spec fn inserted_in_turn<K, V>(entries: Seq<(K, V)>) -> Map<K, V>
    decreases entries.len(),
{
    if entries.len() == 0 {
        Map::empty()
    } else {
        inserted_in_turn(entries.drop_last()).insert(entries.last().0, entries.last().1)
    }
}

/// No key occurs twice among `entries`.
pub open spec fn keys_differ<K, V>(entries: Seq<(K, V)>) -> bool {
    forall|i: int, j: int|
        0 <= i < j < entries.len() ==> (#[trigger] entries[i]).0 != (#[trigger] entries[j]).0
}

/// A map from keys to values, held as its entries in the order in which
/// their keys first came. No key occurs twice.
#[derive(Debug)]
pub struct Dictionary<K: Key, V: Parse> {
    entries: Vec<(K, V)>,
}

impl<K: Key, V: Parse> DeepView for Dictionary<K, V> {
    type V = Map<K::V, V::V>;

    closed spec fn deep_view(&self) -> Map<K::V, V::V> {
        inserted_in_turn(self.entries.deep_view())
    }
}

/// Replacing the value of a key that occurs once is inserting the key with
/// the new value.
proof fn lemma_replace_is_insert<K, V>(entries: Seq<(K, V)>, at: int, key: K, value: V)
    requires
        0 <= at < entries.len(),
        entries[at].0 == key,
        keys_differ(entries),
    ensures
        inserted_in_turn(entries.update(at, (key, value))) == inserted_in_turn(entries).insert(
            key,
            value,
        ),
        keys_differ(entries.update(at, (key, value))),
    decreases entries.len(),
{
    let replaced = entries.update(at, (key, value));
    let last = entries.len() - 1;
    assert forall|i: int, j: int| 0 <= i < j < replaced.len() implies (#[trigger] replaced[i]).0
        != (#[trigger] replaced[j]).0 by {
        assert(replaced[i].0 == entries[i].0);
        assert(replaced[j].0 == entries[j].0);
    }
    if at == last {
        assert(replaced.drop_last() =~= entries.drop_last());
        assert(inserted_in_turn(replaced) =~= inserted_in_turn(entries).insert(key, value));
    } else {
        assert(replaced.drop_last() =~= entries.drop_last().update(at, (key, value)));
        assert(keys_differ(entries.drop_last())) by {
            assert forall|i: int, j: int| 0 <= i < j < entries.drop_last().len() implies (
            #[trigger] entries.drop_last()[i]).0 != (#[trigger] entries.drop_last()[j]).0 by {
                assert(entries.drop_last()[i] == entries[i]);
                assert(entries.drop_last()[j] == entries[j]);
            }
        }
        lemma_replace_is_insert(entries.drop_last(), at, key, value);
        assert(entries[at].0 != entries[last].0);
        assert(replaced.last() == entries.last());
        assert(inserted_in_turn(replaced) =~= inserted_in_turn(entries).insert(key, value));
    }
}

/// A key that no entry holds is not in the map of the entries, and a key
/// that an entry holds is in it.
proof fn lemma_keys_of_map<K, V>(entries: Seq<(K, V)>, key: K)
    ensures
        inserted_in_turn(entries).dom().contains(key) <==> exists|i: int|
            0 <= i < entries.len() && (#[trigger] entries[i]).0 == key,
    decreases entries.len(),
{
    if entries.len() > 0 {
        let front = entries.drop_last();
        lemma_keys_of_map(front, key);
        if inserted_in_turn(entries).dom().contains(key) {
            if entries.last().0 == key {
                assert(entries[entries.len() - 1].0 == key);
            } else {
                let i = choose|i: int| 0 <= i < front.len() && (#[trigger] front[i]).0 == key;
                assert(entries[i].0 == key);
            }
        }
        if exists|i: int| 0 <= i < entries.len() && (#[trigger] entries[i]).0 == key {
            let i = choose|i: int| 0 <= i < entries.len() && (#[trigger] entries[i]).0 == key;
            if i < front.len() {
                assert(front[i].0 == key);
            }
        }
    }
}

/// Where no key occurs twice, the map of the entries gives each key the
/// value of its entry.
proof fn lemma_value_of_key<K, V>(entries: Seq<(K, V)>, at: int)
    requires
        0 <= at < entries.len(),
        keys_differ(entries),
    ensures
        inserted_in_turn(entries).dom().contains(entries[at].0),
        inserted_in_turn(entries)[entries[at].0] == entries[at].1,
    decreases entries.len(),
{
    let last = entries.len() - 1;
    if at < last {
        let front = entries.drop_last();
        assert(keys_differ(front)) by {
            assert forall|i: int, j: int| 0 <= i < j < front.len() implies (#[trigger] front[i]).0
                != (#[trigger] front[j]).0 by {
                assert(front[i] == entries[i]);
                assert(front[j] == entries[j]);
            }
        }
        assert(front[at] == entries[at]);
        lemma_value_of_key(front, at);
        assert(entries[at].0 != entries[last].0);
    }
}

impl<K: Key, V: Parse> Dictionary<K, V> {
    /// No key occurs twice among the entries.
    #[verifier::type_invariant]
    closed spec fn well_formed(&self) -> bool {
        keys_differ(self.entries.deep_view())
    }

    /// The entries, in the order in which their keys first came.
    pub closed spec fn spec_entries(&self) -> Seq<(K::V, V::V)> {
        self.entries.deep_view()
    }

    /// The entries, in the order in which their keys first came.
    pub fn entries(&self) -> (entries: &Vec<(K, V)>)
        ensures
            entries.deep_view() == self.spec_entries(),
            self.deep_view() == inserted_in_turn(self.spec_entries()),
            keys_differ(self.spec_entries()),
    {
        proof {
            use_type_invariant(self);
        }
        &self.entries
    }

    /// A dictionary without entries.
    pub fn empty() -> (dictionary: Self)
        ensures
            dictionary.deep_view() == Map::<K::V, V::V>::empty(),
    {
        let entries: Vec<(K, V)> = Vec::new();
        assert(entries.deep_view() =~= Seq::empty());
        Dictionary { entries }
    }

    /// The index of the entry of `key`, if there is one.
    fn position(&self, key: &K) -> (found: Option<usize>)
        ensures
            match found {
                Some(at) => at < self.entries@.len() && self.entries@[at as int].0.deep_view()
                    == key.deep_view(),
                None => forall|i: int|
                    0 <= i < self.entries@.len() ==> (#[trigger] self.entries@[i]).0.deep_view()
                        != key.deep_view(),
            },
    {
        let mut i: usize = 0;
        while i < self.entries.len()
            invariant
                i <= self.entries@.len(),
                forall|j: int|
                    0 <= j < i ==> (#[trigger] self.entries@[j]).0.deep_view() != key.deep_view(),
            decreases self.entries@.len() - i,
        {
            if self.entries[i].0.same_key(key) {
                return Some(i);
            }
            i = i + 1;
        }
        None
    }

    /// The dictionary in which `key` has the value `value`, in place of the
    /// value it had, if any, and every other key has the value it had.
    pub fn with(self, key: K, value: V) -> (extended: Self)
        ensures
            extended.deep_view() == self.deep_view().insert(key.deep_view(), value.deep_view()),
    {
        proof {
            use_type_invariant(&self);
        }
        let ghost before = self.entries.deep_view();
        let ghost entry = (key.deep_view(), value.deep_view());
        let found = self.position(&key);
        let mut entries = self.entries;
        let ghost moved = entries;
        match found {
            Some(at) => {
                entries[at] = (key, value);
                proof {
                    assert(entries.deep_view() =~= before.update(at as int, entry));
                    lemma_replace_is_insert(before, at as int, entry.0, entry.1);
                }
            },
            None => {
                entries.push((key, value));
                proof {
                    assert(entries.deep_view() =~= before.push(entry));
                    assert(before.push(entry).drop_last() =~= before);
                    assert forall|i: int, j: int|
                        0 <= i < j < before.push(entry).len() implies (#[trigger] before.push(
                        entry,
                    )[i]).0 != (#[trigger] before.push(entry)[j]).0 by {
                        assert(before[i] == moved@[i].deep_view());
                    }
                }
            },
        }
        Dictionary { entries }
    }

    /// Gives `key` the value `value`, in place of the value it had, if any.
    pub fn insert(&mut self, key: K, value: V)
        ensures
            final(self).deep_view() == old(self).deep_view().insert(
                key.deep_view(),
                value.deep_view(),
            ),
    {
        let mut taken = Dictionary::empty();
        core::mem::swap(self, &mut taken);
        *self = taken.with(key, value);
    }

    /// The value of `key`, if it has one.
    pub fn get(&self, key: &K) -> (found: Option<&V>)
        ensures
            match found {
                Some(value) => self.deep_view().dom().contains(key.deep_view())
                    && self.deep_view()[key.deep_view()] == value.deep_view(),
                None => !self.deep_view().dom().contains(key.deep_view()),
            },
    {
        proof {
            use_type_invariant(self);
        }
        let ghost entries = self.entries.deep_view();
        match self.position(key) {
            Some(at) => {
                proof {
                    assert(entries[at as int] == self.entries@[at as int].deep_view());
                    lemma_value_of_key(entries, at as int);
                }
                Some(&self.entries[at].1)
            },
            None => {
                proof {
                    lemma_keys_of_map(entries, key.deep_view());
                    if exists|i: int| 0 <= i < entries.len() && (#[trigger] entries[i]).0
                        == key.deep_view() {
                        let i = choose|i: int|
                            0 <= i < entries.len() && (#[trigger] entries[i]).0 == key.deep_view();
                        assert(entries[i] == self.entries@[i].deep_view());
                    }
                }
                None
            },
        }
    }

    /// The number of keys.
    pub fn len(&self) -> (n: usize)
        ensures
            n == self.spec_entries().len(),
    {
        self.entries.len()
    }
}

/// Reading `left` entries of a dictionary, each a key of declared type
/// `keytype` and then a value of declared type `valtype`, inserted in turn
/// into `done`.
pub open spec fn spec_entries<K: Parse, V: Parse>(
    input: Seq<u8>,
    pos: int,
    readers: Seq<TypeReaderView>,
    keytype: Seq<char>,
    valtype: Seq<char>,
    left: nat,
    done: Map<K::V, V::V>,
) -> Decoded<Map<K::V, V::V>>
    decreases left,
{
    if left == 0 {
        Ok((done, pos))
    } else {
        match spec_dictionary_member::<K>(keytype, input, pos, readers) {
            Ok((key, start)) => match spec_dictionary_member::<V>(valtype, input, start, readers) {
                Ok((value, next)) => spec_entries::<K, V>(
                    input,
                    next,
                    readers,
                    keytype,
                    valtype,
                    (left - 1) as nat,
                    done.insert(key, value),
                ),
                Err(e) => Err(e),
            },
            Err(e) => Err(e),
        }
    }
}

/// Reading a dictionary with keys of declared type `keytype` and values of
/// declared type `valtype`: a little-endian `u32` count, then that many
/// entries, of which a later one replaces an earlier one with the same key.
pub open spec fn spec_dictionary_of<K: Parse, V: Parse>(
    input: Seq<u8>,
    pos: int,
    readers: Seq<TypeReaderView>,
    keytype: Seq<char>,
    valtype: Seq<char>,
) -> Decoded<Map<K::V, V::V>> {
    match spec_read_u32(input, pos) {
        Ok((count, start)) => spec_entries::<K, V>(
            input,
            start,
            readers,
            keytype,
            valtype,
            count as nat,
            Map::empty(),
        ),
        Err(e) => Err(e),
    }
}

/// Reading a dictionary whose reader has the generic arguments `args`: the
/// first two are the declared types of the keys and of the values, and an
/// identity that carries fewer is refused.
pub open spec fn spec_dictionary<K: Parse, V: Parse>(
    input: Seq<u8>,
    pos: int,
    readers: Seq<TypeReaderView>,
    args: Seq<Seq<char>>,
) -> Decoded<Map<K::V, V::V>> {
    if args.len() < 2 {
        Err(ErrorView::MalformedGenericName)
    } else {
        spec_dictionary_of::<K, V>(input, pos, readers, args[0], args[1])
    }
}

impl<K: Key, V: Parse> Dictionary<K, V> {
    /// Reads a dictionary whose keys have the declared type `keytype` and
    /// whose values have the declared type `valtype`.
    pub fn new(keytype: &str, valtype: &str, rdr: &mut Reader, readers: &[TypeReader]) -> (r: Result<
        Dictionary<K, V>,
        Error,
    >)
        ensures
            final(rdr).input() == old(rdr).input(),
            decodes_as(
                r,
                final(rdr).position(),
                spec_dictionary_of::<K, V>(
                    old(rdr).input(),
                    old(rdr).position(),
                    readers.deep_view(),
                    keytype@,
                    valtype@,
                ),
            ),
    {
        let count = match rdr.read_u32() {
            Ok(count) => count,
            Err(e) => {
                return Err(e);
            },
        };
        let ghost input = rdr.input();
        let mut dictionary: Dictionary<K, V> = Dictionary::empty();
        let mut i: u32 = 0;
        while i < count
            invariant
                rdr.input() == input,
                input == old(rdr).input(),
                i <= count,
                spec_dictionary_of::<K, V>(
                    input,
                    old(rdr).position(),
                    readers.deep_view(),
                    keytype@,
                    valtype@,
                ) == spec_entries::<K, V>(
                    input,
                    rdr.position(),
                    readers.deep_view(),
                    keytype@,
                    valtype@,
                    (count - i) as nat,
                    dictionary.deep_view(),
                ),
            decreases count - i,
        {
            let key = match read_dictionary_member::<K>(keytype, rdr, readers) {
                Ok(key) => key,
                Err(e) => {
                    return Err(e);
                },
            };
            let value = match read_dictionary_member::<V>(valtype, rdr, readers) {
                Ok(value) => value,
                Err(e) => {
                    return Err(e);
                },
            };
            dictionary.insert(key, value);
            i = i + 1;
        }
        Ok(dictionary)
    }
}

impl<K: Key, V: Parse> Parse for Dictionary<K, V> {
    open spec fn reader_name() -> Seq<char> {
        "Microsoft.Xna.Framework.Content.DictionaryReader"@
    }

    open spec fn decoded(
        input: Seq<u8>,
        pos: int,
        readers: Seq<TypeReaderView>,
        args: Seq<Seq<char>>,
    ) -> Decoded<Map<K::V, V::V>> {
        spec_dictionary::<K, V>(input, pos, readers, args)
    }

    fn reader() -> (name: &'static str) {
        "Microsoft.Xna.Framework.Content.DictionaryReader"
    }

    fn try_parse(rdr: &mut Reader, readers: &[TypeReader], args: Vec<String>) -> (r: Result<
        Self,
        Error,
    >) {
        if args.len() < 2 {
            return Err(Error::MalformedGenericName);
        }
        proof {
            assert(args.deep_view()[0] == args@[0]@);
            assert(args.deep_view()[1] == args@[1]@);
        }
        Dictionary::new(args[0].as_str(), args[1].as_str(), rdr, readers)
    }
}

} // verus!
