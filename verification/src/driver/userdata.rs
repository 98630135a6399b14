//! Userdata: keys and values that accompany every message of a target.
use vstd::prelude::*;
use crate::bytes::{
    bytes_eq,
    copy_into,
    copy_line,
    law_trim_idempotent,
    law_trim_ignores_newline,
    overlay,
    trim_newline,
    trimmed,
};
use crate::cstr::CStr;
use crate::driver::attribute::PAGE_SIZE;
use crate::driver::entry::{append_entry, entry_line, law_entry_line_is_whole};
use crate::memory::{room_tried, try_room};
use crate::error::{Error, EEXIST, EINVAL, ENOENT, ENOMEM, ENOSPC};

verus! {

/// Maximum length of a value.
pub const MAX_EXTRADATA_VALUE_LEN: usize = 200;

/// Maximum length of a key.
pub const MAX_EXTRADATA_NAME_LEN: usize = 53;

/// Size of a key buffer.
pub const KEY_SIZE: usize = 54;

/// Maximum number of entries of a target.
pub const MAX_USERDATA_ITEMS: usize = 256;

/// An entry: a key and its value.
pub struct KeyValue {
    pub key: Seq<u8>,
    pub value: Seq<u8>,
}

/// The position of the first entry with a key; the number of entries where there is none.
pub open spec fn key_pos(items: Seq<KeyValue>, key: Seq<u8>) -> int
    decreases items.len(),
{
    if items.len() == 0 || items[0].key == key {
        0
    } else {
        1 + key_pos(items.skip(1), key)
    }
}

/// There is an entry with the key.
pub open spec fn has_key(items: Seq<KeyValue>, key: Seq<u8>) -> bool {
    key_pos(items, key) < items.len()
}

/// The value of a key.
pub open spec fn lookup(items: Seq<KeyValue>, key: Seq<u8>) -> Option<Seq<u8>> {
    if has_key(items, key) {
        Some(items[key_pos(items, key)].value)
    } else {
        None
    }
}

/// No two entries have the same key.
pub open spec fn unique_keys(items: Seq<KeyValue>) -> bool {
    forall|i: int, j: int|
        0 <= i < j < items.len() ==> (#[trigger] items[i]).key != (#[trigger] items[j]).key
}

/// The entries after a value was set.
pub open spec fn with_value(items: Seq<KeyValue>, key: Seq<u8>, value: Seq<u8>) -> Seq<KeyValue> {
    items.update(key_pos(items, key), KeyValue { key, value })
}

/// The entries after one was removed.
pub open spec fn without_key(items: Seq<KeyValue>, key: Seq<u8>) -> Seq<KeyValue> {
    if has_key(items, key) {
        items.remove(key_pos(items, key))
    } else {
        items
    }
}

/// What accompanies a message: the lines of the entries that have a value, in order.
pub open spec fn userdata_text(items: Seq<KeyValue>) -> Seq<u8>
    decreases items.len(),
{
    if items.len() == 0 {
        Seq::<u8>::empty()
    } else {
        let front = userdata_text(items.drop_last());
        let last = items.last();
        if last.value.len() > 0 {
            front + entry_line(last.key, last.value)
        } else {
            front
        }
    }
}

/// What `key_pos` finds.
pub proof fn lemma_key_pos(items: Seq<KeyValue>, key: Seq<u8>)
    ensures
        0 <= key_pos(items, key) <= items.len(),
        forall|i: int| 0 <= i < key_pos(items, key) ==> (#[trigger] items[i]).key != key,
        key_pos(items, key) < items.len() ==> items[key_pos(items, key)].key == key,
    decreases items.len(),
{
    if items.len() > 0 && items[0].key != key {
        lemma_key_pos(items.skip(1), key);
        assert forall|i: int| 0 <= i < key_pos(items, key) implies (#[trigger] items[i]).key
            != key by {
            if i > 0 {
                assert(items[i] == items.skip(1)[i - 1]);
            }
        }
    }
}

/// `key_pos` is the only position with its properties.
pub proof fn lemma_key_pos_unique(items: Seq<KeyValue>, key: Seq<u8>, n: int)
    requires
        0 <= n <= items.len(),
        forall|i: int| 0 <= i < n ==> (#[trigger] items[i]).key != key,
        n < items.len() ==> items[n].key == key,
    ensures
        key_pos(items, key) == n,
{
    lemma_key_pos(items, key);
    let m = key_pos(items, key);
    if m < n {
        assert(items[m].key != key);
    } else if n < m {
        assert(items[n].key != key);
    }
}

/// A value that was set reads back; every other key keeps its value, and no key comes or goes.
pub proof fn law_set_then_get(
    items: Seq<KeyValue>,
    key: Seq<u8>,
    value: Seq<u8>,
    other: Seq<u8>,
)
    requires
        has_key(items, key),
    ensures
        lookup(with_value(items, key, value), key) == Some(value),
        other != key ==> lookup(with_value(items, key, value), other) == lookup(items, other),
        unique_keys(items) ==> unique_keys(with_value(items, key, value)),
{
    let after = with_value(items, key, value);
    lemma_key_pos(items, key);
    lemma_key_pos(items, other);
    assert forall|i: int| 0 <= i < items.len() implies (#[trigger] after[i]).key == items[i].key by {}
    lemma_key_pos_unique(after, key, key_pos(items, key));
    lemma_key_pos_unique(after, other, key_pos(items, other));
}

/// An added entry has an empty value and says nothing; every other key keeps its value.
pub proof fn law_add_then_get(items: Seq<KeyValue>, key: Seq<u8>, other: Seq<u8>)
    requires
        !has_key(items, key),
    ensures
        ({
            let after = items.push(KeyValue { key, value: Seq::<u8>::empty() });
            &&& lookup(after, key) == Some(Seq::<u8>::empty())
            &&& other != key ==> lookup(after, other) == lookup(items, other)
            &&& unique_keys(items) ==> unique_keys(after)
            &&& userdata_text(after) == userdata_text(items)
        }),
{
    let after = items.push(KeyValue { key, value: Seq::<u8>::empty() });
    lemma_key_pos(items, key);
    lemma_key_pos(items, other);
    lemma_key_pos_unique(after, key, items.len() as int);
    if other != key {
        if has_key(items, other) {
            lemma_key_pos_unique(after, other, key_pos(items, other));
        } else {
            lemma_key_pos_unique(after, other, items.len() as int + 1);
        }
    }
    assert(after.drop_last() =~= items);
}

/// A removed key is gone; every other key keeps its value.
pub proof fn law_remove_then_get(items: Seq<KeyValue>, key: Seq<u8>, other: Seq<u8>)
    requires
        unique_keys(items),
    ensures
        lookup(without_key(items, key), key) is None,
        other != key ==> lookup(without_key(items, key), other) == lookup(items, other),
        unique_keys(without_key(items, key)),
{
    let after = without_key(items, key);
    lemma_key_pos(items, key);
    lemma_key_pos(items, other);
    if has_key(items, key) {
        let p = key_pos(items, key);
        assert forall|i: int| 0 <= i < after.len() implies (#[trigger] after[i]).key != key by {
            if i < p {
                assert(after[i] == items[i]);
            } else {
                assert(after[i] == items[i + 1]);
                assert(items[p].key != items[i + 1].key);
            }
        }
        lemma_key_pos_unique(after, key, after.len() as int);
        assert forall|i: int, j: int| 0 <= i < j < after.len() implies (#[trigger] after[i]).key != (
        #[trigger] after[j]).key by {
            let a = if i < p {
                i
            } else {
                i + 1
            };
            let b = if j < p {
                j
            } else {
                j + 1
            };
            assert(after[i] == items[a] && after[j] == items[b]);
        }
        if other != key {
            let q = key_pos(items, other);
            let n = if q < p {
                q
            } else {
                q - 1
            };
            assert(q != p);
            assert forall|i: int| 0 <= i < n implies (#[trigger] after[i]).key != other by {
                if i < p {
                    assert(after[i] == items[i]);
                } else {
                    assert(after[i] == items[i + 1]);
                }
            }
            lemma_key_pos_unique(after, other, n);
        }
    }
}

/// Removing an entry undoes adding it.
pub proof fn law_remove_undoes_add(items: Seq<KeyValue>, key: Seq<u8>)
    requires
        !has_key(items, key),
    ensures
        without_key(items.push(KeyValue { key, value: Seq::<u8>::empty() }), key) == items,
{
    let after = items.push(KeyValue { key, value: Seq::<u8>::empty() });
    lemma_key_pos(items, key);
    lemma_key_pos_unique(after, key, items.len() as int);
    assert(after.remove(items.len() as int) =~= items);
}

/// The text of two groups of entries is that of the first, then that of the second.
pub proof fn law_text_of_parts(a: Seq<KeyValue>, b: Seq<KeyValue>)
    ensures
        userdata_text(a + b) == userdata_text(a) + userdata_text(b),
    decreases b.len(),
{
    if b.len() == 0 {
        assert(a + b =~= a);
        assert(userdata_text(a) + userdata_text(b) =~= userdata_text(a));
    } else {
        assert((a + b).drop_last() =~= a + b.drop_last());
        law_text_of_parts(a, b.drop_last());
        assert((a + b).last() == b.last());
        if b.last().value.len() > 0 {
            let line = entry_line(b.last().key, b.last().value);
            assert(userdata_text(a) + (userdata_text(b.drop_last()) + line) =~= (userdata_text(a)
                + userdata_text(b.drop_last())) + line);
        }
    }
}

/// Every entry that has a value is told of, in its place.
pub proof fn law_text_tells_of_entry(items: Seq<KeyValue>, i: int)
    requires
        0 <= i < items.len(),
        items[i].value.len() > 0,
    ensures
        userdata_text(items) == userdata_text(items.take(i)) + entry_line(
            items[i].key,
            items[i].value,
        ) + userdata_text(items.skip(i + 1)),
{
    let mid = seq![items[i]];
    assert(items =~= (items.take(i) + mid) + items.skip(i + 1));
    law_text_of_parts(items.take(i) + mid, items.skip(i + 1));
    law_text_of_parts(items.take(i), mid);
    assert(mid.drop_last() =~= Seq::<KeyValue>::empty());
    assert(userdata_text(mid.drop_last()) == Seq::<u8>::empty());
    assert(userdata_text(mid) =~= entry_line(items[i].key, items[i].value));
}

/// A stored value.
#[derive(Clone, Copy, Debug)]
pub struct UserdataValue {
    pub data: [u8; MAX_EXTRADATA_VALUE_LEN],
    pub len: usize,
}

impl View for UserdataValue {
    type V = Seq<u8>;

    open spec fn view(&self) -> Seq<u8> {
        self.data@.take(self.len as int)
    }
}

impl UserdataValue {
    pub open spec fn wf(self) -> bool {
        self.len <= MAX_EXTRADATA_VALUE_LEN
    }

    /// The empty value.
    pub fn new() -> (v: UserdataValue)
        ensures
            v.wf(),
            v@ == Seq::<u8>::empty(),
            v.len == 0,
            v.data@ == Seq::new(MAX_EXTRADATA_VALUE_LEN as nat, |i: int| 0u8),
    {
        let v: UserdataValue = UserdataValue { data: [0u8; MAX_EXTRADATA_VALUE_LEN], len: 0 };
        assert(v.data@ =~= Seq::new(MAX_EXTRADATA_VALUE_LEN as nat, |i: int| 0u8));
        assert(v@ =~= Seq::<u8>::empty());
        v
    }

    /// The bytes of the value.
    pub fn bytes(&self) -> (r: &[u8])
        requires
            self.wf(),
        ensures
            r@ == self@,
    {
        assert(self.data@.subrange(0, self.len as int) =~= self@);
        &self.data[0..self.len]
    }

    /// Replaces the value.
    pub fn set(&mut self, value: &[u8])
        requires
            value@.len() <= MAX_EXTRADATA_VALUE_LEN,
        ensures
            final(self).wf(),
            final(self)@ == value@,
    {
        copy_into(&mut self.data, value);
        self.len = value.len();
        assert(self@ =~= value@);
    }
}

/// The pre-formatted lines of the entries.
#[derive(Debug)]
pub struct UserdataCache {
    pub data: Option<Vec<u8>>,
    pub len: usize,
}

impl View for UserdataCache {
    type V = Seq<u8>;

    open spec fn view(&self) -> Seq<u8> {
        match self.data {
            Some(data) => data@,
            None => Seq::<u8>::empty(),
        }
    }
}

impl UserdataCache {
    /// There is data exactly where there is something to say, and its length is recorded.
    pub open spec fn wf(self) -> bool {
        &&& self.len == self@.len()
        &&& self.data is Some <==> self.len > 0
    }

    /// The cache of no entries.
    pub fn new() -> (c: UserdataCache)
        ensures
            c.wf(),
            c@ == Seq::<u8>::empty(),
    {
        UserdataCache { data: None, len: 0 }
    }
}

/// An entry as it is stored.
#[derive(Clone, Copy, Debug)]
pub struct UserdataItem {
    pub key: [u8; KEY_SIZE],
    pub key_len: usize,
    pub value: UserdataValue,
}

impl View for UserdataItem {
    type V = KeyValue;

    open spec fn view(&self) -> KeyValue {
        KeyValue { key: self.key@.take(self.key_len as int), value: self.value@ }
    }
}

impl UserdataItem {
    pub open spec fn wf(self) -> bool {
        self.key_len <= KEY_SIZE && self.value.wf()
    }

    /// The bytes of the key.
    pub fn key_bytes(&self) -> (r: &[u8])
        requires
            self.wf(),
        ensures
            r@ == self@.key,
    {
        assert(self.key@.subrange(0, self.key_len as int) =~= self@.key);
        &self.key[0..self.key_len]
    }
}

/// A key buffer that begins with `key`.
fn key_buffer(key: &[u8]) -> (buf: [u8; KEY_SIZE])
    requires
        key@.len() <= KEY_SIZE,
    ensures
        buf@.take(key@.len() as int) == key@,
{
    let mut buf: [u8; KEY_SIZE] = [0u8; KEY_SIZE];
    copy_into(&mut buf, key);
    assert(buf@.take(key@.len() as int) =~= key@);
    buf
}

/// The entries of a target.
#[derive(Debug)]
pub struct Userdata {
    /// Number of entries.
    pub entry_count: usize,
    /// The entries, in the order in which they were added.
    pub values: Vec<UserdataItem>,
}

impl View for Userdata {
    type V = Seq<KeyValue>;

    open spec fn view(&self) -> Seq<KeyValue> {
        self.values@.map_values(|item: UserdataItem| item@)
    }
}

/// The cache after it was rebuilt for `items`: it holds their text, unless memory for that text
/// was tried for and was not there; then it is as it was.
pub open spec fn rebuilt(before: UserdataCache, after: UserdataCache, items: Seq<KeyValue>) -> bool {
    &&& after.wf()
    &&& after@ == userdata_text(items) || (after == before && userdata_text(items).len() > 0)
    &&& 0 < userdata_text(items).len() <= usize::MAX ==> exists|v: Vec<u8>, ok: bool| #[trigger]
        room_tried(v, userdata_text(items).len() as usize, ok) && v@.len() == 0 && if ok {
            after@ == userdata_text(items)
        } else {
            after == before
        }
}

impl Userdata {
    /// Entries are counted and well formed, and no key occurs twice.
    pub open spec fn wf(self) -> bool {
        &&& self.entry_count == self.values@.len()
        &&& forall|i: int| 0 <= i < self.values@.len() ==> (#[trigger] self.values@[i]).wf()
        &&& unique_keys(self@)
    }

    /// No entries.
    pub fn new() -> (u: Userdata)
        ensures
            u.wf(),
            u@ == Seq::<KeyValue>::empty(),
    {
        let u: Userdata = Userdata { entry_count: 0, values: Vec::new() };
        assert(u@ =~= Seq::<KeyValue>::empty());
        u
    }

    /// The position of a key.
    fn find(&self, key: &[u8]) -> (r: Option<usize>)
        requires
            self.wf(),
        ensures
            r is Some <==> has_key(self@, key@),
            r matches Some(p) ==> p == key_pos(self@, key@) && p < self.values@.len(),
    {
        let mut i: usize = 0;
        while i < self.values.len()
            invariant
                self.wf(),
                i <= self.values@.len(),
                forall|j: int| 0 <= j < i ==> (#[trigger] self@[j]).key != key@,
            decreases self.values@.len() - i,
        {
            assert(self@[i as int] == self.values@[i as int]@);
            if bytes_eq(self.values[i].key_bytes(), key) {
                proof {
                    lemma_key_pos_unique(self@, key@, i as int);
                }
                return Some(i);
            }
            i += 1;
        }
        proof {
            lemma_key_pos_unique(self@, key@, i as int);
        }
        None
    }

    /// Makes room for one more entry. Whether there is memory for it is not up to this code.
    fn reserve(&mut self) -> (r: bool)
        ensures
            final(self).values@ == old(self).values@,
            final(self).entry_count == old(self).entry_count,
            room_tried(old(self).values, 1, r),
    {
        try_room(&mut self.values, 1)
    }

    /// Adds an entry with an empty value, given whether there is memory for it.
    pub fn add_reserved(&mut self, key: &[u8], reserved: bool) -> (r: Result<(), Error>)
        requires
            old(self).wf(),
            key@.len() <= KEY_SIZE,
        ensures
            final(self).wf(),
            has_key(old(self)@, key@) ==> r == Err::<(), Error>(Error(EEXIST)),
            !has_key(old(self)@, key@) && !reserved ==> r == Err::<(), Error>(Error(ENOMEM)),
            !has_key(old(self)@, key@) && reserved ==> r == Ok::<(), Error>(()),
            r is Err ==> *final(self) == *old(self),
            r is Ok ==> final(self)@ == old(self)@.push(
                KeyValue { key: key@, value: Seq::<u8>::empty() },
            ),
    {
        if self.find(key).is_some() {
            return Err(Error(EEXIST));
        }
        if !reserved {
            return Err(Error(ENOMEM));
        }
        let item: UserdataItem = UserdataItem {
            key: key_buffer(key),
            key_len: key.len(),
            value: UserdataValue::new(),
        };
        self.values.push(item);
        self.entry_count = self.values.len();
        proof {
            law_add_then_get(old(self)@, key@, key@);
            assert(self@ =~= old(self)@.push(KeyValue { key: key@, value: Seq::<u8>::empty() }));
        }
        Ok(())
    }

    /// Adds an entry with an empty value. A key that exists already is refused; so is any where
    /// there is no memory for another entry.
    pub fn add_entry(&mut self, key: &[u8]) -> (r: Result<(), Error>)
        requires
            old(self).wf(),
            key@.len() <= KEY_SIZE,
        ensures
            final(self).wf(),
            has_key(old(self)@, key@) <==> r == Err::<(), Error>(Error(EEXIST)),
            !has_key(old(self)@, key@) ==> room_tried(old(self).values, 1, r is Ok),
            r is Err ==> final(self)@ == old(self)@ && (r == Err::<(), Error>(Error(EEXIST)) || r
                == Err::<(), Error>(Error(ENOMEM))),
            r is Ok ==> final(self)@ == old(self)@.push(
                KeyValue { key: key@, value: Seq::<u8>::empty() },
            ),
    {
        let reserved: bool = self.reserve();
        self.add_reserved(key, reserved)
    }

    /// Removes an entry, where there is one with the key.
    pub fn remove_entry(&mut self, key: &[u8])
        requires
            old(self).wf(),
        ensures
            final(self).wf(),
            final(self)@ == without_key(old(self)@, key@),
    {
        if let Some(pos) = self.find(key) {
            let _ = self.values.remove(pos);
            self.entry_count = self.entry_count - 1;
            proof {
                law_remove_then_get(old(self)@, key@, key@);
                assert(self@ =~= without_key(old(self)@, key@));
                assert forall|i: int| 0 <= i < self.values@.len() implies (
                #[trigger] self.values@[i]).wf() by {
                    if i < pos {
                        assert(self.values@[i] == old(self).values@[i]);
                    } else {
                        assert(self.values@[i] == old(self).values@[i + 1]);
                    }
                }
            }
        }
    }

    /// Writes the value of a key over the beginning of a buffer; returns its length, zero where
    /// there is no such key.
    pub fn get_value(&self, key: &[u8], out: &mut [u8; MAX_EXTRADATA_VALUE_LEN]) -> (n: usize)
        requires
            self.wf(),
        ensures
            n <= MAX_EXTRADATA_VALUE_LEN,
            match lookup(self@, key@) {
                Some(value) => n == value.len() && final(out)@ == overlay(old(out)@, value),
                None => n == 0 && final(out)@ == old(out)@,
            },
    {
        match self.find(key) {
            Some(pos) => {
                assert(self@[pos as int] == self.values@[pos as int]@);
                let value = self.values[pos].value.bytes();
                copy_into(out, value);
                value.len()
            },
            None => 0,
        }
    }

    /// Replaces the value of a key.
    pub fn replace_value(&mut self, key: &[u8], value: &[u8]) -> (r: Result<(), Error>)
        requires
            old(self).wf(),
        ensures
            final(self).wf(),
            !has_key(old(self)@, key@) ==> r == Err::<(), Error>(Error(ENOENT)),
            has_key(old(self)@, key@) && value@.len() > MAX_EXTRADATA_VALUE_LEN ==> r == Err::<
                (),
                Error,
            >(Error(EINVAL)),
            has_key(old(self)@, key@) && value@.len() <= MAX_EXTRADATA_VALUE_LEN ==> r == Ok::<
                (),
                Error,
            >(()),
            r is Err ==> *final(self) == *old(self),
            r is Ok ==> final(self)@ == with_value(old(self)@, key@, value@),
    {
        match self.find(key) {
            Some(pos) => {
                if value.len() > MAX_EXTRADATA_VALUE_LEN {
                    return Err(Error(EINVAL));
                }
                proof {
                    lemma_key_pos(self@, key@);
                    law_set_then_get(self@, key@, value@, key@);
                }
                let mut item: UserdataItem = self.values[pos];
                assert(item@ == self@[pos as int]);
                item.value.set(value);
                self.values[pos] = item;
                proof {
                    assert(item@ == KeyValue { key: key@, value: value@ });
                    assert(self@ =~= with_value(old(self)@, key@, value@));
                }
                Ok(())
            },
            None => Err(Error(ENOENT)),
        }
    }

    /// Sets the value of a key and rebuilds the cache.
    pub fn set_value(&mut self, key: &[u8], value: &[u8], cache: &mut UserdataCache) -> (r: Result<
        (),
        Error,
    >)
        requires
            old(self).wf(),
            old(cache).wf(),
        ensures
            final(self).wf(),
            final(cache).wf(),
            !has_key(old(self)@, key@) ==> r == Err::<(), Error>(Error(ENOENT)),
            has_key(old(self)@, key@) && value@.len() > MAX_EXTRADATA_VALUE_LEN ==> r == Err::<
                (),
                Error,
            >(Error(EINVAL)),
            has_key(old(self)@, key@) && value@.len() <= MAX_EXTRADATA_VALUE_LEN ==> r == Ok::<
                (),
                Error,
            >(()),
            r is Err ==> *final(self) == *old(self) && *final(cache) == *old(cache),
            r is Ok ==> final(self)@ == with_value(old(self)@, key@, value@) && rebuilt(
                *old(cache),
                *final(cache),
                final(self)@,
            ),
    {
        match self.replace_value(key, value) {
            Ok(_) => {
                self.rebuild_cache(cache);
                Ok(())
            },
            Err(e) => Err(e),
        }
    }

    /// The length of the text of the entries; `None` where no buffer can be that long.
    pub fn text_len(&self) -> (r: Option<usize>)
        requires
            self.wf(),
        ensures
            match r {
                Some(n) => n == userdata_text(self@).len(),
                None => userdata_text(self@).len() > usize::MAX,
            },
    {
        let mut total: usize = 0;
        let mut i: usize = 0;
        assert(self@.take(0) =~= Seq::<KeyValue>::empty());
        while i < self.values.len()
            invariant
                self.wf(),
                i <= self.values@.len(),
                total == userdata_text(self@.take(i as int)).len(),
            decreases self.values@.len() - i,
        {
            let item = &self.values[i];
            let ghost kv = self@[i as int];
            assert(kv == item@);
            assert(item.wf());
            assert(self@.take(i + 1).drop_last() =~= self@.take(i as int));
            assert(self@.take(i + 1).last() == kv);
            if item.value.len > 0 {
                let line: usize = 1 + item.key_len + 1 + item.value.len + 1;
                assert(entry_line(kv.key, kv.value).len() == line);
                match total.checked_add(line) {
                    Some(sum) => {
                        total = sum;
                    },
                    None => {
                        proof {
                            lemma_text_grows(self@, i + 1);
                        }
                        return None;
                    },
                }
            }
            i += 1;
        }
        assert(self@.take(i as int) =~= self@);
        Some(total)
    }

    /// Appends the text of the entries to an empty buffer.
    fn append_text(&self, buf: &mut Vec<u8>)
        requires
            self.wf(),
            old(buf)@ == Seq::<u8>::empty(),
        ensures
            final(buf)@ == userdata_text(self@),
    {
        let mut i: usize = 0;
        assert(self@.take(0) =~= Seq::<KeyValue>::empty());
        while i < self.values.len()
            invariant
                self.wf(),
                i <= self.values@.len(),
                buf@ == userdata_text(self@.take(i as int)),
            decreases self.values@.len() - i,
        {
            let item = &self.values[i];
            let ghost kv = self@[i as int];
            assert(kv == item@);
            assert(item.wf());
            assert(self@.take(i + 1).drop_last() =~= self@.take(i as int));
            assert(self@.take(i + 1).last() == kv);
            if item.value.len > 0 {
                append_entry(buf, item.key_bytes(), item.value.bytes());
            }
            i += 1;
        }
        assert(self@.take(i as int) =~= self@);
    }

    /// Rebuilds the cache, given a buffer for its text where there is memory for one. Without a
    /// buffer the cache stays as it is, unless there is nothing to say.
    pub fn fill_cache(&self, buf: Option<Vec<u8>>, cache: &mut UserdataCache)
        requires
            self.wf(),
            old(cache).wf(),
            buf matches Some(b) ==> b@ == Seq::<u8>::empty(),
        ensures
            final(cache).wf(),
            userdata_text(self@).len() == 0 || buf is Some ==> final(cache)@ == userdata_text(
                self@,
            ),
            userdata_text(self@).len() > 0 && buf is None ==> *final(cache) == *old(cache),
    {
        let empty: bool = match self.text_len() {
            Some(n) => n == 0,
            None => false,
        };
        if empty {
            cache.data = None;
            cache.len = 0;
            assert(cache@ =~= userdata_text(self@));
            return ;
        }
        if let Some(b) = buf {
            let mut b: Vec<u8> = b;
            self.append_text(&mut b);
            cache.len = b.len();
            cache.data = Some(b);
        }
    }

    /// Rebuilds the cache.
    pub fn rebuild_cache(&self, cache: &mut UserdataCache)
        requires
            self.wf(),
            old(cache).wf(),
        ensures
            rebuilt(*old(cache), *final(cache), self@),
    {
        let buf: Option<Vec<u8>> = match self.text_len() {
            Some(n) => if n > 0 {
                allocate(n)
            } else {
                None
            },
            None => None,
        };
        let ghost there = buf is Some;
        self.fill_cache(buf, cache);
        proof {
            let text = userdata_text(self@);
            if 0 < text.len() <= usize::MAX {
                let (v, ok) = choose|v: Vec<u8>, ok: bool| #[trigger]
                    room_tried(v, text.len() as usize, ok) && v@.len() == 0 && ok == there;
                assert(room_tried(v, text.len() as usize, ok));
                assert(if ok {
                    cache@ == text
                } else {
                    *cache == *old(cache)
                });
            }
        }
    }

    /// Makes an entry, given whether there is memory for it.
    pub fn make_group_reserved(&mut self, name: &CStr, reserved: bool) -> (r: Result<
        UserdataEntry,
        Error,
    >)
        requires
            old(self).wf(),
        ensures
            final(self).wf(),
            group_refusal(old(self)@, name@, reserved) matches Some(e) ==> r == Err::<
                UserdataEntry,
                Error,
            >(e) && *final(self) == *old(self),
            group_refusal(old(self)@, name@, reserved) is None ==> (r matches Ok(entry) && entry@
                == name@ && final(self)@ == old(self)@.push(
                KeyValue { key: name@, value: Seq::<u8>::empty() },
            )),
            old(self)@.len() <= MAX_USERDATA_ITEMS ==> final(self)@.len() <= MAX_USERDATA_ITEMS,
    {
        let key = name.to_bytes();
        if key.len() > MAX_EXTRADATA_NAME_LEN {
            return Err(Error(EINVAL));
        }
        if self.entry_count >= MAX_USERDATA_ITEMS {
            return Err(Error(ENOSPC));
        }
        match self.add_reserved(key, reserved) {
            Ok(_) => Ok(UserdataEntry::new(name)),
            Err(e) => Err(e),
        }
    }

    /// Makes an entry. A name that is too long or exists already is refused; so is any name where
    /// there are as many entries as there may be, or no memory for another one.
    pub fn make_group(&mut self, name: &CStr) -> (r: Result<UserdataEntry, Error>)
        requires
            old(self).wf(),
        ensures
            final(self).wf(),
            exists|reserved: bool|
                {
                    &&& (#[trigger] group_refusal(old(self)@, name@, reserved)) matches Some(e)
                        ==> r == Err::<UserdataEntry, Error>(e) && final(self)@ == old(self)@
                    &&& group_refusal(old(self)@, name@, reserved) is None ==> (r matches Ok(entry)
                        && entry@ == name@ && final(self)@ == old(self)@.push(
                        KeyValue { key: name@, value: Seq::<u8>::empty() },
                    ))
                },
            group_refusal(old(self)@, name@, true) is None ==> room_tried(
                old(self).values,
                1,
                r is Ok,
            ),
            old(self)@.len() <= MAX_USERDATA_ITEMS ==> final(self)@.len() <= MAX_USERDATA_ITEMS,
    {
        let reserved: bool = self.reserve();
        assert(self@ == old(self)@);
        self.make_group_reserved(name, reserved)
    }

    /// An entry was dropped: the cache is rebuilt. The entry itself stays.
    pub fn drop_item(&self, cache: &mut UserdataCache)
        requires
            self.wf(),
            old(cache).wf(),
        ensures
            rebuilt(*old(cache), *final(cache), self@),
    {
        self.rebuild_cache(cache);
    }
}

/// Why an entry cannot be made, where it cannot.
pub open spec fn group_refusal(items: Seq<KeyValue>, name: Seq<u8>, reserved: bool) -> Option<Error> {
    if name.len() > MAX_EXTRADATA_NAME_LEN {
        Some(Error(EINVAL))
    } else if items.len() >= MAX_USERDATA_ITEMS {
        Some(Error(ENOSPC))
    } else if has_key(items, name) {
        Some(Error(EEXIST))
    } else if !reserved {
        Some(Error(ENOMEM))
    } else {
        None
    }
}

/// An empty buffer with room for `n` bytes, where there is memory for one.
fn allocate(n: usize) -> (r: Option<Vec<u8>>)
    ensures
        r matches Some(b) ==> b@ == Seq::<u8>::empty(),
        exists|v: Vec<u8>, ok: bool| #[trigger]
            room_tried(v, n, ok) && v@.len() == 0 && ok == (r is Some),
{
    let mut b: Vec<u8> = Vec::new();
    if try_room(&mut b, n) {
        Some(b)
    } else {
        None
    }
}

/// The text only grows with the entries.
proof fn lemma_text_grows(items: Seq<KeyValue>, n: int)
    requires
        0 <= n <= items.len(),
    ensures
        userdata_text(items.take(n)).len() <= userdata_text(items).len(),
    decreases items.len(),
{
    if n == items.len() {
        assert(items.take(n) =~= items);
    } else {
        assert(items.drop_last().take(n) =~= items.take(n));
        lemma_text_grows(items.drop_last(), n);
    }
}

/// The handle of an entry: its key.
#[derive(Clone, Copy, Debug)]
pub struct UserdataEntry {
    key: [u8; KEY_SIZE],
    key_len: usize,
}

impl View for UserdataEntry {
    type V = Seq<u8>;

    closed spec fn view(&self) -> Seq<u8> {
        self.key@.take(self.key_len as int)
    }
}

/// The line that shows an entry.
pub open spec fn value_line(items: Seq<KeyValue>, key: Seq<u8>) -> Seq<u8> {
    match lookup(items, key) {
        Some(value) => value.push('\n' as u8),
        None => seq!['\n' as u8],
    }
}

/// Why a value cannot be stored, where it cannot.
pub open spec fn value_refusal(items: Seq<KeyValue>, key: Seq<u8>, page: Seq<u8>) -> Option<Error> {
    if trimmed(page).len() > MAX_EXTRADATA_VALUE_LEN {
        Some(Error(EINVAL))
    } else if !has_key(items, key) {
        Some(Error(ENOENT))
    } else {
        None
    }
}

impl UserdataEntry {
    #[verifier::type_invariant]
    spec fn inv(self) -> bool {
        self.key_len <= KEY_SIZE
    }

    /// The handle of the entry with a key.
    pub fn new(key: &CStr) -> (entry: UserdataEntry)
        requires
            key@.len() <= KEY_SIZE,
        ensures
            entry@ == key@,
    {
        let bytes = key.to_bytes();
        UserdataEntry { key: key_buffer(bytes), key_len: bytes.len() }
    }

    /// The key.
    pub fn key_bytes(&self) -> (r: &[u8])
        ensures
            r@ == self@,
    {
        proof {
            use_type_invariant(self);
        }
        assert(self.key@.subrange(0, self.key_len as int) =~= self@);
        &self.key[0..self.key_len]
    }

    /// Shows the value of the entry on a page; returns the number of bytes written.
    pub fn show(&self, parent: &Userdata, page: &mut [u8; PAGE_SIZE]) -> (n: usize)
        requires
            parent.wf(),
        ensures
            n == value_line(parent@, self@).len(),
            final(page)@ == overlay(old(page)@, value_line(parent@, self@)),
    {
        let mut value: [u8; MAX_EXTRADATA_VALUE_LEN] = [0u8; MAX_EXTRADATA_VALUE_LEN];
        let len: usize = parent.get_value(self.key_bytes(), &mut value);
        let text = &value[0..len];
        assert(text@.push('\n' as u8) =~= value_line(parent@, self@));
        copy_line(page, text)
    }

    /// Stores a value, without the line ends at its end, and rebuilds the cache.
    pub fn store(&self, parent: &mut Userdata, cache: &mut UserdataCache, page: &[u8]) -> (r: Result<
        (),
        Error,
    >)
        requires
            old(parent).wf(),
            old(cache).wf(),
        ensures
            final(parent).wf(),
            final(cache).wf(),
            match value_refusal(old(parent)@, self@, page@) {
                Some(e) => r == Err::<(), Error>(e) && *final(parent) == *old(parent)
                    && *final(cache) == *old(cache),
                None => r == Ok::<(), Error>(()) && final(parent)@ == with_value(
                    old(parent)@,
                    self@,
                    trimmed(page@),
                ) && rebuilt(*old(cache), *final(cache), final(parent)@),
            },
    {
        let text = trim_newline(page);
        if text.len() > MAX_EXTRADATA_VALUE_LEN {
            return Err(Error(EINVAL));
        }
        parent.set_value(self.key_bytes(), text, cache)
    }
}

/// What is stored is shown, without the line ends at its end and with one line feed; and storing
/// what is shown changes nothing.
pub proof fn law_stored_value_is_shown(items: Seq<KeyValue>, key: Seq<u8>, page: Seq<u8>)
    requires
        has_key(items, key),
    ensures
        ({
            let after = with_value(items, key, trimmed(page));
            let shown = value_line(after, key);
            &&& shown == trimmed(page).push('\n' as u8)
            &&& with_value(after, key, trimmed(shown)) == after
        }),
{
    let after = with_value(items, key, trimmed(page));
    law_set_then_get(items, key, trimmed(page), key);
    law_trim_ignores_newline(trimmed(page));
    law_trim_idempotent(page);
    lemma_key_pos(items, key);
    lemma_key_pos(after, key);
    assert forall|i: int| 0 <= i < items.len() implies (#[trigger] after[i]).key == items[i].key by {}
    lemma_key_pos_unique(after, key, key_pos(items, key));
    assert(with_value(after, key, trimmed(page)) =~= after);
}

/// A key is found at the first entry that has it, and not found where no entry has it.
pub proof fn law_first_entry_is_found(items: Seq<KeyValue>, key: Seq<u8>, i: int)
    ensures
        0 <= i < items.len() && items[i].key == key && (forall|j: int|
            0 <= j < i ==> (#[trigger] items[j]).key != key) ==> lookup(items, key) == Some(
            items[i].value,
        ) && has_key(items, key),
        (forall|j: int| 0 <= j < items.len() ==> (#[trigger] items[j]).key != key) ==> lookup(
            items,
            key,
        ) is None && !has_key(items, key),
{
    if 0 <= i < items.len() && items[i].key == key && (forall|j: int|
        0 <= j < i ==> (#[trigger] items[j]).key != key) {
        lemma_key_pos_unique(items, key, i);
    }
    if forall|j: int| 0 <= j < items.len() ==> (#[trigger] items[j]).key != key {
        lemma_key_pos_unique(items, key, items.len() as int);
    }
}

/// Setting a value changes the value of the entry that has the key, and nothing else; `a` and `b`
/// are the entries in front of it and behind it.
pub proof fn law_set_changes_one_entry(
    a: Seq<KeyValue>,
    b: Seq<KeyValue>,
    key: Seq<u8>,
    before: Seq<u8>,
    value: Seq<u8>,
)
    requires
        forall|j: int| 0 <= j < a.len() ==> (#[trigger] a[j]).key != key,
    ensures
        with_value(a + seq![KeyValue { key, value: before }] + b, key, value) == a + seq![
            KeyValue { key, value },
        ] + b,
{
    let items = a + seq![KeyValue { key, value: before }] + b;
    assert forall|j: int| 0 <= j < a.len() implies (#[trigger] items[j]).key != key by {
        assert(items[j] == a[j]);
    }
    assert(items[a.len() as int].key == key);
    lemma_key_pos_unique(items, key, a.len() as int);
    assert(with_value(items, key, value) =~= a + seq![KeyValue { key, value }] + b);
}

/// Removing takes out the entry that has the key, and keeps the others in their order.
pub proof fn law_remove_takes_one_entry(a: Seq<KeyValue>, b: Seq<KeyValue>, kv: KeyValue)
    requires
        forall|j: int| 0 <= j < a.len() ==> (#[trigger] a[j]).key != kv.key,
    ensures
        without_key(a + seq![kv] + b, kv.key) == a + b,
        without_key(a, kv.key) == a,
{
    let items = a + seq![kv] + b;
    assert forall|j: int| 0 <= j < a.len() implies (#[trigger] items[j]).key != kv.key by {
        assert(items[j] == a[j]);
    }
    assert(items[a.len() as int].key == kv.key);
    lemma_key_pos_unique(items, kv.key, a.len() as int);
    lemma_key_pos_unique(a, kv.key, a.len() as int);
    assert(items.remove(a.len() as int) =~= a + b);
}

/// What a single entry says: its key and its value, whole, where it has a value, and nothing where
/// it has none. No entries say nothing.
pub proof fn law_text_of_one_entry(kv: KeyValue)
    ensures
        userdata_text(Seq::<KeyValue>::empty()) == Seq::<u8>::empty(),
        kv.value.len() > 0 ==> userdata_text(seq![kv]) == seq![32u8] + kv.key + seq![61u8]
            + kv.value + seq![10u8],
        kv.value.len() == 0 ==> userdata_text(seq![kv]) == Seq::<u8>::empty(),
{
    law_entry_line_is_whole(kv.key, kv.value);
    assert(seq![kv].drop_last() =~= Seq::<KeyValue>::empty());
    assert(userdata_text(seq![kv].drop_last()) == Seq::<u8>::empty());
    assert(Seq::<u8>::empty() + entry_line(kv.key, kv.value) =~= entry_line(kv.key, kv.value));
}

/// After a value was set, the cache is the text of the entries as they are now. It is what it was
/// before only where that text is longer than memory can be, or where reserving memory for just
/// that text was tried and failed.
pub proof fn law_cache_is_current(before: UserdataCache, after: UserdataCache, items: Seq<KeyValue>)
    requires
        rebuilt(before, after, items),
    ensures
        after.wf(),
        userdata_text(items).len() == 0 ==> after.data is None && after.len == 0,
        after@ == userdata_text(items) || userdata_text(items).len() > usize::MAX || exists|
            v: Vec<u8>,
        | #[trigger]
            room_tried(v, userdata_text(items).len() as usize, false) && v@.len() == 0,
        after@ != userdata_text(items) ==> after == before,
        after.wf() && after@ == userdata_text(items) && userdata_text(items).len() > 0 ==> (
        after.data matches Some(data) && data@ == userdata_text(items) && after.len
            == data@.len()),
{
    let text = userdata_text(items);
    if 0 < text.len() <= usize::MAX && after@ != text {
        let (v, ok) = choose|v: Vec<u8>, ok: bool| #[trigger]
            room_tried(v, text.len() as usize, ok) && v@.len() == 0 && if ok {
                after@ == text
            } else {
                after == before
            };
        assert(room_tried(v, text.len() as usize, false));
    }
}

/// The stored entries stand for the keys and the values that are recorded in them, whole; a cache
/// stands for its bytes.
pub proof fn law_entries_are_what_is_stored(u: Userdata, c: UserdataCache, i: int)
    requires
        0 <= i < u.values@.len(),
    ensures
        u@.len() == u.values@.len(),
        u@[i].key == u.values@[i].key@.take(u.values@[i].key_len as int),
        u@[i].value == u.values@[i].value.data@.take(u.values@[i].value.len as int),
        c.data matches Some(data) ==> c@ == data@,
        c.data is None ==> c@ == Seq::<u8>::empty(),
        c.wf() ==> c.len == c@.len() && (c.data is None <==> c.len == 0),
        u.wf() ==> u.entry_count == u.values@.len(),
{
}

/// When an entry is refused, and why: a name of more than 53 bytes, then as many as 256 entries,
/// then a key that is taken, then no memory.
pub proof fn law_reasons_against_an_entry(items: Seq<KeyValue>, name: Seq<u8>, reserved: bool)
    ensures
        group_refusal(items, name, reserved) == (if name.len() > 53 {
            Some(Error(-22i32))
        } else if items.len() >= 256 {
            Some(Error(-28i32))
        } else if exists|j: int| 0 <= j < items.len() && (#[trigger] items[j]).key == name {
            Some(Error(-17i32))
        } else if !reserved {
            Some(Error(-12i32))
        } else {
            None
        }),
{
    lemma_key_pos(items, name);
    if !has_key(items, name) {
        assert(forall|j: int| 0 <= j < items.len() ==> (#[trigger] items[j]).key != name);
    } else {
        assert(items[key_pos(items, name)].key == name);
    }
}

/// When a value is refused, and why: more than 200 bytes without the line ends at the end, then a
/// key that is gone. And how a value is shown: whole, with a line feed.
pub proof fn law_reasons_against_a_value(items: Seq<KeyValue>, key: Seq<u8>, page: Seq<u8>)
    ensures
        value_refusal(items, key, page) == (if trimmed(page).len() > 200 {
            Some(Error(-22i32))
        } else if exists|j: int| 0 <= j < items.len() && (#[trigger] items[j]).key == key {
            None
        } else {
            Some(Error(-2i32))
        }),
        lookup(items, key) matches Some(value) ==> value_line(items, key) == value + seq![10u8],
        lookup(items, key) is None ==> value_line(items, key) == seq![10u8],
{
    lemma_key_pos(items, key);
    if has_key(items, key) {
        assert(items[key_pos(items, key)].key == key);
    }
    if let Some(value) = lookup(items, key) {
        assert(value_line(items, key) =~= value + seq![10u8]);
    }
    assert(value_line(items, key).len() > 0);
}

} // verus!
