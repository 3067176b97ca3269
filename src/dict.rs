use vstd::prelude::*;
use crate::codec::{concat, lemma_concat_prefix_len, lemma_concat_take, le32, push_all, push_u32};

verus! {

/// A dictionary string: its byte length, then its bytes, with no terminator.
pub open spec fn dict_string_bytes(s: Seq<u8>) -> Seq<u8> {
    le32(s.len() as int) + s
}

/// A dictionary entry: its key, then its value.
pub open spec fn dict_item_bytes(item: (Seq<u8>, Seq<u8>)) -> Seq<u8> {
    dict_string_bytes(item.0) + dict_string_bytes(item.1)
}

/// A dictionary: the number of entries, then each entry in order.
pub open spec fn dict_bytes(items: Seq<(Seq<u8>, Seq<u8>)>) -> Seq<u8> {
    le32(items.len() as int) + concat(items.map_values(|it: (Seq<u8>, Seq<u8>)| dict_item_bytes(it)))
}

/// A string of a dictionary, held as raw bytes (not necessarily UTF-8).
pub struct DICTstring {
    buffer: Vec<u8>,
}

impl View for DICTstring {
    type V = Seq<u8>;

    closed spec fn view(&self) -> Seq<u8> {
        self.buffer@
    }
}

impl DICTstring {
    pub fn create(v_buffer: Vec<u8>) -> (r: Self)
        ensures
            r@ == v_buffer@,
    {
        DICTstring { buffer: v_buffer }
    }

    pub fn create_from_string(v_buffer: Vec<u8>) -> (r: Self)
        ensures
            r@ == v_buffer@,
    {
        Self::create(v_buffer)
    }

    pub fn create_empty() -> (r: Self)
        ensures
            r@ == Seq::<u8>::empty(),
    {
        Self::create(Vec::new())
    }

    pub fn write(&self, out: &mut Vec<u8>)
        ensures
            final(out)@ == old(out)@ + dict_string_bytes(self@),
    {
        let len: u32 = (self.buffer.len() as u64 % 0x1_0000_0000u64) as u32;
        push_u32(out, len);
        assert(le32(len as int) == le32(self@.len() as int));
        push_all(out, &self.buffer);
        assert(final(out)@ =~= old(out)@ + dict_string_bytes(self@));
    }

    /// The number of bytes that `write` appends.
    pub fn get_size(&self) -> (r: usize)
        requires
            dict_string_bytes(self@).len() <= usize::MAX,
        ensures
            r == dict_string_bytes(self@).len(),
    {
        4 + self.buffer.len()
    }
}

/// A key and its value.
pub struct DICTitem {
    pub key: DICTstring,
    pub value: DICTstring,
}

impl View for DICTitem {
    type V = (Seq<u8>, Seq<u8>);

    open spec fn view(&self) -> (Seq<u8>, Seq<u8>) {
        (self.key@, self.value@)
    }
}

impl DICTitem {
    pub fn create_empty() -> (r: Self)
        ensures
            r@ == (Seq::<u8>::empty(), Seq::<u8>::empty()),
    {
        DICTitem { key: DICTstring::create_empty(), value: DICTstring::create_empty() }
    }

    pub fn create_from_key_value(key: Vec<u8>, value: Vec<u8>) -> (r: Self)
        ensures
            r@ == (key@, value@),
    {
        DICTitem {
            key: DICTstring::create_from_string(key),
            value: DICTstring::create_from_string(value),
        }
    }

    pub fn write(&self, out: &mut Vec<u8>)
        ensures
            final(out)@ == old(out)@ + dict_item_bytes(self@),
    {
        self.key.write(out);
        self.value.write(out);
        assert(final(out)@ =~= old(out)@ + dict_item_bytes(self@));
    }

    /// The number of bytes that `write` appends.
    pub fn get_size(&self) -> (r: usize)
        requires
            dict_item_bytes(self@).len() <= usize::MAX,
        ensures
            r == dict_item_bytes(self@).len(),
    {
        self.key.get_size() + self.value.get_size()
    }
}

/// A dictionary of string keys and values, in insertion order.
pub struct DICT {
    keys: Vec<DICTitem>,
}

impl View for DICT {
    type V = Seq<(Seq<u8>, Seq<u8>)>;

    closed spec fn view(&self) -> Seq<(Seq<u8>, Seq<u8>)> {
        self.keys@.map_values(|it: DICTitem| it@)
    }
}

impl DICT {
    pub fn create_empty() -> (r: Self)
        ensures
            r@ == Seq::<(Seq<u8>, Seq<u8>)>::empty(),
    {
        let r = DICT { keys: Vec::new() };
        assert(r@ =~= Seq::<(Seq<u8>, Seq<u8>)>::empty());
        r
    }

    /// Appends an entry; keys are not deduplicated.
    pub fn add(&mut self, key: Vec<u8>, value: Vec<u8>)
        ensures
            final(self)@ == old(self)@.push((key@, value@)),
    {
        self.keys.push(DICTitem::create_from_key_value(key, value));
        assert(final(self)@ =~= old(self)@.push((key@, value@)));
    }

    pub fn write(&self, out: &mut Vec<u8>)
        ensures
            final(out)@ == old(out)@ + dict_bytes(self@),
    {
        let ghost parts = self@.map_values(|it: (Seq<u8>, Seq<u8>)| dict_item_bytes(it));
        let count: u32 = (self.keys.len() as u64 % 0x1_0000_0000u64) as u32;
        push_u32(out, count);
        assert(le32(count as int) == le32(self@.len() as int));
        let mut i: usize = 0;
        while i < self.keys.len()
            invariant
                i <= self.keys@.len(),
                parts == self@.map_values(|it: (Seq<u8>, Seq<u8>)| dict_item_bytes(it)),
                out@ == old(out)@ + le32(self@.len() as int) + concat(parts.take(i as int)),
            decreases self.keys@.len() - i,
        {
            self.keys[i].write(out);
            proof {
                lemma_concat_take(parts, i as int);
            }
            i = i + 1;
        }
        assert(parts.take(i as int) =~= parts);
        assert(final(out)@ =~= old(out)@ + dict_bytes(self@));
    }

    /// The number of bytes that `write` appends.
    pub fn get_size(&self) -> (r: usize)
        requires
            dict_bytes(self@).len() <= usize::MAX,
        ensures
            r == dict_bytes(self@).len(),
    {
        let ghost parts = self@.map_values(|it: (Seq<u8>, Seq<u8>)| dict_item_bytes(it));
        let mut s: usize = 4;
        let mut i: usize = 0;
        while i < self.keys.len()
            invariant
                i <= self.keys@.len(),
                parts == self@.map_values(|it: (Seq<u8>, Seq<u8>)| dict_item_bytes(it)),
                dict_bytes(self@).len() <= usize::MAX,
                s == 4 + concat(parts.take(i as int)).len(),
            decreases self.keys@.len() - i,
        {
            proof {
                lemma_concat_take(parts, i as int);
                lemma_concat_prefix_len(parts, i + 1);
            }
            s = s + self.keys[i].get_size();
            i = i + 1;
        }
        assert(parts.take(i as int) =~= parts);
        s
    }
}

} // verus!
