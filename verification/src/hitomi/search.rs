use crate::errors::HitomiError;
use crate::hitomi::common::{DOMAIN, NOZOMI_EXTENSION, PROTOCOL};
use crate::hitomi::id_set::{distinct, IdSet};
use crate::json::{json_rows, read_rows, rows_view, JsonRow, JsonRowView};
use crate::pattern::{regex_replace_all, regex_replaced_all};
use crate::text::{
    chars_of, digits, find_char, first_index, push_chars, push_str, replace_char, same_text, slice_chars,
    spec_digits, spec_join, spec_replace_char, spec_wrap_i32, string_of, wrap_i32,
};
use vstd::prelude::*;
use vstd::slice::slice_subrange;
use vstd::string::StringSliceAdditionalSpecFns;
use vstd::utf8::encode_utf8;

verus! {

/// Number of sub-node addresses stored in every index node.
pub const SUB_NODE_COUNT: usize = 17;

/// Number of bytes that one index node occupies in an index file.
pub const MAX_NODE_SIZE: u64 = 464;

/// Largest key size, in bytes, that an index node may hold.
pub const MAX_KEY_SIZE: i32 = 32;

/// Why a buffer read from the index could not be decoded.
#[derive(Debug, Clone, Copy, PartialEq, Eq, Structural)]
pub enum DecodeError {
    /// The buffer ends before the value being read.
    Truncated,
    /// A key size outside `1..=32`.
    KeySize,
    /// A data length outside `1..=100_000_000`, or a byte range that does
    /// not fit the address space of the data file.
    DataLength,
    /// A gallery count outside `1..=10_000_000`.
    GalleryCount,
    /// A node whose key slot has no matching data record or sub-node address.
    NodeShape,
    /// A negative address, or a byte range that ends beyond `i64::MAX`.
    Address,
}

/// The unsigned big-endian value of the four bytes at `at`.
pub open spec fn spec_be_u32(bytes: Seq<u8>, at: int) -> int {
    bytes[at] * 0x100_0000 + bytes[at + 1] * 0x1_0000 + bytes[at + 2] * 0x100 + bytes[at + 3]
}

/// The signed (two's complement) big-endian value of the four bytes at `at`.
pub open spec fn spec_be_i32(bytes: Seq<u8>, at: int) -> int {
    let u = spec_be_u32(bytes, at);
    if u >= 0x8000_0000 {
        u - 0x1_0000_0000
    } else {
        u
    }
}

/// The unsigned big-endian value of the eight bytes at `at`.
pub open spec fn spec_be_u64(bytes: Seq<u8>, at: int) -> int {
    spec_be_u32(bytes, at) * 0x1_0000_0000 + spec_be_u32(bytes, at + 4)
}

/// The signed (two's complement) big-endian value of the eight bytes at `at`.
pub open spec fn spec_be_i64(bytes: Seq<u8>, at: int) -> int {
    let u = spec_be_u64(bytes, at);
    if u >= 0x8000_0000_0000_0000 {
        u - 0x1_0000_0000_0000_0000
    } else {
        u
    }
}

/// Calls `byteorder::BigEndian::read_i32`, which panics on fewer than four
/// bytes and otherwise returns the first four bytes read as a big-endian
/// two's complement integer.
#[verifier::external_body]
fn be_read_i32(buf: &[u8]) -> (value: i32)
    requires
        buf@.len() >= 4,
    ensures
        value as int == spec_be_i32(buf@, 0),
{
    <byteorder::BigEndian as byteorder::ByteOrder>::read_i32(buf)
}

/// Calls `byteorder::BigEndian::read_i64`, which panics on fewer than eight
/// bytes and otherwise returns the first eight bytes read as a big-endian
/// two's complement integer.
#[verifier::external_body]
fn be_read_i64(buf: &[u8]) -> (value: i64)
    requires
        buf@.len() >= 8,
    ensures
        value as int == spec_be_i64(buf@, 0),
{
    <byteorder::BigEndian as byteorder::ByteOrder>::read_i64(buf)
}

/// Reads the big-endian `i32` at `pos`, if the buffer holds four bytes there.
pub fn read_i32_at(data: &[u8], pos: usize) -> (value: Option<i32>)
    ensures
        value is Some <==> pos + 4 <= data@.len(),
        value matches Some(v) ==> v as int == spec_be_i32(data@, pos as int),
{
    if data.len() < 4 || pos > data.len() - 4 {
        return None;
    }
    let window = slice_subrange(data, pos, pos + 4);
    let v = be_read_i32(window);
    Some(v)
}

/// Reads the big-endian `i64` at `pos`, if the buffer holds eight bytes there.
pub fn read_i64_at(data: &[u8], pos: usize) -> (value: Option<i64>)
    ensures
        value is Some <==> pos + 8 <= data@.len(),
        value matches Some(v) ==> v as int == spec_be_i64(data@, pos as int),
{
    if data.len() < 8 || pos > data.len() - 8 {
        return None;
    }
    let window = slice_subrange(data, pos, pos + 8);
    let v = be_read_i64(window);
    Some(v)
}


/// One node of the remote search tree.
#[derive(Debug)]
pub struct Node {
    pub keys: Vec<Vec<u8>>,
    pub datas: Vec<(i64, i32)>,
    pub sub_node_addresses: Vec<i64>,
}

/// The byte sequences that a list of keys holds.
pub open spec fn key_views(keys: Seq<Vec<u8>>) -> Seq<Seq<u8>> {
    keys.map_values(|k: Vec<u8>| k@)
}

/// Mathematical content of a [`Node`].
pub struct NodeView {
    pub keys: Seq<Seq<u8>>,
    pub datas: Seq<(i64, i32)>,
    pub sub_node_addresses: Seq<i64>,
}

impl View for Node {
    type V = NodeView;

    open spec fn view(&self) -> NodeView {
        NodeView {
            keys: key_views(self.keys@),
            datas: self.datas@,
            sub_node_addresses: self.sub_node_addresses@,
        }
    }
}

impl NodeView {
    /// Shape of every node that comes out of the decoder: keys of 1 to 32
    /// bytes and exactly 17 sub-node addresses.
    pub open spec fn well_formed(self) -> bool {
        &&& forall|i: int| 0 <= i < self.keys.len() ==> 1 <= (#[trigger] self.keys[i]).len() <= 32
        &&& self.sub_node_addresses.len() == SUB_NODE_COUNT
    }

    /// A node is a leaf when every sub-node address is zero.
    pub open spec fn is_leaf(self) -> bool {
        forall|i: int| 0 <= i < self.sub_node_addresses.len() ==> self.sub_node_addresses[i] == 0
    }
}

/// Result of reading a run of items: the items and the position after them.
pub type Run<T> = Result<(Seq<T>, int), DecodeError>;

/// Puts the items already read in front of what a later read gives.
pub open spec fn after<T>(done: Seq<T>, rest: Run<T>) -> Run<T> {
    match rest {
        Ok((items, end)) => Ok((done + items, end)),
        Err(e) => Err(e),
    }
}

/// Reads `count` keys from `data` at `pos`: each is a big-endian `i32` size
/// in `1..=32` followed by that many bytes. A count below one reads nothing.
pub open spec fn spec_read_keys(data: Seq<u8>, pos: int, count: int) -> Run<Seq<u8>>
    decreases count,
{
    if count <= 0 {
        Ok((Seq::empty(), pos))
    } else if pos + 4 > data.len() {
        Err(DecodeError::Truncated)
    } else {
        let size = spec_be_i32(data, pos);
        if size < 1 || size > 32 {
            Err(DecodeError::KeySize)
        } else if pos + 4 + size > data.len() {
            Err(DecodeError::Truncated)
        } else {
            after(
                seq![data.subrange(pos + 4, pos + 4 + size)],
                spec_read_keys(data, pos + 4 + size, count - 1),
            )
        }
    }
}

/// Reads `count` data records from `data` at `pos`: each is a big-endian
/// `i64` offset followed by a big-endian `i32` length.
pub open spec fn spec_read_datas(data: Seq<u8>, pos: int, count: int) -> Run<(i64, i32)>
    decreases count,
{
    if count <= 0 {
        Ok((Seq::empty(), pos))
    } else if pos + 12 > data.len() {
        Err(DecodeError::Truncated)
    } else {
        after(
            seq![(spec_be_i64(data, pos) as i64, spec_be_i32(data, pos + 8) as i32)],
            spec_read_datas(data, pos + 12, count - 1),
        )
    }
}

/// Reads `count` big-endian `i64` addresses from `data` at `pos`.
pub open spec fn spec_read_addresses(data: Seq<u8>, pos: int, count: int) -> Run<i64>
    decreases count,
{
    if count <= 0 {
        Ok((Seq::empty(), pos))
    } else if pos + 8 > data.len() {
        Err(DecodeError::Truncated)
    } else {
        after(seq![spec_be_i64(data, pos) as i64], spec_read_addresses(data, pos + 8, count - 1))
    }
}

/// The node that a buffer encodes: a key count and the keys, a data count and
/// the data records, then 17 sub-node addresses, all big-endian.
pub open spec fn spec_decode_node(data: Seq<u8>) -> Result<NodeView, DecodeError> {
    if data.len() < 4 {
        Err(DecodeError::Truncated)
    } else {
        match spec_read_keys(data, 4, spec_be_i32(data, 0)) {
            Err(e) => Err(e),
            Ok((keys, keys_end)) => if keys_end + 4 > data.len() {
                Err(DecodeError::Truncated)
            } else {
                match spec_read_datas(data, keys_end + 4, spec_be_i32(data, keys_end)) {
                    Err(e) => Err(e),
                    Ok((datas, datas_end)) => match spec_read_addresses(
                        data,
                        datas_end,
                        SUB_NODE_COUNT as int,
                    ) {
                        Err(e) => Err(e),
                        Ok((addresses, _)) => Ok(
                            NodeView { keys, datas, sub_node_addresses: addresses },
                        ),
                    },
                }
            },
        }
    }
}

proof fn lemma_after_step<T>(done: Seq<T>, item: T, rest: Run<T>)
    ensures
        after(done, after(seq![item], rest)) == after(done.push(item), rest),
{
    match rest {
        Ok((items, end)) => {
            assert(done + (seq![item] + items) =~= done.push(item) + items);
        },
        Err(_) => {},
    }
}

proof fn lemma_after_nothing<T>(rest: Run<T>)
    ensures
        after(Seq::<T>::empty(), rest) == rest,
{
    match rest {
        Ok((items, end)) => {
            assert(Seq::<T>::empty() + items =~= items);
        },
        Err(_) => {},
    }
}

proof fn lemma_after_end<T>(done: Seq<T>, pos: int)
    ensures
        after(done, Ok((Seq::<T>::empty(), pos))) == Ok::<(Seq<T>, int), DecodeError>((done, pos)),
{
    assert(done + Seq::<T>::empty() =~= done);
}

/// Copies `len` bytes of `data` starting at `pos`.
fn copy_bytes(data: &[u8], pos: usize, len: usize) -> (out: Vec<u8>)
    requires
        pos + len <= data@.len(),
    ensures
        out@ == data@.subrange(pos as int, pos + len),
{
    let total = data.len();
    let mut out: Vec<u8> = Vec::new();
    let mut i: usize = 0;
    while i < len
        invariant
            i <= len,
            pos + len <= data@.len() == total,
            out@ == data@.subrange(pos as int, pos + i),
        decreases len - i,
    {
        out.push(data[pos + i]);
        i += 1;
        assert(out@ =~= data@.subrange(pos as int, pos + i));
    }
    out
}

struct KeyRun {
    keys: Vec<Vec<u8>>,
    end: usize,
}

fn read_keys(data: &[u8], start: usize, count: i32) -> (r: Result<KeyRun, DecodeError>)
    requires
        start <= data@.len(),
    ensures
        match r {
            Ok(run) => spec_read_keys(data@, start as int, count as int) == Ok::<
                (Seq<Seq<u8>>, int),
                DecodeError,
            >((key_views(run.keys@), run.end as int)) && run.end <= data@.len()
                && forall|i: int|
                0 <= i < run.keys.len() ==> 1 <= (#[trigger] run.keys[i]).len() <= 32,
            Err(e) => spec_read_keys(data@, start as int, count as int) == Err::<
                (Seq<Seq<u8>>, int),
                DecodeError,
            >(e),
        },
{
    let mut keys: Vec<Vec<u8>> = Vec::new();
    let mut pos: usize = start;
    let mut i: i32 = 0;
    proof {
        assert(key_views(keys@) =~= Seq::<Seq<u8>>::empty());
        lemma_after_nothing(spec_read_keys(data@, start as int, count as int));
    }
    while i < count
        invariant
            0 <= i,
            i <= count || count < 0,
            pos <= data@.len(),
            forall|j: int| 0 <= j < keys.len() ==> 1 <= (#[trigger] keys[j]).len() <= 32,
            spec_read_keys(data@, start as int, count as int) == after(
                key_views(keys@),
                spec_read_keys(data@, pos as int, count - i),
            ),
        decreases count - i,
    {
        let size = match read_i32_at(data, pos) {
            Some(size) => size,
            None => {
                return Err(DecodeError::Truncated);
            },
        };
        if size < 1 || size > MAX_KEY_SIZE {
            return Err(DecodeError::KeySize);
        }
        let len = size as usize;
        if len > data.len() - (pos + 4) {
            return Err(DecodeError::Truncated);
        }
        let key = copy_bytes(data, pos + 4, len);
        proof {
            lemma_after_step(
                key_views(keys@),
                key@,
                spec_read_keys(data@, pos + 4 + size, count - i - 1),
            );
            assert(key_views(keys@).push(key@) =~= key_views(keys@.push(key)));
        }
        keys.push(key);
        pos = pos + 4 + len;
        i += 1;
    }
    proof {
        lemma_after_end(key_views(keys@), pos as int);
    }
    Ok(KeyRun { keys, end: pos })
}


struct DataRun {
    datas: Vec<(i64, i32)>,
    end: usize,
}

fn read_datas(data: &[u8], start: usize, count: i32) -> (r: Result<DataRun, DecodeError>)
    requires
        start <= data@.len(),
    ensures
        match r {
            Ok(run) => spec_read_datas(data@, start as int, count as int) == Ok::<
                (Seq<(i64, i32)>, int),
                DecodeError,
            >((run.datas@, run.end as int)) && run.end <= data@.len(),
            Err(e) => spec_read_datas(data@, start as int, count as int) == Err::<
                (Seq<(i64, i32)>, int),
                DecodeError,
            >(e),
        },
{
    let total = data.len();
    let mut datas: Vec<(i64, i32)> = Vec::new();
    let mut pos: usize = start;
    let mut i: i32 = 0;
    proof {
        lemma_after_nothing(spec_read_datas(data@, start as int, count as int));
    }
    while i < count
        invariant
            0 <= i,
            pos <= data@.len() == total,
            spec_read_datas(data@, start as int, count as int) == after(
                datas@,
                spec_read_datas(data@, pos as int, count - i),
            ),
        decreases count - i,
    {
        let offset = match read_i64_at(data, pos) {
            Some(offset) => offset,
            None => {
                return Err(DecodeError::Truncated);
            },
        };
        let length = match read_i32_at(data, pos + 8) {
            Some(length) => length,
            None => {
                return Err(DecodeError::Truncated);
            },
        };
        proof {
            lemma_after_step(
                datas@,
                (offset, length),
                spec_read_datas(data@, pos + 12, count - i - 1),
            );
        }
        datas.push((offset, length));
        pos = pos + 12;
        i += 1;
    }
    proof {
        lemma_after_end(datas@, pos as int);
    }
    Ok(DataRun { datas, end: pos })
}

fn read_addresses(data: &[u8], start: usize, count: usize) -> (r: Result<Vec<i64>, DecodeError>)
    requires
        start <= data@.len(),
    ensures
        match r {
            Ok(addresses) => spec_read_addresses(data@, start as int, count as int) matches Ok(run)
                && run.0 == addresses@ && addresses@.len() == count,
            Err(e) => spec_read_addresses(data@, start as int, count as int) == Err::<
                (Seq<i64>, int),
                DecodeError,
            >(e),
        },
{
    let total = data.len();
    let mut addresses: Vec<i64> = Vec::new();
    let mut pos: usize = start;
    let mut i: usize = 0;
    proof {
        lemma_after_nothing(spec_read_addresses(data@, start as int, count as int));
    }
    while i < count
        invariant
            i <= count,
            addresses@.len() == i,
            pos <= data@.len() == total,
            spec_read_addresses(data@, start as int, count as int) == after(
                addresses@,
                spec_read_addresses(data@, pos as int, count - i),
            ),
        decreases count - i,
    {
        let address = match read_i64_at(data, pos) {
            Some(address) => address,
            None => {
                return Err(DecodeError::Truncated);
            },
        };
        proof {
            lemma_after_step(
                addresses@,
                address,
                spec_read_addresses(data@, pos + 8, count - i - 1),
            );
        }
        addresses.push(address);
        pos = pos + 8;
        i += 1;
    }
    proof {
        lemma_after_end(addresses@, pos as int);
    }
    Ok(addresses)
}

/// Decodes one index node from the bytes read at its address.
///
/// Fails with `Truncated` where the buffer ends inside the node and with
/// `KeySize` at the first key whose size is not in `1..=32`.
pub fn decode_node(data: &[u8]) -> (r: Result<Node, DecodeError>)
    ensures
        match r {
            Ok(node) => spec_decode_node(data@) == Ok::<NodeView, DecodeError>(node@)
                && node@.well_formed(),
            Err(e) => spec_decode_node(data@) == Err::<NodeView, DecodeError>(e),
        },
{
    let total = data.len();
    let number_of_keys = match read_i32_at(data, 0) {
        Some(n) => n,
        None => {
            return Err(DecodeError::Truncated);
        },
    };
    let key_run = read_keys(data, 4, number_of_keys)?;
    let number_of_datas = match read_i32_at(data, key_run.end) {
        Some(n) => n,
        None => {
            return Err(DecodeError::Truncated);
        },
    };
    let data_run = read_datas(data, key_run.end + 4, number_of_datas)?;
    let sub_node_addresses = read_addresses(data, data_run.end, SUB_NODE_COUNT)?;
    let node = Node { keys: key_run.keys, datas: data_run.datas, sub_node_addresses };
    proof {
        assert forall|i: int| 0 <= i < node@.keys.len() implies 1 <= (
        #[trigger] node@.keys[i]).len() <= 32 by {
            assert(node@.keys[i] == node.keys[i]@);
        }
    }
    Ok(node)
}

/// `i` is the first position at which `a` and `b` hold different bytes.
pub open spec fn first_difference(a: Seq<u8>, b: Seq<u8>, i: int) -> bool {
    &&& 0 <= i < a.len()
    &&& i < b.len()
    &&& a[i] != b[i]
    &&& forall|j: int| 0 <= j < i ==> a[j] == b[j]
}

/// Lexicographic order of two byte strings: `-1` or `1` by the first byte
/// that differs; where none differs the shorter string orders first, and
/// strings of the same length are equal (`0`).
pub open spec fn spec_compare_arrays(a: Seq<u8>, b: Seq<u8>) -> int {
    if exists|i: int| first_difference(a, b, i) && a[i] < b[i] {
        -1
    } else if exists|i: int| first_difference(a, b, i) && a[i] > b[i] {
        1
    } else if a.len() < b.len() {
        -1
    } else if a.len() > b.len() {
        1
    } else {
        0
    }
}

/// Compares two byte strings lexicographically.
pub fn compare_arrays(a: &[u8], b: &[u8]) -> (order: i32)
    ensures
        order as int == spec_compare_arrays(a@, b@),
{
    let top = if a.len() < b.len() {
        a.len()
    } else {
        b.len()
    };
    let mut i: usize = 0;
    while i < top
        invariant
            i <= top,
            top <= a@.len(),
            top <= b@.len(),
            top == a@.len() || top == b@.len(),
            forall|j: int| 0 <= j < i ==> a@[j] == b@[j],
        decreases top - i,
    {
        if a[i] < b[i] {
            proof {
                let w = i as int;
                assert(first_difference(a@, b@, w) && a@[w] < b@[w]);
            }
            return -1;
        } else if a[i] > b[i] {
            proof {
                let w = i as int;
                assert(first_difference(a@, b@, w) && a@[w] > b@[w]);
                assert forall|k: int| first_difference(a@, b@, k) implies !(a@[k] < b@[k]) by {
                    if k < w {
                    } else if k > w {
                    }
                }
            }
            return 1;
        }
        i += 1;
    }
    if a.len() < b.len() {
        -1
    } else if a.len() > b.len() {
        1
    } else {
        0
    }
}

/// Where a key falls among the keys of a node: the first slot whose key does
/// not order before it, and whether that slot's key matches it.
pub open spec fn spec_locate_key(key: Seq<u8>, keys: Seq<Seq<u8>>) -> (bool, int) {
    if exists|i: int| is_slot(key, keys, i) {
        let i = choose|i: int| is_slot(key, keys, i);
        (spec_compare_arrays(key, keys[i]) == 0, i)
    } else {
        (false, keys.len() as int)
    }
}

/// `i` is the first slot whose key does not order before `key`.
pub open spec fn is_slot(key: Seq<u8>, keys: Seq<Seq<u8>>, i: int) -> bool {
    &&& 0 <= i < keys.len()
    &&& spec_compare_arrays(key, keys[i]) <= 0
    &&& forall|j: int| 0 <= j < i ==> spec_compare_arrays(key, #[trigger] keys[j]) > 0
}

/// At most one slot is the first that does not order before the key.
pub proof fn lemma_slot_unique(key: Seq<u8>, keys: Seq<Seq<u8>>, i: int, j: int)
    requires
        is_slot(key, keys, i),
        is_slot(key, keys, j),
    ensures
        i == j,
{
    if i < j {
        assert(spec_compare_arrays(key, keys[i]) > 0);
    } else if j < i {
        assert(spec_compare_arrays(key, keys[j]) > 0);
    }
}

/// Finds the slot of `key` in `node` by a scan from the first key.
pub fn locate_key(key: &[u8], node: &Node) -> (found: (bool, usize))
    ensures
        (found.0, found.1 as int) == spec_locate_key(key@, node@.keys),
        found.1 <= node@.keys.len(),
{
    let mut i: usize = 0;
    while i < node.keys.len()
        invariant
            i <= node.keys.len(),
            forall|j: int| 0 <= j < i ==> spec_compare_arrays(key@, #[trigger] node@.keys[j]) > 0,
        decreases node.keys.len() - i,
    {
        let order = compare_arrays(key, node.keys[i].as_slice());
        proof {
            assert(node@.keys[i as int] == node.keys[i as int]@);
        }
        if order <= 0 {
            proof {
                let w = i as int;
                assert(is_slot(key@, node@.keys, w));
                let c = choose|c: int| is_slot(key@, node@.keys, c);
                lemma_slot_unique(key@, node@.keys, w, c);
            }
            return (order == 0, i);
        }
        i += 1;
    }
    proof {
        assert forall|c: int| !is_slot(key@, node@.keys, c) by {
            if 0 <= c < node@.keys.len() {
                assert(spec_compare_arrays(key@, node@.keys[c]) > 0);
            }
        }
    }
    (false, i)
}

/// Whether every sub-node address of the node is zero.
pub fn is_leaf(node: &Node) -> (leaf: bool)
    ensures
        leaf == node@.is_leaf(),
{
    let mut i: usize = 0;
    while i < node.sub_node_addresses.len()
        invariant
            i <= node.sub_node_addresses.len(),
            forall|j: int| 0 <= j < i ==> node.sub_node_addresses@[j] == 0,
        decreases node.sub_node_addresses.len() - i,
    {
        if node.sub_node_addresses[i] != 0 {
            assert(node@.sub_node_addresses[i as int] != 0);
            return false;
        }
        i += 1;
    }
    true
}


/// What one node tells about a key.
#[derive(Debug, Clone, Copy, PartialEq, Eq, Structural)]
pub enum SearchStep {
    /// The node holds the key; its data record is given.
    Found { offset: i64, length: i32 },
    /// The key is not in the index.
    Missing,
    /// The search goes on in the sub-node at this address.
    Descend { address: i64 },
}

/// The step that a node gives for a key: nothing for a node without keys,
/// the data record of a matching key, nothing at a leaf, and else the
/// sub-node of the slot at which the key would stand.
pub open spec fn spec_search_step(key: Seq<u8>, node: NodeView) -> Result<SearchStep, DecodeError> {
    let (there, slot) = spec_locate_key(key, node.keys);
    if node.keys.len() == 0 {
        Ok(SearchStep::Missing)
    } else if there {
        if slot < node.datas.len() {
            Ok(SearchStep::Found { offset: node.datas[slot].0, length: node.datas[slot].1 })
        } else {
            Err(DecodeError::NodeShape)
        }
    } else if node.is_leaf() {
        Ok(SearchStep::Missing)
    } else if slot < node.sub_node_addresses.len() {
        Ok(SearchStep::Descend { address: node.sub_node_addresses[slot] })
    } else {
        Err(DecodeError::NodeShape)
    }
}

/// One step of the search for `key`, taken at `node`. The caller fetches the
/// sub-node that a `Descend` names and takes the next step there.
pub fn b_search(key: &[u8], node: &Node) -> (step: Result<SearchStep, DecodeError>)
    ensures
        step == spec_search_step(key@, node@),
{
    if node.keys.len() == 0 {
        return Ok(SearchStep::Missing);
    }
    let (there, slot) = locate_key(key, node);
    if there {
        if slot < node.datas.len() {
            let (offset, length) = node.datas[slot];
            return Ok(SearchStep::Found { offset, length });
        }
        return Err(DecodeError::NodeShape);
    } else if is_leaf(node) {
        return Ok(SearchStep::Missing);
    }
    if slot < node.sub_node_addresses.len() {
        Ok(SearchStep::Descend { address: node.sub_node_addresses[slot] })
    } else {
        Err(DecodeError::NodeShape)
    }
}

proof fn lemma_difference_has_first(a: Seq<u8>, b: Seq<u8>, j: int)
    requires
        0 <= j < a.len(),
        j < b.len(),
        a[j] != b[j],
    ensures
        exists|i: int| first_difference(a, b, i),
    decreases j,
{
    if forall|k: int| 0 <= k < j ==> a[k] == b[k] {
        assert(first_difference(a, b, j));
    } else {
        let k = choose|k: int| 0 <= k < j && a[k] != b[k];
        lemma_difference_has_first(a, b, k);
    }
}

/// Byte strings that compare as equal are the same string.
pub proof fn lemma_compare_equal(a: Seq<u8>, b: Seq<u8>)
    requires
        spec_compare_arrays(a, b) == 0,
    ensures
        a == b,
{
    assert(a.len() == b.len());
    assert forall|j: int| 0 <= j < a.len() implies a[j] == b[j] by {
        if a[j] != b[j] {
            lemma_difference_has_first(a, b, j);
            let i = choose|i: int| first_difference(a, b, i);
            assert(first_difference(a, b, i) && (a[i] < b[i] || a[i] > b[i]));
        }
    }
    assert(a =~= b);
}

/// The search is monotone within a node: of two keys that the node holds,
/// the one that orders first has its data record at the earlier slot.
pub proof fn lemma_search_monotone(keys: Seq<Seq<u8>>, k1: Seq<u8>, k2: Seq<u8>)
    requires
        spec_compare_arrays(k1, k2) < 0,
        spec_locate_key(k1, keys).0,
        spec_locate_key(k2, keys).0,
    ensures
        spec_locate_key(k1, keys).1 < spec_locate_key(k2, keys).1,
{
    let i1 = spec_locate_key(k1, keys).1;
    let i2 = spec_locate_key(k2, keys).1;
    assert(is_slot(k1, keys, i1));
    assert(is_slot(k2, keys, i2));
    lemma_compare_equal(k1, keys[i1]);
    lemma_compare_equal(k2, keys[i2]);
    if i2 < i1 {
        assert(spec_compare_arrays(k1, keys[i2]) > 0);
    }
}

/// A half-open range of bytes in a remote file.
#[derive(Debug, Clone, Copy, PartialEq, Eq, Structural)]
pub struct ByteRange {
    pub start: u64,
    pub end: u64,
}

/// Largest length of a data record.
pub const MAX_DATA_LENGTH: i32 = 100_000_000;

/// Largest number of gallery ids in a data record.
pub const MAX_GALLERY_COUNT: i32 = 10_000_000;

/// The bytes of the node at `address`: 464 bytes from the address on.
pub open spec fn spec_node_range(address: i64) -> Result<ByteRange, DecodeError> {
    if address < 0 {
        Err(DecodeError::Address)
    } else {
        Ok(ByteRange { start: address as u64, end: (address + MAX_NODE_SIZE) as u64 })
    }
}

/// The byte range to fetch for the node at `address`.
pub fn node_range(address: i64) -> (range: Result<ByteRange, DecodeError>)
    ensures
        range == spec_node_range(address),
{
    if address < 0 {
        return Err(DecodeError::Address);
    }
    let start = address as u64;
    Ok(ByteRange { start, end: start + MAX_NODE_SIZE })
}

/// The bytes of a data record: its length must be in `1..=100_000_000`, its
/// offset must not be negative and its end must fit an `i64`.
pub open spec fn spec_data_range(offset: i64, length: i32) -> Result<ByteRange, DecodeError> {
    if length > MAX_DATA_LENGTH || length <= 0 {
        Err(DecodeError::DataLength)
    } else if offset < 0 || offset + length > i64::MAX {
        Err(DecodeError::Address)
    } else {
        Ok(ByteRange { start: offset as u64, end: (offset + length) as u64 })
    }
}

/// The byte range to fetch for a data record found in the index.
pub fn data_range(offset: i64, length: i32) -> (range: Result<ByteRange, DecodeError>)
    ensures
        range == spec_data_range(offset, length),
{
    if length > MAX_DATA_LENGTH || length <= 0 {
        return Err(DecodeError::DataLength);
    }
    if offset < 0 || offset > i64::MAX - (length as i64) {
        return Err(DecodeError::Address);
    }
    let start = offset as u64;
    Ok(ByteRange { start, end: start + (length as u64) })
}

/// The `count` big-endian `i32` values that `data` holds from `start` on.
pub open spec fn spec_ids_at(data: Seq<u8>, start: int, count: int) -> Seq<i32> {
    Seq::new(count as nat, |i: int| spec_be_i32(data, start + 4 * i) as i32)
}

/// The ids of a data record: a count in `1..=10_000_000`, then that many
/// ids, of which each distinct one is kept at its first place.
pub open spec fn spec_gallery_ids(data: Seq<u8>) -> Result<Seq<i32>, DecodeError> {
    if data.len() < 4 {
        Err(DecodeError::Truncated)
    } else {
        let count = spec_be_i32(data, 0);
        if count > MAX_GALLERY_COUNT || count <= 0 {
            Err(DecodeError::GalleryCount)
        } else if 4 + 4 * count > data.len() {
            Err(DecodeError::Truncated)
        } else {
            Ok(distinct(spec_ids_at(data, 4, count)))
        }
    }
}

/// Reads `count` ids from `data` at `start` into a set.
fn read_ids(data: &[u8], start: usize, count: usize) -> (set: IdSet)
    requires
        start + 4 * count <= data@.len(),
    ensures
        set@ == distinct(spec_ids_at(data@, start as int, count as int)),
        set.well_formed(),
{
    let total = data.len();
    let mut set = IdSet::new();
    let mut i: usize = 0;
    assert(spec_ids_at(data@, start as int, 0) =~= Seq::<i32>::empty());
    while i < count
        invariant
            i <= count,
            start + 4 * count <= data@.len() == total,
            set.well_formed(),
            set@ == distinct(spec_ids_at(data@, start as int, i as int)),
        decreases count - i,
    {
        match read_i32_at(data, start + 4 * i) {
            Some(id) => {
                set.insert(id);
            },
            None => {},
        }
        proof {
            let next = spec_ids_at(data@, start as int, i + 1);
            assert(next.drop_last() =~= spec_ids_at(data@, start as int, i as int));
        }
        i += 1;
    }
    set
}

/// Decodes the gallery ids of a data record.
///
/// Fails with `Truncated` where the buffer is shorter than the count says
/// and with `GalleryCount` where the count is not in `1..=10_000_000`.
pub fn decode_gallery_ids(data: &[u8]) -> (r: Result<IdSet, DecodeError>)
    ensures
        match r {
            Ok(set) => spec_gallery_ids(data@) == Ok::<Seq<i32>, DecodeError>(set@)
                && set.well_formed(),
            Err(e) => spec_gallery_ids(data@) == Err::<Seq<i32>, DecodeError>(e),
        },
{
    let count = match read_i32_at(data, 0) {
        Some(count) => count,
        None => {
            return Err(DecodeError::Truncated);
        },
    };
    if count > MAX_GALLERY_COUNT || count <= 0 {
        return Err(DecodeError::GalleryCount);
    }
    let n = count as usize;
    if (data.len() - 4) / 4 < n {
        return Err(DecodeError::Truncated);
    }
    Ok(read_ids(data, 4, n))
}

/// The ids of a nozomi file: its whole groups of four bytes, each a
/// big-endian `i32`, of which each distinct one is kept at its first place.
pub open spec fn spec_nozomi_ids(data: Seq<u8>) -> Seq<i32> {
    distinct(spec_ids_at(data, 0, data.len() as int / 4))
}

/// Decodes a nozomi file. Bytes after the last whole id are ignored.
pub fn decode_nozomi(data: &[u8]) -> (set: IdSet)
    ensures
        set@ == spec_nozomi_ids(data@),
        set.well_formed(),
{
    read_ids(data, 0, data.len() / 4)
}

/// The id set that a response to a nozomi request stands for: the decoded
/// body where the status is 200, else the empty set.
pub fn nozomi_ids(status: u16, body: &[u8]) -> (set: IdSet)
    ensures
        set@ == if status == 200 {
            spec_nozomi_ids(body@)
        } else {
            Seq::<i32>::empty()
        },
        set.well_formed(),
{
    if status != 200 {
        return IdSet::new();
    }
    decode_nozomi(body)
}

/// The SHA-256 digest of a byte string.
pub uninterp spec fn sha256_digest(data: Seq<u8>) -> Seq<u8>;

/// Calls `sha2::Sha256::digest`, which returns the SHA-256 digest of the
/// data; the digest has 32 bytes.
#[verifier::external_body]
fn sha256(data: &[u8]) -> (digest: Vec<u8>)
    ensures
        digest@ == sha256_digest(data@),
        digest@.len() == 32,
{
    <sha2::Sha256 as sha2::Digest>::digest(data).to_vec()
}

/// Number of leading digest bytes that make the key of a search term.
pub const KEY_LENGTH: usize = 4;

/// The index key made of a digest: its first four bytes, or all of it where
/// it is shorter.
pub fn key_of_digest(digest: &[u8]) -> (key: Vec<u8>)
    ensures
        key@ == digest@.take(if digest@.len() < 4 { digest@.len() as int } else { 4 }),
{
    let len = if digest.len() < KEY_LENGTH {
        digest.len()
    } else {
        KEY_LENGTH
    };
    let key = copy_bytes(digest, 0, len);
    assert(digest@.subrange(0, len as int) =~= digest@.take(len as int));
    key
}

/// The index key of a search term: the first four bytes of the SHA-256
/// digest of its UTF-8 bytes.
pub fn hash_term(term: &str) -> (key: Vec<u8>)
    ensures
        key@ == sha256_digest(term.spec_bytes()).take(4),
        key@.len() == 4,
{
    let digest = sha256(term.as_bytes());
    key_of_digest(digest.as_slice())
}


pub const SEPARATOR: &'static str = "-";

pub const EXTENSION: &'static str = ".html";

pub const INDEX_DIR: &'static str = "tagindex";

pub const GALLERIES_INDEX_DIR: &'static str = "galleriesindex";

pub const COMPRESSED_NOZOMI_PREFIX: &'static str = "n";

pub const TAG_INDEX_DOMAIN: &'static str = "tagindex.hitomi.la";

/// Matches the characters that are taken out of a tag name in a link.
pub const SANITIZE_PATTERN: &'static str = "[/#]";

/// The value of the `Range` header for a byte range: `bytes=`, the first
/// byte, a hyphen and the last byte.
pub open spec fn spec_range_header(range: ByteRange) -> Option<Seq<char>> {
    if range.start < range.end {
        Some("bytes="@ + spec_digits(range.start as nat) + seq!['-'] + spec_digits((range.end - 1) as nat))
    } else {
        None
    }
}

/// The `Range` header that asks for a byte range; none for an empty range.
pub fn range_header(range: &ByteRange) -> (header: Option<String>)
    ensures
        match header {
            Some(text) => spec_range_header(*range) == Some(text@),
            None => spec_range_header(*range) is None,
        },
{
    if range.start >= range.end {
        return None;
    }
    let mut text: Vec<char> = Vec::new();
    push_str(&mut text, "bytes=");
    let first = digits(range.start);
    push_chars(&mut text, first.as_slice());
    text.push('-');
    let last = digits(range.end - 1);
    push_chars(&mut text, last.as_slice());
    assert(text@ =~= "bytes="@ + spec_digits(range.start as nat) + seq!['-'] + spec_digits(
        (range.end - 1) as nat,
    ));
    Some(string_of(text.as_slice()))
}

/// The start of every address on the index host: protocol, two slashes, the
/// domain and a slash.
pub open spec fn spec_index_root() -> Seq<char> {
    PROTOCOL@ + "//"@ + DOMAIN@ + seq!['/']
}

fn index_root() -> (root: Vec<char>)
    ensures
        root@ == spec_index_root(),
{
    let mut root: Vec<char> = Vec::new();
    push_str(&mut root, PROTOCOL);
    push_str(&mut root, "//");
    push_str(&mut root, DOMAIN);
    root.push('/');
    assert(root@ =~= spec_index_root());
    root
}

/// The address that tells the version of an index directory; the time stamp
/// only keeps caches from answering.
pub open spec fn spec_version_url(name: Seq<char>, timestamp_ms: u64) -> Seq<char> {
    spec_index_root() + name + "/version?_="@ + spec_digits(timestamp_ms as nat)
}

/// The address that tells the version of the index directory `name`.
pub fn get_index_version(name: &str, timestamp_ms: u64) -> (url: String)
    ensures
        url@ == spec_version_url(name@, timestamp_ms),
{
    let mut url = index_root();
    push_str(&mut url, name);
    push_str(&mut url, "/version?_=");
    let stamp = digits(timestamp_ms);
    push_chars(&mut url, stamp.as_slice());
    string_of(url.as_slice())
}

/// The index file of a field: the fields `galleries`, `languages` and
/// `nozomiurl` lie in the galleries index, every other in the tag index.
pub open spec fn spec_index_url(
    field: Seq<char>,
    tag_index_version: Seq<char>,
    galleries_index_version: Seq<char>,
) -> Seq<char> {
    if field == "galleries"@ || field == "languages"@ || field == "nozomiurl"@ {
        spec_index_root() + GALLERIES_INDEX_DIR@ + seq!['/'] + field + seq!['.']
            + galleries_index_version + ".index"@
    } else {
        spec_index_root() + INDEX_DIR@ + seq!['/'] + field + seq!['.'] + tag_index_version
            + ".index"@
    }
}

/// The address of the index file of `field`.
pub fn index_url(field: &str, tag_index_version: &str, galleries_index_version: &str) -> (url:
    String)
    ensures
        url@ == spec_index_url(field@, tag_index_version@, galleries_index_version@),
{
    let mut url = index_root();
    let galleries = same_text(field, "galleries") || same_text(field, "languages") || same_text(
        field,
        "nozomiurl",
    );
    if galleries {
        push_str(&mut url, GALLERIES_INDEX_DIR);
    } else {
        push_str(&mut url, INDEX_DIR);
    }
    url.push('/');
    push_str(&mut url, field);
    url.push('.');
    if galleries {
        push_str(&mut url, galleries_index_version);
    } else {
        push_str(&mut url, tag_index_version);
    }
    push_str(&mut url, ".index");
    assert(url@ =~= spec_index_url(field@, tag_index_version@, galleries_index_version@));
    string_of(url.as_slice())
}

/// The data file of the galleries index.
pub open spec fn spec_galleries_data_url(galleries_index_version: Seq<char>) -> Seq<char> {
    spec_index_root() + GALLERIES_INDEX_DIR@ + "/galleries."@ + galleries_index_version + ".data"@
}

/// The address of the data file that holds the id lists.
pub fn galleries_data_url(galleries_index_version: &str) -> (url: String)
    ensures
        url@ == spec_galleries_data_url(galleries_index_version@),
{
    let mut url = index_root();
    push_str(&mut url, GALLERIES_INDEX_DIR);
    push_str(&mut url, "/galleries.");
    push_str(&mut url, galleries_index_version);
    push_str(&mut url, ".data");
    string_of(url.as_slice())
}

/// A request for a nozomi file.
#[derive(Debug)]
pub struct NozomiRequest {
    pub area: Option<String>,
    pub tag: String,
    pub language: String,
}

/// Mathematical content of a [`NozomiRequest`].
pub struct NozomiRequestView {
    pub area: Option<Seq<char>>,
    pub tag: Seq<char>,
    pub language: Seq<char>,
}

impl View for NozomiRequest {
    type V = NozomiRequestView;

    open spec fn view(&self) -> NozomiRequestView {
        NozomiRequestView {
            area: match self.area {
                Some(area) => Some(area@),
                None => None,
            },
            tag: self.tag@,
            language: self.language@,
        }
    }
}

/// The address of a nozomi file: below `n`, in the directory of the area
/// where there is one, the tag, a hyphen, the language and the extension.
pub open spec fn spec_nozomi_address(request: NozomiRequestView) -> Seq<char> {
    spec_index_root() + COMPRESSED_NOZOMI_PREFIX@ + seq!['/'] + (match request.area {
        Some(area) => area + seq!['/'],
        None => Seq::empty(),
    }) + request.tag + seq!['-'] + request.language + NOZOMI_EXTENSION@
}

/// The address of the nozomi file that a request names.
pub fn nozomi_address(request: &NozomiRequest) -> (url: String)
    ensures
        url@ == spec_nozomi_address(request@),
{
    let mut url = index_root();
    push_str(&mut url, COMPRESSED_NOZOMI_PREFIX);
    url.push('/');
    let ghost shown = Seq::<char>::empty();
    if let Some(area) = &request.area {
        push_str(&mut url, area.as_str());
        url.push('/');
        proof {
            shown = area@ + seq!['/'];
        }
    }
    assert(url@ =~= spec_index_root() + COMPRESSED_NOZOMI_PREFIX@ + seq!['/'] + shown);
    push_str(&mut url, request.tag.as_str());
    url.push('-');
    push_str(&mut url, request.language.as_str());
    push_str(&mut url, NOZOMI_EXTENSION);
    assert(url@ =~= spec_nozomi_address(request@));
    string_of(url.as_slice())
}

/// How the ids of one term are found.
#[derive(Debug)]
pub enum QueryPlan {
    /// They are the content of a nozomi file.
    Nozomi(NozomiRequest),
    /// They are looked up in the galleries index under this key.
    Galleries { key: Vec<u8> },
}

/// Mathematical content of a [`QueryPlan`].
pub enum QueryPlanView {
    Nozomi(NozomiRequestView),
    Galleries { key: Seq<u8> },
}

impl View for QueryPlan {
    type V = QueryPlanView;

    open spec fn view(&self) -> QueryPlanView {
        match self {
            QueryPlan::Nozomi(request) => QueryPlanView::Nozomi(request@),
            QueryPlan::Galleries { key } => QueryPlanView::Galleries { key: key@ },
        }
    }
}

/// The nozomi file of a term `ns:tag`: for the name spaces `female` and
/// `male` the whole term in the area `tag`, for `language` the index of
/// that language, for any other the tag in the area of the name space.
pub open spec fn spec_namespace_request(term: Seq<char>, colon: int) -> NozomiRequestView {
    let ns = term.take(colon);
    let tag = term.skip(colon + 1);
    if ns == "female"@ || ns == "male"@ {
        NozomiRequestView { area: Some("tag"@), tag: term, language: "all"@ }
    } else if ns == "language"@ {
        NozomiRequestView { area: None, tag: "index"@, language: tag }
    } else {
        NozomiRequestView { area: Some(ns), tag, language: "all"@ }
    }
}

/// How the ids of a term are found: underscores count as blanks; a term
/// with a colon names a nozomi file, any other is looked up in the
/// galleries index under the key of its hash.
pub open spec fn spec_plan_query(query: Seq<char>) -> QueryPlanView {
    let term = spec_replace_char(query, '_', ' ');
    if term.contains(':') {
        QueryPlanView::Nozomi(spec_namespace_request(term, first_index(term, ':')))
    } else {
        QueryPlanView::Galleries { key: sha256_digest(encode_utf8(term)).take(4) }
    }
}

/// Decides how the ids of one term of a query are found.
pub fn get_gallery_ids_for_query(query: &str) -> (plan: QueryPlan)
    ensures
        plan@ == spec_plan_query(query@),
{
    let all = chars_of(query);
    let term = replace_char(all.as_slice(), '_', ' ');
    match find_char(term.as_slice(), ':') {
        Some(colon) => {
            let n = term.len();
            let ns = slice_chars(term.as_slice(), 0, colon);
            let tag = slice_chars(term.as_slice(), colon + 1, term.len());
            assert(ns@ =~= term@.take(colon as int));
            assert(tag@ =~= term@.skip(colon + 1));
            let ns = string_of(ns.as_slice());
            let request = if same_text(ns.as_str(), "female") || same_text(ns.as_str(), "male") {
                NozomiRequest {
                    area: Some(String::from_str("tag")),
                    tag: string_of(term.as_slice()),
                    language: String::from_str("all"),
                }
            } else if same_text(ns.as_str(), "language") {
                NozomiRequest {
                    area: None,
                    tag: String::from_str("index"),
                    language: string_of(tag.as_slice()),
                }
            } else {
                NozomiRequest {
                    area: Some(ns),
                    tag: string_of(tag.as_slice()),
                    language: String::from_str("all"),
                }
            };
            QueryPlan::Nozomi(request)
        },
        None => {
            let text = string_of(term.as_slice());
            QueryPlan::Galleries { key: hash_term(text.as_str()) }
        },
    }
}

/// The path segment that stands for a character of a suggestion query.
pub open spec fn spec_encode_search_query_for_url(c: char) -> Seq<char> {
    if c == ' ' {
        "_"@
    } else if c == '/' {
        "slash"@
    } else if c == '.' {
        "dot"@
    } else {
        seq![c]
    }
}

/// Encodes one character of a suggestion query as a path segment.
pub fn encode_search_query_for_url(s: char) -> (segment: String)
    ensures
        segment@ == spec_encode_search_query_for_url(s),
{
    if s == ' ' {
        String::from_str("_")
    } else if s == '/' {
        String::from_str("slash")
    } else if s == '.' {
        String::from_str("dot")
    } else {
        let mut one: Vec<char> = Vec::new();
        one.push(s);
        assert(one@ =~= seq![s]);
        string_of(one.as_slice())
    }
}

/// The path of a suggestion query: one segment for each character.
pub open spec fn spec_suggestion_path(term: Seq<char>) -> Seq<char> {
    spec_join(term.map_values(|c: char| spec_encode_search_query_for_url(c)), "/"@)
}

/// The address that suggests completions of a query: on the tag index host,
/// the field before the first colon (`global` without one), then the path
/// of the rest where it is not empty.
pub open spec fn spec_suggestion_url(query: Seq<char>) -> Seq<char> {
    let q = spec_replace_char(query, '_', ' ');
    let field = if q.contains(':') {
        q.take(first_index(q, ':'))
    } else {
        "global"@
    };
    let term = if q.contains(':') {
        q.skip(first_index(q, ':') + 1)
    } else {
        q
    };
    let path = spec_suggestion_path(term);
    PROTOCOL@ + "//"@ + TAG_INDEX_DOMAIN@ + seq!['/'] + field + (if path.len() == 0 {
        Seq::empty()
    } else {
        seq!['/'] + path
    }) + ".json"@
}

/// The address of the suggestions for a query.
pub fn suggestion_url(query: &str) -> (url: String)
    ensures
        url@ == spec_suggestion_url(query@),
{
    let all = chars_of(query);
    let q = replace_char(all.as_slice(), '_', ' ');
    let found = find_char(q.as_slice(), ':');
    let mut field: Vec<char> = Vec::new();
    let term = match found {
        Some(colon) => {
            let n = q.len();
            let head = slice_chars(q.as_slice(), 0, colon);
            push_chars(&mut field, head.as_slice());
            assert(field@ =~= q@.take(colon as int));
            let rest = slice_chars(q.as_slice(), colon + 1, q.len());
            assert(rest@ =~= q@.skip(colon + 1));
            rest
        },
        None => {
            push_str(&mut field, "global");
            assert(field@ =~= "global"@);
            q
        },
    };
    let mut path: Vec<char> = Vec::new();
    let ghost segments = term@.map_values(|c: char| spec_encode_search_query_for_url(c));
    let mut i: usize = 0;
    assert(segments.take(0) =~= Seq::<Seq<char>>::empty());
    while i < term.len()
        invariant
            i <= term@.len(),
            segments == term@.map_values(|c: char| spec_encode_search_query_for_url(c)),
            path@ == spec_join(segments.take(i as int), "/"@),
        decreases term.len() - i,
    {
        proof {
            let next = segments.take(i + 1);
            assert(next.drop_last() =~= segments.take(i as int));
            assert(next.last() == spec_encode_search_query_for_url(term@[i as int]));
            if i == 0 {
                assert(path@ + next.last() =~= next.last());
            }
        }
        if i > 0 {
            push_str(&mut path, "/");
        }
        let segment = encode_search_query_for_url(term[i]);
        push_str(&mut path, segment.as_str());
        i += 1;
    }
    assert(segments.take(i as int) =~= segments);
    let mut url: Vec<char> = Vec::new();
    push_str(&mut url, PROTOCOL);
    push_str(&mut url, "//");
    push_str(&mut url, TAG_INDEX_DOMAIN);
    url.push('/');
    push_chars(&mut url, field.as_slice());
    let ghost shown = Seq::<char>::empty();
    if path.len() > 0 {
        url.push('/');
        push_chars(&mut url, path.as_slice());
        proof {
            shown = seq!['/'] + path@;
        }
    }
    assert(url@ =~= PROTOCOL@ + "//"@ + TAG_INDEX_DOMAIN@ + seq!['/'] + field@ + shown);
    push_str(&mut url, ".json");
    string_of(url.as_slice())
}

/// A tag name as it stands in a link: without slashes and number signs.
pub open spec fn spec_sanitize(input: Seq<char>) -> Option<Seq<char>> {
    regex_replaced_all(SANITIZE_PATTERN@, input, Seq::empty())
}

/// Takes the characters out of a tag name that a link cannot hold.
pub fn sanitize(input: &str) -> (r: Result<String, HitomiError>)
    ensures
        match r {
            Ok(out) => spec_sanitize(input@) == Some(out@),
            Err(e) => spec_sanitize(input@) is None && e == HitomiError::Pattern,
        },
{
    proof {
        reveal_strlit("");
        assert(""@ =~= Seq::<char>::empty());
    }
    match regex_replace_all(SANITIZE_PATTERN, input, "") {
        Ok(out) => Ok(out),
        Err(_) => Err(HitomiError::Pattern),
    }
}

/// The link of a suggestion: for the name spaces `female` and `male` the
/// tag page of the name with its name space, for `language` the index of
/// that language, for any other the page of the name in its name space.
pub open spec fn spec_suggestion_link(ns: Seq<char>, tagname: Seq<char>) -> Seq<char> {
    if ns == "female"@ || ns == "male"@ {
        "/tag/"@ + ns + seq![':'] + tagname + SEPARATOR@ + "1"@ + EXTENSION@
    } else if ns == "language"@ {
        "/index-"@ + tagname + SEPARATOR@ + "1"@ + EXTENSION@
    } else {
        seq!['/'] + ns + seq!['/'] + tagname + SEPARATOR@ + "all"@ + SEPARATOR@ + "1"@
            + EXTENSION@
    }
}

/// The link of the suggestion with this name space and sanitized name.
pub fn suggestion_link(ns: &str, tagname: &str) -> (link: String)
    ensures
        link@ == spec_suggestion_link(ns@, tagname@),
{
    let mut link: Vec<char> = Vec::new();
    if same_text(ns, "female") || same_text(ns, "male") {
        push_str(&mut link, "/tag/");
        push_str(&mut link, ns);
        link.push(':');
        push_str(&mut link, tagname);
        push_str(&mut link, SEPARATOR);
        push_str(&mut link, "1");
        push_str(&mut link, EXTENSION);
        assert(link@ =~= spec_suggestion_link(ns@, tagname@));
    } else if same_text(ns, "language") {
        push_str(&mut link, "/index-");
        push_str(&mut link, tagname);
        push_str(&mut link, SEPARATOR);
        push_str(&mut link, "1");
        push_str(&mut link, EXTENSION);
        assert(link@ =~= spec_suggestion_link(ns@, tagname@));
    } else {
        link.push('/');
        push_str(&mut link, ns);
        link.push('/');
        push_str(&mut link, tagname);
        push_str(&mut link, SEPARATOR);
        push_str(&mut link, "all");
        push_str(&mut link, SEPARATOR);
        push_str(&mut link, "1");
        push_str(&mut link, EXTENSION);
        assert(link@ =~= spec_suggestion_link(ns@, tagname@));
    }
    string_of(link.as_slice())
}


/// A completion that the service suggests for a query.
#[derive(Debug)]
pub struct Suggestion {
    /// The name, as it is shown.
    pub s: String,
    /// Number of galleries.
    pub t: i32,
    /// The link.
    pub u: String,
    /// The name space.
    pub n: String,
}

/// Mathematical content of a [`Suggestion`].
pub struct SuggestionView {
    pub s: Seq<char>,
    pub t: i32,
    pub u: Seq<char>,
    pub n: Seq<char>,
}

impl View for Suggestion {
    type V = SuggestionView;

    open spec fn view(&self) -> SuggestionView {
        SuggestionView { s: self.s@, t: self.t, u: self.u@, n: self.n@ }
    }
}

/// The content of a list of suggestions.
pub open spec fn suggestion_views(list: Seq<Suggestion>) -> Seq<SuggestionView> {
    list.map_values(|s: Suggestion| s@)
}

/// The text of an optional item; nothing where it is absent.
pub open spec fn item_text(item: Option<Seq<char>>) -> Seq<char> {
    match item {
        Some(text) => text,
        None => Seq::empty(),
    }
}

/// The suggestion of a row `[name, count, ns]`: none for a row of fewer
/// than three items; else the name, the low 32 bits of the count, the link
/// by name space and sanitized name, and the name space. An item of another
/// kind counts as empty or as 0. The outer `None` stands for a refused
/// pattern.
pub open spec fn spec_row_suggestion(row: JsonRowView) -> Option<Option<SuggestionView>> {
    if row.0 < 3 {
        Some(None)
    } else {
        match spec_sanitize(item_text(row.1)) {
            None => None,
            Some(tagname) => Some(
                Some(
                    SuggestionView {
                        s: item_text(row.1),
                        t: match row.2 {
                            Some(count) => spec_wrap_i32(count as int) as i32,
                            None => 0,
                        },
                        u: spec_suggestion_link(item_text(row.3), tagname),
                        n: item_text(row.3),
                    },
                ),
            ),
        }
    }
}

/// The suggestions of the rows of a document, in order; rows that are no
/// arrays or are too short give none.
pub open spec fn spec_rows_suggestions(rows: Seq<Option<JsonRowView>>) -> Result<
    Seq<SuggestionView>,
    HitomiError,
>
    decreases rows.len(),
{
    if rows.len() == 0 {
        Ok(Seq::empty())
    } else {
        match spec_rows_suggestions(rows.drop_last()) {
            Err(e) => Err(e),
            Ok(list) => match rows.last() {
                None => Ok(list),
                Some(row) => match spec_row_suggestion(row) {
                    None => Err(HitomiError::Pattern),
                    Some(None) => Ok(list),
                    Some(Some(suggestion)) => Ok(list.push(suggestion)),
                },
            },
        }
    }
}

/// The suggestions that a response holds: none for the status 404, those of
/// the rows of the body for the status 200; any other status is refused.
pub open spec fn spec_suggestions(status: u16, body: Seq<char>) -> Result<
    Seq<SuggestionView>,
    HitomiError,
> {
    if status == 404 {
        Ok(Seq::empty())
    } else if status != 200 {
        Err(HitomiError::UnexpectedStatus)
    } else {
        match json_rows(body) {
            None => Err(HitomiError::Json),
            Some(rows) => spec_rows_suggestions(rows),
        }
    }
}

fn text_of_item(item: &Option<String>) -> (text: String)
    ensures
        text@ == item_text(
            match *item {
                Some(t) => Some(t@),
                None => None,
            },
        ),
{
    match item {
        Some(text) => text.clone(),
        None => String::new(),
    }
}

/// Makes the suggestion of one row of the response.
pub fn suggestion_from_row(row: &JsonRow) -> (r: Result<Option<Suggestion>, HitomiError>)
    ensures
        match r {
            Ok(Some(suggestion)) => spec_row_suggestion(crate::json::row_view(*row)) == Some(
                Some(suggestion@),
            ),
            Ok(None) => spec_row_suggestion(crate::json::row_view(*row)) == Some(
                None::<SuggestionView>,
            ),
            Err(e) => spec_row_suggestion(crate::json::row_view(*row)) is None && e
                == HitomiError::Pattern,
        },
{
    if row.fields < 3 {
        return Ok(None);
    }
    let name = text_of_item(&row.first);
    let ns = text_of_item(&row.third);
    let tagname = sanitize(name.as_str())?;
    let link = suggestion_link(ns.as_str(), tagname.as_str());
    let count = match row.second {
        Some(count) => wrap_i32(count),
        None => 0,
    };
    Ok(Some(Suggestion { s: name, t: count, u: link, n: ns }))
}

/// Makes the suggestions of the rows of a response.
pub fn suggestions_from_rows(rows: &Vec<Option<JsonRow>>) -> (r: Result<
    Vec<Suggestion>,
    HitomiError,
>)
    ensures
        match r {
            Ok(list) => spec_rows_suggestions(rows_view(rows@)) == Ok::<
                Seq<SuggestionView>,
                HitomiError,
            >(suggestion_views(list@)),
            Err(e) => spec_rows_suggestions(rows_view(rows@)) == Err::<
                Seq<SuggestionView>,
                HitomiError,
            >(e),
        },
{
    let ghost all = rows_view(rows@);
    let mut list: Vec<Suggestion> = Vec::new();
    let mut i: usize = 0;
    assert(all.take(0) =~= Seq::<Option<JsonRowView>>::empty());
    assert(suggestion_views(list@) =~= Seq::<SuggestionView>::empty());
    while i < rows.len()
        invariant
            i <= rows@.len(),
            all == rows_view(rows@),
            spec_rows_suggestions(all.take(i as int)) == Ok::<Seq<SuggestionView>, HitomiError>(
                suggestion_views(list@),
            ),
        decreases rows.len() - i,
    {
        proof {
            assert(all.take(i + 1).drop_last() =~= all.take(i as int));
            assert(all.take(i + 1).last() == all[i as int]);
        }
        match &rows[i] {
            None => {},
            Some(row) => match suggestion_from_row(row) {
                Err(e) => {
                    proof {
                        lemma_rows_error(all, i + 1);
                    }
                    return Err(e);
                },
                Ok(None) => {},
                Ok(Some(suggestion)) => {
                    assert(suggestion_views(list@.push(suggestion)) =~= suggestion_views(
                        list@,
                    ).push(suggestion@));
                    list.push(suggestion);
                },
            },
        }
        i += 1;
    }
    assert(all.take(i as int) =~= all);
    Ok(list)
}

proof fn lemma_rows_error(rows: Seq<Option<JsonRowView>>, n: int)
    requires
        0 <= n <= rows.len(),
        spec_rows_suggestions(rows.take(n)) is Err,
    ensures
        spec_rows_suggestions(rows) == spec_rows_suggestions(rows.take(n)),
    decreases rows.len() - n,
{
    if n == rows.len() {
        assert(rows.take(n) =~= rows);
    } else {
        assert(rows.take(n + 1).drop_last() =~= rows.take(n));
        lemma_rows_error(rows, n + 1);
    }
}

/// Reads the suggestions from the response to a suggestion request.
pub fn get_suggestions_for_query(status: u16, body: &str) -> (r: Result<
    Vec<Suggestion>,
    HitomiError,
>)
    ensures
        match r {
            Ok(list) => spec_suggestions(status, body@) == Ok::<Seq<SuggestionView>, HitomiError>(
                suggestion_views(list@),
            ),
            Err(e) => spec_suggestions(status, body@) == Err::<Seq<SuggestionView>, HitomiError>(
                e,
            ),
        },
{
    if status == 404 {
        let list: Vec<Suggestion> = Vec::new();
        assert(suggestion_views(list@) =~= Seq::<SuggestionView>::empty());
        return Ok(list);
    }
    if status != 200 {
        return Err(HitomiError::UnexpectedStatus);
    }
    match read_rows(body) {
        Ok(rows) => suggestions_from_rows(&rows),
        Err(_) => Err(HitomiError::Json),
    }
}

} // verus!
