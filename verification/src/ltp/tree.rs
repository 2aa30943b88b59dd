//! BTree-on-Heap (BTH):
//! the header of a heap tree and its entries.

use vstd::prelude::*;
use crate::codec::{le16, le32, lemma_le_roundtrip, push_u8, view_result};
use crate::ndb::node_id::nid_type_code;
use super::LtpError;
use super::read_write::{HeapIdReadWrite, HeapNodeReadWrite};
use super::heap::{lemma_heap_id_roundtrip, parse_heap_id, HeapId, HeapNodeType};
use super::table_context::{AnsiTableRowIndex, TableRowId, UnicodeTableRowIndex};

verus! {

/// The fields of a heap tree header.
pub struct HeapTreeHeaderModel {
    pub key_size: u8,
    pub entry_size: u8,
    pub levels: u8,
    pub root: u32,
}

/// BTHHEADER:
/// the sizes of the keys and data of a heap tree, its depth and its root.
#[derive(Debug, Clone, Copy, PartialEq, Eq, Structural)]
pub struct HeapTreeHeader {
    key_size: u8,
    entry_size: u8,
    levels: u8,
    root: HeapId,
}

impl View for HeapTreeHeader {
    type V = HeapTreeHeaderModel;

    closed spec fn view(&self) -> HeapTreeHeaderModel {
        HeapTreeHeaderModel { key_size: self.key_size, entry_size: self.entry_size, levels: self.levels, root: self.root@ }
    }
}

/// What `new` gives: keys must be 2, 4, 8 or 16 bytes and data 1 to 32 bytes.
pub open spec fn heap_tree_header_new(key_size: u8, entry_size: u8, levels: u8, root: u32) -> Result<HeapTreeHeaderModel, LtpError> {
    if !(key_size == 2 || key_size == 4 || key_size == 8 || key_size == 16) {
        Err(LtpError::InvalidHeapTreeKeySize(key_size))
    } else if !(1 <= entry_size <= 32) {
        Err(LtpError::InvalidHeapTreeDataSize(entry_size))
    } else {
        Ok(HeapTreeHeaderModel { key_size, entry_size, levels, root })
    }
}

/// The heap tree header held in the 8 bytes of `s`: `bType`, `cbKey`, `cbEnt`,
/// `bIdxLevels` and `hidRoot`.
pub open spec fn parse_heap_tree_header(s: Seq<u8>) -> Result<HeapTreeHeaderModel, LtpError> {
    match HeapNodeType::spec_from_code(s[0]) {
        None => Err(LtpError::InvalidHeapNodeSignature(s[0])),
        Some(t) => if t != HeapNodeType::Tree {
            Err(LtpError::InvalidHeapTreeNodeType(t))
        } else {
            match parse_heap_id(s.subrange(4, 8)) {
                Err(e) => Err(e),
                Ok(root) => heap_tree_header_new(s[1], s[2], s[3], root),
            }
        },
    }
}

/// The 8 bytes of a heap tree header.
pub open spec fn heap_tree_header_bytes(m: HeapTreeHeaderModel) -> Seq<u8> {
    seq![HeapNodeType::Tree.spec_code(), m.key_size, m.entry_size, m.levels] + le32(m.root)
}

impl HeapTreeHeader {
    /// The header of a tree with keys of `key_size` bytes, data of `entry_size` bytes,
    /// `levels` levels of intermediate entries and root `root`.
    pub fn new(key_size: u8, entry_size: u8, levels: u8, root: HeapId) -> (r: Result<HeapTreeHeader, LtpError>)
        ensures
            view_result(r) == heap_tree_header_new(key_size, entry_size, levels, root@),
    {
        if !(key_size == 2 || key_size == 4 || key_size == 8 || key_size == 16) {
            return Err(LtpError::InvalidHeapTreeKeySize(key_size));
        }
        if !(1 <= entry_size && entry_size <= 32) {
            return Err(LtpError::InvalidHeapTreeDataSize(entry_size));
        }
        Ok(HeapTreeHeader { key_size, entry_size, levels, root })
    }

    /// The size of the keys.
    pub fn key_size(&self) -> (r: u8)
        ensures
            r == self@.key_size,
    {
        self.key_size
    }

    /// The size of the data of the leaf entries.
    pub fn entry_size(&self) -> (r: u8)
        ensures
            r == self@.entry_size,
    {
        self.entry_size
    }

    /// The number of levels of intermediate entries.
    pub fn levels(&self) -> (r: u8)
        ensures
            r == self@.levels,
    {
        self.levels
    }

    /// The root of the tree.
    pub fn root(&self) -> (r: HeapId)
        ensures
            r@ == self@.root,
    {
        self.root
    }
}

impl HeapNodeReadWrite for HeapTreeHeader {
    open spec fn encoded_size() -> nat {
        8
    }

    open spec fn encoded(v: HeapTreeHeaderModel) -> Seq<u8> {
        heap_tree_header_bytes(v)
    }

    open spec fn decoded(s: Seq<u8>) -> Result<HeapTreeHeaderModel, LtpError> {
        parse_heap_tree_header(s)
    }

    proof fn lemma_encoded_len(v: HeapTreeHeaderModel) {
        lemma_le_roundtrip();
    }

    /// Reads a heap tree header from the first 8 bytes of `b`.
    fn read(b: &[u8]) -> (r: Result<HeapTreeHeader, LtpError>) {
        if b.len() < 8 {
            return Err(LtpError::UnexpectedEndOfData);
        }
        assert(b@.subrange(0, 8).subrange(4, 8) =~= b@.subrange(4, 8));
        assert(b@.subrange(4, 8).subrange(0, 4) =~= b@.subrange(4, 8));
        let heap_type = match HeapNodeType::try_from_u8(b[0]) {
            Ok(t) => t,
            Err(e) => return Err(e),
        };
        if heap_type != HeapNodeType::Tree {
            return Err(LtpError::InvalidHeapTreeNodeType(heap_type));
        }
        let root = match HeapId::read(&b[4..8]) {
            Ok(h) => h,
            Err(e) => return Err(e),
        };
        HeapTreeHeader::new(b[1], b[2], b[3], root)
    }

    /// Appends the 8 bytes of the header.
    fn write(&self, out: &mut Vec<u8>) {
        push_u8(out, HeapNodeType::Tree.code());
        push_u8(out, self.key_size);
        push_u8(out, self.entry_size);
        push_u8(out, self.levels);
        self.root.write(out);
        assert(out@ =~= old(out)@ + heap_tree_header_bytes(self@));
    }
}

/// Reading the bytes of a valid heap tree header whose root is a heap id gives it back.
pub proof fn lemma_heap_tree_header_roundtrip(m: HeapTreeHeaderModel)
    requires
        heap_tree_header_new(m.key_size, m.entry_size, m.levels, m.root) is Ok,
        nid_type_code(m.root) == 0,
    ensures
        heap_tree_header_bytes(m).len() == 8,
        parse_heap_tree_header(heap_tree_header_bytes(m)) == Ok::<HeapTreeHeaderModel, LtpError>(m),
{
    let s = heap_tree_header_bytes(m);
    lemma_le_roundtrip();
    lemma_heap_id_roundtrip(m.root);
    assert(s.subrange(4, 8) =~= le32(m.root));
}

/// The key of a heap tree entry, stored in a fixed number of bytes.
pub trait HeapTreeEntryKey: HeapNodeReadWrite + Copy + Sized {
    /// The number of bytes of a key.
    fn size() -> (r: u8)
        ensures
            r as nat == Self::encoded_size(),
    ;
}

/// The data of a heap tree leaf entry, stored in a fixed number of bytes.
pub trait HeapTreeEntryValue: HeapNodeReadWrite + Copy + Sized {
    /// The number of bytes of the data.
    fn size() -> (r: u8)
        ensures
            r as nat == Self::encoded_size(),
    ;
}

impl HeapTreeEntryKey for TableRowId {
    fn size() -> (r: u8) {
        4
    }
}

impl HeapTreeEntryValue for UnicodeTableRowIndex {
    fn size() -> (r: u8) {
        4
    }
}

impl HeapTreeEntryValue for AnsiTableRowIndex {
    fn size() -> (r: u8) {
        2
    }
}

/// An intermediate entry of a heap tree: the first key of the next level's item and its heap id.
#[derive(Debug, Clone, Copy)]
pub struct HeapTreeIntermediateEntry<K: HeapTreeEntryKey> {
    key: K,
    next_level: HeapId,
}

impl<K: HeapTreeEntryKey> HeapTreeIntermediateEntry<K> {
    /// The entry for `key` that leads to `next_level`.
    pub fn new(key: K, next_level: HeapId) -> (r: HeapTreeIntermediateEntry<K>)
        ensures
            r.spec_key() == key,
            r.spec_next_level() == next_level,
    {
        HeapTreeIntermediateEntry { key, next_level }
    }

    /// The key.
    pub closed spec fn spec_key(&self) -> K {
        self.key
    }

    /// The heap id of the next level.
    pub closed spec fn spec_next_level(&self) -> HeapId {
        self.next_level
    }

    /// The key.
    pub fn key(&self) -> (r: K)
        ensures
            r == self.spec_key(),
    {
        self.key
    }

    /// The heap id of the next level.
    pub fn next_level(&self) -> (r: HeapId)
        ensures
            r == self.spec_next_level(),
    {
        self.next_level
    }
}

impl<K: HeapTreeEntryKey> View for HeapTreeIntermediateEntry<K> {
    type V = (K::V, u32);

    closed spec fn view(&self) -> (K::V, u32) {
        (self.key@, self.next_level@)
    }
}

impl<K: HeapTreeEntryKey> HeapNodeReadWrite for HeapTreeIntermediateEntry<K> {
    open spec fn encoded_size() -> nat {
        K::encoded_size() + 4
    }

    open spec fn encoded(v: (K::V, u32)) -> Seq<u8> {
        K::encoded(v.0) + le32(v.1)
    }

    /// The key, then the heap id of the next level.
    open spec fn decoded(s: Seq<u8>) -> Result<(K::V, u32), LtpError> {
        let n = K::encoded_size() as int;
        match K::decoded(s.subrange(0, n)) {
            Err(e) => Err(e),
            Ok(k) => match parse_heap_id(s.subrange(n, n + 4)) {
                Err(e) => Err(e),
                Ok(h) => Ok((k, h)),
            },
        }
    }

    proof fn lemma_encoded_len(v: (K::V, u32)) {
        K::lemma_encoded_len(v.0);
        lemma_le_roundtrip();
    }

    /// Reads the key, then the heap id of the next level.
    fn read(b: &[u8]) -> (r: Result<HeapTreeIntermediateEntry<K>, LtpError>) {
        let n = K::size() as usize;
        if b.len() < n + 4 {
            return Err(LtpError::UnexpectedEndOfData);
        }
        let ghost s = b@.subrange(0, n + 4);
        assert(s.subrange(0, n as int) =~= b@.subrange(0, n as int));
        assert(s.subrange(n as int, n + 4) =~= b@.subrange(n as int, n + 4));
        let key = match K::read(b) {
            Ok(k) => k,
            Err(e) => return Err(e),
        };
        let rest = &b[n..n + 4];
        assert(rest@.subrange(0, 4) =~= rest@);
        let next_level = match HeapId::read(rest) {
            Ok(h) => h,
            Err(e) => return Err(e),
        };
        Ok(HeapTreeIntermediateEntry { key, next_level })
    }

    /// Appends the key, then the heap id of the next level.
    fn write(&self, out: &mut Vec<u8>) {
        self.key.write(out);
        self.next_level.write(out);
        assert(out@ =~= old(out)@ + Self::encoded(self@));
    }
}

/// A leaf entry of a heap tree: a key and its data.
#[derive(Debug, Clone, Copy)]
pub struct HeapTreeLeafEntry<K: HeapTreeEntryKey, V: Copy> {
    key: K,
    data: V,
}

impl<K: HeapTreeEntryKey, V: Copy> HeapTreeLeafEntry<K, V> {
    /// The entry of `data` under `key`.
    pub fn new(key: K, data: V) -> (r: HeapTreeLeafEntry<K, V>)
        ensures
            r.spec_key() == key,
            r.spec_data() == data,
    {
        HeapTreeLeafEntry { key, data }
    }

    /// The key.
    pub closed spec fn spec_key(&self) -> K {
        self.key
    }

    /// The data.
    pub closed spec fn spec_data(&self) -> V {
        self.data
    }

    /// The key.
    pub fn key(&self) -> (r: K)
        ensures
            r == self.spec_key(),
    {
        self.key
    }

    /// The data.
    pub fn data(&self) -> (r: V)
        ensures
            r == self.spec_data(),
    {
        self.data
    }
}

impl<K: HeapTreeEntryKey, V: HeapTreeEntryValue> View for HeapTreeLeafEntry<K, V> {
    type V = (K::V, V::V);

    closed spec fn view(&self) -> (K::V, V::V) {
        (self.key@, self.data@)
    }
}

impl<K: HeapTreeEntryKey, V: HeapTreeEntryValue> HeapNodeReadWrite for HeapTreeLeafEntry<K, V> {
    open spec fn encoded_size() -> nat {
        K::encoded_size() + V::encoded_size()
    }

    open spec fn encoded(v: (K::V, V::V)) -> Seq<u8> {
        K::encoded(v.0) + V::encoded(v.1)
    }

    /// The key, then the data.
    open spec fn decoded(s: Seq<u8>) -> Result<(K::V, V::V), LtpError> {
        let n = K::encoded_size() as int;
        match K::decoded(s.subrange(0, n)) {
            Err(e) => Err(e),
            Ok(k) => match V::decoded(s.subrange(n, n + V::encoded_size())) {
                Err(e) => Err(e),
                Ok(d) => Ok((k, d)),
            },
        }
    }

    proof fn lemma_encoded_len(v: (K::V, V::V)) {
        K::lemma_encoded_len(v.0);
        V::lemma_encoded_len(v.1);
    }

    /// Reads the key, then the data.
    fn read(b: &[u8]) -> (r: Result<HeapTreeLeafEntry<K, V>, LtpError>) {
        let n = K::size() as usize;
        let m = V::size() as usize;
        if b.len() < n + m {
            return Err(LtpError::UnexpectedEndOfData);
        }
        let ghost s = b@.subrange(0, n + m);
        assert(s.subrange(0, n as int) =~= b@.subrange(0, n as int));
        assert(s.subrange(n as int, n + m) =~= b@.subrange(n as int, n + m));
        let key = match K::read(b) {
            Ok(k) => k,
            Err(e) => return Err(e),
        };
        let rest = &b[n..n + m];
        assert(rest@.subrange(0, m as int) =~= rest@);
        let data = match V::read(rest) {
            Ok(d) => d,
            Err(e) => return Err(e),
        };
        Ok(HeapTreeLeafEntry { key, data })
    }

    /// Appends the key, then the data.
    fn write(&self, out: &mut Vec<u8>) {
        self.key.write(out);
        self.data.write(out);
        assert(out@ =~= old(out)@ + Self::encoded(self@));
    }
}

/// Row ids and row indexes read back as they were written.
pub proof fn lemma_row_id_and_index_roundtrip(id: u32, unicode_index: u32, ansi_index: u16)
    ensures
        TableRowId::decoded(TableRowId::encoded(id)) == Ok::<u32, LtpError>(id),
        UnicodeTableRowIndex::decoded(UnicodeTableRowIndex::encoded(unicode_index)) == Ok::<u32, LtpError>(unicode_index),
        AnsiTableRowIndex::decoded(AnsiTableRowIndex::encoded(ansi_index)) == Ok::<u16, LtpError>(ansi_index),
{
    lemma_le_roundtrip();
    assert(le32(id).subrange(0, 4) =~= le32(id));
    assert(le32(unicode_index).subrange(0, 4) =~= le32(unicode_index));
    assert(le16(ansi_index).subrange(0, 2) =~= le16(ansi_index));
}

/// An intermediate entry reads back as it was written, when its key does and its
/// next level is a heap id of a heap node.
pub proof fn lemma_intermediate_entry_roundtrip<K: HeapTreeEntryKey>(key: K::V, next_level: u32)
    requires
        K::decoded(K::encoded(key)) == Ok::<K::V, LtpError>(key),
        nid_type_code(next_level) == 0,
    ensures
        HeapTreeIntermediateEntry::<K>::decoded(HeapTreeIntermediateEntry::<K>::encoded((key, next_level)))
            == Ok::<(K::V, u32), LtpError>((key, next_level)),
{
    let s = HeapTreeIntermediateEntry::<K>::encoded((key, next_level));
    let n = K::encoded_size() as int;
    K::lemma_encoded_len(key);
    lemma_le_roundtrip();
    lemma_heap_id_roundtrip(next_level);
    assert(s.subrange(0, n) =~= K::encoded(key));
    assert(s.subrange(n, n + 4) =~= le32(next_level));
}

/// A leaf entry reads back as it was written, when its key and its data do.
pub proof fn lemma_leaf_entry_roundtrip<K: HeapTreeEntryKey, V: HeapTreeEntryValue>(key: K::V, data: V::V)
    requires
        K::decoded(K::encoded(key)) == Ok::<K::V, LtpError>(key),
        V::decoded(V::encoded(data)) == Ok::<V::V, LtpError>(data),
    ensures
        HeapTreeLeafEntry::<K, V>::decoded(HeapTreeLeafEntry::<K, V>::encoded((key, data)))
            == Ok::<(K::V, V::V), LtpError>((key, data)),
{
    let s = HeapTreeLeafEntry::<K, V>::encoded((key, data));
    let n = K::encoded_size() as int;
    K::lemma_encoded_len(key);
    V::lemma_encoded_len(data);
    assert(s.subrange(0, n) =~= K::encoded(key));
    assert(s.subrange(n, n + V::encoded_size()) =~= V::encoded(data));
}

/// TCROWID of a Unicode file.
pub type UnicodeTableRowIdRecord = HeapTreeLeafEntry<TableRowId, UnicodeTableRowIndex>;

/// TCROWID of an ANSI file.
pub type AnsiTableRowIdRecord = HeapTreeLeafEntry<TableRowId, AnsiTableRowIndex>;


/// The records of type `T` stored one after another at the start of `s`: as many as
/// can be read, up to the first that cannot (too few bytes left, or bytes that hold
/// no record).
pub open spec fn heap_tree_rows<T: HeapNodeReadWrite>(s: Seq<u8>) -> Seq<T::V>
    decreases s.len(),
{
    let n = T::encoded_size();
    if n == 0 || s.len() < n {
        Seq::empty()
    } else {
        match T::decoded(s.subrange(0, n as int)) {
            Ok(v) => seq![v] + heap_tree_rows::<T>(s.subrange(n as int, s.len() as int)),
            Err(_) => Seq::empty(),
        }
    }
}

/// Reads the records of type `T`, `size` bytes each, stored one after another at the
/// start of `item`, up to the first that cannot be read.
fn read_heap_tree_rows<T: HeapNodeReadWrite>(item: &[u8], size: usize) -> (r: Vec<T>)
    requires
        size == T::encoded_size(),
        size > 0,
    ensures
        r@.map_values(|t: T| t@) == heap_tree_rows::<T>(item@),
{
    let mut rows: Vec<T> = Vec::new();
    let mut pos: usize = 0;
    let len = item.len();
    assert(item@.subrange(0, len as int) =~= item@);
    assert(rows@.map_values(|t: T| t@) + heap_tree_rows::<T>(item@) =~= heap_tree_rows::<T>(item@));
    loop
        invariant
            size == T::encoded_size(),
            size > 0,
            len == item@.len(),
            pos <= len,
            heap_tree_rows::<T>(item@) == rows@.map_values(|t: T| t@) + heap_tree_rows::<T>(item@.subrange(pos as int, len as int)),
        decreases len - pos,
    {
        let rest = &item[pos..len];
        assert(rest@ == item@.subrange(pos as int, len as int));
        match T::read(rest) {
            Ok(row) => {
                assert(rest@.len() >= size);
                let ghost prev = rows@;
                proof {
                    assert(rest@.subrange(size as int, rest@.len() as int) =~= item@.subrange(pos + size, len as int));
                }
                rows.push(row);
                assert(rows@.map_values(|t: T| t@) =~= prev.map_values(|t: T| t@).push(row@));
                assert(heap_tree_rows::<T>(rest@) == seq![row@] + heap_tree_rows::<T>(item@.subrange(pos + size, len as int)));
                assert(prev.map_values(|t: T| t@).push(row@) + heap_tree_rows::<T>(item@.subrange(pos + size, len as int))
                    =~= prev.map_values(|t: T| t@) + (seq![row@] + heap_tree_rows::<T>(item@.subrange(pos + size, len as int))));
                pos = pos + size;
            },
            Err(_) => {
                assert(heap_tree_rows::<T>(rest@) =~= Seq::<T::V>::empty());
                assert(rows@.map_values(|t: T| t@) + Seq::<T::V>::empty() =~= rows@.map_values(|t: T| t@));
                return rows;
            },
        }
    }
}

/// Reads the intermediate entries of a heap tree stored in one item, up to the first
/// that cannot be read: the heap ids they hold make up the next level.
pub fn read_heap_tree_intermediate_rows<K: HeapTreeEntryKey>(item: &[u8]) -> (r: Vec<HeapTreeIntermediateEntry<K>>)
    ensures
        r@.map_values(|t: HeapTreeIntermediateEntry<K>| t@) == heap_tree_rows::<HeapTreeIntermediateEntry<K>>(item@),
{
    let size = K::size() as usize + 4;
    read_heap_tree_rows::<HeapTreeIntermediateEntry<K>>(item, size)
}

/// Reads the leaf entries of a heap tree stored in one item, up to the first that
/// cannot be read.
pub fn read_heap_tree_leaf_rows<K: HeapTreeEntryKey, V: HeapTreeEntryValue>(item: &[u8]) -> (r: Vec<HeapTreeLeafEntry<K, V>>)
    requires
        K::encoded_size() + V::encoded_size() > 0,
    ensures
        r@.map_values(|t: HeapTreeLeafEntry<K, V>| t@) == heap_tree_rows::<HeapTreeLeafEntry<K, V>>(item@),
{
    let size = K::size() as usize + V::size() as usize;
    read_heap_tree_rows::<HeapTreeLeafEntry<K, V>>(item, size)
}

/// Checks a heap tree's header against the sizes of its keys and data: the root to
/// walk from, none for an empty tree.
pub fn check_heap_tree_header<K: HeapTreeEntryKey, V: HeapTreeEntryValue>(header: &HeapTreeHeader) -> (r: Result<Option<HeapId>, LtpError>)
    ensures
        header@.key_size != K::encoded_size() ==> r == Err::<Option<HeapId>, LtpError>(LtpError::InvalidHeapTreeKeySize(header@.key_size)),
        header@.key_size == K::encoded_size() && header@.entry_size != V::encoded_size()
            ==> r == Err::<Option<HeapId>, LtpError>(LtpError::InvalidHeapTreeDataSize(header@.entry_size)),
        header@.key_size == K::encoded_size() && header@.entry_size == V::encoded_size() ==> (r matches Ok(root) && match root {
            None => header@.root == 0,
            Some(h) => header@.root != 0 && h@ == header@.root,
        }),
{
    let key_size = header.key_size();
    let entry_size = header.entry_size();
    if key_size != K::size() {
        return Err(LtpError::InvalidHeapTreeKeySize(key_size));
    }
    if entry_size != V::size() {
        return Err(LtpError::InvalidHeapTreeDataSize(entry_size));
    }
    let root = header.root();
    if root.value() == 0 {
        Ok(None)
    } else {
        Ok(Some(root))
    }
}


/// The heap ids of the next level of a heap tree: those that the intermediate entries
/// of the items of this level hold, item after item, entry after entry.
pub open spec fn heap_tree_next_level<K: HeapTreeEntryKey>(items: Seq<Seq<u8>>) -> Seq<u32>
    decreases items.len(),
{
    if items.len() == 0 {
        Seq::empty()
    } else {
        heap_tree_next_level::<K>(items.drop_last())
            + heap_tree_rows::<HeapTreeIntermediateEntry<K>>(items.last()).map_values(|e: (K::V, u32)| e.1)
    }
}

/// The leaf entries of a heap tree: those of the items of its last level, item after
/// item.
pub open spec fn heap_tree_leaves<K: HeapTreeEntryKey, V: HeapTreeEntryValue>(items: Seq<Seq<u8>>) -> Seq<(K::V, V::V)>
    decreases items.len(),
{
    if items.len() == 0 {
        Seq::empty()
    } else {
        heap_tree_leaves::<K, V>(items.drop_last()) + heap_tree_rows::<HeapTreeLeafEntry<K, V>>(items.last())
    }
}

/// One step down a heap tree: the heap ids of the next level, read from the items of
/// this level in order.
pub fn read_heap_tree_next_level<K: HeapTreeEntryKey>(items: &[Vec<u8>]) -> (r: Vec<HeapId>)
    ensures
        r@.map_values(|h: HeapId| h@) == heap_tree_next_level::<K>(items@.map_values(|b: Vec<u8>| b@)),
{
    let ghost bs = items@.map_values(|b: Vec<u8>| b@);
    let mut ids: Vec<HeapId> = Vec::new();
    let mut k: usize = 0;
    while k < items.len()
        invariant
            k <= items@.len(),
            bs == items@.map_values(|b: Vec<u8>| b@),
            ids@.map_values(|h: HeapId| h@) == heap_tree_next_level::<K>(bs.subrange(0, k as int)),
        decreases items.len() - k,
    {
        let rows = read_heap_tree_intermediate_rows::<K>(items[k].as_slice());
        let ghost before = ids@.map_values(|h: HeapId| h@);
        let ghost found = heap_tree_rows::<HeapTreeIntermediateEntry<K>>(items@[k as int]@);
        let mut j: usize = 0;
        while j < rows.len()
            invariant
                j <= rows@.len(),
                rows@.map_values(|t: HeapTreeIntermediateEntry<K>| t@) == found,
                ids@.map_values(|h: HeapId| h@) == before + found.subrange(0, j as int).map_values(|e: (K::V, u32)| e.1),
            decreases rows.len() - j,
        {
            let ghost prev = ids@;
            let h = rows[j].next_level();
            assert(found[j as int] == rows@[j as int]@);
            ids.push(h);
            assert(found.subrange(0, j + 1).map_values(|e: (K::V, u32)| e.1)
                =~= found.subrange(0, j as int).map_values(|e: (K::V, u32)| e.1).push(found[j as int].1));
            assert(ids@.map_values(|h: HeapId| h@) =~= prev.map_values(|h: HeapId| h@).push(h@));
            j = j + 1;
        }
        assert(found.subrange(0, rows@.len() as int) =~= found);
        assert(bs.subrange(0, k + 1).drop_last() =~= bs.subrange(0, k as int));
        assert(bs.subrange(0, k + 1).last() == items@[k as int]@);
        k = k + 1;
    }
    assert(bs.subrange(0, items@.len() as int) =~= bs);
    ids
}

/// The last step down a heap tree: its leaf entries, read from the items of its last
/// level in order.
pub fn read_heap_tree_leaves<K: HeapTreeEntryKey, V: HeapTreeEntryValue>(items: &[Vec<u8>]) -> (r: Vec<HeapTreeLeafEntry<K, V>>)
    requires
        K::encoded_size() + V::encoded_size() > 0,
    ensures
        r@.map_values(|t: HeapTreeLeafEntry<K, V>| t@) == heap_tree_leaves::<K, V>(items@.map_values(|b: Vec<u8>| b@)),
{
    let ghost bs = items@.map_values(|b: Vec<u8>| b@);
    let mut all: Vec<HeapTreeLeafEntry<K, V>> = Vec::new();
    let mut k: usize = 0;
    while k < items.len()
        invariant
            K::encoded_size() + V::encoded_size() > 0,
            k <= items@.len(),
            bs == items@.map_values(|b: Vec<u8>| b@),
            all@.map_values(|t: HeapTreeLeafEntry<K, V>| t@) == heap_tree_leaves::<K, V>(bs.subrange(0, k as int)),
        decreases items.len() - k,
    {
        let mut rows = read_heap_tree_leaf_rows::<K, V>(items[k].as_slice());
        let ghost prev = all@;
        let ghost more = rows@;
        all.append(&mut rows);
        assert(all@.map_values(|t: HeapTreeLeafEntry<K, V>| t@)
            =~= prev.map_values(|t: HeapTreeLeafEntry<K, V>| t@) + more.map_values(|t: HeapTreeLeafEntry<K, V>| t@));
        assert(bs.subrange(0, k + 1).drop_last() =~= bs.subrange(0, k as int));
        assert(bs.subrange(0, k + 1).last() == items@[k as int]@);
        k = k + 1;
    }
    assert(bs.subrange(0, items@.len() as int) =~= bs);
    all
}

} // verus!
