//! Tensors of a checkpoint: element types, directory entries, the directory
//! itself, and what loading one can report.

use crate::text::{cat, same_text};
use vstd::prelude::*;
use vstd::string::*;
use vstd::utf8::{encode_utf8, encode_utf8_decode_utf8};

verus! {

/// Element type of a stored tensor.
#[derive(Clone, Copy, Debug, PartialEq, Eq, Structural)]
pub enum DType {
    F16,
    Bf16,
    F32,
    Fp8E4M3,
    U8,
    I64,
}

/// Name of an element type as it stands in messages.
pub open spec fn dtype_text(d: DType) -> Seq<char> {
    match d {
        DType::F16 => "F16"@,
        DType::Bf16 => "Bf16"@,
        DType::F32 => "F32"@,
        DType::Fp8E4M3 => "Fp8E4M3"@,
        DType::U8 => "U8"@,
        DType::I64 => "I64"@,
    }
}

/// Appends the name of an element type.
pub fn cat_dtype(s: String, d: DType) -> (r: String)
    ensures
        r@ == s@ + dtype_text(d),
{
    match d {
        DType::F16 => cat(s, "F16"),
        DType::Bf16 => cat(s, "Bf16"),
        DType::F32 => cat(s, "F32"),
        DType::Fp8E4M3 => cat(s, "Fp8E4M3"),
        DType::U8 => cat(s, "U8"),
        DType::I64 => cat(s, "I64"),
    }
}

/// One tensor of a shard: where its bytes lie and how to read them.
#[derive(Clone, Debug)]
pub struct TensorEntry {
    pub name: String,
    pub dtype: DType,
    pub shape: Vec<usize>,
    pub file_offset: u64,
    pub nbytes: u64,
}

/// What a [`TensorEntry`] stands for.
#[verifier::ext_equal]
pub struct TensorView {
    pub name: Seq<char>,
    pub dtype: DType,
    pub shape: Seq<usize>,
    pub file_offset: u64,
    pub nbytes: u64,
}

impl View for TensorEntry {
    type V = TensorView;

    open spec fn view(&self) -> TensorView {
        TensorView {
            name: self.name@,
            dtype: self.dtype,
            shape: self.shape@,
            file_offset: self.file_offset,
            nbytes: self.nbytes,
        }
    }
}

/// A copy of a list of dimensions.
pub fn copy_shape(v: &Vec<usize>) -> (r: Vec<usize>)
    ensures
        r@ == v@,
{
    let mut r: Vec<usize> = Vec::new();
    let mut i: usize = 0;
    while i < v.len()
        invariant
            i <= v@.len(),
            r@ == v@.subrange(0, i as int),
        decreases v@.len() - i,
    {
        r.push(v[i]);
        assert(r@ =~= v@.subrange(0, i + 1));
        i = i + 1;
    }
    assert(v@.subrange(0, v@.len() as int) =~= v@);
    r
}

/// Whether two lists of dimensions are the same.
pub fn same_shape(a: &[usize], b: &[usize]) -> (r: bool)
    ensures
        r == (a@ == b@),
{
    if a.len() != b.len() {
        return false;
    }
    let mut i: usize = 0;
    while i < a.len()
        invariant
            i <= a@.len(),
            a@.len() == b@.len(),
            forall|j: int| 0 <= j < i ==> a@[j] == b@[j],
        decreases a@.len() - i,
    {
        if a[i] != b[i] {
            return false;
        }
        i = i + 1;
    }
    assert(a@ =~= b@);
    true
}

impl TensorEntry {
    /// A copy of the entry.
    pub fn dup(&self) -> (r: TensorEntry)
        ensures
            r@ == self@,
    {
        TensorEntry {
            name: self.name.clone(),
            dtype: self.dtype,
            shape: copy_shape(&self.shape),
            file_offset: self.file_offset,
            nbytes: self.nbytes,
        }
    }
}

/// What loading can report.
#[derive(Clone, Debug)]
pub enum LoaderError {
    MissingTensor { name: String },
    DtypeMismatch { tensor: String, expected: DType, got: DType },
    Corrupt { detail: String },
}

/// What a [`LoaderError`] stands for.
pub enum LoaderFault {
    MissingTensor { name: Seq<char> },
    DtypeMismatch { tensor: Seq<char>, expected: DType, got: DType },
    Corrupt { detail: Seq<char> },
}

impl View for LoaderError {
    type V = LoaderFault;

    open spec fn view(&self) -> LoaderFault {
        match self {
            LoaderError::MissingTensor { name } => LoaderFault::MissingTensor { name: name@ },
            LoaderError::DtypeMismatch { tensor, expected, got } => LoaderFault::DtypeMismatch {
                tensor: tensor@,
                expected: *expected,
                got: *got,
            },
            LoaderError::Corrupt { detail } => LoaderFault::Corrupt { detail: detail@ },
        }
    }
}

/// The first of two things that can be wrong.
pub open spec fn first_fault(a: Option<LoaderFault>, b: Option<LoaderFault>) -> Option<
    LoaderFault,
> {
    if a is Some {
        a
    } else {
        b
    }
}

/// A report that a tensor is absent.
pub fn missing(name: &str) -> (r: LoaderError)
    ensures
        r@ == (LoaderFault::MissingTensor { name: name@ }),
{
    LoaderError::MissingTensor { name: String::from_str(name) }
}

/// A report that a file does not hold what it should.
pub fn corrupt(detail: String) -> (r: LoaderError)
    ensures
        r@ == (LoaderFault::Corrupt { detail: detail@ }),
{
    LoaderError::Corrupt { detail }
}

/// Lexicographic order of byte strings; a proper prefix comes first.
pub open spec fn bytes_lt(a: Seq<u8>, b: Seq<u8>) -> bool
    decreases a.len(),
{
    if b.len() == 0 {
        false
    } else if a.len() == 0 {
        true
    } else if a[0] == b[0] {
        bytes_lt(a.skip(1), b.skip(1))
    } else {
        a[0] < b[0]
    }
}

/// Order of tensor names: that of their UTF-8 bytes.
pub open spec fn name_lt(a: Seq<char>, b: Seq<char>) -> bool {
    bytes_lt(encode_utf8(a), encode_utf8(b))
}

proof fn lemma_bytes_lt_irreflexive(a: Seq<u8>)
    ensures
        !bytes_lt(a, a),
    decreases a.len(),
{
    if a.len() > 0 {
        lemma_bytes_lt_irreflexive(a.skip(1));
    }
}

proof fn lemma_bytes_lt_transitive(a: Seq<u8>, b: Seq<u8>, c: Seq<u8>)
    requires
        bytes_lt(a, b),
        bytes_lt(b, c),
    ensures
        bytes_lt(a, c),
    decreases a.len(),
{
    if a.len() > 0 && a[0] == b[0] && b[0] == c[0] {
        lemma_bytes_lt_transitive(a.skip(1), b.skip(1), c.skip(1));
    }
}

proof fn lemma_bytes_lt_total(a: Seq<u8>, b: Seq<u8>)
    ensures
        a == b || bytes_lt(a, b) || bytes_lt(b, a),
    decreases a.len(),
{
    if a.len() == 0 && b.len() == 0 {
        assert(a =~= b);
    } else if a.len() > 0 && b.len() > 0 && a[0] == b[0] {
        lemma_bytes_lt_total(a.skip(1), b.skip(1));
        if a.skip(1) == b.skip(1) {
            assert(a =~= seq![a[0]] + a.skip(1));
            assert(b =~= seq![b[0]] + b.skip(1));
        }
    }
}

/// A shared prefix does not decide the order.
proof fn lemma_bytes_lt_skip(a: Seq<u8>, b: Seq<u8>, k: int)
    requires
        0 <= k <= a.len(),
        k <= b.len(),
        forall|i: int| 0 <= i < k ==> a[i] == b[i],
    ensures
        bytes_lt(a, b) == bytes_lt(a.skip(k), b.skip(k)),
    decreases k,
{
    if k == 0 {
        assert(a.skip(0) =~= a);
        assert(b.skip(0) =~= b);
    } else {
        let (x, y) = (a.skip(1), b.skip(1));
        assert forall|i: int| 0 <= i < k - 1 implies x[i] == y[i] by {
            assert(a[i + 1] == b[i + 1]);
        }
        lemma_bytes_lt_skip(x, y, k - 1);
        assert(x.skip(k - 1) =~= a.skip(k));
        assert(y.skip(k - 1) =~= b.skip(k));
    }
}

/// No name comes before itself.
pub proof fn law_name_order_irreflexive(a: Seq<char>)
    ensures
        !name_lt(a, a),
{
    lemma_bytes_lt_irreflexive(encode_utf8(a));
}

/// The order of names is transitive.
pub proof fn law_name_order_transitive(a: Seq<char>, b: Seq<char>, c: Seq<char>)
    requires
        name_lt(a, b),
        name_lt(b, c),
    ensures
        name_lt(a, c),
{
    lemma_bytes_lt_transitive(encode_utf8(a), encode_utf8(b), encode_utf8(c));
}

/// Of two different names one comes before the other.
pub proof fn law_name_order_total(a: Seq<char>, b: Seq<char>)
    ensures
        a == b || name_lt(a, b) || name_lt(b, a),
{
    lemma_bytes_lt_total(encode_utf8(a), encode_utf8(b));
    encode_utf8_decode_utf8(a);
    encode_utf8_decode_utf8(b);
}

/// Whether one name comes before another.
pub fn name_before(a: &str, b: &str) -> (r: bool)
    ensures
        r == name_lt(a@, b@),
{
    let x = a.as_bytes();
    let y = b.as_bytes();
    let mut i: usize = 0;
    while i < x.len() && i < y.len() && x[i] == y[i]
        invariant
            i <= x@.len(),
            i <= y@.len(),
            forall|j: int| 0 <= j < i ==> x@[j] == y@[j],
        decreases x@.len() - i,
    {
        i = i + 1;
    }
    proof {
        lemma_bytes_lt_skip(x@, y@, i as int);
    }
    if i == y.len() {
        false
    } else if i == x.len() {
        true
    } else {
        x[i] < y[i]
    }
}

struct NamedTensor {
    key: String,
    entry: TensorEntry,
}

/// Directory of tensors by name. At most one tensor has a given name; a
/// walk visits them in the order of their names.
pub struct TensorMap {
    items: Vec<NamedTensor>,
}

spec fn items_sorted(items: Seq<NamedTensor>) -> bool {
    forall|i: int, j: int|
        0 <= i < j < items.len() ==> name_lt(#[trigger] items[i].key@, #[trigger] items[j].key@)
}

spec fn items_map(items: Seq<NamedTensor>) -> Map<Seq<char>, TensorView> {
    Map::new(
        |k: Seq<char>| exists|i: int| 0 <= i < items.len() && #[trigger] items[i].key@ == k,
        |k: Seq<char>|
            items[choose|i: int| 0 <= i < items.len() && #[trigger] items[i].key@ == k].entry@,
    )
}

/// In a sorted list each name stands once, so the list can be read off by
/// name.
proof fn lemma_items_at(items: Seq<NamedTensor>, i: int)
    requires
        items_sorted(items),
        0 <= i < items.len(),
    ensures
        items_map(items).contains_key(items[i].key@),
        items_map(items)[items[i].key@] == items[i].entry@,
{
    let k = items[i].key@;
    let j = choose|j: int| 0 <= j < items.len() && #[trigger] items[j].key@ == k;
    law_name_order_irreflexive(k);
    assert(i == j) by {
        if i < j {
            assert(name_lt(items[i].key@, items[j].key@));
        } else if j < i {
            assert(name_lt(items[j].key@, items[i].key@));
        }
    }
}

/// A name that no item before `pos` equals, that comes before every item
/// after `pos` and differs from the one there, is absent.
proof fn lemma_items_absent(items: Seq<NamedTensor>, pos: int, name: Seq<char>)
    requires
        items_sorted(items),
        0 <= pos <= items.len(),
        forall|i: int| 0 <= i < pos ==> name_lt(#[trigger] items[i].key@, name),
        pos < items.len() ==> !name_lt(items[pos].key@, name) && items[pos].key@ != name,
    ensures
        forall|i: int| 0 <= i < items.len() ==> #[trigger] items[i].key@ != name,
        forall|i: int| pos <= i < items.len() ==> name_lt(name, #[trigger] items[i].key@),
        !items_map(items).contains_key(name),
{
    law_name_order_irreflexive(name);
    assert forall|i: int| pos <= i < items.len() implies name_lt(
        name,
        #[trigger] items[i].key@,
    ) by {
        law_name_order_total(name, items[pos].key@);
        if i > pos {
            assert(name_lt(items[pos].key@, items[i].key@));
            law_name_order_transitive(name, items[pos].key@, items[i].key@);
        }
    }
    assert forall|i: int| 0 <= i < items.len() implies #[trigger] items[i].key@ != name by {
        if i >= pos {
            assert(name_lt(name, items[i].key@));
        }
    }
}

proof fn lemma_items_update(items: Seq<NamedTensor>, pos: int, item: NamedTensor)
    requires
        items_sorted(items),
        0 <= pos < items.len(),
        items[pos].key@ == item.key@,
    ensures
        items_sorted(items.update(pos, item)),
        items_map(items.update(pos, item)) == items_map(items).insert(item.key@, item.entry@),
{
    let after = items.update(pos, item);
    assert forall|i: int, j: int| 0 <= i < j < after.len() implies name_lt(
        #[trigger] after[i].key@,
        #[trigger] after[j].key@,
    ) by {
        assert(name_lt(items[i].key@, items[j].key@));
    }
    law_name_order_irreflexive(item.key@);
    assert forall|x: NamedTensor| #[trigger]
        after.contains(x) == (x == item || (items.contains(x) && x.key@ != item.key@)) by {
        if after.contains(x) && x != item {
            let i = choose|i: int| 0 <= i < after.len() && after[i] == x;
            assert(items[i] == x);
            if i < pos {
                assert(name_lt(items[i].key@, items[pos].key@));
            } else {
                assert(name_lt(items[pos].key@, items[i].key@));
            }
        }
        if items.contains(x) && x.key@ != item.key@ {
            let i = choose|i: int| 0 <= i < items.len() && items[i] == x;
            assert(after[i] == x);
        }
        assert(after[pos] == item);
    }
    lemma_maps_agree(items, after, item);
}

/// A sorted list that holds an item and otherwise the items of another list
/// under other names stands for the other directory with that item put in.
proof fn lemma_maps_agree(items: Seq<NamedTensor>, after: Seq<NamedTensor>, item: NamedTensor)
    requires
        items_sorted(items),
        items_sorted(after),
        forall|x: NamedTensor| #[trigger]
            after.contains(x) == (x == item || (items.contains(x) && x.key@ != item.key@)),
    ensures
        items_map(after) == items_map(items).insert(item.key@, item.entry@),
{
    let m = items_map(items).insert(item.key@, item.entry@);
    assert(after.contains(item));
    let w = choose|i: int| 0 <= i < after.len() && after[i] == item;
    lemma_items_at(after, w);
    assert forall|k: Seq<char>| #[trigger] items_map(after).contains_key(k) implies
        m.contains_key(k) && items_map(after)[k] == m[k] by {
        if k != item.key@ {
            let i = choose|i: int| 0 <= i < after.len() && #[trigger] after[i].key@ == k;
            assert(after.contains(after[i]));
            let j = choose|j: int| 0 <= j < items.len() && items[j] == after[i];
            lemma_items_at(after, i);
            lemma_items_at(items, j);
        }
    }
    assert forall|k: Seq<char>| #[trigger] m.contains_key(k) implies items_map(
        after,
    ).contains_key(k) by {
        if k != item.key@ {
            let j = choose|j: int| 0 <= j < items.len() && #[trigger] items[j].key@ == k;
            assert(items.contains(items[j]));
            assert(after.contains(items[j]));
            let i = choose|i: int| 0 <= i < after.len() && after[i] == items[j];
            lemma_items_at(after, i);
        }
    }
    assert(items_map(after) =~= m);
}

proof fn lemma_items_insert(items: Seq<NamedTensor>, pos: int, item: NamedTensor)
    requires
        items_sorted(items),
        0 <= pos <= items.len(),
        forall|i: int| 0 <= i < pos ==> name_lt(#[trigger] items[i].key@, item.key@),
        forall|i: int| pos <= i < items.len() ==> name_lt(item.key@, #[trigger] items[i].key@),
    ensures
        items_sorted(items.insert(pos, item)),
        items_map(items.insert(pos, item)) == items_map(items).insert(item.key@, item.entry@),
{
    let after = items.insert(pos, item);
    assert forall|i: int, j: int| 0 <= i < j < after.len() implies name_lt(
        #[trigger] after[i].key@,
        #[trigger] after[j].key@,
    ) by {
        let a = if i < pos {
            i
        } else {
            i - 1
        };
        let b = if j < pos {
            j
        } else {
            j - 1
        };
        if i != pos && j != pos {
            assert(name_lt(items[a].key@, items[b].key@));
        }
    }
    law_name_order_irreflexive(item.key@);
    assert forall|x: NamedTensor| #[trigger]
        after.contains(x) == (x == item || (items.contains(x) && x.key@ != item.key@)) by {
        if after.contains(x) && x != item {
            let i = choose|i: int| 0 <= i < after.len() && after[i] == x;
            if i < pos {
                assert(items[i] == x);
                assert(name_lt(items[i].key@, item.key@));
            } else {
                assert(items[i - 1] == x);
                assert(name_lt(item.key@, items[i - 1].key@));
            }
        }
        if items.contains(x) {
            let i = choose|i: int| 0 <= i < items.len() && items[i] == x;
            if i < pos {
                assert(after[i] == x);
            } else {
                assert(after[i + 1] == x);
            }
        }
        assert(after[pos] == item);
    }
    lemma_maps_agree(items, after, item);
}

proof fn lemma_items_remove(items: Seq<NamedTensor>, pos: int)
    requires
        items_sorted(items),
        0 <= pos < items.len(),
    ensures
        items_sorted(items.remove(pos)),
        items_map(items.remove(pos)) == items_map(items).remove(items[pos].key@),
{
    let after = items.remove(pos);
    let item = items[pos];
    assert forall|i: int, j: int| 0 <= i < j < after.len() implies name_lt(
        #[trigger] after[i].key@,
        #[trigger] after[j].key@,
    ) by {
        let a = if i < pos {
            i
        } else {
            i + 1
        };
        let b = if j < pos {
            j
        } else {
            j + 1
        };
        assert(name_lt(items[a].key@, items[b].key@));
    }
    assert(after.insert(pos, item) =~= items);
    assert forall|i: int| 0 <= i < after.len() implies #[trigger] after[i].key@ != item.key@ by {
        law_name_order_irreflexive(item.key@);
        if i < pos {
            assert(name_lt(items[i].key@, items[pos].key@));
        } else {
            assert(name_lt(items[pos].key@, items[i + 1].key@));
        }
    }
    assert forall|i: int| 0 <= i < pos implies name_lt(#[trigger] after[i].key@, item.key@) by {
        assert(name_lt(items[i].key@, items[pos].key@));
    }
    assert forall|i: int| pos <= i < after.len() implies name_lt(
        item.key@,
        #[trigger] after[i].key@,
    ) by {
        assert(name_lt(items[pos].key@, items[i + 1].key@));
    }
    lemma_items_insert(after, pos, item);
    assert(!items_map(after).contains_key(item.key@));
    assert(items_map(items).remove(item.key@) =~= items_map(after));
}

impl View for TensorMap {
    type V = Map<Seq<char>, TensorView>;

    closed spec fn view(&self) -> Map<Seq<char>, TensorView> {
        items_map(self.items@)
    }
}

impl TensorMap {
    /// The names stand in strict order.
    pub closed spec fn wf(&self) -> bool {
        items_sorted(self.items@)
    }

    /// The names, in order.
    pub closed spec fn keys(&self) -> Seq<Seq<char>> {
        Seq::new(self.items@.len(), |i: int| self.items@[i].key@)
    }

    /// The entries, in the order of their names.
    pub closed spec fn values(&self) -> Seq<TensorView> {
        Seq::new(self.items@.len(), |i: int| self.items@[i].entry@)
    }

    /// An empty directory.
    pub fn new() -> (r: TensorMap)
        ensures
            r.wf(),
            r@ == Map::<Seq<char>, TensorView>::empty(),
    {
        let r = TensorMap { items: Vec::new() };
        assert(r@ =~= Map::<Seq<char>, TensorView>::empty());
        r
    }

    /// Number of tensors.
    pub fn len(&self) -> (r: usize)
        ensures
            r == self.keys().len(),
            r == self.values().len(),
    {
        self.items.len()
    }

    /// The name at a place in the order.
    pub fn key_at(&self, i: usize) -> (r: &String)
        requires
            i < self.keys().len(),
        ensures
            r@ == self.keys()[i as int],
    {
        &self.items[i].key
    }

    /// The entry at a place in the order.
    pub fn value_at(&self, i: usize) -> (r: &TensorEntry)
        requires
            i < self.keys().len(),
        ensures
            r@ == self.values()[i as int],
    {
        &self.items[i].entry
    }

    /// The entry of a name.
    pub fn get(&self, name: &str) -> (r: Option<&TensorEntry>)
        requires
            self.wf(),
        ensures
            match r {
                Some(e) => self@.contains_key(name@) && self@[name@] == e@,
                None => !self@.contains_key(name@),
            },
    {
        let pos: usize = self.position(name);
        if pos < self.items.len() && same_text(self.items[pos].key.as_str(), name) {
            proof {
                lemma_items_at(self.items@, pos as int);
            }
            Some(&self.items[pos].entry)
        } else {
            proof {
                lemma_items_absent(self.items@, pos as int, name@);
            }
            None
        }
    }

    /// Number of names before `name`.
    fn position(&self, name: &str) -> (r: usize)
        requires
            self.wf(),
        ensures
            r <= self.items@.len(),
            forall|i: int| 0 <= i < r ==> name_lt(#[trigger] self.items@[i].key@, name@),
            forall|i: int|
                r <= i < self.items@.len() ==> !name_lt(#[trigger] self.items@[i].key@, name@),
    {
        let mut lo: usize = 0;
        let mut hi: usize = self.items.len();
        while lo < hi
            invariant
                lo <= hi <= self.items@.len(),
                items_sorted(self.items@),
                forall|i: int| 0 <= i < lo ==> name_lt(#[trigger] self.items@[i].key@, name@),
                forall|i: int|
                    hi <= i < self.items@.len() ==> !name_lt(#[trigger] self.items@[i].key@, name@),
            decreases hi - lo,
        {
            let mid: usize = lo + (hi - lo) / 2;
            let ghost k = self.items@[mid as int].key@;
            if name_before(self.items[mid].key.as_str(), name) {
                assert forall|i: int| 0 <= i < mid + 1 implies name_lt(
                    #[trigger] self.items@[i].key@,
                    name@,
                ) by {
                    if i < mid {
                        law_name_order_transitive(self.items@[i].key@, k, name@);
                    }
                }
                lo = mid + 1;
            } else {
                assert forall|i: int| mid <= i < self.items@.len() implies !name_lt(
                    #[trigger] self.items@[i].key@,
                    name@,
                ) by {
                    if i > mid && name_lt(self.items@[i].key@, name@) {
                        law_name_order_transitive(k, self.items@[i].key@, name@);
                    }
                }
                hi = mid;
            }
        }
        lo
    }

    /// Puts an entry under a name, in place of the one that was there.
    pub fn insert(&mut self, key: String, entry: TensorEntry)
        requires
            old(self).wf(),
        ensures
            final(self).wf(),
            final(self)@ == old(self)@.insert(key@, entry@),
    {
        let pos: usize = self.position(key.as_str());
        let ghost before = self.items@;
        let item = NamedTensor { key, entry };
        if pos < self.items.len() && same_text(self.items[pos].key.as_str(), item.key.as_str()) {
            proof {
                lemma_items_update(before, pos as int, item);
            }
            self.items.set(pos, item);
        } else {
            proof {
                lemma_items_absent(before, pos as int, item.key@);
                lemma_items_insert(before, pos as int, item);
            }
            self.items.insert(pos, item);
        }
    }

    /// Takes out the entry of a name, if there is one.
    pub fn remove(&mut self, name: &str)
        requires
            old(self).wf(),
        ensures
            final(self).wf(),
            final(self)@ == old(self)@.remove(name@),
    {
        let pos: usize = self.position(name);
        if pos < self.items.len() && same_text(self.items[pos].key.as_str(), name) {
            proof {
                lemma_items_remove(self.items@, pos as int);
            }
            self.items.remove(pos);
        } else {
            proof {
                lemma_items_absent(self.items@, pos as int, name@);
                assert(self@.remove(name@) =~= self@);
            }
        }
    }

    /// A walk meets every name once, in strict order, beside its entry.
    pub proof fn law_walk(&self)
        requires
            self.wf(),
        ensures
            self.keys().len() == self.values().len(),
            forall|i: int, j: int|
                0 <= i < j < self.keys().len() ==> name_lt(
                    #[trigger] self.keys()[i],
                    #[trigger] self.keys()[j],
                ),
            forall|i: int|
                0 <= i < self.keys().len() ==> self@.contains_key(#[trigger] self.keys()[i])
                    && self@[self.keys()[i]] == self.values()[i],
            forall|k: Seq<char>| #[trigger]
                self@.contains_key(k) ==> exists|i: int|
                    0 <= i < self.keys().len() && #[trigger] self.keys()[i] == k,
    {
        assert forall|i: int| 0 <= i < self.keys().len() implies self@.contains_key(
            #[trigger] self.keys()[i],
        ) && self@[self.keys()[i]] == self.values()[i] by {
            lemma_items_at(self.items@, i);
        }
        assert forall|k: Seq<char>| #[trigger] self@.contains_key(k) implies exists|i: int|
            0 <= i < self.keys().len() && #[trigger] self.keys()[i] == k by {
            let i = choose|i: int|
                0 <= i < self.items@.len() && #[trigger] self.items@[i].key@ == k;
            assert(self.keys()[i] == k);
        }
    }
}

} // verus!
