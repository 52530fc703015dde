//! The shards of a checkpoint: their bytes and their directories.

use crate::tensor::{missing, LoaderError, LoaderFault, TensorEntry, TensorMap, TensorView};
use vstd::prelude::*;
use vstd::slice::slice_subrange;

verus! {

/// Number of elements of a shape.
pub open spec fn elems(shape: Seq<usize>) -> nat
    decreases shape.len(),
{
    if shape.len() == 0 {
        1
    } else {
        elems(shape.drop_last()) * shape.last() as nat
    }
}

/// Whether the elements of a shape, and of each of its beginnings, can be
/// counted in bytes.
pub open spec fn countable(shape: Seq<usize>) -> bool {
    forall|n: int| 0 <= n <= shape.len() ==> 4 * #[trigger] elems(shape.take(n)) <= usize::MAX
}

/// Number of elements of a shape.
pub fn count_elems(shape: &Vec<usize>) -> (r: usize)
    requires
        countable(shape@),
    ensures
        r == elems(shape@),
        4 * r <= usize::MAX,
{
    let mut r: usize = 1;
    let mut i: usize = 0;
    assert(shape@.take(0) =~= Seq::<usize>::empty());
    while i < shape.len()
        invariant
            countable(shape@),
            i <= shape@.len(),
            r == elems(shape@.take(i as int)),
        decreases shape@.len() - i,
    {
        let ghost next = shape@.take(i + 1);
        assert(next.drop_last() =~= shape@.take(i as int));
        assert(4 * elems(next) <= usize::MAX);
        r = r * shape[i];
        i = i + 1;
    }
    assert(shape@.take(shape@.len() as int) =~= shape@);
    r
}

/// The shards of a checkpoint: their bytes and their directories.
pub struct ShardPool<'a> {
    pub mmaps: Vec<&'a [u8]>,
    pub shards: Vec<TensorMap>,
}

/// The shard and the entry of a name among the first `n` shards; a later shard
/// takes the place of an earlier one.
pub open spec fn found_in(shards: Seq<TensorMap>, n: nat, name: Seq<char>) -> Option<
    (int, TensorView),
>
    decreases n,
{
    if n == 0 {
        None
    } else if shards[n - 1]@.contains_key(name) {
        Some((n - 1, shards[n - 1]@[name]))
    } else {
        found_in(shards, (n - 1) as nat, name)
    }
}

/// The directory of the first `n` shards together.
pub open spec fn merged_view(shards: Seq<TensorMap>, n: nat) -> Map<Seq<char>, TensorView>
    decreases n,
{
    if n == 0 {
        Map::empty()
    } else {
        merged_view(shards, (n - 1) as nat).union_prefer_right(shards[n - 1]@)
    }
}

/// The merged directory has exactly the names that are found, each with the
/// entry that is found.
pub proof fn law_merged_is_found(shards: Seq<TensorMap>, n: nat, name: Seq<char>)
    ensures
        merged_view(shards, n).contains_key(name) <==> found_in(shards, n, name) is Some,
        found_in(shards, n, name) matches Some((i, e)) ==> {
            &&& merged_view(shards, n)[name] == e
            &&& 0 <= i < n
            &&& shards[i]@.contains_key(name)
            &&& shards[i]@[name] == e
        },
    decreases n,
{
    if n > 0 {
        law_merged_is_found(shards, (n - 1) as nat, name);
    }
}

/// The tensor of an entry lies in the bytes, and its elements can be counted.
pub open spec fn entry_ok(bytes: Seq<u8>, e: TensorView) -> bool {
    &&& e.file_offset + e.nbytes <= bytes.len()
    &&& countable(e.shape)
}

impl<'a> ShardPool<'a> {
    /// Every shard has bytes and a directory in order, whose tensors lie in
    /// those bytes.
    pub open spec fn wf(&self) -> bool {
        &&& self.mmaps@.len() == self.shards@.len()
        &&& forall|i: int| 0 <= i < self.shards@.len() ==> (#[trigger] self.shards@[i]).wf()
        &&& forall|i: int, name: Seq<char>|
            0 <= i < self.shards@.len() && #[trigger] self.shards@[i]@.contains_key(name)
                ==> entry_ok(self.mmaps@[i]@, self.shards@[i]@[name])
    }

    /// The shard and the entry of a name.
    pub open spec fn found(&self, name: Seq<char>) -> Option<(int, TensorView)> {
        found_in(self.shards@, self.shards@.len(), name)
    }

    /// A pool over shards that were opened.
    pub fn open(mmaps: Vec<&'a [u8]>, shards: Vec<TensorMap>) -> (r: ShardPool<'a>)
        ensures
            r.mmaps@ == mmaps@,
            r.shards@ == shards@,
    {
        ShardPool { mmaps, shards }
    }

    /// The shard and the entry of a name, if there is one.
    pub fn lookup(&self, name: &str) -> (r: Option<(usize, &TensorEntry)>)
        requires
            self.wf(),
        ensures
            match r {
                Some((si, e)) => {
                    &&& self.found(name@) == Some((si as int, e@))
                    &&& si < self.shards@.len()
                    &&& si < self.mmaps@.len()
                    &&& entry_ok(self.mmaps@[si as int]@, e@)
                },
                None => self.found(name@) is None,
            },
    {
        let mut n: usize = self.shards.len();
        while n > 0
            invariant
                self.wf(),
                n <= self.shards@.len(),
                self.found(name@) == found_in(self.shards@, n as nat, name@),
            decreases n,
        {
            n = n - 1;
            assert(self.shards@[n as int].wf());
            if let Some(e) = self.shards[n].get(name) {
                assert(self.shards@[n as int]@.contains_key(name@));
                return Some((n, e));
            }
        }
        None
    }

    /// The shard and the entry of a name; refused where there is none.
    pub fn must_get(&self, name: &str) -> (r: Result<(usize, &TensorEntry), LoaderError>)
        requires
            self.wf(),
        ensures
            match r {
                Ok((si, e)) => {
                    &&& self.found(name@) == Some((si as int, e@))
                    &&& si < self.shards@.len()
                    &&& si < self.mmaps@.len()
                    &&& entry_ok(self.mmaps@[si as int]@, e@)
                },
                Err(e) => self.found(name@) is None && e@ == (LoaderFault::MissingTensor {
                    name: name@,
                }),
            },
    {
        match self.lookup(name) {
            Some(x) => Ok(x),
            None => Err(missing(name)),
        }
    }

    /// The bytes of a tensor.
    pub fn bytes_of(&self, si: usize, e: &TensorEntry) -> (r: &'a [u8])
        requires
            si < self.mmaps@.len(),
            e.file_offset + e.nbytes <= self.mmaps@[si as int]@.len(),
        ensures
            r@ == self.mmaps@[si as int]@.subrange(
                e.file_offset as int,
                e.file_offset + e.nbytes,
            ),
    {
        let mm: &'a [u8] = self.mmaps[si];
        let len: usize = mm.len();
        assert(e.file_offset + e.nbytes <= len);
        let start: usize = e.file_offset as usize;
        slice_subrange(mm, start, start + e.nbytes as usize)
    }

    /// The directory of all shards together.
    pub fn merged(&self) -> (r: TensorMap)
        requires
            self.wf(),
        ensures
            r.wf(),
            r@ == merged_view(self.shards@, self.shards@.len()),
    {
        let mut r = TensorMap::new();
        let n: usize = self.shards.len();
        let mut s: usize = 0;
        while s < n
            invariant
                self.wf(),
                n == self.shards@.len(),
                s <= n,
                r.wf(),
                r@ == merged_view(self.shards@, s as nat),
            decreases n - s,
        {
            assert(self.shards@[s as int].wf());
            let shard = &self.shards[s];
            let ghost base = r@;
            proof {
                shard.law_walk();
            }
            let m: usize = shard.len();
            let mut i: usize = 0;
            while i < m
                invariant
                    shard.wf(),
                    m == shard.keys().len(),
                    m == shard.values().len(),
                    i <= m,
                    r.wf(),
                    forall|j: int|
                        0 <= j < m ==> shard@.contains_key(#[trigger] shard.keys()[j])
                            && shard@[shard.keys()[j]] == shard.values()[j],
                    forall|k: Seq<char>| #[trigger]
                        r@.contains_key(k) <==> base.contains_key(k) || shard.keys().take(
                            i as int,
                        ).contains(k),
                    forall|k: Seq<char>| #[trigger]
                        r@.contains_key(k) ==> r@[k] == if shard.keys().take(i as int).contains(k) {
                            shard@[k]
                        } else {
                            base[k]
                        },
                decreases m - i,
            {
                let ghost before = shard.keys().take(i as int);
                let ghost after = shard.keys().take(i + 1);
                let ghost key = shard.keys()[i as int];
                assert(after =~= before.push(key));
                assert forall|k: Seq<char>| after.contains(k) <==> before.contains(k) || k
                    == key by {
                    if before.contains(k) {
                        let j = choose|j: int| 0 <= j < before.len() && before[j] == k;
                        assert(after[j] == k);
                    }
                    if k == key {
                        assert(after[i as int] == k);
                    }
                }
                r.insert(shard.key_at(i).clone(), shard.value_at(i).dup());
                i = i + 1;
            }
            assert(shard.keys().take(m as int) =~= shard.keys());
            assert forall|k: Seq<char>| shard.keys().contains(k) <==> shard@.contains_key(k) by {
                if shard@.contains_key(k) {
                    let j = choose|j: int|
                        0 <= j < shard.keys().len() && #[trigger] shard.keys()[j] == k;
                    assert(shard.keys()[j] == k);
                }
            }
            assert(r@ =~= base.union_prefer_right(shard@));
            s = s + 1;
        }
        r
    }
}

} // verus!
