//! Chunks of grass: the level of detail a chunk is drawn with, how chunks
//! are culled, how a mesh's index list splits into triangles, and how the
//! generated blades are grouped by the chunk they fall in.
use vstd::prelude::*;

verus! {

/// Level of detail with which a chunk of grass is drawn.
#[derive(Clone, Copy, PartialEq, Eq, Structural, Debug)]
pub enum GrassLOD {
    High,
    Low,
}

/// Whether chunks are culled by their horizontal position only (`D2`) or
/// in all three dimensions (`D3`).
#[derive(Clone, Copy, PartialEq, Eq, Structural, Debug)]
pub enum CullDimension {
    D2,
    D3,
}

impl Default for CullDimension {
    fn default() -> (d: Self)
        ensures
            d == CullDimension::D2,
    {
        CullDimension::D2
    }
}

/// Integer coordinates of a chunk: a point's coordinates divided by the
/// chunk size and rounded down, per axis.
pub type ChunkCoord = (i32, i32, i32);

/// The `t`-th triangle of an index list: the indices at `3t`, `3t + 1` and
/// `3t + 2`.
pub open spec fn triangle_at(indices: Seq<usize>, t: int) -> (usize, usize, usize) {
    (indices[3 * t], indices[3 * t + 1], indices[3 * t + 2])
}

/// A triangle keeps its three indices in the order of the index list, so
/// its winding, and the normal computed from it, is that of the mesh.
pub proof fn lemma_triangle_keeps_winding(indices: Seq<usize>, t: int)
    requires
        0 <= t,
        3 * t + 2 < indices.len(),
    ensures
        triangle_at(indices, t).0 == indices[3 * t],
        triangle_at(indices, t).1 == indices[3 * t + 1],
        triangle_at(indices, t).2 == indices[3 * t + 2],
{
}

/// Splits a triangle-list index buffer into its triangles, three indices
/// each, in order. Indices left over after the last complete triangle are
/// ignored.
pub fn mesh_triangles(indices: &Vec<usize>) -> (tris: Vec<(usize, usize, usize)>)
    ensures
        tris.len() == indices.len() / 3,
        forall|t: int| 0 <= t < tris.len() ==> #[trigger] tris[t] == triangle_at(indices@, t),
        forall|t: int|
            0 <= t < tris.len() ==> (#[trigger] tris[t]).0 == indices[3 * t] && tris[t].1 == indices[3
                * t + 1] && tris[t].2 == indices[3 * t + 2],
{
    let mut tris: Vec<(usize, usize, usize)> = Vec::new();
    let mut triangle: Vec<usize> = Vec::new();
    for i in 0..indices.len()
        invariant
            3 * tris.len() + triangle.len() == i,
            triangle.len() < 3,
            i <= indices.len(),
            forall|j: int| 0 <= j < triangle.len() ==> #[trigger] triangle[j] == indices[3 * tris.len() + j],
            forall|t: int| 0 <= t < tris.len() ==> #[trigger] tris[t] == triangle_at(indices@, t),
    {
        triangle.push(indices[i]);
        if triangle.len() == 3 {
            let tri = (triangle[0], triangle[1], triangle[2]);
            tris.push(tri);
            triangle.clear();
        }
    }
    tris
}

/// Grass instances grouped by chunk, as the generator fills them in: the
/// instances are visited in order, and instance `i` is appended to the
/// bucket of `coords[i]`, which is created empty on first use.
pub open spec fn chunk_buckets(coords: Seq<ChunkCoord>) -> Map<ChunkCoord, Seq<usize>>
    decreases coords.len(),
{
    if coords.len() == 0 {
        Map::empty()
    } else {
        let prev = chunk_buckets(coords.drop_last());
        let c = coords.last();
        let bucket = if prev.contains_key(c) {
            prev[c]
        } else {
            Seq::empty()
        };
        prev.insert(c, bucket.push((coords.len() - 1) as usize))
    }
}

/// The bucket of `key` in `m`, or the empty sequence where `m` has none.
pub open spec fn bucket_or_empty(m: Map<ChunkCoord, Seq<usize>>, key: ChunkCoord) -> Seq<usize> {
    if m.contains_key(key) {
        m[key]
    } else {
        Seq::empty()
    }
}

/// Grouping instances by chunk partitions them: the chunks are exactly the
/// coordinates that occur, each instance lies in the bucket of its own
/// coordinates, every bucket holds only instances of its coordinates, and
/// each bucket lists its instances once each, in increasing order.
pub proof fn lemma_chunk_buckets_partition(coords: Seq<ChunkCoord>)
    requires
        coords.len() <= usize::MAX,
    ensures
        forall|k: ChunkCoord| #[trigger]
            chunk_buckets(coords).contains_key(k) <==> coords.contains(k),
        forall|i: int|
            0 <= i < coords.len() ==> #[trigger] chunk_buckets(coords)[coords[i]].contains(
                i as usize,
            ),
        forall|k: ChunkCoord, j: int|
            chunk_buckets(coords).contains_key(k) && 0 <= j < chunk_buckets(coords)[k].len()
                ==> {
                let b = #[trigger] chunk_buckets(coords)[k][j];
                b < coords.len() && coords[b as int] == k
            },
        forall|k: ChunkCoord, j1: int, j2: int|
            chunk_buckets(coords).contains_key(k) && 0 <= j1 < j2 < chunk_buckets(coords)[k].len()
                ==> #[trigger] chunk_buckets(coords)[k][j1] < #[trigger] chunk_buckets(
                coords,
            )[k][j2],
    decreases coords.len(),
{
    if coords.len() > 0 {
        let prev = coords.drop_last();
        lemma_chunk_buckets_partition(prev);
        let n = coords.len() - 1;
        let c = coords.last();
        let pm = chunk_buckets(prev);
        let m = chunk_buckets(coords);
        assert(m == pm.insert(c, bucket_or_empty(pm, c).push(n as usize)));
        assert forall|k: ChunkCoord| #[trigger] m.contains_key(k) <==> coords.contains(k) by {
            if coords.contains(k) && k != c {
                let i = choose|i: int| 0 <= i < coords.len() && coords[i] == k;
                assert(prev[i] == k);
            }
            if prev.contains(k) {
                let i = choose|i: int| 0 <= i < prev.len() && prev[i] == k;
                assert(coords[i] == k);
            }
            if k == c {
                assert(coords[n] == c);
            }
        }
        assert forall|i: int| 0 <= i < coords.len() implies #[trigger] m[coords[i]].contains(
            i as usize,
        ) by {
            if i < n {
                assert(prev[i] == coords[i]);
                assert(pm[prev[i]].contains(i as usize));
                let j = choose|j: int| 0 <= j < pm[prev[i]].len() && pm[prev[i]][j] == i as usize;
                if coords[i] == c {
                    assert(m[c][j] == i as usize);
                } else {
                    assert(m[coords[i]] == pm[coords[i]]);
                }
            } else {
                let b = bucket_or_empty(pm, c);
                assert(m[c][b.len() as int] == n as usize);
            }
        }
        assert forall|k: ChunkCoord, j: int|
            m.contains_key(k) && 0 <= j < m[k].len() implies {
            let b = #[trigger] m[k][j];
            b < coords.len() && coords[b as int] == k
        } by {
            if k == c {
                let b = bucket_or_empty(pm, c);
                if j < b.len() {
                    assert(pm.contains_key(c));
                    assert(m[k][j] == pm[c][j]);
                    assert(prev[pm[c][j] as int] == c);
                }
            } else {
                assert(m[k] == pm[k]);
                assert(prev[pm[k][j] as int] == k);
            }
        }
        assert forall|k: ChunkCoord, j1: int, j2: int|
            m.contains_key(k) && 0 <= j1 < j2 < m[k].len() implies #[trigger] m[k][j1]
            < #[trigger] m[k][j2] by {
            if k == c {
                let b = bucket_or_empty(pm, c);
                if j2 < b.len() {
                    assert(pm[c][j1] < pm[c][j2]);
                } else {
                    assert(pm.contains_key(c) ==> pm[c][j1] < coords.len() - 1);
                }
            } else {
                assert(m[k] == pm[k]);
                assert(pm[k][j1] < pm[k][j2]);
            }
        }
    }
}

/// Grass instances grouped by the chunk they fall in. Each chunk that has
/// been given an instance holds the instances it was given, in the order it
/// was given them.
pub struct ChunkBuckets {
    keys: Vec<ChunkCoord>,
    members: Vec<Vec<usize>>,
    model: Ghost<Map<ChunkCoord, Seq<usize>>>,
}

impl View for ChunkBuckets {
    type V = Map<ChunkCoord, Seq<usize>>;

    closed spec fn view(&self) -> Map<ChunkCoord, Seq<usize>> {
        self.model@
    }
}

impl ChunkBuckets {
    /// The chunks are stored once each, side by side with their buckets,
    /// and agree with the map that the view gives.
    pub closed spec fn wf(&self) -> bool {
        &&& self.keys.len() == self.members.len()
        &&& forall|i: int, j: int|
            0 <= i < j < self.keys.len() ==> #[trigger] self.keys[i] != #[trigger] self.keys[j]
        &&& forall|i: int|
            0 <= i < self.keys.len() ==> #[trigger] self.model@.contains_key(self.keys[i])
                && self.model@[self.keys[i]] == self.members[i]@
        &&& forall|k: ChunkCoord| #[trigger]
            self.model@.contains_key(k) ==> exists|i: int|
                0 <= i < self.keys.len() && self.keys[i] == k
    }

    /// No chunks.
    pub fn new() -> (b: Self)
        ensures
            b.wf(),
            b@ == Map::<ChunkCoord, Seq<usize>>::empty(),
    {
        ChunkBuckets { keys: Vec::new(), members: Vec::new(), model: Ghost(Map::empty()) }
    }

    /// The position of `key` among the stored chunks, if it is stored.
    fn find(&self, key: ChunkCoord) -> (r: Option<usize>)
        requires
            self.wf(),
        ensures
            match r {
                Some(i) => i < self.keys.len() && self.keys[i as int] == key,
                None => !self@.contains_key(key),
            },
    {
        let mut i: usize = 0;
        while i < self.keys.len()
            invariant
                self.wf(),
                i <= self.keys.len(),
                forall|j: int| 0 <= j < i ==> self.keys[j] != key,
            decreases self.keys.len() - i,
        {
            let k = self.keys[i];
            if k.0 == key.0 && k.1 == key.1 && k.2 == key.2 {
                return Some(i);
            }
            i = i + 1;
        }
        proof {
            if self@.contains_key(key) {
                let j = choose|j: int| 0 <= j < self.keys.len() && self.keys[j] == key;
                assert(self.keys[j] != key);
            }
        }
        None
    }

    /// Appends `instance` to the bucket of `key`, creating that bucket if
    /// the chunk has none yet.
    pub fn insert(&mut self, key: ChunkCoord, instance: usize)
        requires
            old(self).wf(),
        ensures
            final(self).wf(),
            final(self)@ == old(self)@.insert(key, bucket_or_empty(old(self)@, key).push(instance)),
    {
        let ghost new_bucket = bucket_or_empty(self@, key).push(instance);
        match self.find(key) {
            Some(i) => {
                self.members[i].push(instance);
                proof {
                    self.model@ = self.model@.insert(key, new_bucket);
                    assert forall|k: ChunkCoord| #[trigger]
                        self.model@.contains_key(k) implies exists|j: int|
                        0 <= j < self.keys.len() && self.keys[j] == k by {
                        if k == key {
                            assert(self.keys[i as int] == k);
                        }
                    }
                }
            },
            None => {
                let mut bucket: Vec<usize> = Vec::new();
                bucket.push(instance);
                self.keys.push(key);
                self.members.push(bucket);
                proof {
                    self.model@ = self.model@.insert(key, new_bucket);
                    let last = self.keys.len() - 1;
                    assert(self.keys[last] == key);
                    assert forall|k: ChunkCoord| #[trigger]
                        self.model@.contains_key(k) implies exists|j: int|
                        0 <= j < self.keys.len() && self.keys[j] == k by {
                        if k != key {
                            let j = choose|j: int|
                                0 <= j < old(self).keys.len() && old(self).keys[j] == k;
                            assert(self.keys[j] == k);
                        }
                    }
                }
            },
        }
    }

    /// The instances of chunk `key`, if it has any.
    pub fn get(&self, key: ChunkCoord) -> (r: Option<&Vec<usize>>)
        requires
            self.wf(),
        ensures
            match r {
                Some(v) => self@.contains_key(key) && v@ == self@[key],
                None => !self@.contains_key(key),
            },
    {
        match self.find(key) {
            Some(i) => {
                proof {
                    assert(self.model@.contains_key(self.keys[i as int]));
                }
                Some(&self.members[i])
            },
            None => None,
        }
    }

    /// The number of chunks.
    pub fn len(&self) -> (n: usize)
        requires
            self.wf(),
        ensures
            n == self@.dom().len(),
    {
        proof {
            self.lemma_dom_len();
        }
        self.keys.len()
    }

    /// The chunks with their buckets, each chunk once.
    pub fn into_entries(self) -> (entries: Vec<(ChunkCoord, Vec<usize>)>)
        requires
            self.wf(),
        ensures
            entries.len() == self@.dom().len(),
            forall|i: int, j: int|
                0 <= i < j < entries.len() ==> #[trigger] entries[i].0 != #[trigger] entries[j].0,
            forall|i: int|
                0 <= i < entries.len() ==> #[trigger] self@.contains_key(entries[i].0)
                    && self@[entries[i].0] == entries[i].1@,
            forall|k: ChunkCoord| #[trigger]
                self@.contains_key(k) ==> exists|i: int| 0 <= i < entries.len() && entries[i].0 == k,
    {
        proof {
            self.lemma_dom_len();
        }
        let ghost model = self@;
        let ghost keys = self.keys@;
        let ghost members = self.members@;
        let n = self.keys.len();
        let ChunkBuckets { keys: ks, members: mut rest, model: _ } = self;
        let mut entries: Vec<(ChunkCoord, Vec<usize>)> = Vec::new();
        let mut i: usize = 0;
        while i < n
            invariant
                ks@ == keys,
                n == keys.len(),
                members.len() == n,
                i <= n,
                rest@ == members.skip(i as int),
                entries.len() == i,
                forall|j: int| 0 <= j < i ==> #[trigger] entries[j].0 == keys[j] && entries[j].1 == members[j],
            decreases n - i,
        {
            let b = rest.remove(0);
            entries.push((ks[i], b));
            i = i + 1;
        }
        proof {
            assert forall|j: int| 0 <= j < entries.len() implies #[trigger] model.contains_key(entries[j].0)
                && model[entries[j].0] == entries[j].1@ by {
                assert(model.contains_key(keys[j]));
            }
            assert forall|k: ChunkCoord| #[trigger]
                model.contains_key(k) implies exists|i: int|
                0 <= i < entries.len() && entries[i].0 == k by {
                let j = choose|j: int| 0 <= j < keys.len() && keys[j] == k;
                assert(entries[j].0 == k);
            }
        }
        entries
    }

    proof fn lemma_dom_len(&self)
        requires
            self.wf(),
        ensures
            self@.dom().len() == self.keys.len(),
    {
        assert forall|k: ChunkCoord| self@.dom().contains(k) <==> self.keys@.to_set().contains(k) by {
            if self.keys@.contains(k) {
                let i = choose|i: int| 0 <= i < self.keys.len() && self.keys[i] == k;
                assert(self.model@.contains_key(self.keys[i]));
            }
        }
        assert(self@.dom() =~= self.keys@.to_set());
        self.keys@.unique_seq_to_set();
    }
}

/// Groups instances by chunk: instance `i` goes to the bucket of
/// `coords[i]`, buckets keeping the order in which instances arrive.
pub fn bucket_instances(coords: &Vec<ChunkCoord>) -> (b: ChunkBuckets)
    ensures
        b.wf(),
        b@ == chunk_buckets(coords@),
{
    let mut b = ChunkBuckets::new();
    for i in 0..coords.len()
        invariant
            b.wf(),
            b@ == chunk_buckets(coords@.take(i as int)),
    {
        proof {
            assert(coords@.take(i + 1).drop_last() =~= coords@.take(i as int));
        }
        b.insert(coords[i], i);
    }
    proof {
        assert(coords@.take(coords.len() as int) =~= coords@);
    }
    b
}

} // verus!
