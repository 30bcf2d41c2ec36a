//! The world: loaded chunks and the bookkeeping of the generation and meshing
//! queues. Worker threads run outside; they take jobs from the queues and hand
//! finished chunks back.

use std::collections::{HashMap, HashSet, VecDeque};

use vstd::prelude::*;
use vstd::std_specs::hash::*;

use crate::accessor::{chunk_key, chunks_wf, in_chunk_range, key_of, lemma_key_injective, voxel_in, WorldAccessor};
use crate::chunk::{air, index_of, Chunk};
use crate::coord::{
    chunk_of, lemma_coordinate_round_trip, local_of, ChunkCoord, ChunkLocalCoord, WorldCoord, CHUNK_SIZE,
};
use crate::meshgen::agrees_on_neighbors;
use crate::voxel::{spec_solid, Blocks, Voxel};

verus! {

broadcast use group_hash_axioms;

/// Fills a freshly allocated chunk with terrain. Implementations decide
/// every voxel from the chunk's coordinate alone and may run concurrently on
/// different chunks.
pub trait Generator: Sync + Send {
    fn generate(&self, _chunk: &mut Chunk) {
    }
}

/// The abstract state of a `World`.
pub struct WorldView {
    /// Loaded chunks by `key_of` their coordinate.
    pub chunks: Map<u64, Chunk>,
    /// Coordinates waiting for generation, front first.
    pub gen_queue: Seq<ChunkCoord>,
    /// Coordinates waiting for meshing, front first.
    pub mesh_queue: Seq<ChunkCoord>,
    /// Keys of the coordinates ever enqueued for generation.
    pub loaded: Set<u64>,
    /// Keys of the coordinates ever enqueued for meshing.
    pub meshed: Set<u64>,
}

/// A chunk coordinate given as integers, if each fits `i16`.
pub open spec fn coord_at(x: int, y: int, z: int) -> Option<ChunkCoord> {
    if i16::MIN <= x <= i16::MAX && i16::MIN <= y <= i16::MAX && i16::MIN <= z <= i16::MAX {
        Some(ChunkCoord { x: x as i16, y: y as i16, z: z as i16 })
    } else {
        None
    }
}

/// The six axis neighbours of `c`: left, right, front, back, up, down, each
/// `None` where it cannot be named.
pub open spec fn neighbors(c: ChunkCoord) -> Seq<Option<ChunkCoord>> {
    seq![
        coord_at(c.x - 1, c.y as int, c.z as int),
        coord_at(c.x + 1, c.y as int, c.z as int),
        coord_at(c.x as int, c.y as int, c.z - 1),
        coord_at(c.x as int, c.y as int, c.z + 1),
        coord_at(c.x as int, c.y + 1, c.z as int),
        coord_at(c.x as int, c.y - 1, c.z as int),
    ]
}

impl WorldView {
    /// A chunk is loaded at `c`.
    pub open spec fn has_chunk(self, c: ChunkCoord) -> bool {
        self.chunks.contains_key(key_of(c))
    }

    /// A chunk is loaded at the coordinate `n`, which can be named.
    pub open spec fn has_neighbor(self, n: Option<ChunkCoord>) -> bool {
        match n {
            Some(c) => self.has_chunk(c),
            None => false,
        }
    }

    /// All six axis neighbours of `c` are loaded.
    pub open spec fn neighbors_loaded(self, c: ChunkCoord) -> bool {
        forall|i: int| 0 <= i < 6 ==> self.has_neighbor(#[trigger] neighbors(c)[i])
    }

    /// `enqueue_chunk`: the first request for `c` queues it for generation;
    /// later ones change nothing.
    pub open spec fn spec_enqueue_chunk(self, c: ChunkCoord) -> WorldView {
        if self.loaded.contains(key_of(c)) {
            self
        } else {
            WorldView { loaded: self.loaded.insert(key_of(c)), gen_queue: self.gen_queue.push(c), ..self }
        }
    }

    /// `enqueue_meshgen`: queues `c` for meshing once its own chunk and all
    /// six of its neighbours are loaded, and only the first time.
    pub open spec fn spec_enqueue_meshgen(self, c: ChunkCoord) -> WorldView {
        if self.has_chunk(c) && self.neighbors_loaded(c) && !self.meshed.contains(key_of(c)) {
            WorldView { meshed: self.meshed.insert(key_of(c)), mesh_queue: self.mesh_queue.push(c), ..self }
        } else {
            self
        }
    }

    /// `spec_enqueue_meshgen` at `n` where `n` can be named.
    pub open spec fn spec_attempt(self, n: Option<ChunkCoord>) -> WorldView {
        match n {
            Some(c) => self.spec_enqueue_meshgen(c),
            None => self,
        }
    }

    /// Meshing attempts for `c` and then for each of its six neighbours.
    pub open spec fn spec_attempt_around(self, c: ChunkCoord) -> WorldView {
        let ns = neighbors(c);
        self.spec_enqueue_meshgen(c).spec_attempt(ns[0]).spec_attempt(ns[1]).spec_attempt(ns[2]).spec_attempt(
            ns[3],
        ).spec_attempt(ns[4]).spec_attempt(ns[5])
    }

    /// A finished chunk arrives: it is stored under its coordinate, then its
    /// coordinate and its neighbours' are tried for meshing.
    pub open spec fn spec_receive(self, chunk: Chunk) -> WorldView {
        WorldView { chunks: self.chunks.insert(key_of(chunk.coord), chunk), ..self }.spec_attempt_around(chunk.coord)
    }

    /// Generation request and meshing attempt for `n`, where it can be named.
    pub open spec fn spec_visit(self, n: Option<ChunkCoord>) -> WorldView {
        match n {
            Some(c) => self.spec_enqueue_chunk(c).spec_enqueue_meshgen(c),
            None => self,
        }
    }

    /// `spec_visit` of the chunks `center + (x, i, j)` for `lo <= x < hi`, in order.
    pub open spec fn spec_visit_row(self, center: ChunkCoord, i: int, j: int, lo: int, hi: int) -> WorldView
        decreases hi - lo,
    {
        if hi <= lo {
            self
        } else {
            self.spec_visit_row(center, i, j, lo, hi - 1).spec_visit(
                coord_at(center.x + hi - 1, center.y + i, center.z + j),
            )
        }
    }

    /// Rows `center + (_, i, j)` for `lo <= j < hi`, each over `-d <= x <= d`.
    pub open spec fn spec_visit_plane(self, center: ChunkCoord, i: int, lo: int, hi: int, d: int) -> WorldView
        decreases hi - lo,
    {
        if hi <= lo {
            self
        } else {
            self.spec_visit_plane(center, i, lo, hi - 1, d).spec_visit_row(center, i, hi - 1, -d, d + 1)
        }
    }

    /// Planes `center + (_, i, _)` for `lo <= i < hi`, each over `-d <= j, x <= d`.
    pub open spec fn spec_visit_box(self, center: ChunkCoord, lo: int, hi: int, d: int) -> WorldView
        decreases hi - lo,
    {
        if hi <= lo {
            self
        } else {
            self.spec_visit_box(center, lo, hi - 1, d).spec_visit_plane(center, hi - 1, -d, d + 1, d)
        }
    }

    /// `spec_receive` of each chunk of `chunks` in turn.
    pub open spec fn spec_receive_all(self, chunks: Seq<Chunk>) -> WorldView
        decreases chunks.len(),
    {
        if chunks.len() == 0 {
            self
        } else {
            self.spec_receive_all(chunks.drop_last()).spec_receive(chunks.last())
        }
    }
}

/// `Seq` of the coordinate `n`, empty where it cannot be named.
pub open spec fn opt_seq(n: Option<ChunkCoord>) -> Seq<ChunkCoord> {
    match n {
        Some(c) => seq![c],
        None => seq![],
    }
}

/// The coordinates queued, front first, after an edit at local index `l` of
/// chunk `c`: `c` itself, then the neighbour behind each chunk face that `l`
/// lies on (back, front, down, up, right, left), where it can be named.
pub open spec fn remesh_after_edit(c: ChunkCoord, l: ChunkLocalCoord) -> Seq<ChunkCoord> {
    let ns = neighbors(c);
    let left = if l.x == 0 { opt_seq(ns[0]) } else { seq![] };
    let right = if l.x == CHUNK_SIZE - 1 { opt_seq(ns[1]) } else { seq![] };
    let front = if l.z == 0 { opt_seq(ns[2]) } else { seq![] };
    let back = if l.z == CHUNK_SIZE - 1 { opt_seq(ns[3]) } else { seq![] };
    let up = if l.y == CHUNK_SIZE - 1 { opt_seq(ns[4]) } else { seq![] };
    let down = if l.y == 0 { opt_seq(ns[5]) } else { seq![] };
    seq![c] + back + front + down + up + right + left
}

/// `new` is `old` after writing `block` at world position `w`: where the
/// chunk of `w` is loaded, the voxel at `w` becomes `block`, every other voxel
/// stays, and the chunk and its neighbours across the faces `w` lies on go to
/// the front of the meshing queue; elsewhere nothing changes.
pub open spec fn edited(old: WorldView, new: WorldView, w: WorldCoord, block: Voxel) -> bool {
    if w.in_chunk_range() && old.has_chunk(chunk_of(w)) {
        &&& new.chunks.dom() == old.chunks.dom()
        &&& forall|v: WorldCoord| #[trigger]
            voxel_in(new.chunks, v) == if v == w {
                Some(block)
            } else {
                voxel_in(old.chunks, v)
            }
        &&& new.mesh_queue == remesh_after_edit(chunk_of(w), local_of(w)) + old.mesh_queue
        &&& new.gen_queue == old.gen_queue
        &&& new.loaded == old.loaded
        &&& new.meshed == old.meshed
    } else {
        new == old
    }
}

/// An edit on the chunk face at local x = 0, away from the other faces,
/// queues the chunk and its left neighbour; an edit inside the chunk queues
/// the chunk alone.
pub proof fn lemma_edit_remesh_targets(c: ChunkCoord, l: ChunkLocalCoord)
    requires
        l.is_valid(),
    ensures
        l.x == 0 && 0 < l.y < CHUNK_SIZE - 1 && 0 < l.z < CHUNK_SIZE - 1 && c.x > i16::MIN ==> remesh_after_edit(c, l)
            == seq![c, ChunkCoord { x: (c.x - 1) as i16, ..c }],
        0 < l.x < CHUNK_SIZE - 1 && 0 < l.y < CHUNK_SIZE - 1 && 0 < l.z < CHUNK_SIZE - 1 ==> remesh_after_edit(c, l)
            == seq![c],
{
    if l.x == 0 && 0 < l.y < CHUNK_SIZE - 1 && 0 < l.z < CHUNK_SIZE - 1 && c.x > i16::MIN {
        assert(remesh_after_edit(c, l) =~= seq![c, ChunkCoord { x: (c.x - 1) as i16, ..c }]);
    }
    if 0 < l.x < CHUNK_SIZE - 1 && 0 < l.y < CHUNK_SIZE - 1 && 0 < l.z < CHUNK_SIZE - 1 {
        assert(remesh_after_edit(c, l) =~= seq![c]);
    }
}

/// Writing one voxel of a loaded chunk changes what the chunks hold at that
/// world position and nowhere else.
pub proof fn lemma_write_voxel(m: Map<u64, Chunk>, m2: Map<u64, Chunk>, p: WorldCoord, block: Voxel)
    requires
        chunks_wf(m),
        p.in_chunk_range(),
        m.contains_key(key_of(chunk_of(p))),
        m2 == m.insert(
            key_of(chunk_of(p)),
            m2[key_of(chunk_of(p))],
        ),
        m2[key_of(chunk_of(p))].coord == m[key_of(chunk_of(p))].coord,
        m2[key_of(chunk_of(p))].chunk_data@ == m[key_of(chunk_of(p))].chunk_data@.update(
            index_of(local_of(p)),
            block,
        ),
    ensures
        forall|w: WorldCoord| #[trigger] voxel_in(m2, w) == if w == p { Some(block) } else { voxel_in(m, w) },
{
    let kp = key_of(chunk_of(p));
    lemma_coordinate_round_trip(p);
    assert forall|w: WorldCoord| #[trigger] voxel_in(m2, w) == if w == p { Some(block) } else { voxel_in(m, w) } by {
        if w.in_chunk_range() && key_of(chunk_of(w)) == kp {
            lemma_coordinate_round_trip(w);
            lemma_key_injective(chunk_of(w), chunk_of(p));
            crate::chunk::lemma_index_of_injective(local_of(w), local_of(p));
            if w != p {
                assert(local_of(w) != local_of(p));
            }
        }
    }
}

/// `w` lies in the ball of radius `r` around `center`: each offset in
/// `[-r, r)` and the squared distance at most `r * r`.
pub open spec fn in_ball(center: WorldCoord, r: int, w: WorldCoord) -> bool {
    let (dx, dy, dz) = (w.x - center.x, w.y - center.y, w.z - center.z);
    &&& -r <= dx < r
    &&& -r <= dy < r
    &&& -r <= dz < r
    &&& dx * dx + dy * dy + dz * dz <= r * r
}

/// The offset `o` comes before `cur` in the order the ball is visited.
pub open spec fn lex_before(o: (int, int, int), cur: (int, int, int)) -> bool {
    o.0 < cur.0 || (o.0 == cur.0 && (o.1 < cur.1 || (o.1 == cur.1 && o.2 < cur.2)))
}

/// `w` lies in the ball and was visited before offset `cur`.
pub open spec fn visited(center: WorldCoord, r: int, w: WorldCoord, cur: (int, int, int)) -> bool {
    in_ball(center, r, w) && lex_before((w.x - center.x, w.y - center.y, w.z - center.z), cur)
}

/// Local index `l` lies on face `i` of its chunk, in the order of `neighbors`.
pub open spec fn on_face(l: ChunkLocalCoord, i: int) -> bool {
    if i == 0 {
        l.x == 0
    } else if i == 1 {
        l.x == CHUNK_SIZE - 1
    } else if i == 2 {
        l.z == 0
    } else if i == 3 {
        l.z == CHUNK_SIZE - 1
    } else if i == 4 {
        l.y == CHUNK_SIZE - 1
    } else {
        l.y == 0
    }
}

/// After writing the voxel at `w`, `affected` holds its chunk and each loaded
/// neighbour across a face `w` lies on.
pub open spec fn covers(v: WorldView, affected: Seq<ChunkCoord>, w: WorldCoord) -> bool {
    w.in_chunk_range() && v.has_chunk(chunk_of(w)) ==> {
        &&& affected.contains(chunk_of(w))
        &&& forall|i: int|
            0 <= i < 6 && on_face(local_of(w), i) && #[trigger] v.has_neighbor(neighbors(chunk_of(w))[i])
                ==> affected.contains(neighbors(chunk_of(w))[i]->0)
    }
}

/// `c` is queued because of voxel `w`: `w` lies in the ball and in a loaded
/// chunk, and `c` is that chunk or a loaded neighbour of it across a chunk
/// face that `w` lies on.
pub open spec fn justifies(v: WorldView, center: WorldCoord, r: int, w: WorldCoord, c: ChunkCoord) -> bool {
    &&& in_ball(center, r, w)
    &&& w.in_chunk_range()
    &&& v.has_chunk(chunk_of(w))
    &&& v.has_chunk(c)
    &&& (c == chunk_of(w) || exists|i: int|
        0 <= i < 6 && on_face(local_of(w), i) && #[trigger] neighbors(chunk_of(w))[i] == Some(c))
}

/// Some voxel of the ball justifies queueing `c`.
pub open spec fn justified(v: WorldView, center: WorldCoord, r: int, c: ChunkCoord) -> bool {
    exists|w: WorldCoord| #[trigger] justifies(v, center, r, w, c)
}

/// Appends `c` to `v` unless `v` holds it already.
fn push_unique(v: &mut Vec<ChunkCoord>, c: ChunkCoord, Ghost(ok): Ghost<spec_fn(ChunkCoord) -> bool>)
    requires
        old(v)@.no_duplicates(),
        ok(c),
        forall|x: ChunkCoord| old(v)@.contains(x) ==> ok(x),
    ensures
        final(v)@.no_duplicates(),
        final(v)@.contains(c),
        forall|x: ChunkCoord| old(v)@.contains(x) ==> final(v)@.contains(x),
        forall|x: ChunkCoord| final(v)@.contains(x) ==> old(v)@.contains(x) || x == c,
        forall|x: ChunkCoord| final(v)@.contains(x) ==> ok(x),
{
    let mut i: usize = 0;
    while i < v.len()
        invariant
            v@ == old(v)@,
            old(v)@.no_duplicates(),
            forall|x: ChunkCoord| old(v)@.contains(x) ==> ok(x),
            i <= v@.len(),
            forall|m: int| 0 <= m < i ==> v@[m] != c,
        decreases v@.len() - i,
    {
        if v[i] == c {
            return;
        }
        i = i + 1;
    }
    let ghost before = v@;
    v.push(c);
    assert(v@[before.len() as int] == c);
    assert forall|x: ChunkCoord| before.contains(x) implies v@.contains(x) by {
        let m = choose|m: int| 0 <= m < before.len() && before[m] == x;
        assert(v@[m] == x);
    }
    assert forall|x: ChunkCoord| v@.contains(x) implies before.contains(x) || x == c by {
        let m = choose|m: int| 0 <= m < v@.len() && v@[m] == x;
        if m < before.len() {
            assert(before[m] == x);
        }
    }
    assert forall|x: ChunkCoord| v@.contains(x) implies ok(x) by {
        if x != c {
            assert(before.contains(x));
            assert(old(v)@.contains(x));
        }
    }
}

/// A ray sample stops the ray: its chunk is loaded and its block is solid.
pub open spec fn is_hit(m: Map<u64, Chunk>, w: WorldCoord) -> bool {
    match voxel_in(m, w) {
        Some(v) => spec_solid(v.id),
        None => false,
    }
}

/// Requesting generation of a coordinate twice queues exactly one job for it:
/// the second request changes nothing.
pub proof fn lemma_enqueue_chunk_idempotent(v: WorldView, c: ChunkCoord)
    ensures
        v.spec_enqueue_chunk(c).spec_enqueue_chunk(c) == v.spec_enqueue_chunk(c),
        !v.loaded.contains(key_of(c)) ==> v.spec_enqueue_chunk(c).spec_enqueue_chunk(c).gen_queue == v.gen_queue.push(c),
        v.loaded.contains(key_of(c)) ==> v.spec_enqueue_chunk(c).spec_enqueue_chunk(c).gen_queue == v.gen_queue,
{
}

/// Meshing a generated chunk is refused while one of its six neighbours is
/// missing, and is queued, once, when the last neighbour arrives.
pub proof fn lemma_meshgen_waits_for_neighbors(v: WorldView, c: ChunkCoord, chunk: Chunk, i: int)
    requires
        0 <= i < 6,
        neighbors(c)[i] == Some(chunk.coord),
        v.has_chunk(c),
        forall|j: int| 0 <= j < 6 && j != i ==> v.has_neighbor(#[trigger] neighbors(c)[j]),
        !v.meshed.contains(key_of(c)),
    ensures
        !v.has_chunk(chunk.coord) ==> v.spec_enqueue_meshgen(c) == v,
        v.spec_receive(chunk).meshed.contains(key_of(c)),
        v.spec_receive(chunk).mesh_queue.to_multiset().count(c) == v.mesh_queue.to_multiset().count(c) + 1,
{
    let n = chunk.coord;
    let w0 = WorldView { chunks: v.chunks.insert(key_of(n), chunk), ..v };
    assert(w0.neighbors_loaded(c)) by {
        assert forall|j: int| 0 <= j < 6 implies w0.has_neighbor(#[trigger] neighbors(c)[j]) by {
            if j != i {
                assert(v.has_neighbor(neighbors(c)[j]));
            }
        }
    }
    if !v.has_chunk(n) {
        assert(!v.has_neighbor(neighbors(c)[i]));
    }
    lemma_neighbor_symmetric(c, n, i);
    assert(n != c);
    let ns = neighbors(n);
    let base = v.mesh_queue.to_multiset().count(c) as int;
    lemma_attempt_step(w0, Some(n), c, base);
    let w1 = w0.spec_attempt(Some(n));
    lemma_attempt_step(w1, ns[0], c, base);
    let w2 = w1.spec_attempt(ns[0]);
    lemma_attempt_step(w2, ns[1], c, base);
    let w3 = w2.spec_attempt(ns[1]);
    lemma_attempt_step(w3, ns[2], c, base);
    let w4 = w3.spec_attempt(ns[2]);
    lemma_attempt_step(w4, ns[3], c, base);
    let w5 = w4.spec_attempt(ns[3]);
    lemma_attempt_step(w5, ns[4], c, base);
    let w6 = w5.spec_attempt(ns[4]);
    lemma_attempt_step(w6, ns[5], c, base);
    assert(w0.spec_attempt(Some(n)) == w0.spec_enqueue_meshgen(n));
}

/// Where `n` is neighbour `i` of `c`, `c` is a neighbour of `n` and differs from it.
proof fn lemma_neighbor_symmetric(c: ChunkCoord, n: ChunkCoord, i: int)
    requires
        0 <= i < 6,
        neighbors(c)[i] == Some(n),
    ensures
        n != c,
        exists|j: int| 0 <= j < 6 && neighbors(n)[j] == Some(c),
{
    if i == 0 {
        assert(neighbors(n)[1] == Some(c));
    } else if i == 1 {
        assert(neighbors(n)[0] == Some(c));
    } else if i == 2 {
        assert(neighbors(n)[3] == Some(c));
    } else if i == 3 {
        assert(neighbors(n)[2] == Some(c));
    } else if i == 4 {
        assert(neighbors(n)[5] == Some(c));
    } else {
        assert(neighbors(n)[4] == Some(c));
    }
}

/// One meshing attempt keeps the chunks, never unmarks `c`, marks it when
/// attempted with its neighbours loaded, and queues `c` exactly when it marks it.
proof fn lemma_attempt_step(w: WorldView, n: Option<ChunkCoord>, c: ChunkCoord, base: int)
    requires
        w.has_chunk(c),
        w.neighbors_loaded(c),
        w.mesh_queue.to_multiset().count(c) == base + if w.meshed.contains(key_of(c)) { 1int } else { 0 },
    ensures
        w.spec_attempt(n).chunks == w.chunks,
        w.spec_attempt(n).neighbors_loaded(c),
        w.spec_attempt(n).mesh_queue.to_multiset().count(c) == base + if w.spec_attempt(n).meshed.contains(
            key_of(c),
        ) {
            1int
        } else {
            0
        },
        w.meshed.contains(key_of(c)) ==> w.spec_attempt(n).meshed.contains(key_of(c)),
        n == Some(c) ==> w.spec_attempt(n).meshed.contains(key_of(c)),
{
    broadcast use vstd::seq_lib::group_to_multiset_ensures;

    let w2 = w.spec_attempt(n);
    assert(w2.neighbors_loaded(c) == w.neighbors_loaded(c));
    if let Some(x) = n {
        if w.has_chunk(x) && w.neighbors_loaded(x) && !w.meshed.contains(key_of(x)) {
            lemma_key_injective(x, c);
            assert(w2.mesh_queue.to_multiset() == w.mesh_queue.to_multiset().insert(x));
        }
    }
}

/// The loaded chunks and the generation and meshing bookkeeping.
pub struct World {
    world_accessor: WorldAccessor,
    chunk_gen_queue: VecDeque<ChunkCoord>,
    meshgen_queue: VecDeque<ChunkCoord>,
    loaded_chunks: HashSet<u64>,
    meshed_chunks: HashSet<u64>,
}

impl View for World {
    type V = WorldView;

    closed spec fn view(&self) -> WorldView {
        WorldView {
            chunks: self.world_accessor.chunks@,
            gen_queue: self.chunk_gen_queue@,
            mesh_queue: self.meshgen_queue@,
            loaded: self.loaded_chunks@,
            meshed: self.meshed_chunks@,
        }
    }
}

impl World {
    /// Every loaded chunk is well formed and stored under its own key.
    pub open spec fn wf(&self) -> bool {
        chunks_wf(self@.chunks)
    }

    /// An empty world.
    pub fn new() -> (r: Self)
        ensures
            r.wf(),
            r@.chunks == Map::<u64, Chunk>::empty(),
            r@.gen_queue == Seq::<ChunkCoord>::empty(),
            r@.mesh_queue == Seq::<ChunkCoord>::empty(),
            r@.loaded == Set::<u64>::empty(),
            r@.meshed == Set::<u64>::empty(),
    {
        World {
            world_accessor: WorldAccessor { chunks: HashMap::new() },
            chunk_gen_queue: VecDeque::new(),
            meshgen_queue: VecDeque::new(),
            loaded_chunks: HashSet::new(),
            meshed_chunks: HashSet::new(),
        }
    }

    /// Queues `chunk_coord` for generation unless it was requested before.
    pub fn enqueue_chunk(&mut self, chunk_coord: ChunkCoord)
        requires
            old(self).wf(),
        ensures
            final(self).wf(),
            final(self)@ == old(self)@.spec_enqueue_chunk(chunk_coord),
    {
        let ghost before = self.loaded_chunks@;
        if !self.loaded_chunks.insert(chunk_key(chunk_coord)) {
            assert(self.loaded_chunks@ =~= before);
            return;
        }
        self.chunk_gen_queue.push_back(chunk_coord);
    }

    /// A chunk is loaded at `coord`.
    fn has_chunk(&self, coord: ChunkCoord) -> (r: bool)
        ensures
            r == self@.has_chunk(coord),
    {
        self.world_accessor.chunks.contains_key(&chunk_key(coord))
    }

    /// All six axis neighbours of `coord` are loaded.
    fn neighbors_loaded(&self, coord: ChunkCoord) -> (r: bool)
        ensures
            r == self@.neighbors_loaded(coord),
    {
        let ghost ns = neighbors(coord);
        let ghost v = self@;
        let r = coord.x > i16::MIN && coord.x < i16::MAX && coord.y > i16::MIN && coord.y < i16::MAX && coord.z
            > i16::MIN && coord.z < i16::MAX && self.has_chunk(coord.left()) && self.has_chunk(coord.right())
            && self.has_chunk(coord.front()) && self.has_chunk(coord.back()) && self.has_chunk(coord.up())
            && self.has_chunk(coord.down());
        proof {
            if r {
                assert forall|i: int| 0 <= i < 6 implies v.has_neighbor(#[trigger] ns[i]) by {
                }
            } else if v.neighbors_loaded(coord) {
                assert(v.has_neighbor(ns[0]));
                assert(v.has_neighbor(ns[1]));
                assert(v.has_neighbor(ns[2]));
                assert(v.has_neighbor(ns[3]));
                assert(v.has_neighbor(ns[4]));
                assert(v.has_neighbor(ns[5]));
            }
        }
        r
    }

    /// Queues `coord` for meshing once its own chunk and all six of its axis
    /// neighbours are loaded, and only the first time.
    pub fn enqueue_meshgen(&mut self, coord: ChunkCoord)
        requires
            old(self).wf(),
        ensures
            final(self).wf(),
            final(self)@ == old(self)@.spec_enqueue_meshgen(coord),
    {
        if !self.has_chunk(coord) || !self.neighbors_loaded(coord) {
            return;
        }
        let ghost before = self.meshed_chunks@;
        if !self.meshed_chunks.insert(chunk_key(coord)) {
            assert(self.meshed_chunks@ =~= before);
            return;
        }
        self.meshgen_queue.push_back(coord);
    }

    /// Tries `coord` and then each of its six neighbours for meshing.
    fn attempt_around(&mut self, coord: ChunkCoord)
        requires
            old(self).wf(),
        ensures
            final(self).wf(),
            final(self)@ == old(self)@.spec_attempt_around(coord),
    {
        let ghost ns = neighbors(coord);
        let ghost w0 = self@;
        self.enqueue_meshgen(coord);
        let ghost w1 = self@;
        if coord.x > i16::MIN {
            self.enqueue_meshgen(coord.left());
        }
        assert(self@ == w1.spec_attempt(ns[0]));
        let ghost w2 = self@;
        if coord.x < i16::MAX {
            self.enqueue_meshgen(coord.right());
        }
        assert(self@ == w2.spec_attempt(ns[1]));
        let ghost w3 = self@;
        if coord.z > i16::MIN {
            self.enqueue_meshgen(coord.front());
        }
        assert(self@ == w3.spec_attempt(ns[2]));
        let ghost w4 = self@;
        if coord.z < i16::MAX {
            self.enqueue_meshgen(coord.back());
        }
        assert(self@ == w4.spec_attempt(ns[3]));
        let ghost w5 = self@;
        if coord.y < i16::MAX {
            self.enqueue_meshgen(coord.up());
        }
        assert(self@ == w5.spec_attempt(ns[4]));
        let ghost w6 = self@;
        if coord.y > i16::MIN {
            self.enqueue_meshgen(coord.down());
        }
        assert(self@ == w6.spec_attempt(ns[5]));
    }

    /// Stores finished chunks, each under its coordinate, and after each tries
    /// its coordinate and its neighbours' for meshing.
    pub fn receive_chunk(&mut self, chunks: Vec<Chunk>)
        requires
            old(self).wf(),
            forall|i: int| 0 <= i < chunks@.len() ==> (#[trigger] chunks@[i]).wf(),
        ensures
            final(self).wf(),
            final(self)@ == old(self)@.spec_receive_all(chunks@),
    {
        let ghost all = chunks@;
        let total = chunks.len();
        let mut pending = chunks;
        let mut reversed: Vec<Chunk> = Vec::new();
        while pending.len() > 0
            invariant
                pending@ == all.subrange(0, pending@.len() as int),
                pending@.len() + reversed@.len() == all.len(),
                forall|j: int| 0 <= j < reversed@.len() ==> #[trigger] reversed@[j] == all[all.len() - 1 - j],
            decreases pending@.len(),
        {
            let chunk = pending.pop().unwrap();
            reversed.push(chunk);
        }
        let mut done: usize = 0;
        while reversed.len() > 0
            invariant
                self.wf(),
                forall|i: int| 0 <= i < all.len() ==> (#[trigger] all[i]).wf(),
                done + reversed@.len() == all.len(),
                all.len() == total,
                forall|j: int| 0 <= j < reversed@.len() ==> #[trigger] reversed@[j] == all[all.len() - 1 - j],
                self@ == old(self)@.spec_receive_all(all.subrange(0, done as int)),
            decreases reversed@.len(),
        {
            let chunk = reversed.pop().unwrap();
            let coord = chunk.coord;
            proof {
                assert(chunk == all[done as int]);
                assert(all.subrange(0, done + 1).drop_last() =~= all.subrange(0, done as int));
            }
            self.world_accessor.chunks.insert(chunk_key(coord), chunk);
            self.attempt_around(coord);
            done = done + 1;
        }
        assert(all.subrange(0, done as int) =~= all);
    }

    /// Takes the coordinate at the front of the generation queue, if any.
    pub fn take_generation_job(&mut self) -> (r: Option<ChunkCoord>)
        requires
            old(self).wf(),
        ensures
            final(self).wf(),
            old(self)@.gen_queue.len() == 0 ==> r is None && final(self)@ == old(self)@,
            old(self)@.gen_queue.len() > 0 ==> r == Some(old(self)@.gen_queue[0]) && final(self)@ == (WorldView {
                gen_queue: old(self)@.gen_queue.drop_first(),
                ..old(self)@
            }),
    {
        self.chunk_gen_queue.pop_front()
    }

    /// A copy of the chunk stored under `key`.
    fn copy_chunk(&self, key: u64) -> (r: Option<Chunk>)
        requires
            self.wf(),
        ensures
            self@.chunks.contains_key(key) <==> r is Some,
            r matches Some(c) ==> c.wf() && c.coord == self@.chunks[key].coord && c.chunk_data@
                == self@.chunks[key].chunk_data@,
    {
        match self.world_accessor.chunks.get(&key) {
            Some(chunk) => Some(chunk.duplicate()),
            None => None,
        }
    }

    /// Takes the coordinate at the front of the meshing queue. Where its
    /// chunk is loaded, returns a copy of that chunk and an accessor holding
    /// copies of its loaded neighbours, which is all that meshing it reads.
    /// Where its chunk is not loaded, it is unmarked so that a later attempt
    /// can queue it again, and `None` is returned.
    pub fn take_meshgen_job(&mut self) -> (r: Option<(Box<Chunk>, WorldAccessor)>)
        requires
            old(self).wf(),
        ensures
            final(self).wf(),
            old(self)@.mesh_queue.len() == 0 ==> r is None && final(self)@ == old(self)@,
            old(self)@.mesh_queue.len() > 0 ==> {
                let c = old(self)@.mesh_queue[0];
                let rest = WorldView { mesh_queue: old(self)@.mesh_queue.drop_first(), ..old(self)@ };
                &&& old(self)@.has_chunk(c) ==> final(self)@ == rest && r is Some
                &&& !old(self)@.has_chunk(c) ==> final(self)@ == (WorldView {
                    meshed: rest.meshed.remove(key_of(c)),
                    ..rest
                }) && r is None
                &&& r matches Some((chunk, accessor)) ==> {
                    &&& chunk.wf()
                    &&& chunk.coord == c
                    &&& chunk.chunk_data@ == old(self)@.chunks[key_of(c)].chunk_data@
                    &&& accessor.wf()
                    &&& forall|k: u64| #[trigger]
                        accessor.chunks@.contains_key(k) ==> old(self)@.chunks.contains_key(k)
                            && accessor.chunks@[k].chunk_data@ == old(self)@.chunks[k].chunk_data@
                    &&& forall|i: int|
                        0 <= i < 6 ==> (#[trigger] old(self)@.has_neighbor(neighbors(c)[i])
                            ==> accessor.chunks@.contains_key(key_of(neighbors(c)[i]->0)))
                    &&& agrees_on_neighbors(old(self)@.chunks, accessor.chunks@, c)
                }
            },
    {
        let coord = match self.meshgen_queue.pop_front() {
            Some(coord) => coord,
            None => return None,
        };
        let key = chunk_key(coord);
        let chunk = match self.copy_chunk(key) {
            Some(chunk) => chunk,
            None => {
                self.meshed_chunks.remove(&key);
                return None;
            },
        };
        let ghost after_pop = self@;
        assert(after_pop.chunks == old(self)@.chunks);
        proof {
            lemma_key_injective(chunk.coord, coord);
        }
        let mut accessor = WorldAccessor { chunks: HashMap::new() };
        let mut i: usize = 0;
        while i < 6
            invariant
                self.wf(),
                self@ == after_pop,
                i <= 6,
                chunks_wf(accessor.chunks@),
                forall|k: u64| #[trigger]
                    accessor.chunks@.contains_key(k) ==> self@.chunks.contains_key(k)
                        && accessor.chunks@[k].chunk_data@ == self@.chunks[k].chunk_data@,
                forall|j: int|
                    0 <= j < i ==> (#[trigger] self@.has_neighbor(neighbors(coord)[j])
                        ==> accessor.chunks@.contains_key(key_of(neighbors(coord)[j]->0))),
            decreases 6 - i,
        {
            let n = if i == 0 {
                if coord.x > i16::MIN { Some(coord.left()) } else { None }
            } else if i == 1 {
                if coord.x < i16::MAX { Some(coord.right()) } else { None }
            } else if i == 2 {
                if coord.z > i16::MIN { Some(coord.front()) } else { None }
            } else if i == 3 {
                if coord.z < i16::MAX { Some(coord.back()) } else { None }
            } else if i == 4 {
                if coord.y < i16::MAX { Some(coord.up()) } else { None }
            } else {
                if coord.y > i16::MIN { Some(coord.down()) } else { None }
            };
            assert(n == neighbors(coord)[i as int]);
            if let Some(n) = n {
                let nkey = chunk_key(n);
                if let Some(copy) = self.copy_chunk(nkey) {
                    accessor.chunks.insert(nkey, copy);
                }
            }
            i = i + 1;
        }
        assert forall|j: int|
            0 <= j < 6 && #[trigger] old(self)@.has_neighbor(neighbors(coord)[j]) implies accessor.chunks@.contains_key(
            key_of(neighbors(coord)[j]->0),
        ) by {
            assert(self@.has_neighbor(neighbors(coord)[j]));
        }
        assert forall|j: int| 0 <= j < 6 implies match #[trigger] neighbors(coord)[j] {
            Some(n) => (old(self)@.chunks.contains_key(key_of(n)) <==> accessor.chunks@.contains_key(key_of(n))) && (
            old(self)@.chunks.contains_key(key_of(n)) ==> accessor.chunks@[key_of(n)].chunk_data@ == old(
                self,
            )@.chunks[key_of(n)].chunk_data@),
            None => true,
        } by {
            assert(self@.has_neighbor(neighbors(coord)[j]) == old(self)@.has_neighbor(neighbors(coord)[j]));
        }
        Some((Box::new(chunk), accessor))
    }

    /// The voxel at `position`, or `None` where its chunk is not loaded.
    pub fn get_voxel(&self, position: WorldCoord) -> (r: Option<Voxel>)
        requires
            self.wf(),
        ensures
            r == voxel_in(self@.chunks, position),
    {
        self.world_accessor.get_voxel(position)
    }

    /// Empties the world: chunks, both queues and both tracking sets.
    pub fn reset(&mut self)
        ensures
            final(self).wf(),
            final(self)@.chunks == Map::<u64, Chunk>::empty(),
            final(self)@.gen_queue == Seq::<ChunkCoord>::empty(),
            final(self)@.mesh_queue == Seq::<ChunkCoord>::empty(),
            final(self)@.loaded == Set::<u64>::empty(),
            final(self)@.meshed == Set::<u64>::empty(),
    {
        self.loaded_chunks.clear();
        self.meshed_chunks.clear();
        self.chunk_gen_queue.clear();
        self.meshgen_queue.clear();
        self.world_accessor.chunks.clear();
    }

    /// Index of the first sample that hits a loaded solid voxel, with that
    /// voxel; samples in unloaded chunks or on non-solid voxels are passed over.
    pub fn first_solid_hit(&self, samples: &Vec<WorldCoord>) -> (r: Option<(usize, Voxel)>)
        requires
            self.wf(),
        ensures
            r matches Some((i, v)) ==> i < samples@.len() && voxel_in(self@.chunks, samples@[i as int]) == Some(v)
                && spec_solid(v.id) && forall|j: int| 0 <= j < i ==> !is_hit(self@.chunks, #[trigger] samples@[j]),
            r is None ==> forall|j: int| 0 <= j < samples@.len() ==> !is_hit(self@.chunks, #[trigger] samples@[j]),
    {
        let mut i: usize = 0;
        while i < samples.len()
            invariant
                self.wf(),
                i <= samples@.len(),
                forall|j: int| 0 <= j < i ==> !is_hit(self@.chunks, #[trigger] samples@[j]),
            decreases samples@.len() - i,
        {
            if let Some(voxel) = self.get_voxel(samples[i]) {
                if Blocks::by_id(voxel.id).solid {
                    return Some((i, voxel));
                }
            }
            i = i + 1;
        }
        None
    }

    /// Writes `block` at `position` where its chunk is loaded, then queues
    /// that chunk, and each neighbour across a chunk face that `position` lies
    /// on, at the front of the meshing queue. Edits of unloaded chunks are
    /// dropped.
    #[verifier::rlimit(40)]
    pub fn set_voxel(&mut self, position: WorldCoord, block: Voxel)
        requires
            old(self).wf(),
            block.is_registered(),
        ensures
            final(self).wf(),
            edited(old(self)@, final(self)@, position, block),
    {
        let ghost before = self@;
        let (chunk_coord, local_coord) = match self.write_voxel(position, block) {
            Some(written) => written,
            None => return,
        };
        if local_coord.left().is_none() && chunk_coord.x > i16::MIN {
            self.meshgen_queue.push_front(chunk_coord.left());
        }
        if local_coord.right().is_none() && chunk_coord.x < i16::MAX {
            self.meshgen_queue.push_front(chunk_coord.right());
        }
        if local_coord.up().is_none() && chunk_coord.y < i16::MAX {
            self.meshgen_queue.push_front(chunk_coord.up());
        }
        if local_coord.down().is_none() && chunk_coord.y > i16::MIN {
            self.meshgen_queue.push_front(chunk_coord.down());
        }
        if local_coord.front().is_none() && chunk_coord.z > i16::MIN {
            self.meshgen_queue.push_front(chunk_coord.front());
        }
        if local_coord.back().is_none() && chunk_coord.z < i16::MAX {
            self.meshgen_queue.push_front(chunk_coord.back());
        }
        self.meshgen_queue.push_front(chunk_coord);
        assert(self@.mesh_queue =~= remesh_after_edit(chunk_coord, local_coord) + before.mesh_queue);
    }

    /// `set_voxel` with air.
    pub fn break_block(&mut self, position: WorldCoord)
        requires
            old(self).wf(),
        ensures
            final(self).wf(),
            edited(old(self)@, final(self)@, position, air()),
    {
        self.set_voxel(position, Blocks::air().default_state());
    }

    /// Requests generation of, and tries meshing, the chunk at the integer
    /// coordinates `(x, y, z)` where it can be named.
    fn visit(&mut self, x: i64, y: i64, z: i64)
        requires
            old(self).wf(),
        ensures
            final(self).wf(),
            final(self)@ == old(self)@.spec_visit(coord_at(x as int, y as int, z as int)),
    {
        if x < i16::MIN as i64 || x > i16::MAX as i64 || y < i16::MIN as i64 || y > i16::MAX as i64 || z
            < i16::MIN as i64 || z > i16::MAX as i64 {
            return;
        }
        let c = ChunkCoord { x: x as i16, y: y as i16, z: z as i16 };
        self.enqueue_chunk(c);
        self.enqueue_meshgen(c);
    }

    fn visit_row(&mut self, center: ChunkCoord, i: i64, j: i64, d: i64)
        requires
            old(self).wf(),
            0 <= d <= i32::MAX,
            -i32::MAX <= i <= i32::MAX,
            -i32::MAX <= j <= i32::MAX,
        ensures
            final(self).wf(),
            final(self)@ == old(self)@.spec_visit_row(center, i as int, j as int, -d, d + 1),
    {
        let mut k: i64 = -d;
        while k <= d
            invariant
                self.wf(),
                0 <= d <= i32::MAX,
                -i32::MAX <= i <= i32::MAX,
                -i32::MAX <= j <= i32::MAX,
                -d <= k <= d + 1,
                self@ == old(self)@.spec_visit_row(center, i as int, j as int, -d, k as int),
            decreases d + 1 - k,
        {
            self.visit(center.x as i64 + k, center.y as i64 + i, center.z as i64 + j);
            k = k + 1;
        }
    }

    fn visit_plane(&mut self, center: ChunkCoord, i: i64, d: i64)
        requires
            old(self).wf(),
            0 <= d <= i32::MAX,
            -i32::MAX <= i <= i32::MAX,
        ensures
            final(self).wf(),
            final(self)@ == old(self)@.spec_visit_plane(center, i as int, -d, d + 1, d as int),
    {
        let mut j: i64 = -d;
        while j <= d
            invariant
                self.wf(),
                0 <= d <= i32::MAX,
                -i32::MAX <= i <= i32::MAX,
                -d <= j <= d + 1,
                self@ == old(self)@.spec_visit_plane(center, i as int, -d, j as int, d as int),
            decreases d + 1 - j,
        {
            self.visit_row(center, i, j, d);
            j = j + 1;
        }
    }

    /// Requests generation of, and tries meshing, every chunk around the chunk
    /// of `eye`: `height / 2` chunks below and above it, `distance` chunks
    /// away on both horizontal axes. Coordinates that a `ChunkCoord` cannot
    /// name are passed over.
    pub fn enqueue_chunks_around(&mut self, eye: WorldCoord, height: usize, distance: usize)
        requires
            old(self).wf(),
            height <= i32::MAX,
            distance <= i32::MAX,
        ensures
            final(self).wf(),
            final(self)@ == old(self)@.spec_visit_box(
                chunk_of(eye),
                -((height / 2) as int),
                (height / 2) as int + 1,
                distance as int,
            ),
    {
        let center: ChunkCoord = eye.into();
        let half = (height / 2) as i64;
        let d = distance as i64;
        let mut i: i64 = -half;
        while i <= half
            invariant
                self.wf(),
                0 <= half <= i32::MAX,
                0 <= d <= i32::MAX,
                half == height / 2,
                d == distance,
                center == chunk_of(eye),
                -half <= i <= half + 1,
                self@ == old(self)@.spec_visit_box(center, -half, i as int, d as int),
            decreases half + 1 - i,
        {
            self.visit_plane(center, i, d);
            i = i + 1;
        }
    }

    /// Writes `block` at `p` where its chunk is loaded, and says where.
    fn write_voxel(&mut self, p: WorldCoord, block: Voxel) -> (r: Option<(ChunkCoord, ChunkLocalCoord)>)
        requires
            old(self).wf(),
            block.is_registered(),
        ensures
            final(self).wf(),
            final(self)@.chunks.dom() == old(self)@.chunks.dom(),
            final(self)@.gen_queue == old(self)@.gen_queue,
            final(self)@.mesh_queue == old(self)@.mesh_queue,
            final(self)@.loaded == old(self)@.loaded,
            final(self)@.meshed == old(self)@.meshed,
            (p.in_chunk_range() && old(self)@.has_chunk(chunk_of(p))) <==> r is Some,
            r is None ==> final(self)@ == old(self)@,
            r matches Some((c, l)) ==> c == chunk_of(p) && l == local_of(p) && l.is_valid(),
            forall|w: WorldCoord| #[trigger]
                voxel_in(final(self)@.chunks, w) == if w == p && r is Some {
                    Some(block)
                } else {
                    voxel_in(old(self)@.chunks, w)
                },
    {
        if !in_chunk_range(p) {
            return None;
        }
        let chunk_coord: ChunkCoord = p.into();
        let local_coord: ChunkLocalCoord = p.into();
        proof {
            lemma_coordinate_round_trip(p);
        }
        let key = chunk_key(chunk_coord);
        let ghost before = self@;
        let mut chunk = match self.world_accessor.chunks.remove(&key) {
            Some(chunk) => chunk,
            None => {
                assert(self@.chunks =~= before.chunks);
                return None;
            },
        };
        proof {
            lemma_key_injective(chunk.coord, chunk_coord);
        }
        chunk.set_voxel(local_coord, block);
        self.world_accessor.chunks.insert(key, chunk);
        proof {
            assert(self@.chunks =~= before.chunks.insert(key, self@.chunks[key]));
            lemma_write_voxel(before.chunks, self@.chunks, p, block);
        }
        Some((chunk_coord, local_coord))
    }

    /// Visits offset `(i, j, k)` of the ball: writes `block` there if it lies
    /// in the ball and in a loaded chunk, and records the chunks to remesh.
    #[verifier::rlimit(40)]
    fn radius_visit(
        &mut self,
        center: WorldCoord,
        r: i64,
        i: i64,
        j: i64,
        k: i64,
        block: Voxel,
        affected: &mut Vec<ChunkCoord>,
        Ghost(base): Ghost<WorldView>,
    )
        requires
            old(self).wf(),
            block.is_registered(),
            0 <= r <= 46340,
            -r <= i < r,
            -r <= j < r,
            -r <= k < r,
            old(self)@.chunks.dom() == base.chunks.dom(),
            old(self)@.gen_queue == base.gen_queue,
            old(self)@.mesh_queue == base.mesh_queue,
            old(self)@.loaded == base.loaded,
            old(self)@.meshed == base.meshed,
            forall|w: WorldCoord| #[trigger]
                voxel_in(old(self)@.chunks, w) == if visited(center, r as int, w, (i as int, j as int, k as int))
                    && voxel_in(base.chunks, w) is Some {
                    Some(block)
                } else {
                    voxel_in(base.chunks, w)
                },
            forall|w: WorldCoord|
                visited(center, r as int, w, (i as int, j as int, k as int)) ==> #[trigger] covers(
                    base,
                    old(affected)@,
                    w,
                ),
            old(affected)@.no_duplicates(),
            forall|c: ChunkCoord| old(affected)@.contains(c) ==> justified(base, center, r as int, c),
        ensures
            final(self).wf(),
            final(self)@.chunks.dom() == base.chunks.dom(),
            final(self)@.gen_queue == base.gen_queue,
            final(self)@.mesh_queue == base.mesh_queue,
            final(self)@.loaded == base.loaded,
            final(self)@.meshed == base.meshed,
            forall|w: WorldCoord| #[trigger]
                voxel_in(final(self)@.chunks, w) == if visited(center, r as int, w, (i as int, j as int, k + 1))
                    && voxel_in(base.chunks, w) is Some {
                    Some(block)
                } else {
                    voxel_in(base.chunks, w)
                },
            forall|w: WorldCoord|
                visited(center, r as int, w, (i as int, j as int, k + 1)) ==> #[trigger] covers(
                    base,
                    final(affected)@,
                    w,
                ),
            final(affected)@.no_duplicates(),
            forall|c: ChunkCoord| final(affected)@.contains(c) ==> justified(base, center, r as int, c),
    {
        let ghost cur = (i as int, j as int, k as int);
        let ghost next = (i as int, j as int, k + 1);
        assert(0 <= i * i <= 46340 * 46340 && 0 <= j * j <= 46340 * 46340 && 0 <= k * k <= 46340 * 46340 && 0 <= r * r
            <= 46340 * 46340)
            by (nonlinear_arith)
            requires
                -46340 <= i <= 46340,
                -46340 <= j <= 46340,
                -46340 <= k <= 46340,
                0 <= r <= 46340,
        ;
        let x = center.x as i64 + i;
        let y = center.y as i64 + j;
        let z = center.z as i64 + k;
        if i * i + j * j + k * k > r * r || x < i32::MIN as i64 || x > i32::MAX as i64 || y < i32::MIN as i64 || y
            > i32::MAX as i64 || z < i32::MIN as i64 || z > i32::MAX as i64 {
            assert forall|w: WorldCoord| visited(center, r as int, w, next) == visited(center, r as int, w, cur) by {
                if visited(center, r as int, w, next) && !visited(center, r as int, w, cur) {
                    assert(w.x - center.x == i && w.y - center.y == j && w.z - center.z == k);
                }
            }
            return;
        }
        let p = WorldCoord { x: x as i32, y: y as i32, z: z as i32 };
        assert forall|w: WorldCoord| visited(center, r as int, w, next) == (visited(center, r as int, w, cur) || w == p)
            by {
            if w == p {
                assert(in_ball(center, r as int, w));
            }
        }
        let ghost before_write = self@;
        let written = self.write_voxel(p, block);
        let ghost before_affected = affected@;
        if let Some((c, l)) = written {
            let ghost ns = neighbors(c);
            let ghost ok = |x: ChunkCoord| justified(base, center, r as int, x);
            assert(in_ball(center, r as int, p));
            assert(base.has_chunk(c));
            if l.x == 0 && c.x > i16::MIN && self.has_chunk(c.left()) {
                let n = c.left();
                assert(ns[0] == Some(n));
                assert(justifies(base, center, r as int, p, n));
                push_unique(affected, n, Ghost(ok));
            }
            if l.x == CHUNK_SIZE - 1 && c.x < i16::MAX && self.has_chunk(c.right()) {
                let n = c.right();
                assert(ns[1] == Some(n));
                assert(justifies(base, center, r as int, p, n));
                push_unique(affected, n, Ghost(ok));
            }
            if l.z == 0 && c.z > i16::MIN && self.has_chunk(c.front()) {
                let n = c.front();
                assert(ns[2] == Some(n));
                assert(justifies(base, center, r as int, p, n));
                push_unique(affected, n, Ghost(ok));
            }
            if l.z == CHUNK_SIZE - 1 && c.z < i16::MAX && self.has_chunk(c.back()) {
                let n = c.back();
                assert(ns[3] == Some(n));
                assert(justifies(base, center, r as int, p, n));
                push_unique(affected, n, Ghost(ok));
            }
            if l.y == CHUNK_SIZE - 1 && c.y < i16::MAX && self.has_chunk(c.up()) {
                let n = c.up();
                assert(ns[4] == Some(n));
                assert(justifies(base, center, r as int, p, n));
                push_unique(affected, n, Ghost(ok));
            }
            if l.y == 0 && c.y > i16::MIN && self.has_chunk(c.down()) {
                let n = c.down();
                assert(ns[5] == Some(n));
                assert(justifies(base, center, r as int, p, n));
                push_unique(affected, n, Ghost(ok));
            }
            assert(justifies(base, center, r as int, p, c));
            push_unique(affected, c, Ghost(ok));
            assert forall|n: int|
                0 <= n < 6 && on_face(l, n) && #[trigger] base.has_neighbor(ns[n]) implies affected@.contains(
                ns[n]->0,
            ) by {
                assert(self@.has_neighbor(ns[n]) == base.has_neighbor(ns[n]));
            }
            assert(covers(base, affected@, p));
        } else {
            assert(!(p.in_chunk_range() && base.has_chunk(chunk_of(p))));
        }
        assert forall|w: WorldCoord| visited(center, r as int, w, next) implies #[trigger] covers(base, affected@, w) by {
            if w != p {
                assert(covers(base, before_affected, w));
            }
        }
    }

    /// Writes `block` at every voxel of the ball of radius `radius` around
    /// `center` that lies in a loaded chunk, then queues each chunk written,
    /// and each loaded neighbour across a chunk face a written voxel lies on,
    /// once, at the front of the meshing queue.
    pub fn set_voxels_radius(&mut self, center: WorldCoord, radius: u32, block: Voxel)
        requires
            old(self).wf(),
            block.is_registered(),
            radius <= 46340,
        ensures
            final(self).wf(),
            final(self)@.chunks.dom() == old(self)@.chunks.dom(),
            final(self)@.gen_queue == old(self)@.gen_queue,
            final(self)@.loaded == old(self)@.loaded,
            final(self)@.meshed == old(self)@.meshed,
            forall|w: WorldCoord| #[trigger]
                voxel_in(final(self)@.chunks, w) == if in_ball(center, radius as int, w) && voxel_in(
                    old(self)@.chunks,
                    w,
                ) is Some {
                    Some(block)
                } else {
                    voxel_in(old(self)@.chunks, w)
                },
            exists|added: Seq<ChunkCoord>|
                {
                    &&& final(self)@.mesh_queue == added + old(self)@.mesh_queue
                    &&& added.no_duplicates()
                    &&& forall|c: ChunkCoord|
                        added.contains(c) ==> justified(old(self)@, center, radius as int, c)
                    &&& forall|w: WorldCoord| in_ball(center, radius as int, w) ==> #[trigger] covers(old(self)@, added, w)
                },
    {
        let ghost base = self@;
        let r = radius as i64;
        let mut affected: Vec<ChunkCoord> = Vec::new();
        let mut i: i64 = -r;
        while i < r
            invariant
                self.wf(),
                block.is_registered(),
                0 <= r <= 46340,
                r == radius,
                -r <= i <= r,
                self@.chunks.dom() == base.chunks.dom(),
                self@.gen_queue == base.gen_queue,
                self@.mesh_queue == base.mesh_queue,
                self@.loaded == base.loaded,
                self@.meshed == base.meshed,
                forall|w: WorldCoord| #[trigger]
                    voxel_in(self@.chunks, w) == if visited(center, r as int, w, (i as int, -r as int, -r as int))
                        && voxel_in(base.chunks, w) is Some {
                        Some(block)
                    } else {
                        voxel_in(base.chunks, w)
                    },
                forall|w: WorldCoord|
                    visited(center, r as int, w, (i as int, -r as int, -r as int)) ==> #[trigger] covers(
                        base,
                        affected@,
                        w,
                    ),
                affected@.no_duplicates(),
                forall|c: ChunkCoord| affected@.contains(c) ==> justified(base, center, r as int, c),
            decreases r - i,
        {
            let mut j: i64 = -r;
            while j < r
                invariant
                    self.wf(),
                    block.is_registered(),
                    0 <= r <= 46340,
                    -r <= i < r,
                    -r <= j <= r,
                    self@.chunks.dom() == base.chunks.dom(),
                    self@.gen_queue == base.gen_queue,
                    self@.mesh_queue == base.mesh_queue,
                    self@.loaded == base.loaded,
                    self@.meshed == base.meshed,
                    forall|w: WorldCoord| #[trigger]
                        voxel_in(self@.chunks, w) == if visited(center, r as int, w, (i as int, j as int, -r as int))
                            && voxel_in(base.chunks, w) is Some {
                            Some(block)
                        } else {
                            voxel_in(base.chunks, w)
                        },
                    forall|w: WorldCoord|
                        visited(center, r as int, w, (i as int, j as int, -r as int)) ==> #[trigger] covers(
                            base,
                            affected@,
                            w,
                        ),
                    affected@.no_duplicates(),
                    forall|c: ChunkCoord| affected@.contains(c) ==> justified(base, center, r as int, c),
                decreases r - j,
            {
                let mut k: i64 = -r;
                while k < r
                    invariant
                        self.wf(),
                        block.is_registered(),
                        0 <= r <= 46340,
                        -r <= i < r,
                        -r <= j < r,
                        -r <= k <= r,
                        self@.chunks.dom() == base.chunks.dom(),
                        self@.gen_queue == base.gen_queue,
                        self@.mesh_queue == base.mesh_queue,
                        self@.loaded == base.loaded,
                        self@.meshed == base.meshed,
                        forall|w: WorldCoord| #[trigger]
                            voxel_in(self@.chunks, w) == if visited(center, r as int, w, (i as int, j as int, k as int))
                                && voxel_in(base.chunks, w) is Some {
                                Some(block)
                            } else {
                                voxel_in(base.chunks, w)
                            },
                        forall|w: WorldCoord|
                            visited(center, r as int, w, (i as int, j as int, k as int)) ==> #[trigger] covers(
                                base,
                                affected@,
                                w,
                            ),
                        affected@.no_duplicates(),
                        forall|c: ChunkCoord| affected@.contains(c) ==> justified(base, center, r as int, c),
                    decreases r - k,
                {
                    self.radius_visit(center, r, i, j, k, block, &mut affected, Ghost(base));
                    k = k + 1;
                }
                assert forall|w: WorldCoord|
                    #[trigger] visited(center, r as int, w, (i as int, j as int, r as int)) == visited(
                        center,
                        r as int,
                        w,
                        (i as int, j + 1, -r as int),
                    ) by {}
                j = j + 1;
            }
            assert forall|w: WorldCoord|
                #[trigger] visited(center, r as int, w, (i as int, r as int, -r as int)) == visited(
                    center,
                    r as int,
                    w,
                    (i + 1, -r as int, -r as int),
                ) by {}
            i = i + 1;
        }
        assert forall|w: WorldCoord|
            #[trigger] visited(center, r as int, w, (r as int, -r as int, -r as int)) == in_ball(center, r as int, w) by {}
        let ghost added = affected@;
        let ghost start = self.meshgen_queue@;
        let ghost mid = self@;
        let mut n: usize = affected.len();
        while n > 0
            invariant
                self.wf(),
                self@.chunks == mid.chunks,
                self@.gen_queue == mid.gen_queue,
                self@.loaded == mid.loaded,
                self@.meshed == mid.meshed,
                n <= added.len(),
                affected@ == added,
                self.meshgen_queue@ == added.subrange(n as int, added.len() as int) + start,
            decreases n,
        {
            n = n - 1;
            self.meshgen_queue.push_front(affected[n]);
            assert(self.meshgen_queue@ =~= added.subrange(n as int, added.len() as int) + start);
        }
        assert(added.subrange(0, added.len() as int) =~= added);
        assert(self@.mesh_queue == added + base.mesh_queue);
    }

    /// Number of coordinates waiting for generation.
    pub fn chunks_enqueued_count(&self) -> (r: usize)
        ensures
            r == self@.gen_queue.len(),
    {
        self.chunk_gen_queue.len()
    }

    /// Number of coordinates waiting for meshing.
    pub fn meshgen_queue_count(&self) -> (r: usize)
        ensures
            r == self@.mesh_queue.len(),
    {
        self.meshgen_queue.len()
    }
}

} // verus!
