//! The broad phase: a uniform grid from integer cells to the entities
//! located in them.
use vstd::prelude::*;
use crate::entity::EntityId;
use crate::vector::Vector;

verus! {

/// The default edge length of a grid cell, in world units.
pub const DEFAULT_CELL_SIZE: u32 = 200;

/// A cell of the grid: a pair of integer coordinates.
pub type Cell = (i32, i32);

/// The cell that holds position `p`: each coordinate divided by the cell
/// size and rounded down.
pub open spec fn cell_of(p: Vector, cell_size: int) -> (int, int) {
    (p.x as int / cell_size, p.y as int / cell_size)
}

/// The ids stored for cell `c`; empty where the grid has no bucket.
pub open spec fn bucket(m: Map<(int, int), Seq<EntityId>>, c: (int, int)) -> Seq<EntityId> {
    if m.contains_key(c) {
        m[c]
    } else {
        Seq::empty()
    }
}

/// The `i`-th cell of the 3×3 block centred on `c`, row by row.
pub open spec fn neighbor(c: (int, int), i: int) -> (int, int) {
    (c.0 - 1 + i % 3, c.1 - 1 + i / 3)
}

/// The ids of the first `n` cells of the block around `c`, cell by cell.
pub open spec fn block_ids(m: Map<(int, int), Seq<EntityId>>, c: (int, int), n: int) -> Seq<EntityId>
    decreases n,
{
    if n <= 0 {
        Seq::empty()
    } else {
        block_ids(m, c, n - 1) + bucket(m, neighbor(c, n - 1))
    }
}

/// The ids that a query around cell `c` yields.
pub open spec fn query_ids(m: Map<(int, int), Seq<EntityId>>, c: (int, int)) -> Seq<EntityId> {
    block_ids(m, c, 9)
}

/// The grid after `id` is appended to the bucket of cell `c`.
pub open spec fn inserted(m: Map<(int, int), Seq<EntityId>>, c: (int, int), id: EntityId) -> Map<(int, int), Seq<EntityId>> {
    m.insert(c, bucket(m, c).push(id))
}

/// Whether `e` is some id other than `id`.
pub open spec fn other_than(id: EntityId) -> spec_fn(EntityId) -> bool {
    |e: EntityId| e != id
}

/// Whether `predicate` accepts `e`.
pub open spec fn accepted_by<F: Fn(&EntityId) -> bool>(predicate: F) -> spec_fn(EntityId) -> bool {
    |e: EntityId| predicate.ensures((&e,), true)
}

/// Whether `predicate` has been asked about `e`: some answer for it is known.
pub open spec fn examined<F: Fn(&EntityId) -> bool>(predicate: F, e: EntityId) -> bool {
    predicate.ensures((&e,), true) || predicate.ensures((&e,), false)
}

/// Filters that agree on every element of a sequence agree on it.
pub proof fn lemma_filter_agree(s: Seq<EntityId>, p: spec_fn(EntityId) -> bool, q: spec_fn(EntityId) -> bool)
    requires
        forall|t: int| 0 <= t < s.len() ==> p(#[trigger] s[t]) == q(s[t]),
    ensures
        s.filter(p) == s.filter(q),
    decreases s.len(),
{
    reveal(Seq::filter);
    if s.len() > 0 {
        let init = s.drop_last();
        assert forall|t: int| 0 <= t < init.len() implies p(#[trigger] init[t]) == q(init[t]) by {
            assert(init[t] == s[t]);
        }
        lemma_filter_agree(init, p, q);
        assert(p(s[s.len() - 1]) == q(s[s.len() - 1]));
    }
}

/// The grid after every `id` is taken out of the bucket of cell `c`; a
/// bucket that becomes empty stays.
pub open spec fn removed(m: Map<(int, int), Seq<EntityId>>, c: (int, int), id: EntityId) -> Map<(int, int), Seq<EntityId>> {
    if m.contains_key(c) {
        m.insert(c, m[c].filter(other_than(id)))
    } else {
        m
    }
}

/// The grid with each bucket cut down to the ids that satisfy `keep`, and
/// without the buckets that this leaves empty.
pub open spec fn retained(m: Map<(int, int), Seq<EntityId>>, keep: spec_fn(EntityId) -> bool) -> Map<(int, int), Seq<EntityId>> {
    Map::new(|c: (int, int)| m.contains_key(c) && m[c].filter(keep).len() > 0, |c: (int, int)| m[c].filter(keep))
}

/// Filtering a sequence with one more element.
pub proof fn lemma_filter_push(s: Seq<EntityId>, e: EntityId, p: spec_fn(EntityId) -> bool)
    ensures
        s.push(e).filter(p) == (if p(e) { s.filter(p).push(e) } else { s.filter(p) }),
{
    reveal(Seq::filter);
    assert(s.push(e).drop_last() =~= s);
}

/// An element survives a filter exactly when it was there and passes it.
pub proof fn lemma_filter_contains_iff(s: Seq<EntityId>, p: spec_fn(EntityId) -> bool, x: EntityId)
    ensures
        s.filter(p).contains(x) <==> s.contains(x) && p(x),
    decreases s.len(),
{
    reveal(Seq::filter);
    if s.len() > 0 {
        let init = s.drop_last();
        lemma_filter_contains_iff(init, p, x);
        assert(s =~= init.push(s.last()));
        lemma_filter_push(init, s.last(), p);
        if init.contains(x) {
            let j = choose|j: int| 0 <= j < init.len() && init[j] == x;
            assert(s[j] == x);
        }
        if s.contains(x) && x != s.last() {
            let j = choose|j: int| 0 <= j < s.len() && s[j] == x;
            assert(init[j] == x);
        }
        if init.filter(p).contains(x) {
            let j = choose|j: int| 0 <= j < init.filter(p).len() && init.filter(p)[j] == x;
            if p(s.last()) {
                assert(init.filter(p).push(s.last())[j] == x);
            }
        }
        if p(s.last()) {
            assert(init.filter(p).push(s.last())[init.filter(p).len() as int] == s.last());
        }
        if p(s.last()) && s.filter(p).contains(x) && x != s.last() {
            let j = choose|j: int| 0 <= j < s.filter(p).len() && s.filter(p)[j] == x;
            assert(init.filter(p)[j] == x);
        }
    }
}

/// An id occurs in the ids of the first `n` cells of a block exactly when
/// one of those cells holds it.
pub proof fn lemma_block_ids_contains(m: Map<(int, int), Seq<EntityId>>, c: (int, int), n: int, id: EntityId)
    requires
        0 <= n,
    ensures
        block_ids(m, c, n).contains(id) <==> exists|i: int| 0 <= i < n && #[trigger] bucket(m, neighbor(c, i)).contains(id),
    decreases n,
{
    if n > 0 {
        lemma_block_ids_contains(m, c, n - 1, id);
        let a = block_ids(m, c, n - 1);
        let b = bucket(m, neighbor(c, n - 1));
        if (a + b).contains(id) {
            let j = choose|j: int| 0 <= j < (a + b).len() && (a + b)[j] == id;
            if j < a.len() {
                assert(a[j] == id);
            } else {
                assert(b[j - a.len()] == id);
            }
        }
        if a.contains(id) {
            let j = choose|j: int| 0 <= j < a.len() && a[j] == id;
            assert((a + b)[j] == id);
        }
        if b.contains(id) {
            let j = choose|j: int| 0 <= j < b.len() && b[j] == id;
            assert((a + b)[a.len() + j] == id);
        }
    }
}

/// The grid after an entity moves from cell `from` to cell `to`: nothing
/// changes when they are the same cell.
pub open spec fn updated(m: Map<(int, int), Seq<EntityId>>, from: (int, int), to: (int, int), id: EntityId) -> Map<(int, int), Seq<EntityId>> {
    if from == to {
        m
    } else {
        inserted(removed(m, from, id), to, id)
    }
}

/// The key under which the bucket of cell `c` is stored.
pub open spec fn cell_key(c: (int, int)) -> int {
    c.0 * 0x1_0000_0000 + (c.1 + 0x8000_0000)
}

/// The cell whose bucket is stored under key `k`.
pub open spec fn key_cell(k: int) -> (int, int) {
    (k / 0x1_0000_0000, k % 0x1_0000_0000 - 0x8000_0000)
}

/// Whether both coordinates of `c` fit in an `i32`.
pub open spec fn cell_in_range(c: (int, int)) -> bool {
    i32::MIN <= c.0 <= i32::MAX && i32::MIN <= c.1 <= i32::MAX
}

/// The key of an in-range cell fits in an `i64` and gives the cell back.
proof fn lemma_cell_key(c: (int, int))
    requires
        cell_in_range(c),
    ensures
        i64::MIN <= cell_key(c) <= i64::MAX,
        key_cell(cell_key(c)) == c,
{
    let k = cell_key(c);
    vstd::arithmetic::div_mod::lemma_fundamental_div_mod_converse(k, 0x1_0000_0000, c.0, c.1 + 0x8000_0000);
}

/// Distinct in-range cells have distinct keys.
proof fn lemma_keys_distinct(c1: (int, int), c2: (int, int))
    requires
        cell_in_range(c1),
        cell_in_range(c2),
        c1 != c2,
    ensures
        cell_key(c1) != cell_key(c2),
{
    lemma_cell_key(c1);
    lemma_cell_key(c2);
}

/// The buckets of a grid by cell key, held in bevy's hash map.
#[verifier::external_body]
#[derive(Debug)]
pub struct CellMap {
    map: bevy::utils::HashMap<i64, Vec<EntityId>>,
}

/// What a `CellMap` holds: the ids stored under each key.
pub uninterp spec fn cell_map_contents(m: CellMap) -> Map<i64, Seq<EntityId>>;

impl View for CellMap {
    type V = Map<i64, Seq<EntityId>>;

    open spec fn view(&self) -> Map<i64, Seq<EntityId>> {
        cell_map_contents(*self)
    }
}

/// Relies on bevy's `HashMap::default` (hashbrown's `HashMap`): a new map
/// is empty.
#[verifier::external_body]
fn cell_map_new() -> (r: CellMap)
    ensures
        cell_map_contents(r).dom().len() == 0,
        cell_map_contents(r).dom().finite(),
{
    CellMap { map: bevy::utils::HashMap::default() }
}

/// Relies on hashbrown's `HashMap::insert`: afterwards `k` maps to `v`, and
/// every other key is as it was.
#[verifier::external_body]
fn cell_map_insert(m: &mut CellMap, k: i64, v: Vec<EntityId>)
    ensures
        cell_map_contents(*final(m)) == cell_map_contents(*old(m)).insert(k, v@),
{
    m.map.insert(k, v);
}

/// Relies on hashbrown's `HashMap::remove`: it takes out and returns the
/// value of `k`, if there is one, and leaves every other key as it was.
#[verifier::external_body]
fn cell_map_remove(m: &mut CellMap, k: i64) -> (r: Option<Vec<EntityId>>)
    ensures
        cell_map_contents(*final(m)) == cell_map_contents(*old(m)).remove(k),
        match r {
            Some(v) => cell_map_contents(*old(m)).contains_key(k) && v@ == cell_map_contents(*old(m))[k],
            None => !cell_map_contents(*old(m)).contains_key(k),
        },
{
    m.map.remove(&k)
}

/// Relies on hashbrown's `HashMap::get`: the value of `k`, if there is one.
#[verifier::external_body]
fn cell_map_get(m: &CellMap, k: i64) -> (r: Option<&Vec<EntityId>>)
    ensures
        match r {
            Some(v) => cell_map_contents(*m).contains_key(k) && v@ == cell_map_contents(*m)[k],
            None => !cell_map_contents(*m).contains_key(k),
        },
{
    m.map.get(&k)
}

/// A uniform grid of square cells, each mapped to the ids of the entities
/// located in it.
#[derive(Debug)]
pub struct SpacialGrid {
    grid: CellMap,
    keys: Vec<i64>,
    cell_size: u32,
}

impl View for SpacialGrid {
    type V = Map<(int, int), Seq<EntityId>>;

    /// The bucket of each cell that has one.
    closed spec fn view(&self) -> Map<(int, int), Seq<EntityId>> {
        Map::new(
            |c: (int, int)| cell_in_range(c) && self.grid@.contains_key(cell_key(c) as i64),
            |c: (int, int)| self.grid@[cell_key(c) as i64],
        )
    }
}

impl Default for SpacialGrid {
    /// An empty grid with cells of the default size.
    fn default() -> (r: SpacialGrid)
        ensures
            r.wf(),
            r@ == Map::<(int, int), Seq<EntityId>>::empty(),
            r.spec_cell_size() == DEFAULT_CELL_SIZE,
    {
        SpacialGrid::new(DEFAULT_CELL_SIZE)
    }
}

impl SpacialGrid {
    /// The edge length of a cell.
    pub closed spec fn spec_cell_size(&self) -> int {
        self.cell_size as int
    }

    /// The stored keys are listed once each, and the cell size is positive.
    pub closed spec fn wf(&self) -> bool {
        &&& self.cell_size > 0
        &&& self.keys@.no_duplicates()
        &&& forall|i: int| 0 <= i < self.keys@.len() ==> self.grid@.contains_key(#[trigger] self.keys@[i])
        &&& forall|k: i64| self.grid@.contains_key(k) ==> self.keys@.contains(k)
    }

    /// An empty grid with cells `cell_size` wide.
    pub fn new(cell_size: u32) -> (r: SpacialGrid)
        requires
            cell_size > 0,
        ensures
            r.wf(),
            r@ == Map::<(int, int), Seq<EntityId>>::empty(),
            r.spec_cell_size() == cell_size,
    {
        let r = SpacialGrid { grid: cell_map_new(), keys: Vec::new(), cell_size };
        assert(r@ =~= Map::<(int, int), Seq<EntityId>>::empty());
        r
    }

    /// The cell that holds `position`.
    pub fn cell(&self, position: Vector) -> (r: Cell)
        requires
            self.wf(),
        ensures
            r.0 == cell_of(position, self.spec_cell_size()).0,
            r.1 == cell_of(position, self.spec_cell_size()).1,
    {
        (floor_div(position.x, self.cell_size), floor_div(position.y, self.cell_size))
    }

    /// Appends `entity` to the bucket of cell `c`.
    fn insert_in_cell(&mut self, entity: EntityId, c: Cell)
        requires
            old(self).wf(),
        ensures
            final(self).wf(),
            final(self).spec_cell_size() == old(self).spec_cell_size(),
            final(self)@ == inserted(old(self)@, (c.0 as int, c.1 as int), entity),
    {
        let k = cell_key_exec(c);
        let ghost cc = (c.0 as int, c.1 as int);
        let ghost old_grid = self.grid@;
        match cell_map_remove(&mut self.grid, k) {
            Some(v) => {
                let mut v = v;
                v.push(entity);
                cell_map_insert(&mut self.grid, k, v);
            },
            None => {
                let mut v: Vec<EntityId> = Vec::new();
                v.push(entity);
                cell_map_insert(&mut self.grid, k, v);
                self.keys.push(k);
            },
        }
        proof {
            assert forall|kk: i64| self.grid@.contains_key(kk) implies self.keys@.contains(kk) by {
                if kk == k && !old_grid.contains_key(k) {
                    assert(self.keys@[self.keys@.len() - 1] == k);
                } else {
                    assert(old(self).keys@.contains(kk));
                    let j = choose|j: int| 0 <= j < old(self).keys@.len() && old(self).keys@[j] == kk;
                    assert(self.keys@[j] == kk);
                }
            }
            assert forall|d: (int, int)| cell_in_range(d) && d != cc implies cell_key(d) != cell_key(cc) by {
                lemma_keys_distinct(d, cc);
            }
            assert(self@ =~= inserted(old(self)@, cc, entity));
        }
    }

    /// Appends `entity` to the bucket of the cell that holds `position`.
    pub fn insert(&mut self, entity: EntityId, position: Vector)
        requires
            old(self).wf(),
        ensures
            final(self).wf(),
            final(self).spec_cell_size() == old(self).spec_cell_size(),
            final(self)@ == inserted(old(self)@, cell_of(position, old(self).spec_cell_size()), entity),
    {
        let c = self.cell(position);
        self.insert_in_cell(entity, c);
    }

    /// Takes `entity` out of the bucket of cell `c`.
    fn remove_from_cell(&mut self, entity: EntityId, c: Cell)
        requires
            old(self).wf(),
        ensures
            final(self).wf(),
            final(self).spec_cell_size() == old(self).spec_cell_size(),
            final(self)@ == removed(old(self)@, (c.0 as int, c.1 as int), entity),
    {
        let k = cell_key_exec(c);
        let ghost cc = (c.0 as int, c.1 as int);
        match cell_map_remove(&mut self.grid, k) {
            Some(v) => {
                let rest = without(&v, entity);
                cell_map_insert(&mut self.grid, k, rest);
            },
            None => {},
        }
        proof {
            assert forall|d: (int, int)| cell_in_range(d) && d != cc implies cell_key(d) != cell_key(cc) by {
                lemma_keys_distinct(d, cc);
            }
            assert(self@ =~= removed(old(self)@, cc, entity));
        }
    }

    /// Takes `entity` out of the bucket of the cell that holds `position`.
    pub fn remove(&mut self, entity: EntityId, position: Vector)
        requires
            old(self).wf(),
        ensures
            final(self).wf(),
            final(self).spec_cell_size() == old(self).spec_cell_size(),
            final(self)@ == removed(old(self)@, cell_of(position, old(self).spec_cell_size()), entity),
    {
        let c = self.cell(position);
        self.remove_from_cell(entity, c);
    }

    /// Keeps in each bucket only the ids that `predicate` accepts, and drops
    /// the buckets that this leaves empty.
    pub fn retain<F: Fn(&EntityId) -> bool>(&mut self, predicate: F)
        requires
            old(self).wf(),
            forall|e: &EntityId| predicate.requires((e,)),
            forall|e: &EntityId, a: bool, b: bool| predicate.ensures((e,), a) && predicate.ensures((e,), b) ==> a == b,
        ensures
            final(self).wf(),
            final(self).spec_cell_size() == old(self).spec_cell_size(),
            final(self)@ == retained(old(self)@, accepted_by(predicate)),
            forall|c: (int, int), t: int| old(self)@.contains_key(c) && 0 <= t < old(self)@[c].len()
                ==> examined(predicate, #[trigger] old(self)@[c][t]),
    {
        let ghost old_grid = self.grid@;
        let ghost p = accepted_by(predicate);
        let mut kept_keys: Vec<i64> = Vec::new();
        let n = self.keys.len();
        let mut i: usize = 0;
        while i < n
            invariant
                i <= n,
                n == self.keys@.len(),
                self.keys@ == old(self).keys@,
                self.cell_size == old(self).cell_size,
                self.cell_size > 0,
                old_grid == old(self).grid@,
                p == accepted_by(predicate),
                forall|e: &EntityId| predicate.requires((e,)),
                forall|e: &EntityId, a: bool, b: bool| predicate.ensures((e,), a) && predicate.ensures((e,), b) ==> a == b,
                self.keys@.no_duplicates(),
                forall|j: int| 0 <= j < n ==> old_grid.contains_key(#[trigger] self.keys@[j]),
                forall|kk: i64| old_grid.contains_key(kk) ==> self.keys@.contains(kk),
                forall|kk: i64| #[trigger] self.grid@.contains_key(kk) ==> old_grid.contains_key(kk),
                forall|j: int| i <= j < n ==> self.grid@.contains_key(#[trigger] self.keys@[j])
                    && self.grid@[self.keys@[j]] == old_grid[self.keys@[j]],
                forall|j: int| 0 <= j < i ==> {
                    &&& self.grid@.contains_key(#[trigger] self.keys@[j]) == (old_grid[self.keys@[j]].filter(p).len() > 0)
                    &&& self.grid@.contains_key(self.keys@[j]) ==> self.grid@[self.keys@[j]] == old_grid[self.keys@[j]].filter(p)
                    &&& self.grid@.contains_key(self.keys@[j]) ==> kept_keys@.contains(self.keys@[j])
                },
                kept_keys@.no_duplicates(),
                forall|j: int, t: int| 0 <= j < i && 0 <= t < old_grid[self.keys@[j]].len()
                    ==> examined(predicate, #[trigger] old_grid[#[trigger] self.keys@[j]][t]),
                forall|t: int| 0 <= t < kept_keys@.len() ==> self.grid@.contains_key(#[trigger] kept_keys@[t]),
                forall|t: int, j: int| 0 <= t < kept_keys@.len() && i <= j < n ==> #[trigger] kept_keys@[t] != #[trigger] self.keys@[j],
            decreases n - i,
        {
            let k = self.keys[i];
            let ghost kept_before = kept_keys@;
            match cell_map_remove(&mut self.grid, k) {
                Some(v) => {
                    let f = kept_by(&v, &predicate);
                    if f.len() > 0 {
                        cell_map_insert(&mut self.grid, k, f);
                        kept_keys.push(k);
                    }
                },
                None => {},
            }
            proof {
                assert forall|t: int| 0 <= t < kept_before.len() implies kept_keys@[t] == kept_before[t] by {}
                assert forall|j: int| 0 <= j < i implies kept_keys@.contains(#[trigger] self.keys@[j])
                    || !self.grid@.contains_key(self.keys@[j]) by {
                    if kept_before.contains(self.keys@[j]) {
                        let t = choose|t: int| 0 <= t < kept_before.len() && #[trigger] kept_before[t] == self.keys@[j];
                        assert(kept_keys@[t] == self.keys@[j]);
                    }
                }
                if kept_keys@.len() > kept_before.len() {
                    assert(kept_keys@[kept_keys@.len() - 1] == k);
                }
            }
            i = i + 1;
        }
        self.keys = kept_keys;
        proof {
            assert forall|kk: i64| self.grid@.contains_key(kk) implies self.keys@.contains(kk) by {
                assert(old(self).keys@.contains(kk));
                let j = choose|j: int| 0 <= j < n && #[trigger] old(self).keys@[j] == kk;
            }
            assert forall|c: (int, int)| #![auto] self@.contains_key(c) == retained(old(self)@, p).contains_key(c) && (self@.contains_key(c) ==> self@[c] == retained(old(self)@, p)[c]) by {
                if cell_in_range(c) {
                    let kk = cell_key(c) as i64;
                    if old_grid.contains_key(kk) {
                        assert(old(self).keys@.contains(kk));
                        let j = choose|j: int| 0 <= j < n && #[trigger] old(self).keys@[j] == kk;
                    }
                }
            }
            assert(self@ =~= retained(old(self)@, p));
            assert forall|c: (int, int), t: int| old(self)@.contains_key(c) && 0 <= t < old(self)@[c].len()
                implies examined(predicate, #[trigger] old(self)@[c][t]) by {
                let kk = cell_key(c) as i64;
                assert(old(self).keys@.contains(kk));
                let j = choose|j: int| 0 <= j < n && #[trigger] old(self).keys@[j] == kk;
                assert(old_grid[old(self).keys@[j]][t] == old(self)@[c][t]);
            }
        }
    }

    /// The ids in the 3×3 block of cells centred on the cell that holds
    /// `position`: the block's cells row by row, each bucket in order. An id
    /// comes once for each bucket of the block that holds it.
    pub fn query(&self, position: Vector) -> (r: Vec<EntityId>)
        requires
            self.wf(),
        ensures
            r@ == query_ids(self@, cell_of(position, self.spec_cell_size())),
    {
        let c = self.cell(position);
        let ghost cc = (c.0 as int, c.1 as int);
        let mut out: Vec<EntityId> = Vec::new();
        let mut i: u32 = 0;
        while i < 9
            invariant
                i <= 9,
                self.wf(),
                cc == (c.0 as int, c.1 as int),
                out@ == block_ids(self@, cc, i as int),
            decreases 9 - i,
        {
            let x: i64 = (c.0 as i64) - 1 + ((i % 3) as i64);
            let y: i64 = (c.1 as i64) - 1 + ((i / 3) as i64);
            let ghost d = neighbor(cc, i as int);
            assert(d.0 == x as int);
            assert(d.1 == y as int);
            if i32::MIN as i64 <= x && x <= i32::MAX as i64 && i32::MIN as i64 <= y && y <= i32::MAX as i64 {
                let k = cell_key_exec((x as i32, y as i32));
                match cell_map_get(&self.grid, k) {
                    Some(b) => {
                        let ghost start = out@;
                        let mut j: usize = 0;
                        while j < b.len()
                            invariant
                                j <= b.len(),
                                out@ == start + b@.take(j as int),
                            decreases b.len() - j,
                        {
                            out.push(b[j]);
                            j = j + 1;
                            assert(start + b@.take(j as int) =~= (start + b@.take(j - 1)).push(b@[j - 1]));
                        }
                        assert(b@.take(b.len() as int) =~= b@);
                        assert(bucket(self@, d) == b@);
                    },
                    None => {
                        assert(!self@.contains_key(d));
                        assert(out@ + bucket(self@, d) =~= out@);
                    },
                }
            } else {
                assert(!self@.contains_key(d));
                assert(out@ + bucket(self@, d) =~= out@);
            }
            i = i + 1;
        }
        out
    }

    /// Moves `entity` from the cell of `old_position` to the cell of
    /// `new_position`; nothing changes when the two cells are the same.
    pub fn update(&mut self, entity: EntityId, old_position: Vector, new_position: Vector)
        requires
            old(self).wf(),
        ensures
            final(self).wf(),
            final(self).spec_cell_size() == old(self).spec_cell_size(),
            final(self)@ == updated(
                old(self)@,
                cell_of(old_position, old(self).spec_cell_size()),
                cell_of(new_position, old(self).spec_cell_size()),
                entity,
            ),
    {
        let from = self.cell(old_position);
        let to = self.cell(new_position);
        if from.0 == to.0 && from.1 == to.1 {
            return;
        }
        self.remove_from_cell(entity, from);
        self.insert_in_cell(entity, to);
    }
}

/// The key of an in-range cell.
fn cell_key_exec(c: Cell) -> (k: i64)
    ensures
        k == cell_key((c.0 as int, c.1 as int)),
{
    proof {
        lemma_cell_key((c.0 as int, c.1 as int));
    }
    (c.0 as i64) * 0x1_0000_0000 + ((c.1 as i64) + 0x8000_0000)
}

/// The ids of `v` other than `id`, in order.
fn without(v: &Vec<EntityId>, id: EntityId) -> (r: Vec<EntityId>)
    ensures
        r@ == v@.filter(other_than(id)),
{
    let ghost p = other_than(id);
    let mut r: Vec<EntityId> = Vec::new();
    let mut i: usize = 0;
    while i < v.len()
        invariant
            i <= v.len(),
            p == other_than(id),
            r@ == v@.take(i as int).filter(p),
        decreases v.len() - i,
    {
        proof {
            lemma_filter_push(v@.take(i as int), v@[i as int], p);
            assert(v@.take(i as int + 1) =~= v@.take(i as int).push(v@[i as int]));
        }
        let e = v[i];
        if e != id {
            r.push(e);
        }
        i = i + 1;
    }
    assert(v@.take(v.len() as int) =~= v@);
    r
}

/// The ids of `v` that `predicate` accepts, in order.
fn kept_by<F: Fn(&EntityId) -> bool>(v: &Vec<EntityId>, predicate: &F) -> (r: Vec<EntityId>)
    requires
        forall|e: &EntityId| predicate.requires((e,)),
        forall|e: &EntityId, a: bool, b: bool| predicate.ensures((e,), a) && predicate.ensures((e,), b) ==> a == b,
    ensures
        r@ == v@.filter(accepted_by(*predicate)),
        forall|t: int| 0 <= t < v@.len() ==> examined(*predicate, #[trigger] v@[t]),
{
    let ghost p = accepted_by(*predicate);
    let mut r: Vec<EntityId> = Vec::new();
    let mut i: usize = 0;
    while i < v.len()
        invariant
            i <= v.len(),
            p == accepted_by(*predicate),
            r@ == v@.take(i as int).filter(p),
            forall|t: int| 0 <= t < i ==> examined(*predicate, #[trigger] v@[t]),
            forall|e: &EntityId| predicate.requires((e,)),
            forall|e: &EntityId, a: bool, b: bool| predicate.ensures((e,), a) && predicate.ensures((e,), b) ==> a == b,
        decreases v.len() - i,
    {
        proof {
            lemma_filter_push(v@.take(i as int), v@[i as int], p);
            assert(v@.take(i as int + 1) =~= v@.take(i as int).push(v@[i as int]));
        }
        let e = v[i];
        if predicate(&e) {
            r.push(e);
        }
        i = i + 1;
    }
    assert(v@.take(v.len() as int) =~= v@);
    r
}

/// `a / size`, rounded down.
fn floor_div(a: i32, size: u32) -> (r: i32)
    requires
        size > 0,
    ensures
        r == a as int / size as int,
{
    if a >= 0 {
        ((a as u32) / size) as i32
    } else {
        let n: u64 = (-(a as i64) - 1) as u64;
        let q: u64 = n / (size as u64);
        proof {
            vstd::arithmetic::div_mod::lemma_fundamental_div_mod(n as int, size as int);
            vstd::arithmetic::div_mod::lemma_mod_pos_bound(n as int, size as int);
            vstd::arithmetic::div_mod::lemma_div_is_ordered_by_denominator(n as int, 1, size as int);
            let r = (n as int) % (size as int);
            assert(a as int == (-(q as int) - 1) * size + (size - 1 - r)) by (nonlinear_arith)
                requires
                    n == size * q + r,
                    n == -a - 1,
            ;
            vstd::arithmetic::div_mod::lemma_fundamental_div_mod_converse(
                a as int,
                size as int,
                -(q as int) - 1,
                size - 1 - (n as int) % (size as int),
            );
        }
        (-(q as i64) - 1) as i32
    }
}

/// A well-formed grid has cells of positive size, so `cell_of` rounds each
/// coordinate down to a multiple of that size.
pub proof fn lemma_wf_cell_size_positive(grid: SpacialGrid)
    requires
        grid.wf(),
    ensures
        grid.spec_cell_size() > 0,
{
}

/// Moving an entity between two positions of the same cell leaves the grid
/// as it was.
pub proof fn lemma_update_within_cell_changes_nothing(grid: SpacialGrid, entity: EntityId, a: Vector, b: Vector)
    requires
        grid.wf(),
        cell_of(a, grid.spec_cell_size()) == cell_of(b, grid.spec_cell_size()),
    ensures
        updated(grid@, cell_of(a, grid.spec_cell_size()), cell_of(b, grid.spec_cell_size()), entity) == grid@,
{
}

/// Placing an entity that no bucket holds leaves it in exactly one bucket:
/// that of the cell where it was placed.
pub proof fn lemma_insert_places_in_one_cell(m: Map<(int, int), Seq<EntityId>>, c: (int, int), entity: EntityId)
    requires
        forall|d: (int, int)| !#[trigger] bucket(m, d).contains(entity),
    ensures
        bucket(inserted(m, c, entity), c).contains(entity),
        forall|d: (int, int)| d != c ==> !#[trigger] bucket(inserted(m, c, entity), d).contains(entity),
{
    let b = bucket(m, c).push(entity);
    assert(b[b.len() - 1] == entity);
    assert forall|d: (int, int)| d != c implies !#[trigger] bucket(inserted(m, c, entity), d).contains(entity) by {
        assert(bucket(inserted(m, c, entity), d) == bucket(m, d));
    }
}

/// Moving an entity that only the bucket of cell `from` holds leaves it in
/// the bucket of cell `to` and in no other.
pub proof fn lemma_update_keeps_one_cell(m: Map<(int, int), Seq<EntityId>>, from: (int, int), to: (int, int), entity: EntityId)
    requires
        bucket(m, from).contains(entity),
        forall|d: (int, int)| d != from ==> !#[trigger] bucket(m, d).contains(entity),
    ensures
        bucket(updated(m, from, to, entity), to).contains(entity),
        forall|d: (int, int)| d != to ==> !#[trigger] bucket(updated(m, from, to, entity), d).contains(entity),
{
    if from != to {
        let r = removed(m, from, entity);
        assert(m.contains_key(from));
        lemma_filter_contains_iff(m[from], other_than(entity), entity);
        assert forall|d: (int, int)| !#[trigger] bucket(r, d).contains(entity) by {
            if d != from {
                assert(bucket(r, d) == bucket(m, d));
            }
        }
        lemma_insert_places_in_one_cell(r, to, entity);
    }
}

/// Once an entity is removed at the position where it was inserted, no
/// query yields it any more, provided that no other bucket held it.
pub proof fn lemma_removed_never_queried(grid: SpacialGrid, entity: EntityId, position: Vector, probe: Vector)
    requires
        grid.wf(),
        forall|d: (int, int)| d != cell_of(position, grid.spec_cell_size()) ==> !#[trigger] bucket(grid@, d).contains(entity),
    ensures
        !query_ids(removed(grid@, cell_of(position, grid.spec_cell_size()), entity), cell_of(probe, grid.spec_cell_size())).contains(entity),
{
    let c = cell_of(position, grid.spec_cell_size());
    let q = cell_of(probe, grid.spec_cell_size());
    let m = removed(grid@, c, entity);
    lemma_block_ids_contains(m, q, 9, entity);
    assert forall|i: int| 0 <= i < 9 implies !#[trigger] bucket(m, neighbor(q, i)).contains(entity) by {
        let d = neighbor(q, i);
        if d == c && grid@.contains_key(c) {
            lemma_filter_contains_iff(grid@[c], other_than(entity), entity);
        } else {
            assert(bucket(m, d) == bucket(grid@, d));
        }
    }
}

/// `retain` takes an id that fails the predicate out of every bucket,
/// leaves an id that passes it in exactly the buckets that held it, and so
/// keeps an id that was in at most one bucket in at most one bucket.
pub proof fn lemma_retain_membership<F: Fn(&EntityId) -> bool>(grid: SpacialGrid, predicate: F, entity: EntityId)
    ensures
        !accepted_by(predicate)(entity) ==> forall|c: (int, int)|
            !#[trigger] bucket(retained(grid@, accepted_by(predicate)), c).contains(entity),
        accepted_by(predicate)(entity) ==> forall|c: (int, int)|
            #[trigger] bucket(retained(grid@, accepted_by(predicate)), c).contains(entity) == bucket(grid@, c).contains(entity),
        (forall|c1: (int, int), c2: (int, int)|
            #[trigger] bucket(grid@, c1).contains(entity) && #[trigger] bucket(grid@, c2).contains(entity) ==> c1 == c2)
        ==> (forall|c1: (int, int), c2: (int, int)|
            #[trigger] bucket(retained(grid@, accepted_by(predicate)), c1).contains(entity)
            && #[trigger] bucket(retained(grid@, accepted_by(predicate)), c2).contains(entity) ==> c1 == c2),
{
    let keep = accepted_by(predicate);
    let m = grid@;
    let r = retained(m, keep);
    assert forall|c: (int, int)| #[trigger] bucket(r, c).contains(entity) <==> bucket(m, c).contains(entity) && keep(entity) by {
        if m.contains_key(c) {
            lemma_filter_contains_iff(m[c], keep, entity);
            if m[c].filter(keep).len() == 0 {
                assert(!m[c].filter(keep).contains(entity));
            }
        }
    }
}

} // verus!
