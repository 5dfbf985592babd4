use vstd::prelude::*;

use crate::assoc::{assoc_index_of, lemma_assoc_index_of};
use crate::constants::{spec_amount_add, amount_add, MAX_CONTAMINATION};

verus! {

/// What a map tile is used for.
#[derive(Clone, Copy, PartialEq, Eq, Structural, Debug)]
pub enum TileType {
    Empty,
    Compost,
    Extraction,
    Production,
    Resource,
    Special,
    Aesthetic,
    Antenna,
}

/// One tile of the colony map.
#[derive(Clone, Debug)]
pub struct Tile {
    pub name: String,
    pub tile_type: TileType,
    pub x: i32,
    pub y: i32,
    /// Fixed-point contamination in [0, MAX_CONTAMINATION], for compost tiles.
    pub contamination: Option<i64>,
    /// Whether the tile is currently blighted.
    pub blighted: Option<bool>,
    /// Ticks of blight remaining.
    pub blight_ticks_remaining: Option<u64>,
    /// Resource name, for resource tiles.
    pub resource: Option<String>,
    pub description: Option<String>,
}

/// Mathematical image of `Tile`.
pub struct TileM {
    pub name: Seq<char>,
    pub tile_type: TileType,
    pub x: i32,
    pub y: i32,
    pub contamination: Option<i64>,
    pub blighted: Option<bool>,
    pub blight_ticks_remaining: Option<u64>,
    pub resource: Option<Seq<char>>,
    pub description: Option<Seq<char>>,
}

impl DeepView for Tile {
    type V = TileM;

    open spec fn deep_view(&self) -> TileM {
        TileM {
            name: self.name@,
            tile_type: self.tile_type,
            x: self.x,
            y: self.y,
            contamination: self.contamination,
            blighted: self.blighted,
            blight_ticks_remaining: self.blight_ticks_remaining,
            resource: self.resource.deep_view(),
            description: self.description.deep_view(),
        }
    }
}

impl TileM {
    /// A tile with an absent blight flag is not blighted.
    pub open spec fn is_blighted(self) -> bool {
        self.blighted == Some(true)
    }

    /// Contamination of a tile; absent contamination reads as zero.
    pub open spec fn contamination_or_zero(self) -> i64 {
        match self.contamination {
            Some(c) => c,
            None => 0,
        }
    }
}

/// Contamination after one processed corpse: raised by `amount` and clamped
/// at the ceiling.
pub open spec fn spec_raised_contamination(current: i64, amount: i64) -> i64 {
    let raw = spec_amount_add(current, amount);
    if raw > MAX_CONTAMINATION {
        MAX_CONTAMINATION
    } else {
        raw
    }
}

/// Tile state after one tick of active blight: the counter runs down, and on
/// reaching zero the blight clears and contamination resets.
pub open spec fn spec_tick_blight(t: TileM) -> (TileM, bool) {
    if !t.is_blighted() {
        (t, false)
    } else {
        let remaining = match t.blight_ticks_remaining {
            Some(r) => r,
            None => 0,
        };
        if remaining <= 1 {
            (
                TileM {
                    blighted: Some(false),
                    blight_ticks_remaining: Some(0),
                    contamination: Some(0),
                    ..t
                },
                true,
            )
        } else {
            (TileM { blight_ticks_remaining: Some((remaining - 1) as u64), ..t }, false)
        }
    }
}

impl Tile {
    /// Create a bare tile with no compost bookkeeping.
    pub fn new_empty(name: String, x: i32, y: i32) -> (t: Tile)
        ensures
            t.deep_view() == (TileM {
                name: name@,
                tile_type: TileType::Empty,
                x: x,
                y: y,
                contamination: None,
                blighted: None,
                blight_ticks_remaining: None,
                resource: None,
                description: None,
            }),
    {
        Tile {
            name,
            tile_type: TileType::Empty,
            x,
            y,
            contamination: None,
            blighted: None,
            blight_ticks_remaining: None,
            resource: None,
            description: None,
        }
    }

    /// The tile every map starts from.
    pub fn origin() -> (t: Tile)
        ensures
            t.deep_view().name == "The Starting Dirt"@,
            t.deep_view().tile_type == TileType::Empty,
            t.deep_view().x == 0 && t.deep_view().y == 0,
            t.deep_view().contamination is None,
            t.deep_view().blighted is None,
            t.deep_view().blight_ticks_remaining is None,
            t.deep_view().resource is None,
            t.deep_view().description is None,
    {
        Tile::new_empty("The Starting Dirt".to_owned(), 0, 0)
    }

    /// Create a compost tile with clean bookkeeping.
    pub fn new_compost(name: String, x: i32, y: i32) -> (t: Tile)
        ensures
            t.deep_view() == (TileM {
                name: name@,
                tile_type: TileType::Compost,
                x: x,
                y: y,
                contamination: Some(0),
                blighted: Some(false),
                blight_ticks_remaining: Some(0),
                resource: None,
                description: None,
            }),
    {
        Tile {
            name,
            tile_type: TileType::Compost,
            x,
            y,
            contamination: Some(0),
            blighted: Some(false),
            blight_ticks_remaining: Some(0),
            resource: None,
            description: None,
        }
    }

    /// Whether the tile is currently blighted.
    pub fn is_blighted(&self) -> (r: bool)
        ensures
            r == self.deep_view().is_blighted(),
    {
        match self.blighted {
            Some(b) => b,
            None => false,
        }
    }

    /// Raise contamination by `amount`, clamping at the ceiling.
    pub fn add_contamination(&mut self, amount: i64)
        ensures
            final(self).deep_view() == (TileM {
                contamination: Some(
                    spec_raised_contamination(
                        old(self).deep_view().contamination_or_zero(),
                        amount,
                    ),
                ),
                ..old(self).deep_view()
            }),
    {
        let current = match self.contamination {
            Some(c) => c,
            None => 0,
        };
        let raw = amount_add(current, amount);
        let capped = if raw > MAX_CONTAMINATION {
            MAX_CONTAMINATION
        } else {
            raw
        };
        self.contamination = Some(capped);
    }

    /// Enter the blighted state for `duration_ticks` ticks.
    pub fn start_blight(&mut self, duration_ticks: u64)
        ensures
            final(self).deep_view() == (TileM {
                blighted: Some(true),
                blight_ticks_remaining: Some(duration_ticks),
                ..old(self).deep_view()
            }),
    {
        self.blighted = Some(true);
        self.blight_ticks_remaining = Some(duration_ticks);
    }

    /// Run one tick of blight; the result reports whether the blight just
    /// cleared.
    pub fn tick_blight(&mut self) -> (cleared: bool)
        ensures
            (final(self).deep_view(), cleared) == spec_tick_blight(old(self).deep_view()),
    {
        if !self.is_blighted() {
            return false;
        }
        let remaining = match self.blight_ticks_remaining {
            Some(r) => r,
            None => 0,
        };
        if remaining <= 1 {
            self.blighted = Some(false);
            self.blight_ticks_remaining = Some(0);
            self.contamination = Some(0);
            true
        } else {
            self.blight_ticks_remaining = Some(remaining - 1);
            false
        }
    }
}

/// Mathematical image of `GameMap`.
pub struct MapM {
    pub tiles: Seq<(Seq<char>, TileM)>,
    pub connections: Seq<(Seq<char>, Seq<char>)>,
}

/// Two tile identifiers are connected when either orientation of the pair is
/// listed.
pub open spec fn spec_connected(
    conns: Seq<(Seq<char>, Seq<char>)>,
    a: Seq<char>,
    b: Seq<char>,
) -> bool {
    exists|i: int|
        0 <= i < conns.len() && ((#[trigger] conns[i]).0 == a && conns[i].1 == b || conns[i].0 == b
            && conns[i].1 == a)
}

/// The colony map: tiles keyed by identifier, in insertion order, plus an
/// undirected connection list.
#[derive(Clone, Debug)]
pub struct GameMap {
    pub tiles: Vec<(String, Tile)>,
    pub connections: Vec<(String, String)>,
}

impl DeepView for GameMap {
    type V = MapM;

    open spec fn deep_view(&self) -> MapM {
        MapM { tiles: self.tiles.deep_view(), connections: self.connections.deep_view() }
    }
}

impl GameMap {
    /// A map holding only the origin tile.
    pub fn new() -> (m: GameMap)
        ensures
            m.deep_view().tiles.len() == 1,
            m.deep_view().tiles[0].0 == "origin"@,
            m.deep_view().tiles[0].1 == Tile::origin_m(),
            m.deep_view().connections == Seq::<(Seq<char>, Seq<char>)>::empty(),
    {
        let mut tiles: Vec<(String, Tile)> = Vec::new();
        tiles.push(("origin".to_owned(), Tile::origin()));
        let m = GameMap { tiles, connections: Vec::new() };
        proof {
            assert(m.deep_view().connections =~= Seq::<(Seq<char>, Seq<char>)>::empty());
        }
        m
    }

    /// Index of the tile with the given identifier, if any.
    pub fn tile_index(&self, id: &str) -> (r: Option<usize>)
        ensures
            match r {
                Some(i) => i < self.tiles.len() && assoc_index_of(self.deep_view().tiles, id@)
                    == i,
                None => assoc_index_of(self.deep_view().tiles, id@) == -1,
            },
    {
        let key: String = id.to_owned();
        let ghost kv = id@;
        let mut i: usize = 0;
        while i < self.tiles.len()
            invariant
                i <= self.tiles.len(),
                forall|j: int| 0 <= j < i ==> (#[trigger] self.deep_view().tiles[j]).0 != kv,
                kv == key@,
                kv == id@,
            decreases self.tiles.len() - i,
        {
            if self.tiles[i].0 == key {
                proof {
                    let s = self.deep_view().tiles;
                    lemma_assoc_index_of(s, kv);
                    assert(s[i as int].0 == kv);
                    let idx = assoc_index_of(s, kv);
                    if idx == -1 {
                        assert(s[i as int].0 != kv);
                    } else if idx < i {
                        assert(s[idx].0 != kv);
                        assert(s[idx].0 == kv);
                    } else if idx > i {
                        assert(s[i as int].0 != kv);
                    }
                    assert(assoc_index_of(self.deep_view().tiles, id@) == i as int);
                }
                return Some(i);
            }
            proof {
                assert(self.deep_view().tiles[i as int].0 != kv);
            }
            i += 1;
        }
        proof {
            lemma_assoc_index_of(self.deep_view().tiles, kv);
            if assoc_index_of(self.deep_view().tiles, kv) >= 0 {
                assert(self.deep_view().tiles[assoc_index_of(self.deep_view().tiles, kv)].0 == kv);
            }
        }
        None
    }

    /// The tile with the given identifier, if any.
    pub fn get_tile(&self, id: &str) -> (r: Option<&Tile>)
        ensures
            match r {
                Some(t) => {
                    let i = assoc_index_of(self.deep_view().tiles, id@);
                    i >= 0 && t.deep_view() == self.deep_view().tiles[i].1
                },
                None => assoc_index_of(self.deep_view().tiles, id@) == -1,
            },
    {
        match self.tile_index(id) {
            Some(i) => Some(&self.tiles[i].1),
            None => None,
        }
    }

    /// The tile with the given identifier, borrowed for writing, if any.
    pub fn get_tile_mut(&mut self, id: &str) -> (r: Option<&mut Tile>)
        ensures
            ({
                let i = assoc_index_of(old(self).deep_view().tiles, id@);
                match r {
                    Some(t) => {
                        &&& i >= 0
                        &&& *t == old(self).tiles@[i].1
                        &&& final(self).tiles@ == old(self).tiles@.update(
                            i,
                            (old(self).tiles@[i].0, *final(t)),
                        )
                        &&& final(self).connections == old(self).connections
                    },
                    None => i == -1 && *final(self) == *old(self),
                }
            }),
    {
        match self.tile_index(id) {
            Some(i) => {
                proof {
                    assert(old(self).tiles@.update(
                        i as int,
                        (old(self).tiles@[i as int].0, old(self).tiles@[i as int].1),
                    ) =~= old(self).tiles@);
                }
                Some(&mut self.tiles[i].1)
            },
            None => None,
        }
    }

    /// Whether the two tile identifiers are directly connected.
    pub fn are_connected(&self, a: &str, b: &str) -> (r: bool)
        ensures
            r == spec_connected(self.deep_view().connections, a@, b@),
    {
        let ka: String = a.to_owned();
        let kb: String = b.to_owned();
        let mut i: usize = 0;
        while i < self.connections.len()
            invariant
                i <= self.connections.len(),
                ka@ == a@ && kb@ == b@,
                forall|j: int|
                    0 <= j < i ==> !((#[trigger] self.deep_view().connections[j]).0 == a@
                        && self.deep_view().connections[j].1 == b@ || self.deep_view().connections[j].0
                        == b@ && self.deep_view().connections[j].1 == a@),
            decreases self.connections.len() - i,
        {
            if (self.connections[i].0 == ka && self.connections[i].1 == kb) || (self.connections[i].0
                == kb && self.connections[i].1 == ka) {
                proof {
                    let cs = self.deep_view().connections;
                    assert((cs[i as int].0 == a@ && cs[i as int].1 == b@) || (cs[i as int].0 == b@
                        && cs[i as int].1 == a@));
                    assert(spec_connected(cs, a@, b@));
                }
                return true;
            }
            i += 1;
        }
        false
    }

    /// All tile identifiers directly connected to `tile_id`, in list order.
    pub fn neighbors(&self, tile_id: &str) -> (r: Vec<String>)
        ensures
            r.deep_view() == spec_neighbors(self.deep_view().connections, tile_id@),
    {
        let key: String = tile_id.to_owned();
        let ghost kv = tile_id@;
        let ghost conns = self.deep_view().connections;
        let mut out: Vec<String> = Vec::new();
        proof {
            assert(conns.skip(0) =~= conns);
        }
        let mut i: usize = 0;
        while i < self.connections.len()
            invariant
                i <= self.connections.len(),
                kv == key@,
                kv == tile_id@,
                conns == self.deep_view().connections,
                spec_neighbors(conns, kv) == out.deep_view() + spec_neighbors(
                    conns.skip(i as int),
                    kv,
                ),
            decreases self.connections.len() - i,
        {
            let ghost pre = out.deep_view();
            if self.connections[i].0 == key {
                let n: String = self.connections[i].1.clone();
                out.push(n);
                proof {
                    assert(out.deep_view() =~= pre.push(conns[i as int].1));
                }
            } else if self.connections[i].1 == key {
                let n: String = self.connections[i].0.clone();
                out.push(n);
                proof {
                    assert(out.deep_view() =~= pre.push(conns[i as int].0));
                }
            }
            proof {
                assert(conns.skip(i as int).drop_first() =~= conns.skip(i + 1));
                assert(conns.skip(i as int)[0] == conns[i as int]);
                assert(out.deep_view() + spec_neighbors(conns.skip(i + 1), kv) =~= pre
                    + spec_neighbors(conns.skip(i as int), kv));
            }
            i += 1;
        }
        proof {
            assert(conns.skip(self.connections.len() as int) =~= Seq::<
                (Seq<char>, Seq<char>),
            >::empty());
            assert(out.deep_view() + spec_neighbors(
                conns.skip(self.connections.len() as int),
                kv,
            ) =~= out.deep_view());
        }
        out
    }
}

/// The identifiers connected to `id`, in the order the connection list gives
/// them.
pub open spec fn spec_neighbors(
    conns: Seq<(Seq<char>, Seq<char>)>,
    id: Seq<char>,
) -> Seq<Seq<char>>
    decreases conns.len(),
{
    if conns.len() == 0 {
        Seq::empty()
    } else {
        let head = if conns[0].0 == id {
            seq![conns[0].1]
        } else if conns[0].1 == id {
            seq![conns[0].0]
        } else {
            Seq::empty()
        };
        head + spec_neighbors(conns.drop_first(), id)
    }
}

impl Tile {
    /// The model value of the origin tile.
    pub open spec fn origin_m() -> TileM {
        TileM {
            name: "The Starting Dirt"@,
            tile_type: TileType::Empty,
            x: 0,
            y: 0,
            contamination: None,
            blighted: None,
            blight_ticks_remaining: None,
            resource: None,
            description: None,
        }
    }
}

} // verus!
