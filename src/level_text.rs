//! Reading a level from its text: a first line naming the next level, then
//! one line per row of cells.
use vstd::prelude::*;
use crate::grid::{LevelTiles, TileValue, DEFAULT_TILE_SIZE, MAX_CELLS};

verus! {

/// Why a level text was refused.
#[derive(Clone, Copy, Debug, PartialEq, Eq, Structural)]
pub enum LevelError {
    /// More than `MAX_CELLS` cells, or wider or taller than that.
    TooLarge,
    /// The number of cells is not the width times the number of rows.
    RaggedRows,
}

/// The tile that a character of the legend stands for.
pub open spec fn tile_of_byte(b: u8) -> Option<TileValue> {
    if b == 32 {
        Some(TileValue::Empty)
    } else if b == 35 {
        Some(TileValue::Wall)
    } else if b == 36 {
        Some(TileValue::Pickup)
    } else if b == 86 {
        Some(TileValue::Player)
    } else if b == 88 {
        Some(TileValue::Enemy)
    } else {
        None
    }
}

/// Index of the first newline of `s` at or after `i`, or `s.len()`.
pub open spec fn newline_from(s: Seq<u8>, i: int) -> int
    decreases s.len() - i,
{
    if i >= s.len() {
        s.len() as int
    } else if s[i] == 10 {
        i
    } else {
        newline_from(s, i + 1)
    }
}

/// The tiles of the grid rows `d`, characters outside the legend skipped.
pub open spec fn tiles_of(d: Seq<u8>) -> Seq<TileValue>
    decreases d.len(),
{
    if d.len() == 0 {
        seq![]
    } else {
        let t = tiles_of(d.drop_last());
        match tile_of_byte(d.last()) {
            Some(v) => t.push(v),
            None => t,
        }
    }
}

/// Number of `c` bytes in `d`.
pub open spec fn count_byte(d: Seq<u8>, c: u8) -> nat
    decreases d.len(),
{
    if d.len() == 0 {
        0
    } else {
        count_byte(d.drop_last(), c) + if d.last() == c {
            1nat
        } else {
            0nat
        }
    }
}

/// The width of the grid rows `d`: the number of tiles before the first
/// newline that ends a non-empty run of tiles.
pub open spec fn width_of(d: Seq<u8>) -> nat
    decreases d.len(),
{
    if d.len() == 0 {
        0
    } else {
        let w = width_of(d.drop_last());
        if w == 0 && d.last() == 10 {
            tiles_of(d.drop_last()).len()
        } else {
            w
        }
    }
}

/// The grid rows of a level text: what follows its first line.
pub open spec fn grid_part(s: Seq<u8>) -> Seq<u8> {
    let k = newline_from(s, 0);
    if k < s.len() {
        s.subrange(k + 1, s.len() as int)
    } else {
        seq![]
    }
}

/// The level that the text `s` describes, when it is well formed.
pub open spec fn level_ok(s: Seq<u8>) -> bool {
    let d = grid_part(s);
    &&& width_of(d) <= MAX_CELLS
    &&& count_byte(d, 10) <= MAX_CELLS
    &&& width_of(d) * count_byte(d, 10) <= MAX_CELLS
    &&& tiles_of(d).len() == width_of(d) * count_byte(d, 10)
}

proof fn lemma_newline_from(s: Seq<u8>, i: int)
    requires
        0 <= i <= s.len(),
    ensures
        i <= newline_from(s, i) <= s.len(),
        forall|j: int| i <= j < newline_from(s, i) ==> s[j] != 10,
        newline_from(s, i) < s.len() ==> s[newline_from(s, i)] == 10,
    decreases s.len() - i,
{
    if i < s.len() && s[i] != 10 {
        lemma_newline_from(s, i + 1);
    }
}

proof fn lemma_tiles_of_len(d: Seq<u8>)
    ensures
        tiles_of(d).len() <= d.len(),
        count_byte(d, 10) <= d.len(),
        count_byte(d, 36) <= d.len(),
    decreases d.len(),
{
    if d.len() > 0 {
        lemma_tiles_of_len(d.drop_last());
    }
}

impl LevelTiles {
    /// Reads a level from its text. The first line names the next level and
    /// is kept as it stands; each later character of the legend (space: empty,
    /// `#`: wall, `$`: pickup, `V`: player, `X`: enemy) is the next cell, other
    /// characters are skipped. Each newline ends a row; the first row with
    /// cells gives the width. Refused when too large, or when the cells do not
    /// fill the rows evenly.
    pub fn load(bytes: &[u8]) -> (r: Result<LevelTiles, LevelError>)
        ensures
            ({
                let d = grid_part(bytes@);
                match r {
                    Ok(level) => {
                        &&& level_ok(bytes@)
                        &&& level.wf()
                        &&& level.width == width_of(d)
                        &&& level.height == count_byte(d, 10)
                        &&& level.tiles@ == tiles_of(d)
                        &&& level.pickups_total == count_byte(d, 36)
                        &&& level.tile_size == DEFAULT_TILE_SIZE
                        &&& level.next_level@ == bytes@.take(newline_from(bytes@, 0))
                    },
                    Err(e) => {
                        &&& !level_ok(bytes@)
                        &&& (e == LevelError::TooLarge <==> (width_of(d) > MAX_CELLS || count_byte(d, 10)
                            > MAX_CELLS || width_of(d) * count_byte(d, 10) > MAX_CELLS))
                    },
                }
            }),
    {
        let n = bytes.len();
        let mut next_level: Vec<u8> = Vec::new();
        let mut i: usize = 0;
        proof {
            lemma_newline_from(bytes@, 0);
        }
        while i < n && bytes[i] != 10
            invariant
                n == bytes@.len(),
                0 <= i <= newline_from(bytes@, 0),
                newline_from(bytes@, 0) <= n,
                forall|j: int| 0 <= j < newline_from(bytes@, 0) ==> bytes@[j] != 10,
                newline_from(bytes@, 0) < n ==> bytes@[newline_from(bytes@, 0)] == 10,
                next_level@ == bytes@.take(i as int),
            decreases n - i,
        {
            next_level.push(bytes[i]);
            proof {
                assert(bytes@.take(i + 1) == bytes@.take(i as int).push(bytes@[i as int]));
            }
            i = i + 1;
        }
        let ghost k = i as int;
        assert(k == newline_from(bytes@, 0));
        let mut tiles: Vec<TileValue> = Vec::new();
        let mut width: usize = 0;
        let mut height: usize = 0;
        let mut pickups: usize = 0;
        let ghost d = grid_part(bytes@);
        if i < n {
            i = i + 1;
            assert(bytes@.subrange(k + 1, k + 1) == Seq::<u8>::empty());
            while i < n
                invariant
                    n == bytes@.len(),
                    0 <= k < n,
                    d == bytes@.subrange(k + 1, n as int),
                    k + 1 <= i <= n,
                    tiles@ == tiles_of(bytes@.subrange(k + 1, i as int)),
                    width == width_of(bytes@.subrange(k + 1, i as int)),
                    height == count_byte(bytes@.subrange(k + 1, i as int), 10),
                    pickups == count_byte(bytes@.subrange(k + 1, i as int), 36),
                decreases n - i,
            {
                let ghost before = bytes@.subrange(k + 1, i as int);
                let ghost after = bytes@.subrange(k + 1, i as int + 1);
                assert(after.drop_last() =~= before);
                assert(after.last() == bytes@[i as int]);
                proof {
                    lemma_tiles_of_len(before);
                    assert(before.len() < n);
                }
                let b = bytes[i];
                if b == 32 {
                    tiles.push(TileValue::Empty);
                } else if b == 35 {
                    tiles.push(TileValue::Wall);
                } else if b == 36 {
                    tiles.push(TileValue::Pickup);
                    pickups = pickups + 1;
                } else if b == 86 {
                    tiles.push(TileValue::Player);
                } else if b == 88 {
                    tiles.push(TileValue::Enemy);
                } else if b == 10 {
                    if width == 0 {
                        width = tiles.len();
                    }
                    height = height + 1;
                }
                i = i + 1;
            }
        } else {
            assert(d == Seq::<u8>::empty());
            assert(tiles_of(d) == Seq::<TileValue>::empty());
        }
        if width > MAX_CELLS || height > MAX_CELLS {
            return Err(LevelError::TooLarge);
        }
        proof {
            assert(width * height <= MAX_CELLS * MAX_CELLS) by (nonlinear_arith)
                requires width <= MAX_CELLS, height <= MAX_CELLS;
        }
        if (width as u64) * (height as u64) > MAX_CELLS as u64 {
            return Err(LevelError::TooLarge);
        }
        if tiles.len() != width * height {
            return Err(LevelError::RaggedRows);
        }
        Ok(
            LevelTiles {
                width,
                height,
                tile_size: DEFAULT_TILE_SIZE,
                tiles,
                pickups_total: pickups,
                next_level,
            },
        )
    }
}

} // verus!
