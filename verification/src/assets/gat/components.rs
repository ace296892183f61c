use vstd::prelude::*;

verus! {

/// The walkable tiles of a map, row after row, `width` tiles per row.
#[derive(Debug, Clone)]
pub struct Tiles<T> {
    pub width: u32,
    pub height: u32,
    pub tiles: Vec<T>,
}

/// A tile with its grid position.
#[derive(Debug, Clone, Copy, PartialEq, Eq)]
pub struct TileRef<T> {
    pub x: u16,
    pub z: u16,
    pub tile: T,
}

/// The smaller of two numbers.
pub open spec fn min_of(a: int, b: int) -> int {
    if a <= b {
        a
    } else {
        b
    }
}

/// The tiles of row `z` from column `min_x` up to, not including, `end_x`.
pub open spec fn tile_row<T>(tiles: Seq<T>, width: int, z: int, min_x: int, end_x: int) -> Seq<
    TileRef<T>,
> {
    Seq::new(
        if min_x < end_x {
            (end_x - min_x) as nat
        } else {
            0
        },
        |j: int| TileRef { x: (min_x + j) as u16, z: z as u16, tile: tiles[min_x + j + z * width] },
    )
}

/// The tiles of the `count` rows from `min_z` on, row after row.
pub open spec fn tile_rows<T>(
    tiles: Seq<T>,
    width: int,
    min_z: int,
    count: nat,
    min_x: int,
    end_x: int,
) -> Seq<TileRef<T>>
    decreases count,
{
    if count == 0 {
        Seq::empty()
    } else {
        tile_rows(tiles, width, min_z, (count - 1) as nat, min_x, end_x) + tile_row(
            tiles,
            width,
            min_z + count - 1,
            min_x,
            end_x,
        )
    }
}

/// How many whole numbers lie from `lo` up to, not including, `hi`.
pub open spec fn span(lo: int, hi: int) -> int {
    if lo < hi {
        hi - lo
    } else {
        0
    }
}

/// Place of the item at row `r` and column `c` in a list of rows of `cols`
/// items each.
pub open spec fn grid_slot(r: int, c: int, cols: int) -> int {
    r * cols + c
}

/// The tiles of `count` rows from `min_z` on, each from column `min_x` up
/// to `end_x`, are `count` times the row length in number, and the one at
/// row `r` and column `c` of that rectangle is the grid's tile at
/// `(min_x + c, min_z + r)`, read from position `x + z * width`.
pub proof fn lemma_tile_rows<T>(
    tiles: Seq<T>,
    width: int,
    min_z: int,
    count: nat,
    min_x: int,
    end_x: int,
)
    ensures
        tile_rows(tiles, width, min_z, count, min_x, end_x).len() == count * span(min_x, end_x),
        forall|r: int, c: int|
            0 <= r < count && 0 <= c < span(min_x, end_x) ==> #[trigger] tile_rows(
                tiles,
                width,
                min_z,
                count,
                min_x,
                end_x,
            )[grid_slot(r, c, span(min_x, end_x))] == (TileRef {
                x: (min_x + c) as u16,
                z: (min_z + r) as u16,
                tile: tiles[(min_x + c) + (min_z + r) * width],
            }),
    decreases count,
{
    let cols = span(min_x, end_x);
    if count > 0 {
        lemma_tile_rows(tiles, width, min_z, (count - 1) as nat, min_x, end_x);
        let prev = tile_rows(tiles, width, min_z, (count - 1) as nat, min_x, end_x);
        let row = tile_row(tiles, width, min_z + count - 1, min_x, end_x);
        let all = tile_rows(tiles, width, min_z, count, min_x, end_x);
        assert(all == prev + row);
        assert(row.len() == cols);
        assert(count * cols == (count - 1) * cols + cols) by (nonlinear_arith);
        assert forall|r: int, c: int| 0 <= r < count && 0 <= c < cols implies #[trigger] all[grid_slot(
            r,
            c,
            cols,
        )] == (TileRef {
            x: (min_x + c) as u16,
            z: (min_z + r) as u16,
            tile: tiles[(min_x + c) + (min_z + r) * width],
        }) by {
            if r < count - 1 {
                assert(grid_slot(r, c, cols) < (count - 1) * cols) by (nonlinear_arith)
                    requires
                        0 <= r < count - 1,
                        0 <= c < cols,
                        grid_slot(r, c, cols) == r * cols + c,
                ;
                assert(0 <= grid_slot(r, c, cols)) by (nonlinear_arith)
                    requires
                        0 <= r,
                        0 <= c,
                        0 <= cols,
                        grid_slot(r, c, cols) == r * cols + c,
                ;
                assert(all[grid_slot(r, c, cols)] == prev[grid_slot(r, c, cols)]);
            } else {
                assert(grid_slot(r, c, cols) == (count - 1) * cols + c);
                assert(all[grid_slot(r, c, cols)] == row[c]);
            }
        }
    }
}

impl<T: Copy> Tiles<T> {
    /// The tiles of the grid rectangle from (`min_x`, `min_z`) up to, not
    /// including, (`max_x`, `max_z`), the far corner held to the map's width
    /// and height: row after row, each row by increasing x.
    pub fn iter_tiles(&self, min_x: u32, min_z: u32, max_x: u32, max_z: u32) -> (found: Vec<
        TileRef<T>,
    >)
        requires
            min_x < min_of(max_x as int, self.width as int) && min_z < min_of(
                max_z as int,
                self.height as int,
            ) ==> (min_of(max_z as int, self.height as int) - 1) * self.width + min_of(
                max_x as int,
                self.width as int,
            ) - 1 < self.tiles@.len(),
        ensures
            found@ == tile_rows(
                self.tiles@,
                self.width as int,
                min_z as int,
                if min_z < min_of(max_z as int, self.height as int) {
                    (min_of(max_z as int, self.height as int) - min_z) as nat
                } else {
                    0
                },
                min_x as int,
                min_of(max_x as int, self.width as int),
            ),
            found@.len() == span(min_z as int, min_of(max_z as int, self.height as int)) * span(
                min_x as int,
                min_of(max_x as int, self.width as int),
            ),
            forall|r: int, c: int|
                0 <= r < span(min_z as int, min_of(max_z as int, self.height as int)) && 0 <= c
                    < span(min_x as int, min_of(max_x as int, self.width as int))
                    ==> #[trigger] found@[grid_slot(
                    r,
                    c,
                    span(min_x as int, min_of(max_x as int, self.width as int)),
                )] == (TileRef {
                    x: (min_x + c) as u16,
                    z: (min_z + r) as u16,
                    tile: self.tiles@[(min_x + c) + (min_z + r) * self.width],
                }),
    {
        let end_z: u32 = if max_z <= self.height {
            max_z
        } else {
            self.height
        };
        let end_x: u32 = if max_x <= self.width {
            max_x
        } else {
            self.width
        };
        let width = self.width as usize;
        let tile_count = self.tiles.len();
        let ghost tiles = self.tiles@;
        let mut found: Vec<TileRef<T>> = Vec::new();
        let mut z: u32 = min_z;
        while z < end_z
            invariant
                tiles == self.tiles@,
                tile_count == tiles.len(),
                width == self.width,
                end_z == min_of(max_z as int, self.height as int),
                end_x == min_of(max_x as int, self.width as int),
                min_z <= z,
                z <= end_z || z == min_z,
                min_x < end_x && min_z < end_z ==> (end_z - 1) * width + end_x - 1 < tiles.len(),
                found@ == tile_rows(
                    tiles,
                    width as int,
                    min_z as int,
                    (z - min_z) as nat,
                    min_x as int,
                    end_x as int,
                ),
            decreases end_z - z,
        {
            let ghost before = found@;
            let mut x: u32 = min_x;
            while x < end_x
                invariant
                    tiles == self.tiles@,
                    tile_count == tiles.len(),
                    width == self.width,
                    min_z <= z < end_z,
                    end_z == min_of(max_z as int, self.height as int),
                    end_x == min_of(max_x as int, self.width as int),
                    min_x <= x,
                    x <= end_x || x == min_x,
                    min_x < end_x ==> (end_z - 1) * width + end_x - 1 < tiles.len(),
                    found@ == before + tile_row(
                        tiles,
                        width as int,
                        z as int,
                        min_x as int,
                        end_x as int,
                    ).take(x - min_x),
                decreases end_x - x,
            {
                proof {
                    assert(z * width <= (end_z - 1) * width) by (nonlinear_arith)
                        requires
                            z <= end_z - 1,
                    ;
                }
                let index = x as usize + (z as usize) * width;
                let tile = self.tiles[index];
                let ghost row = tile_row(tiles, width as int, z as int, min_x as int, end_x as int);
                found.push(TileRef { x: x as u16, z: z as u16, tile });
                proof {
                    assert(row[x - min_x] == TileRef { x: x as u16, z: z as u16, tile });
                    assert(row.take(x + 1 - min_x) =~= row.take(x - min_x).push(row[x - min_x]));
                }
                x = x + 1;
            }
            proof {
                let row = tile_row(tiles, width as int, z as int, min_x as int, end_x as int);
                assert(row.take(x - min_x) =~= row);
            }
            z = z + 1;
        }
        proof {
            lemma_tile_rows(
                self.tiles@,
                self.width as int,
                min_z as int,
                span(min_z as int, end_z as int) as nat,
                min_x as int,
                end_x as int,
            );
        }
        found
    }
}

} // verus!
