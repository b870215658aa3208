//! Dense spatial grid of cell states, addressed through the Z-order index.
//!
//! The backing vector covers exactly the index range spanned by the
//! coordinate `(width - 1, height - 1)`.  Because the Z-order curve leaves
//! gaps, some slots of that range decode to coordinates outside the logical
//! `width x height` rectangle; those slots hold the `OutOfBound` sentinel
//! and are never written through normal indexed access.

use vstd::prelude::*;

use rand::RngExt;

verus! {

use crate::data::{Block, BoundingBehavior, Coordinate, Direction, SmallNat, UncheckedCoordinate};
use crate::zorder;

/// Dimensions of zero are clamped up to the minimum grid size of one.
pub open spec fn spec_clamp_dim(v: u16) -> u16 {
    if v == 0 {
        1
    } else {
        v
    }
}

/// Number of dense slots needed to cover the index range spanned by the
/// rectangle's greatest coordinate.
pub open spec fn spec_storage_len(width: u16, height: u16) -> int
    recommends
        width >= 1,
        height >= 1,
{
    zorder::spec_interleave((width - 1) as u16, (height - 1) as u16) + 1
}

/// Dense storage of per-cell state plus the logical rectangle bounds.
pub struct Grid {
    blocks: Vec<Block<Direction>>,
    width: SmallNat,
    height: SmallNat,
}

impl Grid {
    pub closed spec fn spec_width(&self) -> u16 {
        self.width
    }

    pub closed spec fn spec_height(&self) -> u16 {
        self.height
    }

    pub closed spec fn spec_blocks(&self) -> Seq<Block<Direction>> {
        self.blocks@
    }

    /// Whether `c` lies inside the logical rectangle of this grid.
    pub open spec fn spec_in_rect(&self, c: Coordinate) -> bool {
        c.x < self.spec_width() && c.y < self.spec_height()
    }

    /// Invariant: positive bounds, storage sized exactly to the index range
    /// of the rectangle, and a slot holds the `OutOfBound` sentinel exactly
    /// where its decoded coordinate falls outside the rectangle.
    pub open spec fn wf(&self) -> bool {
        &&& self.spec_width() >= 1
        &&& self.spec_height() >= 1
        &&& self.spec_blocks().len() == spec_storage_len(self.spec_width(), self.spec_height())
        &&& forall|i: int|
            0 <= i < self.spec_blocks().len() ==> (#[trigger] self.spec_blocks()[i] is OutOfBound
                <==> !self.spec_in_rect(Coordinate::spec_decode(i as u32)))
    }

    /// The state of the cell at `c`: reads outside the rectangle yield the
    /// `OutOfBound` sentinel instead of failing.
    pub open spec fn spec_get(&self, c: Coordinate) -> Block<Direction> {
        if self.spec_in_rect(c) {
            self.spec_blocks()[c.spec_encode() as int]
        } else {
            Block::OutOfBound
        }
    }

    /// A grid with every cell of the (clamped) rectangle empty.
    pub fn empty(width: SmallNat, height: SmallNat) -> (g: Grid)
        requires
            spec_storage_len(spec_clamp_dim(width), spec_clamp_dim(height)) <= usize::MAX,
        ensures
            g.wf(),
            g.spec_width() == spec_clamp_dim(width),
            g.spec_height() == spec_clamp_dim(height),
            forall|c: Coordinate| g.spec_in_rect(c) ==> #[trigger] g.spec_get(c) is Empty,
    {
        let width = if width == 0 {
            1
        } else {
            width
        };
        let height = if height == 0 {
            1
        } else {
            height
        };
        let size_requirement = zorder::interleave(width - 1, height - 1) as usize + 1;
        let mut blocks: Vec<Block<Direction>> = Vec::new();
        let mut i: usize = 0;
        while i < size_requirement
            invariant
                i <= size_requirement,
                size_requirement == spec_storage_len(width, height),
                width >= 1,
                height >= 1,
                blocks@.len() == i,
                forall|j: int|
                    0 <= j < i ==> #[trigger] blocks@[j] == (if Coordinate::spec_decode(j as u32).x
                        < width && Coordinate::spec_decode(j as u32).y < height {
                        Block::<Direction>::Empty
                    } else {
                        Block::<Direction>::OutOfBound
                    }),
            decreases size_requirement - i,
        {
            let c = Coordinate::decode_usize(i);
            if c.x < width && c.y < height {
                blocks.push(Block::Empty);
            } else {
                blocks.push(Block::OutOfBound);
            }
            i += 1;
        }
        let g = Grid { blocks, width, height };
        proof {
            assert forall|c: Coordinate| g.spec_in_rect(c) implies #[trigger] g.spec_get(c)
                is Empty by {
                zorder::lemma_interleave_monotone(c.x, c.y, (width - 1) as u16, (height - 1) as u16);
                zorder::lemma_deinterleave_interleave(c.x, c.y);
            }
        }
        g
    }

    pub fn width(&self) -> (r: SmallNat)
        ensures
            r == self.spec_width(),
    {
        self.width
    }

    pub fn height(&self) -> (r: SmallNat)
        ensures
            r == self.spec_height(),
    {
        self.height
    }

    /// A coordinate sampled uniformly from the rectangle.  The random
    /// source is injected, so behaviour is reproducible under a seeded
    /// source.
    pub fn random_coordinate(&self, rng: &mut rand::rngs::StdRng) -> (c: Coordinate)
        requires
            self.wf(),
        ensures
            self.spec_in_rect(c),
    {
        Coordinate { x: sample_below(rng, self.width), y: sample_below(rng, self.height) }
    }

    /// The state of the cell at `index`; `OutOfBound` outside the rectangle.
    pub fn get(&self, index: Coordinate) -> (r: Block<Direction>)
        requires
            self.wf(),
        ensures
            r == self.spec_get(index),
    {
        if index.x < self.width && index.y < self.height {
            proof {
                zorder::lemma_interleave_monotone(
                    index.x,
                    index.y,
                    (self.spec_width() - 1) as u16,
                    (self.spec_height() - 1) as u16,
                );
            }
            let i = index.encode_usize();
            self.blocks[i]
        } else {
            Block::OutOfBound
        }
    }

    /// Write the cell at `index`.  Writing outside the rectangle is a
    /// programming error, never a valid game state, so it is excluded here;
    /// the sentinel is likewise never written through this access path.
    pub fn set(&mut self, index: Coordinate, block: Block<Direction>)
        requires
            old(self).wf(),
            old(self).spec_in_rect(index),
            !(block is OutOfBound),
        ensures
            final(self).wf(),
            final(self).spec_width() == old(self).spec_width(),
            final(self).spec_height() == old(self).spec_height(),
            forall|c: Coordinate|
                #[trigger] final(self).spec_get(c) == (if c == index {
                    block
                } else {
                    old(self).spec_get(c)
                }),
    {
        proof {
            zorder::lemma_interleave_monotone(
                index.x,
                index.y,
                (self.spec_width() - 1) as u16,
                (self.spec_height() - 1) as u16,
            );
            zorder::lemma_deinterleave_interleave(index.x, index.y);
        }
        let i = index.encode_usize();
        self.blocks.set(i, block);
        proof {
            assert forall|c: Coordinate|
                #[trigger] final(self).spec_get(c) == (if c == index {
                    block
                } else {
                    old(self).spec_get(c)
                }) by {
                zorder::lemma_deinterleave_interleave(c.x, c.y);
                if c.x < old(self).spec_width() && c.y < old(self).spec_height() {
                    zorder::lemma_interleave_monotone(
                        c.x,
                        c.y,
                        (old(self).spec_width() - 1) as u16,
                        (old(self).spec_height() - 1) as u16,
                    );
                }
            }
        }
    }

    /// Reset every cell of the rectangle to `Empty` in place, without
    /// touching the sentinel slots or reallocating storage.
    pub fn clear(&mut self)
        requires
            old(self).wf(),
        ensures
            final(self).wf(),
            final(self).spec_width() == old(self).spec_width(),
            final(self).spec_height() == old(self).spec_height(),
            forall|c: Coordinate|
                #[trigger] final(self).spec_get(c) == (if old(self).spec_in_rect(c) {
                    Block::<Direction>::Empty
                } else {
                    Block::<Direction>::OutOfBound
                }),
    {
        let n = self.blocks.len();
        let mut i: usize = 0;
        while i < n
            invariant
                i <= n,
                old(self).wf(),
                n == old(self).spec_blocks().len(),
                self.spec_width() == old(self).spec_width(),
                self.spec_height() == old(self).spec_height(),
                self.spec_blocks().len() == n,
                forall|j: int|
                    0 <= j < i ==> #[trigger] self.spec_blocks()[j] == (if !(old(
                        self,
                    ).spec_blocks()[j] is OutOfBound) {
                        Block::<Direction>::Empty
                    } else {
                        Block::<Direction>::OutOfBound
                    }),
                forall|j: int|
                    i <= j < n ==> #[trigger] self.spec_blocks()[j] == old(self).spec_blocks()[j],
            decreases n - i,
        {
            let c = Coordinate::decode_usize(i);
            if c.x < self.width && c.y < self.height {
                proof {
                    assert(!(old(self).spec_blocks()[i as int] is OutOfBound));
                }
                self.blocks.set(i, Block::Empty);
            }
            i += 1;
        }
        proof {
            assert forall|c: Coordinate|
                #[trigger] final(self).spec_get(c) == (if old(self).spec_in_rect(c) {
                    Block::<Direction>::Empty
                } else {
                    Block::<Direction>::OutOfBound
                }) by {
                if old(self).spec_in_rect(c) {
                    zorder::lemma_interleave_monotone(
                        c.x,
                        c.y,
                        (old(self).spec_width() - 1) as u16,
                        (old(self).spec_height() - 1) as u16,
                    );
                    zorder::lemma_deinterleave_interleave(c.x, c.y);
                }
            }
        }
    }
}

/// The greatest x component among the supplied entries (zero if none).
pub open spec fn spec_max_x(s: Seq<(Coordinate, Block<Direction>)>) -> u16
    decreases s.len(),
{
    if s.len() == 0 {
        0
    } else {
        let m = spec_max_x(s.drop_last());
        if s.last().0.x > m {
            s.last().0.x
        } else {
            m
        }
    }
}

/// The greatest y component among the supplied entries (zero if none).
pub open spec fn spec_max_y(s: Seq<(Coordinate, Block<Direction>)>) -> u16
    decreases s.len(),
{
    if s.len() == 0 {
        0
    } else {
        let m = spec_max_y(s.drop_last());
        if s.last().0.y > m {
            s.last().0.y
        } else {
            m
        }
    }
}

/// The state the latest entry for coordinate `c` supplies, if any entry
/// names `c` at all: duplicates resolve last-write-wins.
pub open spec fn spec_last_write(s: Seq<(Coordinate, Block<Direction>)>, c: Coordinate) -> Option<
    Block<Direction>,
>
    decreases s.len(),
{
    if s.len() == 0 {
        None
    } else if s.last().0 == c {
        Some(s.last().1)
    } else {
        spec_last_write(s.drop_last(), c)
    }
}

/// A coordinate has a latest entry exactly where some entry names it, and
/// the latest state is one of the supplied states for it.
proof fn lemma_last_write_props(s: Seq<(Coordinate, Block<Direction>)>, c: Coordinate)
    ensures
        (spec_last_write(s, c) is Some) <==> exists|k: int|
            0 <= k < s.len() && (#[trigger] s[k]).0 == c,
        spec_last_write(s, c) matches Some(b) ==> exists|k: int|
            0 <= k < s.len() && #[trigger] s[k] == (c, b),
    decreases s.len(),
{
    if s.len() > 0 {
        lemma_last_write_props(s.drop_last(), c);
        if s.last().0 == c {
            assert((#[trigger] s[s.len() - 1]).0 == c);
            assert(s[s.len() - 1] == (c, s.last().1));
        } else {
            assert(forall|k: int| 0 <= k < s.len() - 1 ==> s.drop_last()[k] == #[trigger] s[k]);
            if exists|k: int| 0 <= k < s.len() && (#[trigger] s[k]).0 == c {
                let k = choose|k: int| 0 <= k < s.len() && (#[trigger] s[k]).0 == c;
                assert(k != s.len() - 1);
                assert((#[trigger] s.drop_last()[k]).0 == c);
            }
            if spec_last_write(s, c) is Some {
                let b = spec_last_write(s, c)->Some_0;
                let k = choose|k: int| 0 <= k < s.len() - 1 && #[trigger] s.drop_last()[k] == (c, b);
                assert(s[k] == (c, b));
            }
        }
    }
}

/// Every supplied coordinate is dominated by the running maxima.
proof fn lemma_max_entry_bounds(s: Seq<(Coordinate, Block<Direction>)>, k: int)
    requires
        0 <= k < s.len(),
    ensures
        s[k].0.x <= spec_max_x(s),
        s[k].0.y <= spec_max_y(s),
    decreases s.len(),
{
    if k < s.len() - 1 {
        lemma_max_entry_bounds(s.drop_last(), k);
        assert(s.drop_last()[k] == s[k]);
    }
}

/// The maxima lie below any bound that dominates every entry.
proof fn lemma_max_le(s: Seq<(Coordinate, Block<Direction>)>, bx: u16, by: u16)
    requires
        forall|k: int| 0 <= k < s.len() ==> (#[trigger] s[k]).0.x <= bx && s[k].0.y <= by,
    ensures
        spec_max_x(s) <= bx,
        spec_max_y(s) <= by,
    decreases s.len(),
{
    if s.len() > 0 {
        assert(forall|k: int| 0 <= k < s.len() - 1 ==> s.drop_last()[k] == #[trigger] s[k]);
        lemma_max_le(s.drop_last(), bx, by);
        assert((#[trigger] s[s.len() - 1]).0.x <= bx);
    }
}

impl Grid {
    /// Build a grid from an accumulated sequence of (coordinate, state)
    /// entries.  The rectangle is inferred as one past the maxima seen;
    /// storage grows on demand while entries arrive; afterwards one pass
    /// marks as `OutOfBound` every slot whose decoded coordinate fell
    /// outside the inferred rectangle.  Duplicate coordinates resolve
    /// last-write-wins.
    pub fn from_pairs(entries: &Vec<(Coordinate, Block<Direction>)>) -> (g: Grid)
        requires
            forall|k: int|
                0 <= k < entries@.len() ==> !((#[trigger] entries@[k]).1 is OutOfBound),
            forall|k: int|
                0 <= k < entries@.len() ==> (#[trigger] entries@[k]).0.x < u16::MAX
                    && entries@[k].0.y < u16::MAX,
            spec_storage_len(
                (spec_max_x(entries@) + 1) as u16,
                (spec_max_y(entries@) + 1) as u16,
            ) <= usize::MAX,
        ensures
            g.wf(),
            g.spec_width() == spec_max_x(entries@) + 1,
            g.spec_height() == spec_max_y(entries@) + 1,
            forall|c: Coordinate|
                g.spec_in_rect(c) ==> #[trigger] g.spec_get(c) == (match spec_last_write(
                    entries@,
                    c,
                ) {
                    Some(b) => b,
                    None => Block::<Direction>::Empty
                }),
    {
        let mut blocks: Vec<Block<Direction>> = Vec::new();
        blocks.push(Block::Empty);
        let mut x_max: SmallNat = 0;
        let mut y_max: SmallNat = 0;
        let n = entries.len();
        let mut i: usize = 0;
        proof {
            assert(zorder::spec_interleave(0u16, 0u16) == 0u32) by (bit_vector);
        }
        while i < n
            invariant
                i <= n,
                n == entries@.len(),
                forall|k: int|
                    0 <= k < entries@.len() ==> !((#[trigger] entries@[k]).1 is OutOfBound),
                forall|k: int|
                    0 <= k < entries@.len() ==> (#[trigger] entries@[k]).0.x < u16::MAX
                        && entries@[k].0.y < u16::MAX,
                spec_storage_len(
                    (spec_max_x(entries@) + 1) as u16,
                    (spec_max_y(entries@) + 1) as u16,
                ) <= usize::MAX,
                x_max == spec_max_x(entries@.take(i as int)),
                y_max == spec_max_y(entries@.take(i as int)),
                x_max < u16::MAX,
                y_max < u16::MAX,
                blocks@.len() == zorder::spec_interleave(x_max, y_max) + 1,
                forall|j: int|
                    0 <= j < blocks@.len() ==> #[trigger] blocks@[j] == (match spec_last_write(
                        entries@.take(i as int),
                        Coordinate::spec_decode(j as u32),
                    ) {
                        Some(b) => b,
                        None => Block::<Direction>::Empty
                    }),
                forall|k: int|
                    0 <= k < i ==> zorder::spec_interleave(
                        (#[trigger] entries@[k]).0.x,
                        entries@[k].0.y,
                    ) < blocks@.len(),
            decreases n - i,
        {
            let pair = entries[i];
            let coord = pair.0;
            let block = pair.1;
            let ghost old_x_max = x_max;
            let ghost old_y_max = y_max;
            let ghost old_len = blocks@.len() as int;
            if coord.x > x_max {
                x_max = coord.x;
            }
            if coord.y > y_max {
                y_max = coord.y;
            }
            proof {
                assert(entries@.take(i as int + 1).drop_last() =~= entries@.take(i as int));
                assert(entries@.take(i as int + 1).last() == entries@[i as int]);
                zorder::lemma_interleave_monotone(old_x_max, old_y_max, x_max, y_max);
                // the running maxima stay below the final maxima
                assert forall|k: int|
                    0 <= k < entries@.take(i as int + 1).len() implies (#[trigger] entries@.take(
                    i as int + 1,
                )[k]).0.x <= spec_max_x(entries@) && entries@.take(i as int + 1)[k].0.y
                    <= spec_max_y(entries@) by {
                    lemma_max_entry_bounds(entries@, k);
                }
                lemma_max_le(
                    entries@.take(i as int + 1),
                    spec_max_x(entries@),
                    spec_max_y(entries@),
                );
                zorder::lemma_interleave_monotone(
                    x_max,
                    y_max,
                    spec_max_x(entries@),
                    spec_max_y(entries@),
                );
            }
            let index = zorder::interleave(x_max, y_max) as usize;
            while blocks.len() <= index
                invariant
                    i < n,
                    n == entries@.len(),
                    index == zorder::spec_interleave(x_max, y_max),
                    index < usize::MAX,
                    blocks@.len() <= index + 1,
                    blocks@.len() >= 1,
                    forall|j: int|
                        0 <= j < blocks@.len() ==> #[trigger] blocks@[j] == (match spec_last_write(
                            entries@.take(i as int),
                            Coordinate::spec_decode(j as u32),
                        ) {
                            Some(b) => b,
                            None => Block::<Direction>::Empty
                        }),
                    forall|k: int|
                        0 <= k < i ==> zorder::spec_interleave(
                            (#[trigger] entries@[k]).0.x,
                            entries@[k].0.y,
                        ) < blocks@.len(),
                decreases index + 1 - blocks@.len(),
            {
                proof {
                    let j = blocks@.len() as int;
                    zorder::lemma_interleave_deinterleave(j as u32);
                    lemma_last_write_props(
                        entries@.take(i as int),
                        Coordinate::spec_decode(j as u32),
                    );
                    if spec_last_write(
                        entries@.take(i as int),
                        Coordinate::spec_decode(j as u32),
                    ) is Some {
                        let k = choose|k: int|
                            0 <= k < entries@.take(i as int).len() && (#[trigger] entries@.take(
                                i as int,
                            )[k]).0 == Coordinate::spec_decode(j as u32);
                        assert(entries@[k] == entries@.take(i as int)[k]);
                        assert(zorder::spec_interleave(entries@[k].0.x, entries@[k].0.y) < j);
                        assert(false);
                    }
                }
                blocks.push(Block::Empty);
            }
            let ci = coord.encode_usize();
            proof {
                zorder::lemma_interleave_monotone(coord.x, coord.y, x_max, y_max);
                zorder::lemma_deinterleave_interleave(coord.x, coord.y);
            }
            blocks.set(ci, block);
            proof {
                assert(entries@.take(i as int + 1).drop_last() =~= entries@.take(i as int));
                assert(entries@.take(i as int + 1).last() == entries@[i as int]);
                assert forall|j: int| 0 <= j < blocks@.len() implies #[trigger] blocks@[j]
                    == (match spec_last_write(
                    entries@.take(i as int + 1),
                    Coordinate::spec_decode(j as u32),
                ) {
                    Some(b) => b,
                    None => Block::<Direction>::Empty
                }) by {
                    zorder::lemma_interleave_deinterleave(j as u32);
                }
            }
            i += 1;
        }
        proof {
            assert(entries@.take(n as int) =~= entries@);
        }
        let width = x_max + 1;
        let height = y_max + 1;
        let ghost pre = blocks@;
        let m = blocks.len();
        let mut j: usize = 0;
        while j < m
            invariant
                j <= m,
                m == blocks@.len(),
                pre.len() == m,
                forall|jj: int|
                    0 <= jj < j ==> #[trigger] blocks@[jj] == (if Coordinate::spec_decode(
                        jj as u32,
                    ).x <= x_max && Coordinate::spec_decode(jj as u32).y <= y_max {
                        pre[jj]
                    } else {
                        Block::<Direction>::OutOfBound
                    }),
                forall|jj: int| j <= jj < m ==> #[trigger] blocks@[jj] == pre[jj],
            decreases m - j,
        {
            let c = Coordinate::decode_usize(j);
            if c.x > x_max || c.y > y_max {
                blocks.set(j, Block::OutOfBound);
            }
            j += 1;
        }
        let g = Grid { blocks, width, height };
        proof {
            assert forall|jj: int| 0 <= jj < g.spec_blocks().len() implies (
            #[trigger] g.spec_blocks()[jj] is OutOfBound <==> !g.spec_in_rect(
                Coordinate::spec_decode(jj as u32),
            )) by {
                let c = Coordinate::spec_decode(jj as u32);
                if c.x <= x_max && c.y <= y_max {
                    lemma_last_write_props(entries@, c);
                    if spec_last_write(entries@, c) is Some {
                        let b = spec_last_write(entries@, c)->Some_0;
                        let k = choose|k: int|
                            0 <= k < entries@.len() && #[trigger] entries@[k] == (c, b);
                        assert(!(entries@[k].1 is OutOfBound));
                    }
                }
            }
            assert(g.wf());
            assert forall|c: Coordinate| g.spec_in_rect(c) implies #[trigger] g.spec_get(c)
                == (match spec_last_write(entries@, c) {
                Some(b) => b,
                None => Block::<Direction>::Empty
            }) by {
                zorder::lemma_interleave_monotone(c.x, c.y, x_max, y_max);
                zorder::lemma_deinterleave_interleave(c.x, c.y);
            }
        }
        g
    }

    /// Every coordinate of the rectangle in the grid's canonical iteration
    /// order, x-major then y: entry `k` is the coordinate
    /// `(k / height, k % height)`.
    pub fn iter_coordinates(&self) -> (v: Vec<Coordinate>)
        ensures
            v@.len() == self.spec_width() * self.spec_height(),
            forall|k: int|
                0 <= k < v@.len() ==> #[trigger] v@[k] == (Coordinate {
                    x: (k / self.spec_height() as int) as u16,
                    y: (k % self.spec_height() as int) as u16,
                }),
    {
        let mut v: Vec<Coordinate> = Vec::new();
        let w = self.width;
        let h = self.height;
        let mut x: SmallNat = 0;
        while x < w
            invariant
                x <= w,
                w == self.spec_width(),
                h == self.spec_height(),
                v@.len() == x * h,
                forall|k: int|
                    0 <= k < v@.len() ==> #[trigger] v@[k] == (Coordinate {
                        x: (k / h as int) as u16,
                        y: (k % h as int) as u16,
                    }),
            decreases w - x,
        {
            let mut y: SmallNat = 0;
            while y < h
                invariant
                    x < w,
                    y <= h,
                    w == self.spec_width(),
                    h == self.spec_height(),
                    v@.len() == x * h + y,
                    forall|k: int|
                        0 <= k < v@.len() ==> #[trigger] v@[k] == (Coordinate {
                            x: (k / h as int) as u16,
                            y: (k % h as int) as u16,
                        }),
                decreases h - y,
            {
                proof {
                    vstd::arithmetic::div_mod::lemma_fundamental_div_mod_converse(
                        x * h + y,
                        h as int,
                        x as int,
                        y as int,
                    );
                }
                v.push(Coordinate { x, y });
                y += 1;
            }
            proof {
                assert((x + 1) * h == x * h + h) by (nonlinear_arith);
            }
            x += 1;
        }
        v
    }
}

/// The set of coordinates of a `width x height` rectangle.
pub open spec fn spec_rect_set(width: u16, height: u16) -> Set<Coordinate> {
    Set::new(|c: Coordinate| c.x < width && c.y < height)
}

/// The dense-slot indices below `n` that hold real cell state.
pub open spec fn spec_non_oob_prefix(blocks: Seq<Block<Direction>>, n: int) -> Set<int> {
    Set::new(|j: int| 0 <= j < n && !(blocks[j] is OutOfBound))
}

/// A rectangle holds exactly `width * height` coordinates.
proof fn lemma_rect_set_card(width: u16, height: u16)
    ensures
        spec_rect_set(width, height).finite(),
        spec_rect_set(width, height).len() == width * height,
    decreases height,
{
    broadcast use vstd::set::group_set_axioms;

    if height == 0 {
        assert(spec_rect_set(width, 0) =~= Set::<Coordinate>::empty());
    } else {
        let prev = spec_rect_set(width, (height - 1) as u16);
        let row = Set::new(|c: Coordinate| c.x < width && c.y == height - 1);
        lemma_rect_set_card(width, (height - 1) as u16);
        vstd::set_lib::lemma_int_range(0, width as int);
        let g = |j: int| Coordinate { x: j as u16, y: (height - 1) as u16 };
        assert(vstd::relations::injective_on(g, vstd::set_lib::set_int_range(0, width as int)));
        assert(vstd::set_lib::set_int_range(0, width as int).map(g) =~= row) by {
            assert forall|c: Coordinate| row.contains(c) implies vstd::set_lib::set_int_range(
                0,
                width as int,
            ).map(g).contains(c) by {
                assert(vstd::set_lib::set_int_range(0, width as int).contains(c.x as int) && g(
                    c.x as int,
                ) == c);
            }
        }
        vstd::set_lib::lemma_map_size(
            vstd::set_lib::set_int_range(0, width as int),
            row,
            g,
        );
        assert(spec_rect_set(width, height) =~= prev + row);
        assert(prev.disjoint(row));
        vstd::set_lib::lemma_set_disjoint_lens(prev, row);
        assert(width * (height - 1) + width == width * height) by (nonlinear_arith);
    }
}

/// Of the dense slots covering a rectangle's index range, exactly
/// `width * height` decode to coordinates inside the rectangle: the codec
/// maps the rectangle one-to-one onto those slots.
pub proof fn lemma_rect_slot_count(width: u16, height: u16)
    requires
        width >= 1,
        height >= 1,
    ensures
        ({
            let s = Set::new(
                |j: int|
                    0 <= j < spec_storage_len(width, height) && Coordinate::spec_decode(j as u32).x
                        < width && Coordinate::spec_decode(j as u32).y < height,
            );
            s.finite() && s.len() == width * height
        }),
{
    let len = spec_storage_len(width, height);
    let s = Set::new(
        |j: int|
            0 <= j < len && Coordinate::spec_decode(j as u32).x < width && Coordinate::spec_decode(
                j as u32,
            ).y < height,
    );
    let r = spec_rect_set(width, height);
    let f = |c: Coordinate| zorder::spec_interleave(c.x, c.y) as int;
    lemma_rect_set_card(width, height);
    assert forall|c1: Coordinate, c2: Coordinate|
        r.contains(c1) && r.contains(c2) && #[trigger] f(c1) == #[trigger] f(c2) implies c1
        == c2 by {
        zorder::lemma_deinterleave_interleave(c1.x, c1.y);
        zorder::lemma_deinterleave_interleave(c2.x, c2.y);
    }
    assert(r.map(f) =~= s) by {
        assert forall|j: int| s.contains(j) implies r.map(f).contains(j) by {
            let c = Coordinate::spec_decode(j as u32);
            zorder::lemma_interleave_deinterleave(j as u32);
            assert(r.contains(c) && f(c) == j);
        }
        assert forall|j: int| r.map(f).contains(j) implies s.contains(j) by {
            let c = choose|c: Coordinate| r.contains(c) && j == f(c);
            zorder::lemma_interleave_monotone(c.x, c.y, (width - 1) as u16, (height - 1) as u16);
            zorder::lemma_deinterleave_interleave(c.x, c.y);
        }
    }
    vstd::set_lib::lemma_map_size(r, s, f);
}

impl Grid {
    /// How many dense slots hold real cell state rather than the sentinel:
    /// exactly the area of the rectangle.
    pub fn non_out_of_bound_count(&self) -> (n: usize)
        requires
            self.wf(),
        ensures
            n == self.spec_width() * self.spec_height(),
    {
        let mut n: usize = 0;
        let mut i: usize = 0;
        let len = self.blocks.len();
        let ghost mut s = Set::<int>::empty();
        proof {
            broadcast use vstd::set::group_set_axioms;

            assert(s =~= spec_non_oob_prefix(self.spec_blocks(), 0));
        }
        while i < len
            invariant
                i <= len,
                len == self.spec_blocks().len(),
                s == spec_non_oob_prefix(self.spec_blocks(), i as int),
                s.finite(),
                n == s.len(),
                n <= i,
            decreases len - i,
        {
            let b = self.blocks[i];
            match b {
                Block::OutOfBound => {
                    proof {
                        assert(s =~= spec_non_oob_prefix(self.spec_blocks(), i as int + 1));
                    }
                },
                _ => {
                    n += 1;
                    proof {
                        assert(!s.contains(i as int));
                        vstd::set::axiom_set_insert_len(s, i as int);
                        s = s.insert(i as int);
                        assert(s =~= spec_non_oob_prefix(self.spec_blocks(), i as int + 1));
                    }
                },
            }
            i += 1;
        }
        proof {
            lemma_rect_slot_count(self.spec_width(), self.spec_height());
            assert(s =~= Set::new(
                |j: int|
                    0 <= j < spec_storage_len(self.spec_width(), self.spec_height())
                        && Coordinate::spec_decode(j as u32).x < self.spec_width()
                        && Coordinate::spec_decode(j as u32).y < self.spec_height(),
            ));
        }
        n
    }
}

/// The standard random generator of the rand crate, opaque here; values of
/// it are only carried through to the sampling call below.
#[verifier::external_type_specification]
#[verifier::external_body]
pub struct ExStdRng(rand::rngs::StdRng);

/// Relies on rand's `RngExt::random_range`: a sample from the non-empty
/// range `0..bound` lies below the bound, whatever the generator's state.
#[verifier::external_body]
fn sample_below(rng: &mut rand::rngs::StdRng, bound: u16) -> (r: u16)
    requires
        bound > 0,
    ensures
        r < bound,
{
    rng.random_range(0..bound)
}

impl UncheckedCoordinate {
    /// Resolve this tentative coordinate against the bounds of `grid` with
    /// the statically chosen policy `B`.
    pub fn inside<B: BoundingBehavior>(self, grid: &Grid) -> (r: Option<Coordinate>)
        requires
            grid.wf(),
        ensures
            r == B::spec_resolve(self, grid.spec_width(), grid.spec_height()),
    {
        B::resolve(self, grid.width(), grid.height())
    }
}

} // verus!
