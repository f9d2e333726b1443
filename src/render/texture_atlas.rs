use vstd::prelude::*;

verus! {

/// A run of free columns `[start, end)` in one row of the atlas.
#[derive(Debug, Clone, Copy, PartialEq, Eq)]
pub struct FreeRange {
    pub start: u16,
    pub end: u16,
}

impl FreeRange {
    pub fn new(start: u16, end: u16) -> (r: FreeRange)
        requires
            start <= end,
        ensures
            r == (FreeRange { start, end }),
    {
        FreeRange { start, end }
    }

    pub fn len(&self) -> (r: u16)
        requires
            self.start <= self.end,
        ensures
            r == self.end - self.start,
    {
        self.end - self.start
    }

    /// The two parts of the range on either side of `x`, when `x` lies in it.
    pub fn split(self, x: u16) -> (r: Option<(FreeRange, FreeRange)>)
        ensures
            self.start <= x < self.end ==> r == Some(
                (FreeRange { start: self.start, end: x }, FreeRange { start: x, end: self.end }),
            ),
            !(self.start <= x < self.end) ==> r is None,
    {
        if self.contains(x) {
            Some((FreeRange::new(self.start, x), FreeRange::new(x, self.end)))
        } else {
            None
        }
    }

    pub fn contains(&self, x: u16) -> (r: bool)
        ensures
            r == (self.start <= x < self.end),
    {
        self.start <= x && x < self.end
    }
}

/// The common part of two ranges, when they share a column.
pub open spec fn overlap(a: FreeRange, b: FreeRange) -> Option<FreeRange> {
    let start = if a.start >= b.start { a.start } else { b.start };
    let end = if a.end <= b.end { a.end } else { b.end };
    if start < end {
        Some(FreeRange { start, end })
    } else {
        None
    }
}

/// The common parts of `a` with each range of `bv`, in the order of `bv`.
pub open spec fn overlaps_with(a: FreeRange, bv: Seq<FreeRange>) -> Seq<FreeRange>
    decreases bv.len(),
{
    if bv.len() == 0 {
        Seq::empty()
    } else {
        let rest = overlaps_with(a, bv.drop_last());
        match overlap(a, bv.last()) {
            Some(r) => rest.push(r),
            None => rest,
        }
    }
}

/// The common parts of each range of `av` with each range of `bv`, in the order of
/// `av` and then of `bv`. For two lists of ordered, disjoint ranges this is their
/// intersection, ordered.
pub open spec fn intersections(av: Seq<FreeRange>, bv: Seq<FreeRange>) -> Seq<FreeRange>
    decreases av.len(),
{
    if av.len() == 0 {
        Seq::empty()
    } else {
        intersections(av.drop_last(), bv) + overlaps_with(av.last(), bv)
    }
}

/// The columns that are free in both `av` and `bv`.
pub fn keep_intersection(av: &[FreeRange], bv: &[FreeRange]) -> (r: Vec<FreeRange>)
    ensures
        r@ == intersections(av@, bv@),
{
    let mut intersection: Vec<FreeRange> = Vec::new();
    let mut i: usize = 0;
    while i < av.len()
        invariant
            i <= av@.len(),
            intersection@ == intersections(av@.take(i as int), bv@),
        decreases av@.len() - i,
    {
        let a = av[i];
        let ghost before = intersection@;
        let mut j: usize = 0;
        while j < bv.len()
            invariant
                i < av@.len(),
                a == av@[i as int],
                j <= bv@.len(),
                intersection@ == before + overlaps_with(a, bv@.take(j as int)),
            decreases bv@.len() - j,
        {
            let b = bv[j];
            let start = if a.start >= b.start { a.start } else { b.start };
            let end = if a.end <= b.end { a.end } else { b.end };
            assert(bv@.take(j + 1).drop_last() =~= bv@.take(j as int));
            if start < end {
                intersection.push(FreeRange { start, end });
            }
            j = j + 1;
            assert(intersection@ =~= before + overlaps_with(a, bv@.take(j as int)));
        }
        assert(bv@.take(j as int) =~= bv@);
        assert(av@.take(i + 1).drop_last() =~= av@.take(i as int));
        i = i + 1;
    }
    assert(av@.take(i as int) =~= av@);
    intersection
}

/// A range is at least `width` columns wide.
pub open spec fn wide(r: FreeRange, width: u16) -> bool {
    r.end - r.start >= width
}

/// The ranges of `s` that are at least `width` wide, in order.
pub open spec fn keep_wide(s: Seq<FreeRange>, width: u16) -> Seq<FreeRange>
    decreases s.len(),
{
    if s.len() == 0 {
        Seq::empty()
    } else if wide(s.last(), width) {
        keep_wide(s.drop_last(), width).push(s.last())
    } else {
        keep_wide(s.drop_last(), width)
    }
}

/// The first of the narrowest ranges of `s`.
pub open spec fn narrowest(s: Seq<FreeRange>) -> Option<FreeRange>
    decreases s.len(),
{
    if s.len() == 0 {
        None
    } else {
        match narrowest(s.drop_last()) {
            None => Some(s.last()),
            Some(r) => if s.last().end - s.last().start < r.end - r.start {
                Some(s.last())
            } else {
                Some(r)
            },
        }
    }
}

/// The column ranges at least `width` wide that are free in each of rows
/// `[y, y + h)`.
pub open spec fn common_free(rows: Seq<Seq<FreeRange>>, y: int, h: int, width: u16, size: u16) -> Seq<
    FreeRange,
>
    decreases h,
{
    if h <= 0 {
        seq![FreeRange { start: 0, end: size }]
    } else {
        keep_wide(intersections(common_free(rows, y, h - 1, width, size), rows[y + h - 1]), width)
    }
}

/// Where a `width` by `height` rectangle goes, searching from row `y`: the first row
/// below `size - height` where all `height` rows share a free range that wide, at the
/// start of the narrowest such range.
pub open spec fn placement(
    rows: Seq<Seq<FreeRange>>,
    size: u16,
    width: u16,
    height: u16,
    y: int,
) -> Option<(u16, u16)>
    decreases size - height - y,
{
    if y >= size - height {
        None
    } else {
        match narrowest(keep_wide(common_free(rows, y, height as int, width, size), width)) {
            Some(r) => Some((r.start, y as u16)),
            None => placement(rows, size, width, height, y + 1),
        }
    }
}

/// The free ranges of a row once columns `[x, x + width)` are taken from the first
/// range, from index `i` on, that holds `x`.
pub open spec fn carve_from(ranges: Seq<FreeRange>, x: u16, width: u16, i: int) -> Seq<FreeRange>
    decreases ranges.len() - i,
{
    if i < 0 || i >= ranges.len() {
        ranges
    } else if ranges[i].start <= x < ranges[i].end {
        let r = ranges[i];
        let before = FreeRange { start: r.start, end: x };
        if r.end <= x + width {
            if r.start == x {
                ranges.remove(i)
            } else {
                ranges.update(i, before)
            }
        } else {
            let after = FreeRange { start: (x + width) as u16, end: r.end };
            if r.start == x {
                ranges.update(i, after)
            } else {
                ranges.update(i, before).insert(i + 1, after)
            }
        }
    } else {
        carve_from(ranges, x, width, i + 1)
    }
}

/// The rows after a `width` by `height` rectangle at (`x`, `y`) is taken.
pub open spec fn carved(
    rows: Seq<Seq<FreeRange>>,
    x: u16,
    y: int,
    width: u16,
    height: int,
) -> Seq<Seq<FreeRange>> {
    Seq::new(
        rows.len(),
        |k: int|
            if y <= k < y + height {
                carve_from(rows[k], x, width, 0)
            } else {
                rows[k]
            },
    )
}

fn keep_wide_ranges(v: &Vec<FreeRange>, width: u16) -> (r: Vec<FreeRange>)
    ensures
        r@ == keep_wide(v@, width),
{
    let mut out: Vec<FreeRange> = Vec::new();
    let mut i: usize = 0;
    while i < v.len()
        invariant
            i <= v@.len(),
            out@ == keep_wide(v@.take(i as int), width),
        decreases v@.len() - i,
    {
        let r = v[i];
        assert(v@.take(i + 1).drop_last() =~= v@.take(i as int));
        if r.end >= r.start && r.end - r.start >= width {
            out.push(r);
        }
        i = i + 1;
    }
    assert(v@.take(i as int) =~= v@);
    out
}

fn narrowest_range(v: &Vec<FreeRange>) -> (r: Option<FreeRange>)
    ensures
        r == narrowest(v@),
{
    let mut best: Option<FreeRange> = None;
    let mut i: usize = 0;
    while i < v.len()
        invariant
            i <= v@.len(),
            best == narrowest(v@.take(i as int)),
        decreases v@.len() - i,
    {
        let r = v[i];
        assert(v@.take(i + 1).drop_last() =~= v@.take(i as int));
        best = match best {
            None => Some(r),
            Some(b) => if (r.end as i32 - r.start as i32) < (b.end as i32 - b.start as i32) {
                Some(r)
            } else {
                Some(b)
            },
        };
        i = i + 1;
    }
    assert(v@.take(i as int) =~= v@);
    best
}

fn carve(ranges: &mut Vec<FreeRange>, x: u16, width: u16)
    requires
        x + width <= 0xffff,
    ensures
        final(ranges)@ == carve_from(old(ranges)@, x, width, 0),
{
    let mut i: usize = 0;
    while i < ranges.len()
        invariant
            i <= ranges@.len(),
            ranges@ == old(ranges)@,
            x + width <= 0xffff,
            carve_from(ranges@, x, width, 0) == carve_from(ranges@, x, width, i as int),
        decreases ranges@.len() - i,
    {
        let r = ranges[i];
        if r.start <= x && x < r.end {
            let before = FreeRange { start: r.start, end: x };
            if r.end <= x + width {
                if r.start == x {
                    ranges.remove(i);
                } else {
                    ranges.set(i, before);
                }
            } else {
                let after = FreeRange { start: x + width, end: r.end };
                if r.start == x {
                    ranges.set(i, after);
                } else {
                    ranges.set(i, before);
                    ranges.insert(i + 1, after);
                }
            }
            return;
        }
        i = i + 1;
    }
}

proof fn lemma_keep_wide_is_wide(s: Seq<FreeRange>, width: u16)
    ensures
        forall|i: int| 0 <= i < keep_wide(s, width).len() ==> wide(#[trigger] keep_wide(s, width)[i], width),
    decreases s.len(),
{
    if s.len() > 0 {
        lemma_keep_wide_is_wide(s.drop_last(), width);
        let kept = keep_wide(s, width);
        let rest = keep_wide(s.drop_last(), width);
        assert forall|i: int| 0 <= i < kept.len() implies wide(#[trigger] kept[i], width) by {
            if wide(s.last(), width) && i == rest.len() {
                assert(kept[i] == s.last());
            } else {
                assert(kept[i] == rest[i]);
            }
        }
    }
}

proof fn lemma_narrowest_is_one(s: Seq<FreeRange>)
    ensures
        narrowest(s) matches Some(r) ==> exists|i: int| 0 <= i < s.len() && s[i] == r,
    decreases s.len(),
{
    if s.len() > 0 {
        lemma_narrowest_is_one(s.drop_last());
        if let Some(r) = narrowest(s.drop_last()) {
            let i = choose|i: int| 0 <= i < s.drop_last().len() && s.drop_last()[i] == r;
            assert(s[i] == r);
        }
    }
}

/// Free space of a square texture, row by row: each row holds its free ranges in
/// order.
pub struct TextureAtlas {
    size: u16,
    rows: Vec<Vec<FreeRange>>,
}

impl TextureAtlas {
    pub closed spec fn spec_size(&self) -> u16 {
        self.size
    }

    /// The free ranges of each row.
    pub closed spec fn free_rows(&self) -> Seq<Seq<FreeRange>> {
        Seq::new(self.rows@.len(), |k: int| self.rows@[k]@)
    }

    /// One row per texel of height.
    pub open spec fn wf(&self) -> bool {
        self.free_rows().len() == self.spec_size()
    }

    /// An empty atlas of `size` by `size` texels.
    pub fn new(size: usize) -> (r: TextureAtlas)
        requires
            size <= 0xffff,
        ensures
            r.wf(),
            r.spec_size() == size,
            forall|y: int| 0 <= y < size ==> #[trigger] r.free_rows()[y] == seq![
                FreeRange { start: 0, end: size as u16 },
            ],
    {
        let size = size as u16;
        let mut rows: Vec<Vec<FreeRange>> = Vec::new();
        while rows.len() < size as usize
            invariant
                rows@.len() <= size,
                forall|y: int| 0 <= y < rows@.len() ==> #[trigger] rows@[y]@ == seq![
                    FreeRange { start: 0, end: size },
                ],
            decreases size - rows@.len(),
        {
            let mut row: Vec<FreeRange> = Vec::new();
            row.push(FreeRange::new(0, size));
            assert(row@ =~= seq![FreeRange { start: 0, end: size }]);
            rows.push(row);
        }
        TextureAtlas { size, rows }
    }

    /// Takes a free `width` by `height` rectangle: in the first row where one starts
    /// (below `size - height`), at the start of the narrowest free range that fits.
    /// Returns its position `[x, y]`, or `None`, with nothing taken, when no such row
    /// has room.
    pub fn reserve(&mut self, width: usize, height: usize) -> (r: Option<[u16; 2]>)
        requires
            old(self).wf(),
            width <= 0xffff,
            height <= 0xffff,
        ensures
            final(self).wf(),
            final(self).spec_size() == old(self).spec_size(),
            match placement(
                old(self).free_rows(),
                old(self).spec_size(),
                width as u16,
                height as u16,
                0,
            ) {
                Some((x, y)) => (r matches Some(p) && p[0] == x && p[1] == y) && final(self).free_rows() == carved(
                    old(self).free_rows(),
                    x,
                    y as int,
                    width as u16,
                    height as int,
                ),
                None => r is None && final(self).free_rows() == old(self).free_rows(),
            },
    {
        let w = width as u16;
        let h = height as u16;
        let ghost rows0 = self.free_rows();
        let limit = self.size.saturating_sub(h);
        let mut y: u16 = 0;
        while y < limit
            invariant
                self.wf(),
                w == width as u16,
                h == height as u16,
                height <= 0xffff,
                self.size == old(self).spec_size(),
                self.free_rows() == rows0,
                rows0 == old(self).free_rows(),
                limit == (if self.size >= h { self.size - h } else { 0 }),
                y <= limit,
                placement(rows0, self.size, w, h, 0) == placement(
                    rows0,
                    self.size,
                    w,
                    h,
                    y as int,
                ),
            decreases limit - y,
        {
            let mut columns: Vec<FreeRange> = Vec::new();
            columns.push(FreeRange::new(0, self.size));
            assert(columns@ =~= common_free(rows0, y as int, 0, w, self.size));
            let mut k: u16 = 0;
            while k < h
                invariant
                    self.free_rows() == rows0,
                    self.wf(),
                    y < limit,
                    limit == self.size - h,
                    k <= h,
                    columns@ == common_free(rows0, y as int, k as int, w, self.size),
                decreases h - k,
            {
                let index = (y + k) as usize;
                assert(self.rows@[index as int]@ == rows0[index as int]);
                let row = &self.rows[index];
                let common = keep_intersection(columns.as_slice(), row.as_slice());
                columns = keep_wide_ranges(&common, w);
                k = k + 1;
            }
            let candidates = keep_wide_ranges(&columns, w);
            match narrowest_range(&candidates) {
                None => {
                    y = y + 1;
                },
                Some(range) => {
                    proof {
                        lemma_narrowest_is_one(candidates@);
                        lemma_keep_wide_is_wide(columns@, w);
                    }
                    let x = range.start;
                    assert(wide(range, w));
                    assert(candidates@ == keep_wide(
                        common_free(rows0, y as int, h as int, w, self.size),
                        w,
                    ));
                    let mut j: u16 = 0;
                    assert(placement(rows0, self.size, w, h, y as int) == Some((x, y)));
                    assert(self.free_rows() =~= Seq::new(
                        rows0.len(),
                        |k: int|
                            if y <= k < y + j {
                                carve_from(rows0[k], x, w, 0)
                            } else {
                                rows0[k]
                            },
                    ));
                    while j < h
                        invariant
                            self.wf(),
                            w == width as u16,
                            h == height as u16,
                            height <= 0xffff,
                            self.size == old(self).spec_size(),
                            y < limit,
                            limit == self.size - h,
                            j <= h,
                            x + w <= 0xffff,
                            rows0 == old(self).free_rows(),
                            placement(rows0, self.size, w, h, 0) == Some((x, y)),
                            self.free_rows() == Seq::new(
                                rows0.len(),
                                |k: int|
                                    if y <= k < y + j {
                                        carve_from(rows0[k], x, w, 0)
                                    } else {
                                        rows0[k]
                                    },
                            ),
                        decreases h - j,
                    {
                        let index = (y + j) as usize;
                        let ghost before = self.free_rows();
                        assert(self.rows@[index as int]@ == before[index as int]);
                        assert(before[index as int] == rows0[index as int]);
                        let mut row = vstd::slice::slice_to_vec(self.rows[index].as_slice());
                        carve(&mut row, x, w);
                        let ghost old_rows = self.rows@;
                        self.rows.set(index, row);
                        assert(self.rows@[index as int]@ == carve_from(rows0[index as int], x, w, 0));
                        assert(forall|k: int|
                            0 <= k < old_rows.len() && k != index ==> self.rows@[k] == old_rows[k]);
                        j = j + 1;
                        let ghost goal = Seq::new(
                            rows0.len(),
                            |k: int|
                                if y <= k < y + j {
                                    carve_from(rows0[k], x, w, 0)
                                } else {
                                    rows0[k]
                                },
                        );
                        assert forall|k: int| 0 <= k < rows0.len() implies #[trigger] self.free_rows()[k]
                            == goal[k] by {
                            if k != index {
                                assert(self.rows@[k] == old_rows[k]);
                                assert(old_rows[k]@ == before[k]);
                            }
                        }
                        assert(self.free_rows() =~= goal);
                    }
                    assert(self.free_rows() =~= carved(rows0, x, y as int, w, h as int));
                    assert(placement(rows0, self.size, w, h, y as int) == Some((x, y)));
                    let position = [x, y];
                    assert(position[0] == x && position[1] == y);
                    return Some(position);
                },
            }
        }
        assert(placement(rows0, self.size, w, h, y as int) == None::<(u16, u16)>);
        None
    }
}

} // verus!
