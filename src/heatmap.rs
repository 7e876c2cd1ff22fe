//! The strongest contact in a heatmap: the cell of least value, first of its
//! kind, and the spread of values that says whether anything touches.
use vstd::prelude::*;

verus! {

/// Result of one pass over a heatmap: where the least value was first met,
/// that value, and the greatest value met at a cell that did not lower the
/// least one.
#[derive(Debug, Clone, Copy, PartialEq, Eq)]
pub struct HeatmapExtremes {
    pub min_index: usize,
    pub min: u8,
    pub max: u8,
}

/// The pass over the cells of `h`, front to back, from index 0, value 255
/// and maximum 0.
pub open spec fn extremes(h: Seq<u8>) -> HeatmapExtremes
    decreases h.len(),
{
    if h.len() == 0 {
        HeatmapExtremes { min_index: 0, min: 255, max: 0 }
    } else {
        let e = extremes(h.drop_last());
        let v = h.last();
        if v < e.min {
            HeatmapExtremes { min_index: (h.len() - 1) as usize, min: v, max: e.max }
        } else if v > e.max {
            HeatmapExtremes { max: v, ..e }
        } else {
            e
        }
    }
}

/// One pass over the heatmap's cells.
pub fn heatmap_extremes(heatmap: &[u8]) -> (r: HeatmapExtremes)
    ensures
        r == extremes(heatmap@),
{
    let mut r = HeatmapExtremes { min_index: 0, min: 255, max: 0 };
    let mut i: usize = 0;
    while i < heatmap.len()
        invariant
            i <= heatmap@.len(),
            r == extremes(heatmap@.take(i as int)),
        decreases heatmap@.len() - i,
    {
        let v = heatmap[i];
        assert(heatmap@.take(i + 1).drop_last() =~= heatmap@.take(i as int));
        if v < r.min {
            r = HeatmapExtremes { min_index: i, min: v, max: r.max };
        } else if v > r.max {
            r = HeatmapExtremes { min_index: r.min_index, min: r.min, max: v };
        }
        i = i + 1;
    }
    assert(heatmap@.take(i as int) =~= heatmap@);
    r
}

impl HeatmapExtremes {
    /// Something touches where the values spread by more than ten.
    pub fn has_contact(&self) -> (r: bool)
        ensures
            r == (self.max as int - self.min as int > 10),
    {
        self.max > self.min && self.max - self.min > 10
    }

    /// Column and row of the least value in a heatmap `width` cells wide.
    pub fn cell(&self, width: u8) -> (r: (usize, usize))
        requires
            width > 0,
        ensures
            r.0 == self.min_index as int % width as int,
            r.1 == self.min_index as int / width as int,
    {
        (self.min_index % width as usize, self.min_index / width as usize)
    }
}

} // verus!
