//! An asset's timeline and the year-by-year schedule of its costs.

use vstd::prelude::*;
use std::ops::RangeInclusive;

verus! {

/// A calendar year.
pub type Year = i16;

/// The six years that bound an asset's construction, operation and
/// decommissioning periods. Each period is inclusive at both ends.
#[derive(Debug, Clone, Copy, PartialEq, Eq, Structural)]
pub struct Timeline {
    pub construction_start: Year,
    pub construction_finish: Year,
    pub operation_start: Year,
    pub operation_finish: Year,
    pub decommissioning_start: Year,
    pub decommissioning_finish: Year,
}

/// One year of an asset's life: which periods it falls in, and how many
/// years it lies after the first.
#[derive(Debug, Clone, Copy, PartialEq, Eq, Structural)]
pub struct YearSlot {
    pub year: Year,
    /// Years since the start of construction; the exponent of discounting.
    pub offset: u32,
    pub construction: bool,
    pub operation: bool,
    pub decommissioning: bool,
}

/// Whether `y` lies in the inclusive range from `lo` to `hi`.
pub open spec fn in_range(lo: Year, hi: Year, y: int) -> bool {
    lo <= y <= hi
}

/// The number of years in the inclusive range from `lo` to `hi`.
pub open spec fn range_len(lo: Year, hi: Year) -> nat {
    if hi < lo {
        0
    } else {
        (hi - lo + 1) as nat
    }
}

/// The `i`-th year of a timeline, counted from the start of construction.
pub open spec fn slot(t: Timeline, i: int) -> YearSlot {
    let y = t.construction_start + i;
    YearSlot {
        year: y as Year,
        offset: i as u32,
        construction: in_range(t.construction_start, t.construction_finish, y),
        operation: in_range(t.operation_start, t.operation_finish, y),
        decommissioning: in_range(t.decommissioning_start, t.decommissioning_finish, y),
    }
}

/// The number of years in the inclusive range from `lo` to `hi`.
pub fn years_between(lo: Year, hi: Year) -> (r: usize)
    ensures
        r == range_len(lo, hi),
{
    if hi < lo {
        0
    } else {
        (hi as i32 - lo as i32 + 1) as usize
    }
}

impl Timeline {
    /// First year of the asset's life.
    pub fn start(&self) -> (r: Year)
        ensures
            r == self.construction_start,
    {
        self.construction_start
    }

    /// Last year of the asset's life.
    pub fn end(&self) -> (r: Year)
        ensures
            r == self.decommissioning_finish,
    {
        self.decommissioning_finish
    }

    /// Every year of the asset's life.
    pub fn range(&self) -> (r: RangeInclusive<Year>)
        ensures
            r@.start == self.construction_start,
            r@.end == self.decommissioning_finish,
            !r@.exhausted,
    {
        RangeInclusive::new(self.start(), self.end())
    }

    /// The years of construction.
    pub fn construction_range(&self) -> (r: RangeInclusive<Year>)
        ensures
            r@.start == self.construction_start,
            r@.end == self.construction_finish,
            !r@.exhausted,
    {
        RangeInclusive::new(self.construction_start, self.construction_finish)
    }

    /// The years of operation.
    pub fn operation_range(&self) -> (r: RangeInclusive<Year>)
        ensures
            r@.start == self.operation_start,
            r@.end == self.operation_finish,
            !r@.exhausted,
    {
        RangeInclusive::new(self.operation_start, self.operation_finish)
    }

    /// The years of decommissioning.
    pub fn decommissioning_range(&self) -> (r: RangeInclusive<Year>)
        ensures
            r@.start == self.decommissioning_start,
            r@.end == self.decommissioning_finish,
            !r@.exhausted,
    {
        RangeInclusive::new(self.decommissioning_start, self.decommissioning_finish)
    }

    /// How many years construction lasts; capital cost is spread over them.
    pub fn construction_years(&self) -> (r: usize)
        ensures
            r == range_len(self.construction_start, self.construction_finish),
    {
        years_between(self.construction_start, self.construction_finish)
    }

    /// How many years decommissioning lasts; its cost is spread over them.
    pub fn decommissioning_years(&self) -> (r: usize)
        ensures
            r == range_len(self.decommissioning_start, self.decommissioning_finish),
    {
        years_between(self.decommissioning_start, self.decommissioning_finish)
    }

    /// Every year of the asset's life, from the start of construction to the
    /// end of decommissioning, with the periods it falls in.
    pub fn schedule(&self) -> (r: Vec<YearSlot>)
        ensures
            r@.len() == range_len(self.construction_start, self.decommissioning_finish),
            forall|i: int| 0 <= i < r@.len() ==> #[trigger] r@[i] == slot(*self, i),
    {
        let mut r: Vec<YearSlot> = Vec::new();
        if self.decommissioning_finish < self.construction_start {
            return r;
        }
        let mut year: Year = self.construction_start;
        let mut offset: u32 = 0;
        loop
            invariant
                self.construction_start <= year <= self.decommissioning_finish,
                offset == year - self.construction_start,
                r@.len() == offset,
                forall|i: int| 0 <= i < r@.len() ==> #[trigger] r@[i] == slot(*self, i),
            decreases self.decommissioning_finish - year,
        {
            let s = YearSlot {
                year,
                offset,
                construction: self.construction_start <= year && year <= self.construction_finish,
                operation: self.operation_start <= year && year <= self.operation_finish,
                decommissioning: self.decommissioning_start <= year && year
                    <= self.decommissioning_finish,
            };
            r.push(s);
            if year == self.decommissioning_finish {
                return r;
            }
            year = year + 1;
            offset = offset + 1;
        }
    }
}

/// Capital cost, spread over the years of construction, lands in the
/// schedule in full: when construction ends no later than decommissioning,
/// the years flagged as construction are exactly the first
/// `range_len(construction_start, construction_finish)` years of the
/// schedule, so the shares of an even split add back up to the whole.
pub proof fn lemma_construction_years_in_schedule(t: Timeline, i: int)
    requires
        t.construction_finish <= t.decommissioning_finish,
        0 <= i < range_len(t.construction_start, t.decommissioning_finish),
    ensures
        range_len(t.construction_start, t.construction_finish) <= range_len(
            t.construction_start,
            t.decommissioning_finish,
        ),
        slot(t, i).construction <==> i < range_len(t.construction_start, t.construction_finish),
{
}

/// Discounting starts at nothing and grows: the first year of the schedule
/// is the start of construction, at offset zero, and a later year has a
/// strictly greater offset.
pub proof fn lemma_discount_offsets(t: Timeline, i: int, j: int)
    requires
        0 <= i < j < range_len(t.construction_start, t.decommissioning_finish),
    ensures
        slot(t, 0).year == t.construction_start,
        slot(t, 0).offset == 0,
        slot(t, i).offset < slot(t, j).offset,
        slot(t, j).offset == j,
{
}

} // verus!
