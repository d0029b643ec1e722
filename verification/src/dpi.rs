//! Sensor resolutions: the values a device supports and how they are described.

use vstd::prelude::*;

use crate::error::WriteError;

verus! {

/// A sensor resolution in dots per inch.
#[derive(Debug, Clone, Copy, PartialEq, Eq, PartialOrd, Ord, Structural)]
pub struct Dpi(pub u16);

impl Dpi {
    /// The resolution of `value` dots per inch.
    pub fn new(value: u16) -> (dpi: Self)
        ensures
            dpi == Dpi(value),
    {
        Dpi(value)
    }
}

/// The distance between two resolutions.
pub open spec fn distance(a: Dpi, b: Dpi) -> int {
    if a.0 <= b.0 {
        b.0 - a.0
    } else {
        a.0 - b.0
    }
}

/// Whether `values` are in ascending order, none of them twice.
pub open spec fn ascending(values: Seq<Dpi>) -> bool {
    forall|i: int, j: int| 0 <= i < j < values.len() ==> (#[trigger] values[i]).0 < (
    #[trigger] values[j]).0
}

/// Whether `found` is the one of `values` that is nearest to `wanted`, the lower
/// one of two that are equally near.
pub open spec fn is_nearest(values: Seq<Dpi>, wanted: Dpi, found: Dpi) -> bool {
    &&& values.contains(found)
    &&& forall|i: int|
        0 <= i < values.len() ==> {
            ||| distance(found, wanted) < distance(#[trigger] values[i], wanted)
            ||| distance(found, wanted) == distance(values[i], wanted) && found.0 <= values[i].0
        }
}

/// The resolutions a device supports.
#[derive(Debug, PartialEq, Eq)]
pub struct DpiCapabilities {
    values: Vec<Dpi>,
}

impl View for DpiCapabilities {
    type V = Seq<Dpi>;

    closed spec fn view(&self) -> Seq<Dpi> {
        self.values@
    }
}

impl Clone for DpiCapabilities {
    fn clone(&self) -> (copy: Self)
        ensures
            copy@ == self@,
    {
        proof {
            use_type_invariant(self);
        }
        let values = self.values.clone();
        assert(values@ =~= self.values@);
        DpiCapabilities { values }
    }
}

impl DpiCapabilities {
    /// There is a value, and the values are in ascending order, none twice.
    #[verifier::type_invariant]
    spec fn sorted(&self) -> bool {
        self.values.len() > 0 && ascending(self.values@)
    }

    /// The capabilities of a device that reports `reported`, which may come in any
    /// order and repeat values. A device that reports nothing has none.
    pub fn new(reported: Vec<u16>) -> (capabilities: Result<Self, WriteError>)
        ensures
            match capabilities {
                Ok(capabilities) => {
                    &&& reported.len() > 0
                    &&& capabilities@.len() > 0
                    &&& ascending(capabilities@)
                    &&& forall|v: u16|
                        capabilities@.contains(Dpi(v)) <==> #[trigger] reported@.contains(v)
                },
                Err(e) => reported.len() == 0 && e is EmptyDpiList,
            },
    {
        if reported.len() == 0 {
            return Err(WriteError::EmptyDpiList);
        }
        let mut values: Vec<Dpi> = Vec::new();
        let mut i: usize = 0;
        while i < reported.len()
            invariant
                i <= reported.len(),
                ascending(values@),
                i > 0 ==> values.len() > 0,
                forall|v: u16|
                    #![trigger values@.contains(Dpi(v))]
                    values@.contains(Dpi(v)) <==> reported@.take(i as int).contains(v),
            decreases reported.len() - i,
        {
            let value: u16 = reported[i];
            let ghost before = values@;
            let mut at: usize = 0;
            while at < values.len() && values[at].0 < value
                invariant
                    at <= values.len(),
                    forall|j: int| 0 <= j < at ==> (#[trigger] values[j]).0 < value,
                decreases values.len() - at,
            {
                at += 1;
            }
            if at == values.len() || values[at].0 != value {
                values.insert(at, Dpi(value));
                proof {
                    assert(values@ == before.insert(at as int, Dpi(value)));
                    assert forall|v: u16| before.contains(Dpi(v)) implies #[trigger] values@.contains(
                        Dpi(v),
                    ) by {
                        let j = choose|j: int| 0 <= j < before.len() && before[j] == Dpi(v);
                        if j < at {
                            assert(values@[j] == Dpi(v));
                        } else {
                            assert(values@[j + 1] == Dpi(v));
                        }
                    }
                    assert forall|v: u16| #[trigger] values@.contains(Dpi(v)) && v != value implies before.contains(
                        Dpi(v),
                    ) by {
                        let j = choose|j: int| 0 <= j < values@.len() && values@[j] == Dpi(v);
                        if j < at {
                            assert(before[j] == Dpi(v));
                        } else {
                            assert(before[j - 1] == Dpi(v));
                        }
                    }
                    assert(values@[at as int] == Dpi(value));
                    assert(values@.contains(Dpi(value)));
                }
            } else {
                assert(values@[at as int] == Dpi(value));
                assert(values@.contains(Dpi(value)));
            }
            proof {
                let now = reported@.take(i + 1);
                let earlier = reported@.take(i as int);
                assert(now =~= earlier.push(value));
                assert forall|v: u16| now.contains(v) <==> (earlier.contains(v) || v == value) by {
                    if earlier.contains(v) {
                        let j = choose|j: int| 0 <= j < earlier.len() && earlier[j] == v;
                        assert(now[j] == v);
                    }
                    assert(now[i as int] == value);
                    if now.contains(v) && v != value {
                        let j = choose|j: int| 0 <= j < now.len() && now[j] == v;
                        assert(earlier[j] == v);
                    }
                }
            }
            i += 1;
        }
        assert(reported@.take(i as int) =~= reported@);
        Ok(DpiCapabilities { values })
    }

    /// The supported values, in ascending order.
    pub fn values(&self) -> (values: &[Dpi])
        ensures
            values@ == self@,
            values.len() > 0,
            ascending(values@),
    {
        proof {
            use_type_invariant(self);
        }
        self.values.as_slice()
    }

    /// The lowest supported value.
    pub fn min(&self) -> (dpi: Dpi)
        ensures
            self@.len() > 0,
            dpi == self@.first(),
            forall|i: int| 0 <= i < self@.len() ==> dpi.0 <= (#[trigger] self@[i]).0,
    {
        proof {
            use_type_invariant(self);
        }
        self.values[0]
    }

    /// The highest supported value.
    pub fn max(&self) -> (dpi: Dpi)
        ensures
            self@.len() > 0,
            dpi == self@.last(),
            forall|i: int| 0 <= i < self@.len() ==> dpi.0 >= (#[trigger] self@[i]).0,
    {
        proof {
            use_type_invariant(self);
        }
        self.values[self.values.len() - 1]
    }

    /// The supported value nearest to `wanted`, the lower one of two that are
    /// equally near.
    pub fn nearest(&self, wanted: Dpi) -> (found: Dpi)
        ensures
            is_nearest(self@, wanted, found),
    {
        proof {
            use_type_invariant(self);
        }
        let mut best: usize = 0;
        let mut i: usize = 1;
        while i < self.values.len()
            invariant
                self.sorted(),
                best < i <= self.values.len(),
                forall|j: int|
                    0 <= j < i ==> {
                        ||| distance(self.values@[best as int], wanted) < distance(
                            #[trigger] self.values@[j],
                            wanted,
                        )
                        ||| distance(self.values@[best as int], wanted) == distance(
                            self.values@[j],
                            wanted,
                        ) && self.values@[best as int].0 <= self.values@[j].0
                    },
            decreases self.values.len() - i,
        {
            if gap(self.values[i], wanted) < gap(self.values[best], wanted) {
                best = i;
            } else {
                assert(self@[best as int].0 < self@[i as int].0);
            }
            i += 1;
        }
        assert(self@[best as int] == self.values@[best as int]);
        self.values[best]
    }
}

fn gap(a: Dpi, b: Dpi) -> (d: u16)
    ensures
        d == distance(a, b),
{
    if a.0 <= b.0 {
        b.0 - a.0
    } else {
        a.0 - b.0
    }
}

/// There is one nearest value.
pub proof fn nearest_is_unique(values: Seq<Dpi>, wanted: Dpi, a: Dpi, b: Dpi)
    requires
        is_nearest(values, wanted, a),
        is_nearest(values, wanted, b),
    ensures
        a == b,
{
    let i = choose|i: int| 0 <= i < values.len() && values[i] == a;
    let j = choose|j: int| 0 <= j < values.len() && values[j] == b;
    assert(values[i] == a && values[j] == b);
}

/// A supported value is its own nearest value, so snapping twice is snapping
/// once.
pub proof fn supported_value_is_nearest_to_itself(values: Seq<Dpi>, value: Dpi)
    requires
        values.contains(value),
    ensures
        is_nearest(values, value, value),
{
}

/// The current resolution of a device and the ones it supports.
#[derive(Debug, PartialEq, Eq)]
pub struct DpiInfo {
    /// The current resolution.
    pub current: Dpi,
    /// The supported resolutions.
    pub capabilities: DpiCapabilities,
}

impl Clone for DpiInfo {
    fn clone(&self) -> (copy: Self)
        ensures
            copy.current == self.current,
            copy.capabilities@ == self.capabilities@,
    {
        DpiInfo { current: self.current, capabilities: self.capabilities.clone() }
    }
}

/// One range in a device's description of its resolutions.
#[derive(Debug, Clone, Copy, PartialEq, Eq, Structural)]
pub enum DpiRange {
    /// A single value.
    Fixed(u16),
    /// Values from `from` in steps of `step`, and `to`.
    Stepped {
        /// Lowest value.
        from: u16,
        /// Highest value.
        to: u16,
        /// Distance between values.
        step: u16,
    },
}

/// The values from `from` in steps of `step` that are below `to`, then `to`.
pub open spec fn step_grid(from: int, to: int, step: int) -> Seq<int>
    decreases
            (if from < to {
                to - from
            } else {
                0
            }),
{
    if from >= to {
        seq![to]
    } else if step <= 0 {
        seq![from, to]
    } else {
        seq![from] + step_grid(from + step, to, step)
    }
}

impl DpiRange {
    /// The values of the range.
    pub open spec fn offers(self) -> Seq<int> {
        match self {
            DpiRange::Fixed(value) => seq![value as int],
            DpiRange::Stepped { from, to, step } => step_grid(from as int, to as int, step as int),
        }
    }
}

/// The values of all ranges, one after the other.
pub open spec fn expanded(ranges: Seq<DpiRange>) -> Seq<int>
    decreases ranges.len(),
{
    if ranges.len() == 0 {
        Seq::empty()
    } else {
        expanded(ranges.drop_last()) + ranges.last().offers()
    }
}

/// `values` as mathematical integers.
pub open spec fn as_ints(values: Seq<u16>) -> Seq<int> {
    Seq::new(values.len(), |i: int| values[i] as int)
}

/// Lists the values that `ranges` describe. Neighbouring ranges may share an
/// endpoint, which is then listed twice.
pub fn expand_dpi_ranges(ranges: &[DpiRange]) -> (values: Vec<u16>)
    ensures
        as_ints(values@) == expanded(ranges@),
{
    let mut values: Vec<u16> = Vec::new();
    let mut i: usize = 0;
    assert(as_ints(values@) =~= expanded(ranges@.take(0)));
    while i < ranges.len()
        invariant
            i <= ranges.len(),
            as_ints(values@) == expanded(ranges@.take(i as int)),
        decreases ranges.len() - i,
    {
        let ghost before = values@;
        match ranges[i] {
            DpiRange::Fixed(value) => {
                values.push(value);
                assert(as_ints(values@) =~= as_ints(before) + ranges@[i as int].offers());
            },
            DpiRange::Stepped { from, to, step } => {
                push_grid(&mut values, from, to, step);
            },
        }
        assert(ranges@.take(i + 1).drop_last() =~= ranges@.take(i as int));
        i += 1;
    }
    assert(ranges@.take(i as int) =~= ranges@);
    values
}

fn push_grid(values: &mut Vec<u16>, from: u16, to: u16, step: u16)
    ensures
        as_ints(final(values)@) == as_ints(old(values)@) + step_grid(
            from as int,
            to as int,
            step as int,
        ),
{
    let mut next: u32 = from as u32;
    let ghost start = as_ints(values@);
    let ghost all = step_grid(from as int, to as int, step as int);
    let ghost mut done: Seq<int> = Seq::empty();
    assert(done + all =~= all);
    while next < to as u32 && step > 0
        invariant
            next <= 2 * 65535,
            step > 0 || next == from,
            all == done + step_grid(next as int, to as int, step as int),
            as_ints(values@) == start + done,
        decreases
                (if next < to {
                    to - next
                } else {
                    0
                }),
    {
        let value: u16 = next as u16;
        let ghost before = values@;
        values.push(value);
        proof {
            let more = done.push(value as int);
            assert(as_ints(values@) =~= as_ints(before).push(value as int));
            assert(start + more =~= (start + done).push(value as int));
            assert(done + (seq![next as int] + step_grid(next + step, to as int, step as int))
                =~= more + step_grid(next + step, to as int, step as int));
            done = more;
        }
        next = next + step as u32;
    }
    let ghost before = values@;
    if next < to as u32 {
        values.push(from);
        values.push(to);
        assert(as_ints(values@) =~= as_ints(before) + seq![from as int, to as int]);
        assert(step_grid(next as int, to as int, step as int) == seq![from as int, to as int]);
        assert(as_ints(values@) =~= start + (done + seq![from as int, to as int]));
    } else {
        values.push(to);
        assert(as_ints(values@) =~= as_ints(before) + seq![to as int]);
        assert(as_ints(values@) =~= start + (done + seq![to as int]));
    }
}

/// A stepped range always offers its high endpoint, as its last value, and
/// offers nothing outside its bounds nor off its grid but that endpoint.
pub proof fn stepped_range_keeps_its_bounds(from: int, to: int, step: int)
    requires
        0 < step,
        from <= to,
    ensures
        step_grid(from, to, step).len() > 0,
        step_grid(from, to, step).last() == to,
        forall|i: int|
            0 <= i < step_grid(from, to, step).len() - 1 ==> {
                let value = #[trigger] step_grid(from, to, step)[i];
                value == from + i * step && from <= value < to
            },
    decreases to - from,
{
    if from < to {
        let rest = step_grid(from + step, to, step);
        let all = step_grid(from, to, step);
        assert(all == seq![from] + rest);
        if from + step <= to {
            stepped_range_keeps_its_bounds(from + step, to, step);
        }
        assert forall|i: int| 0 <= i < all.len() - 1 implies ({
            let value = #[trigger] all[i];
            value == from + i * step && from <= value < to
        }) by {
            if i > 0 {
                assert(all[i] == rest[i - 1]);
                assert(from + step + (i - 1) * step == from + i * step) by (nonlinear_arith);
            } else {
                assert(i * step == 0) by (nonlinear_arith)
                    requires
                        i == 0,
                ;
            }
        }
        assert(all.last() == rest.last());
    }
}

/// The nearest value is supported, no supported value is nearer, and of two that are
/// equally near it is the lower one.
pub proof fn no_supported_value_is_nearer(values: Seq<Dpi>, wanted: Dpi, found: Dpi, i: int)
    requires
        is_nearest(values, wanted, found),
        0 <= i < values.len(),
    ensures
        values.contains(found),
        ({
            let off = if found.0 < wanted.0 {
                wanted.0 - found.0
            } else {
                found.0 - wanted.0
            };
            let other = if values[i].0 < wanted.0 {
                wanted.0 - values[i].0
            } else {
                values[i].0 - wanted.0
            };
            off <= other && (off == other ==> found.0 <= values[i].0)
        }),
{
}

/// Supported values are in strictly ascending order, so the first is the lowest and
/// the last the highest.
pub proof fn supported_values_ascend(values: Seq<Dpi>, i: int, j: int)
    requires
        ascending(values),
        0 <= i < j < values.len(),
    ensures
        values[i].0 < values[j].0,
        values.first().0 <= values[i].0,
        values[j].0 <= values.last().0,
{
}

/// A stepped range offers each value of its grid below its high endpoint, and then
/// that endpoint: nothing of the grid is left out. Without a step it offers its two
/// endpoints.
pub proof fn stepped_range_offers_its_whole_grid(from: int, to: int, step: int, k: int)
    requires
        from <= to,
    ensures
        0 < step && 0 <= k && from + k * step < to ==> k < step_grid(from, to, step).len() - 1
            && step_grid(from, to, step)[k] == from + k * step,
        from < to && step == 0 ==> step_grid(from, to, step) == seq![from, to],
        from == to ==> step_grid(from, to, step) == seq![to],
    decreases to - from,
{
    if 0 < step && 0 <= k && from + k * step < to {
        assert(k * step >= 0) by (nonlinear_arith)
            requires
                0 <= k,
                0 < step,
        ;
        let rest = step_grid(from + step, to, step);
        assert(step_grid(from, to, step) == seq![from] + rest);
        if k == 0 {
            assert(k * step == 0) by (nonlinear_arith)
                requires
                    k == 0,
            ;
            reveal_with_fuel(step_grid, 2);
        } else {
            assert((k - 1) * step + step == k * step) by (nonlinear_arith);
            assert((k - 1) * step >= 0) by (nonlinear_arith)
                requires
                    0 < k,
                    0 < step,
            ;
            stepped_range_offers_its_whole_grid(from + step, to, step, k - 1);
        }
    }
}

/// Ranges are listed one after the other: a fixed one as its value, a stepped one as
/// its grid.
pub proof fn ranges_are_listed_in_order(a: Seq<DpiRange>, b: Seq<DpiRange>, range: DpiRange)
    ensures
        expanded(a + b) == expanded(a) + expanded(b),
        match range {
            DpiRange::Fixed(value) => expanded(seq![range]) == seq![value as int],
            DpiRange::Stepped { from, to, step } => expanded(seq![range]) == step_grid(
                from as int,
                to as int,
                step as int,
            ),
        },
        expanded(Seq::empty()).len() == 0,
    decreases b.len(),
{
    reveal_with_fuel(expanded, 2);
    assert(seq![range].drop_last() =~= Seq::empty());
    assert(Seq::<int>::empty() + range.offers() =~= range.offers());
    if b.len() == 0 {
        assert(a + b =~= a);
        assert(expanded(a) + expanded(b) =~= expanded(a));
    } else {
        assert((a + b).drop_last() =~= a + b.drop_last());
        ranges_are_listed_in_order(a, b.drop_last(), range);
        assert(expanded(a + b) =~= expanded(a) + expanded(b));
    }
}

/// Listed values are compared as numbers, one by one.
pub proof fn listed_values_are_numbers(values: Seq<u16>, i: int)
    ensures
        as_ints(values).len() == values.len(),
        0 <= i < values.len() ==> as_ints(values)[i] == values[i],
{
}

} // verus!
