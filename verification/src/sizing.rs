//! Picture and page geometry: the common width of a set of pictures, the
//! height a picture takes at that width, and the size of a page.

use vstd::prelude::*;
use vstd::relations::*;
use vstd::seq_lib::*;

verus! {

/// The resolution, in pixels per inch, at which every picture is taken to
/// have been made.
pub const PIXELS_PER_INCH: u32 = 300;

/// The order in which widths are sorted.
pub open spec fn ascending() -> spec_fn(u32, u32) -> bool {
    |a: u32, b: u32| a <= b
}

/// The common width for pictures of the given widths: none for no pictures,
/// the only width of one picture, the mean of the widths of two, and for more
/// the upper median, which is the element at index `len / 2` of the widths in
/// ascending order.
///
/// The mean of two widths, cut down to a whole number, is the width of
/// neither picture unless they are equal. That is the rule for two
/// pictures, and it is meant to differ from the rule for more.
pub open spec fn target_width_of(widths: Seq<u32>) -> int {
    if widths.len() == 0 {
        0
    } else if widths.len() == 1 {
        widths[0] as int
    } else if widths.len() == 2 {
        (widths[0] + widths[1]) / 2
    } else {
        widths.sort_by(ascending())[(widths.len() / 2) as int] as int
    }
}

/// `ascending` orders the widths totally.
pub proof fn lemma_ascending_is_total()
    ensures
        total_ordering(ascending()),
{
}

/// The widths in ascending order.
pub fn sorted_widths(widths: &Vec<u32>) -> (out: Vec<u32>)
    ensures
        out@ == widths@.sort_by(ascending()),
{
    let mut out: Vec<u32> = Vec::new();
    let mut i: usize = 0;
    assert(widths@.take(0) =~= out@);
    while i < widths.len()
        invariant
            i <= widths.len(),
            sorted_by(out@, ascending()),
            out@.to_multiset() == widths@.take(i as int).to_multiset(),
            out@.len() == i,
        decreases widths.len() - i,
    {
        let width = widths[i];
        let mut at: usize = 0;
        while at < out.len() && out[at] <= width
            invariant
                at <= out.len(),
                forall|k: int| 0 <= k < at ==> out@[k] <= width,
            decreases out.len() - at,
        {
            at += 1;
        }
        proof {
            let before = out@;
            let after = before.insert(at as int, width);
            to_multiset_insert(before, at as int, width);
            assert(widths@.take(i + 1) =~= widths@.take(i as int).push(width));
            to_multiset_build(widths@.take(i as int), width);
            assert forall|a: int, b: int| 0 <= a < b < after.len() implies (ascending())(
                after[a],
                after[b],
            ) by {
                if b < at {
                    assert((ascending())(before[a], before[b]));
                } else if b == at {
                } else if a < at {
                    assert((ascending())(before[a], before[b - 1]));
                } else if a == at {
                    assert((ascending())(before[at as int], before[b - 1]));
                } else {
                    assert((ascending())(before[a - 1], before[b - 1]));
                }
            }
        }
        out.insert(at, width);
        i += 1;
    }
    proof {
        assert(widths@.take(widths@.len() as int) =~= widths@);
        lemma_ascending_is_total();
        widths@.lemma_sort_by_ensures(ascending());
        lemma_sorted_unique(out@, widths@.sort_by(ascending()), ascending());
    }
    out
}

/// The common width to which the pictures of the given widths are brought.
pub fn target_width(widths: &Vec<u32>) -> (target: u32)
    ensures
        target == target_width_of(widths@),
{
    let count = widths.len();
    if count == 0 {
        0
    } else if count == 1 {
        widths[0]
    } else if count == 2 {
        let sum: u64 = widths[0] as u64 + widths[1] as u64;
        (sum / 2) as u32
    } else {
        let sorted = sorted_widths(widths);
        proof {
            lemma_ascending_is_total();
            widths@.lemma_sort_by_ensures(ascending());
            to_multiset_len(widths@);
            to_multiset_len(sorted@);
        }
        sorted[count / 2]
    }
}

/// The common width is a `u32`: with one picture or more than two it is the
/// width of one of them, and with two it lies between theirs.
pub proof fn lemma_target_width_is_a_width(widths: Seq<u32>)
    ensures
        0 <= target_width_of(widths) <= u32::MAX,
        widths.len() == 1 || widths.len() > 2 ==> exists|index: int|
            0 <= index < widths.len() && #[trigger] widths[index] == target_width_of(widths),
        widths.len() == 2 ==> (widths[0] <= target_width_of(widths) <= widths[1] || widths[1]
            <= target_width_of(widths) <= widths[0]),
{
    if widths.len() > 2 {
        lemma_ascending_is_total();
        widths.lemma_sort_by_ensures(ascending());
        let sorted = widths.sort_by(ascending());
        to_multiset_len(widths);
        to_multiset_len(sorted);
        let median = sorted[(widths.len() / 2) as int];
        to_multiset_contains(sorted, median);
        to_multiset_contains(widths, median);
        assert(sorted.contains(median));
        assert(widths.contains(median));
        let index = choose|index: int| 0 <= index < widths.len() && widths[index] == median;
        assert(widths[index] == target_width_of(widths));
    } else if widths.len() == 1 {
        assert(widths[0] == target_width_of(widths));
    }
}

/// The number of widths that are less than `bound`.
pub open spec fn count_below(widths: Seq<u32>, bound: int) -> nat
    decreases widths.len(),
{
    if widths.len() == 0 {
        0
    } else {
        count_below(widths.drop_last(), bound) + if widths.last() < bound {
            1nat
        } else {
            0nat
        }
    }
}

/// Taking one width out takes it out of the count, if it was counted.
proof fn lemma_count_without(widths: Seq<u32>, at: int, bound: int)
    requires
        0 <= at < widths.len(),
    ensures
        count_below(widths, bound) == count_below(widths.remove(at), bound) + if widths[at]
            < bound {
            1nat
        } else {
            0nat
        },
    decreases widths.len(),
{
    if at == widths.len() - 1 {
        assert(widths.remove(at) =~= widths.drop_last());
    } else {
        lemma_count_without(widths.drop_last(), at, bound);
        assert(widths.remove(at).drop_last() =~= widths.drop_last().remove(at));
        assert(widths.remove(at).last() == widths.last());
    }
}

/// The count does not depend on the order of the widths.
proof fn lemma_count_of_rearranged(widths: Seq<u32>, rearranged: Seq<u32>, bound: int)
    requires
        widths.to_multiset() == rearranged.to_multiset(),
    ensures
        count_below(widths, bound) == count_below(rearranged, bound),
    decreases widths.len(),
{
    to_multiset_len(widths);
    to_multiset_len(rearranged);
    if widths.len() > 0 {
        let last = widths.last();
        assert(widths.contains(last));
        to_multiset_contains(widths, last);
        to_multiset_contains(rearranged, last);
        let at = choose|at: int| 0 <= at < rearranged.len() && rearranged[at] == last;
        to_multiset_remove(rearranged, at);
        to_multiset_remove(widths, widths.len() - 1);
        assert(widths.remove(widths.len() - 1) =~= widths.drop_last());
        lemma_count_of_rearranged(widths.drop_last(), rearranged.remove(at), bound);
        lemma_count_without(rearranged, at, bound);
    }
}

/// Where every width from the place `from` on is no less than `bound`, at
/// most `from` widths are less.
proof fn lemma_count_at_most(widths: Seq<u32>, from: int, bound: int)
    requires
        0 <= from,
        forall|at: int| from <= at < widths.len() ==> widths[at] >= bound,
    ensures
        count_below(widths, bound) <= from,
        count_below(widths, bound) <= widths.len(),
    decreases widths.len(),
{
    if widths.len() > 0 {
        lemma_count_at_most(widths.drop_last(), from, bound);
    }
}

/// Where each of the first `first` widths is less than `bound`, at least
/// `first` widths are less.
proof fn lemma_count_at_least(widths: Seq<u32>, first: int, bound: int)
    requires
        0 <= first <= widths.len(),
        forall|at: int| 0 <= at < first ==> widths[at] < bound,
    ensures
        count_below(widths, bound) >= first,
    decreases widths.len(),
{
    if widths.len() > 0 {
        if first == widths.len() {
            lemma_count_at_least(widths.drop_last(), first - 1, bound);
        } else {
            lemma_count_at_least(widths.drop_last(), first, bound);
        }
    }
}

/// The common width of more than two pictures is the upper median of their
/// widths, whatever their order: no more than half of the widths are less
/// than it, and more than half are no greater. No other number is so.
pub proof fn lemma_target_width_is_upper_median(widths: Seq<u32>)
    requires
        widths.len() > 2,
    ensures
        count_below(widths, target_width_of(widths)) <= widths.len() / 2,
        count_below(widths, target_width_of(widths) + 1) > widths.len() / 2,
        forall|other: int|
            (#[trigger] count_below(widths, other)) <= widths.len() / 2 < count_below(
                widths,
                other + 1,
            ) ==> other == target_width_of(widths),
{
    let sorted = widths.sort_by(ascending());
    let middle = (widths.len() / 2) as int;
    let median = sorted[middle] as int;
    lemma_ascending_is_total();
    widths.lemma_sort_by_ensures(ascending());
    to_multiset_len(widths);
    to_multiset_len(sorted);
    assert forall|at: int| middle <= at < sorted.len() implies sorted[at] >= median by {
        assert((ascending())(sorted[middle], sorted[at]));
    }
    assert forall|at: int| 0 <= at < middle + 1 implies sorted[at] < median + 1 by {
        assert((ascending())(sorted[at], sorted[middle]));
    }
    lemma_count_at_most(sorted, middle, median);
    lemma_count_at_least(sorted, middle + 1, median + 1);
    lemma_count_of_rearranged(widths, sorted, median);
    lemma_count_of_rearranged(widths, sorted, median + 1);
    assert forall|other: int|
        (#[trigger] count_below(widths, other)) <= widths.len() / 2 < count_below(
            widths,
            other + 1,
        ) implies other == target_width_of(widths) by {
        if other < median {
            lemma_count_grows(widths, other + 1, median);
        } else if other > median {
            lemma_count_grows(widths, median + 1, other);
        }
    }
}

/// A greater bound has no fewer widths below it.
proof fn lemma_count_grows(widths: Seq<u32>, lower: int, higher: int)
    requires
        lower <= higher,
    ensures
        count_below(widths, lower) <= count_below(widths, higher),
    decreases widths.len(),
{
    if widths.len() > 0 {
        lemma_count_grows(widths.drop_last(), lower, higher);
    }
}

/// The scaled height is the whole number nearest to
/// `height * target_width / width`: it is no more than a half away from it.
pub proof fn lemma_scaled_height_is_nearest(height: u32, target_width: u32, width: u32)
    requires
        width > 0,
    ensures
        2 * scaled_height_of(height, target_width, width) * width - width <= 2 * height
            * target_width < 2 * scaled_height_of(height, target_width, width) * width + width,
        0 <= scaled_height_of(height, target_width, width),
{
    let doubled = 2 * height * target_width + width;
    assert(0 <= height * target_width) by (nonlinear_arith);
    let scaled = doubled / (2 * width);
    assert(doubled == (2 * width) * scaled + doubled % (2 * width) && 0 <= doubled % (2 * width)
        < 2 * width && 0 <= scaled) by (nonlinear_arith)
        requires
            width > 0,
            doubled >= 0,
            scaled == doubled / (2 * width),
    ;
    assert(2 * scaled * width == (2 * width) * scaled) by (nonlinear_arith);
}

/// The height, to the nearest pixel, that a picture of `width` by `height`
/// pixels takes when it is brought to `target_width` with its proportions
/// kept: `height * target_width / width`, a half rounded up.
pub open spec fn scaled_height_of(height: u32, target_width: u32, width: u32) -> int
    recommends
        width > 0,
{
    (2 * height * target_width + width) / (2 * width)
}

/// `scaled_height_of`, where the picture has a width and the result is a
/// number of pixels that a picture can have.
pub fn scaled_height(height: u32, target_width: u32, width: u32) -> (scaled: Option<u32>)
    ensures
        scaled matches Some(pixels) ==> width > 0 && pixels == scaled_height_of(
            height,
            target_width,
            width,
        ),
        scaled is None <==> width == 0 || scaled_height_of(height, target_width, width)
            > u32::MAX,
{
    if width == 0 {
        return None;
    }
    assert(2 * height * target_width <= 2 * 0xffff_ffff * 0xffff_ffff) by (nonlinear_arith)
        requires
            height <= 0xffff_ffff,
            target_width <= 0xffff_ffff,
    ;
    let doubled: u128 = 2 * (height as u128) * (target_width as u128) + (width as u128);
    let rounded: u128 = doubled / (2 * (width as u128));
    if rounded > u32::MAX as u128 {
        None
    } else {
        Some(rounded as u32)
    }
}

/// The size in page units of `pixels` pixels: their length in centimetres at
/// 300 pixels per inch, which is `pixels * 2.54 / 300`, cut down to a whole
/// number.
///
/// A page unit of a PDF file is a seventy-second of an inch, no centimetre:
/// the number of centimetres is taken for the number of units as it is, so a
/// page comes out at about a twenty-eighth of the size of its picture at
/// that resolution.
pub open spec fn page_units_of(pixels: u32) -> int {
    pixels * 254 / 30000
}

/// `page_units_of`, computed.
pub fn page_units(pixels: u32) -> (units: u32)
    ensures
        units == page_units_of(pixels),
{
    let hundredths: u64 = pixels as u64 * 254;
    (hundredths / (PIXELS_PER_INCH as u64 * 100)) as u32
}

} // verus!
