//! Where the segments of a library lie: the span of the image and the pages
//! of each segment.

use crate::elf::{Protection, Segment, SegmentFlags};
use crate::page::{page_aligned, page_ceil, page_floor};
use vstd::prelude::*;

verus! {

/// Where a segment ends in memory: after the larger of its two sizes.
pub open spec fn segment_end(segment: Segment) -> int {
    if segment.file_size >= segment.mem_size {
        segment.virtual_addr + segment.file_size
    } else {
        segment.virtual_addr + segment.mem_size
    }
}

/// The lowest address at which one of `segments` starts.
pub open spec fn lowest_start(segments: Seq<Segment>) -> int
    decreases segments.len(),
{
    if segments.len() == 0 {
        0
    } else if segments.len() == 1 {
        segments[0].virtual_addr as int
    } else if segments.last().virtual_addr < lowest_start(segments.drop_last()) {
        segments.last().virtual_addr as int
    } else {
        lowest_start(segments.drop_last())
    }
}

/// The highest address at which one of `segments` ends.
pub open spec fn highest_end(segments: Seq<Segment>) -> int
    decreases segments.len(),
{
    if segments.len() == 0 {
        0
    } else if segment_end(segments.last()) > highest_end(segments.drop_last()) {
        segment_end(segments.last())
    } else {
        highest_end(segments.drop_last())
    }
}

/// Where the image of `segments` starts: at the page boundary at or below
/// their lowest start.
pub open spec fn image_start(segments: Seq<Segment>, page: int) -> int {
    page_floor(lowest_start(segments), page)
}

/// Where the image of `segments` ends: at the page boundary at or above their
/// highest end.
pub open spec fn image_end(segments: Seq<Segment>, page: int) -> int {
    page_ceil(highest_end(segments), page)
}

/// The size of the image of `segments`.
pub open spec fn image_size(segments: Seq<Segment>, page: int) -> int {
    image_end(segments, page) - image_start(segments, page)
}

/// The protection that the pages of a segment with `flags` get: what the
/// flags ask for, or, on a host whose pages are larger than the largest page
/// of the target, every access, since segments then share pages.
pub open spec fn protection_of(flags: SegmentFlags, page: int, max_page: int) -> Protection {
    if page > max_page {
        Protection { read: true, write: true, execute: true }
    } else {
        Protection { read: flags.read, write: flags.write, execute: flags.execute }
    }
}

/// Where the pages of `segment` start, in an image at `base`.
pub open spec fn protected_start(base: usize, segment: Segment, page: int) -> int {
    page_floor(base + segment.virtual_addr, page)
}

/// Where the pages of `segment` end, in an image at `base`.
pub open spec fn protected_end(base: usize, segment: Segment, page: int) -> int {
    page_ceil(base + segment.virtual_addr + segment.mem_size, page)
}

/// No segment ends above the highest end or starts below the lowest start.
pub proof fn lemma_highest_end_bounds(segments: Seq<Segment>, index: int)
    requires
        0 <= index < segments.len(),
    ensures
        segment_end(segments[index]) <= highest_end(segments),
        lowest_start(segments) <= segments[index].virtual_addr,
    decreases segments.len(),
{
    if index < segments.len() - 1 {
        lemma_highest_end_bounds(segments.drop_last(), index);
    }
}

/// From one page boundary to another is a whole number of pages.
pub proof fn lemma_aligned_difference(low: int, high: int, page: int)
    requires
        page > 0,
        page_aligned(low, page),
        page_aligned(high, page),
    ensures
        page_aligned(high - low, page),
{
    vstd::arithmetic::div_mod::lemma_fundamental_div_mod(low, page);
    vstd::arithmetic::div_mod::lemma_fundamental_div_mod(high, page);
    let pages = high / page - low / page;
    assert(high - low == pages * page) by (nonlinear_arith)
        requires
            high == page * (high / page),
            low == page * (low / page),
            pages == high / page - low / page,
    ;
    vstd::arithmetic::div_mod::lemma_mod_multiples_basic(pages, page);
}

/// Where the image starts at address zero, every segment lies within it.
pub proof fn lemma_segments_fit(segments: Seq<Segment>, page: int, index: int)
    requires
        page > 0,
        0 <= index < segments.len(),
        image_start(segments, page) == 0,
    ensures
        segment_end(segments[index]) <= image_size(segments, page),
        segments[index].virtual_addr + segments[index].file_size <= image_size(segments, page),
{
    lemma_highest_end_bounds(segments, index);
}

} // verus!
