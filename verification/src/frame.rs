//! The frame scheduler: the pixel grid cut into column ranges, each range
//! computed on its own, and the results joined in pixel order.
//!
//! The colour of a pixel is the caller's: the functions here are handed the
//! function from a point of the complex plane to its colour. `render_frame`
//! computes the ranges one after the other. A caller that computes them side by
//! side takes the ranges from `partition_columns`, runs `calculate_for_range`
//! on each, and hands what came back to `join_ranges`.
use crate::coordinate::{
    magnification_in_range, mapped, offset_in_range, to_complex_coordinate, Coordinate, PlanePoint,
};
use vstd::prelude::*;

verus! {

/// The viewport parameters of one frame, taken when its computation begins.
#[derive(Clone, Copy, Debug)]
pub struct FrameTask {
    /// The pan offset of each axis, in units.
    pub pan_offset: (i128, i128),
    pub magnification: u64,
}

/// One pixel of a frame and its colour.
#[derive(Debug)]
pub struct PixelColorEntry<C> {
    pub x: u32,
    pub y: u32,
    pub color: C,
}

/// The columns from `start` up to, and without, `end`.
#[derive(Clone, Copy, Debug)]
pub struct ColumnRange {
    pub start: u32,
    pub end: u32,
}

/// The coordinate that the mapper gives, as a value of the type that it
/// returns.
pub open spec fn mapped_coordinate(
    pixel: int,
    axis_extent: int,
    pan_offset_component: int,
    magnification: int,
) -> Coordinate {
    Coordinate {
        numerator: mapped(pixel, axis_extent, pan_offset_component, magnification).0 as i128,
        denominator: mapped(pixel, axis_extent, pan_offset_component, magnification).1 as i128,
    }
}

impl FrameTask {
    /// The parameters are ones that the mapper accepts.
    pub open spec fn wf(self) -> bool {
        &&& offset_in_range(self.pan_offset.0 as int)
        &&& offset_in_range(self.pan_offset.1 as int)
        &&& magnification_in_range(self.magnification as int)
    }

    /// The point of the complex plane under pixel `(x, y)` of a `width` by
    /// `height` screen: each axis is mapped with its own extent and pan
    /// offset.
    pub open spec fn point_at(self, x: int, y: int, width: int, height: int) -> PlanePoint {
        PlanePoint {
            real: mapped_coordinate(x, width, self.pan_offset.0 as int, self.magnification as int),
            imaginary: mapped_coordinate(
                y,
                height,
                self.pan_offset.1 as int,
                self.magnification as int,
            ),
        }
    }

    /// The point of the complex plane under pixel `(x, y)`.
    pub fn plane_point(&self, x: u32, y: u32, width: u32, height: u32) -> (point: PlanePoint)
        requires
            self.wf(),
            width > 0,
            height > 0,
        ensures
            point == self.point_at(x as int, y as int, width as int, height as int),
            point.real.is_mapped(
                x as int,
                width as int,
                self.pan_offset.0 as int,
                self.magnification as int,
            ),
            point.imaginary.is_mapped(
                y as int,
                height as int,
                self.pan_offset.1 as int,
                self.magnification as int,
            ),
            point.real.wf(),
            point.imaginary.wf(),
    {
        PlanePoint {
            real: to_complex_coordinate(x as i64, width, self.pan_offset.0, self.magnification),
            imaginary: to_complex_coordinate(
                y as i64,
                height,
                self.pan_offset.1,
                self.magnification,
            ),
        }
    }
}

/// The first column of chunk `index` where `width` columns are cut into
/// `worker_count` chunks: every chunk but the last has `width / worker_count`
/// columns.
pub open spec fn chunk_start(width: int, worker_count: int, index: int) -> int {
    index * (width / worker_count)
}

/// The column after the last of chunk `index`. The last chunk ends with the
/// screen, and so takes the columns that the division left over.
pub open spec fn chunk_end(width: int, worker_count: int, index: int) -> int {
    if index == worker_count - 1 {
        width
    } else {
        (index + 1) * (width / worker_count)
    }
}

/// The place of pixel `(x, y)` in the results of the columns from `x_start`
/// on: column after column, and within a column row after row.
pub open spec fn pixel_index(x: int, y: int, x_start: int, height: int) -> int {
    (x - x_start) * height + y
}

/// Whether `entry` is pixel `(x, y)` with a colour that `shade` gives to the
/// point of the complex plane under it.
pub open spec fn is_entry<C, F: Fn(PlanePoint) -> C>(
    entry: PixelColorEntry<C>,
    x: int,
    y: int,
    task: FrameTask,
    width: int,
    height: int,
    shade: F,
) -> bool {
    &&& entry.x == x
    &&& entry.y == y
    &&& shade.ensures((task.point_at(x, y, width, height),), entry.color)
}

/// Whether `entries` are the results of the columns from `x_start` up to
/// `x_end`: one entry for each pixel of these columns, at the place of the
/// pixel.
pub open spec fn is_range<C, F: Fn(PlanePoint) -> C>(
    entries: Seq<PixelColorEntry<C>>,
    task: FrameTask,
    x_start: int,
    x_end: int,
    width: int,
    height: int,
    shade: F,
) -> bool {
    &&& entries.len() == (x_end - x_start) * height
    &&& forall|x: int, y: int|
        x_start <= x < x_end && 0 <= y < height ==> 0 <= #[trigger] pixel_index(
            x,
            y,
            x_start,
            height,
        ) < entries.len() && is_entry(
            entries[pixel_index(x, y, x_start, height)],
            x,
            y,
            task,
            width,
            height,
            shade,
        )
}

/// Whether `entries` are a whole frame: the results of all columns.
pub open spec fn is_frame<C, F: Fn(PlanePoint) -> C>(
    entries: Seq<PixelColorEntry<C>>,
    task: FrameTask,
    width: int,
    height: int,
    shade: F,
) -> bool {
    is_range(entries, task, 0, width, width, height, shade)
}

/// The place of a pixel of some columns lies within the results of these
/// columns, among the places of its own column.
proof fn lemma_pixel_index(x: int, y: int, x_start: int, x_end: int, height: int)
    requires
        x_start <= x < x_end,
        0 <= y < height,
    ensures
        0 <= (x - x_start) * height <= pixel_index(x, y, x_start, height) < (x - x_start + 1)
            * height <= (x_end - x_start) * height,
{
    assert(0 <= (x - x_start) * height && (x - x_start + 1) * height == (x - x_start) * height
        + height && (x - x_start + 1) * height <= (x_end - x_start) * height) by (nonlinear_arith)
        requires
            x_start <= x < x_end,
            0 <= y < height,
    ;
}

/// Every place of a grid is the place of one pixel: of the pixel in column
/// `index / height` and row `index % height`.
proof fn lemma_pixel_of_index(index: int, columns: int, height: int)
    requires
        0 <= index < columns * height,
        0 <= columns,
    ensures
        height > 0,
        0 <= index / height < columns,
        0 <= index % height < height,
        pixel_index(index / height, index % height, 0, height) == index,
{
    assert(height > 0) by (nonlinear_arith)
        requires
            0 <= index < columns * height,
            0 <= columns,
    ;
    vstd::arithmetic::div_mod::lemma_fundamental_div_mod(index, height);
    let column: int = index / height;
    assert(height * column == column * height) by (nonlinear_arith);
    assert(0 <= column < columns) by (nonlinear_arith)
        requires
            index == column * height + index % height,
            0 <= index % height < height,
            0 <= index < columns * height,
    ;
}

/// The chunks lie side by side and cover the columns: the first starts at
/// column zero, each ends where the next starts, and the last ends with the
/// screen. Every chunk but the last has `width / worker_count` columns, and
/// the last has the remainder of the division besides.
pub proof fn lemma_chunks_tile(width: int, worker_count: int, index: int)
    requires
        0 <= width,
        0 < worker_count,
        0 <= index < worker_count,
    ensures
        chunk_start(width, worker_count, 0) == 0,
        0 <= chunk_start(width, worker_count, index) <= chunk_end(width, worker_count, index)
            <= width,
        index + 1 < worker_count ==> chunk_end(width, worker_count, index) == chunk_start(
            width,
            worker_count,
            index + 1,
        ),
        chunk_end(width, worker_count, worker_count - 1) == width,
        chunk_end(width, worker_count, index) - chunk_start(width, worker_count, index) == width
            / worker_count + if index == worker_count - 1 {
            width % worker_count
        } else {
            0
        },
{
    let share: int = width / worker_count;
    vstd::arithmetic::div_mod::lemma_fundamental_div_mod(width, worker_count);
    assert(0 <= share) by (nonlinear_arith)
        requires
            share == width / worker_count,
            0 <= width,
            0 < worker_count,
    ;
    assert(0 <= index * share <= (index + 1) * share <= worker_count * share) by (nonlinear_arith)
        requires
            0 <= index < worker_count,
            0 <= share,
    ;
    assert(worker_count * share <= width);
    assert((index + 1) * share == index * share + share) by (nonlinear_arith);
    assert((worker_count - 1) * share == worker_count * share - share) by (nonlinear_arith);
}

/// Cuts the columns of a screen into `worker_count` chunks that lie side by
/// side. Every chunk but the last has `width / worker_count` columns; the last
/// has the rest.
pub fn partition_columns(width: u32, worker_count: usize) -> (ranges: Vec<ColumnRange>)
    requires
        worker_count > 0,
    ensures
        ranges.len() == worker_count,
        forall|index: int|
            0 <= index < worker_count ==> (#[trigger] ranges[index]).start == chunk_start(
                width as int,
                worker_count as int,
                index,
            ) && ranges[index].end == chunk_end(width as int, worker_count as int, index),
{
    let share: u32 = if worker_count > width as usize {
        0
    } else {
        width / (worker_count as u32)
    };
    assert(share == width as int / worker_count as int) by {
        if worker_count > width {
            vstd::arithmetic::div_mod::lemma_basic_div(width as int, worker_count as int);
        }
    }
    let mut ranges: Vec<ColumnRange> = Vec::new();
    let mut start: u32 = 0;
    let mut index: usize = 0;
    while index < worker_count
        invariant
            0 < worker_count,
            index <= worker_count,
            share == width as int / worker_count as int,
            ranges.len() == index,
            index < worker_count ==> start == chunk_start(
                width as int,
                worker_count as int,
                index as int,
            ),
            forall|k: int|
                0 <= k < index ==> (#[trigger] ranges[k]).start == chunk_start(
                    width as int,
                    worker_count as int,
                    k,
                ) && ranges[k].end == chunk_end(width as int, worker_count as int, k),
        decreases worker_count - index,
    {
        proof {
            lemma_chunks_tile(width as int, worker_count as int, index as int);
            assert((index + 1) * share == index * share + share) by (nonlinear_arith);
        }
        let end: u32 = if index == worker_count - 1 {
            width
        } else {
            start + share
        };
        ranges.push(ColumnRange { start, end });
        start = end;
        index = index + 1;
    }
    ranges
}

/// Computes the colours of the columns from `x_start` up to `x_end`: column
/// after column, and within a column row after row, each pixel mapped to its
/// point of the complex plane and that point handed to `shade`.
pub fn calculate_for_range<C, F: Fn(PlanePoint) -> C>(
    task: &FrameTask,
    x_start: u32,
    x_end: u32,
    width: u32,
    height: u32,
    shade: &F,
) -> (entries: Vec<PixelColorEntry<C>>)
    requires
        task.wf(),
        x_start <= x_end <= width,
        forall|point: PlanePoint| shade.requires((point,)),
    ensures
        is_range(
            entries@,
            *task,
            x_start as int,
            x_end as int,
            width as int,
            height as int,
            *shade,
        ),
{
    let mut entries: Vec<PixelColorEntry<C>> = Vec::new();
    let mut x: u32 = x_start;
    while x < x_end
        invariant
            task.wf(),
            x_start <= x <= x_end <= width,
            forall|point: PlanePoint| shade.requires((point,)),
            is_range(
                entries@,
                *task,
                x_start as int,
                x as int,
                width as int,
                height as int,
                *shade,
            ),
        decreases x_end - x,
    {
        let mut y: u32 = 0;
        while y < height
            invariant
                task.wf(),
                x_start <= x < x_end <= width,
                y <= height,
                forall|point: PlanePoint| shade.requires((point,)),
                entries.len() == (x - x_start) * height + y,
                forall|i: int, j: int|
                    ((x_start <= i < x && 0 <= j < height) || (i == x && 0 <= j < y)) ==> 0
                        <= #[trigger] pixel_index(i, j, x_start as int, height as int)
                        < entries.len() && is_entry(
                        entries@[pixel_index(i, j, x_start as int, height as int)],
                        i,
                        j,
                        *task,
                        width as int,
                        height as int,
                        *shade,
                    ),
            decreases height - y,
        {
            let point = task.plane_point(x, y, width, height);
            let color = shade(point);
            let ghost before = entries@;
            entries.push(PixelColorEntry { x, y, color });
            proof {
                assert forall|i: int, j: int|
                    ((x_start <= i < x && 0 <= j < height) || (i == x && 0 <= j < y + 1)) implies 0
                        <= #[trigger] pixel_index(i, j, x_start as int, height as int)
                        < entries.len() && is_entry(
                        entries@[pixel_index(i, j, x_start as int, height as int)],
                        i,
                        j,
                        *task,
                        width as int,
                        height as int,
                        *shade,
                    ) by {
                    lemma_pixel_index(i, j, x_start as int, x as int + 1, height as int);
                    if i == x && j == y {
                        assert(pixel_index(i, j, x_start as int, height as int) == before.len());
                    } else {
                        assert(entries@[pixel_index(i, j, x_start as int, height as int)]
                            == before[pixel_index(i, j, x_start as int, height as int)]);
                    }
                }
            }
            y = y + 1;
        }
        proof {
            assert((x + 1 - x_start) * height == (x - x_start) * height + height)
                by (nonlinear_arith);
        }
        x = x + 1;
    }
    entries
}

/// The results of some columns followed by the results of the columns after
/// them are the results of all these columns.
pub proof fn lemma_ranges_join<C, F: Fn(PlanePoint) -> C>(
    first: Seq<PixelColorEntry<C>>,
    second: Seq<PixelColorEntry<C>>,
    task: FrameTask,
    x_start: int,
    x_middle: int,
    x_end: int,
    width: int,
    height: int,
    shade: F,
)
    requires
        x_start <= x_middle <= x_end,
        is_range(first, task, x_start, x_middle, width, height, shade),
        is_range(second, task, x_middle, x_end, width, height, shade),
    ensures
        is_range(first + second, task, x_start, x_end, width, height, shade),
{
    let all = first + second;
    assert((x_end - x_start) * height == (x_middle - x_start) * height + (x_end - x_middle)
        * height) by (nonlinear_arith);
    assert forall|x: int, y: int| x_start <= x < x_end && 0 <= y < height implies 0
        <= #[trigger] pixel_index(x, y, x_start, height) < all.len() && is_entry(
        all[pixel_index(x, y, x_start, height)],
        x,
        y,
        task,
        width,
        height,
        shade,
    ) by {
        if x < x_middle {
            assert(0 <= pixel_index(x, y, x_start, height) < first.len());
            assert(all[pixel_index(x, y, x_start, height)] == first[pixel_index(
                x,
                y,
                x_start,
                height,
            )]);
        } else {
            assert(0 <= pixel_index(x, y, x_middle, height) < second.len());
            assert(pixel_index(x, y, x_start, height) == first.len() + pixel_index(
                x,
                y,
                x_middle,
                height,
            )) by (nonlinear_arith)
                requires
                    first.len() == (x_middle - x_start) * height,
            ;
            assert(all[pixel_index(x, y, x_start, height)] == second[pixel_index(
                x,
                y,
                x_middle,
                height,
            )]);
        }
    }
}

/// What the parts hold, one after the other in the order of the parts. A
/// part that is missing holds nothing.
pub open spec fn joined<T>(parts: Seq<Option<Vec<T>>>) -> Seq<T>
    decreases parts.len(),
{
    if parts.len() == 0 {
        Seq::empty()
    } else {
        (match parts.first() {
            Some(part) => part@,
            None => Seq::empty(),
        }) + joined(parts.drop_first())
    }
}

/// Whether no part is missing.
pub open spec fn all_present<T>(parts: Seq<Option<Vec<T>>>) -> bool {
    forall|index: int| 0 <= index < parts.len() ==> (#[trigger] parts[index]) is Some
}

/// Joins the results of the workers, one part for each chunk and in the order
/// of the chunks. A worker that failed left no part, and then there is no
/// frame: an incomplete one is never handed out.
pub fn join_ranges<T>(parts: Vec<Option<Vec<T>>>) -> (frame: Option<Vec<T>>)
    ensures
        frame is Some <==> all_present(parts@),
        frame is Some ==> frame->0@ == joined(parts@),
{
    let mut rest = parts;
    let mut entries: Vec<T> = Vec::new();
    while rest.len() > 0
        invariant
            all_present(parts@) <==> all_present(rest@),
            joined(parts@) == entries@ + joined(rest@),
        decreases rest.len(),
    {
        let ghost before = rest@;
        let part = rest.remove(0);
        assert(rest@ == before.drop_first());
        assert(part == before.first());
        match part {
            Some(mut part) => {
                proof {
                    assert((entries@ + part@) + joined(rest@) == entries@ + (part@ + joined(
                        rest@,
                    )));
                    if all_present(before) {
                        assert forall|index: int| 0 <= index < rest@.len() implies (
                        #[trigger] rest@[index]) is Some by {
                            assert(before[index + 1] is Some);
                        }
                    }
                    if all_present(rest@) {
                        assert forall|index: int| 0 <= index < before.len() implies (
                        #[trigger] before[index]) is Some by {
                            if index > 0 {
                                assert(rest@[index - 1] is Some);
                            }
                        }
                    }
                }
                entries.append(&mut part);
            },
            None => {
                assert(!all_present(before)) by {
                    assert(before[0] is None);
                }
                return None;
            },
        }
    }
    assert(entries@ + joined(rest@) == entries@);
    Some(entries)
}

/// The parts of all the chunks, joined in the order of the chunks, are the
/// frame, into however many chunks the columns were cut.
pub proof fn lemma_joined_chunks_are_frame<C, F: Fn(PlanePoint) -> C>(
    parts: Seq<Option<Vec<PixelColorEntry<C>>>>,
    task: FrameTask,
    width: int,
    height: int,
    worker_count: int,
    shade: F,
)
    requires
        0 <= width,
        0 < worker_count == parts.len(),
        forall|index: int|
            0 <= index < worker_count ==> (#[trigger] parts[index]) is Some && is_range(
                parts[index]->0@,
                task,
                chunk_start(width, worker_count, index),
                chunk_end(width, worker_count, index),
                width,
                height,
                shade,
            ),
    ensures
        is_frame(joined(parts), task, width, height, shade),
{
    lemma_chunks_tile(width, worker_count, 0);
    lemma_joined_from(parts, task, width, height, worker_count, shade, 0);
    assert(parts.subrange(0, worker_count) == parts);
}

/// The parts of the chunks from `from` on, joined, are the results of the
/// columns from the start of chunk `from` to the end of the screen.
proof fn lemma_joined_from<C, F: Fn(PlanePoint) -> C>(
    parts: Seq<Option<Vec<PixelColorEntry<C>>>>,
    task: FrameTask,
    width: int,
    height: int,
    worker_count: int,
    shade: F,
    from: int,
)
    requires
        0 <= width,
        0 < worker_count == parts.len(),
        0 <= from < worker_count,
        forall|index: int|
            0 <= index < worker_count ==> (#[trigger] parts[index]) is Some && is_range(
                parts[index]->0@,
                task,
                chunk_start(width, worker_count, index),
                chunk_end(width, worker_count, index),
                width,
                height,
                shade,
            ),
    ensures
        is_range(
            joined(parts.subrange(from, worker_count)),
            task,
            chunk_start(width, worker_count, from),
            width,
            width,
            height,
            shade,
        ),
    decreases worker_count - from,
{
    let rest = parts.subrange(from, worker_count);
    let first = parts[from]->0@;
    assert(rest.first() == parts[from]);
    lemma_chunks_tile(width, worker_count, from);
    if from == worker_count - 1 {
        assert(rest.drop_first().len() == 0);
        assert(joined(rest.drop_first()) == Seq::<PixelColorEntry<C>>::empty());
        assert(first + Seq::<PixelColorEntry<C>>::empty() == first);
    } else {
        lemma_joined_from(parts, task, width, height, worker_count, shade, from + 1);
        assert(rest.drop_first() == parts.subrange(from + 1, worker_count));
        lemma_ranges_join(
            first,
            joined(rest.drop_first()),
            task,
            chunk_start(width, worker_count, from),
            chunk_end(width, worker_count, from),
            width,
            width,
            height,
            shade,
        );
    }
}

/// Computes a frame: the colour of every pixel of a `width` by `height`
/// screen, column after column, and within a column row after row. The columns
/// are cut into `worker_count` chunks, which are computed one after the other
/// and joined in their order; the frame does not depend on their number.
pub fn render_frame<C, F: Fn(PlanePoint) -> C>(
    task: &FrameTask,
    width: u32,
    height: u32,
    worker_count: usize,
    shade: &F,
) -> (frame: Vec<PixelColorEntry<C>>)
    requires
        task.wf(),
        worker_count > 0,
        forall|point: PlanePoint| shade.requires((point,)),
    ensures
        is_frame(frame@, *task, width as int, height as int, *shade),
        frame.len() == width * height,
{
    let ranges = partition_columns(width, worker_count);
    let mut frame: Vec<PixelColorEntry<C>> = Vec::new();
    let mut index: usize = 0;
    proof {
        lemma_chunks_tile(width as int, worker_count as int, 0);
    }
    while index < worker_count
        invariant
            task.wf(),
            index <= worker_count == ranges.len(),
            forall|point: PlanePoint| shade.requires((point,)),
            forall|k: int|
                0 <= k < worker_count ==> (#[trigger] ranges[k]).start == chunk_start(
                    width as int,
                    worker_count as int,
                    k,
                ) && ranges[k].end == chunk_end(width as int, worker_count as int, k),
            is_range(
                frame@,
                *task,
                0,
                if index < worker_count {
                    chunk_start(width as int, worker_count as int, index as int)
                } else {
                    width as int
                },
                width as int,
                height as int,
                *shade,
            ),
        decreases worker_count - index,
    {
        proof {
            lemma_chunks_tile(width as int, worker_count as int, index as int);
        }
        let range = ranges[index];
        let mut part = calculate_for_range(task, range.start, range.end, width, height, shade);
        proof {
            lemma_ranges_join(
                frame@,
                part@,
                *task,
                0,
                range.start as int,
                range.end as int,
                width as int,
                height as int,
                *shade,
            );
        }
        frame.append(&mut part);
        index = index + 1;
    }
    frame
}

/// A frame holds each pixel of the screen once: the entry at a place is the
/// pixel `(x, y)` exactly where the place is that of `(x, y)`.
pub proof fn lemma_frame_holds_each_pixel_once<C, F: Fn(PlanePoint) -> C>(
    frame: Seq<PixelColorEntry<C>>,
    task: FrameTask,
    width: int,
    height: int,
    shade: F,
    x: int,
    y: int,
)
    requires
        is_frame(frame, task, width, height, shade),
        0 <= x < width,
        0 <= y < height,
    ensures
        frame.len() == width * height,
        forall|index: int|
            0 <= index < frame.len() ==> ((#[trigger] frame[index]).x == x && frame[index].y == y
                <==> index == pixel_index(x, y, 0, height)),
{
    assert forall|index: int| 0 <= index < frame.len() implies ((#[trigger] frame[index]).x == x
        && frame[index].y == y <==> index == pixel_index(x, y, 0, height)) by {
        lemma_pixel_of_index(index, width, height);
        let column: int = index / height;
        let row: int = index % height;
        assert(pixel_index(column, row, 0, height) == index);
        assert(is_entry(frame[index], column, row, task, width, height, shade));
        assert(0 <= pixel_index(x, y, 0, height) < frame.len());
        assert(is_entry(frame[pixel_index(x, y, 0, height)], x, y, task, width, height, shade));
    }
}

/// Two frames of one task are the same frame, where `shade` gives every point
/// one colour only: the frame does not depend on how it was computed.
pub proof fn lemma_frames_agree<C, F: Fn(PlanePoint) -> C>(
    first: Seq<PixelColorEntry<C>>,
    second: Seq<PixelColorEntry<C>>,
    task: FrameTask,
    width: int,
    height: int,
    shade: F,
)
    requires
        0 <= width,
        is_frame(first, task, width, height, shade),
        is_frame(second, task, width, height, shade),
        forall|point: PlanePoint, one: C, other: C|
            shade.ensures((point,), one) && shade.ensures((point,), other) ==> one == other,
    ensures
        first == second,
{
    assert forall|index: int| 0 <= index < first.len() implies first[index] == second[index] by {
        lemma_pixel_of_index(index, width, height);
        let column: int = index / height;
        let row: int = index % height;
        assert(pixel_index(column, row, 0, height) == index);
        assert(is_entry(first[index], column, row, task, width, height, shade));
        assert(is_entry(second[index], column, row, task, width, height, shade));
    }
    assert(first =~= second);
}

} // verus!
