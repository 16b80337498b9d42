//! A widget that fills a grid region with a table of consecutive code
//! points, for previewing a contiguous range of characters.
//!
//! Only every other row and column of the destination area is populated, so
//! that glyphs wider than one column keep a visual gutter. Code points that
//! are not valid characters are data, not errors: the traversal records the
//! largest one it met and reports it to the caller.

use crate::grid::{Area, Cell, GridBuffer, Symbol};
use vstd::prelude::*;

verus! {

use vstd::utf8::char_u32_cast;
use vstd::utf8::is_scalar;

/// The display width in terminal columns that the Unicode tables assign to
/// a character: `None` for a control character, `Some(columns)` otherwise.
/// The width is a pure function of the character alone, read off a large
/// table, so it is named here rather than written out.
pub uninterp spec fn display_width(c: char) -> Option<usize>;

/// Relies on unicode_width's `UnicodeWidthChar::width`: a pure lookup in
/// the crate's Unicode tables, depending on the character alone.
#[verifier::external_body]
fn char_width(c: char) -> (result: Option<usize>)
    ensures
        result == display_width(c),
{
    unicode_width::UnicodeWidthChar::width(c)
}

/// Relies on std's `char::from_u32`: documented to return `Some` exactly
/// when the value is a Unicode scalar (not a surrogate, at most 0x10FFFF),
/// and the returned character has the queried code point.
pub assume_specification[ char::from_u32 ](i: u32) -> (result: Option<char>)
    ensures
        result is Some <==> is_scalar(i),
        result matches Some(c) ==> c as u32 == i,
;

/// True when (dx, dy), a coordinate relative to an area's origin, is one of
/// the positions the table traversal samples: inside the area, with both
/// coordinates even.
pub open spec fn sampled(area: Area, dx: int, dy: int) -> bool {
    &&& 0 <= dx < area.width
    &&& 0 <= dy < area.height
    &&& dx % 2 == 0
    &&& dy % 2 == 0
}

/// The code point sampled at (dx, dy) relative to an area's origin:
/// consecutive values laid out row-major from `offset`.
pub open spec fn code_point_at(offset: u32, area: Area, dx: int, dy: int) -> int {
    offset + dx + dy * area.width
}

/// What the traversal leaves in a sampled cell whose prior value is `prev`
/// and whose sampled code point is `p`: unchanged when `p` is not a valid
/// character or has no known display width; the character preceded by a
/// space when its width is zero, so a combining mark stays visible
/// standalone; the character alone otherwise. Colors are never touched.
pub open spec fn placed_cell(prev: Cell, p: u32) -> Cell {
    if !is_scalar(p) {
        prev
    } else {
        match display_width(p as char) {
            Option::None => prev,
            Option::Some(w) => if w == 0 {
                Cell { symbol: Symbol::Pair(' ', p as char), fg: prev.fg, bg: prev.bg }
            } else {
                Cell { symbol: Symbol::One(p as char), fg: prev.fg, bg: prev.bg }
            },
        }
    }
}

/// Sampled positions visited earlier in the row-major traversal carry
/// strictly smaller code points, so the last invalid code point the
/// traversal overwrites its report with is also the numerically largest.
pub proof fn lemma_code_point_order(offset: u32, area: Area, dx1: int, dy1: int, dx2: int, dy2: int)
    requires
        sampled(area, dx1, dy1),
        sampled(area, dx2, dy2),
        dy1 < dy2 || (dy1 == dy2 && dx1 < dx2),
    ensures
        code_point_at(offset, area, dx1, dy1) < code_point_at(offset, area, dx2, dy2),
{
    let w = area.width as int;
    assert(dx1 + dy1 * w < dx2 + dy2 * w) by (nonlinear_arith)
        requires
            0 <= dx1 < w,
            0 <= dx2 < w,
            0 <= dy1,
            0 <= dy2,
            dy1 < dy2 || (dy1 == dy2 && dx1 < dx2),
    ;
}

/// A character-table widget: a numeric offset from which the previewed
/// range of code points starts.
pub struct CharTable {
    offset: u32,
}

impl CharTable {
    pub closed spec fn spec_offset(self) -> u32 {
        self.offset
    }

    pub fn new(offset: u32) -> (result: CharTable)
        ensures
            result.spec_offset() == offset,
    {
        CharTable { offset }
    }

    pub fn offset(&self) -> (result: u32)
        ensures
            result == self.spec_offset(),
    {
        self.offset
    }

    /// Fill the sampled positions of `area` in `buf` with the table of code
    /// points starting at this widget's offset, and report the largest code
    /// point that failed character interpretation, if any did. Positions
    /// not sampled — odd rows, odd columns, anything outside `area` — keep
    /// their prior cell byte for byte.
    pub fn draw(&self, area: Area, buf: &mut GridBuffer) -> (max_invalid: Option<u32>)
        requires
            old(buf).wf(),
            area.fits_in(old(buf).spec_width(), old(buf).spec_height()),
            area.width > 0 && area.height > 0 ==> self.spec_offset() + (area.width - 1) + (
            area.height - 1) * area.width <= u32::MAX,
        ensures
            final(buf).wf(),
            final(buf).spec_width() == old(buf).spec_width(),
            final(buf).spec_height() == old(buf).spec_height(),
            forall|px: int, py: int|
                final(buf).in_bounds(px, py) ==> final(buf).cell_at(px, py) == (
                if sampled(area, px - area.x, py - area.y) && area.x <= px && area.y <= py {
                    placed_cell(
                        old(buf).cell_at(px, py),
                        code_point_at(self.spec_offset(), area, px - area.x, py - area.y) as u32,
                    )
                } else {
                    old(buf).cell_at(px, py)
                }),
            match max_invalid {
                Option::None => forall|dx: int, dy: int| #![trigger sampled(area, dx, dy)]
                    sampled(area, dx, dy) ==> is_scalar(
                        code_point_at(self.spec_offset(), area, dx, dy) as u32,
                    ),
                Option::Some(m) => {
                    &&& !is_scalar(m)
                    &&& exists|dx: int, dy: int| #![trigger sampled(area, dx, dy)]
                        sampled(area, dx, dy) && code_point_at(self.spec_offset(), area, dx, dy)
                            == m
                    &&& forall|dx: int, dy: int| #![trigger sampled(area, dx, dy)]
                        sampled(area, dx, dy) && !is_scalar(
                            code_point_at(self.spec_offset(), area, dx, dy) as u32,
                        ) ==> code_point_at(self.spec_offset(), area, dx, dy) <= m
                },
            },
    {
        let offset = self.offset;
        let mut max_invalid: Option<u32> = None;
        let mut y: u32 = 0;
        while y < area.height as u32
            invariant
                buf.wf(),
                buf.spec_width() == old(buf).spec_width(),
                buf.spec_height() == old(buf).spec_height(),
                area.fits_in(buf.spec_width(), buf.spec_height()),
                offset == self.spec_offset(),
                area.width > 0 && area.height > 0 ==> offset + (area.width - 1) + (area.height
                    - 1) * area.width <= u32::MAX,
                y % 2 == 0,
                forall|px: int, py: int|
                    buf.in_bounds(px, py) ==> buf.cell_at(px, py) == (
                    if sampled(area, px - area.x, py - area.y) && area.x <= px && area.y <= py
                        && py - area.y < y {
                        placed_cell(
                            old(buf).cell_at(px, py),
                            code_point_at(offset, area, px - area.x, py - area.y) as u32,
                        )
                    } else {
                        old(buf).cell_at(px, py)
                    }),
                match max_invalid {
                    Option::None => forall|dx: int, dy: int| #![trigger sampled(area, dx, dy)]
                        sampled(area, dx, dy) && dy < y ==> is_scalar(
                            code_point_at(offset, area, dx, dy) as u32,
                        ),
                    Option::Some(m) => {
                        &&& !is_scalar(m)
                        &&& exists|dx: int, dy: int| #![trigger sampled(area, dx, dy)]
                            sampled(area, dx, dy) && dy < y && code_point_at(offset, area, dx, dy)
                                == m
                        &&& forall|dx: int, dy: int| #![trigger sampled(area, dx, dy)]
                            sampled(area, dx, dy) && dy < y && !is_scalar(
                                code_point_at(offset, area, dx, dy) as u32,
                            ) ==> code_point_at(offset, area, dx, dy) <= m
                    },
                },
            decreases area.height as int + 1 - y,
        {
            let mut x: u32 = 0;
            while x < area.width as u32
                invariant
                    buf.wf(),
                    buf.spec_width() == old(buf).spec_width(),
                    buf.spec_height() == old(buf).spec_height(),
                    area.fits_in(buf.spec_width(), buf.spec_height()),
                    offset == self.spec_offset(),
                    area.width > 0 && area.height > 0 ==> offset + (area.width - 1) + (area.height
                        - 1) * area.width <= u32::MAX,
                    y % 2 == 0,
                    x % 2 == 0,
                    y < area.height,
                    forall|px: int, py: int|
                        buf.in_bounds(px, py) ==> buf.cell_at(px, py) == (
                        if sampled(area, px - area.x, py - area.y) && area.x <= px && area.y <= py
                            && (py - area.y < y || (py - area.y == y && px - area.x < x)) {
                            placed_cell(
                                old(buf).cell_at(px, py),
                                code_point_at(offset, area, px - area.x, py - area.y) as u32,
                            )
                        } else {
                            old(buf).cell_at(px, py)
                        }),
                    match max_invalid {
                        Option::None => forall|dx: int, dy: int| #![trigger sampled(area, dx, dy)]
                            sampled(area, dx, dy) && (dy < y || (dy == y && dx < x)) ==> is_scalar(
                                code_point_at(offset, area, dx, dy) as u32,
                            ),
                        Option::Some(m) => {
                            &&& !is_scalar(m)
                            &&& exists|dx: int, dy: int| #![trigger sampled(area, dx, dy)]
                                sampled(area, dx, dy) && (dy < y || (dy == y && dx < x))
                                    && code_point_at(offset, area, dx, dy) == m
                            &&& forall|dx: int, dy: int| #![trigger sampled(area, dx, dy)]
                                sampled(area, dx, dy) && (dy < y || (dy == y && dx < x))
                                    && !is_scalar(
                                    code_point_at(offset, area, dx, dy) as u32,
                                ) ==> code_point_at(offset, area, dx, dy) <= m
                        },
                    },
                decreases area.width as int + 1 - x,
            {
                proof {
                    assert((y as int) * (area.width as int) <= (area.height as int - 1) * (
                    area.width as int)) by (nonlinear_arith)
                        requires
                            y < area.height,
                            area.width >= 0,
                    ;
                }
                let p: u32 = offset + x + y * (area.width as u32);
                proof {
                    assert(p as int == code_point_at(offset, area, x as int, y as int));
                    assert(code_point_at(offset, area, x as int, y as int) as u32 == p);
                }
                match char::from_u32(p) {
                    Some(c) => {
                        proof {
                            char_u32_cast(c, p);
                            assert(is_scalar(p));
                            if max_invalid is None {
                                assert forall|dx: int, dy: int| #![trigger sampled(area, dx, dy)]
                                    sampled(area, dx, dy) && (dy < y || (dy == y && dx < x + 2))
                                        implies is_scalar(
                                    code_point_at(offset, area, dx, dy) as u32,
                                ) by {
                                    if !(dy < y || (dy == y && dx < x)) {
                                        assert(dx == x && dy == y);
                                        assert(code_point_at(offset, area, dx, dy) as u32 == p);
                                    }
                                }
                            }
                        }
                        match char_width(c) {
                            Some(w) => {
                                let px: u16 = area.x + (x as u16);
                                let py: u16 = area.y + (y as u16);
                                let prev = buf.get(px, py);
                                if w > 0 {
                                    buf.set(
                                        px,
                                        py,
                                        Cell { symbol: Symbol::One(c), fg: prev.fg, bg: prev.bg },
                                    );
                                } else {
                                    buf.set(
                                        px,
                                        py,
                                        Cell {
                                            symbol: Symbol::Pair(' ', c),
                                            fg: prev.fg,
                                            bg: prev.bg,
                                        },
                                    );
                                }
                            },
                            None => {},
                        }
                    },
                    None => {
                        max_invalid = Some(p);
                        proof {
                            assert(sampled(area, x as int, y as int));
                            assert(code_point_at(offset, area, x as int, y as int) == p as int);
                            assert forall|dx: int, dy: int| #![trigger sampled(area, dx, dy)]
                                sampled(area, dx, dy) && (dy < y || (dy == y && dx < x + 2))
                                    && !is_scalar(
                                    code_point_at(offset, area, dx, dy) as u32,
                                ) implies code_point_at(offset, area, dx, dy) <= p as int by {
                                if dy < y || (dy == y && dx < x) {
                                    lemma_code_point_order(
                                        offset,
                                        area,
                                        dx,
                                        dy,
                                        x as int,
                                        y as int,
                                    );
                                }
                            }
                        }
                    },
                }
                x = x + 2;
            }
            y = y + 2;
        }
        max_invalid
    }
}

} // verus!
