//! Where things stand on the screen.

use vstd::prelude::*;
use ratatui::layout::{Constraint, Direction, Layout, Rect};
use crate::tui::chrome::{side_margin, Area};
use crate::tui::scroll::{less, smaller};

verus! {

/// The axis along which an area is divided.
#[derive(Debug, Clone, Copy, PartialEq, Eq, Structural)]
pub enum Axis {
    Horizontal,
    Vertical,
}

/// The share of a part in an area that is divided.
#[derive(Debug, Clone, Copy, PartialEq, Eq, Structural)]
pub enum Share {
    /// So many cells.
    Length(u16),
    /// So many cells, or more.
    Min(u16),
    /// So many hundredths.
    Percentage(u16),
}

impl Area {
    /// Whether the area ends on a screen.
    pub open spec fn wf(self) -> bool {
        self.x + self.width <= u16::MAX && self.y + self.height <= u16::MAX
    }

    /// Whether `part` lies within the area.
    pub open spec fn holds(self, part: Area) -> bool {
        &&& self.x <= part.x
        &&& part.x + part.width <= self.x + self.width
        &&& self.y <= part.y
        &&& part.y + part.height <= self.y + self.height
    }

    /// The number of cells along an axis.
    pub open spec fn extent(self, axis: Axis) -> int {
        match axis {
            Axis::Horizontal => self.width as int,
            Axis::Vertical => self.height as int,
        }
    }

    /// Whether `part` begins `from` cells into the area along an axis, and takes `len` of them.
    pub open spec fn has_part(self, axis: Axis, from: int, len: int, part: Area) -> bool {
        match axis {
            Axis::Horizontal => part.x == self.x + from && part.width == len,
            Axis::Vertical => part.y == self.y + from && part.height == len,
        }
    }

    /// Whether `part` takes `len` cells along an axis.
    pub open spec fn takes(self, axis: Axis, len: int, part: Area) -> bool {
        match axis {
            Axis::Horizontal => part.width == len,
            Axis::Vertical => part.height == len,
        }
    }

    /// Whether `part` reaches across the area from side to side.
    pub open spec fn spans(self, axis: Axis, part: Area) -> bool {
        match axis {
            Axis::Horizontal => part.y == self.y && part.height == self.height,
            Axis::Vertical => part.x == self.x && part.width == self.width,
        }
    }
}

/// The shares of two lengths, and a part that takes the rest.
pub open spec fn two_lengths(first: u16, second: u16) -> Seq<Share> {
    seq![Share::Length(first), Share::Length(second), Share::Min(0)]
}

/// The shares by which `middle` stands between two equal margins of `margin` hundredths.
pub open spec fn margin_shares(margin: u16, middle: Share) -> Seq<Share> {
    seq![Share::Percentage(margin), middle, Share::Percentage(margin)]
}

/// So many hundredths of a cell in whole cells, rounded half up.
pub open spec fn whole_cells(hundredths: int) -> int {
    (hundredths + 50) / 100
}

/// Whether `part` is the middle one of an area that is divided along an axis, as far as the shares
/// settle it. Two lengths, before a part that takes the rest, are kept where they fit; a length
/// that does not fit takes all. A length between two equal margins goes before these, and they
/// are kept where there is room for them as well; hundredths that make up no more than the whole
/// are kept, each end rounded to a whole cell.
pub open spec fn middle_part(area: Area, axis: Axis, shares: Seq<Share>, part: Area) -> bool {
    let whole = area.extent(axis);
    &&& forall|a: u16, b: u16|
        shares == #[trigger] two_lengths(a, b) ==> {
            &&& a + b <= whole ==> area.has_part(axis, a as int, b as int, part)
            &&& a == 0 && b > whole ==> area.has_part(axis, 0, whole, part)
        }
    &&& forall|m: u16, n: u16|
        shares == #[trigger] margin_shares(m, Share::Length(n)) ==> {
            &&& area.takes(axis, smaller(n as int, whole), part)
            &&& n >= whole ==> area.has_part(axis, 0, whole, part)
            &&& 2 * m * whole + 100 * n <= 100 * whole ==> area.has_part(
                axis,
                whole_cells(m * whole),
                n as int,
                part,
            )
        }
    &&& forall|m: u16, p: u16|
        shares == #[trigger] margin_shares(m, Share::Percentage(p)) && 2 * m + p <= 100
            ==> area.has_part(
            axis,
            whole_cells(m * whole),
            whole_cells((m + p) * whole) - whole_cells(m * whole),
            part,
        )
}

/// `Layout::split` of the `ratatui` crate: an area divided along an axis, one part for each share.
/// The parts lie within the area and reach across it, and the second of three is what
/// [`middle_part`] says for two lengths, for a length between margins and for hundredths. What
/// the solver of the crate makes of other shares, or of shares that contradict each other, is not
/// said.
#[verifier::external_body]
fn split(area: Area, axis: Axis, shares: &Vec<Share>) -> (parts: Vec<Area>)
    requires
        area.wf(),
    ensures
        parts@.len() == shares@.len(),
        forall|i: int|
            0 <= i < parts@.len() ==> area.holds(#[trigger] parts@[i]) && area.spans(axis, parts@[i]),
        shares@.len() == 3 ==> middle_part(area, axis, shares@, parts@[1]),
{
    let direction = match axis {
        Axis::Horizontal => Direction::Horizontal,
        Axis::Vertical => Direction::Vertical,
    };
    let constraints = shares.iter().map(|share| match share {
        Share::Length(n) => Constraint::Length(*n),
        Share::Min(n) => Constraint::Min(*n),
        Share::Percentage(n) => Constraint::Percentage(*n),
    });
    let rect = Rect { x: area.x, y: area.y, width: area.width, height: area.height };
    let rects = Layout::default().direction(direction).constraints(constraints).split(rect);
    rects.iter().map(|r| Area { x: r.x, y: r.y, width: r.width, height: r.height }).collect()
}

/// The shares by which something of `size` cells stands in the middle of `whole`.
pub open spec fn middle_shares(size: u16, whole: u16) -> Seq<Share> {
    two_lengths((less(whole as int, size as int) / 2) as u16, size)
}

/// The shares by which something of `size` cells stands in the middle of `whole`.
pub fn centered_shares(size: u16, whole: u16) -> (shares: Vec<Share>)
    ensures
        shares@ == middle_shares(size, whole),
{
    let margin: u16 = if whole < size {
        0
    } else {
        (whole - size) / 2
    };
    let mut shares: Vec<Share> = Vec::new();
    shares.push(Share::Length(margin));
    shares.push(Share::Length(size));
    shares.push(Share::Min(0));
    assert(shares@ =~= middle_shares(size, whole));
    shares
}

/// The middle part of an area divided into three.
fn middle(area: Area, axis: Axis, shares: &Vec<Share>) -> (part: Area)
    requires
        area.wf(),
        shares@.len() == 3,
    ensures
        area.holds(part),
        area.spans(axis, part),
        part.wf(),
        middle_part(area, axis, shares@, part),
{
    let parts = split(area, axis, shares);
    assert(area.holds(parts@[1]) && area.spans(axis, parts@[1]));
    parts[1]
}

/// The middle of an area, `width` columns and `height` rows of it, or all where the area does not
/// have so many.
pub open spec fn centered(width: u16, height: u16, area: Area) -> Area {
    Area {
        x: (area.x + less(area.width as int, width as int) / 2) as u16,
        y: (area.y + less(area.height as int, height as int) / 2) as u16,
        width: smaller(width as int, area.width as int) as u16,
        height: smaller(height as int, area.height as int) as u16,
    }
}

/// The middle of an area, `width` columns and `height` rows of it, or all where the area does not
/// have so many.
pub fn centered_rect(width: u16, height: u16, area: Area) -> (inner: Area)
    requires
        area.wf(),
    ensures
        area.holds(inner),
        inner == centered(width, height, area),
{
    let ghost above = (less(area.height as int, height as int) / 2) as u16;
    let ghost before = (less(area.width as int, width as int) / 2) as u16;
    let rows = middle(area, Axis::Vertical, &centered_shares(height, area.height));
    assert(middle_shares(height, area.height) == two_lengths(above, height));
    assert(middle_shares(width, area.width) == two_lengths(before, width));
    middle(rows, Axis::Horizontal, &centered_shares(width, area.width))
}

/// The shares by which a popup of `height` rows stands on a screen: what is left of a hundred,
/// taken as hundredths, goes above and below.
pub fn popup_row_shares(height: u16) -> (shares: Vec<Share>)
    ensures
        shares@ == margin_shares(
            ((100 - smaller(height as int, 100)) / 2) as u16,
            Share::Length(height),
        ),
{
    let margin: u16 = side_margin(height);
    let mut shares: Vec<Share> = Vec::new();
    shares.push(Share::Percentage(margin));
    shares.push(Share::Length(height));
    shares.push(Share::Percentage(margin));
    assert(shares@ =~= margin_shares(
        ((100 - smaller(height as int, 100)) / 2) as u16,
        Share::Length(height),
    ));
    shares
}

/// The shares by which a popup takes `percent` hundredths of a screen's columns.
pub fn popup_column_shares(percent: u16) -> (shares: Vec<Share>)
    requires
        percent <= 100,
    ensures
        shares@ == margin_shares(((100 - percent) / 2) as u16, Share::Percentage(percent)),
{
    let margin: u16 = (100 - percent) / 2;
    let mut shares: Vec<Share> = Vec::new();
    shares.push(Share::Percentage(margin));
    shares.push(Share::Percentage(percent));
    shares.push(Share::Percentage(margin));
    assert(shares@ =~= margin_shares(((100 - percent) / 2) as u16, Share::Percentage(percent)));
    shares
}

/// Where a popup of `height` rows and `percent_x` hundredths of the columns stands. It has its rows,
/// or all where there are fewer. How far down it begins is left open where its margins do not fit
/// beside it.
pub fn centered_popup(percent_x: u16, height: u16, area: Area) -> (inner: Area)
    requires
        area.wf(),
        percent_x <= 100,
    ensures
        area.holds(inner),
        area.has_part(
            Axis::Horizontal,
            whole_cells((100 - percent_x) / 2 * area.width),
            whole_cells(((100 - percent_x) / 2 + percent_x) * area.width) - whole_cells(
                (100 - percent_x) / 2 * area.width,
            ),
            inner,
        ),
        inner.height == smaller(height as int, area.height as int),
        height >= area.height ==> inner.y == area.y,
        ({
            let margin = (100 - smaller(height as int, 100)) / 2;
            2 * margin * area.height + 100 * height <= 100 * area.height ==> inner.y == area.y
                + whole_cells(margin * area.height)
        }),
{
    let rows = middle(area, Axis::Vertical, &popup_row_shares(height));
    assert(area.takes(Axis::Vertical, smaller(height as int, area.height as int), rows));
    middle(rows, Axis::Horizontal, &popup_column_shares(percent_x))
}

/// What stands in the middle has margins on both sides that differ by one cell at most, the
/// smaller one first; what does not fit has none.
pub proof fn lemma_middle_has_even_margins(size: u16, whole: u16)
    ensures
        ({
            let shares = middle_shares(size, whole);
            &&& shares.len() == 3
            &&& shares[0] matches Share::Length(margin) && (if size <= whole {
                margin + size + margin == whole || margin + size + margin + 1 == whole
            } else {
                margin == 0
            })
            &&& shares[1] == Share::Length(size)
            &&& shares[2] == Share::Min(0)
        }),
{
}

/// The middle of an area has the columns and rows that were asked for, or all there are; to its
/// left and above it is as much room as to its right and below it, or one cell less.
pub proof fn lemma_middle_is_in_the_middle(width: u16, height: u16, area: Area)
    requires
        area.wf(),
    ensures
        ({
            let inner = centered(width, height, area);
            let left = inner.x - area.x;
            let right = area.x + area.width - (inner.x + inner.width);
            let above = inner.y - area.y;
            let below = area.y + area.height - (inner.y + inner.height);
            &&& width <= area.width ==> inner.width == width
            &&& width > area.width ==> inner.width == area.width
            &&& height <= area.height ==> inner.height == height
            &&& height > area.height ==> inner.height == area.height
            &&& 0 <= left
            &&& left == right || left + 1 == right
            &&& 0 <= above
            &&& above == below || above + 1 == below
        }),
{
}

/// Hundredths of a cell are rounded to the nearest whole cell.
pub proof fn lemma_cells_are_rounded(hundredths: int)
    ensures
        -50 < 100 * whole_cells(hundredths) - hundredths <= 50,
{
}

} // verus!
