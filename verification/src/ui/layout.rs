//! Where things go on the screen.

use tui::layout::{Constraint, Direction, Layout, Rect};
use vstd::prelude::*;

verus! {

/// A rectangle of the terminal, in cells.
#[derive(Debug, Clone, Copy, PartialEq, Eq, Structural)]
pub struct Area {
    /// First column.
    pub x: u16,
    /// First row.
    pub y: u16,
    /// Number of columns.
    pub width: u16,
    /// Number of rows.
    pub height: u16,
}

/// How many rows something should have.
#[derive(Debug, Clone, Copy, PartialEq, Eq, Structural)]
pub enum Rows {
    /// A part of what there is, in hundredths.
    Percentage(u16),
    /// This many.
    Length(u16),
    /// At most this many.
    Max(u16),
}

impl Area {
    /// What is left of the rectangle inside a margin on all sides. Nothing, at the origin, if
    /// the margin does not fit.
    pub open spec fn inside(self, margin: int) -> Area {
        if self.width < 2 * margin || self.height < 2 * margin {
            Area { x: 0, y: 0, width: 0, height: 0 }
        } else {
            Area {
                x: (self.x + margin) as u16,
                y: (self.y + margin) as u16,
                width: (self.width - 2 * margin) as u16,
                height: (self.height - 2 * margin) as u16,
            }
        }
    }
}

/// Whether an area can be divided into the given rows: coordinates and percentages are computed
/// in sixteen bits.
pub open spec fn divisible(area: Area, margin: int, rows: Seq<Rows>) -> bool {
    &&& 2 * margin <= u16::MAX
    &&& area.x + area.width <= u16::MAX
    &&& area.y + area.height <= u16::MAX
    &&& forall|i: int|
        0 <= i < rows.len() ==> match #[trigger] rows[i] {
            Rows::Percentage(p) => p * area.inside(margin).height <= u16::MAX,
            _ => true,
        }
}

/// Two rows whose shares make up the whole, in hundredths.
pub open spec fn two_shares(rows: Seq<Rows>) -> bool {
    rows.len() == 2 && match (rows[0], rows[1]) {
        (Rows::Percentage(p), Rows::Percentage(q)) => p + q == 100,
        _ => false,
    }
}

/// Two rows, the first of a fixed height and the second of at most some height, that together can
/// fill the given height.
pub open spec fn fixed_and_rest(rows: Seq<Rows>, height: int) -> bool {
    rows.len() == 2 && match (rows[0], rows[1]) {
        (Rows::Length(l), Rows::Max(m)) => height <= l + m,
        _ => false,
    }
}

/// Five rows, each with a fifth of the whole.
pub open spec fn five_fifths(rows: Seq<Rows>) -> bool {
    rows.len() == 5 && forall|i: int| 0 <= i < 5 ==> #[trigger] rows[i] == Rows::Percentage(20)
}

/// What a row asks for out of the given height, rounded down.
pub open spec fn wanted(row: Rows, height: int) -> int {
    match row {
        Rows::Percentage(p) => p * height / 100,
        Rows::Length(n) => if n < height {
            n as int
        } else {
            height
        },
        Rows::Max(n) => if n < height {
            n as int
        } else {
            height
        },
    }
}

/// What is known of the areas that `area` is divided into. There is one for each of the rows, they
/// are as wide as the margin leaves `area`, the first one starts at the margin and the last one
/// reaches down to it. If all rows can have what they ask for, every row but the last has just
/// that, and the next one starts where it ends, a fraction of a row being rounded down.
pub open spec fn divided(areas: Seq<Area>, area: Area, margin: int, rows: Seq<Rows>) -> bool {
    let inside = area.inside(margin);
    &&& areas.len() == rows.len()
    &&& forall|i: int|
        0 <= i < areas.len() ==> (#[trigger] areas[i]).x == inside.x && areas[i].width
            == inside.width
    &&& areas.len() > 0 ==> areas[0].y == inside.y
    &&& areas.len() > 0 ==> areas.last().y + areas.last().height == inside.y + inside.height
    &&& two_shares(rows) || fixed_and_rest(rows, inside.height as int) ==> {
        &&& areas[0].height == wanted(rows[0], inside.height as int)
        &&& areas[1].y == areas[0].y + areas[0].height
    }
    &&& five_fifths(rows) ==> {
        &&& forall|i: int|
            0 <= i < 4 ==> (#[trigger] areas[i]).height == wanted(rows[i], inside.height as int)
        &&& forall|i: int|
            0 <= i < 5 ==> (#[trigger] areas[i]).y == inside.y + i * inside.height / 5
    }
}

/// Divides an area with `tui::layout::Layout::split`, vertically and inside a margin. The heights
/// that rows ask for are weak equalities of a linear system, and where the rows start and end are
/// required ones. Where all weak ones can hold at once there is one solution, whatever the order
/// in which the solver walks its hash maps; for the rows that are named here it is far enough from
/// the next whole number to be rounded down as claimed. What becomes of other rows is not claimed,
/// beyond their number, their sides, the top of the first and the bottom of the last.
#[verifier::external_body]
fn split(area: Area, margin: u16, rows: &Vec<Rows>) -> (r: Vec<Area>)
    requires
        divisible(area, margin as int, rows@),
    ensures
        divided(r@, area, margin as int, rows@),
{
    let rows = rows.iter().map(|c| match c {
        Rows::Percentage(p) => Constraint::Percentage(*p),
        Rows::Length(l) => Constraint::Length(*l),
        Rows::Max(m) => Constraint::Max(*m),
    }).collect::<Vec<_>>();
    let (x, y, width, height) = (area.x, area.y, area.width, area.height);
    let chunks = Layout::default()
        .direction(Direction::Vertical)
        .margin(margin)
        .constraints(rows)
        .split(Rect { x, y, width, height });
    chunks.iter().map(|c| Area { x: c.x, y: c.y, width: c.width, height: c.height }).collect()
}

/// Divides an area into rows inside a margin. There is an answer exactly if the area is
/// [`divisible`].
pub fn divide(area: Area, margin: u16, rows: &Vec<Rows>) -> (r: Option<Vec<Area>>)
    ensures
        r is Some <==> divisible(area, margin as int, rows@),
        r matches Some(areas) ==> divided(areas@, area, margin as int, rows@),
{
    if margin > u16::MAX / 2 || area.x > u16::MAX - area.width || area.y > u16::MAX
        - area.height {
        return None;
    }
    let height: u16 = if area.width < 2 * margin || area.height < 2 * margin {
        0
    } else {
        area.height - 2 * margin
    };
    assert(height == area.inside(margin as int).height);
    for i in 0..rows.len()
        invariant
            height == area.inside(margin as int).height,
            forall|j: int|
                0 <= j < i ==> match #[trigger] rows@[j] {
                    Rows::Percentage(p) => p * area.inside(margin as int).height <= u16::MAX,
                    _ => true,
                },
    {
        match rows[i] {
            Rows::Percentage(p) => {
                assert(0 <= p * height <= u16::MAX * u16::MAX) by (nonlinear_arith)
                    requires
                        0 <= p <= u16::MAX,
                        0 <= height <= u16::MAX,
                ;
                if p as u32 * height as u32 > u16::MAX as u32 {
                    assert(rows@[i as int] is Percentage);
                    return None;
                }
            },
            _ => {},
        }
    }
    Some(split(area, margin, rows))
}

/// The rows of the screen: what the program is about, then the log, which is large if asked
/// for.
pub open spec fn screen_rows(large_log: bool) -> Seq<Rows> {
    if large_log {
        seq![Rows::Percentage(5), Rows::Percentage(95)]
    } else {
        seq![Rows::Percentage(80), Rows::Percentage(20)]
    }
}

/// The part of the screen that shows what the program is about.
pub open spec fn pane_area(size: Area, large_log: bool) -> Area {
    let inside = size.inside(2);
    Area { height: wanted(screen_rows(large_log)[0], inside.height as int) as u16, ..inside }
}

/// The part of the screen that shows the log: what is left below.
pub open spec fn log_area(size: Area, large_log: bool) -> Area {
    let inside = size.inside(2);
    let above = pane_area(size, large_log).height;
    Area { y: (inside.y + above) as u16, height: (inside.height - above) as u16, ..inside }
}

/// Divides the screen between what the program is about and the log.
pub fn screen_layout(size: Area, large_log: bool) -> (r: Option<Vec<Area>>)
    ensures
        r is Some <==> divisible(size, 2, screen_rows(large_log)),
        r matches Some(areas) ==> {
            &&& divided(areas@, size, 2, screen_rows(large_log))
            &&& areas@ == seq![pane_area(size, large_log), log_area(size, large_log)]
        },
{
    let mut rows: Vec<Rows> = Vec::new();
    if large_log {
        rows.push(Rows::Percentage(5));
        rows.push(Rows::Percentage(95));
    } else {
        rows.push(Rows::Percentage(80));
        rows.push(Rows::Percentage(20));
    }
    assert(rows@ =~= screen_rows(large_log));
    let areas = divide(size, 2, &rows);
    proof {
        if areas is Some {
            assert(areas->Some_0@ =~= seq![pane_area(size, large_log), log_area(size, large_log)]);
        }
    }
    areas
}

/// The rows of the list of clips: instructions, then the list.
pub open spec fn clips_rows() -> Seq<Rows> {
    seq![Rows::Length(5), Rows::Max(9999)]
}

/// Divides an area between instructions and the list of clips.
pub fn clips_layout(area: Area) -> (r: Option<Vec<Area>>)
    ensures
        r is Some <==> divisible(area, 0, clips_rows()),
        r matches Some(areas) ==> divided(areas@, area, 0, clips_rows()),
{
    let mut rows: Vec<Rows> = Vec::new();
    rows.push(Rows::Length(5));
    rows.push(Rows::Max(9999));
    assert(rows@ =~= clips_rows());
    divide(area, 0, &rows)
}

/// The rows of the configuration: one for each text box, and one for instructions.
pub open spec fn config_rows() -> Seq<Rows> {
    Seq::new(5, |i: int| Rows::Percentage(20))
}

/// What is left of an area inside a border of one cell.
pub open spec fn bordered(area: Area) -> Area {
    Area {
        x: (area.x + 1) as u16,
        y: (area.y + 1) as u16,
        width: (area.width - 2) as u16,
        height: (area.height - 2) as u16,
    }
}

/// Whether there is something left of an area inside a border of one cell.
pub open spec fn has_border(area: Area) -> bool {
    area.x < u16::MAX && area.y < u16::MAX && area.width >= 2 && area.height >= 2
}

/// Divides what a border leaves of an area between the text boxes and the instructions.
pub fn config_layout(area: Area) -> (r: Option<Vec<Area>>)
    ensures
        r is Some <==> has_border(area) && divisible(bordered(area), 3, config_rows()),
        r matches Some(areas) ==> divided(areas@, bordered(area), 3, config_rows()),
{
    if area.x == u16::MAX || area.y == u16::MAX || area.width < 2 || area.height < 2 {
        return None;
    }
    let inner = Area {
        x: area.x + 1,
        y: area.y + 1,
        width: area.width - 2,
        height: area.height - 2,
    };
    let mut rows: Vec<Rows> = Vec::new();
    for i in 0..5usize
        invariant
            rows@ =~= config_rows().take(i as int),
    {
        rows.push(Rows::Percentage(20));
    }
    assert(rows@ =~= config_rows());
    divide(inner, 3, &rows)
}

/// How many lines of the log fit between the borders of an area. There is an answer exactly if
/// the borders fit.
pub fn log_height(area: Area) -> (r: Option<u16>)
    ensures
        r == if area.height >= 2 {
            Some((area.height - 2) as u16)
        } else {
            None
        },
{
    if area.height >= 2 {
        Some(area.height - 2)
    } else {
        None
    }
}

/// The pane and the log share the screen inside a margin of two cells, the pane above the log and
/// without a gap. The pane has four fifths of the rows, or a twentieth if the log is large, rounded
/// down.
pub proof fn pane_and_log_share_the_screen(size: Area, large_log: bool)
    requires
        size.width >= 4,
        size.height >= 4,
        size.x + size.width <= u16::MAX,
        size.y + size.height <= u16::MAX,
    ensures
        ({
            let pane = pane_area(size, large_log);
            let log = log_area(size, large_log);
            &&& pane.x == size.x + 2 && log.x == size.x + 2
            &&& pane.width == size.width - 4 && log.width == size.width - 4
            &&& pane.y == size.y + 2
            &&& log.y == pane.y + pane.height
            &&& log.y + log.height == size.y + size.height - 2
            &&& !large_log ==> pane.height == (size.height - 4) * 4 / 5
            &&& large_log ==> pane.height == (size.height - 4) / 20
        }),
{
    let h = size.height - 4;
    let p = screen_rows(large_log)[0]->Percentage_0;
    assert(p == if large_log {
        5u16
    } else {
        80u16
    });
    assert(p * h == if large_log {
        5 * h
    } else {
        80 * h
    });
    assert(5 * h / 100 == h / 20);
    assert(80 * h / 100 == h * 4 / 5);
}

/// What [`screen_layout`] returns: the pane, and the log below it, as
/// [`pane_and_log_share_the_screen`] tells.
pub proof fn the_screen_is_shared(size: Area, large_log: bool, r: Option<Vec<Area>>)
    requires
        size.width >= 4,
        size.height >= 4,
        call_ensures(screen_layout, (size, large_log), r),
        r is Some,
    ensures
        r->Some_0@.len() == 2,
        ({
            let pane = r->Some_0@[0];
            let log = r->Some_0@[1];
            &&& pane.x == size.x + 2 && log.x == size.x + 2
            &&& pane.width == size.width - 4 && log.width == size.width - 4
            &&& pane.y == size.y + 2
            &&& log.y == pane.y + pane.height
            &&& log.y + log.height == size.y + size.height - 2
            &&& !large_log ==> pane.height == (size.height - 4) * 4 / 5
            &&& large_log ==> pane.height == (size.height - 4) / 20
        }),
{
    pane_and_log_share_the_screen(size, large_log);
}

/// Every screen of at most six hundred and ninety-three rows can be divided, if its coordinates can
/// be counted.
pub proof fn usual_screens_are_divided(size: Area, large_log: bool, r: Option<Vec<Area>>)
    requires
        size.height <= 693,
        size.x + size.width <= u16::MAX,
        size.y + size.height <= u16::MAX,
        call_ensures(screen_layout, (size, large_log), r),
    ensures
        r is Some,
{
    let h = size.inside(2).height;
    assert(h <= 689);
    assert(5 * h <= u16::MAX && 95 * h <= u16::MAX && 80 * h <= u16::MAX && 20 * h <= u16::MAX);
    assert forall|i: int| 0 <= i < screen_rows(large_log).len() implies match #[trigger] screen_rows(
        large_log,
    )[i] {
        Rows::Percentage(p) => p * size.inside(2).height <= u16::MAX,
        _ => true,
    } by {
        if large_log {
            assert(screen_rows(large_log)[i] == Rows::Percentage(5) || screen_rows(large_log)[i]
                == Rows::Percentage(95));
        } else {
            assert(screen_rows(large_log)[i] == Rows::Percentage(80) || screen_rows(large_log)[i]
                == Rows::Percentage(20));
        }
    }
}

/// What [`clips_layout`] returns: five rows for the instructions, or all there are if there are
/// fewer, and what is left below for the list. There is an answer for all areas whose coordinates can
/// be counted.
pub proof fn instructions_stand_above_the_list(area: Area, r: Option<Vec<Area>>)
    requires
        area.height <= 10004,
        call_ensures(clips_layout, (area,), r),
    ensures
        r is Some <==> area.x + area.width <= u16::MAX && area.y + area.height <= u16::MAX,
        r is Some ==> {
            let above = r->Some_0@[0];
            let list = r->Some_0@[1];
            &&& r->Some_0@.len() == 2
            &&& above.x == area.x && list.x == area.x
            &&& above.width == area.width && list.width == area.width
            &&& above.y == area.y
            &&& above.height == if area.height < 5 {
                area.height as int
            } else {
                5
            }
            &&& list.y == above.y + above.height
            &&& list.y + list.height == area.y + area.height
        },
{
    assert(fixed_and_rest(clips_rows(), area.inside(0).height as int));
}

/// What [`config_layout`] returns: inside a border of one cell and a margin of three, five areas that
/// each have a fifth of the rows, and stand one below the other.
pub proof fn text_boxes_have_equal_rows(area: Area, r: Option<Vec<Area>>, i: int)
    requires
        area.width >= 8,
        area.height >= 8,
        call_ensures(config_layout, (area,), r),
        0 <= i < 5,
        r is Some,
    ensures
        r->Some_0@.len() == 5,
        r->Some_0@[i].x == area.x + 4,
        r->Some_0@[i].width == area.width - 8,
        r->Some_0@[i].y == area.y + 4 + i * (area.height - 8) / 5,
        i < 4 ==> r->Some_0@[i].height == (area.height - 8) / 5,
        r->Some_0@[4].y + r->Some_0@[4].height == area.y + area.height - 4,
{
    let inside = bordered(area).inside(3);
    assert(inside.height == area.height - 8);
    assert(five_fifths(config_rows()));
    let rows = config_rows();
    assert(rows[i] == Rows::Percentage(20));
    assert(wanted(rows[i], inside.height as int) == 20 * inside.height / 100);
    assert(20 * inside.height / 100 == inside.height as int / 5);
}

} // verus!
