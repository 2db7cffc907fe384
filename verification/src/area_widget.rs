//! The text-mode view of an area: what it draws, how keys scroll it, and
//! where a click sends the player.
use vstd::prelude::*;
use vstd::string::*;

use crate::geometry::{Point, Size};
use crate::text::{i64_to_string, signed_decimal};

verus! {

/// The input actions that the area view reads.
#[derive(Clone, Copy, Debug, PartialEq, Eq, Structural)]
pub enum InputAction {
    ScrollUp,
    ScrollDown,
    ScrollLeft,
    ScrollRight,
    /// Any other action.
    Other,
}

/// One row of the text-mode view: where the cursor goes, and the area
/// tiles whose characters are drawn there, left to right.
pub struct DrawRow {
    pub cursor: Point,
    pub tiles: Vec<Point>,
}

/// The view of an area of the given size.
pub struct AreaWidget {
    pub area_width: i32,
    pub area_height: i32,
}

/// The lesser of two integers.
pub open spec fn min(a: int, b: int) -> int {
    if a <= b { a } else { b }
}

/// The greater of zero and `a`.
pub open spec fn non_negative(a: int) -> int {
    if a < 0 { 0 } else { a }
}

/// Half of `n`, rounded toward zero.
pub open spec fn half(n: int) -> int {
    if n >= 0 { n / 2 } else { -((-n) / 2) }
}

/// The text shown while the mouse is at `(x, y)`: "[x,y]".
pub open spec fn mouse_over_text(x: int, y: int) -> Seq<char> {
    seq!['['] + signed_decimal(x) + seq![','] + signed_decimal(y) + seq![']']
}

impl AreaWidget {
    pub fn new(area_width: i32, area_height: i32) -> (w: AreaWidget)
        ensures
            w.area_width == area_width,
            w.area_height == area_height,
    {
        AreaWidget { area_width, area_height }
    }

    /// The widget's name.
    pub fn get_name(&self) -> (s: &'static str)
        ensures
            s@ == "Area"@,
    {
        "Area"
    }

    /// The largest scroll position: the area's width and height.
    pub fn on_add(&self) -> (max_scroll: (i32, i32))
        ensures
            max_scroll == (self.area_width, self.area_height),
    {
        (self.area_width, self.area_height)
    }

    /// The rows that the text-mode view draws inside a box at `position`
    /// of `size`, scrolled to `scroll`: as many rows and columns as both
    /// the box and the rest of the area allow.
    pub fn draw_text_mode(&self, position: Point, size: Size, scroll: Point) -> (rows: Vec<DrawRow>)
        requires
            i32::MIN <= self.area_width - scroll.x <= i32::MAX,
            i32::MIN <= self.area_height - scroll.y <= i32::MAX,
            position.y + non_negative(min(size.height as int, self.area_height - scroll.y)) <= i32::MAX,
            scroll.x + non_negative(min(size.width as int, self.area_width - scroll.x)) <= i32::MAX,
            scroll.y + non_negative(min(size.height as int, self.area_height - scroll.y)) <= i32::MAX,
        ensures
            rows@.len() == non_negative(min(size.height as int, self.area_height - scroll.y)),
            forall|y: int| 0 <= y < rows@.len() ==> {
                &&& (#[trigger] rows@[y]).cursor == (Point { x: position.x, y: (position.y + y) as i32 })
                &&& rows@[y].tiles@ == Seq::new(
                    non_negative(min(size.width as int, self.area_width - scroll.x)) as nat,
                    |x: int| (Point { x: (x + scroll.x) as i32, y: (y + scroll.y) as i32 }),
                )
            },
    {
        let w = self.area_width - scroll.x;
        let h = self.area_height - scroll.y;
        let max_x = if size.width < w { size.width } else { w };
        let max_y = if size.height < h { size.height } else { h };
        let mut rows: Vec<DrawRow> = Vec::new();
        let mut y: i32 = 0;
        while y < max_y
            invariant
                0 <= y,
                max_y > 0 ==> y <= max_y,
                max_y <= 0 ==> y == 0,
                max_x == min(size.width as int, self.area_width - scroll.x),
                max_y == min(size.height as int, self.area_height - scroll.y),
                position.y + non_negative(max_y as int) <= i32::MAX,
                scroll.x + non_negative(max_x as int) <= i32::MAX,
                scroll.y + non_negative(max_y as int) <= i32::MAX,
                rows@.len() == y,
                forall|r: int| 0 <= r < y ==> {
                    &&& (#[trigger] rows@[r]).cursor == (Point { x: position.x, y: (position.y + r) as i32 })
                    &&& rows@[r].tiles@ == Seq::new(
                        non_negative(max_x as int) as nat,
                        |x: int| Point { x: (x + scroll.x) as i32, y: (r + scroll.y) as i32 },
                    )
                },
            decreases max_y - y,
        {
            let mut tiles: Vec<Point> = Vec::new();
            let mut x: i32 = 0;
            while x < max_x
                invariant
                    0 <= x,
                    max_x > 0 ==> x <= max_x,
                    max_x <= 0 ==> x == 0,
                    0 <= y < max_y,
                    scroll.x + non_negative(max_x as int) <= i32::MAX,
                    scroll.y + non_negative(max_y as int) <= i32::MAX,
                    tiles@ == Seq::new(x as nat, |i: int| Point { x: (i + scroll.x) as i32, y: (y + scroll.y) as i32 }),
                decreases max_x - x,
            {
                tiles.push(Point { x: x + scroll.x, y: y + scroll.y });
                proof {
                    assert(tiles@ =~= Seq::new((x + 1) as nat, |i: int| Point { x: (i + scroll.x) as i32, y: (y + scroll.y) as i32 }));
                }
                x = x + 1;
            }
            proof {
                assert(x == non_negative(max_x as int));
            }
            rows.push(DrawRow { cursor: Point { x: position.x, y: position.y + y }, tiles });
            y = y + 1;
        }
        rows
    }

    /// The scroll that a key gives: one tile up, down, left or right.
    pub fn on_key_press(&self, key: InputAction) -> (delta: Option<(i32, i32)>)
        ensures
            delta == match key {
                InputAction::ScrollUp => Some((0i32, -1i32)),
                InputAction::ScrollDown => Some((0i32, 1i32)),
                InputAction::ScrollLeft => Some((-1i32, 0i32)),
                InputAction::ScrollRight => Some((1i32, 0i32)),
                InputAction::Other => None,
            },
    {
        match key {
            InputAction::ScrollUp => Some((0, -1)),
            InputAction::ScrollDown => Some((0, 1)),
            InputAction::ScrollLeft => Some((-1, 0)),
            InputAction::ScrollRight => Some((1, 0)),
            InputAction::Other => None,
        }
    }

    /// The tile a click at `mouse` sends the player to, for a widget at
    /// `position` scrolled to `scroll` and a player `pc_size` tiles wide:
    /// the click less the widget's position less half the player's size,
    /// when that is not negative, plus the scroll.
    pub fn on_mouse_click(&self, pc_size: i32, position: Point, scroll: Point, mouse: Point) -> (target: Option<Point>)
        requires
            i32::MIN <= mouse.x - position.x - half(pc_size as int) <= i32::MAX,
            i32::MIN <= mouse.y - position.y - half(pc_size as int) <= i32::MAX,
            i32::MIN <= mouse.x - position.x <= i32::MAX,
            i32::MIN <= mouse.y - position.y <= i32::MAX,
            mouse.x - position.x - half(pc_size as int) + scroll.x <= i32::MAX,
            mouse.y - position.y - half(pc_size as int) + scroll.y <= i32::MAX,
        ensures
            ({
                let x = mouse.x - position.x - half(pc_size as int);
                let y = mouse.y - position.y - half(pc_size as int);
                if x >= 0 && y >= 0 {
                    target == Some((Point { x: (x + scroll.x) as i32, y: (y + scroll.y) as i32 }))
                } else {
                    target is None
                }
            }),
    {
        let half = pc_size / 2;
        let x = (mouse.x - position.x) - half;
        let y = (mouse.y - position.y) - half;
        if x >= 0 && y >= 0 {
            Some(Point { x: x + scroll.x, y: y + scroll.y })
        } else {
            None
        }
    }

    /// The text shown while the mouse is at `mouse`.
    pub fn on_mouse_move(&self, mouse: Point) -> (text: String)
        ensures
            text@ == mouse_over_text(mouse.x as int, mouse.y as int),
    {
        proof {
            reveal_strlit("[");
            reveal_strlit(",");
            reveal_strlit("]");
        }
        let mut s = String::from_str("[");
        let x = i64_to_string(mouse.x as i64);
        s.append(x.as_str());
        s.append(",");
        let y = i64_to_string(mouse.y as i64);
        s.append(y.as_str());
        s.append("]");
        s
    }

    /// The text shown once the mouse leaves: none.
    pub fn on_mouse_exit(&self) -> (text: String)
        ensures
            text@ == Seq::<char>::empty(),
    {
        String::new()
    }
}

} // verus!
