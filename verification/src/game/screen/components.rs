use vstd::prelude::*;
use crate::io::console::{Color, Key};

verus! {

/// A rectangle of the console: its top left corner and its size.
#[derive(Debug, Clone, Copy, PartialEq, Eq, Structural)]
pub struct Rect {
    pub x: usize,
    pub y: usize,
    pub width: usize,
    pub height: usize,
}

impl Rect {
    pub fn new(x: usize, y: usize, width: usize, height: usize) -> (res: Self)
        ensures
            res == (Rect { x, y, width, height }),
    {
        Rect { x, y, width, height }
    }
}

/// The model of an element of a list.
pub struct UIListElementView {
    pub display_text: Seq<char>,
    pub fg_color: Color,
    pub bg_color: Color,
}

/// An element of a list: a short text in its colors.
#[derive(Debug, Clone)]
pub struct UIListElement {
    display_text: String,
    fg_color: Color,
    bg_color: Color,
}

impl View for UIListElement {
    type V = UIListElementView;

    closed spec fn view(&self) -> UIListElementView {
        UIListElementView { display_text: self.display_text@, fg_color: self.fg_color, bg_color: self.bg_color }
    }
}

impl UIListElement {
    pub fn new(display_text: String, fg_color: Color, bg_color: Color) -> (res: Self)
        ensures
            res@ == (UIListElementView { display_text: display_text@, fg_color, bg_color }),
    {
        UIListElement { display_text, fg_color, bg_color }
    }

    pub fn display_text(&self) -> (res: &str)
        ensures
            res@ == self@.display_text,
    {
        self.display_text.as_str()
    }

    pub fn fg_color(&self) -> (res: Color)
        ensures
            res == self@.fg_color,
    {
        self.fg_color
    }

    pub fn bg_color(&self) -> (res: Color)
        ensures
            res == self@.bg_color,
    {
        self.bg_color
    }
}

/// The model of a list.
pub struct UIListView {
    pub rect: Rect,
    pub cursor_index: usize,
    pub elements: Seq<UIListElementView>,
}

/// How many elements a row of a list `width` wide holds: each takes three columns, and the
/// border one more.
pub open spec fn elements_per_row(width: usize) -> int {
    (width - 1) / 3
}

/// A key press on a list: A or left, W or up, D or right and S or down move the cursor
/// inside the list (up only while it does not reach the first row or its last element,
/// the others only where the target exists), and enter or space choose the element under
/// the cursor. The result holds the new cursor and the chosen element.
pub open spec fn spec_list_key(cursor: usize, len: int, per_row: int, key: Key) -> (usize, Option<usize>) {
    let k = key@;
    if k == Key::LEFT || k == Key::A {
        if cursor == 0 {
            (cursor, None)
        } else {
            ((cursor - 1) as usize, None)
        }
    } else if k == Key::UP || k == Key::W {
        if cursor <= per_row {
            (cursor, None)
        } else {
            ((cursor - per_row) as usize, None)
        }
    } else if k == Key::RIGHT || k == Key::D {
        if cursor + 1 >= len {
            (cursor, None)
        } else {
            ((cursor + 1) as usize, None)
        }
    } else if k == Key::DOWN || k == Key::S {
        if cursor + per_row >= len {
            (cursor, None)
        } else {
            ((cursor + per_row) as usize, None)
        }
    } else if k == Key::ENTER || k == Key::SPACE {
        (cursor, if cursor < len { Some(cursor) } else { None })
    } else {
        (cursor, None)
    }
}

/// A key press keeps a cursor that is on an element of the list on an element, and chooses
/// nothing but the element under the cursor.
pub proof fn lemma_list_key_keeps_cursor(cursor: usize, len: int, per_row: int, key: Key)
    requires
        cursor < len,
        per_row >= 0,
    ensures
        spec_list_key(cursor, len, per_row, key).0 < len,
        spec_list_key(cursor, len, per_row, key).1 matches Some(i) ==> i == cursor,
{
}

/// The element under a click, where the click is inside the list and there is one: each
/// element takes three columns and two rows.
pub open spec fn spec_list_click(rect: Rect, len: int, column: usize, row: usize) -> Option<usize> {
    if column < rect.x || row < rect.y {
        None
    } else {
        let index = (column - rect.x) / 3 + (row - rect.y) / 2 * elements_per_row(rect.width);
        if index < len {
            Some(index as usize)
        } else {
            None
        }
    }
}

/// A list of elements in rows, with a cursor. A choice is handed back to the caller.
pub struct UIList {
    rect: Rect,
    cursor_index: usize,
    elements: Vec<UIListElement>,
}

impl View for UIList {
    type V = UIListView;

    closed spec fn view(&self) -> UIListView {
        UIListView {
            rect: self.rect,
            cursor_index: self.cursor_index,
            elements: self.elements@.map_values(|e: UIListElement| e@),
        }
    }
}

impl UIList {
    /// A list in `rect` with the cursor on the first element.
    pub fn new(rect: Rect, elements: Vec<UIListElement>) -> (res: Self)
        ensures
            res@ == (UIListView { rect, cursor_index: 0, elements: elements@.map_values(|e: UIListElement| e@) }),
    {
        UIList { rect, cursor_index: 0, elements }
    }

    pub fn rect(&self) -> (res: Rect)
        ensures
            res == self@.rect,
    {
        self.rect
    }

    pub fn cursor_index(&self) -> (res: usize)
        ensures
            res == self@.cursor_index,
    {
        self.cursor_index
    }

    pub fn set_cursor_index(&mut self, cursor_index: usize)
        ensures
            final(self)@ == (UIListView { cursor_index, ..old(self)@ }),
    {
        self.cursor_index = cursor_index;
    }

    pub fn elements(&self) -> (res: &[UIListElement])
        ensures
            res@.map_values(|e: UIListElement| e@) == self@.elements,
    {
        self.elements.as_slice()
    }

    pub fn elements_mut(&mut self) -> (res: &mut Vec<UIListElement>)
        ensures
            res@.map_values(|e: UIListElement| e@) == old(self)@.elements,
            final(self)@ == (UIListView { elements: final(res)@.map_values(|e: UIListElement| e@), ..old(self)@ }),
    {
        &mut self.elements
    }

    /// Handles a key press (see [`spec_list_key`]); the chosen element, if any.
    pub fn on_key_press(&mut self, key: Key) -> (res: Option<usize>)
        requires
            old(self)@.rect.width >= 1,
        ensures
            (final(self)@.cursor_index, res) == spec_list_key(
                old(self)@.cursor_index,
                old(self)@.elements.len() as int,
                elements_per_row(old(self)@.rect.width),
                key,
            ),
            final(self)@ == (UIListView { cursor_index: final(self)@.cursor_index, ..old(self)@ }),
    {
        let per_row = (self.rect.width - 1) / 3;
        let len = self.elements.len();
        let k = key.code();
        if k == Key::LEFT || k == Key::A {
            if self.cursor_index == 0 {
                return None;
            }
            self.cursor_index -= 1;
            None
        } else if k == Key::UP || k == Key::W {
            if self.cursor_index <= per_row {
                return None;
            }
            self.cursor_index -= per_row;
            None
        } else if k == Key::RIGHT || k == Key::D {
            if len == 0 || self.cursor_index >= len - 1 {
                return None;
            }
            self.cursor_index += 1;
            None
        } else if k == Key::DOWN || k == Key::S {
            if len <= per_row || self.cursor_index >= len - per_row {
                return None;
            }
            self.cursor_index += per_row;
            None
        } else if k == Key::ENTER || k == Key::SPACE {
            if self.cursor_index < len {
                Some(self.cursor_index)
            } else {
                None
            }
        } else {
            None
        }
    }

    /// Handles a click (see [`spec_list_click`]): the element clicked, if any, gets the
    /// cursor and is chosen.
    pub fn on_mouse_pressed(&mut self, column: usize, row: usize) -> (res: Option<usize>)
        requires
            old(self)@.rect.width >= 1,
        ensures
            res == spec_list_click(old(self)@.rect, old(self)@.elements.len() as int, column, row),
            final(self)@ == (match res {
                Some(i) => UIListView { cursor_index: i, ..old(self)@ },
                None => old(self)@,
            }),
    {
        if column < self.rect.x || row < self.rect.y {
            return None;
        }
        let c = column - self.rect.x;
        let r = row - self.rect.y;
        let per_row = (self.rect.width - 1) / 3;
        let len = self.elements.len();
        let index = match (r / 2).checked_mul(per_row) {
            Some(v) => match (c / 3).checked_add(v) {
                Some(i) => i,
                None => {
                    return None;
                },
            },
            None => {
                proof {
                    assert((r / 2) * per_row >= 0) by (nonlinear_arith)
                        requires
                            r >= 0,
                            per_row >= 0,
                    ;
                }
                return None;
            },
        };
        if index < len {
            self.cursor_index = index;
            Some(index)
        } else {
            None
        }
    }
}

} // verus!
