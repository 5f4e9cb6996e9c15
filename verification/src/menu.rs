//! An on-screen development menu as plain state transitions.
//!
//! Items either fire a command code that the driving application
//! interprets, or own a slider value stepped by held keys. Input arrives
//! as an event enum and drawing is a pure layout computation, so the whole
//! menu logic is verified; rendering and key decoding stay outside.

use vstd::prelude::*;
use crate::fixed::{min_int, max_int};

verus! {

/// Largest magnitude of a slider bound or value.
pub const MENU_VALUE_BOUND: i64 = 1_000_000_000_000;

/// Most lines a menu may hold (keeps the layout arithmetic in range).
pub const MENU_MAX_ITEMS: usize = 10_000;

/// A keyboard-ish input event, decoded by the application.
#[derive(Clone, Copy, PartialEq, Eq, Structural, Debug)]
pub enum MenuEvent {
    /// Move the selection up.
    Up,
    /// Move the selection down.
    Down,
    /// Press of the left key.
    Left,
    /// Press of the right key.
    Right,
    /// Press of the activation key.
    Activate,
    /// One simulation tick while keys are held.
    Tick,
    /// Release of the left or right key.
    ReleaseSide,
}

/// What an event made the menu do.
#[derive(Clone, Copy, PartialEq, Eq, Structural, Debug)]
pub enum MenuResponse {
    /// An action item fired its command code.
    Action(u64),
    /// A slider item settled on a new value.
    SliderValue(i64),
}

/// An item that fires a command code when activated.
pub struct ActionMenuItem {
    pub text: String,
    pub action: u64,
}

/// The held-key state of a slider.
#[derive(Clone, Copy, PartialEq, Eq, Structural, Debug)]
pub enum SliderMenuState {
    /// No side key held.
    Idle,
    /// The right key is held: the value climbs each tick.
    Increasing,
    /// The left key is held: the value falls each tick.
    Decreasing,
}

/// An item that owns a value stepped within a range.
pub struct SliderMenuItem {
    pub label: String,
    pub min_value: i64,
    pub max_value: i64,
    pub step_size: i64,
    pub value: i64,
    pub state: SliderMenuState,
}

impl SliderMenuItem {
    /// Bounds ordered and in range, the value inside them.
    pub open spec fn wf(self) -> bool {
        &&& -MENU_VALUE_BOUND <= self.min_value <= self.max_value <= MENU_VALUE_BOUND
        &&& self.min_value <= self.value <= self.max_value
        &&& 0 <= self.step_size <= MENU_VALUE_BOUND
    }
}

/// A menu item.
pub enum MenuItem {
    /// Fires a command code.
    ActionItem(ActionMenuItem),
    /// Steps an owned value.
    SliderItem(SliderMenuItem),
}

/// One drawn line of the menu: a label, the slider value to print after
/// it if any, a screen position, and whether the line is selected.
pub struct MenuLine {
    pub text: String,
    pub value: Option<i64>,
    pub x: i64,
    pub y: i64,
    pub selected: bool,
}

/// The item an event turns a given item into, with what it fired.
pub open spec fn spec_item_event(item: MenuItem, e: MenuEvent) -> (MenuItem, Option<
    MenuResponse,
>) {
    match item {
        MenuItem::ActionItem(a) => match e {
            MenuEvent::Activate | MenuEvent::Left | MenuEvent::Right => (
                item,
                Option::Some(MenuResponse::Action(a.action)),
            ),
            _ => (item, Option::None),
        },
        MenuItem::SliderItem(s) => match e {
            MenuEvent::Right => (
                MenuItem::SliderItem(SliderMenuItem { state: SliderMenuState::Increasing, ..s }),
                Option::None,
            ),
            MenuEvent::Left => (
                MenuItem::SliderItem(SliderMenuItem { state: SliderMenuState::Decreasing, ..s }),
                Option::None,
            ),
            MenuEvent::ReleaseSide => (
                MenuItem::SliderItem(SliderMenuItem { state: SliderMenuState::Idle, ..s }),
                Option::None,
            ),
            MenuEvent::Tick => match s.state {
                SliderMenuState::Increasing => {
                    let v = min_int(s.max_value as int, s.value + s.step_size) as i64;
                    (
                        MenuItem::SliderItem(SliderMenuItem { value: v, ..s }),
                        Option::Some(MenuResponse::SliderValue(v)),
                    )
                },
                SliderMenuState::Decreasing => {
                    let v = max_int(s.min_value as int, s.value - s.step_size) as i64;
                    (
                        MenuItem::SliderItem(SliderMenuItem { value: v, ..s }),
                        Option::Some(MenuResponse::SliderValue(v)),
                    )
                },
                SliderMenuState::Idle => (item, Option::None),
            },
            _ => (item, Option::None),
        },
    }
}

impl MenuItem {
    /// Validity of the item's own fields.
    pub open spec fn wf(self) -> bool {
        match self {
            MenuItem::ActionItem(_) => true,
            MenuItem::SliderItem(s) => s.wf(),
        }
    }

    /// Build an action item from a label and a command code.
    pub fn action_item(text: &str, action: u64) -> (r: MenuItem)
        ensures
            r == MenuItem::ActionItem(ActionMenuItem { text: r->ActionItem_0.text, action }),
            r->ActionItem_0.text@ == text@,
            r.wf(),
    {
        MenuItem::ActionItem(ActionMenuItem { text: text.to_owned(), action })
    }

    /// Build a slider item; the initial value is clamped into the range.
    pub fn slider_item(
        label: &str,
        min_value: i64,
        max_value: i64,
        step_size: i64,
        initial: i64,
    ) -> (r: MenuItem)
        requires
            -MENU_VALUE_BOUND <= min_value <= max_value <= MENU_VALUE_BOUND,
            0 <= step_size <= MENU_VALUE_BOUND,
        ensures
            r matches MenuItem::SliderItem(s) && s.label@ == label@ && s.min_value == min_value
                && s.max_value == max_value && s.step_size == step_size && s.value
                == crate::fixed::spec_clamp(initial as int, min_value as int, max_value as int)
                && s.state == SliderMenuState::Idle,
            r.wf(),
    {
        MenuItem::SliderItem(
            SliderMenuItem {
                label: label.to_owned(),
                min_value,
                max_value,
                step_size,
                value: crate::fixed::clamp_i64(initial, min_value, max_value),
                state: SliderMenuState::Idle,
            },
        )
    }

    /// The line this item draws at a given position.
    pub open spec fn spec_draw(self, x: int, y: int, selected: bool) -> MenuLine {
        match self {
            MenuItem::ActionItem(a) => MenuLine {
                text: a.text,
                value: Option::None,
                x: x as i64,
                y: y as i64,
                selected,
            },
            MenuItem::SliderItem(s) => MenuLine {
                text: s.label,
                value: Option::Some(s.value),
                x: x as i64,
                y: y as i64,
                selected,
            },
        }
    }

    /// Lay this item out as one line: the label, and for a slider the
    /// value to print after it.
    pub fn draw(&self, x: i64, y: i64, selected: bool) -> (r: MenuLine)
        ensures
            r == self.spec_draw(x as int, y as int, selected),
    {
        match self {
            MenuItem::ActionItem(a) => MenuLine {
                text: clone_string(&a.text),
                value: Option::None,
                x,
                y,
                selected,
            },
            MenuItem::SliderItem(s) => MenuLine {
                text: clone_string(&s.label),
                value: Option::Some(s.value),
                x,
                y,
                selected,
            },
        }
    }

    /// Apply one event to this item.
    pub fn event(&mut self, e: MenuEvent) -> (r: Option<MenuResponse>)
        requires
            old(self).wf(),
        ensures
            (*final(self), r) == spec_item_event(*old(self), e),
            final(self).wf(),
    {
        match self {
            MenuItem::ActionItem(a) => match e {
                MenuEvent::Activate | MenuEvent::Left | MenuEvent::Right => Option::Some(
                    MenuResponse::Action(a.action),
                ),
                _ => Option::None,
            },
            MenuItem::SliderItem(s) => match e {
                MenuEvent::Right => {
                    s.state = SliderMenuState::Increasing;
                    Option::None
                },
                MenuEvent::Left => {
                    s.state = SliderMenuState::Decreasing;
                    Option::None
                },
                MenuEvent::ReleaseSide => {
                    s.state = SliderMenuState::Idle;
                    Option::None
                },
                MenuEvent::Tick => match s.state {
                    SliderMenuState::Increasing => {
                        let cand: i64 = s.value + s.step_size;
                        let v: i64 = if cand > s.max_value {
                            s.max_value
                        } else {
                            cand
                        };
                        s.value = v;
                        Option::Some(MenuResponse::SliderValue(v))
                    },
                    SliderMenuState::Decreasing => {
                        let cand: i64 = s.value - s.step_size;
                        let v: i64 = if cand < s.min_value {
                            s.min_value
                        } else {
                            cand
                        };
                        s.value = v;
                        Option::Some(MenuResponse::SliderValue(v))
                    },
                    SliderMenuState::Idle => Option::None,
                },
                _ => Option::None,
            },
        }
    }
}

/// A list of items with one selected line.
pub struct Menu {
    pub items: Vec<MenuItem>,
    pub selected_item: usize,
}

impl Menu {
    /// Validity: all items valid, the list short enough to lay out, and
    /// the selection inside the list whenever it is nonempty.
    pub open spec fn wf(self) -> bool {
        &&& forall|i: int| 0 <= i < self.items.len() ==> (#[trigger] self.items[i]).wf()
        &&& self.items.len() <= MENU_MAX_ITEMS
        &&& (self.items.len() > 0 ==> self.selected_item < self.items.len())
        &&& (self.items.len() == 0 ==> self.selected_item == 0)
    }

    /// The empty menu.
    pub fn new() -> (r: Menu)
        ensures
            r.items@.len() == 0,
            r.selected_item == 0,
            r.wf(),
    {
        Menu { items: Vec::new(), selected_item: 0 }
    }

    /// Append an item. A full menu drops the item unchanged.
    pub fn add_item(&mut self, item: MenuItem)
        requires
            old(self).wf(),
            item.wf(),
        ensures
            final(self).wf(),
            final(self).selected_item == old(self).selected_item,
            if old(self).items@.len() < MENU_MAX_ITEMS {
                final(self).items@ == old(self).items@.push(item)
            } else {
                final(self).items@ == old(self).items@
            },
    {
        if self.items.len() < MENU_MAX_ITEMS {
            self.items.push(item);
        }
    }

    /// The selection after moving up: to the previous item, wrapping to
    /// the last from the first.
    pub open spec fn spec_select_up(sel: int, len: int) -> int {
        if sel == 0 {
            len - 1
        } else {
            sel - 1
        }
    }

    /// The selection after moving down: to the next item, wrapping to the
    /// first from the last.
    pub open spec fn spec_select_down(sel: int, len: int) -> int {
        if sel + 1 == len {
            0
        } else {
            sel + 1
        }
    }

    /// Apply one event: up and down move the selection with wraparound,
    /// anything else goes to the selected item. An empty menu ignores
    /// every event.
    pub fn event(&mut self, e: MenuEvent) -> (r: Option<(usize, MenuResponse)>)
        requires
            old(self).wf(),
        ensures
            final(self).wf(),
            old(self).items@.len() == 0 ==> (*final(self) == *old(self) && r is None),
            old(self).items@.len() > 0 ==> match e {
                MenuEvent::Up => {
                    &&& final(self).items == old(self).items
                    &&& final(self).selected_item == Menu::spec_select_up(
                        old(self).selected_item as int,
                        old(self).items@.len() as int,
                    )
                    &&& r is None
                },
                MenuEvent::Down => {
                    &&& final(self).items == old(self).items
                    &&& final(self).selected_item == Menu::spec_select_down(
                        old(self).selected_item as int,
                        old(self).items@.len() as int,
                    )
                    &&& r is None
                },
                _ => {
                    let sel = old(self).selected_item as int;
                    let stepped = spec_item_event(old(self).items@[sel], e);
                    &&& final(self).selected_item == old(self).selected_item
                    &&& final(self).items@ == old(self).items@.update(sel, stepped.0)
                    &&& r == match stepped.1 {
                        Option::Some(resp) => Option::Some((old(self).selected_item, resp)),
                        Option::None => Option::<(usize, MenuResponse)>::None,
                    }
                },
            },
    {
        let len: usize = self.items.len();
        if len == 0 {
            return Option::None;
        }
        match e {
            MenuEvent::Up => {
                if self.selected_item == 0 {
                    self.selected_item = len - 1;
                } else {
                    self.selected_item = self.selected_item - 1;
                }
                Option::None
            },
            MenuEvent::Down => {
                if self.selected_item + 1 == len {
                    self.selected_item = 0;
                } else {
                    self.selected_item = self.selected_item + 1;
                }
                Option::None
            },
            _ => {
                let sel: usize = self.selected_item;
                let resp = self.items[sel].event(e);
                match resp {
                    Option::Some(out) => Option::Some((sel, out)),
                    Option::None => Option::None,
                }
            },
        }
    }

    /// The selected item.
    pub fn get_selected_item(&self) -> (r: &MenuItem)
        requires
            self.items@.len() > 0,
            self.selected_item < self.items@.len(),
        ensures
            r == &self.items@[self.selected_item as int],
    {
        &self.items[self.selected_item]
    }

    /// Replace the selected item.
    pub fn set_selected_item(&mut self, item: MenuItem)
        requires
            old(self).items@.len() > 0,
            old(self).selected_item < old(self).items@.len(),
            old(self).wf(),
            item.wf(),
        ensures
            final(self).wf(),
            final(self).selected_item == old(self).selected_item,
            final(self).items@ == old(self).items@.update(old(self).selected_item as int, item),
    {
        self.items[self.selected_item] = item;
    }

    /// The line an item draws at list position `i`.
    pub open spec fn spec_draw_line(self, i: int) -> MenuLine {
        self.items[i].spec_draw(10, 10 + 20 * i, i == self.selected_item)
    }

    /// Lay the menu out: one line per item, stacked down the screen, the
    /// selected one marked.
    pub fn draw(&self) -> (r: Vec<MenuLine>)
        requires
            self.wf(),
        ensures
            r@.len() == self.items@.len(),
            forall|i: int| 0 <= i < r@.len() ==> r@[i] == self.spec_draw_line(i),
    {
        let n: usize = self.items.len();
        let mut lines: Vec<MenuLine> = Vec::new();
        let mut i: usize = 0;
        while i < n
            invariant
                i <= n,
                n == self.items@.len(),
                n <= MENU_MAX_ITEMS,
                lines@.len() == i,
                forall|k: int| 0 <= k < i ==> lines@[k] == self.spec_draw_line(k),
            decreases n - i,
        {
            let y: i64 = 10 + 20 * (i as i64);
            let line: MenuLine = self.items[i].draw(10, y, i == self.selected_item);
            lines.push(line);
            i = i + 1;
        }
        lines
    }
}

/// A fresh copy of a string.
pub fn clone_string(s: &String) -> (r: String)
    ensures
        r == *s,
{
    s.clone()
}

} // verus!
