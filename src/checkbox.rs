//! The state and style of an animated checkbox.
use vstd::prelude::*;
use crate::animate::{Animate, Color};

verus! {

/// The status of a checkbox.
#[derive(Clone, Copy, Debug, PartialEq, Eq, Structural)]
pub enum Status {
    /// Can be toggled, and the pointer is elsewhere.
    Active { is_checked: bool },
    /// Can be toggled, and the pointer is over it.
    Hovered { is_checked: bool },
    /// Cannot be toggled.
    Disabled { is_checked: bool },
}

/// The status of a checkbox that can be toggled when `is_enabled`, with the
/// pointer over it when `is_mouse_over`.
pub open spec fn status_of(is_enabled: bool, is_mouse_over: bool, is_checked: bool) -> Status {
    if !is_enabled {
        Status::Disabled { is_checked }
    } else if is_mouse_over {
        Status::Hovered { is_checked }
    } else {
        Status::Active { is_checked }
    }
}

/// The status a checkbox starts with, before any pointer has been seen.
pub fn get_initial_status(is_enabled: bool, is_checked: bool) -> (r: Status)
    ensures
        r == status_of(is_enabled, false, is_checked),
{
    if is_enabled {
        Status::Active { is_checked }
    } else {
        Status::Disabled { is_checked }
    }
}

/// The status of a checkbox given whether it can be toggled and where the
/// pointer is.
pub fn get_status(is_enabled: bool, is_mouse_over: bool, is_checked: bool) -> (r: Status)
    ensures
        r == status_of(is_enabled, is_mouse_over, is_checked),
{
    if !is_enabled {
        Status::Disabled { is_checked }
    } else if is_mouse_over {
        Status::Hovered { is_checked }
    } else {
        Status::Active { is_checked }
    }
}

/// What a press on a checkbox asks for: the new checked state when it can be
/// toggled and the pointer is over it, and nothing otherwise.
pub fn toggle_on_press(is_enabled: bool, is_mouse_over: bool, is_checked: bool) -> (r: Option<
    bool,
>)
    ensures
        r == (if is_enabled && is_mouse_over {
            Some(!is_checked)
        } else {
            None::<bool>
        }),
{
    if is_enabled && is_mouse_over {
        Some(!is_checked)
    } else {
        None
    }
}

/// A border: its color, width and the radius of each corner.
#[derive(Clone, Copy, Debug, PartialEq, Eq, Structural)]
pub struct Border {
    pub color: Color,
    pub width: i64,
    pub top_left: i64,
    pub top_right: i64,
    pub bottom_right: i64,
    pub bottom_left: i64,
}

/// A border is its color's four components, then its width, then the corner
/// radii clockwise from the top left.
impl Animate for Border {
    open spec fn count() -> nat {
        9
    }

    open spec fn parts(&self) -> Seq<i64> {
        self.color.parts() + seq![
            self.width,
            self.top_left,
            self.top_right,
            self.bottom_right,
            self.bottom_left,
        ]
    }

    open spec fn with_parts(&self, c: Seq<i64>) -> Border {
        Border {
            color: Color { r: c[0], g: c[1], b: c[2], a: c[3] },
            width: c[4],
            top_left: c[5],
            top_right: c[6],
            bottom_right: c[7],
            bottom_left: c[8],
        }
    }

    proof fn lemma_parts_len(v: &Border) {
    }

    proof fn lemma_with_parts(v: &Border, c: Seq<i64>) {
        assert(seq![c[0], c[1], c[2], c[3]] + seq![c[4], c[5], c[6], c[7], c[8]] =~= c);
    }

    fn components() -> (n: usize) {
        9
    }

    fn encode(&self) -> (r: Vec<i64>) {
        let mut r = self.color.encode();
        r.push(self.width);
        r.push(self.top_left);
        r.push(self.top_right);
        r.push(self.bottom_right);
        r.push(self.bottom_left);
        proof {
            assert(r@ =~= self.color.parts() + seq![
                self.width,
                self.top_left,
                self.top_right,
                self.bottom_right,
                self.bottom_left,
            ]);
            assert(<Border as Animate>::count() == 9);
        }
        r
    }

    fn update(&mut self, c: &Vec<i64>, at: usize) {
        let _ = c.len();
        self.color.update(c, at);
        self.width = c[at + 4];
        self.top_left = c[at + 5];
        self.top_right = c[at + 6];
        self.bottom_right = c[at + 7];
        self.bottom_left = c[at + 8];
    }
}

/// The appearance of a checkbox.
#[derive(Clone, Copy, Debug, PartialEq, Eq, Structural)]
pub struct Style {
    pub background: Color,
    pub icon_color: Color,
    pub border: Border,
    pub text_color: Option<Color>,
}

/// A style is its fields' components in declaration order: background,
/// icon color, border, text color.
impl Animate for Style {
    open spec fn count() -> nat {
        21
    }

    open spec fn parts(&self) -> Seq<i64> {
        self.background.parts() + self.icon_color.parts() + self.border.parts()
            + self.text_color.parts()
    }

    open spec fn with_parts(&self, c: Seq<i64>) -> Style {
        Style {
            background: self.background.with_parts(c.subrange(0, 4)),
            icon_color: self.icon_color.with_parts(c.subrange(4, 8)),
            border: self.border.with_parts(c.subrange(8, 17)),
            text_color: self.text_color.with_parts(c.subrange(17, 21)),
        }
    }

    proof fn lemma_parts_len(v: &Style) {
    }

    proof fn lemma_with_parts(v: &Style, c: Seq<i64>) {
        Color::lemma_with_parts(&v.background, c.subrange(0, 4));
        Color::lemma_with_parts(&v.icon_color, c.subrange(4, 8));
        Border::lemma_with_parts(&v.border, c.subrange(8, 17));
        <Option<Color> as Animate>::lemma_with_parts(&v.text_color, c.subrange(17, 21));
        assert(c.subrange(0, 4) + c.subrange(4, 8) + c.subrange(8, 17) + c.subrange(17, 21) =~= c);
    }

    fn components() -> (n: usize) {
        Color::components() + Color::components() + Border::components()
            + <Option<Color> as Animate>::components()
    }

    fn encode(&self) -> (r: Vec<i64>) {
        let mut r = self.background.encode();
        let mut icon = self.icon_color.encode();
        let mut border = self.border.encode();
        let mut text = self.text_color.encode();
        r.append(&mut icon);
        r.append(&mut border);
        r.append(&mut text);
        proof {
            assert(<Style as Animate>::count() == 21);
        }
        r
    }

    fn update(&mut self, c: &Vec<i64>, at: usize) {
        let _ = c.len();
        self.background.update(c, at);
        self.icon_color.update(c, at + 4);
        self.border.update(c, at + 8);
        self.text_color.update(c, at + 17);
        proof {
            let w = c@.subrange(at as int, at + 21);
            assert(w.subrange(0, 4) =~= c@.subrange(at as int, at + 4));
            assert(w.subrange(4, 8) =~= c@.subrange(at + 4, at + 8));
            assert(w.subrange(8, 17) =~= c@.subrange(at + 8, at + 17));
            assert(w.subrange(17, 21) =~= c@.subrange(at + 17, at + 21));
        }
    }
}

} // verus!
