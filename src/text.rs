//! The style of animated text.
use vstd::prelude::*;
use crate::animate::{Animate, Color};

verus! {

/// The appearance of text: its color, or none to use the surrounding one.
#[derive(Clone, Copy, Debug, PartialEq, Eq, Structural)]
pub struct Style {
    pub color: Option<Color>,
}

/// A text style is the components of its color.
impl Animate for Style {
    open spec fn count() -> nat {
        4
    }

    open spec fn parts(&self) -> Seq<i64> {
        self.color.parts()
    }

    open spec fn with_parts(&self, c: Seq<i64>) -> Style {
        Style { color: self.color.with_parts(c) }
    }

    proof fn lemma_parts_len(v: &Style) {
    }

    proof fn lemma_with_parts(v: &Style, c: Seq<i64>) {
        <Option<Color> as Animate>::lemma_with_parts(&v.color, c);
    }

    fn components() -> (n: usize) {
        <Option<Color> as Animate>::components()
    }

    fn encode(&self) -> (r: Vec<i64>) {
        let r = self.color.encode();
        proof {
            assert(<Style as Animate>::count() == <Option<Color> as Animate>::count());
        }
        r
    }

    fn update(&mut self, c: &Vec<i64>, at: usize) {
        self.color.update(c, at);
    }
}

} // verus!
