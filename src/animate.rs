//! The component codec: animatable values as fixed-length sequences of
//! integer components.
use vstd::prelude::*;

verus! {

/// The largest magnitude of a component that a spring accepts.
pub const COMPONENT_LIMIT: i64 = 1_000_000_000_000;

/// Every component lies within `±COMPONENT_LIMIT`.
pub open spec fn in_range(c: Seq<i64>) -> bool {
    forall|i: int| 0 <= i < c.len() ==> -COMPONENT_LIMIT <= #[trigger] c[i] <= COMPONENT_LIMIT
}

/// The component-wise difference `a - b`.
pub open spec fn difference(a: Seq<i64>, b: Seq<i64>) -> Seq<i64> {
    Seq::new(a.len(), |i: int| (a[i] - b[i]) as i64)
}

/// A value that decomposes into a fixed number of integer components.
///
/// `update` reads components in the order that `encode` writes them, starting
/// at a cursor into a flat buffer; composite values hand each field the
/// sub-range `at + offset .. at + offset + count` in declaration order.
pub trait Animate: Sized + Clone {
    /// The number of components of every value of the type.
    spec fn count() -> nat;

    /// The components of this value.
    spec fn parts(&self) -> Seq<i64>;

    /// This value with its components replaced by `c`.
    spec fn with_parts(&self, c: Seq<i64>) -> Self;

    /// The component count does not depend on the value.
    proof fn lemma_parts_len(v: &Self)
        ensures
            v.parts().len() == Self::count(),
    ;

    /// Replacing the components gives exactly those components back.
    proof fn lemma_with_parts(v: &Self, c: Seq<i64>)
        requires
            c.len() == Self::count(),
        ensures
            v.with_parts(c).parts() == c,
    ;

    /// The number of components.
    fn components() -> (n: usize)
        requires
            Self::count() <= usize::MAX,
        ensures
            n == Self::count(),
    ;

    /// The components, in order.
    fn encode(&self) -> (r: Vec<i64>)
        ensures
            r@ == self.parts(),
            r@.len() == Self::count(),
    ;

    /// Overwrites this value with the components `c[at .. at + count]`.
    fn update(&mut self, c: &Vec<i64>, at: usize)
        requires
            at + Self::count() <= c@.len(),
        ensures
            *final(self) == old(self).with_parts(c@.subrange(at as int, at + Self::count())),
    ;

    /// The component-wise difference between this value and `other`.
    fn distance_to(&self, other: &Self) -> (r: Vec<i64>)
        requires
            in_range(self.parts()),
            in_range(other.parts()),
        ensures
            r@ == difference(self.parts(), other.parts()),
    {
        let a = self.encode();
        let b = other.encode();
        let mut r: Vec<i64> = Vec::new();
        let mut i: usize = 0;
        while i < a.len()
            invariant
                a@ == self.parts(),
                b@ == other.parts(),
                a@.len() == b@.len(),
                in_range(a@),
                in_range(b@),
                i <= a@.len(),
                r@ == difference(a@, b@).subrange(0, i as int),
            decreases a.len() - i,
        {
            r.push(a[i] - b[i]);
            i += 1;
            proof {
                assert(r@ =~= difference(a@, b@).subrange(0, i as int));
            }
        }
        proof {
            assert(r@ =~= difference(a@, b@));
        }
        r
    }
}

/// Decoding a value's own components, into any value of its type, gives back
/// exactly those components: every component distance to the original is zero.
pub proof fn lemma_round_trip<T: Animate>(v: T, w: T)
    ensures
        w.with_parts(v.parts()).parts() == v.parts(),
        difference(w.with_parts(v.parts()).parts(), v.parts()) == Seq::new(
            T::count(),
            |i: int| 0i64,
        ),
{
    T::lemma_parts_len(&v);
    T::lemma_with_parts(&w, v.parts());
    assert(difference(v.parts(), v.parts()) =~= Seq::new(T::count(), |i: int| 0i64));
}

/// A scalar in fixed point: one component.
impl Animate for i64 {
    open spec fn count() -> nat {
        1
    }

    open spec fn parts(&self) -> Seq<i64> {
        seq![*self]
    }

    open spec fn with_parts(&self, c: Seq<i64>) -> i64 {
        c[0]
    }

    proof fn lemma_parts_len(v: &i64) {
    }

    proof fn lemma_with_parts(v: &i64, c: Seq<i64>) {
        assert(seq![c[0]] =~= c);
    }

    fn components() -> (n: usize) {
        1
    }

    fn encode(&self) -> (r: Vec<i64>) {
        let r = vec![*self];
        proof {
            assert(r@ =~= seq![*self]);
            assert(r@.len() == 1);
            assert(<i64 as Animate>::count() == 1);
        }
        r
    }

    fn update(&mut self, c: &Vec<i64>, at: usize) {
        *self = c[at];
        proof {
            assert(c@.subrange(at as int, at + 1)[0] == c@[at as int]);
        }
    }
}

/// A color with red, green, blue and alpha channels in fixed point.
#[derive(Clone, Copy, Debug, PartialEq, Eq, Structural)]
pub struct Color {
    pub r: i64,
    pub g: i64,
    pub b: i64,
    pub a: i64,
}

/// A color is four components: red, green, blue, alpha.
impl Animate for Color {
    open spec fn count() -> nat {
        4
    }

    open spec fn parts(&self) -> Seq<i64> {
        seq![self.r, self.g, self.b, self.a]
    }

    open spec fn with_parts(&self, c: Seq<i64>) -> Color {
        Color { r: c[0], g: c[1], b: c[2], a: c[3] }
    }

    proof fn lemma_parts_len(v: &Color) {
    }

    proof fn lemma_with_parts(v: &Color, c: Seq<i64>) {
        assert(seq![c[0], c[1], c[2], c[3]] =~= c);
    }

    fn components() -> (n: usize) {
        4
    }

    fn encode(&self) -> (r: Vec<i64>) {
        let r = vec![self.r, self.g, self.b, self.a];
        proof {
            assert(r@ =~= seq![self.r, self.g, self.b, self.a]);
            assert(r@.len() == 4);
            assert(<Color as Animate>::count() == 4);
        }
        r
    }

    fn update(&mut self, c: &Vec<i64>, at: usize) {
        let _ = c.len();
        self.r = c[at];
        self.g = c[at + 1];
        self.b = c[at + 2];
        self.a = c[at + 3];
    }
}

/// An optional color is four components; an absent color counts as
/// transparent black. It stays absent while zeros are written into it, and
/// becomes present once anything else is.
impl Animate for Option<Color> {
    open spec fn count() -> nat {
        4
    }

    open spec fn parts(&self) -> Seq<i64> {
        match self {
            Some(c) => c.parts(),
            None => seq![0i64, 0i64, 0i64, 0i64],
        }
    }

    open spec fn with_parts(&self, c: Seq<i64>) -> Option<Color> {
        if self is None && c[0] == 0 && c[1] == 0 && c[2] == 0 && c[3] == 0 {
            None
        } else {
            Some(Color { r: c[0], g: c[1], b: c[2], a: c[3] })
        }
    }

    proof fn lemma_parts_len(v: &Option<Color>) {
    }

    proof fn lemma_with_parts(v: &Option<Color>, c: Seq<i64>) {
        assert(seq![c[0], c[1], c[2], c[3]] =~= c);
        assert(seq![0i64, 0i64, 0i64, 0i64] =~= seq![c[0], c[1], c[2], c[3]] <== c[0] == 0 && c[1]
            == 0 && c[2] == 0 && c[3] == 0);
    }

    fn components() -> (n: usize) {
        4
    }

    fn encode(&self) -> (r: Vec<i64>) {
        match self {
            Some(c) => c.encode(),
            None => {
                let r = vec![0, 0, 0, 0];
                proof {
                    assert(r@ =~= seq![0i64, 0i64, 0i64, 0i64]);
                    assert(<Option<Color> as Animate>::count() == 4);
                }
                r
            },
        }
    }

    fn update(&mut self, c: &Vec<i64>, at: usize) {
        let _ = c.len();
        let color = Color { r: c[at], g: c[at + 1], b: c[at + 2], a: c[at + 3] };
        let zero = color.r == 0 && color.g == 0 && color.b == 0 && color.a == 0;
        if self.is_some() || !zero {
            *self = Some(color);
        }
    }
}

/// Two animatable fields, the way a composite value combines its parts.
#[derive(Clone, Copy, Debug, PartialEq, Eq)]
pub struct Pair<A, B> {
    pub first: A,
    pub second: B,
}

/// A pair is the components of its first field followed by those of its
/// second.
impl<A: Animate, B: Animate> Animate for Pair<A, B> {
    open spec fn count() -> nat {
        A::count() + B::count()
    }

    open spec fn parts(&self) -> Seq<i64> {
        self.first.parts() + self.second.parts()
    }

    open spec fn with_parts(&self, c: Seq<i64>) -> Pair<A, B> {
        Pair {
            first: self.first.with_parts(c.subrange(0, A::count() as int)),
            second: self.second.with_parts(c.subrange(A::count() as int, c.len() as int)),
        }
    }

    proof fn lemma_parts_len(v: &Pair<A, B>) {
        A::lemma_parts_len(&v.first);
        B::lemma_parts_len(&v.second);
    }

    proof fn lemma_with_parts(v: &Pair<A, B>, c: Seq<i64>) {
        let x = c.subrange(0, A::count() as int);
        let y = c.subrange(A::count() as int, c.len() as int);
        A::lemma_with_parts(&v.first, x);
        B::lemma_with_parts(&v.second, y);
        assert(x + y =~= c);
    }

    fn components() -> (n: usize) {
        let a = A::components();
        let b = B::components();
        a + b
    }

    fn encode(&self) -> (r: Vec<i64>) {
        let mut r = self.first.encode();
        let mut s = self.second.encode();
        r.append(&mut s);
        proof {
            A::lemma_parts_len(&self.first);
            B::lemma_parts_len(&self.second);
            assert(<Pair<A, B> as Animate>::count() == A::count() + B::count());
        }
        r
    }

    fn update(&mut self, c: &Vec<i64>, at: usize) {
        let _ = c.len();
        let mid = at + A::components();
        self.first.update(c, at);
        self.second.update(c, mid);
        proof {
            let whole = c@.subrange(at as int, at + Self::count());
            assert(whole.subrange(0, A::count() as int) =~= c@.subrange(at as int, mid as int));
            assert(whole.subrange(A::count() as int, whole.len() as int) =~= c@.subrange(
                mid as int,
                mid + B::count(),
            ));
        }
    }
}

} // verus!
