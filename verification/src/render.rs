use crate::text::{decimal, decimal_string, push_str};
use vstd::prelude::*;

verus! {

/// The text that the standard `Debug` formatting gives for a string: the characters in double
/// quotes, with quotes, backslashes and control characters escaped.
pub uninterp spec fn debug_str(s: Seq<char>) -> Seq<char>;

/// Formats a string slice with `Debug` (`format!("{:?}", s)`); the result is named
/// [`debug_str`] of the slice's characters.
#[verifier::external_body]
fn debug_string(s: &str) -> (r: String)
    ensures
        r@ == debug_str(s@),
{
    format!("{:?}", s)
}

/// A value that can describe itself as text in an annotation, the way `Debug` does.
pub trait Render: DeepView {
    /// Whether the text is determined by the value's deep view alone.
    spec fn render_exact() -> bool;

    /// The text of a value with the given deep view.
    spec fn spec_render(v: <Self as DeepView>::V) -> Seq<char>;

    fn render(&self) -> (r: String)
        ensures
            Self::render_exact() ==> r@ == Self::spec_render(self.deep_view()),
    ;
}

impl Render for u8 {
    open spec fn render_exact() -> bool {
        true
    }

    open spec fn spec_render(v: u8) -> Seq<char> {
        decimal(v as nat)
    }

    fn render(&self) -> (r: String) {
        decimal_string(*self as u64)
    }
}

impl Render for u16 {
    open spec fn render_exact() -> bool {
        true
    }

    open spec fn spec_render(v: u16) -> Seq<char> {
        decimal(v as nat)
    }

    fn render(&self) -> (r: String) {
        decimal_string(*self as u64)
    }
}

impl Render for u32 {
    open spec fn render_exact() -> bool {
        true
    }

    open spec fn spec_render(v: u32) -> Seq<char> {
        decimal(v as nat)
    }

    fn render(&self) -> (r: String) {
        decimal_string(*self as u64)
    }
}

impl Render for String {
    open spec fn render_exact() -> bool {
        true
    }

    open spec fn spec_render(v: Seq<char>) -> Seq<char> {
        debug_str(v)
    }

    fn render(&self) -> (r: String) {
        let s = self.as_str();
        let r = debug_string(s);
        assert(r@ == Self::spec_render(self.deep_view()));
        r
    }
}

/// `"a, b, c"`: the texts of the items, separated by a comma and a space.
pub open spec fn join_rendered<T: Render>(s: Seq<<T as DeepView>::V>) -> Seq<char>
    decreases s.len(),
{
    if s.len() == 0 {
        seq![]
    } else if s.len() == 1 {
        T::spec_render(s[0])
    } else {
        join_rendered::<T>(s.drop_last()) + ", "@ + T::spec_render(s.last())
    }
}

impl<T: Render> Render for Vec<T> {
    open spec fn render_exact() -> bool {
        T::render_exact()
    }

    open spec fn spec_render(v: Seq<<T as DeepView>::V>) -> Seq<char> {
        "["@ + join_rendered::<T>(v) + "]"@
    }

    fn render(&self) -> (r: String) {
        let mut s = String::new();
        push_str(&mut s, "[");
        let n = self.len();
        for i in 0..n
            invariant
                n == self@.len(),
                T::render_exact() ==> s@ == "["@ + join_rendered::<T>(
                    self.deep_view().take(i as int),
                ),
        {
            if i > 0 {
                push_str(&mut s, ", ");
            }
            let item = self[i].render();
            push_str(&mut s, item.as_str());
            proof {
                let dv = self.deep_view();
                assert(dv.take(i + 1).drop_last() =~= dv.take(i as int));
                assert(dv.take(i + 1).last() == self@[i as int].deep_view());
                if i == 0 {
                    assert(dv.take(0) =~= Seq::<<T as DeepView>::V>::empty());
                }
            }
        }
        push_str(&mut s, "]");
        proof {
            assert(self.deep_view().take(n as int) =~= self.deep_view());
        }
        s
    }
}

impl<T: Render> Render for Option<T> {
    open spec fn render_exact() -> bool {
        T::render_exact()
    }

    open spec fn spec_render(v: Option<<T as DeepView>::V>) -> Seq<char> {
        match v {
            Some(x) => "Some("@ + T::spec_render(x) + ")"@,
            None => "None"@,
        }
    }

    fn render(&self) -> (r: String) {
        match self {
            Some(x) => {
                let mut s = String::new();
                push_str(&mut s, "Some(");
                let inner = x.render();
                push_str(&mut s, inner.as_str());
                push_str(&mut s, ")");
                proof {
                    assert(s@ =~= "Some("@ + inner@ + ")"@);
                    assert(Self::render_exact() == T::render_exact());
                    assert(self.deep_view() == Some(x.deep_view()));
                    if T::render_exact() {
                        assert(inner@ == T::spec_render(x.deep_view()));
                        assert(Self::spec_render(self.deep_view()) == "Some("@ + T::spec_render(
                            x.deep_view(),
                        ) + ")"@);
                    }
                }
                s
            },
            None => {
                let mut s = String::new();
                push_str(&mut s, "None");
                s
            },
        }
    }
}

/// Tuples render as their items in round brackets, separated by a comma and a space.
impl<A: Render, B: Render> Render for (A, B) {
    open spec fn render_exact() -> bool {
        A::render_exact() && B::render_exact()
    }

    open spec fn spec_render(v: (<A as DeepView>::V, <B as DeepView>::V)) -> Seq<char> {
        "("@ + A::spec_render(v.0) + ", "@ + B::spec_render(v.1) + ")"@
    }

    fn render(&self) -> (r: String) {
        let mut s = String::new();
        push_str(&mut s, "(");
        let t0 = self.0.render();
        push_str(&mut s, t0.as_str());
        push_str(&mut s, ", ");
        let t1 = self.1.render();
        push_str(&mut s, t1.as_str());
        push_str(&mut s, ")");
        s
    }
}

impl<A: Render, B: Render, C: Render> Render for (A, B, C) {
    open spec fn render_exact() -> bool {
        A::render_exact() && B::render_exact() && C::render_exact()
    }

    open spec fn spec_render(v: (<A as DeepView>::V, <B as DeepView>::V, <C as DeepView>::V)) -> Seq<char> {
        "("@ + A::spec_render(v.0) + ", "@ + B::spec_render(v.1) + ", "@ + C::spec_render(v.2) + ")"@
    }

    fn render(&self) -> (r: String) {
        let mut s = String::new();
        push_str(&mut s, "(");
        let t0 = self.0.render();
        push_str(&mut s, t0.as_str());
        push_str(&mut s, ", ");
        let t1 = self.1.render();
        push_str(&mut s, t1.as_str());
        push_str(&mut s, ", ");
        let t2 = self.2.render();
        push_str(&mut s, t2.as_str());
        push_str(&mut s, ")");
        s
    }
}

impl<A: Render, B: Render, C: Render, D: Render> Render for (A, B, C, D) {
    open spec fn render_exact() -> bool {
        A::render_exact() && B::render_exact() && C::render_exact() && D::render_exact()
    }

    open spec fn spec_render(v: (<A as DeepView>::V, <B as DeepView>::V, <C as DeepView>::V, <D as DeepView>::V)) -> Seq<char> {
        "("@ + A::spec_render(v.0) + ", "@ + B::spec_render(v.1) + ", "@ + C::spec_render(v.2) + ", "@ + D::spec_render(v.3) + ")"@
    }

    fn render(&self) -> (r: String) {
        let mut s = String::new();
        push_str(&mut s, "(");
        let t0 = self.0.render();
        push_str(&mut s, t0.as_str());
        push_str(&mut s, ", ");
        let t1 = self.1.render();
        push_str(&mut s, t1.as_str());
        push_str(&mut s, ", ");
        let t2 = self.2.render();
        push_str(&mut s, t2.as_str());
        push_str(&mut s, ", ");
        let t3 = self.3.render();
        push_str(&mut s, t3.as_str());
        push_str(&mut s, ")");
        s
    }
}

impl<A: Render, B: Render, C: Render, D: Render, E: Render> Render for (A, B, C, D, E) {
    open spec fn render_exact() -> bool {
        A::render_exact() && B::render_exact() && C::render_exact() && D::render_exact() && E::render_exact()
    }

    open spec fn spec_render(v: (<A as DeepView>::V, <B as DeepView>::V, <C as DeepView>::V, <D as DeepView>::V, <E as DeepView>::V)) -> Seq<char> {
        "("@ + A::spec_render(v.0) + ", "@ + B::spec_render(v.1) + ", "@ + C::spec_render(v.2) + ", "@ + D::spec_render(v.3) + ", "@ + E::spec_render(v.4) + ")"@
    }

    fn render(&self) -> (r: String) {
        let mut s = String::new();
        push_str(&mut s, "(");
        let t0 = self.0.render();
        push_str(&mut s, t0.as_str());
        push_str(&mut s, ", ");
        let t1 = self.1.render();
        push_str(&mut s, t1.as_str());
        push_str(&mut s, ", ");
        let t2 = self.2.render();
        push_str(&mut s, t2.as_str());
        push_str(&mut s, ", ");
        let t3 = self.3.render();
        push_str(&mut s, t3.as_str());
        push_str(&mut s, ", ");
        let t4 = self.4.render();
        push_str(&mut s, t4.as_str());
        push_str(&mut s, ")");
        s
    }
}

impl<A: Render, B: Render, C: Render, D: Render, E: Render, F: Render> Render for (A, B, C, D, E, F) {
    open spec fn render_exact() -> bool {
        A::render_exact() && B::render_exact() && C::render_exact() && D::render_exact() && E::render_exact() && F::render_exact()
    }

    open spec fn spec_render(v: (<A as DeepView>::V, <B as DeepView>::V, <C as DeepView>::V, <D as DeepView>::V, <E as DeepView>::V, <F as DeepView>::V)) -> Seq<char> {
        "("@ + A::spec_render(v.0) + ", "@ + B::spec_render(v.1) + ", "@ + C::spec_render(v.2) + ", "@ + D::spec_render(v.3) + ", "@ + E::spec_render(v.4) + ", "@ + F::spec_render(v.5) + ")"@
    }

    fn render(&self) -> (r: String) {
        let mut s = String::new();
        push_str(&mut s, "(");
        let t0 = self.0.render();
        push_str(&mut s, t0.as_str());
        push_str(&mut s, ", ");
        let t1 = self.1.render();
        push_str(&mut s, t1.as_str());
        push_str(&mut s, ", ");
        let t2 = self.2.render();
        push_str(&mut s, t2.as_str());
        push_str(&mut s, ", ");
        let t3 = self.3.render();
        push_str(&mut s, t3.as_str());
        push_str(&mut s, ", ");
        let t4 = self.4.render();
        push_str(&mut s, t4.as_str());
        push_str(&mut s, ", ");
        let t5 = self.5.render();
        push_str(&mut s, t5.as_str());
        push_str(&mut s, ")");
        s
    }
}

impl<A: Render, B: Render, C: Render, D: Render, E: Render, F: Render, G: Render> Render for (A, B, C, D, E, F, G) {
    open spec fn render_exact() -> bool {
        A::render_exact() && B::render_exact() && C::render_exact() && D::render_exact() && E::render_exact() && F::render_exact() && G::render_exact()
    }

    open spec fn spec_render(v: (<A as DeepView>::V, <B as DeepView>::V, <C as DeepView>::V, <D as DeepView>::V, <E as DeepView>::V, <F as DeepView>::V, <G as DeepView>::V)) -> Seq<char> {
        "("@ + A::spec_render(v.0) + ", "@ + B::spec_render(v.1) + ", "@ + C::spec_render(v.2) + ", "@ + D::spec_render(v.3) + ", "@ + E::spec_render(v.4) + ", "@ + F::spec_render(v.5) + ", "@ + G::spec_render(v.6) + ")"@
    }

    fn render(&self) -> (r: String) {
        let mut s = String::new();
        push_str(&mut s, "(");
        let t0 = self.0.render();
        push_str(&mut s, t0.as_str());
        push_str(&mut s, ", ");
        let t1 = self.1.render();
        push_str(&mut s, t1.as_str());
        push_str(&mut s, ", ");
        let t2 = self.2.render();
        push_str(&mut s, t2.as_str());
        push_str(&mut s, ", ");
        let t3 = self.3.render();
        push_str(&mut s, t3.as_str());
        push_str(&mut s, ", ");
        let t4 = self.4.render();
        push_str(&mut s, t4.as_str());
        push_str(&mut s, ", ");
        let t5 = self.5.render();
        push_str(&mut s, t5.as_str());
        push_str(&mut s, ", ");
        let t6 = self.6.render();
        push_str(&mut s, t6.as_str());
        push_str(&mut s, ")");
        s
    }
}

impl<A: Render, B: Render, C: Render, D: Render, E: Render, F: Render, G: Render, H: Render> Render for (A, B, C, D, E, F, G, H) {
    open spec fn render_exact() -> bool {
        A::render_exact() && B::render_exact() && C::render_exact() && D::render_exact() && E::render_exact() && F::render_exact() && G::render_exact() && H::render_exact()
    }

    open spec fn spec_render(v: (<A as DeepView>::V, <B as DeepView>::V, <C as DeepView>::V, <D as DeepView>::V, <E as DeepView>::V, <F as DeepView>::V, <G as DeepView>::V, <H as DeepView>::V)) -> Seq<char> {
        "("@ + A::spec_render(v.0) + ", "@ + B::spec_render(v.1) + ", "@ + C::spec_render(v.2) + ", "@ + D::spec_render(v.3) + ", "@ + E::spec_render(v.4) + ", "@ + F::spec_render(v.5) + ", "@ + G::spec_render(v.6) + ", "@ + H::spec_render(v.7) + ")"@
    }

    fn render(&self) -> (r: String) {
        let mut s = String::new();
        push_str(&mut s, "(");
        let t0 = self.0.render();
        push_str(&mut s, t0.as_str());
        push_str(&mut s, ", ");
        let t1 = self.1.render();
        push_str(&mut s, t1.as_str());
        push_str(&mut s, ", ");
        let t2 = self.2.render();
        push_str(&mut s, t2.as_str());
        push_str(&mut s, ", ");
        let t3 = self.3.render();
        push_str(&mut s, t3.as_str());
        push_str(&mut s, ", ");
        let t4 = self.4.render();
        push_str(&mut s, t4.as_str());
        push_str(&mut s, ", ");
        let t5 = self.5.render();
        push_str(&mut s, t5.as_str());
        push_str(&mut s, ", ");
        let t6 = self.6.render();
        push_str(&mut s, t6.as_str());
        push_str(&mut s, ", ");
        let t7 = self.7.render();
        push_str(&mut s, t7.as_str());
        push_str(&mut s, ")");
        s
    }
}

impl<A: Render, B: Render, C: Render, D: Render, E: Render, F: Render, G: Render, H: Render, I: Render> Render for (A, B, C, D, E, F, G, H, I) {
    open spec fn render_exact() -> bool {
        A::render_exact() && B::render_exact() && C::render_exact() && D::render_exact() && E::render_exact() && F::render_exact() && G::render_exact() && H::render_exact() && I::render_exact()
    }

    open spec fn spec_render(v: (<A as DeepView>::V, <B as DeepView>::V, <C as DeepView>::V, <D as DeepView>::V, <E as DeepView>::V, <F as DeepView>::V, <G as DeepView>::V, <H as DeepView>::V, <I as DeepView>::V)) -> Seq<char> {
        "("@ + A::spec_render(v.0) + ", "@ + B::spec_render(v.1) + ", "@ + C::spec_render(v.2) + ", "@ + D::spec_render(v.3) + ", "@ + E::spec_render(v.4) + ", "@ + F::spec_render(v.5) + ", "@ + G::spec_render(v.6) + ", "@ + H::spec_render(v.7) + ", "@ + I::spec_render(v.8) + ")"@
    }

    fn render(&self) -> (r: String) {
        let mut s = String::new();
        push_str(&mut s, "(");
        let t0 = self.0.render();
        push_str(&mut s, t0.as_str());
        push_str(&mut s, ", ");
        let t1 = self.1.render();
        push_str(&mut s, t1.as_str());
        push_str(&mut s, ", ");
        let t2 = self.2.render();
        push_str(&mut s, t2.as_str());
        push_str(&mut s, ", ");
        let t3 = self.3.render();
        push_str(&mut s, t3.as_str());
        push_str(&mut s, ", ");
        let t4 = self.4.render();
        push_str(&mut s, t4.as_str());
        push_str(&mut s, ", ");
        let t5 = self.5.render();
        push_str(&mut s, t5.as_str());
        push_str(&mut s, ", ");
        let t6 = self.6.render();
        push_str(&mut s, t6.as_str());
        push_str(&mut s, ", ");
        let t7 = self.7.render();
        push_str(&mut s, t7.as_str());
        push_str(&mut s, ", ");
        let t8 = self.8.render();
        push_str(&mut s, t8.as_str());
        push_str(&mut s, ")");
        s
    }
}

impl<A: Render, B: Render, C: Render, D: Render, E: Render, F: Render, G: Render, H: Render, I: Render, J: Render> Render for (A, B, C, D, E, F, G, H, I, J) {
    open spec fn render_exact() -> bool {
        A::render_exact() && B::render_exact() && C::render_exact() && D::render_exact() && E::render_exact() && F::render_exact() && G::render_exact() && H::render_exact() && I::render_exact() && J::render_exact()
    }

    open spec fn spec_render(v: (<A as DeepView>::V, <B as DeepView>::V, <C as DeepView>::V, <D as DeepView>::V, <E as DeepView>::V, <F as DeepView>::V, <G as DeepView>::V, <H as DeepView>::V, <I as DeepView>::V, <J as DeepView>::V)) -> Seq<char> {
        "("@ + A::spec_render(v.0) + ", "@ + B::spec_render(v.1) + ", "@ + C::spec_render(v.2) + ", "@ + D::spec_render(v.3) + ", "@ + E::spec_render(v.4) + ", "@ + F::spec_render(v.5) + ", "@ + G::spec_render(v.6) + ", "@ + H::spec_render(v.7) + ", "@ + I::spec_render(v.8) + ", "@ + J::spec_render(v.9) + ")"@
    }

    fn render(&self) -> (r: String) {
        let mut s = String::new();
        push_str(&mut s, "(");
        let t0 = self.0.render();
        push_str(&mut s, t0.as_str());
        push_str(&mut s, ", ");
        let t1 = self.1.render();
        push_str(&mut s, t1.as_str());
        push_str(&mut s, ", ");
        let t2 = self.2.render();
        push_str(&mut s, t2.as_str());
        push_str(&mut s, ", ");
        let t3 = self.3.render();
        push_str(&mut s, t3.as_str());
        push_str(&mut s, ", ");
        let t4 = self.4.render();
        push_str(&mut s, t4.as_str());
        push_str(&mut s, ", ");
        let t5 = self.5.render();
        push_str(&mut s, t5.as_str());
        push_str(&mut s, ", ");
        let t6 = self.6.render();
        push_str(&mut s, t6.as_str());
        push_str(&mut s, ", ");
        let t7 = self.7.render();
        push_str(&mut s, t7.as_str());
        push_str(&mut s, ", ");
        let t8 = self.8.render();
        push_str(&mut s, t8.as_str());
        push_str(&mut s, ", ");
        let t9 = self.9.render();
        push_str(&mut s, t9.as_str());
        push_str(&mut s, ")");
        s
    }
}


} // verus!
