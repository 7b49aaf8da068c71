use super::super::spec::{ParserSpec, SpecView};
use super::super::{Outcome, Parser, Result};
use crate::render::Render;
use crate::text::push_str;
use std::rc::Rc;
use vstd::cell::invcell::InvCell;
use vstd::prelude::*;

verus! {

/// A second handle on a shared value (`Rc::clone`); Verus sees an `Rc` as the value it holds.
#[verifier::external_body]
fn share_rc<T>(r: &Rc<T>) -> (c: Rc<T>)
    ensures
        c == *r,
{
    Rc::clone(r)
}

/// A value which has yet to be populated, shared between the parser that fills it and those
/// that read it. What it holds at a given moment is not tracked.
#[verifier::reject_recursive_types(T)]
pub struct DelayedVal<T> {
    cell: Rc<InvCell<Option<T>, spec_fn(Option<T>) -> bool>>,
}

impl<T> DelayedVal<T> {
    #[verifier::type_invariant]
    spec fn wf(self) -> bool {
        forall|v: Option<T>| (*self.cell).inv(v)
    }

    /// A new, empty value.
    pub fn empty() -> (r: Self) {
        let pred = Ghost(|v: Option<T>| true);
        let cell = InvCell::new(None, pred);
        DelayedVal { cell: Rc::new(cell) }
    }

    /// Another handle on the same value.
    pub fn share(&self) -> (r: Self)
        ensures
            r == *self,
    {
        proof {
            use_type_invariant(self);
        }
        DelayedVal { cell: share_rc(&self.cell) }
    }

    /// Stores `v`, giving back what was there.
    pub fn replace(&self, v: Option<T>) -> Option<T> {
        proof {
            use_type_invariant(self);
        }
        (*self.cell).replace(v)
    }

    /// Stores `v`.
    pub fn set(&self, v: Option<T>) {
        let _ = self.replace(v);
    }

    /// Takes the value out, leaving nothing.
    pub fn take(&self) -> Option<T> {
        self.replace(None)
    }
}

impl<T: Clone> DelayedVal<T> {
    /// A copy of what the value holds now.
    pub fn get(&self) -> Option<T> {
        let v = self.take();
        let copy = match &v {
            Some(x) => Some(x.clone()),
            None => None,
        };
        self.set(v);
        copy
    }
}

impl<T> DeepView for DelayedVal<T> {
    type V = ();

    open spec fn deep_view(&self) -> () {
        ()
    }
}

/// The text that shows a shared value whose own text is `inner`.
pub open spec fn cell_text(inner: Seq<char>) -> Seq<char> {
    "RefCell { value: "@ + inner + " }"@
}

impl<T: Render + Clone> Render for DelayedVal<T> {
    open spec fn render_exact() -> bool {
        false
    }

    open spec fn spec_render(v: ()) -> Seq<char> {
        seq![]
    }

    /// The text shows what the value holds when it is read, in the frame `RefCell { value: .. }`;
    /// where values render exactly, as the text of that option.
    fn render(&self) -> (r: String)
        ensures
            exists|inner: Seq<char>|
                #[trigger] cell_text(inner) == r@ && (T::render_exact() ==> exists|v: Option<T>|
                    inner == #[trigger] <Option<T> as Render>::spec_render(v.deep_view())),
    {
        let value = self.get();
        let mut s = "RefCell { value: ".to_owned();
        let inner = value.render();
        push_str(&mut s, inner.as_str());
        push_str(&mut s, " }");
        proof {
            assert(cell_text(inner@) == s@);
            if T::render_exact() {
                assert(inner@ == <Option<T> as Render>::spec_render(value.deep_view()));
            }
        }
        s
    }
}

/// A parser whose output can be referenced before it has been executed
pub struct Delayed<I: Parser> {
    pub inner: I,
    /// This will be populated / overwritten whenever the parser is ran.
    pub value: DelayedVal<I::Output>,
}

impl<I: Parser> Delayed<I> {
    pub fn new(inner: I) -> (r: Self)
        ensures
            r.inner == inner,
    {
        Self { inner, value: DelayedVal::empty() }
    }

    /// Obtain a handle to the output of this parser. May or may not be initialised yet.
    pub fn output(&self) -> (r: DelayedVal<I::Output>)
        ensures
            r == self.value,
    {
        self.value.share()
    }
}

impl<I: Parser> Parser for Delayed<I> where I::Output: Clone {
    type Output = DelayedVal<I::Output>;

    open spec fn spec_name(&self) -> Seq<char> {
        self.inner.spec_name()
    }

    open spec fn spec_tree(&self) -> SpecView {
        self.inner.spec_tree()
    }

    open spec fn is_pure(&self) -> bool {
        self.inner.is_pure()
    }

    open spec fn spec_parse(&self, input: Seq<u8>) -> Outcome<()> {
        match self.inner.spec_parse(input) {
            Outcome::Parsed { consumed, anno, .. } => Outcome::Parsed { consumed, value: (), anno },
            Outcome::Failed { consumed, anno } => Outcome::Failed { consumed, anno },
        }
    }

    fn name(&self) -> (r: String) {
        self.inner.name()
    }

    fn spec(&self) -> (r: ParserSpec) {
        self.inner.spec()
    }

    /// On success, the value handed back is the shared handle, the one that [`Delayed::output`]
    /// gives.
    fn parse(&mut self, input: &mut &[u8]) -> (res: Result<DelayedVal<I::Output>>)
        ensures
            res matches Ok((v, _)) ==> v == old(self).value,
    {
        match self.inner.parse(input) {
            Ok((out, anno)) => {
                // Set the shared value
                self.value.set(Some(out));
                proof {
                    assert(!<DelayedVal<I::Output> as Render>::render_exact());
                }
                Ok((self.value.share(), anno))
            },
            Err(a) => Err(a),
        }
    }
}

} // verus!
