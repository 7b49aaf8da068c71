pub mod combinator;
pub mod generic;
pub mod helpers;
pub mod num;
pub mod spec;
pub mod specific;

use crate::annotation::{AnnoView, Annotation, ResultView};
use crate::render::Render;
use spec::{ids_among, spec_identifiers, ParserSpec, SpecView};
use vstd::prelude::*;

verus! {

/// What a parser gives back: the value and the annotation of what it read, or the annotation of
/// where it failed.
pub type Result<T> = std::result::Result<(T, Annotation), Annotation>;

/// The mathematical model of a parse: how many bytes were consumed, and what came back.
pub enum Outcome<V> {
    Parsed { consumed: int, value: V, anno: AnnoView },
    Failed { consumed: int, anno: AnnoView },
}

impl<V> Outcome<V> {
    pub open spec fn consumed(self) -> int {
        match self {
            Outcome::Parsed { consumed, .. } => consumed,
            Outcome::Failed { consumed, .. } => consumed,
        }
    }

    pub open spec fn anno(self) -> AnnoView {
        match self {
            Outcome::Parsed { anno, .. } => anno,
            Outcome::Failed { anno, .. } => anno,
        }
    }

    /// The shape that the outcome of every parser has, on an input of `input_len` bytes, for a
    /// parser named `name`: the consumed bytes lie in the input, the annotation carries the
    /// parser's name and lies in the input, it is a success exactly when the parse succeeded,
    /// and then its span starts at the first byte and ends within the consumed bytes.
    pub open spec fn well_shaped(self, input_len: int, name: Seq<char>) -> bool {
        &&& 0 <= self.consumed() <= input_len
        &&& self.anno().id == name
        &&& self.anno().within(input_len)
        &&& match self {
            Outcome::Parsed { consumed, anno, .. } => anno.result matches ResultView::Success {
                start,
                end,
                ..
            } && start == 0 && end <= consumed,
            Outcome::Failed { anno, .. } => !(anno.result is Success),
        }
    }
}

/// The model of what a call of [`Parser::parse`] gave back, after it consumed `consumed` bytes.
pub open spec fn outcome_of<T: DeepView>(res: Result<T>, consumed: int) -> Outcome<T::V> {
    match res {
        Ok((v, a)) => Outcome::Parsed { consumed, value: v.deep_view(), anno: a.view() },
        Err(a) => Outcome::Failed { consumed, anno: a.view() },
    }
}

/// The annotation that a parse gave back, on success or on failure.
pub open spec fn result_anno<T>(res: Result<T>) -> AnnoView {
    match res {
        Ok((_, a)) => a.view(),
        Err(a) => a.view(),
    }
}

/// A successful parse's annotation shows its value, where values of the type render exactly.
pub open spec fn shows_value<T: Render>(res: Result<T>) -> bool {
    match res {
        Ok((v, a)) => T::render_exact() ==> (a.view().result matches ResultView::Success {
            value: t,
            ..
        } && t == T::spec_render(v.deep_view())),
        Err(_) => true,
    }
}

/// How many bytes a parse took from the input.
pub open spec fn taken(before: Seq<u8>, after: Seq<u8>) -> int {
    before.len() - after.len()
}

/// The input after the parse is what remained of the input before it.
pub open spec fn advanced(before: Seq<u8>, after: Seq<u8>) -> bool {
    &&& after.len() <= before.len()
    &&& after == before.skip(taken(before, after))
}

/// Advancing twice is advancing once.
pub proof fn lemma_advanced_trans(a: Seq<u8>, b: Seq<u8>, c: Seq<u8>)
    requires
        advanced(a, b),
        advanced(b, c),
    ensures
        advanced(a, c),
{
    assert(c =~= a.skip(taken(a, c)));
}

/// Not moving is advancing.
pub proof fn lemma_advanced_refl(a: Seq<u8>)
    ensures
        advanced(a, a),
{
    assert(a.skip(0) =~= a);
}

/// All parsing functions implement this trait.
pub trait Parser: Sized {
    type Output: Render;

    /// The parser's simple name.
    spec fn spec_name(&self) -> Seq<char>;

    /// The description of the parser and its children.
    spec fn spec_tree(&self) -> SpecView;

    /// Whether the outcome of a parse is determined by the input alone (no shared value is
    /// read, and every value renders exactly).
    spec fn is_pure(&self) -> bool;

    /// The outcome of parsing `input`, where [`Parser::is_pure`] holds.
    spec fn spec_parse(&self, input: Seq<u8>) -> Outcome<<Self::Output as DeepView>::V>;

    /// Simple name of the parser, should not include children or generics
    fn name(&self) -> (r: String)
        ensures
            r@ == self.spec_name(),
    ;

    fn spec(&self) -> (r: ParserSpec)
        ensures
            r.view() == self.spec_tree(),
    ;

    fn parse(&mut self, input: &mut &[u8]) -> (res: Result<Self::Output>)
        ensures
            *final(self) == *old(self),
            advanced(old(input)@, final(input)@),
            outcome_of(res, taken(old(input)@, final(input)@)).well_shaped(
                old(input)@.len() as int,
                old(self).spec_name(),
            ),
            ids_among(result_anno(res), spec_identifiers(old(self).spec_tree())),
            shows_value(res),
            old(self).is_pure() ==> outcome_of(res, taken(old(input)@, final(input)@))
                == old(self).spec_parse(old(input)@),
    ;

    /// Parse and just return the annotation
    fn annotate(&mut self, input: &[u8]) -> (a: Annotation)
        ensures
            *final(self) == *old(self),
            a.view().id == old(self).spec_name(),
            a.view().within(input@.len() as int),
            ids_among(a.view(), spec_identifiers(old(self).spec_tree())),
            old(self).is_pure() ==> a.view() == old(self).spec_parse(input@).anno(),
    {
        let mut rest = input;
        match self.parse(&mut rest) {
            Ok((_, a)) => a,
            Err(a) => a,
        }
    }
}

} // verus!

verus! {

/// Blanket impl for boxed parsers
impl<P: Parser> Parser for Box<P> {
    type Output = P::Output;

    open spec fn spec_name(&self) -> Seq<char> {
        (**self).spec_name()
    }

    open spec fn spec_tree(&self) -> SpecView {
        (**self).spec_tree()
    }

    open spec fn is_pure(&self) -> bool {
        (**self).is_pure()
    }

    open spec fn spec_parse(&self, input: Seq<u8>) -> Outcome<<P::Output as DeepView>::V> {
        (**self).spec_parse(input)
    }

    fn name(&self) -> (r: String) {
        (**self).name()
    }

    fn spec(&self) -> (r: ParserSpec) {
        (**self).spec()
    }

    fn parse(&mut self, input: &mut &[u8]) -> (res: Result<P::Output>) {
        (**self).parse(input)
    }
}

} // verus!
