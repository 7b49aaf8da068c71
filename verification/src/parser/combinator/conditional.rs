use super::super::helpers::{adopted, adopted_as, failed_parent, parse_child, span_end};
use super::super::spec::{ids_among, lemma_identifiers_root, spec_identifiers, ParserSpec, SpecView};
use super::super::{
    advanced, lemma_advanced_refl, outcome_of, result_anno, shows_value, taken, Outcome, Parser,
    Result,
};
use super::delayed::DelayedVal;
use crate::annotation::{views, AnnoView, Annotation, ResultView};
use crate::render::Render;
use vstd::prelude::*;

verus! {

/// A condition on a value that some earlier parser produced.
pub trait Check<V: DeepView> {
    spec fn spec_check(&self, v: V::V) -> bool;

    fn check(&self, v: &V) -> (r: bool)
        ensures
            r == self.spec_check(v.deep_view()),
    ;
}

/// A parser which may or may not be ran depending on the result of some previous parser
#[verifier::reject_recursive_types(V)]
pub struct Cond<V, C, P> {
    pub value: DelayedVal<V>,
    pub cond: C,
    pub inner: P,
}

impl<V, C, P> Cond<V, C, P> {
    pub fn new(value: DelayedVal<V>, cond: C, inner: P) -> (r: Self)
        ensures
            r.value == value,
            r.cond == cond,
            r.inner == inner,
    {
        Self { value, cond, inner }
    }
}

/// Why a condition cannot be checked before the value it depends on exists.
pub open spec fn uninitialised_reason() -> Seq<char> {
    "Dependent value has not been initialised yet"@
}

impl<V: DeepView, C: Check<V>, P: Parser> Cond<V, C, P> {
    /// The description of the parser: `cond`, with the inner parser as its child.
    pub open spec fn cond_tree(&self) -> SpecView {
        SpecView { name: "cond"@, inner: seq![self.inner.spec_tree()], friendly_name: None }
    }

    /// The outcome of the parser, where the value it depends on is `value`.
    pub open spec fn spec_parse_with(&self, value: Option<V::V>, input: Seq<u8>) -> Outcome<
        Option<<P::Output as DeepView>::V>,
    > {
        match value {
            None => Outcome::Failed {
                consumed: 0,
                anno: AnnoView {
                    id: "cond"@,
                    children: seq![],
                    result: ResultView::Invalid { start: 0, end: 0, reason: uninitialised_reason() },
                },
            },
            Some(v) => if self.cond.spec_check(v) {
                match self.inner.spec_parse(input) {
                    Outcome::Failed { consumed, anno } => Outcome::Failed {
                        consumed,
                        anno: failed_parent("cond"@, seq![adopted(anno, 0, "cond"@, 0)]),
                    },
                    Outcome::Parsed { consumed, value, anno } => {
                        let child = adopted(anno, 0, "cond"@, 0);
                        Outcome::Parsed {
                            consumed,
                            value: Some(value),
                            anno: AnnoView {
                                id: "cond"@,
                                children: seq![child],
                                result: ResultView::Success {
                                    start: 0,
                                    end: span_end(child.result),
                                    value: <Option<P::Output> as Render>::spec_render(Some(value)),
                                },
                            },
                        }
                    },
                }
            } else {
                Outcome::Parsed {
                    consumed: 0,
                    value: None,
                    anno: AnnoView {
                        id: "cond"@,
                        children: seq![],
                        result: ResultView::Success { start: 0, end: 0, value: "None"@ },
                    },
                }
            },
        }
    }

    /// Parses with the value the condition depends on given as `value`: fails where there is
    /// none yet, runs the inner parser where the condition holds of it, and otherwise succeeds
    /// with no value and without reading.
    pub fn parse_with(&mut self, value: &Option<V>, input: &mut &[u8]) -> (res: Result<
        Option<P::Output>,
    >)
        ensures
            *final(self) == *old(self),
            advanced(old(input)@, final(input)@),
            outcome_of(res, taken(old(input)@, final(input)@)).well_shaped(
                old(input)@.len() as int,
                "cond"@,
            ),
            ids_among(result_anno(res), spec_identifiers(old(self).cond_tree())),
            shows_value(res),
            value matches Some(v) && old(self).cond.spec_check(v.deep_view()) ==> {
                &&& result_anno(res).children.len() == 1
                &&& adopted_as(result_anno(res).children[0], "cond"@, 0)
                &&& res is Ok ==> result_anno(res).children[0].result is Success && span_end(
                    result_anno(res).result,
                ) == span_end(result_anno(res).children[0].result)
                &&& res is Err ==> result_anno(res) == failed_parent(
                    "cond"@,
                    result_anno(res).children,
                )
            },
            value is None ==> res is Err && final(input)@ == old(input)@,
            value matches Some(v) && !old(self).cond.spec_check(v.deep_view()) ==> res is Ok
                && final(input)@ == old(input)@,
            old(self).inner.is_pure() && P::Output::render_exact() ==> outcome_of(
                res,
                taken(old(input)@, final(input)@),
            ) == old(self).spec_parse_with(value.deep_view(), old(input)@),
    {
        let ghost input0 = old(input)@;
        let total = input.len();
        let ghost tree = self.cond_tree();
        proof {
            lemma_advanced_refl(input0);
            assert(views(Seq::<Annotation>::empty()) =~= Seq::<AnnoView>::empty());
            lemma_identifiers_root(tree);
        }
        let value = match value {
            Some(v) => v,
            None => {
                // A value that the condition depends on has not been parsed yet
                return Err(
                    Annotation::invalid(
                        "cond",
                        0..0,
                        "Dependent value has not been initialised yet".to_owned(),
                        Vec::new(),
                    ),
                );
            },
        };
        if self.cond.check(value) {
            let r = parse_child(
                &mut self.inner,
                input,
                Vec::new(),
                0,
                "cond",
                0,
                Ghost(input0.len() as int),
                Ghost(tree),
            );
            match r {
                Ok((out, end, child_annotations)) => {
                    let out = Some(out);
                    let annotation = Annotation::success("cond", 0..end, &out, child_annotations);
                    proof {
                        assert(annotation.view().children == views(child_annotations@));
                    }
                    Ok((out, annotation))
                },
                Err(a) => Err(a),
            }
        } else {
            let out: Option<P::Output> = None;
            let annotation = Annotation::success("cond", 0..0, &out, Vec::new());
            Ok((out, annotation))
        }
    }
}

impl<V: DeepView + Clone, C: Check<V>, P: Parser> Parser for Cond<V, C, P> {
    type Output = Option<P::Output>;

    open spec fn spec_name(&self) -> Seq<char> {
        "cond"@
    }

    open spec fn spec_tree(&self) -> SpecView {
        self.cond_tree()
    }

    /// The outcome depends on a shared value that the input alone does not determine; see
    /// [`Cond::spec_parse_with`].
    open spec fn is_pure(&self) -> bool {
        false
    }

    open spec fn spec_parse(&self, input: Seq<u8>) -> Outcome<Option<<P::Output as DeepView>::V>> {
        arbitrary()
    }

    fn name(&self) -> (r: String) {
        "cond".to_owned()
    }

    fn spec(&self) -> (r: ParserSpec) {
        let mut inner = Vec::new();
        inner.push(self.inner.spec());
        let r = ParserSpec::new("cond", inner);
        assert(r.view().inner =~= seq![self.inner.spec_tree()]);
        r
    }

    /// Where the inner parser is pure, the outcome is the one for what the shared value held
    /// when it was read (see [`Cond::spec_parse_with`]).
    fn parse(&mut self, input: &mut &[u8]) -> (res: Result<Option<P::Output>>)
        ensures
            old(self).inner.is_pure() && P::Output::render_exact() ==> exists|v: Option<V::V>|
                outcome_of(res, taken(old(input)@, final(input)@)) == #[trigger] old(
                    self,
                ).spec_parse_with(v, old(input)@),
    {
        let value = self.value.get();
        let res = self.parse_with(&value, input);
        proof {
            if self.inner.is_pure() && P::Output::render_exact() {
                assert(outcome_of(res, taken(old(input)@, input@)) == self.spec_parse_with(
                    value.deep_view(),
                    old(input)@,
                ));
            }
        }
        res
    }
}

/// A conditional parser with the value that its condition depends on handed over, in place of
/// the shared value it would read.
#[verifier::reject_recursive_types(V)]
pub struct Given<V, C, P> {
    pub cond: Cond<V, C, P>,
    pub value: Option<V>,
}

impl<V: DeepView + Clone, C: Check<V>, P: Parser> Parser for Given<V, C, P> {
    type Output = Option<P::Output>;

    open spec fn spec_name(&self) -> Seq<char> {
        "cond"@
    }

    open spec fn spec_tree(&self) -> SpecView {
        self.cond.cond_tree()
    }

    open spec fn is_pure(&self) -> bool {
        self.cond.inner.is_pure() && P::Output::render_exact()
    }

    open spec fn spec_parse(&self, input: Seq<u8>) -> Outcome<Option<<P::Output as DeepView>::V>> {
        self.cond.spec_parse_with(self.value.deep_view(), input)
    }

    fn name(&self) -> (r: String) {
        "cond".to_owned()
    }

    fn spec(&self) -> (r: ParserSpec) {
        self.cond.spec()
    }

    fn parse(&mut self, input: &mut &[u8]) -> (res: Result<Option<P::Output>>) {
        self.cond.parse_with(&self.value, input)
    }
}

} // verus!
