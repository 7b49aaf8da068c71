use super::super::helpers::{adopted, adopted_as, failed_parent, parse_child, shows, span_end};
use super::super::spec::{lemma_identifiers_root, ParserSpec, SpecView};
use super::super::{lemma_advanced_refl, result_anno, Outcome, Parser, Result};
use crate::annotation::{views, AnnoView, Annotation, ResultView};
use crate::render::Render;
use crate::text::push_str;
use vstd::prelude::*;

verus! {

/// The model of what a fallible function gave back.
pub open spec fn applied<O: DeepView>(r: std::result::Result<O, String>) -> std::result::Result<
    O::V,
    Seq<char>,
> {
    match r {
        Ok(o) => Ok(o.deep_view()),
        Err(e) => Err(e@),
    }
}

/// A fallible function applied to the value of a parser: it gives the new value, or the text of
/// why it failed.
pub trait TryMapFn<In: DeepView>: Sized {
    type Out: Render;

    /// Whether the function's result is determined by its argument alone.
    spec fn is_pure(&self) -> bool;

    /// The result for an argument with the given deep view, where [`TryMapFn::is_pure`] holds.
    spec fn spec_apply(&self, x: In::V) -> std::result::Result<<Self::Out as DeepView>::V, Seq<char>>;

    fn apply(&mut self, x: In) -> (r: std::result::Result<Self::Out, String>)
        ensures
            *final(self) == *old(self),
            old(self).is_pure() ==> applied(r) == old(self).spec_apply(x.deep_view()),
    ;
}

/// An infallible function applied to the value of a parser.
pub trait MapFn<In: DeepView>: Sized {
    type Out: Render;

    /// Whether the function's result is determined by its argument alone.
    spec fn is_pure(&self) -> bool;

    /// The result for an argument with the given deep view, where [`MapFn::is_pure`] holds.
    spec fn spec_apply(&self, x: In::V) -> <Self::Out as DeepView>::V;

    fn apply(&mut self, x: In) -> (r: Self::Out)
        ensures
            *final(self) == *old(self),
            old(self).is_pure() ==> r.deep_view() == old(self).spec_apply(x.deep_view()),
    ;
}

/// For fallible functions
pub struct TryMap<I, F> {
    pub inner: I,
    pub func: F,
    /// For display purposes, eg. if the func is a closure it doesn't have a good name
    pub func_name: String,
    /// The name of the parser: `try_map({func_name})`, or the name given to `generic::try_map`.
    pub label: String,
}

/// The name of a fallible map of a function named `func_name`.
pub open spec fn try_map_name(func_name: Seq<char>) -> Seq<char> {
    "try_map("@ + func_name + ")"@
}

impl<I, F> TryMap<I, F> {
    pub fn new(inner: I, func: F, func_name: &str) -> (r: Self)
        ensures
            r.inner == inner,
            r.func == func,
            r.func_name@ == func_name@,
            r.label@ == try_map_name(func_name@),
    {
        let mut label = "try_map(".to_owned();
        push_str(&mut label, func_name);
        push_str(&mut label, ")");
        Self { inner, func, func_name: func_name.to_owned(), label }
    }
}

impl<I: Parser, F: TryMapFn<I::Output>> Parser for TryMap<I, F> {
    type Output = F::Out;

    open spec fn spec_name(&self) -> Seq<char> {
        self.label@
    }

    open spec fn spec_tree(&self) -> SpecView {
        SpecView { name: self.spec_name(), inner: seq![self.inner.spec_tree()], friendly_name: None }
    }

    open spec fn is_pure(&self) -> bool {
        self.inner.is_pure() && self.func.is_pure() && F::Out::render_exact()
    }

    open spec fn spec_parse(&self, input: Seq<u8>) -> Outcome<<F::Out as DeepView>::V> {
        let name = self.spec_name();
        match self.inner.spec_parse(input) {
            Outcome::Failed { consumed, anno } => Outcome::Failed {
                consumed,
                anno: failed_parent(name, seq![adopted(anno, 0, name, 0)]),
            },
            Outcome::Parsed { consumed, value, anno } => {
                let child = adopted(anno, 0, name, 0);
                match self.func.spec_apply(value) {
                    Ok(out) => Outcome::Parsed {
                        consumed,
                        value: out,
                        anno: AnnoView {
                            id: name,
                            children: seq![child],
                            result: ResultView::Success {
                                start: 0,
                                end: span_end(child.result),
                                value: F::Out::spec_render(out),
                            },
                        },
                    },
                    Err(reason) => Outcome::Failed {
                        consumed,
                        anno: AnnoView {
                            id: name,
                            children: seq![child],
                            result: ResultView::Invalid {
                                start: 0,
                                end: span_end(child.result),
                                reason,
                            },
                        },
                    },
                }
            },
        }
    }

    fn name(&self) -> (r: String) {
        self.label.clone()
    }

    fn spec(&self) -> (r: ParserSpec) {
        let mut inner = Vec::new();
        inner.push(self.inner.spec());
        let r = ParserSpec { name: self.name(), inner, friendly_name: None };
        assert(r.view().inner =~= seq![self.inner.spec_tree()]);
        r
    }

    /// The one child is the inner parser's annotation. The function fails, and the parser's
    /// annotation is invalid, exactly where the inner parser succeeded but the parse did not;
    /// the parser's span, when it has one, ends where the child's does.
    fn parse(&mut self, input: &mut &[u8]) -> (res: Result<F::Out>)
        ensures
            result_anno(res).children.len() == 1,
            res is Ok ==> result_anno(res).children[0].result is Success,
            res is Err ==> (result_anno(res).result is Invalid <==> result_anno(
                res,
            ).children[0].result is Success),
            res is Ok || result_anno(res).result is Invalid ==> span_end(result_anno(res).result)
                == span_end(result_anno(res).children[0].result),
            adopted_as(result_anno(res).children[0], old(self).label@, 0),
            result_anno(res).result matches ResultView::Invalid { start, .. } ==> start == 0,
            res is Err && !(result_anno(res).result is Invalid) ==> result_anno(res)
                == failed_parent(old(self).label@, result_anno(res).children),
            old(self).func.is_pure() ==> match res {
                Ok((o, a)) => exists|v: <I::Output as DeepView>::V|
                    #![trigger old(self).func.spec_apply(v)]
                    old(self).func.spec_apply(v) == Ok::<_, Seq<char>>(o.deep_view()) && shows::<
                        I::Output,
                    >(a.view().children[0], v),
                Err(a) => a.view().result matches ResultView::Invalid { reason, .. } ==> exists|
                    v: <I::Output as DeepView>::V,
                |
                    #![trigger old(self).func.spec_apply(v)]
                    old(self).func.spec_apply(v) == Err::<<F::Out as DeepView>::V, _>(reason)
                        && shows::<I::Output>(a.view().children[0], v),
            },
    {
        let ghost input0 = old(input)@;
        let total = input.len();
        let name = self.name();
        proof {
            assert(views(Seq::<Annotation>::empty()) =~= Seq::<AnnoView>::empty());
        }
        let ghost tree = self.spec_tree();
        let r = parse_child(
            &mut self.inner,
            input,
            Vec::new(),
            0,
            name.as_str(),
            0,
            Ghost(input0.len() as int),
            Ghost(tree),
        );
        let (data, end, child_annotations) = match r {
            Ok(t) => t,
            Err(a) => {
                return Err(a);
            },
        };
        let ghost dv = data.deep_view();
        let ghost func0 = self.func;
        let applied_r = self.func.apply(data);
        proof {
            if func0.is_pure() {
                assert(applied(applied_r) == func0.spec_apply(dv));
            }
        }
        match applied_r {
            Ok(out) => {
                let annotation = Annotation::success(name.as_str(), 0..end, &out, child_annotations);
                proof {
                    assert(annotation.view().children == views(child_annotations@));
                    lemma_identifiers_root(tree);
                    assert(annotation.view().children[0] == views(child_annotations@).last());
                }
                Ok((out, annotation))
            },
            Err(reason) => {
                // Function application has failed, so fail annotation at this level
                let annotation = Annotation::invalid(name.as_str(), 0..end, reason, child_annotations);
                proof {
                    lemma_identifiers_root(tree);
                    assert(annotation.view().children[0] == views(child_annotations@).last());
                }
                Err(annotation)
            },
        }
    }
}

/// For infallible functions
pub struct MapParser<I, F> {
    pub inner: I,
    pub func: F,
    /// For display purposes, eg. if the func is a closure it doesn't have a good name
    pub func_name: String,
    /// The name of the parser: `map`, or the name given to `generic::map`.
    pub label: String,
}

impl<I, F> MapParser<I, F> {
    pub fn new(inner: I, func: F, func_name: &str) -> (r: Self)
        ensures
            r.inner == inner,
            r.func == func,
            r.func_name@ == func_name@,
            r.label@ == "map"@,
    {
        Self { inner, func, func_name: func_name.to_owned(), label: "map".to_owned() }
    }
}

impl<I: Parser, F: MapFn<I::Output>> Parser for MapParser<I, F> {
    type Output = F::Out;

    open spec fn spec_name(&self) -> Seq<char> {
        self.label@
    }

    open spec fn spec_tree(&self) -> SpecView {
        SpecView {
            name: self.label@,
            inner: seq![
                self.inner.spec_tree(),
                SpecView { name: self.func_name@, inner: seq![], friendly_name: None },
            ],
            friendly_name: None,
        }
    }

    open spec fn is_pure(&self) -> bool {
        self.inner.is_pure() && self.func.is_pure() && F::Out::render_exact()
    }

    open spec fn spec_parse(&self, input: Seq<u8>) -> Outcome<<F::Out as DeepView>::V> {
        match self.inner.spec_parse(input) {
            Outcome::Failed { consumed, anno } => Outcome::Failed {
                consumed,
                anno: failed_parent(self.label@, seq![adopted(anno, 0, self.label@, 0)]),
            },
            Outcome::Parsed { consumed, value, anno } => {
                let child = adopted(anno, 0, self.label@, 0);
                let out = self.func.spec_apply(value);
                Outcome::Parsed {
                    consumed,
                    value: out,
                    anno: AnnoView {
                        id: self.label@,
                        children: seq![child],
                        result: ResultView::Success {
                            start: 0,
                            end: span_end(child.result),
                            value: F::Out::spec_render(out),
                        },
                    },
                }
            },
        }
    }

    fn name(&self) -> (r: String) {
        self.label.clone()
    }

    fn spec(&self) -> (r: ParserSpec) {
        let mut inner = Vec::new();
        inner.push(self.inner.spec());
        // Dummy "parser" in spec for function name
        inner.push(ParserSpec::empty(self.func_name.as_str()));
        let r = ParserSpec { name: self.label.clone(), inner, friendly_name: None };
        assert(r.view().inner =~= seq![
            self.inner.spec_tree(),
            SpecView { name: self.func_name@, inner: seq![], friendly_name: None },
        ]);
        r
    }

    /// The one child is the inner parser's annotation; the parser succeeds exactly where it
    /// did, its span ending where the child's does.
    fn parse(&mut self, input: &mut &[u8]) -> (res: Result<F::Out>)
        ensures
            result_anno(res).children.len() == 1,
            res is Ok <==> result_anno(res).children[0].result is Success,
            res is Ok ==> span_end(result_anno(res).result) == span_end(
                result_anno(res).children[0].result,
            ),
            adopted_as(result_anno(res).children[0], old(self).label@, 0),
            res is Err ==> result_anno(res) == failed_parent(
                old(self).label@,
                result_anno(res).children,
            ),
    {
        let ghost input0 = old(input)@;
        let total = input.len();
        proof {
            assert(views(Seq::<Annotation>::empty()) =~= Seq::<AnnoView>::empty());
        }
        let name = self.label.clone();
        let ghost tree = self.spec_tree();
        let r = parse_child(
            &mut self.inner,
            input,
            Vec::new(),
            0,
            name.as_str(),
            0,
            Ghost(input0.len() as int),
            Ghost(tree),
        );
        let (data, end, child_annotations) = match r {
            Ok(t) => t,
            Err(a) => {
                return Err(a);
            },
        };
        let out = self.func.apply(data);
        let annotation = Annotation::success(name.as_str(), 0..end, &out, child_annotations);
        proof {
            assert(annotation.view().children == views(child_annotations@));
            lemma_identifiers_root(tree);
        }
        Ok((out, annotation))
    }
}

} // verus!
