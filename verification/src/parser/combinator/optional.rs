use super::super::helpers::{adopted, adopted_as, failed_parent, parse_child, span_end};
use super::super::spec::{lemma_identifiers_root, ParserSpec, SpecView};
use super::super::{Outcome, Parser, Result};
use crate::annotation::{views, AnnoView, Annotation, AnnotationResult, ResultView};
use crate::render::Render;
use vstd::prelude::*;

verus! {

/// Optional parser. If inner parser fails, then this succeeds but produces no value
pub struct Opt<I>(pub I);

impl<I: Parser> Parser for Opt<I> {
    type Output = Option<I::Output>;

    open spec fn spec_name(&self) -> Seq<char> {
        "opt"@
    }

    open spec fn spec_tree(&self) -> SpecView {
        SpecView { name: "opt"@, inner: seq![self.0.spec_tree()], friendly_name: None }
    }

    open spec fn is_pure(&self) -> bool {
        self.0.is_pure() && I::Output::render_exact()
    }

    open spec fn spec_parse(&self, input: Seq<u8>) -> Outcome<Option<<I::Output as DeepView>::V>> {
        match self.0.spec_parse(input) {
            Outcome::Parsed { consumed, value, anno } => {
                let child = adopted(anno, 0, "opt"@, 0);
                Outcome::Parsed {
                    consumed,
                    value: Some(value),
                    anno: AnnoView {
                        id: "opt"@,
                        children: seq![child],
                        result: ResultView::Success {
                            start: 0,
                            end: span_end(child.result),
                            value: <Option<I::Output> as Render>::spec_render(Some(value)),
                        },
                    },
                }
            },
            Outcome::Failed { consumed, anno } => Outcome::Parsed {
                consumed,
                value: None,
                anno: AnnoView {
                    id: "opt"@,
                    children: seq![failed_parent("opt"@, seq![adopted(anno, 0, "opt"@, 0)])],
                    result: ResultView::Success { start: 0, end: 0, value: "None"@ },
                },
            },
        }
    }

    fn name(&self) -> (r: String) {
        "opt".to_owned()
    }

    fn spec(&self) -> (r: ParserSpec) {
        let mut inner = Vec::new();
        inner.push(self.0.spec());
        let r = ParserSpec::new("opt", inner);
        assert(r.view().inner =~= seq![self.0.spec_tree()]);
        r
    }

    /// An optional parser never fails; it has no value exactly where its one child, the inner
    /// parser's annotation, is not a success.
    fn parse(&mut self, input: &mut &[u8]) -> (res: Result<Option<I::Output>>)
        ensures
            res is Ok,
            res matches Ok((v, a)) ==> {
                &&& a.view().children.len() == 1
                &&& (v is None <==> !(a.view().children[0].result is Success))
                &&& v is None ==> {
                    &&& a.view().result == (ResultView::Success { start: 0, end: 0, value: "None"@ })
                    &&& a.view().children[0] == failed_parent(
                        "opt"@,
                        seq![a.view().children[0].children[0]],
                    )
                    &&& adopted_as(a.view().children[0].children[0], "opt"@, 0)
                }
                &&& v is Some ==> {
                    &&& adopted_as(a.view().children[0], "opt"@, 0)
                    &&& span_end(a.view().result) == span_end(a.view().children[0].result)
                }
            },
    {
        let ghost input0 = old(input)@;
        let total = input.len();
        proof {
            assert(views(Seq::<Annotation>::empty()) =~= Seq::<AnnoView>::empty());
        }
        let ghost tree = self.spec_tree();
        let res = parse_child(
            &mut self.0,
            input,
            Vec::new(),
            0,
            "opt",
            0,
            Ghost(input0.len() as int),
            Ghost(tree),
        );
        match res {
            Ok((out, end, child_annotations)) => {
                let out = Some(out);
                let annotation = Annotation::success("opt", 0..end, &out, child_annotations);
                proof {
                    assert(annotation.view().children == views(child_annotations@));
                    lemma_identifiers_root(tree);
                }
                Ok((out, annotation))
            },
            Err(child_annotation) => {
                let mut v = Vec::new();
                v.push(child_annotation);
                proof {
                    assert(views(v@) =~= seq![child_annotation.view()]);
                    assert(child_annotation.view().children =~= seq![
                        child_annotation.view().children[0],
                    ]);
                }
                // The inner parser failed: no value, shown as `None`
                let out: Option<I::Output> = None;
                let annotation = Annotation {
                    parser_id: "opt".to_owned(),
                    children: v,
                    result: AnnotationResult::Success { span: 0..0, value: "None".to_owned() },
                };
                proof {
                    assert(annotation.view().children =~= views(v@));
                    lemma_identifiers_root(tree);
                }
                Ok((out, annotation))
            },
        }
    }
}

} // verus!
