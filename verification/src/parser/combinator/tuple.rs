use super::super::helpers::{in_sequence, lemma_in_sequence_push, parse_child, span_end, spec_step, Step};
use super::super::spec::{lemma_identifiers_root, ParserSpec, SpecView};
use super::super::{lemma_advanced_refl, lemma_advanced_trans, Outcome, Parser, Result};
use crate::annotation::{views, AnnoView, Annotation, ResultView};
use crate::render::Render;
use vstd::prelude::*;

verus! {

// Tuples of parsers run each parser in turn, each on what the one before left.

impl<A: Parser, B: Parser, C: Parser, D: Parser, E: Parser, F: Parser, G: Parser, H: Parser, I: Parser, J: Parser> Parser for (A, B, C, D, E, F, G, H, I, J) {
    type Output = (A::Output, B::Output, C::Output, D::Output, E::Output, F::Output, G::Output, H::Output, I::Output, J::Output);

    open spec fn spec_name(&self) -> Seq<char> {
        "tuple"@
    }

    open spec fn spec_tree(&self) -> SpecView {
        SpecView { name: "tuple"@, inner: seq![self.0.spec_tree(), self.1.spec_tree(), self.2.spec_tree(), self.3.spec_tree(), self.4.spec_tree(), self.5.spec_tree(), self.6.spec_tree(), self.7.spec_tree(), self.8.spec_tree(), self.9.spec_tree()], friendly_name: None }
    }

    open spec fn is_pure(&self) -> bool {
        self.0.is_pure() && self.1.is_pure() && self.2.is_pure() && self.3.is_pure() && self.4.is_pure() && self.5.is_pure() && self.6.is_pure() && self.7.is_pure() && self.8.is_pure() && self.9.is_pure() && <(A::Output, B::Output, C::Output, D::Output, E::Output, F::Output, G::Output, H::Output, I::Output, J::Output) as Render>::render_exact()
    }

    open spec fn spec_parse(&self, input: Seq<u8>) -> Outcome<(<A::Output as DeepView>::V, <B::Output as DeepView>::V, <C::Output as DeepView>::V, <D::Output as DeepView>::V, <E::Output as DeepView>::V, <F::Output as DeepView>::V, <G::Output as DeepView>::V, <H::Output as DeepView>::V, <I::Output as DeepView>::V, <J::Output as DeepView>::V)> {
        match spec_step(self.0.spec_parse(input), 0, 0, seq![], "tuple"@, 0) {
            Step::Stop { consumed, anno } => Outcome::Failed { consumed, anno },
            Step::Next { consumed: c0, offset: o0, value: v0, children: ch0 } =>
            match spec_step(self.1.spec_parse(input.skip(c0)), c0, o0, ch0, "tuple"@, 1) {
                Step::Stop { consumed, anno } => Outcome::Failed { consumed, anno },
                Step::Next { consumed: c1, offset: o1, value: v1, children: ch1 } =>
                match spec_step(self.2.spec_parse(input.skip(c1)), c1, o1, ch1, "tuple"@, 2) {
                    Step::Stop { consumed, anno } => Outcome::Failed { consumed, anno },
                    Step::Next { consumed: c2, offset: o2, value: v2, children: ch2 } =>
                    match spec_step(self.3.spec_parse(input.skip(c2)), c2, o2, ch2, "tuple"@, 3) {
                        Step::Stop { consumed, anno } => Outcome::Failed { consumed, anno },
                        Step::Next { consumed: c3, offset: o3, value: v3, children: ch3 } =>
                        match spec_step(self.4.spec_parse(input.skip(c3)), c3, o3, ch3, "tuple"@, 4) {
                            Step::Stop { consumed, anno } => Outcome::Failed { consumed, anno },
                            Step::Next { consumed: c4, offset: o4, value: v4, children: ch4 } =>
                            match spec_step(self.5.spec_parse(input.skip(c4)), c4, o4, ch4, "tuple"@, 5) {
                                Step::Stop { consumed, anno } => Outcome::Failed { consumed, anno },
                                Step::Next { consumed: c5, offset: o5, value: v5, children: ch5 } =>
                                match spec_step(self.6.spec_parse(input.skip(c5)), c5, o5, ch5, "tuple"@, 6) {
                                    Step::Stop { consumed, anno } => Outcome::Failed { consumed, anno },
                                    Step::Next { consumed: c6, offset: o6, value: v6, children: ch6 } =>
                                    match spec_step(self.7.spec_parse(input.skip(c6)), c6, o6, ch6, "tuple"@, 7) {
                                        Step::Stop { consumed, anno } => Outcome::Failed { consumed, anno },
                                        Step::Next { consumed: c7, offset: o7, value: v7, children: ch7 } =>
                                        match spec_step(self.8.spec_parse(input.skip(c7)), c7, o7, ch7, "tuple"@, 8) {
                                            Step::Stop { consumed, anno } => Outcome::Failed { consumed, anno },
                                            Step::Next { consumed: c8, offset: o8, value: v8, children: ch8 } =>
                                            match spec_step(self.9.spec_parse(input.skip(c8)), c8, o8, ch8, "tuple"@, 9) {
                                                Step::Stop { consumed, anno } => Outcome::Failed { consumed, anno },
                                                Step::Next { consumed: c9, offset: o9, value: v9, children: ch9 } =>
                                                Outcome::Parsed {
                                                    consumed: c9,
                                                    value: (v0, v1, v2, v3, v4, v5, v6, v7, v8, v9),
                                                    anno: AnnoView {
                                                        id: "tuple"@,
                                                        children: ch9,
                                                        result: ResultView::Success { start: 0, end: o9, value: <(A::Output, B::Output, C::Output, D::Output, E::Output, F::Output, G::Output, H::Output, I::Output, J::Output) as Render>::spec_render((v0, v1, v2, v3, v4, v5, v6, v7, v8, v9)) },
                                                    },
                                                },
                                            }
                                        }
                                    }
                                }
                            }
                        }
                    }
                }
            }
        }
    }

    fn name(&self) -> (r: String) {
        "tuple".to_owned()
    }

    fn spec(&self) -> (r: ParserSpec) {
        let mut inner = Vec::new();
        inner.push(self.0.spec());
        inner.push(self.1.spec());
        inner.push(self.2.spec());
        inner.push(self.3.spec());
        inner.push(self.4.spec());
        inner.push(self.5.spec());
        inner.push(self.6.spec());
        inner.push(self.7.spec());
        inner.push(self.8.spec());
        inner.push(self.9.spec());
        let r = ParserSpec { name: "tuple".to_owned(), inner, friendly_name: None };
        assert(r.view().inner =~= seq![self.0.spec_tree(), self.1.spec_tree(), self.2.spec_tree(), self.3.spec_tree(), self.4.spec_tree(), self.5.spec_tree(), self.6.spec_tree(), self.7.spec_tree(), self.8.spec_tree(), self.9.spec_tree()]);
        r
    }

    /// The children run one after another: child `k` is the annotation of parser `k`, starting
    /// where the one before it ended, and the tuple's span ends where the last one's does.
    #[verifier::rlimit(60)]
    #[verifier::spinoff_prover]
    fn parse(&mut self, input: &mut &[u8]) -> (res: Result<(A::Output, B::Output, C::Output, D::Output, E::Output, F::Output, G::Output, H::Output, I::Output, J::Output)>)
        ensures
            res matches Ok((_, a)) ==> {
                &&& a.view().children.len() == 10
                &&& in_sequence(a.view().children, "tuple"@)
                &&& span_end(a.view().result) == span_end(a.view().children.last().result)
            },
    {
        let ghost input0 = old(input)@;
        let total = input.len();
        proof {
            assert(views(Seq::<Annotation>::empty()) =~= Seq::<AnnoView>::empty());
            lemma_advanced_refl(input0);
        }
        let children: Vec<Annotation> = Vec::new();
        let offset: usize = 0;
        let ghost tree = self.spec_tree();
        proof {
            assert(in_sequence(views(children@), "tuple"@));
        }
        let ghost before_0 = input@;
        let ghost prev_0 = views(children@);
        let r0 = parse_child(&mut self.0, input, children, offset, "tuple", 0, Ghost(input0.len() as int), Ghost(tree));
        proof {
            lemma_advanced_trans(input0, before_0, input@);
        }
        let (out_0, offset, children) = match r0 {
            Ok(t) => t,
            Err(a) => {
                return Err(a);
            },
        };
        proof {
            lemma_in_sequence_push(prev_0, views(children@), "tuple"@);
        }
        let ghost before_1 = input@;
        let ghost prev_1 = views(children@);
        let r1 = parse_child(&mut self.1, input, children, offset, "tuple", 1, Ghost(input0.len() as int), Ghost(tree));
        proof {
            lemma_advanced_trans(input0, before_1, input@);
        }
        let (out_1, offset, children) = match r1 {
            Ok(t) => t,
            Err(a) => {
                return Err(a);
            },
        };
        proof {
            lemma_in_sequence_push(prev_1, views(children@), "tuple"@);
        }
        let ghost before_2 = input@;
        let ghost prev_2 = views(children@);
        let r2 = parse_child(&mut self.2, input, children, offset, "tuple", 2, Ghost(input0.len() as int), Ghost(tree));
        proof {
            lemma_advanced_trans(input0, before_2, input@);
        }
        let (out_2, offset, children) = match r2 {
            Ok(t) => t,
            Err(a) => {
                return Err(a);
            },
        };
        proof {
            lemma_in_sequence_push(prev_2, views(children@), "tuple"@);
        }
        let ghost before_3 = input@;
        let ghost prev_3 = views(children@);
        let r3 = parse_child(&mut self.3, input, children, offset, "tuple", 3, Ghost(input0.len() as int), Ghost(tree));
        proof {
            lemma_advanced_trans(input0, before_3, input@);
        }
        let (out_3, offset, children) = match r3 {
            Ok(t) => t,
            Err(a) => {
                return Err(a);
            },
        };
        proof {
            lemma_in_sequence_push(prev_3, views(children@), "tuple"@);
        }
        let ghost before_4 = input@;
        let ghost prev_4 = views(children@);
        let r4 = parse_child(&mut self.4, input, children, offset, "tuple", 4, Ghost(input0.len() as int), Ghost(tree));
        proof {
            lemma_advanced_trans(input0, before_4, input@);
        }
        let (out_4, offset, children) = match r4 {
            Ok(t) => t,
            Err(a) => {
                return Err(a);
            },
        };
        proof {
            lemma_in_sequence_push(prev_4, views(children@), "tuple"@);
        }
        let ghost before_5 = input@;
        let ghost prev_5 = views(children@);
        let r5 = parse_child(&mut self.5, input, children, offset, "tuple", 5, Ghost(input0.len() as int), Ghost(tree));
        proof {
            lemma_advanced_trans(input0, before_5, input@);
        }
        let (out_5, offset, children) = match r5 {
            Ok(t) => t,
            Err(a) => {
                return Err(a);
            },
        };
        proof {
            lemma_in_sequence_push(prev_5, views(children@), "tuple"@);
        }
        let ghost before_6 = input@;
        let ghost prev_6 = views(children@);
        let r6 = parse_child(&mut self.6, input, children, offset, "tuple", 6, Ghost(input0.len() as int), Ghost(tree));
        proof {
            lemma_advanced_trans(input0, before_6, input@);
        }
        let (out_6, offset, children) = match r6 {
            Ok(t) => t,
            Err(a) => {
                return Err(a);
            },
        };
        proof {
            lemma_in_sequence_push(prev_6, views(children@), "tuple"@);
        }
        let ghost before_7 = input@;
        let ghost prev_7 = views(children@);
        let r7 = parse_child(&mut self.7, input, children, offset, "tuple", 7, Ghost(input0.len() as int), Ghost(tree));
        proof {
            lemma_advanced_trans(input0, before_7, input@);
        }
        let (out_7, offset, children) = match r7 {
            Ok(t) => t,
            Err(a) => {
                return Err(a);
            },
        };
        proof {
            lemma_in_sequence_push(prev_7, views(children@), "tuple"@);
        }
        let ghost before_8 = input@;
        let ghost prev_8 = views(children@);
        let r8 = parse_child(&mut self.8, input, children, offset, "tuple", 8, Ghost(input0.len() as int), Ghost(tree));
        proof {
            lemma_advanced_trans(input0, before_8, input@);
        }
        let (out_8, offset, children) = match r8 {
            Ok(t) => t,
            Err(a) => {
                return Err(a);
            },
        };
        proof {
            lemma_in_sequence_push(prev_8, views(children@), "tuple"@);
        }
        let ghost before_9 = input@;
        let ghost prev_9 = views(children@);
        let r9 = parse_child(&mut self.9, input, children, offset, "tuple", 9, Ghost(input0.len() as int), Ghost(tree));
        proof {
            lemma_advanced_trans(input0, before_9, input@);
        }
        let (out_9, offset, children) = match r9 {
            Ok(t) => t,
            Err(a) => {
                return Err(a);
            },
        };
        proof {
            lemma_in_sequence_push(prev_9, views(children@), "tuple"@);
        }
        let out = (out_0, out_1, out_2, out_3, out_4, out_5, out_6, out_7, out_8, out_9);
        let annotation = Annotation::success("tuple", 0..offset, &out, children);
        proof {
            assert(annotation.view().children == views(children@));
            lemma_identifiers_root(tree);
        }
        Ok((out, annotation))
    }
}

impl<A: Parser, B: Parser, C: Parser, D: Parser, E: Parser, F: Parser, G: Parser, H: Parser, I: Parser> Parser for (A, B, C, D, E, F, G, H, I) {
    type Output = (A::Output, B::Output, C::Output, D::Output, E::Output, F::Output, G::Output, H::Output, I::Output);

    open spec fn spec_name(&self) -> Seq<char> {
        "tuple"@
    }

    open spec fn spec_tree(&self) -> SpecView {
        SpecView { name: "tuple"@, inner: seq![self.0.spec_tree(), self.1.spec_tree(), self.2.spec_tree(), self.3.spec_tree(), self.4.spec_tree(), self.5.spec_tree(), self.6.spec_tree(), self.7.spec_tree(), self.8.spec_tree()], friendly_name: None }
    }

    open spec fn is_pure(&self) -> bool {
        self.0.is_pure() && self.1.is_pure() && self.2.is_pure() && self.3.is_pure() && self.4.is_pure() && self.5.is_pure() && self.6.is_pure() && self.7.is_pure() && self.8.is_pure() && <(A::Output, B::Output, C::Output, D::Output, E::Output, F::Output, G::Output, H::Output, I::Output) as Render>::render_exact()
    }

    open spec fn spec_parse(&self, input: Seq<u8>) -> Outcome<(<A::Output as DeepView>::V, <B::Output as DeepView>::V, <C::Output as DeepView>::V, <D::Output as DeepView>::V, <E::Output as DeepView>::V, <F::Output as DeepView>::V, <G::Output as DeepView>::V, <H::Output as DeepView>::V, <I::Output as DeepView>::V)> {
        match spec_step(self.0.spec_parse(input), 0, 0, seq![], "tuple"@, 0) {
            Step::Stop { consumed, anno } => Outcome::Failed { consumed, anno },
            Step::Next { consumed: c0, offset: o0, value: v0, children: ch0 } =>
            match spec_step(self.1.spec_parse(input.skip(c0)), c0, o0, ch0, "tuple"@, 1) {
                Step::Stop { consumed, anno } => Outcome::Failed { consumed, anno },
                Step::Next { consumed: c1, offset: o1, value: v1, children: ch1 } =>
                match spec_step(self.2.spec_parse(input.skip(c1)), c1, o1, ch1, "tuple"@, 2) {
                    Step::Stop { consumed, anno } => Outcome::Failed { consumed, anno },
                    Step::Next { consumed: c2, offset: o2, value: v2, children: ch2 } =>
                    match spec_step(self.3.spec_parse(input.skip(c2)), c2, o2, ch2, "tuple"@, 3) {
                        Step::Stop { consumed, anno } => Outcome::Failed { consumed, anno },
                        Step::Next { consumed: c3, offset: o3, value: v3, children: ch3 } =>
                        match spec_step(self.4.spec_parse(input.skip(c3)), c3, o3, ch3, "tuple"@, 4) {
                            Step::Stop { consumed, anno } => Outcome::Failed { consumed, anno },
                            Step::Next { consumed: c4, offset: o4, value: v4, children: ch4 } =>
                            match spec_step(self.5.spec_parse(input.skip(c4)), c4, o4, ch4, "tuple"@, 5) {
                                Step::Stop { consumed, anno } => Outcome::Failed { consumed, anno },
                                Step::Next { consumed: c5, offset: o5, value: v5, children: ch5 } =>
                                match spec_step(self.6.spec_parse(input.skip(c5)), c5, o5, ch5, "tuple"@, 6) {
                                    Step::Stop { consumed, anno } => Outcome::Failed { consumed, anno },
                                    Step::Next { consumed: c6, offset: o6, value: v6, children: ch6 } =>
                                    match spec_step(self.7.spec_parse(input.skip(c6)), c6, o6, ch6, "tuple"@, 7) {
                                        Step::Stop { consumed, anno } => Outcome::Failed { consumed, anno },
                                        Step::Next { consumed: c7, offset: o7, value: v7, children: ch7 } =>
                                        match spec_step(self.8.spec_parse(input.skip(c7)), c7, o7, ch7, "tuple"@, 8) {
                                            Step::Stop { consumed, anno } => Outcome::Failed { consumed, anno },
                                            Step::Next { consumed: c8, offset: o8, value: v8, children: ch8 } =>
                                            Outcome::Parsed {
                                                consumed: c8,
                                                value: (v0, v1, v2, v3, v4, v5, v6, v7, v8),
                                                anno: AnnoView {
                                                    id: "tuple"@,
                                                    children: ch8,
                                                    result: ResultView::Success { start: 0, end: o8, value: <(A::Output, B::Output, C::Output, D::Output, E::Output, F::Output, G::Output, H::Output, I::Output) as Render>::spec_render((v0, v1, v2, v3, v4, v5, v6, v7, v8)) },
                                                },
                                            },
                                        }
                                    }
                                }
                            }
                        }
                    }
                }
            }
        }
    }

    fn name(&self) -> (r: String) {
        "tuple".to_owned()
    }

    fn spec(&self) -> (r: ParserSpec) {
        let mut inner = Vec::new();
        inner.push(self.0.spec());
        inner.push(self.1.spec());
        inner.push(self.2.spec());
        inner.push(self.3.spec());
        inner.push(self.4.spec());
        inner.push(self.5.spec());
        inner.push(self.6.spec());
        inner.push(self.7.spec());
        inner.push(self.8.spec());
        let r = ParserSpec { name: "tuple".to_owned(), inner, friendly_name: None };
        assert(r.view().inner =~= seq![self.0.spec_tree(), self.1.spec_tree(), self.2.spec_tree(), self.3.spec_tree(), self.4.spec_tree(), self.5.spec_tree(), self.6.spec_tree(), self.7.spec_tree(), self.8.spec_tree()]);
        r
    }

    /// The children run one after another: child `k` is the annotation of parser `k`, starting
    /// where the one before it ended, and the tuple's span ends where the last one's does.
    #[verifier::rlimit(60)]
    #[verifier::spinoff_prover]
    fn parse(&mut self, input: &mut &[u8]) -> (res: Result<(A::Output, B::Output, C::Output, D::Output, E::Output, F::Output, G::Output, H::Output, I::Output)>)
        ensures
            res matches Ok((_, a)) ==> {
                &&& a.view().children.len() == 9
                &&& in_sequence(a.view().children, "tuple"@)
                &&& span_end(a.view().result) == span_end(a.view().children.last().result)
            },
    {
        let ghost input0 = old(input)@;
        let total = input.len();
        proof {
            assert(views(Seq::<Annotation>::empty()) =~= Seq::<AnnoView>::empty());
            lemma_advanced_refl(input0);
        }
        let children: Vec<Annotation> = Vec::new();
        let offset: usize = 0;
        let ghost tree = self.spec_tree();
        proof {
            assert(in_sequence(views(children@), "tuple"@));
        }
        let ghost before_0 = input@;
        let ghost prev_0 = views(children@);
        let r0 = parse_child(&mut self.0, input, children, offset, "tuple", 0, Ghost(input0.len() as int), Ghost(tree));
        proof {
            lemma_advanced_trans(input0, before_0, input@);
        }
        let (out_0, offset, children) = match r0 {
            Ok(t) => t,
            Err(a) => {
                return Err(a);
            },
        };
        proof {
            lemma_in_sequence_push(prev_0, views(children@), "tuple"@);
        }
        let ghost before_1 = input@;
        let ghost prev_1 = views(children@);
        let r1 = parse_child(&mut self.1, input, children, offset, "tuple", 1, Ghost(input0.len() as int), Ghost(tree));
        proof {
            lemma_advanced_trans(input0, before_1, input@);
        }
        let (out_1, offset, children) = match r1 {
            Ok(t) => t,
            Err(a) => {
                return Err(a);
            },
        };
        proof {
            lemma_in_sequence_push(prev_1, views(children@), "tuple"@);
        }
        let ghost before_2 = input@;
        let ghost prev_2 = views(children@);
        let r2 = parse_child(&mut self.2, input, children, offset, "tuple", 2, Ghost(input0.len() as int), Ghost(tree));
        proof {
            lemma_advanced_trans(input0, before_2, input@);
        }
        let (out_2, offset, children) = match r2 {
            Ok(t) => t,
            Err(a) => {
                return Err(a);
            },
        };
        proof {
            lemma_in_sequence_push(prev_2, views(children@), "tuple"@);
        }
        let ghost before_3 = input@;
        let ghost prev_3 = views(children@);
        let r3 = parse_child(&mut self.3, input, children, offset, "tuple", 3, Ghost(input0.len() as int), Ghost(tree));
        proof {
            lemma_advanced_trans(input0, before_3, input@);
        }
        let (out_3, offset, children) = match r3 {
            Ok(t) => t,
            Err(a) => {
                return Err(a);
            },
        };
        proof {
            lemma_in_sequence_push(prev_3, views(children@), "tuple"@);
        }
        let ghost before_4 = input@;
        let ghost prev_4 = views(children@);
        let r4 = parse_child(&mut self.4, input, children, offset, "tuple", 4, Ghost(input0.len() as int), Ghost(tree));
        proof {
            lemma_advanced_trans(input0, before_4, input@);
        }
        let (out_4, offset, children) = match r4 {
            Ok(t) => t,
            Err(a) => {
                return Err(a);
            },
        };
        proof {
            lemma_in_sequence_push(prev_4, views(children@), "tuple"@);
        }
        let ghost before_5 = input@;
        let ghost prev_5 = views(children@);
        let r5 = parse_child(&mut self.5, input, children, offset, "tuple", 5, Ghost(input0.len() as int), Ghost(tree));
        proof {
            lemma_advanced_trans(input0, before_5, input@);
        }
        let (out_5, offset, children) = match r5 {
            Ok(t) => t,
            Err(a) => {
                return Err(a);
            },
        };
        proof {
            lemma_in_sequence_push(prev_5, views(children@), "tuple"@);
        }
        let ghost before_6 = input@;
        let ghost prev_6 = views(children@);
        let r6 = parse_child(&mut self.6, input, children, offset, "tuple", 6, Ghost(input0.len() as int), Ghost(tree));
        proof {
            lemma_advanced_trans(input0, before_6, input@);
        }
        let (out_6, offset, children) = match r6 {
            Ok(t) => t,
            Err(a) => {
                return Err(a);
            },
        };
        proof {
            lemma_in_sequence_push(prev_6, views(children@), "tuple"@);
        }
        let ghost before_7 = input@;
        let ghost prev_7 = views(children@);
        let r7 = parse_child(&mut self.7, input, children, offset, "tuple", 7, Ghost(input0.len() as int), Ghost(tree));
        proof {
            lemma_advanced_trans(input0, before_7, input@);
        }
        let (out_7, offset, children) = match r7 {
            Ok(t) => t,
            Err(a) => {
                return Err(a);
            },
        };
        proof {
            lemma_in_sequence_push(prev_7, views(children@), "tuple"@);
        }
        let ghost before_8 = input@;
        let ghost prev_8 = views(children@);
        let r8 = parse_child(&mut self.8, input, children, offset, "tuple", 8, Ghost(input0.len() as int), Ghost(tree));
        proof {
            lemma_advanced_trans(input0, before_8, input@);
        }
        let (out_8, offset, children) = match r8 {
            Ok(t) => t,
            Err(a) => {
                return Err(a);
            },
        };
        proof {
            lemma_in_sequence_push(prev_8, views(children@), "tuple"@);
        }
        let out = (out_0, out_1, out_2, out_3, out_4, out_5, out_6, out_7, out_8);
        let annotation = Annotation::success("tuple", 0..offset, &out, children);
        proof {
            assert(annotation.view().children == views(children@));
            lemma_identifiers_root(tree);
        }
        Ok((out, annotation))
    }
}

impl<A: Parser, B: Parser, C: Parser, D: Parser, E: Parser, F: Parser, G: Parser, H: Parser> Parser for (A, B, C, D, E, F, G, H) {
    type Output = (A::Output, B::Output, C::Output, D::Output, E::Output, F::Output, G::Output, H::Output);

    open spec fn spec_name(&self) -> Seq<char> {
        "tuple"@
    }

    open spec fn spec_tree(&self) -> SpecView {
        SpecView { name: "tuple"@, inner: seq![self.0.spec_tree(), self.1.spec_tree(), self.2.spec_tree(), self.3.spec_tree(), self.4.spec_tree(), self.5.spec_tree(), self.6.spec_tree(), self.7.spec_tree()], friendly_name: None }
    }

    open spec fn is_pure(&self) -> bool {
        self.0.is_pure() && self.1.is_pure() && self.2.is_pure() && self.3.is_pure() && self.4.is_pure() && self.5.is_pure() && self.6.is_pure() && self.7.is_pure() && <(A::Output, B::Output, C::Output, D::Output, E::Output, F::Output, G::Output, H::Output) as Render>::render_exact()
    }

    open spec fn spec_parse(&self, input: Seq<u8>) -> Outcome<(<A::Output as DeepView>::V, <B::Output as DeepView>::V, <C::Output as DeepView>::V, <D::Output as DeepView>::V, <E::Output as DeepView>::V, <F::Output as DeepView>::V, <G::Output as DeepView>::V, <H::Output as DeepView>::V)> {
        match spec_step(self.0.spec_parse(input), 0, 0, seq![], "tuple"@, 0) {
            Step::Stop { consumed, anno } => Outcome::Failed { consumed, anno },
            Step::Next { consumed: c0, offset: o0, value: v0, children: ch0 } =>
            match spec_step(self.1.spec_parse(input.skip(c0)), c0, o0, ch0, "tuple"@, 1) {
                Step::Stop { consumed, anno } => Outcome::Failed { consumed, anno },
                Step::Next { consumed: c1, offset: o1, value: v1, children: ch1 } =>
                match spec_step(self.2.spec_parse(input.skip(c1)), c1, o1, ch1, "tuple"@, 2) {
                    Step::Stop { consumed, anno } => Outcome::Failed { consumed, anno },
                    Step::Next { consumed: c2, offset: o2, value: v2, children: ch2 } =>
                    match spec_step(self.3.spec_parse(input.skip(c2)), c2, o2, ch2, "tuple"@, 3) {
                        Step::Stop { consumed, anno } => Outcome::Failed { consumed, anno },
                        Step::Next { consumed: c3, offset: o3, value: v3, children: ch3 } =>
                        match spec_step(self.4.spec_parse(input.skip(c3)), c3, o3, ch3, "tuple"@, 4) {
                            Step::Stop { consumed, anno } => Outcome::Failed { consumed, anno },
                            Step::Next { consumed: c4, offset: o4, value: v4, children: ch4 } =>
                            match spec_step(self.5.spec_parse(input.skip(c4)), c4, o4, ch4, "tuple"@, 5) {
                                Step::Stop { consumed, anno } => Outcome::Failed { consumed, anno },
                                Step::Next { consumed: c5, offset: o5, value: v5, children: ch5 } =>
                                match spec_step(self.6.spec_parse(input.skip(c5)), c5, o5, ch5, "tuple"@, 6) {
                                    Step::Stop { consumed, anno } => Outcome::Failed { consumed, anno },
                                    Step::Next { consumed: c6, offset: o6, value: v6, children: ch6 } =>
                                    match spec_step(self.7.spec_parse(input.skip(c6)), c6, o6, ch6, "tuple"@, 7) {
                                        Step::Stop { consumed, anno } => Outcome::Failed { consumed, anno },
                                        Step::Next { consumed: c7, offset: o7, value: v7, children: ch7 } =>
                                        Outcome::Parsed {
                                            consumed: c7,
                                            value: (v0, v1, v2, v3, v4, v5, v6, v7),
                                            anno: AnnoView {
                                                id: "tuple"@,
                                                children: ch7,
                                                result: ResultView::Success { start: 0, end: o7, value: <(A::Output, B::Output, C::Output, D::Output, E::Output, F::Output, G::Output, H::Output) as Render>::spec_render((v0, v1, v2, v3, v4, v5, v6, v7)) },
                                            },
                                        },
                                    }
                                }
                            }
                        }
                    }
                }
            }
        }
    }

    fn name(&self) -> (r: String) {
        "tuple".to_owned()
    }

    fn spec(&self) -> (r: ParserSpec) {
        let mut inner = Vec::new();
        inner.push(self.0.spec());
        inner.push(self.1.spec());
        inner.push(self.2.spec());
        inner.push(self.3.spec());
        inner.push(self.4.spec());
        inner.push(self.5.spec());
        inner.push(self.6.spec());
        inner.push(self.7.spec());
        let r = ParserSpec { name: "tuple".to_owned(), inner, friendly_name: None };
        assert(r.view().inner =~= seq![self.0.spec_tree(), self.1.spec_tree(), self.2.spec_tree(), self.3.spec_tree(), self.4.spec_tree(), self.5.spec_tree(), self.6.spec_tree(), self.7.spec_tree()]);
        r
    }

    /// The children run one after another: child `k` is the annotation of parser `k`, starting
    /// where the one before it ended, and the tuple's span ends where the last one's does.
    #[verifier::rlimit(60)]
    #[verifier::spinoff_prover]
    fn parse(&mut self, input: &mut &[u8]) -> (res: Result<(A::Output, B::Output, C::Output, D::Output, E::Output, F::Output, G::Output, H::Output)>)
        ensures
            res matches Ok((_, a)) ==> {
                &&& a.view().children.len() == 8
                &&& in_sequence(a.view().children, "tuple"@)
                &&& span_end(a.view().result) == span_end(a.view().children.last().result)
            },
    {
        let ghost input0 = old(input)@;
        let total = input.len();
        proof {
            assert(views(Seq::<Annotation>::empty()) =~= Seq::<AnnoView>::empty());
            lemma_advanced_refl(input0);
        }
        let children: Vec<Annotation> = Vec::new();
        let offset: usize = 0;
        let ghost tree = self.spec_tree();
        proof {
            assert(in_sequence(views(children@), "tuple"@));
        }
        let ghost before_0 = input@;
        let ghost prev_0 = views(children@);
        let r0 = parse_child(&mut self.0, input, children, offset, "tuple", 0, Ghost(input0.len() as int), Ghost(tree));
        proof {
            lemma_advanced_trans(input0, before_0, input@);
        }
        let (out_0, offset, children) = match r0 {
            Ok(t) => t,
            Err(a) => {
                return Err(a);
            },
        };
        proof {
            lemma_in_sequence_push(prev_0, views(children@), "tuple"@);
        }
        let ghost before_1 = input@;
        let ghost prev_1 = views(children@);
        let r1 = parse_child(&mut self.1, input, children, offset, "tuple", 1, Ghost(input0.len() as int), Ghost(tree));
        proof {
            lemma_advanced_trans(input0, before_1, input@);
        }
        let (out_1, offset, children) = match r1 {
            Ok(t) => t,
            Err(a) => {
                return Err(a);
            },
        };
        proof {
            lemma_in_sequence_push(prev_1, views(children@), "tuple"@);
        }
        let ghost before_2 = input@;
        let ghost prev_2 = views(children@);
        let r2 = parse_child(&mut self.2, input, children, offset, "tuple", 2, Ghost(input0.len() as int), Ghost(tree));
        proof {
            lemma_advanced_trans(input0, before_2, input@);
        }
        let (out_2, offset, children) = match r2 {
            Ok(t) => t,
            Err(a) => {
                return Err(a);
            },
        };
        proof {
            lemma_in_sequence_push(prev_2, views(children@), "tuple"@);
        }
        let ghost before_3 = input@;
        let ghost prev_3 = views(children@);
        let r3 = parse_child(&mut self.3, input, children, offset, "tuple", 3, Ghost(input0.len() as int), Ghost(tree));
        proof {
            lemma_advanced_trans(input0, before_3, input@);
        }
        let (out_3, offset, children) = match r3 {
            Ok(t) => t,
            Err(a) => {
                return Err(a);
            },
        };
        proof {
            lemma_in_sequence_push(prev_3, views(children@), "tuple"@);
        }
        let ghost before_4 = input@;
        let ghost prev_4 = views(children@);
        let r4 = parse_child(&mut self.4, input, children, offset, "tuple", 4, Ghost(input0.len() as int), Ghost(tree));
        proof {
            lemma_advanced_trans(input0, before_4, input@);
        }
        let (out_4, offset, children) = match r4 {
            Ok(t) => t,
            Err(a) => {
                return Err(a);
            },
        };
        proof {
            lemma_in_sequence_push(prev_4, views(children@), "tuple"@);
        }
        let ghost before_5 = input@;
        let ghost prev_5 = views(children@);
        let r5 = parse_child(&mut self.5, input, children, offset, "tuple", 5, Ghost(input0.len() as int), Ghost(tree));
        proof {
            lemma_advanced_trans(input0, before_5, input@);
        }
        let (out_5, offset, children) = match r5 {
            Ok(t) => t,
            Err(a) => {
                return Err(a);
            },
        };
        proof {
            lemma_in_sequence_push(prev_5, views(children@), "tuple"@);
        }
        let ghost before_6 = input@;
        let ghost prev_6 = views(children@);
        let r6 = parse_child(&mut self.6, input, children, offset, "tuple", 6, Ghost(input0.len() as int), Ghost(tree));
        proof {
            lemma_advanced_trans(input0, before_6, input@);
        }
        let (out_6, offset, children) = match r6 {
            Ok(t) => t,
            Err(a) => {
                return Err(a);
            },
        };
        proof {
            lemma_in_sequence_push(prev_6, views(children@), "tuple"@);
        }
        let ghost before_7 = input@;
        let ghost prev_7 = views(children@);
        let r7 = parse_child(&mut self.7, input, children, offset, "tuple", 7, Ghost(input0.len() as int), Ghost(tree));
        proof {
            lemma_advanced_trans(input0, before_7, input@);
        }
        let (out_7, offset, children) = match r7 {
            Ok(t) => t,
            Err(a) => {
                return Err(a);
            },
        };
        proof {
            lemma_in_sequence_push(prev_7, views(children@), "tuple"@);
        }
        let out = (out_0, out_1, out_2, out_3, out_4, out_5, out_6, out_7);
        let annotation = Annotation::success("tuple", 0..offset, &out, children);
        proof {
            assert(annotation.view().children == views(children@));
            lemma_identifiers_root(tree);
        }
        Ok((out, annotation))
    }
}

impl<A: Parser, B: Parser, C: Parser, D: Parser, E: Parser, F: Parser, G: Parser> Parser for (A, B, C, D, E, F, G) {
    type Output = (A::Output, B::Output, C::Output, D::Output, E::Output, F::Output, G::Output);

    open spec fn spec_name(&self) -> Seq<char> {
        "tuple"@
    }

    open spec fn spec_tree(&self) -> SpecView {
        SpecView { name: "tuple"@, inner: seq![self.0.spec_tree(), self.1.spec_tree(), self.2.spec_tree(), self.3.spec_tree(), self.4.spec_tree(), self.5.spec_tree(), self.6.spec_tree()], friendly_name: None }
    }

    open spec fn is_pure(&self) -> bool {
        self.0.is_pure() && self.1.is_pure() && self.2.is_pure() && self.3.is_pure() && self.4.is_pure() && self.5.is_pure() && self.6.is_pure() && <(A::Output, B::Output, C::Output, D::Output, E::Output, F::Output, G::Output) as Render>::render_exact()
    }

    open spec fn spec_parse(&self, input: Seq<u8>) -> Outcome<(<A::Output as DeepView>::V, <B::Output as DeepView>::V, <C::Output as DeepView>::V, <D::Output as DeepView>::V, <E::Output as DeepView>::V, <F::Output as DeepView>::V, <G::Output as DeepView>::V)> {
        match spec_step(self.0.spec_parse(input), 0, 0, seq![], "tuple"@, 0) {
            Step::Stop { consumed, anno } => Outcome::Failed { consumed, anno },
            Step::Next { consumed: c0, offset: o0, value: v0, children: ch0 } =>
            match spec_step(self.1.spec_parse(input.skip(c0)), c0, o0, ch0, "tuple"@, 1) {
                Step::Stop { consumed, anno } => Outcome::Failed { consumed, anno },
                Step::Next { consumed: c1, offset: o1, value: v1, children: ch1 } =>
                match spec_step(self.2.spec_parse(input.skip(c1)), c1, o1, ch1, "tuple"@, 2) {
                    Step::Stop { consumed, anno } => Outcome::Failed { consumed, anno },
                    Step::Next { consumed: c2, offset: o2, value: v2, children: ch2 } =>
                    match spec_step(self.3.spec_parse(input.skip(c2)), c2, o2, ch2, "tuple"@, 3) {
                        Step::Stop { consumed, anno } => Outcome::Failed { consumed, anno },
                        Step::Next { consumed: c3, offset: o3, value: v3, children: ch3 } =>
                        match spec_step(self.4.spec_parse(input.skip(c3)), c3, o3, ch3, "tuple"@, 4) {
                            Step::Stop { consumed, anno } => Outcome::Failed { consumed, anno },
                            Step::Next { consumed: c4, offset: o4, value: v4, children: ch4 } =>
                            match spec_step(self.5.spec_parse(input.skip(c4)), c4, o4, ch4, "tuple"@, 5) {
                                Step::Stop { consumed, anno } => Outcome::Failed { consumed, anno },
                                Step::Next { consumed: c5, offset: o5, value: v5, children: ch5 } =>
                                match spec_step(self.6.spec_parse(input.skip(c5)), c5, o5, ch5, "tuple"@, 6) {
                                    Step::Stop { consumed, anno } => Outcome::Failed { consumed, anno },
                                    Step::Next { consumed: c6, offset: o6, value: v6, children: ch6 } =>
                                    Outcome::Parsed {
                                        consumed: c6,
                                        value: (v0, v1, v2, v3, v4, v5, v6),
                                        anno: AnnoView {
                                            id: "tuple"@,
                                            children: ch6,
                                            result: ResultView::Success { start: 0, end: o6, value: <(A::Output, B::Output, C::Output, D::Output, E::Output, F::Output, G::Output) as Render>::spec_render((v0, v1, v2, v3, v4, v5, v6)) },
                                        },
                                    },
                                }
                            }
                        }
                    }
                }
            }
        }
    }

    fn name(&self) -> (r: String) {
        "tuple".to_owned()
    }

    fn spec(&self) -> (r: ParserSpec) {
        let mut inner = Vec::new();
        inner.push(self.0.spec());
        inner.push(self.1.spec());
        inner.push(self.2.spec());
        inner.push(self.3.spec());
        inner.push(self.4.spec());
        inner.push(self.5.spec());
        inner.push(self.6.spec());
        let r = ParserSpec { name: "tuple".to_owned(), inner, friendly_name: None };
        assert(r.view().inner =~= seq![self.0.spec_tree(), self.1.spec_tree(), self.2.spec_tree(), self.3.spec_tree(), self.4.spec_tree(), self.5.spec_tree(), self.6.spec_tree()]);
        r
    }

    /// The children run one after another: child `k` is the annotation of parser `k`, starting
    /// where the one before it ended, and the tuple's span ends where the last one's does.
    #[verifier::rlimit(60)]
    #[verifier::spinoff_prover]
    fn parse(&mut self, input: &mut &[u8]) -> (res: Result<(A::Output, B::Output, C::Output, D::Output, E::Output, F::Output, G::Output)>)
        ensures
            res matches Ok((_, a)) ==> {
                &&& a.view().children.len() == 7
                &&& in_sequence(a.view().children, "tuple"@)
                &&& span_end(a.view().result) == span_end(a.view().children.last().result)
            },
    {
        let ghost input0 = old(input)@;
        let total = input.len();
        proof {
            assert(views(Seq::<Annotation>::empty()) =~= Seq::<AnnoView>::empty());
            lemma_advanced_refl(input0);
        }
        let children: Vec<Annotation> = Vec::new();
        let offset: usize = 0;
        let ghost tree = self.spec_tree();
        proof {
            assert(in_sequence(views(children@), "tuple"@));
        }
        let ghost before_0 = input@;
        let ghost prev_0 = views(children@);
        let r0 = parse_child(&mut self.0, input, children, offset, "tuple", 0, Ghost(input0.len() as int), Ghost(tree));
        proof {
            lemma_advanced_trans(input0, before_0, input@);
        }
        let (out_0, offset, children) = match r0 {
            Ok(t) => t,
            Err(a) => {
                return Err(a);
            },
        };
        proof {
            lemma_in_sequence_push(prev_0, views(children@), "tuple"@);
        }
        let ghost before_1 = input@;
        let ghost prev_1 = views(children@);
        let r1 = parse_child(&mut self.1, input, children, offset, "tuple", 1, Ghost(input0.len() as int), Ghost(tree));
        proof {
            lemma_advanced_trans(input0, before_1, input@);
        }
        let (out_1, offset, children) = match r1 {
            Ok(t) => t,
            Err(a) => {
                return Err(a);
            },
        };
        proof {
            lemma_in_sequence_push(prev_1, views(children@), "tuple"@);
        }
        let ghost before_2 = input@;
        let ghost prev_2 = views(children@);
        let r2 = parse_child(&mut self.2, input, children, offset, "tuple", 2, Ghost(input0.len() as int), Ghost(tree));
        proof {
            lemma_advanced_trans(input0, before_2, input@);
        }
        let (out_2, offset, children) = match r2 {
            Ok(t) => t,
            Err(a) => {
                return Err(a);
            },
        };
        proof {
            lemma_in_sequence_push(prev_2, views(children@), "tuple"@);
        }
        let ghost before_3 = input@;
        let ghost prev_3 = views(children@);
        let r3 = parse_child(&mut self.3, input, children, offset, "tuple", 3, Ghost(input0.len() as int), Ghost(tree));
        proof {
            lemma_advanced_trans(input0, before_3, input@);
        }
        let (out_3, offset, children) = match r3 {
            Ok(t) => t,
            Err(a) => {
                return Err(a);
            },
        };
        proof {
            lemma_in_sequence_push(prev_3, views(children@), "tuple"@);
        }
        let ghost before_4 = input@;
        let ghost prev_4 = views(children@);
        let r4 = parse_child(&mut self.4, input, children, offset, "tuple", 4, Ghost(input0.len() as int), Ghost(tree));
        proof {
            lemma_advanced_trans(input0, before_4, input@);
        }
        let (out_4, offset, children) = match r4 {
            Ok(t) => t,
            Err(a) => {
                return Err(a);
            },
        };
        proof {
            lemma_in_sequence_push(prev_4, views(children@), "tuple"@);
        }
        let ghost before_5 = input@;
        let ghost prev_5 = views(children@);
        let r5 = parse_child(&mut self.5, input, children, offset, "tuple", 5, Ghost(input0.len() as int), Ghost(tree));
        proof {
            lemma_advanced_trans(input0, before_5, input@);
        }
        let (out_5, offset, children) = match r5 {
            Ok(t) => t,
            Err(a) => {
                return Err(a);
            },
        };
        proof {
            lemma_in_sequence_push(prev_5, views(children@), "tuple"@);
        }
        let ghost before_6 = input@;
        let ghost prev_6 = views(children@);
        let r6 = parse_child(&mut self.6, input, children, offset, "tuple", 6, Ghost(input0.len() as int), Ghost(tree));
        proof {
            lemma_advanced_trans(input0, before_6, input@);
        }
        let (out_6, offset, children) = match r6 {
            Ok(t) => t,
            Err(a) => {
                return Err(a);
            },
        };
        proof {
            lemma_in_sequence_push(prev_6, views(children@), "tuple"@);
        }
        let out = (out_0, out_1, out_2, out_3, out_4, out_5, out_6);
        let annotation = Annotation::success("tuple", 0..offset, &out, children);
        proof {
            assert(annotation.view().children == views(children@));
            lemma_identifiers_root(tree);
        }
        Ok((out, annotation))
    }
}

impl<A: Parser, B: Parser, C: Parser, D: Parser, E: Parser, F: Parser> Parser for (A, B, C, D, E, F) {
    type Output = (A::Output, B::Output, C::Output, D::Output, E::Output, F::Output);

    open spec fn spec_name(&self) -> Seq<char> {
        "tuple"@
    }

    open spec fn spec_tree(&self) -> SpecView {
        SpecView { name: "tuple"@, inner: seq![self.0.spec_tree(), self.1.spec_tree(), self.2.spec_tree(), self.3.spec_tree(), self.4.spec_tree(), self.5.spec_tree()], friendly_name: None }
    }

    open spec fn is_pure(&self) -> bool {
        self.0.is_pure() && self.1.is_pure() && self.2.is_pure() && self.3.is_pure() && self.4.is_pure() && self.5.is_pure() && <(A::Output, B::Output, C::Output, D::Output, E::Output, F::Output) as Render>::render_exact()
    }

    open spec fn spec_parse(&self, input: Seq<u8>) -> Outcome<(<A::Output as DeepView>::V, <B::Output as DeepView>::V, <C::Output as DeepView>::V, <D::Output as DeepView>::V, <E::Output as DeepView>::V, <F::Output as DeepView>::V)> {
        match spec_step(self.0.spec_parse(input), 0, 0, seq![], "tuple"@, 0) {
            Step::Stop { consumed, anno } => Outcome::Failed { consumed, anno },
            Step::Next { consumed: c0, offset: o0, value: v0, children: ch0 } =>
            match spec_step(self.1.spec_parse(input.skip(c0)), c0, o0, ch0, "tuple"@, 1) {
                Step::Stop { consumed, anno } => Outcome::Failed { consumed, anno },
                Step::Next { consumed: c1, offset: o1, value: v1, children: ch1 } =>
                match spec_step(self.2.spec_parse(input.skip(c1)), c1, o1, ch1, "tuple"@, 2) {
                    Step::Stop { consumed, anno } => Outcome::Failed { consumed, anno },
                    Step::Next { consumed: c2, offset: o2, value: v2, children: ch2 } =>
                    match spec_step(self.3.spec_parse(input.skip(c2)), c2, o2, ch2, "tuple"@, 3) {
                        Step::Stop { consumed, anno } => Outcome::Failed { consumed, anno },
                        Step::Next { consumed: c3, offset: o3, value: v3, children: ch3 } =>
                        match spec_step(self.4.spec_parse(input.skip(c3)), c3, o3, ch3, "tuple"@, 4) {
                            Step::Stop { consumed, anno } => Outcome::Failed { consumed, anno },
                            Step::Next { consumed: c4, offset: o4, value: v4, children: ch4 } =>
                            match spec_step(self.5.spec_parse(input.skip(c4)), c4, o4, ch4, "tuple"@, 5) {
                                Step::Stop { consumed, anno } => Outcome::Failed { consumed, anno },
                                Step::Next { consumed: c5, offset: o5, value: v5, children: ch5 } =>
                                Outcome::Parsed {
                                    consumed: c5,
                                    value: (v0, v1, v2, v3, v4, v5),
                                    anno: AnnoView {
                                        id: "tuple"@,
                                        children: ch5,
                                        result: ResultView::Success { start: 0, end: o5, value: <(A::Output, B::Output, C::Output, D::Output, E::Output, F::Output) as Render>::spec_render((v0, v1, v2, v3, v4, v5)) },
                                    },
                                },
                            }
                        }
                    }
                }
            }
        }
    }

    fn name(&self) -> (r: String) {
        "tuple".to_owned()
    }

    fn spec(&self) -> (r: ParserSpec) {
        let mut inner = Vec::new();
        inner.push(self.0.spec());
        inner.push(self.1.spec());
        inner.push(self.2.spec());
        inner.push(self.3.spec());
        inner.push(self.4.spec());
        inner.push(self.5.spec());
        let r = ParserSpec { name: "tuple".to_owned(), inner, friendly_name: None };
        assert(r.view().inner =~= seq![self.0.spec_tree(), self.1.spec_tree(), self.2.spec_tree(), self.3.spec_tree(), self.4.spec_tree(), self.5.spec_tree()]);
        r
    }

    /// The children run one after another: child `k` is the annotation of parser `k`, starting
    /// where the one before it ended, and the tuple's span ends where the last one's does.
    #[verifier::rlimit(60)]
    #[verifier::spinoff_prover]
    fn parse(&mut self, input: &mut &[u8]) -> (res: Result<(A::Output, B::Output, C::Output, D::Output, E::Output, F::Output)>)
        ensures
            res matches Ok((_, a)) ==> {
                &&& a.view().children.len() == 6
                &&& in_sequence(a.view().children, "tuple"@)
                &&& span_end(a.view().result) == span_end(a.view().children.last().result)
            },
    {
        let ghost input0 = old(input)@;
        let total = input.len();
        proof {
            assert(views(Seq::<Annotation>::empty()) =~= Seq::<AnnoView>::empty());
            lemma_advanced_refl(input0);
        }
        let children: Vec<Annotation> = Vec::new();
        let offset: usize = 0;
        let ghost tree = self.spec_tree();
        proof {
            assert(in_sequence(views(children@), "tuple"@));
        }
        let ghost before_0 = input@;
        let ghost prev_0 = views(children@);
        let r0 = parse_child(&mut self.0, input, children, offset, "tuple", 0, Ghost(input0.len() as int), Ghost(tree));
        proof {
            lemma_advanced_trans(input0, before_0, input@);
        }
        let (out_0, offset, children) = match r0 {
            Ok(t) => t,
            Err(a) => {
                return Err(a);
            },
        };
        proof {
            lemma_in_sequence_push(prev_0, views(children@), "tuple"@);
        }
        let ghost before_1 = input@;
        let ghost prev_1 = views(children@);
        let r1 = parse_child(&mut self.1, input, children, offset, "tuple", 1, Ghost(input0.len() as int), Ghost(tree));
        proof {
            lemma_advanced_trans(input0, before_1, input@);
        }
        let (out_1, offset, children) = match r1 {
            Ok(t) => t,
            Err(a) => {
                return Err(a);
            },
        };
        proof {
            lemma_in_sequence_push(prev_1, views(children@), "tuple"@);
        }
        let ghost before_2 = input@;
        let ghost prev_2 = views(children@);
        let r2 = parse_child(&mut self.2, input, children, offset, "tuple", 2, Ghost(input0.len() as int), Ghost(tree));
        proof {
            lemma_advanced_trans(input0, before_2, input@);
        }
        let (out_2, offset, children) = match r2 {
            Ok(t) => t,
            Err(a) => {
                return Err(a);
            },
        };
        proof {
            lemma_in_sequence_push(prev_2, views(children@), "tuple"@);
        }
        let ghost before_3 = input@;
        let ghost prev_3 = views(children@);
        let r3 = parse_child(&mut self.3, input, children, offset, "tuple", 3, Ghost(input0.len() as int), Ghost(tree));
        proof {
            lemma_advanced_trans(input0, before_3, input@);
        }
        let (out_3, offset, children) = match r3 {
            Ok(t) => t,
            Err(a) => {
                return Err(a);
            },
        };
        proof {
            lemma_in_sequence_push(prev_3, views(children@), "tuple"@);
        }
        let ghost before_4 = input@;
        let ghost prev_4 = views(children@);
        let r4 = parse_child(&mut self.4, input, children, offset, "tuple", 4, Ghost(input0.len() as int), Ghost(tree));
        proof {
            lemma_advanced_trans(input0, before_4, input@);
        }
        let (out_4, offset, children) = match r4 {
            Ok(t) => t,
            Err(a) => {
                return Err(a);
            },
        };
        proof {
            lemma_in_sequence_push(prev_4, views(children@), "tuple"@);
        }
        let ghost before_5 = input@;
        let ghost prev_5 = views(children@);
        let r5 = parse_child(&mut self.5, input, children, offset, "tuple", 5, Ghost(input0.len() as int), Ghost(tree));
        proof {
            lemma_advanced_trans(input0, before_5, input@);
        }
        let (out_5, offset, children) = match r5 {
            Ok(t) => t,
            Err(a) => {
                return Err(a);
            },
        };
        proof {
            lemma_in_sequence_push(prev_5, views(children@), "tuple"@);
        }
        let out = (out_0, out_1, out_2, out_3, out_4, out_5);
        let annotation = Annotation::success("tuple", 0..offset, &out, children);
        proof {
            assert(annotation.view().children == views(children@));
            lemma_identifiers_root(tree);
        }
        Ok((out, annotation))
    }
}

impl<A: Parser, B: Parser, C: Parser, D: Parser, E: Parser> Parser for (A, B, C, D, E) {
    type Output = (A::Output, B::Output, C::Output, D::Output, E::Output);

    open spec fn spec_name(&self) -> Seq<char> {
        "tuple"@
    }

    open spec fn spec_tree(&self) -> SpecView {
        SpecView { name: "tuple"@, inner: seq![self.0.spec_tree(), self.1.spec_tree(), self.2.spec_tree(), self.3.spec_tree(), self.4.spec_tree()], friendly_name: None }
    }

    open spec fn is_pure(&self) -> bool {
        self.0.is_pure() && self.1.is_pure() && self.2.is_pure() && self.3.is_pure() && self.4.is_pure() && <(A::Output, B::Output, C::Output, D::Output, E::Output) as Render>::render_exact()
    }

    open spec fn spec_parse(&self, input: Seq<u8>) -> Outcome<(<A::Output as DeepView>::V, <B::Output as DeepView>::V, <C::Output as DeepView>::V, <D::Output as DeepView>::V, <E::Output as DeepView>::V)> {
        match spec_step(self.0.spec_parse(input), 0, 0, seq![], "tuple"@, 0) {
            Step::Stop { consumed, anno } => Outcome::Failed { consumed, anno },
            Step::Next { consumed: c0, offset: o0, value: v0, children: ch0 } =>
            match spec_step(self.1.spec_parse(input.skip(c0)), c0, o0, ch0, "tuple"@, 1) {
                Step::Stop { consumed, anno } => Outcome::Failed { consumed, anno },
                Step::Next { consumed: c1, offset: o1, value: v1, children: ch1 } =>
                match spec_step(self.2.spec_parse(input.skip(c1)), c1, o1, ch1, "tuple"@, 2) {
                    Step::Stop { consumed, anno } => Outcome::Failed { consumed, anno },
                    Step::Next { consumed: c2, offset: o2, value: v2, children: ch2 } =>
                    match spec_step(self.3.spec_parse(input.skip(c2)), c2, o2, ch2, "tuple"@, 3) {
                        Step::Stop { consumed, anno } => Outcome::Failed { consumed, anno },
                        Step::Next { consumed: c3, offset: o3, value: v3, children: ch3 } =>
                        match spec_step(self.4.spec_parse(input.skip(c3)), c3, o3, ch3, "tuple"@, 4) {
                            Step::Stop { consumed, anno } => Outcome::Failed { consumed, anno },
                            Step::Next { consumed: c4, offset: o4, value: v4, children: ch4 } =>
                            Outcome::Parsed {
                                consumed: c4,
                                value: (v0, v1, v2, v3, v4),
                                anno: AnnoView {
                                    id: "tuple"@,
                                    children: ch4,
                                    result: ResultView::Success { start: 0, end: o4, value: <(A::Output, B::Output, C::Output, D::Output, E::Output) as Render>::spec_render((v0, v1, v2, v3, v4)) },
                                },
                            },
                        }
                    }
                }
            }
        }
    }

    fn name(&self) -> (r: String) {
        "tuple".to_owned()
    }

    fn spec(&self) -> (r: ParserSpec) {
        let mut inner = Vec::new();
        inner.push(self.0.spec());
        inner.push(self.1.spec());
        inner.push(self.2.spec());
        inner.push(self.3.spec());
        inner.push(self.4.spec());
        let r = ParserSpec { name: "tuple".to_owned(), inner, friendly_name: None };
        assert(r.view().inner =~= seq![self.0.spec_tree(), self.1.spec_tree(), self.2.spec_tree(), self.3.spec_tree(), self.4.spec_tree()]);
        r
    }

    /// The children run one after another: child `k` is the annotation of parser `k`, starting
    /// where the one before it ended, and the tuple's span ends where the last one's does.
    #[verifier::rlimit(60)]
    #[verifier::spinoff_prover]
    fn parse(&mut self, input: &mut &[u8]) -> (res: Result<(A::Output, B::Output, C::Output, D::Output, E::Output)>)
        ensures
            res matches Ok((_, a)) ==> {
                &&& a.view().children.len() == 5
                &&& in_sequence(a.view().children, "tuple"@)
                &&& span_end(a.view().result) == span_end(a.view().children.last().result)
            },
    {
        let ghost input0 = old(input)@;
        let total = input.len();
        proof {
            assert(views(Seq::<Annotation>::empty()) =~= Seq::<AnnoView>::empty());
            lemma_advanced_refl(input0);
        }
        let children: Vec<Annotation> = Vec::new();
        let offset: usize = 0;
        let ghost tree = self.spec_tree();
        proof {
            assert(in_sequence(views(children@), "tuple"@));
        }
        let ghost before_0 = input@;
        let ghost prev_0 = views(children@);
        let r0 = parse_child(&mut self.0, input, children, offset, "tuple", 0, Ghost(input0.len() as int), Ghost(tree));
        proof {
            lemma_advanced_trans(input0, before_0, input@);
        }
        let (out_0, offset, children) = match r0 {
            Ok(t) => t,
            Err(a) => {
                return Err(a);
            },
        };
        proof {
            lemma_in_sequence_push(prev_0, views(children@), "tuple"@);
        }
        let ghost before_1 = input@;
        let ghost prev_1 = views(children@);
        let r1 = parse_child(&mut self.1, input, children, offset, "tuple", 1, Ghost(input0.len() as int), Ghost(tree));
        proof {
            lemma_advanced_trans(input0, before_1, input@);
        }
        let (out_1, offset, children) = match r1 {
            Ok(t) => t,
            Err(a) => {
                return Err(a);
            },
        };
        proof {
            lemma_in_sequence_push(prev_1, views(children@), "tuple"@);
        }
        let ghost before_2 = input@;
        let ghost prev_2 = views(children@);
        let r2 = parse_child(&mut self.2, input, children, offset, "tuple", 2, Ghost(input0.len() as int), Ghost(tree));
        proof {
            lemma_advanced_trans(input0, before_2, input@);
        }
        let (out_2, offset, children) = match r2 {
            Ok(t) => t,
            Err(a) => {
                return Err(a);
            },
        };
        proof {
            lemma_in_sequence_push(prev_2, views(children@), "tuple"@);
        }
        let ghost before_3 = input@;
        let ghost prev_3 = views(children@);
        let r3 = parse_child(&mut self.3, input, children, offset, "tuple", 3, Ghost(input0.len() as int), Ghost(tree));
        proof {
            lemma_advanced_trans(input0, before_3, input@);
        }
        let (out_3, offset, children) = match r3 {
            Ok(t) => t,
            Err(a) => {
                return Err(a);
            },
        };
        proof {
            lemma_in_sequence_push(prev_3, views(children@), "tuple"@);
        }
        let ghost before_4 = input@;
        let ghost prev_4 = views(children@);
        let r4 = parse_child(&mut self.4, input, children, offset, "tuple", 4, Ghost(input0.len() as int), Ghost(tree));
        proof {
            lemma_advanced_trans(input0, before_4, input@);
        }
        let (out_4, offset, children) = match r4 {
            Ok(t) => t,
            Err(a) => {
                return Err(a);
            },
        };
        proof {
            lemma_in_sequence_push(prev_4, views(children@), "tuple"@);
        }
        let out = (out_0, out_1, out_2, out_3, out_4);
        let annotation = Annotation::success("tuple", 0..offset, &out, children);
        proof {
            assert(annotation.view().children == views(children@));
            lemma_identifiers_root(tree);
        }
        Ok((out, annotation))
    }
}

impl<A: Parser, B: Parser, C: Parser, D: Parser> Parser for (A, B, C, D) {
    type Output = (A::Output, B::Output, C::Output, D::Output);

    open spec fn spec_name(&self) -> Seq<char> {
        "tuple"@
    }

    open spec fn spec_tree(&self) -> SpecView {
        SpecView { name: "tuple"@, inner: seq![self.0.spec_tree(), self.1.spec_tree(), self.2.spec_tree(), self.3.spec_tree()], friendly_name: None }
    }

    open spec fn is_pure(&self) -> bool {
        self.0.is_pure() && self.1.is_pure() && self.2.is_pure() && self.3.is_pure() && <(A::Output, B::Output, C::Output, D::Output) as Render>::render_exact()
    }

    open spec fn spec_parse(&self, input: Seq<u8>) -> Outcome<(<A::Output as DeepView>::V, <B::Output as DeepView>::V, <C::Output as DeepView>::V, <D::Output as DeepView>::V)> {
        match spec_step(self.0.spec_parse(input), 0, 0, seq![], "tuple"@, 0) {
            Step::Stop { consumed, anno } => Outcome::Failed { consumed, anno },
            Step::Next { consumed: c0, offset: o0, value: v0, children: ch0 } =>
            match spec_step(self.1.spec_parse(input.skip(c0)), c0, o0, ch0, "tuple"@, 1) {
                Step::Stop { consumed, anno } => Outcome::Failed { consumed, anno },
                Step::Next { consumed: c1, offset: o1, value: v1, children: ch1 } =>
                match spec_step(self.2.spec_parse(input.skip(c1)), c1, o1, ch1, "tuple"@, 2) {
                    Step::Stop { consumed, anno } => Outcome::Failed { consumed, anno },
                    Step::Next { consumed: c2, offset: o2, value: v2, children: ch2 } =>
                    match spec_step(self.3.spec_parse(input.skip(c2)), c2, o2, ch2, "tuple"@, 3) {
                        Step::Stop { consumed, anno } => Outcome::Failed { consumed, anno },
                        Step::Next { consumed: c3, offset: o3, value: v3, children: ch3 } =>
                        Outcome::Parsed {
                            consumed: c3,
                            value: (v0, v1, v2, v3),
                            anno: AnnoView {
                                id: "tuple"@,
                                children: ch3,
                                result: ResultView::Success { start: 0, end: o3, value: <(A::Output, B::Output, C::Output, D::Output) as Render>::spec_render((v0, v1, v2, v3)) },
                            },
                        },
                    }
                }
            }
        }
    }

    fn name(&self) -> (r: String) {
        "tuple".to_owned()
    }

    fn spec(&self) -> (r: ParserSpec) {
        let mut inner = Vec::new();
        inner.push(self.0.spec());
        inner.push(self.1.spec());
        inner.push(self.2.spec());
        inner.push(self.3.spec());
        let r = ParserSpec { name: "tuple".to_owned(), inner, friendly_name: None };
        assert(r.view().inner =~= seq![self.0.spec_tree(), self.1.spec_tree(), self.2.spec_tree(), self.3.spec_tree()]);
        r
    }

    /// The children run one after another: child `k` is the annotation of parser `k`, starting
    /// where the one before it ended, and the tuple's span ends where the last one's does.
    #[verifier::rlimit(60)]
    #[verifier::spinoff_prover]
    fn parse(&mut self, input: &mut &[u8]) -> (res: Result<(A::Output, B::Output, C::Output, D::Output)>)
        ensures
            res matches Ok((_, a)) ==> {
                &&& a.view().children.len() == 4
                &&& in_sequence(a.view().children, "tuple"@)
                &&& span_end(a.view().result) == span_end(a.view().children.last().result)
            },
    {
        let ghost input0 = old(input)@;
        let total = input.len();
        proof {
            assert(views(Seq::<Annotation>::empty()) =~= Seq::<AnnoView>::empty());
            lemma_advanced_refl(input0);
        }
        let children: Vec<Annotation> = Vec::new();
        let offset: usize = 0;
        let ghost tree = self.spec_tree();
        proof {
            assert(in_sequence(views(children@), "tuple"@));
        }
        let ghost before_0 = input@;
        let ghost prev_0 = views(children@);
        let r0 = parse_child(&mut self.0, input, children, offset, "tuple", 0, Ghost(input0.len() as int), Ghost(tree));
        proof {
            lemma_advanced_trans(input0, before_0, input@);
        }
        let (out_0, offset, children) = match r0 {
            Ok(t) => t,
            Err(a) => {
                return Err(a);
            },
        };
        proof {
            lemma_in_sequence_push(prev_0, views(children@), "tuple"@);
        }
        let ghost before_1 = input@;
        let ghost prev_1 = views(children@);
        let r1 = parse_child(&mut self.1, input, children, offset, "tuple", 1, Ghost(input0.len() as int), Ghost(tree));
        proof {
            lemma_advanced_trans(input0, before_1, input@);
        }
        let (out_1, offset, children) = match r1 {
            Ok(t) => t,
            Err(a) => {
                return Err(a);
            },
        };
        proof {
            lemma_in_sequence_push(prev_1, views(children@), "tuple"@);
        }
        let ghost before_2 = input@;
        let ghost prev_2 = views(children@);
        let r2 = parse_child(&mut self.2, input, children, offset, "tuple", 2, Ghost(input0.len() as int), Ghost(tree));
        proof {
            lemma_advanced_trans(input0, before_2, input@);
        }
        let (out_2, offset, children) = match r2 {
            Ok(t) => t,
            Err(a) => {
                return Err(a);
            },
        };
        proof {
            lemma_in_sequence_push(prev_2, views(children@), "tuple"@);
        }
        let ghost before_3 = input@;
        let ghost prev_3 = views(children@);
        let r3 = parse_child(&mut self.3, input, children, offset, "tuple", 3, Ghost(input0.len() as int), Ghost(tree));
        proof {
            lemma_advanced_trans(input0, before_3, input@);
        }
        let (out_3, offset, children) = match r3 {
            Ok(t) => t,
            Err(a) => {
                return Err(a);
            },
        };
        proof {
            lemma_in_sequence_push(prev_3, views(children@), "tuple"@);
        }
        let out = (out_0, out_1, out_2, out_3);
        let annotation = Annotation::success("tuple", 0..offset, &out, children);
        proof {
            assert(annotation.view().children == views(children@));
            lemma_identifiers_root(tree);
        }
        Ok((out, annotation))
    }
}

impl<A: Parser, B: Parser, C: Parser> Parser for (A, B, C) {
    type Output = (A::Output, B::Output, C::Output);

    open spec fn spec_name(&self) -> Seq<char> {
        "tuple"@
    }

    open spec fn spec_tree(&self) -> SpecView {
        SpecView { name: "tuple"@, inner: seq![self.0.spec_tree(), self.1.spec_tree(), self.2.spec_tree()], friendly_name: None }
    }

    open spec fn is_pure(&self) -> bool {
        self.0.is_pure() && self.1.is_pure() && self.2.is_pure() && <(A::Output, B::Output, C::Output) as Render>::render_exact()
    }

    open spec fn spec_parse(&self, input: Seq<u8>) -> Outcome<(<A::Output as DeepView>::V, <B::Output as DeepView>::V, <C::Output as DeepView>::V)> {
        match spec_step(self.0.spec_parse(input), 0, 0, seq![], "tuple"@, 0) {
            Step::Stop { consumed, anno } => Outcome::Failed { consumed, anno },
            Step::Next { consumed: c0, offset: o0, value: v0, children: ch0 } =>
            match spec_step(self.1.spec_parse(input.skip(c0)), c0, o0, ch0, "tuple"@, 1) {
                Step::Stop { consumed, anno } => Outcome::Failed { consumed, anno },
                Step::Next { consumed: c1, offset: o1, value: v1, children: ch1 } =>
                match spec_step(self.2.spec_parse(input.skip(c1)), c1, o1, ch1, "tuple"@, 2) {
                    Step::Stop { consumed, anno } => Outcome::Failed { consumed, anno },
                    Step::Next { consumed: c2, offset: o2, value: v2, children: ch2 } =>
                    Outcome::Parsed {
                        consumed: c2,
                        value: (v0, v1, v2),
                        anno: AnnoView {
                            id: "tuple"@,
                            children: ch2,
                            result: ResultView::Success { start: 0, end: o2, value: <(A::Output, B::Output, C::Output) as Render>::spec_render((v0, v1, v2)) },
                        },
                    },
                }
            }
        }
    }

    fn name(&self) -> (r: String) {
        "tuple".to_owned()
    }

    fn spec(&self) -> (r: ParserSpec) {
        let mut inner = Vec::new();
        inner.push(self.0.spec());
        inner.push(self.1.spec());
        inner.push(self.2.spec());
        let r = ParserSpec { name: "tuple".to_owned(), inner, friendly_name: None };
        assert(r.view().inner =~= seq![self.0.spec_tree(), self.1.spec_tree(), self.2.spec_tree()]);
        r
    }

    /// The children run one after another: child `k` is the annotation of parser `k`, starting
    /// where the one before it ended, and the tuple's span ends where the last one's does.
    #[verifier::rlimit(60)]
    #[verifier::spinoff_prover]
    fn parse(&mut self, input: &mut &[u8]) -> (res: Result<(A::Output, B::Output, C::Output)>)
        ensures
            res matches Ok((_, a)) ==> {
                &&& a.view().children.len() == 3
                &&& in_sequence(a.view().children, "tuple"@)
                &&& span_end(a.view().result) == span_end(a.view().children.last().result)
            },
    {
        let ghost input0 = old(input)@;
        let total = input.len();
        proof {
            assert(views(Seq::<Annotation>::empty()) =~= Seq::<AnnoView>::empty());
            lemma_advanced_refl(input0);
        }
        let children: Vec<Annotation> = Vec::new();
        let offset: usize = 0;
        let ghost tree = self.spec_tree();
        proof {
            assert(in_sequence(views(children@), "tuple"@));
        }
        let ghost before_0 = input@;
        let ghost prev_0 = views(children@);
        let r0 = parse_child(&mut self.0, input, children, offset, "tuple", 0, Ghost(input0.len() as int), Ghost(tree));
        proof {
            lemma_advanced_trans(input0, before_0, input@);
        }
        let (out_0, offset, children) = match r0 {
            Ok(t) => t,
            Err(a) => {
                return Err(a);
            },
        };
        proof {
            lemma_in_sequence_push(prev_0, views(children@), "tuple"@);
        }
        let ghost before_1 = input@;
        let ghost prev_1 = views(children@);
        let r1 = parse_child(&mut self.1, input, children, offset, "tuple", 1, Ghost(input0.len() as int), Ghost(tree));
        proof {
            lemma_advanced_trans(input0, before_1, input@);
        }
        let (out_1, offset, children) = match r1 {
            Ok(t) => t,
            Err(a) => {
                return Err(a);
            },
        };
        proof {
            lemma_in_sequence_push(prev_1, views(children@), "tuple"@);
        }
        let ghost before_2 = input@;
        let ghost prev_2 = views(children@);
        let r2 = parse_child(&mut self.2, input, children, offset, "tuple", 2, Ghost(input0.len() as int), Ghost(tree));
        proof {
            lemma_advanced_trans(input0, before_2, input@);
        }
        let (out_2, offset, children) = match r2 {
            Ok(t) => t,
            Err(a) => {
                return Err(a);
            },
        };
        proof {
            lemma_in_sequence_push(prev_2, views(children@), "tuple"@);
        }
        let out = (out_0, out_1, out_2);
        let annotation = Annotation::success("tuple", 0..offset, &out, children);
        proof {
            assert(annotation.view().children == views(children@));
            lemma_identifiers_root(tree);
        }
        Ok((out, annotation))
    }
}

impl<A: Parser, B: Parser> Parser for (A, B) {
    type Output = (A::Output, B::Output);

    open spec fn spec_name(&self) -> Seq<char> {
        "tuple"@
    }

    open spec fn spec_tree(&self) -> SpecView {
        SpecView { name: "tuple"@, inner: seq![self.0.spec_tree(), self.1.spec_tree()], friendly_name: None }
    }

    open spec fn is_pure(&self) -> bool {
        self.0.is_pure() && self.1.is_pure() && <(A::Output, B::Output) as Render>::render_exact()
    }

    open spec fn spec_parse(&self, input: Seq<u8>) -> Outcome<(<A::Output as DeepView>::V, <B::Output as DeepView>::V)> {
        match spec_step(self.0.spec_parse(input), 0, 0, seq![], "tuple"@, 0) {
            Step::Stop { consumed, anno } => Outcome::Failed { consumed, anno },
            Step::Next { consumed: c0, offset: o0, value: v0, children: ch0 } =>
            match spec_step(self.1.spec_parse(input.skip(c0)), c0, o0, ch0, "tuple"@, 1) {
                Step::Stop { consumed, anno } => Outcome::Failed { consumed, anno },
                Step::Next { consumed: c1, offset: o1, value: v1, children: ch1 } =>
                Outcome::Parsed {
                    consumed: c1,
                    value: (v0, v1),
                    anno: AnnoView {
                        id: "tuple"@,
                        children: ch1,
                        result: ResultView::Success { start: 0, end: o1, value: <(A::Output, B::Output) as Render>::spec_render((v0, v1)) },
                    },
                },
            }
        }
    }

    fn name(&self) -> (r: String) {
        "tuple".to_owned()
    }

    fn spec(&self) -> (r: ParserSpec) {
        let mut inner = Vec::new();
        inner.push(self.0.spec());
        inner.push(self.1.spec());
        let r = ParserSpec { name: "tuple".to_owned(), inner, friendly_name: None };
        assert(r.view().inner =~= seq![self.0.spec_tree(), self.1.spec_tree()]);
        r
    }

    /// The children run one after another: child `k` is the annotation of parser `k`, starting
    /// where the one before it ended, and the tuple's span ends where the last one's does.
    #[verifier::rlimit(60)]
    #[verifier::spinoff_prover]
    fn parse(&mut self, input: &mut &[u8]) -> (res: Result<(A::Output, B::Output)>)
        ensures
            res matches Ok((_, a)) ==> {
                &&& a.view().children.len() == 2
                &&& in_sequence(a.view().children, "tuple"@)
                &&& span_end(a.view().result) == span_end(a.view().children.last().result)
            },
    {
        let ghost input0 = old(input)@;
        let total = input.len();
        proof {
            assert(views(Seq::<Annotation>::empty()) =~= Seq::<AnnoView>::empty());
            lemma_advanced_refl(input0);
        }
        let children: Vec<Annotation> = Vec::new();
        let offset: usize = 0;
        let ghost tree = self.spec_tree();
        proof {
            assert(in_sequence(views(children@), "tuple"@));
        }
        let ghost before_0 = input@;
        let ghost prev_0 = views(children@);
        let r0 = parse_child(&mut self.0, input, children, offset, "tuple", 0, Ghost(input0.len() as int), Ghost(tree));
        proof {
            lemma_advanced_trans(input0, before_0, input@);
        }
        let (out_0, offset, children) = match r0 {
            Ok(t) => t,
            Err(a) => {
                return Err(a);
            },
        };
        proof {
            lemma_in_sequence_push(prev_0, views(children@), "tuple"@);
        }
        let ghost before_1 = input@;
        let ghost prev_1 = views(children@);
        let r1 = parse_child(&mut self.1, input, children, offset, "tuple", 1, Ghost(input0.len() as int), Ghost(tree));
        proof {
            lemma_advanced_trans(input0, before_1, input@);
        }
        let (out_1, offset, children) = match r1 {
            Ok(t) => t,
            Err(a) => {
                return Err(a);
            },
        };
        proof {
            lemma_in_sequence_push(prev_1, views(children@), "tuple"@);
        }
        let out = (out_0, out_1);
        let annotation = Annotation::success("tuple", 0..offset, &out, children);
        proof {
            assert(annotation.view().children == views(children@));
            lemma_identifiers_root(tree);
        }
        Ok((out, annotation))
    }
}

} // verus!
