use super::super::helpers::{
    adopted, adopted_as, all_within, child_prefix, failed_parent, fold, lemma_within_mono,
    lemma_within_updated, span_end,
};
use super::super::spec::{
    all_ids_among, lemma_adopted_ids, lemma_identifiers_root, spec_identifiers, ParserSpec, SpecView,
};
use super::super::{advanced, outcome_of, result_anno, taken, Outcome, Parser, Result};
use super::Checkpoint;
use crate::annotation::{views, AnnoView, Annotation, ResultView};
use crate::render::Render;
use vstd::prelude::*;

verus! {

/// `x as usize`, through `num_traits::AsPrimitive<usize>` for `u8`, which casts.
#[verifier::external_body]
fn u8_as_usize(x: u8) -> (r: usize)
    ensures
        r == x as usize,
{
    num_traits::AsPrimitive::<usize>::as_(x)
}

/// `x as usize`, through `num_traits::AsPrimitive<usize>` for `u16`, which casts.
#[verifier::external_body]
fn u16_as_usize(x: u16) -> (r: usize)
    ensures
        r == x as usize,
{
    num_traits::AsPrimitive::<usize>::as_(x)
}

/// `x as usize`, through `num_traits::AsPrimitive<usize>` for `u32`, which casts.
#[verifier::external_body]
fn u32_as_usize(x: u32) -> (r: usize)
    ensures
        r == x as usize,
{
    num_traits::AsPrimitive::<usize>::as_(x)
}

/// A parsed value that says how many items follow it.
pub trait AsLength: Render {
    spec fn spec_as_len(v: <Self as DeepView>::V) -> nat;

    fn as_len(&self) -> (r: usize)
        ensures
            r as nat == Self::spec_as_len(self.deep_view()),
    ;
}

impl AsLength for u8 {
    open spec fn spec_as_len(v: u8) -> nat {
        v as nat
    }

    fn as_len(&self) -> (r: usize) {
        u8_as_usize(*self)
    }
}

impl AsLength for u16 {
    open spec fn spec_as_len(v: u16) -> nat {
        v as nat
    }

    fn as_len(&self) -> (r: usize) {
        u16_as_usize(*self)
    }
}

impl AsLength for u32 {
    open spec fn spec_as_len(v: u32) -> nat {
        v as nat
    }

    fn as_len(&self) -> (r: usize) {
        u32_as_usize(*self)
    }
}

/// The first child of a repetition of `count` values: the length parser's annotation, adopted,
/// for a length that says `count`, shown as its text where lengths render exactly.
pub open spec fn counted<T: AsLength>(first: AnnoView, count: nat) -> bool {
    exists|n: <T as DeepView>::V, la: AnnoView|
        #![trigger adopted(la, 0, "length_repeat"@, 0), T::spec_as_len(n)]
        first == adopted(la, 0, "length_repeat"@, 0) && count == T::spec_as_len(n) && (
        T::render_exact() ==> (la.result matches ResultView::Success { value: t, .. } && t
            == T::spec_render(n)))
}

/// Where a result's span starts.
pub open spec fn start_of(r: ResultView) -> int {
    r.span_of().0
}

/// The trees of `s` follow one another: the first starts at 0 and each other one where the one
/// before it ended.
pub open spec fn chained(s: Seq<AnnoView>) -> bool {
    &&& s.len() >= 1
    &&& start_of(s[0].result) == 0
    &&& forall|k: int| 0 <= k < s.len() - 1 ==> #[trigger] start_of(s[k + 1].result) == span_end(
        s[k].result,
    )
}

/// A repetition's annotation with `n` values: one child for the length and one for each value,
/// following one another, the whole ending where the last child ends.
pub open spec fn contiguous(a: AnnoView, n: nat) -> bool {
    &&& a.children.len() == n + 1
    &&& chained(a.children)
    &&& span_end(a.result) == span_end(a.children.last().result)
}

/// Where a repetition stands after some of its items.
pub enum RepState<V> {
    Going { consumed: int, offset: int, values: Seq<V>, children: Seq<AnnoView> },
    Stopped { consumed: int, anno: AnnoView },
}

/// A length, then that many values.
pub struct LengthRepeat<L, V> {
    pub length: L,
    pub value: V,
}

impl<L, V> LengthRepeat<L, V> {
    pub fn new(length_parser: L, value_parser: V) -> (r: Checkpoint<Self>)
        ensures
            r.0.length == length_parser,
            r.0.value == value_parser,
    {
        Checkpoint(Self { length: length_parser, value: value_parser })
    }
}

impl<L: Parser, V: Parser> LengthRepeat<L, V> {
    /// The state after `k` more values, read from `input` starting in state `start`.
    pub open spec fn spec_repeat(
        &self,
        input: Seq<u8>,
        start: RepState<<V::Output as DeepView>::V>,
        k: nat,
    ) -> RepState<<V::Output as DeepView>::V>
        decreases k,
    {
        if k == 0 {
            start
        } else {
            match self.spec_repeat(input, start, (k - 1) as nat) {
                RepState::Going { consumed, offset, values, children } => match self.value.spec_parse(
                    input.skip(consumed),
                ) {
                    Outcome::Parsed { consumed: c, value, anno } => {
                        let a = adopted(anno, offset, "length_repeat"@, 1);
                        RepState::Going {
                            consumed: consumed + c,
                            offset: span_end(a.result),
                            values: values.push(value),
                            children: children.push(a),
                        }
                    },
                    Outcome::Failed { consumed: c, anno } => RepState::Stopped {
                        consumed: consumed + c,
                        anno: failed_parent(
                            "length_repeat"@,
                            children.push(adopted(anno, offset, "length_repeat"@, 1)),
                        ),
                    },
                },
                stopped => stopped,
            }
        }
    }
}

impl<L: Parser, V: Parser> LengthRepeat<L, V> {
    /// The outcome of a repetition that has ended in state `st`.
    pub open spec fn spec_finish(
        st: RepState<<V::Output as DeepView>::V>,
    ) -> Outcome<Seq<<V::Output as DeepView>::V>> {
        match st {
            RepState::Going { consumed, offset, values, children } => Outcome::Parsed {
                consumed,
                value: values,
                anno: AnnoView {
                    id: "length_repeat"@,
                    children,
                    result: ResultView::Success {
                        start: 0,
                        end: offset,
                        value: <Vec<V::Output> as Render>::spec_render(values),
                    },
                },
            },
            RepState::Stopped { consumed, anno } => Outcome::Failed { consumed, anno },
        }
    }

    /// Once a repetition has stopped, further items change nothing.
    pub proof fn lemma_stopped_stays(
        &self,
        input: Seq<u8>,
        start: RepState<<V::Output as DeepView>::V>,
        i: nat,
        k: nat,
    )
        requires
            i <= k,
            self.spec_repeat(input, start, i) is Stopped,
        ensures
            self.spec_repeat(input, start, k) == self.spec_repeat(input, start, i),
        decreases k,
    {
        if i < k {
            self.lemma_stopped_stays(input, start, i, (k - 1) as nat);
        }
    }
}

impl<L: Parser, V: Parser> Parser for LengthRepeat<L, V> where L::Output: AsLength {
    type Output = Vec<V::Output>;

    open spec fn spec_name(&self) -> Seq<char> {
        "length_repeat"@
    }

    open spec fn spec_tree(&self) -> SpecView {
        SpecView {
            name: "length_repeat"@,
            inner: seq![self.length.spec_tree(), self.value.spec_tree()],
            friendly_name: None,
        }
    }

    open spec fn is_pure(&self) -> bool {
        self.length.is_pure() && self.value.is_pure() && <V::Output as Render>::render_exact()
    }

    open spec fn spec_parse(&self, input: Seq<u8>) -> Outcome<Seq<<V::Output as DeepView>::V>> {
        match self.length.spec_parse(input) {
            Outcome::Failed { consumed, anno } => Outcome::Failed {
                consumed,
                anno: failed_parent("length_repeat"@, seq![adopted(anno, 0, "length_repeat"@, 0)]),
            },
            Outcome::Parsed { consumed, value, anno } => {
                let first = adopted(anno, 0, "length_repeat"@, 0);
                let start = RepState::Going {
                    consumed,
                    offset: span_end(first.result),
                    values: seq![],
                    children: seq![first],
                };
                Self::spec_finish(self.spec_repeat(input, start, <L::Output as AsLength>::spec_as_len(value)))
            },
        }
    }

    fn name(&self) -> (r: String) {
        "length_repeat".to_owned()
    }

    fn spec(&self) -> (r: ParserSpec) {
        let mut inner = Vec::new();
        inner.push(self.length.spec());
        inner.push(self.value.spec());
        let r = ParserSpec { name: "length_repeat".to_owned(), inner, friendly_name: None };
        assert(r.view().inner =~= seq![self.length.spec_tree(), self.value.spec_tree()]);
        r
    }

    /// On success there is one child for the length and one for each value, each child starting
    /// where the one before it ended and the first at the start, and the repetition's span ends
    /// where the last child's does. The first child is the length parser's annotation, showing
    /// the length, and there are as many values as it says; the others are the value parser's.
    fn parse(&mut self, input: &mut &[u8]) -> (res: Result<Vec<V::Output>>)
        ensures
            res matches Ok((vs, a)) ==> {
                &&& contiguous(a.view(), vs@.len())
                &&& counted::<L::Output>(a.view().children[0], vs@.len())
                &&& forall|k: int|
                    1 <= k < a.view().children.len() ==> adopted_as(
                        #[trigger] a.view().children[k],
                        "length_repeat"@,
                        1,
                    )
            },
    {
        let ghost input0 = old(input)@;
        let total = input.len();
        let ghost tree = self.spec_tree();
        let length_res = self.length.parse(input);
        let ghost length_anno = result_anno(length_res);
        proof {
            lemma_within_mono(length_anno, input0.len() as int, usize::MAX as int);
            assert(views(Seq::<Annotation>::empty()) =~= Seq::<AnnoView>::empty());
            lemma_adopted_ids(length_anno, tree, 0, 0);
            lemma_identifiers_root(tree);
        }
        let (length, span, child_annotations) = match fold(
            length_res,
            Vec::new(),
            0,
            "length_repeat",
            0,
        ) {
            Ok(t) => t,
            Err(a) => {
                proof {
                    let p = child_prefix("length_repeat"@, 0);
                    lemma_within_updated(length_anno, input0.len() as int, 0, p);
                    assert(a.view().children =~= seq![adopted(length_anno, 0, "length_repeat"@, 0)]);
                }
                return Err(a);
            },
        };
        proof {
            let p = child_prefix("length_repeat"@, 0);
            lemma_within_updated(length_anno, input0.len() as int, 0, p);
        }
        let n = length.as_len();
        let ghost count = length.deep_view();
        let ghost first = adopted(length_anno, 0, "length_repeat"@, 0);
        let ghost start = RepState::<<V::Output as DeepView>::V>::Going {
            consumed: taken(input0, input@),
            offset: span.end as int,
            values: seq![],
            children: seq![first],
        };
        let mut offset = span.end;
        let mut values: Vec<V::Output> = Vec::new();
        let mut children = child_annotations;
        let mut i: usize = 0;
        proof {
            assert(views(children@) =~= seq![first]);
            assert(all_within(views(children@), input0.len() as int));
            assert(all_ids_among(views(children@), spec_identifiers(tree)));
            assert(chained(views(children@)));
            assert(values.deep_view() =~= Seq::<<V::Output as DeepView>::V>::empty());
        }
        while i < n
            invariant
                *self == *old(self),
                i <= n,
                input0 == old(input)@,
                old(self).is_pure() ==> old(self).spec_parse(input0) == Self::spec_finish(
                    self.spec_repeat(input0, start, n as nat),
                ),
                advanced(input0, input@),
                input0.len() <= usize::MAX,
                offset <= taken(input0, input@),
                all_within(views(children@), input0.len() as int),
                tree == self.spec_tree(),
                all_ids_among(views(children@), spec_identifiers(tree)),
                views(children@).len() == i + 1,
                values@.len() == i,
                views(children@)[0] == first,
                n as nat == <L::Output as AsLength>::spec_as_len(count),
                L::Output::render_exact() ==> (length_anno.result matches ResultView::Success {
                    value: t,
                    ..
                } && t == <L::Output as Render>::spec_render(count)),
                forall|k: int|
                    1 <= k < views(children@).len() ==> adopted_as(
                        #[trigger] views(children@)[k],
                        "length_repeat"@,
                        1,
                    ),
                chained(views(children@)),
                offset == span_end(views(children@).last().result),
                old(self).is_pure() ==> self.spec_repeat(input0, start, i as nat) == (RepState::Going {
                    consumed: taken(input0, input@),
                    offset: offset as int,
                    values: values.deep_view(),
                    children: views(children@),
                }),
            decreases n - i,
        {
            let ghost before = input@;
            let ghost values_before = values.deep_view();
            let ghost children_before = views(children@);
            let r = self.value.parse(input);
            let ghost child_anno = result_anno(r);
            let ghost r_copy = r;
            proof {
                assert(input0.skip(taken(input0, before)) == before);
                lemma_within_mono(child_anno, before.len() as int, usize::MAX - offset);
                let p = child_prefix("length_repeat"@, 1);
                lemma_within_updated(child_anno, before.len() as int, offset as int, p);
                lemma_within_mono(
                    child_anno.updated(offset as int, p),
                    before.len() + offset,
                    input0.len() as int,
                );
                assert(input@ == before.skip(taken(before, input@)));
                assert(input@ =~= input0.skip(taken(input0, input@)));
                lemma_adopted_ids(child_anno, tree, 1, offset as int);
                lemma_identifiers_root(tree);
            }
            let ghost offset_before = offset;
            match fold(r, children, offset, "length_repeat", 1) {
                Ok((v, sp, ch)) => {
                    values.push(v);
                    offset = sp.end;
                    children = ch;
                    proof {
                        assert(values.deep_view() =~= values_before.push(v.deep_view()));
                        let cs = views(children@);
                        assert(cs.drop_last() =~= children_before);
                        assert(adopted_as(cs.last(), "length_repeat"@, 1)) by {
                            assert(cs.last() == adopted(child_anno, offset_before as int, "length_repeat"@, 1));
                        }
                        assert forall|k: int| 1 <= k < cs.len() implies adopted_as(
                            #[trigger] cs[k],
                            "length_repeat"@,
                            1,
                        ) by {
                            if k < cs.len() - 1 {
                                assert(cs[k] == children_before[k]);
                            }
                        }
                        assert(cs[0] == children_before[0]);
                        assert forall|k: int| 0 <= k < cs.len() - 1 implies #[trigger] start_of(
                            cs[k + 1].result,
                        ) == span_end(cs[k].result) by {
                            if k < cs.len() - 2 {
                                assert(cs[k] == children_before[k]);
                                assert(cs[k + 1] == children_before[k + 1]);
                            } else {
                                assert(cs[k] == children_before.last());
                            }
                        }
                    }
                },
                Err(a) => {
                    proof {
                        if old(self).is_pure() {
                            let c0 = taken(input0, before);
                            assert(self.spec_repeat(input0, start, i as nat) == (RepState::Going {
                                consumed: c0,
                                offset: offset as int,
                                values: values_before,
                                children: children_before,
                            }));
                            assert(input0.skip(c0) == before);
                            assert(self.value.spec_parse(before) == outcome_of(r_copy, taken(before, input@)));
                            assert(self.spec_repeat(input0, start, (i + 1) as nat) == (RepState::<<V::Output as DeepView>::V>::Stopped {
                                consumed: taken(input0, input@),
                                anno: a.view(),
                            }));
                            self.lemma_stopped_stays(input0, start, (i + 1) as nat, n as nat);
                        }
                    }
                    return Err(a);
                },
            }
            i = i + 1;
        }
        let annotation = Annotation::success("length_repeat", 0..offset, &values, children);
        proof {
            assert(annotation.view().children == views(children@));
            assert(values.deep_view().len() == values@.len());
            assert(counted::<L::Output>(views(children@)[0], values@.len())) by {
                assert(views(children@)[0] == adopted(length_anno, 0, "length_repeat"@, 0));
            }
            lemma_identifiers_root(tree);
        }
        Ok((values, annotation))
    }
}

} // verus!

verus! {

impl<L: Parser, V: Parser> LengthRepeat<L, V> {
    /// Each further item adds one value and one child while the repetition goes on.
    pub proof fn lemma_repeat_counts(
        &self,
        input: Seq<u8>,
        start: RepState<<V::Output as DeepView>::V>,
        k: nat,
    )
        requires
            start is Going,
        ensures
            self.spec_repeat(input, start, k) matches RepState::Going { values, children, .. } ==> {
                &&& values.len() == start->values.len() + k
                &&& children.len() == start->children.len() + k
            },
        decreases k,
    {
        if k > 0 {
            self.lemma_repeat_counts(input, start, (k - 1) as nat);
        }
    }
}

impl<L: Parser, V: Parser> LengthRepeat<L, V> where L::Output: AsLength {
    /// A repetition that succeeds gives exactly as many values as its length says, and its
    /// annotation has one child for the length and one for each value.
    pub proof fn lemma_length_repeat_count(&self, input: Seq<u8>)
        ensures
            match (self.length.spec_parse(input), self.spec_parse(input)) {
                (
                    Outcome::Parsed { value: n, .. },
                    Outcome::Parsed { value: values, anno, .. },
                ) => {
                    &&& values.len() == <L::Output as AsLength>::spec_as_len(n)
                    &&& anno.children.len() == values.len() + 1
                },
                _ => true,
            },
    {
        if let Outcome::Parsed { consumed, value, anno } = self.length.spec_parse(input) {
            let first = adopted(anno, 0, "length_repeat"@, 0);
            let start = RepState::<<V::Output as DeepView>::V>::Going {
                consumed,
                offset: span_end(first.result),
                values: seq![],
                children: seq![first],
            };
            self.lemma_repeat_counts(input, start, <L::Output as AsLength>::spec_as_len(value));
        }
    }
}

} // verus!
