use super::spec::{
    all_ids_among, ids_among, lemma_adopted_ids, lemma_identifiers_root, spec_identifiers, SpecView,
};
use super::{advanced, result_anno, taken, Outcome, Parser, Result};
use crate::annotation::{views, AnnoView, Annotation, AnnotationResult, ResultView};
use crate::render::Render;
use crate::text::{decimal, push_decimal, push_str};
use std::ops::Range;
use vstd::prelude::*;

verus! {

/// The identifier prefix that a parent named `parent` gives its child number `index`.
pub open spec fn child_prefix(parent: Seq<char>, index: nat) -> Seq<char> {
    parent + "["@ + decimal(index) + "]/"@
}

/// A child's annotation as its parent keeps it: prefixed, and moved to `offset`.
pub open spec fn adopted(anno: AnnoView, offset: int, parent: Seq<char>, index: nat) -> AnnoView {
    anno.updated(offset, child_prefix(parent, index))
}

/// `c` is some tree as a parent named `parent` adopts it as its child number `index`: every
/// identifier in it carries the prefix that the parent gives that child.
pub open spec fn adopted_as(c: AnnoView, parent: Seq<char>, index: nat) -> bool {
    exists|ia: AnnoView, offset: int| c == #[trigger] adopted(ia, offset, parent, index)
}

/// The children `s` of a parser named `parent` that runs its children one after another: child
/// `k` is adopted as its child number `k`, the first starts at 0, and each other starts where
/// the one before it ended.
pub open spec fn in_sequence(s: Seq<AnnoView>, parent: Seq<char>) -> bool {
    &&& forall|k: int| 0 <= k < s.len() ==> adopted_as(#[trigger] s[k], parent, k as nat)
    &&& s.len() >= 1 ==> s[0].result.span_of().0 == 0
    &&& forall|k: int|
        0 <= k < s.len() - 1 ==> #[trigger] s[k + 1].result.span_of().0 == span_end(s[k].result)
}

/// A child adopted as the next one, starting where the last one ended (at 0 for the first),
/// keeps the children in sequence.
pub proof fn lemma_in_sequence_push(prev: Seq<AnnoView>, next: Seq<AnnoView>, parent: Seq<char>)
    requires
        in_sequence(prev, parent),
        next.len() == prev.len() + 1,
        next.drop_last() == prev,
        adopted_as(next.last(), parent, prev.len()),
        next.last().result.span_of().0 == (if prev.len() == 0 {
            0
        } else {
            span_end(prev.last().result)
        }),
    ensures
        in_sequence(next, parent),
{
    assert forall|k: int| 0 <= k < next.len() implies adopted_as(#[trigger] next[k], parent, k as nat) by {
        if k < prev.len() {
            assert(next[k] == prev[k]);
        }
    }
    assert forall|k: int| 0 <= k < next.len() - 1 implies #[trigger] next[k + 1].result.span_of().0
        == span_end(next[k].result) by {
        assert(next[k] == prev[k]);
        if k + 1 < prev.len() {
            assert(next[k + 1] == prev[k + 1]);
        }
    }
    if prev.len() > 0 {
        assert(next[0] == prev[0]);
    }
}

/// One step of a parser that runs its children one after another: where the child's outcome,
/// when a success, starts at 0 and shows its value as `shown` gives it, the step adopts the
/// child's annotation as the next child in sequence, keeps its text, and moves on to where it
/// ends.
pub proof fn lemma_step_in_sequence<V>(
    o: Outcome<V>,
    consumed: int,
    offset: int,
    children: Seq<AnnoView>,
    parent: Seq<char>,
    index: nat,
    shown: spec_fn(V) -> Seq<char>,
)
    requires
        in_sequence(children, parent),
        children.len() == index,
        offset == (if index == 0 {
            0
        } else {
            span_end(children.last().result)
        }),
        o matches Outcome::Parsed { value, anno, .. } ==> (anno.result matches ResultView::Success {
            start,
            value: t,
            ..
        } && start == 0 && t == shown(value)),
    ensures
        spec_step(o, consumed, offset, children, parent, index) matches Step::Next {
            offset: next,
            value,
            children: ch,
            ..
        } ==> {
            &&& in_sequence(ch, parent)
            &&& ch.len() == index + 1
            &&& ch.drop_last() == children
            &&& next == span_end(ch.last().result)
            &&& ch.last().result matches ResultView::Success { value: t, .. } && t == shown(value)
        },
{
    if let Outcome::Parsed { anno, .. } = o {
        let a = adopted(anno, offset, parent, index);
        let ch = children.push(a);
        assert(ch.drop_last() =~= children);
        assert(adopted_as(ch.last(), parent, children.len()));
        lemma_in_sequence_push(children, ch, parent);
    }
}

/// Annotation `a` shows value `v`, where values of the type render exactly.
pub open spec fn shows<T: Render>(a: AnnoView, v: T::V) -> bool {
    T::render_exact() ==> (a.result matches ResultView::Success { value: t, .. } && t
        == T::spec_render(v))
}

/// The annotation of a parent named `parent` one of whose children has failed.
pub open spec fn failed_parent(parent: Seq<char>, children: Seq<AnnoView>) -> AnnoView {
    AnnoView { id: parent, children, result: ResultView::Child { start: 0 } }
}

/// The end of a result's span (the start where it has none).
pub open spec fn span_end(r: ResultView) -> int {
    match r {
        ResultView::Success { end, .. } => end,
        ResultView::Invalid { end, .. } => end,
        ResultView::Incomplete { start } => start,
        ResultView::Child { start } => start,
    }
}

/// Every tree of `s` lies within `0..=n`.
pub open spec fn all_within(s: Seq<AnnoView>, n: int) -> bool {
    forall|j: int| 0 <= j < s.len() ==> (#[trigger] s[j]).within(n)
}

/// Where a tree lies within `0..=n`, it lies within any larger bound.
pub proof fn lemma_within_mono(a: AnnoView, n: int, m: int)
    requires
        a.within(n),
        n <= m,
    ensures
        a.within(m),
    decreases a,
{
    assert forall|i: int| 0 <= i < a.children.len() implies (#[trigger] a.children[i]).within(m) by {
        lemma_within_mono(a.children[i], n, m);
    }
}

/// Moving a tree that lies within `0..=n` by `offset` puts it within `0..=n + offset`.
pub proof fn lemma_within_updated(a: AnnoView, n: int, offset: int, prefix: Seq<char>)
    requires
        a.within(n),
        0 <= offset,
    ensures
        a.updated(offset, prefix).within(n + offset),
    decreases a,
{
    let u = a.updated(offset, prefix);
    assert forall|i: int| 0 <= i < u.children.len() implies (#[trigger] u.children[i]).within(
        n + offset,
    ) by {
        lemma_within_updated(a.children[i], n, offset, prefix);
    }
}

/// Builds the identifier prefix `"{parent_name}[{child_index}]/"`.
pub fn make_prefix(parent_name: &str, child_index: usize) -> (r: String)
    ensures
        r@ == child_prefix(parent_name@, child_index as nat),
{
    let mut prefix = parent_name.to_owned();
    push_str(&mut prefix, "[");
    push_decimal(&mut prefix, child_index as u64);
    push_str(&mut prefix, "]/");
    prefix
}

/// Helper to fold the result of a child parser into its parent: the child's annotation is
/// prefixed, moved to `offset` and appended to `child_annotations`. On success the child's value
/// and its (moved) span come back with the annotations; on failure, the parent's annotation of a
/// failed child.
pub fn fold<T>(
    result: Result<T>,
    child_annotations: Vec<Annotation>,
    offset: usize,
    parent_name: &str,
    child_index: usize,
) -> (r: std::result::Result<(T, Range<usize>, Vec<Annotation>), Annotation>)
    requires
        result.fold_ready(offset),
    ensures
        result.folded(r, child_annotations, offset, parent_name@, child_index),
{
    let prefix = make_prefix(parent_name, child_index);
    match result {
        Ok((value, annotation)) => {
            let mut annotation = annotation;
            annotation.update_with_parent(offset, prefix.as_str());
            let span = match &annotation.result {
                AnnotationResult::Success { span, .. } => span.start..span.end,
                _ => {
                    proof {
                        assert(false);
                    }
                    0..0
                },
            };
            let mut children = child_annotations;
            let ghost before = children@;
            children.push(annotation);
            proof {
                assert(views(children@) =~= views(before).push(annotation.view()));
            }
            Ok((value, span, children))
        },
        Err(annotation) => {
            let mut annotation = annotation;
            annotation.update_with_parent(offset, prefix.as_str());
            let mut children = child_annotations;
            let ghost before = children@;
            children.push(annotation);
            proof {
                assert(views(children@) =~= views(before).push(annotation.view()));
            }
            Err(Annotation::child(parent_name, 0, children))
        },
    }
}

pub trait FoldResult<T>: Sized {
    /// Fold the result of applying a child parser (see [`fold`]).
    fn fold(
        self,
        child_annotations: Vec<Annotation>,
        offset: usize,
        parent_name: &str,
        child_index: usize,
    ) -> (r: std::result::Result<(T, Range<usize>, Vec<Annotation>), Annotation>)
        requires
            self.fold_ready(offset),
        ensures
            self.folded(r, child_annotations, offset, parent_name@, child_index),
    ;

    /// The child's annotation can be moved to `offset`, and it is a success where the child
    /// succeeded.
    spec fn fold_ready(&self, offset: usize) -> bool;

    /// What [`fold`] gives back for this result.
    spec fn folded(
        &self,
        r: std::result::Result<(T, Range<usize>, Vec<Annotation>), Annotation>,
        child_annotations: Vec<Annotation>,
        offset: usize,
        parent_name: Seq<char>,
        child_index: usize,
    ) -> bool;
}

impl<T> FoldResult<T> for Result<T> {
    open spec fn fold_ready(&self, offset: usize) -> bool {
        match *self {
            Ok((_, a)) => a.view().result is Success && a.view().within(usize::MAX - offset),
            Err(a) => a.view().within(usize::MAX - offset),
        }
    }

    open spec fn folded(
        &self,
        r: std::result::Result<(T, Range<usize>, Vec<Annotation>), Annotation>,
        child_annotations: Vec<Annotation>,
        offset: usize,
        parent_name: Seq<char>,
        child_index: usize,
    ) -> bool {
        match (*self, r) {
            (Ok((v, a)), Ok((v2, span, children))) => {
                let child = adopted(a.view(), offset as int, parent_name, child_index as nat);
                &&& v2 == v
                &&& views(children@) == views(child_annotations@).push(child)
                &&& child.result matches ResultView::Success { start, end, .. } && span.start
                    == start && span.end == end
            },
            (Err(a), Err(p)) => p.view() == failed_parent(
                parent_name,
                views(child_annotations@).push(
                    adopted(a.view(), offset as int, parent_name, child_index as nat),
                ),
            ),
            _ => false,
        }
    }

    fn fold(
        self,
        child_annotations: Vec<Annotation>,
        offset: usize,
        parent_name: &str,
        child_index: usize,
    ) -> (r: std::result::Result<(T, Range<usize>, Vec<Annotation>), Annotation>) {
        fold(self, child_annotations, offset, parent_name, child_index)
    }
}

/// Folding a child in through the method or through the free function gives the same: any two
/// results that meet the fold's contract for the same child and arguments agree in value, span
/// and annotations.
pub proof fn lemma_fold_agrees<T>(
    result: Result<T>,
    child_annotations: Vec<Annotation>,
    offset: usize,
    parent_name: Seq<char>,
    child_index: usize,
    r1: std::result::Result<(T, Range<usize>, Vec<Annotation>), Annotation>,
    r2: std::result::Result<(T, Range<usize>, Vec<Annotation>), Annotation>,
)
    requires
        result.folded(r1, child_annotations, offset, parent_name, child_index),
        result.folded(r2, child_annotations, offset, parent_name, child_index),
    ensures
        match (r1, r2) {
            (Ok((v1, s1, c1)), Ok((v2, s2, c2))) => v1 == v2 && s1 == s2 && views(c1@) == views(
                c2@,
            ),
            (Err(a1), Err(a2)) => a1.view() == a2.view(),
            _ => false,
        },
{
}

} // verus!

verus! {

/// Where a parent stands after folding in one child.
pub enum Step<V> {
    /// The child succeeded: the bytes consumed so far, where the next child starts, the
    /// child's value and the parent's children so far.
    Next { consumed: int, offset: int, value: V, children: Seq<AnnoView> },
    /// The child failed: the bytes consumed so far and the parent's annotation.
    Stop { consumed: int, anno: AnnoView },
}

/// The step taken by a parent named `parent` whose child number `index`, started after
/// `consumed` bytes and placed at `offset`, had outcome `o`.
pub open spec fn spec_step<V>(
    o: Outcome<V>,
    consumed: int,
    offset: int,
    children: Seq<AnnoView>,
    parent: Seq<char>,
    index: nat,
) -> Step<V> {
    match o {
        Outcome::Parsed { consumed: c, value, anno } => {
            let a = adopted(anno, offset, parent, index);
            Step::Next {
                consumed: consumed + c,
                offset: span_end(a.result),
                value,
                children: children.push(a),
            }
        },
        Outcome::Failed { consumed: c, anno } => Step::Stop {
            consumed: consumed + c,
            anno: failed_parent(parent, children.push(adopted(anno, offset, parent, index))),
        },
    }
}

/// The model of what [`parse_child`] gave back.
pub open spec fn step_of<T: DeepView>(
    r: std::result::Result<(T, usize, Vec<Annotation>), Annotation>,
    consumed: int,
) -> Step<T::V> {
    match r {
        Ok((v, offset, children)) => Step::Next {
            consumed,
            offset: offset as int,
            value: v.deep_view(),
            children: views(children@),
        },
        Err(a) => Step::Stop { consumed, anno: a.view() },
    }
}

/// Runs child parser `p` of a parent named `parent` on the rest of the input, and folds its
/// result in as child number `index` at `offset`. Every position stays within `bound`, which
/// covers where the child starts plus what remains of the input, and every identifier is one of
/// the parent's description `tree`.
pub fn parse_child<P: Parser>(
    p: &mut P,
    input: &mut &[u8],
    children: Vec<Annotation>,
    offset: usize,
    parent: &str,
    index: usize,
    Ghost(bound): Ghost<int>,
    Ghost(tree): Ghost<SpecView>,
) -> (r: std::result::Result<(P::Output, usize, Vec<Annotation>), Annotation>)
    requires
        offset + old(input)@.len() <= bound <= usize::MAX,
        all_within(views(children@), bound),
        tree.name == parent@,
        index < tree.inner.len(),
        tree.inner[index as int] == old(p).spec_tree(),
        all_ids_among(views(children@), spec_identifiers(tree)),
    ensures
        *final(p) == *old(p),
        advanced(old(input)@, final(input)@),
        match r {
            Ok((v, next, ch)) => {
                &&& next + final(input)@.len() <= bound
                &&& all_within(views(ch@), bound)
                &&& all_ids_among(views(ch@), spec_identifiers(tree))
                &&& views(ch@).len() == views(children@).len() + 1
                &&& views(ch@).drop_last() == views(children@)
                &&& views(ch@).last().result matches ResultView::Success { start, end, .. }
                    && start == offset && end == next
                &&& adopted_as(views(ch@).last(), parent@, index as nat)
                &&& shows::<P::Output>(views(ch@).last(), v.deep_view())
            },
            Err(a) => {
                &&& a.view().id == parent@
                &&& a.view().result is Child
                &&& a.view().within(bound)
                &&& ids_among(a.view(), spec_identifiers(tree))
                &&& a.view().children.len() == views(children@).len() + 1
                &&& a.view().children.drop_last() == views(children@)
                &&& !(a.view().children.last().result is Success)
                &&& a.view() == failed_parent(
                    parent@,
                    views(children@).push(a.view().children.last()),
                )
                &&& adopted_as(a.view().children.last(), parent@, index as nat)
            },
        },
        old(p).is_pure() ==> step_of(r, taken(old(input)@, final(input)@)) == spec_step(
            old(p).spec_parse(old(input)@),
            0,
            offset as int,
            views(children@),
            parent@,
            index as nat,
        ),
{
    let ghost before = old(input)@;
    let res = p.parse(input);
    let ghost anno = result_anno(res);
    let ghost res_copy = res;
    proof {
        let c = taken(before, input@);
        lemma_within_mono(anno, before.len() as int, usize::MAX - offset);
        let pre = child_prefix(parent@, index as nat);
        lemma_within_updated(anno, before.len() as int, offset as int, pre);
        lemma_within_mono(anno.updated(offset as int, pre), before.len() + offset, bound);
        lemma_adopted_ids(anno, tree, index as nat, offset as int);
        lemma_identifiers_root(tree);
    }
    let ghost old_views = views(children@);
    match fold(res, children, offset, parent, index) {
        Ok((v, span, ch)) => {
            proof {
                assert(views(ch@)[views(ch@).len() - 1] == adopted(anno, offset as int, parent@, index as nat));
                assert(all_within(views(ch@), bound));
                assert(adopted_as(views(ch@).last(), parent@, index as nat));
            }
            Ok((v, span.end, ch))
        },
        Err(a) => {
            proof {
                assert(a.view().children == old_views.push(adopted(anno, offset as int, parent@, index as nat)));
                assert(adopted_as(a.view().children.last(), parent@, index as nat));
            }
            Err(a)
        },
    }
}

} // verus!
