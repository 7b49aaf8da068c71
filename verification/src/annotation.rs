use crate::render::Render;
use crate::text::{prepend_str, push_str};
use std::ops::Range;
use vstd::prelude::*;

verus! {

/// What is known of a parser's outcome at one node of the annotation tree.
pub enum ResultView {
    Success { start: int, end: int, value: Seq<char> },
    Incomplete { start: int },
    Child { start: int },
    Invalid { start: int, end: int, reason: Seq<char> },
}

/// The mathematical model of an [`Annotation`] tree.
pub struct AnnoView {
    pub id: Seq<char>,
    pub children: Seq<AnnoView>,
    pub result: ResultView,
}

impl ResultView {
    /// The same result with every position moved `offset` bytes to the right.
    pub open spec fn shifted(self, offset: int) -> ResultView {
        match self {
            ResultView::Success { start, end, value } => ResultView::Success {
                start: start + offset,
                end: end + offset,
                value,
            },
            ResultView::Incomplete { start } => ResultView::Incomplete { start: start + offset },
            ResultView::Child { start } => ResultView::Child { start: start + offset },
            ResultView::Invalid { start, end, reason } => ResultView::Invalid {
                start: start + offset,
                end: end + offset,
                reason,
            },
        }
    }

    /// Every position of the result lies in `0..=n`.
    pub open spec fn within(self, n: int) -> bool {
        match self {
            ResultView::Success { start, end, .. } => 0 <= start <= n && 0 <= end <= n,
            ResultView::Incomplete { start } => 0 <= start <= n,
            ResultView::Child { start } => 0 <= start <= n,
            ResultView::Invalid { start, end, .. } => 0 <= start <= n && 0 <= end <= n,
        }
    }

    /// The start and, where there is one, the end of the result's span.
    pub open spec fn span_of(self) -> (int, Option<int>) {
        match self {
            ResultView::Success { start, end, .. } => (start, Some(end)),
            ResultView::Invalid { start, end, .. } => (start, Some(end)),
            ResultView::Incomplete { start } => (start, None),
            ResultView::Child { start } => (start, None),
        }
    }
}

impl AnnoView {
    /// The tree as a parent sees it: every identifier gets `prefix` in front, and every
    /// position moves `offset` bytes to the right.
    pub open spec fn updated(self, offset: int, prefix: Seq<char>) -> AnnoView
        decreases self,
    {
        AnnoView {
            id: prefix + self.id,
            children: Seq::new(
                self.children.len(),
                |i: int|
                    if 0 <= i < self.children.len() {
                        self.children[i].updated(offset, prefix)
                    } else {
                        arbitrary()
                    },
            ),
            result: self.result.shifted(offset),
        }
    }

    /// Every position in the tree lies in `0..=n`.
    pub open spec fn within(self, n: int) -> bool
        decreases self,
    {
        &&& self.result.within(n)
        &&& forall|i: int|
            0 <= i < self.children.len() ==> (#[trigger] self.children[i]).within(n)
    }

    /// The number of levels of the tree.
    pub open spec fn depth(self) -> nat
        decreases self,
    {
        1 + max_depth_of(self.children, self.children.len())
    }
}

/// The greatest depth among the first `k` trees of `s` (0 where there are none).
pub open spec fn max_depth_of(s: Seq<AnnoView>, k: nat) -> nat
    decreases s, k,
{
    if k == 0 || k > s.len() {
        0
    } else {
        let rest = max_depth_of(s, (k - 1) as nat);
        let d = s[k - 1].depth();
        if d > rest {
            d
        } else {
            rest
        }
    }
}

/// A node of the annotation tree produced while parsing.
#[derive(Debug)]
pub struct Annotation {
    pub parser_id: String,
    pub children: Vec<Annotation>,
    pub result: AnnotationResult,
}

#[derive(Debug)]
pub enum AnnotationResult {
    Success { span: Range<usize>, value: String },
    /// Not enough data for the parser
    Incomplete { start: usize },
    /// Child parser has failed for any reason
    Child { start: usize },
    /// Enough data, but data was unexpected.
    /// Child parsers have succeeded, but something at this level has failed.
    Invalid { span: Range<usize>, reason: String },
}

impl AnnotationResult {
    pub open spec fn view(&self) -> ResultView {
        match self {
            AnnotationResult::Success { span, value } => ResultView::Success {
                start: span.start as int,
                end: span.end as int,
                value: value@,
            },
            AnnotationResult::Incomplete { start } => ResultView::Incomplete { start: *start as int },
            AnnotationResult::Child { start } => ResultView::Child { start: *start as int },
            AnnotationResult::Invalid { span, reason } => ResultView::Invalid {
                start: span.start as int,
                end: span.end as int,
                reason: reason@,
            },
        }
    }

    /// The start of the span, and its end where the result has one.
    pub fn span(&self) -> (r: (usize, Option<usize>))
        ensures
            r.0 as int == self.view().span_of().0,
            r.1 matches Some(e) ==> self.view().span_of().1 == Some(e as int),
            r.1 is None ==> self.view().span_of().1 is None,
    {
        match self {
            AnnotationResult::Success { span, .. } => (span.start, Some(span.end)),
            AnnotationResult::Invalid { span, .. } => (span.start, Some(span.end)),
            AnnotationResult::Incomplete { start } => (*start, None),
            AnnotationResult::Child { start } => (*start, None),
        }
    }

    pub fn is_ok(&self) -> (r: bool)
        ensures
            r == (self.view() is Success),
    {
        match self {
            AnnotationResult::Success { .. } => true,
            _ => false,
        }
    }

    /// The text that the result shows: the value on success, else the kind of error.
    pub fn to_string(&self) -> (r: String)
        ensures
            r@ == self.view().display(),
    {
        match self {
            AnnotationResult::Success { value, .. } => value.clone(),
            AnnotationResult::Incomplete { .. } => "ERR(INCOMPLETE)".to_owned(),
            AnnotationResult::Child { .. } => "ERR(CHILD)".to_owned(),
            AnnotationResult::Invalid { reason, .. } => {
                let mut s = "ERR(".to_owned();
                push_str(&mut s, reason.as_str());
                push_str(&mut s, ")");
                s
            },
        }
    }

    /// Moves every position `offset` bytes to the right.
    pub fn shift_span(&mut self, offset: usize)
        requires
            old(self).view().within(usize::MAX - offset),
        ensures
            final(self).view() == old(self).view().shifted(offset as int),
    {
        match self {
            AnnotationResult::Success { span, .. } => {
                span.start = span.start + offset;
                span.end = span.end + offset;
            },
            AnnotationResult::Invalid { span, .. } => {
                span.start = span.start + offset;
                span.end = span.end + offset;
            },
            AnnotationResult::Incomplete { start } => {
                *start = *start + offset;
            },
            AnnotationResult::Child { start } => {
                *start = *start + offset;
            },
        }
    }
}

impl ResultView {
    /// The text that a result shows.
    pub open spec fn display(self) -> Seq<char> {
        match self {
            ResultView::Success { value, .. } => value,
            ResultView::Incomplete { .. } => "ERR(INCOMPLETE)"@,
            ResultView::Child { .. } => "ERR(CHILD)"@,
            ResultView::Invalid { reason, .. } => "ERR("@ + reason + ")"@,
        }
    }
}

/// The views of a sequence of annotations.
pub open spec fn views(s: Seq<Annotation>) -> Seq<AnnoView> {
    Seq::new(s.len(), |i: int| s[i].view())
}

impl Annotation {
    pub open spec fn view(&self) -> AnnoView
        decreases self,
    {
        AnnoView {
            id: self.parser_id@,
            children: Seq::new(
                self.children@.len(),
                |i: int|
                    if 0 <= i < self.children@.len() {
                        self.children@[i].view()
                    } else {
                        arbitrary()
                    },
            ),
            result: self.result.view(),
        }
    }

    fn new(parser_id: &str, children: Vec<Self>, result: AnnotationResult) -> (r: Self)
        ensures
            r.view() == (AnnoView { id: parser_id@, children: views(children@), result: result.view() }),
    {
        let r = Annotation { parser_id: parser_id.to_owned(), children, result };
        assert(r.view().children =~= views(children@));
        r
    }

    /// A successful parse of `span`, showing `value`.
    pub fn success<T: Render>(parser_id: &str, span: Range<usize>, value: &T, children: Vec<Self>) -> (r: Self)
        ensures
            r.view().id == parser_id@,
            r.view().children == views(children@),
            r.view().result matches ResultView::Success { start, end, value: text } && start
                == span.start && end == span.end && (T::render_exact() ==> text == T::spec_render(
                value.deep_view(),
            )),
    {
        let text = value.render();
        Self::new(parser_id, children, AnnotationResult::Success { span, value: text })
    }

    /// Not enough data for the parser that starts at `start`.
    pub fn incomplete(parser_id: &str, start: usize, children: Vec<Self>) -> (r: Self)
        ensures
            r.view() == (AnnoView {
                id: parser_id@,
                children: views(children@),
                result: ResultView::Incomplete { start: start as int },
            }),
    {
        Self::new(parser_id, children, AnnotationResult::Incomplete { start })
    }

    /// A child of the parser that starts at `start` has failed.
    pub fn child(parser_id: &str, start: usize, children: Vec<Self>) -> (r: Self)
        ensures
            r.view() == (AnnoView {
                id: parser_id@,
                children: views(children@),
                result: ResultView::Child { start: start as int },
            }),
    {
        Self::new(parser_id, children, AnnotationResult::Child { start })
    }

    /// The data in `span` was read but is not what the parser expects.
    pub fn invalid(parser_id: &str, span: Range<usize>, reason: String, children: Vec<Self>) -> (r: Self)
        ensures
            r.view() == (AnnoView {
                id: parser_id@,
                children: views(children@),
                result: ResultView::Invalid {
                    start: span.start as int,
                    end: span.end as int,
                    reason: reason@,
                },
            }),
    {
        Self::new(parser_id, children, AnnotationResult::Invalid { span, reason })
    }

    /// The number of levels of the tree: one for this node and the most of any child.
    pub fn max_depth(&self) -> (r: usize)
        requires
            self.view().depth() <= usize::MAX,
        ensures
            r == self.view().depth(),
        decreases self,
    {
        let mut best: usize = 0;
        let n = self.children.len();
        for i in 0..n
            invariant
                n == self.children@.len(),
                self.view().depth() <= usize::MAX,
                best == max_depth_of(self.view().children, i as nat),
        {
            proof {
                lemma_max_depth_of_bound(self.view().children, n as nat, i as int);
                assert(self.view().children[i as int] == self.children@[i as int].view());
            }
            let d = self.children[i].max_depth();
            if d > best {
                best = d;
            }
        }
        1 + best
    }

    /// Updates the tree with what the parent parser knows: the identifiers get `prefix` in
    /// front, and the positions move `span_offset` bytes to the right.
    pub fn update_with_parent(&mut self, span_offset: usize, prefix: &str)
        requires
            old(self).view().within(usize::MAX - span_offset),
        ensures
            final(self).view() == old(self).view().updated(span_offset as int, prefix@),
        decreases old(self).view(),
    {
        prepend_str(&mut self.parser_id, prefix);
        self.result.shift_span(span_offset);
        let ghost old_children = old(self).view().children;
        let n = self.children.len();
        for i in 0..n
            invariant
                n == self.children@.len(),
                old_children.len() == n,
                old_children == old(self).view().children,
                old(self).view().within(usize::MAX - span_offset),
                forall|j: int|
                    0 <= j < i ==> #[trigger] self.children@[j].view() == old_children[j].updated(
                        span_offset as int,
                        prefix@,
                    ),
                forall|j: int| i <= j < n ==> #[trigger] self.children@[j].view() == old_children[j],
                self.parser_id@ == prefix@ + old(self).view().id,
                self.result.view() == old(self).view().result.shifted(span_offset as int),
        {
            proof {
                let ov = old(self).view();
                assert(ov.within(usize::MAX - span_offset));
                assert(ov.children[i as int] == old_children[i as int]);
                assert(ov.children[i as int].within(usize::MAX - span_offset));
            }
            self.children[i].update_with_parent(span_offset, prefix);
        }
        proof {
            let target = old(self).view().updated(span_offset as int, prefix@);
            assert forall|j: int| 0 <= j < n implies #[trigger] self.view().children[j]
                == target.children[j] by {
                assert(self.view().children[j] == self.children@[j].view());
            }
            assert(self.view().children =~= target.children);
        }
    }
}

/// Taking one more tree into account never lowers the greatest depth, which bounds each tree.
pub proof fn lemma_max_depth_of_bound(s: Seq<AnnoView>, k: nat, i: int)
    requires
        0 <= i < k <= s.len(),
    ensures
        s[i].depth() <= max_depth_of(s, k),
    decreases k,
{
    if i < k - 1 {
        lemma_max_depth_of_bound(s, (k - 1) as nat, i);
    }
}

} // verus!

verus! {

/// Updating a tree for a parent and then for that parent's parent is the same as one update
/// with both offsets added and both prefixes joined, the outer one first: a tree nested in
/// several parents carries the path through all of them, and its spans are measured from the
/// outermost start.
pub proof fn lemma_updated_compose(
    a: AnnoView,
    offset1: int,
    prefix1: Seq<char>,
    offset2: int,
    prefix2: Seq<char>,
)
    ensures
        a.updated(offset1, prefix1).updated(offset2, prefix2) == a.updated(
            offset1 + offset2,
            prefix2 + prefix1,
        ),
    decreases a,
{
    let lhs = a.updated(offset1, prefix1).updated(offset2, prefix2);
    let rhs = a.updated(offset1 + offset2, prefix2 + prefix1);
    assert(lhs.id =~= rhs.id);
    assert forall|i: int| 0 <= i < a.children.len() implies #[trigger] lhs.children[i]
        == rhs.children[i] by {
        lemma_updated_compose(a.children[i], offset1, prefix1, offset2, prefix2);
    }
    assert(lhs.children =~= rhs.children);
}

} // verus!
