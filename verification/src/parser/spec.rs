use crate::annotation::AnnoView;
use crate::parser::helpers::{child_prefix, make_prefix};
use crate::text::{decimal, is_digit, lemma_decimal_digits, lemma_decimal_injective, push_str};
use vstd::prelude::*;

verus! {

/// The mathematical model of a [`ParserSpec`].
pub struct SpecView {
    pub name: Seq<char>,
    pub inner: Seq<SpecView>,
    pub friendly_name: Option<Seq<char>>,
}

/// A representation of the entire parser that is applied to each file.
/// Does not hold any state.
#[derive(Debug, PartialEq, Eq)]
pub struct ParserSpec {
    pub name: String,
    pub inner: Vec<ParserSpec>,
    pub friendly_name: Option<String>,
}

/// The views of a sequence of parser descriptions.
pub open spec fn spec_views(s: Seq<ParserSpec>) -> Seq<SpecView> {
    Seq::new(s.len(), |i: int| s[i].view())
}

impl ParserSpec {
    pub open spec fn view(&self) -> SpecView
        decreases self,
    {
        SpecView {
            name: self.name@,
            inner: Seq::new(
                self.inner@.len(),
                |i: int|
                    if 0 <= i < self.inner@.len() {
                        self.inner@[i].view()
                    } else {
                        arbitrary()
                    },
            ),
            friendly_name: match self.friendly_name {
                Some(f) => Some(f@),
                None => None,
            },
        }
    }

    pub fn new(name: &str, children: Vec<ParserSpec>) -> (r: Self)
        ensures
            r.view() == (SpecView { name: name@, inner: spec_views(children@), friendly_name: None }),
    {
        let r = ParserSpec { name: name.to_owned(), inner: children, friendly_name: None };
        assert(r.view().inner =~= spec_views(children@));
        r
    }

    /// Parser with no children
    pub fn empty(name: &str) -> (r: Self)
        ensures
            r.view() == (SpecView { name: name@, inner: seq![], friendly_name: None }),
    {
        let r = Self::new(name, Vec::new());
        assert(spec_views(Seq::<ParserSpec>::empty()) =~= Seq::<SpecView>::empty());
        r
    }

    pub fn with_friendly(self, name: &str) -> (r: Self)
        ensures
            r.view() == (SpecView { friendly_name: Some(name@), ..self.view() }),
    {
        let r = ParserSpec { name: self.name, inner: self.inner, friendly_name: Some(name.to_owned()) };
        assert(r.view().inner =~= self.view().inner);
        r
    }
}

/// The views of a sequence of strings.
pub open spec fn string_views(s: Seq<String>) -> Seq<Seq<char>> {
    Seq::new(s.len(), |i: int| s[i]@)
}

/// The identifiers of a parser and all its descendants: its own name, then, for each child in
/// turn, the child's identifiers with the prefix `{name}[{index}]/`.
pub open spec fn spec_identifiers(t: SpecView) -> Seq<Seq<char>>
    decreases t, t.inner.len() + 1,
{
    seq![t.name] + identifiers_upto(t, t.inner.len())
}

/// The prefixed identifiers of the first `k` children of `t`.
pub open spec fn identifiers_upto(t: SpecView, k: nat) -> Seq<Seq<char>>
    decreases t, k,
{
    if k == 0 || k > t.inner.len() {
        seq![]
    } else {
        identifiers_upto(t, (k - 1) as nat) + spec_identifiers(t.inner[k - 1]).map_values(
            |id: Seq<char>| child_prefix(t.name, (k - 1) as nat) + id,
        )
    }
}

impl ParserSpec {
    /// Create unique paths to each hierarchy leaf
    pub fn identifiers(&self) -> (r: Vec<String>)
        ensures
            string_views(r@) == spec_identifiers(self.view()),
            string_views(r@).no_duplicates(),
        decreases self,
    {
        proof {
            lemma_identifiers_unique(self.view());
        }
        let ghost t = self.view();
        let mut out: Vec<String> = Vec::new();
        out.push(self.name.clone());
        let n = self.inner.len();
        proof {
            assert(string_views(out@) =~= seq![t.name] + identifiers_upto(t, 0));
        }
        for i in 0..n
            invariant
                n == self.inner@.len(),
                t == self.view(),
                string_views(out@) == seq![t.name] + identifiers_upto(t, i as nat),
        {
            let child_ids = self.inner[i].identifiers();
            let prefix = make_prefix(self.name.as_str(), i);
            let ghost base = string_views(out@);
            let ghost mapped = spec_identifiers(t.inner[i as int]).map_values(
                |id: Seq<char>| child_prefix(t.name, i as nat) + id,
            );
            proof {
                assert(t.inner[i as int] == self.inner@[i as int].view());
            }
            let m = child_ids.len();
            for j in 0..m
                invariant
                    m == child_ids@.len(),
                    string_views(child_ids@) == spec_identifiers(t.inner[i as int]),
                    prefix@ == child_prefix(t.name, i as nat),
                    mapped == spec_identifiers(t.inner[i as int]).map_values(
                        |id: Seq<char>| child_prefix(t.name, i as nat) + id,
                    ),
                    string_views(out@) == base + mapped.take(j as int),
            {
                let mut id = prefix.clone();
                push_str(&mut id, child_ids[j].as_str());
                let ghost before = out@;
                out.push(id);
                proof {
                    assert(string_views(child_ids@)[j as int] == child_ids@[j as int]@);
                    assert(mapped.take(j + 1) =~= mapped.take(j as int).push(mapped[j as int]));
                    assert(string_views(out@) =~= string_views(before).push(id@));
                }
            }
            proof {
                assert(mapped.take(m as int) =~= mapped);
                assert(identifiers_upto(t, (i + 1) as nat) == identifiers_upto(t, i as nat) + mapped);
                assert(string_views(out@) =~= seq![t.name] + identifiers_upto(t, (i + 1) as nat));
            }
        }
        proof {
            assert(t.inner.len() == n);
        }
        out
    }
}

/// The number of parsers in a description: the parser itself and all its descendants.
pub open spec fn node_count(t: SpecView) -> nat
    decreases t, t.inner.len() + 1,
{
    1 + node_count_upto(t, t.inner.len())
}

/// The number of parsers under the first `k` children of `t`.
pub open spec fn node_count_upto(t: SpecView, k: nat) -> nat
    decreases t, k,
{
    if k == 0 || k > t.inner.len() {
        0
    } else {
        node_count_upto(t, (k - 1) as nat) + node_count(t.inner[k - 1])
    }
}

/// The prefixes that a parent gives two different children differ where the children's
/// numbers are written, whatever follows them.
pub proof fn lemma_child_prefix_distinct(
    name: Seq<char>,
    i: nat,
    j: nat,
    s1: Seq<char>,
    s2: Seq<char>,
)
    requires
        i != j,
    ensures
        child_prefix(name, i) + s1 != child_prefix(name, j) + s2,
{
    reveal_strlit("[");
    reveal_strlit("]/");
    let w1 = child_prefix(name, i) + s1;
    let w2 = child_prefix(name, j) + s2;
    let l: int = name.len() as int + 1;
    let di = decimal(i);
    let dj = decimal(j);
    lemma_decimal_digits(i);
    lemma_decimal_digits(j);
    assert forall|p: int| 0 <= p < di.len() implies w1[l + p] == di[p] by {}
    assert forall|p: int| 0 <= p < dj.len() implies w2[l + p] == dj[p] by {}
    assert(w1[l + di.len() as int] == ']');
    assert(w2[l + dj.len() as int] == ']');
    if w1 == w2 {
        if di.len() < dj.len() {
            assert(is_digit(dj[di.len() as int]));
            assert(w2[l + di.len() as int] == dj[di.len() as int]);
        } else if dj.len() < di.len() {
            assert(is_digit(di[dj.len() as int]));
            assert(w1[l + dj.len() as int] == di[dj.len() as int]);
        } else {
            assert(di =~= w1.subrange(l, l + di.len() as int));
            assert(dj =~= w2.subrange(l, l + dj.len() as int));
            lemma_decimal_injective(i, j);
        }
    }
}

/// Every identifier under the first `k` children of `t` is a child's identifier with the
/// prefix that `t` gives that child.
pub proof fn lemma_identifiers_upto_form(t: SpecView, k: nat, m: int)
    requires
        k <= t.inner.len(),
        0 <= m < identifiers_upto(t, k).len(),
    ensures
        exists|i: nat, s: Seq<char>|
            i < k && #[trigger] identifiers_upto(t, k)[m] == child_prefix(t.name, i) + s,
    decreases k,
{
    let prev = identifiers_upto(t, (k - 1) as nat);
    if m < prev.len() {
        lemma_identifiers_upto_form(t, (k - 1) as nat, m);
        let (i, s) = choose|i: nat, s: Seq<char>|
            i < k - 1 && #[trigger] prev[m] == child_prefix(t.name, i) + s;
        assert(identifiers_upto(t, k)[m] == prev[m]);
        assert(identifiers_upto(t, k)[m] == child_prefix(t.name, i) + s);
    } else {
        let ids = spec_identifiers(t.inner[k - 1]);
        let s = ids[m - prev.len()];
        assert(identifiers_upto(t, k)[m] == child_prefix(t.name, (k - 1) as nat) + s);
    }
}

/// Identifiers under the first `k` children of a parser are all different, where each child's
/// own identifiers are.
proof fn lemma_identifiers_upto_unique(t: SpecView, k: nat)
    requires
        k <= t.inner.len(),
        forall|i: int| 0 <= i < t.inner.len() ==> (#[trigger] spec_identifiers(t.inner[i])).no_duplicates(),
    ensures
        identifiers_upto(t, k).no_duplicates(),
    decreases k,
{
    if k > 0 {
        lemma_identifiers_upto_unique(t, (k - 1) as nat);
        let prev = identifiers_upto(t, (k - 1) as nat);
        let ids = spec_identifiers(t.inner[k - 1]);
        let pre = child_prefix(t.name, (k - 1) as nat);
        let mapped = ids.map_values(|id: Seq<char>| pre + id);
        let all = identifiers_upto(t, k);
        assert(all == prev + mapped);
        assert forall|a: int, b: int| 0 <= a < all.len() && 0 <= b < all.len() && a != b implies all[a]
            != all[b] by {
            if a < prev.len() && b < prev.len() {
            } else if a >= prev.len() && b >= prev.len() {
                let sa = ids[a - prev.len()];
                let sb = ids[b - prev.len()];
                assert(sa != sb);
                if all[a] == all[b] {
                    assert(sa =~= all[a].subrange(pre.len() as int, all[a].len() as int));
                    assert(sb =~= all[b].subrange(pre.len() as int, all[b].len() as int));
                }
            } else {
                let (x, y) = if a < prev.len() {
                    (a, b)
                } else {
                    (b, a)
                };
                lemma_identifiers_upto_form(t, (k - 1) as nat, x);
                let (i, s) = choose|i: nat, s: Seq<char>|
                    i < k - 1 && #[trigger] prev[x] == child_prefix(t.name, i) + s;
                lemma_child_prefix_distinct(t.name, i, (k - 1) as nat, s, ids[y - prev.len()]);
            }
        }
    }
}

/// The identifiers of a parser's description are all different: each one is the path to a
/// parser of the hierarchy.
pub proof fn lemma_identifiers_unique(t: SpecView)
    ensures
        spec_identifiers(t).no_duplicates(),
    decreases t, t.inner.len() + 1,
{
    reveal_strlit("[");
    assert forall|i: int| 0 <= i < t.inner.len() implies (#[trigger] spec_identifiers(
        t.inner[i],
    )).no_duplicates() by {
        lemma_identifiers_unique(t.inner[i]);
    }
    lemma_identifiers_upto_unique(t, t.inner.len());
    let rest = identifiers_upto(t, t.inner.len());
    let all = spec_identifiers(t);
    assert forall|a: int, b: int| 0 <= a < all.len() && 0 <= b < all.len() && a != b implies all[a]
        != all[b] by {
        if a > 0 && b > 0 {
            assert(all[a] == rest[a - 1]);
            assert(all[b] == rest[b - 1]);
        } else {
            let x = if a == 0 {
                b
            } else {
                a
            };
            lemma_identifiers_upto_form(t, t.inner.len(), x - 1);
            let (i, s) = choose|i: nat, s: Seq<char>|
                i < t.inner.len() && #[trigger] rest[x - 1] == child_prefix(t.name, i) + s;
            assert(all[x].len() > t.name.len());
        }
    }
}

/// A parser's description has one identifier for each parser of the hierarchy.
pub proof fn lemma_identifiers_count(t: SpecView)
    ensures
        spec_identifiers(t).len() == node_count(t),
    decreases t, t.inner.len() + 1,
{
    lemma_identifiers_upto_count(t, t.inner.len());
}

proof fn lemma_identifiers_upto_count(t: SpecView, k: nat)
    requires
        k <= t.inner.len(),
    ensures
        identifiers_upto(t, k).len() == node_count_upto(t, k),
    decreases t, k,
{
    if k > 0 {
        lemma_identifiers_upto_count(t, (k - 1) as nat);
        lemma_identifiers_count(t.inner[k - 1]);
    }
}

/// Every identifier in annotation tree `a` is one of `ids`.
pub open spec fn ids_among(a: AnnoView, ids: Seq<Seq<char>>) -> bool
    decreases a,
{
    &&& ids.contains(a.id)
    &&& forall|i: int| 0 <= i < a.children.len() ==> ids_among(#[trigger] a.children[i], ids)
}

/// Every identifier in the trees of `s` is one of `ids`.
pub open spec fn all_ids_among(s: Seq<AnnoView>, ids: Seq<Seq<char>>) -> bool {
    forall|j: int| 0 <= j < s.len() ==> ids_among(#[trigger] s[j], ids)
}

/// A parser's own name is its first identifier.
pub proof fn lemma_identifiers_root(t: SpecView)
    ensures
        spec_identifiers(t).contains(t.name),
{
    assert(spec_identifiers(t)[0] == t.name);
}

proof fn lemma_identifiers_upto_child(t: SpecView, k: nat, i: nat, x: Seq<char>)
    requires
        i < k <= t.inner.len(),
        spec_identifiers(t.inner[i as int]).contains(x),
    ensures
        identifiers_upto(t, k).contains(child_prefix(t.name, i) + x),
    decreases k,
{
    let prev = identifiers_upto(t, (k - 1) as nat);
    let mapped = spec_identifiers(t.inner[k - 1]).map_values(
        |id: Seq<char>| child_prefix(t.name, (k - 1) as nat) + id,
    );
    let all = identifiers_upto(t, k);
    assert(all == prev + mapped);
    if i < k - 1 {
        lemma_identifiers_upto_child(t, (k - 1) as nat, i, x);
        let m = choose|m: int| 0 <= m < prev.len() && prev[m] == child_prefix(t.name, i) + x;
        assert(all[m] == prev[m]);
    } else {
        let ids = spec_identifiers(t.inner[i as int]);
        let m = choose|m: int| 0 <= m < ids.len() && ids[m] == x;
        assert(all[prev.len() + m] == mapped[m]);
    }
}

/// An identifier of child `i` of a parser, with the prefix that the parser gives that child, is
/// an identifier of the parser.
pub proof fn lemma_identifiers_child(t: SpecView, i: nat, x: Seq<char>)
    requires
        i < t.inner.len(),
        spec_identifiers(t.inner[i as int]).contains(x),
    ensures
        spec_identifiers(t).contains(child_prefix(t.name, i) + x),
{
    lemma_identifiers_upto_child(t, t.inner.len(), i, x);
    let rest = identifiers_upto(t, t.inner.len());
    let k = choose|k: int| 0 <= k < rest.len() && rest[k] == child_prefix(t.name, i) + x;
    assert(spec_identifiers(t)[k + 1] == rest[k]);
}

/// An annotation whose identifiers are those of child `i` of parser description `t` has, once
/// the parser adopts it as that child, only identifiers of `t`.
pub proof fn lemma_adopted_ids(a: AnnoView, t: SpecView, i: nat, offset: int)
    requires
        i < t.inner.len(),
        ids_among(a, spec_identifiers(t.inner[i as int])),
    ensures
        ids_among(a.updated(offset, child_prefix(t.name, i)), spec_identifiers(t)),
    decreases a,
{
    let u = a.updated(offset, child_prefix(t.name, i));
    lemma_identifiers_child(t, i, a.id);
    assert forall|j: int| 0 <= j < u.children.len() implies ids_among(
        #[trigger] u.children[j],
        spec_identifiers(t),
    ) by {
        lemma_adopted_ids(a.children[j], t, i, offset);
    }
}

/// The model of a [`StyledLine`].
pub struct LineView {
    pub spans: Seq<Seq<char>>,
    pub color_key: Seq<char>,
    pub highlighted: bool,
}

/// One line of the text that shows a parser hierarchy: its pieces of text, the identifier whose
/// colour it is drawn in, and whether it stands out on a white background.
pub struct StyledLine {
    pub spans: Vec<String>,
    pub color_key: String,
    pub highlighted: bool,
}

impl StyledLine {
    pub open spec fn view(&self) -> LineView {
        LineView { spans: string_views(self.spans@), color_key: self.color_key@, highlighted: self.highlighted }
    }
}

/// The views of a sequence of lines.
pub open spec fn line_views(s: Seq<StyledLine>) -> Seq<LineView> {
    Seq::new(s.len(), |i: int| s[i].view())
}

/// `n` spaces.
pub open spec fn spaces(n: nat) -> Seq<char> {
    Seq::new(n, |i: int| ' ')
}

/// The lines that show parser `t` at nesting depth `depth`, its identifier being `prefix`
/// followed by its name: a line with the indent, the name and, where it has children, an
/// opening bracket; the children's lines one level deeper; and, where it has children, a
/// closing line. The line of the parser whose identifier is `highlight` is highlighted.
pub open spec fn spec_lines(
    t: SpecView,
    depth: nat,
    prefix: Seq<char>,
    highlight: Option<Seq<char>>,
) -> Seq<LineView>
    decreases t, t.inner.len() + 1,
{
    let id = prefix + t.name;
    let has_children = t.inner.len() > 0;
    let first = LineView {
        spans: seq![spaces(depth), t.name, if has_children { "("@ } else { seq![] }],
        color_key: id,
        highlighted: highlight == Some(id),
    };
    let close = if has_children {
        seq![LineView { spans: seq![spaces(depth), ")"@], color_key: id, highlighted: false }]
    } else {
        seq![]
    };
    seq![first] + lines_upto(t, depth, id, highlight, t.inner.len()) + close
}

/// The lines of the first `k` children of `t`, whose identifier is `id`.
pub open spec fn lines_upto(
    t: SpecView,
    depth: nat,
    id: Seq<char>,
    highlight: Option<Seq<char>>,
    k: nat,
) -> Seq<LineView>
    decreases t, k,
{
    if k == 0 || k > t.inner.len() {
        seq![]
    } else {
        lines_upto(t, depth, id, highlight, (k - 1) as nat) + spec_lines(
            t.inner[k - 1],
            depth + 1,
            child_prefix(id, (k - 1) as nat),
            highlight,
        )
    }
}

/// The identifiers of parser `t` with `prefix` in front of each.
pub open spec fn prefixed_identifiers(t: SpecView, prefix: Seq<char>) -> Seq<Seq<char>> {
    spec_identifiers(t).map_values(|x: Seq<char>| prefix + x)
}

/// Every line that shows a parser hierarchy is drawn in the colour of one of the hierarchy's
/// identifiers, with `prefix` in front; with no prefix, of one of its identifiers.
pub proof fn lemma_lines_keys(t: SpecView, depth: nat, prefix: Seq<char>, highlight: Option<Seq<char>>)
    ensures
        forall|k: int|
            0 <= k < spec_lines(t, depth, prefix, highlight).len() ==> prefixed_identifiers(
                t,
                prefix,
            ).contains(#[trigger] spec_lines(t, depth, prefix, highlight)[k].color_key),
        prefix == Seq::<char>::empty() ==> prefixed_identifiers(t, prefix) == spec_identifiers(t),
    decreases t, t.inner.len() + 1,
{
    let id = prefix + t.name;
    let all = spec_lines(t, depth, prefix, highlight);
    let ids = prefixed_identifiers(t, prefix);
    lemma_identifiers_root(t);
    let r = choose|r: int| 0 <= r < spec_identifiers(t).len() && spec_identifiers(t)[r] == t.name;
    assert(ids[r] == id);
    lemma_lines_upto_keys(t, depth, prefix, highlight, t.inner.len());
    let mid = lines_upto(t, depth, id, highlight, t.inner.len());
    assert forall|k: int| 0 <= k < all.len() implies ids.contains(#[trigger] all[k].color_key) by {
        if 0 < k <= mid.len() {
            assert(all[k] == mid[k - 1]);
        } else {
            assert(all[k].color_key == id);
        }
    }
    if prefix == Seq::<char>::empty() {
        assert(ids =~= spec_identifiers(t));
    }
}

/// The lines of the first `k` children of `t` are drawn in the colours of identifiers of `t`,
/// with `prefix` in front.
proof fn lemma_lines_upto_keys(
    t: SpecView,
    depth: nat,
    prefix: Seq<char>,
    highlight: Option<Seq<char>>,
    k: nat,
)
    requires
        k <= t.inner.len(),
    ensures
        forall|m: int|
            0 <= m < lines_upto(t, depth, prefix + t.name, highlight, k).len() ==> prefixed_identifiers(
                t,
                prefix,
            ).contains(#[trigger] lines_upto(t, depth, prefix + t.name, highlight, k)[m].color_key),
    decreases t, k,
{
    if k > 0 {
        let id = prefix + t.name;
        let i = (k - 1) as nat;
        let child = t.inner[i as int];
        let cp = child_prefix(id, i);
        lemma_lines_upto_keys(t, depth, prefix, highlight, i);
        lemma_lines_keys(child, depth + 1, cp, highlight);
        let prev = lines_upto(t, depth, id, highlight, i);
        let mine = spec_lines(child, depth + 1, cp, highlight);
        let all = lines_upto(t, depth, id, highlight, k);
        let ids = prefixed_identifiers(t, prefix);
        assert(all == prev + mine);
        assert forall|m: int| 0 <= m < all.len() implies ids.contains(#[trigger] all[m].color_key) by {
            if m < prev.len() {
                assert(all[m] == prev[m]);
            } else {
                assert(all[m] == mine[m - prev.len()]);
                let key = mine[m - prev.len()].color_key;
                let cids = prefixed_identifiers(child, cp);
                assert(cids.contains(key));
                let j = choose|j: int| 0 <= j < cids.len() && cids[j] == key;
                let x = spec_identifiers(child)[j];
                assert(key == cp + x);
                assert(spec_identifiers(child).contains(x));
                lemma_identifiers_child(t, i, x);
                let y = child_prefix(t.name, i) + x;
                let q = choose|q: int| 0 <= q < spec_identifiers(t).len() && spec_identifiers(t)[q] == y;
                assert(cp + x =~= prefix + y);
                assert(ids[q] == key);
            }
        }
    }
}

/// A child has no more parsers than the first `k` children together, where it is among them.
proof fn lemma_node_count_upto_bound(t: SpecView, k: nat, i: int)
    requires
        0 <= i < k <= t.inner.len(),
    ensures
        node_count(t.inner[i]) <= node_count_upto(t, k),
    decreases k,
{
    if i < k - 1 {
        lemma_node_count_upto_bound(t, (k - 1) as nat, i);
    }
}

/// A string of `n` spaces.
fn indent(n: usize) -> (r: String)
    ensures
        r@ == spaces(n as nat),
{
    let mut s = String::new();
    for i in 0..n
        invariant
            s@ == spaces(i as nat),
    {
        crate::text::push_char(&mut s, ' ');
        proof {
            assert(s@ =~= spaces((i + 1) as nat));
        }
    }
    s
}

impl ParserSpec {
    /// The lines that show this parser and its descendants, starting at nesting depth `depth`,
    /// with `prefix` in front of its name in its identifier, and the line of the parser whose
    /// identifier is `highlight` highlighted.
    pub fn to_lines_styled(&self, depth: usize, prefix: &str, highlight: Option<&str>) -> (r: Vec<
        StyledLine,
    >)
        requires
            depth + node_count(self.view()) <= usize::MAX,
        ensures
            line_views(r@) == spec_lines(
                self.view(),
                depth as nat,
                prefix@,
                match highlight {
                    Some(h) => Some(h@),
                    None => None,
                },
            ),
        decreases self,
    {
        let ghost t = self.view();
        let ghost hl = match highlight {
            Some(h) => Some(h@),
            None => None,
        };
        let mut lines: Vec<StyledLine> = Vec::new();
        let pad = indent(depth);
        let mut id = prefix.to_owned();
        push_str(&mut id, self.name.as_str());
        let highlighted = match highlight {
            Some(parser_id) => {
                let wanted = parser_id.to_owned();
                id == wanted
            },
            None => false,
        };
        let has_children = self.inner.len() > 0;
        let mut spans = Vec::new();
        spans.push(pad.clone());
        spans.push(self.name.clone());
        spans.push(if has_children { "(".to_owned() } else { String::new() });
        lines.push(StyledLine { spans, color_key: id.clone(), highlighted });
        proof {
            let first = lines@[0].view();
            assert(first.spans =~= seq![spaces(depth as nat), t.name, if has_children { "("@ } else { seq![] }]);
            assert(line_views(lines@) =~= seq![first] + lines_upto(t, depth as nat, id@, hl, 0));
        }
        let n = self.inner.len();
        for i in 0..n
            invariant
                n == self.inner@.len(),
                t == self.view(),
                depth + node_count(t) <= usize::MAX,
                id@ == prefix@ + t.name,
                pad@ == spaces(depth as nat),
                hl == match highlight {
                    Some(h) => Some(h@),
                    None => None::<Seq<char>>,
                },
                lines@.len() >= 1,
                line_views(lines@) == seq![line_views(lines@)[0]] + lines_upto(t, depth as nat, id@, hl, i as nat),
                line_views(lines@)[0] == (LineView {
                    spans: seq![spaces(depth as nat), t.name, if t.inner.len() > 0 { "("@ } else { seq![] }],
                    color_key: id@,
                    highlighted: hl == Some(id@),
                }),
        {
            let child_prefix_text = make_prefix(id.as_str(), i);
            proof {
                assert(t.inner[i as int] == self.inner@[i as int].view());
                lemma_node_count_upto_bound(t, n as nat, i as int);
            }
            let child_lines = self.inner[i].to_lines_styled(depth + 1, child_prefix_text.as_str(), highlight);
            let ghost before = line_views(lines@);
            let mut child_lines = child_lines;
            lines.append(&mut child_lines);
            proof {
                assert(line_views(lines@) =~= before + spec_lines(
                    t.inner[i as int],
                    (depth + 1) as nat,
                    child_prefix(id@, i as nat),
                    hl,
                ));
                assert(lines_upto(t, depth as nat, id@, hl, (i + 1) as nat) == lines_upto(t, depth as nat, id@, hl, i as nat) + spec_lines(
                    t.inner[i as int],
                    (depth + 1) as nat,
                    child_prefix(id@, i as nat),
                    hl,
                ));
            }
        }
        if has_children {
            let mut spans = Vec::new();
            spans.push(pad);
            spans.push(")".to_owned());
            let ghost before = line_views(lines@);
            lines.push(StyledLine { spans, color_key: id, highlighted: false });
            proof {
                assert(lines@[lines@.len() - 1].view().spans =~= seq![spaces(depth as nat), ")"@]);
                assert(line_views(lines@) =~= before.push(lines@[lines@.len() - 1].view()));
            }
        }
        proof {
            assert(line_views(lines@) =~= spec_lines(t, depth as nat, prefix@, hl));
        }
        lines
    }
}

} // verus!
