use crate::parser::spec::{
    line_views, node_count, spec_identifiers, spec_lines, spec_views,
    string_views, ParserSpec, SpecView, StyledLine,
};
use vstd::prelude::*;

verus! {

/// A representation of the entire parser that is applied to each file.
/// Does not hold any state.
pub struct Parser {
    spec: ParserSpec,
}

impl Parser {
    /// The description of the parser and its children.
    pub closed spec fn view(&self) -> SpecView {
        self.spec.view()
    }

    /// A parser with no children.
    pub fn from_name(name: &str) -> (r: Self)
        ensures
            r.view() == (SpecView { name: name@, inner: seq![], friendly_name: None }),
    {
        Parser { spec: ParserSpec::empty(name) }
    }

    /// A parser with the given children.
    pub fn from_children(name: &str, inner: Vec<Parser>) -> (r: Self)
        ensures
            r.view() == (SpecView {
                name: name@,
                inner: Seq::new(inner@.len(), |i: int| inner@[i].view()),
                friendly_name: None,
            }),
    {
        let ghost wanted = Seq::new(inner@.len(), |i: int| inner@[i].view());
        let mut children: Vec<ParserSpec> = Vec::new();
        let mut rest = inner;
        let ghost all = rest@;
        let mut i: usize = 0;
        let n = rest.len();
        proof {
            assert(spec_views(children@) =~= wanted.take(0));
        }
        while i < n
            invariant
                n == all.len(),
                i <= n,
                wanted == Seq::new(all.len(), |k: int| all[k].view()),
                rest@ == all.skip(i as int),
                spec_views(children@) == wanted.take(i as int),
            decreases n - i,
        {
            let ghost before = spec_views(children@);
            let p = rest.remove(0);
            children.push(p.spec);
            proof {
                assert(rest@ =~= all.skip(i + 1));
                assert(p == all[i as int]);
                assert(spec_views(children@) =~= before.push(all[i as int].view()));
                assert(wanted.take(i + 1) =~= wanted.take(i as int).push(wanted[i as int]));
            }
            i = i + 1;
        }
        proof {
            assert(wanted.take(n as int) =~= wanted);
        }
        Parser { spec: ParserSpec::new(name, children) }
    }

    /// The lines that show this parser and its descendants, starting at nesting depth `depth`
    /// with `prefix` in front of its name in its identifier.
    pub fn to_lines_styled(&self, depth: usize, prefix: &str) -> (r: Vec<StyledLine>)
        requires
            depth + node_count(self.view()) <= usize::MAX,
        ensures
            line_views(r@) == spec_lines(self.view(), depth as nat, prefix@, None),
    {
        self.spec.to_lines_styled(depth, prefix, None)
    }

    /// Create unique paths to each hierarchy leaf
    pub fn identifiers(&self) -> (r: Vec<String>)
        ensures
            string_views(r@) == spec_identifiers(self.view()),
            string_views(r@).no_duplicates(),
    {
        self.spec.identifiers()
    }
}

} // verus!
