use super::super::spec::{ParserSpec, SpecView};
use super::super::{advanced, taken, Outcome, Parser, Result};
use vstd::prelude::*;

verus! {

/// Wrapper which resets the input stream on failure
pub struct Checkpoint<P>(pub P);

impl<P: Parser> Parser for Checkpoint<P> {
    type Output = P::Output;

    open spec fn spec_name(&self) -> Seq<char> {
        self.0.spec_name()
    }

    open spec fn spec_tree(&self) -> SpecView {
        self.0.spec_tree()
    }

    open spec fn is_pure(&self) -> bool {
        self.0.is_pure()
    }

    open spec fn spec_parse(&self, input: Seq<u8>) -> Outcome<<P::Output as DeepView>::V> {
        match self.0.spec_parse(input) {
            Outcome::Failed { anno, .. } => Outcome::Failed { consumed: 0, anno },
            parsed => parsed,
        }
    }

    fn name(&self) -> (r: String) {
        self.0.name()
    }

    fn spec(&self) -> (r: ParserSpec) {
        self.0.spec()
    }

    fn parse(&mut self, input: &mut &[u8]) -> (res: Result<P::Output>)
        ensures
            res is Err ==> final(input)@ == old(input)@,
    {
        // Save checkpoint so we can reset in case of child failure
        let checkpoint = *input;
        let res = self.0.parse(input);
        if res.is_err() {
            // Reset input
            *input = checkpoint;
            proof {
                assert(old(input)@.skip(0) =~= old(input)@);
            }
        }
        res
    }
}

} // verus!
