use super::{advanced, taken, Outcome, Parser, Result};
use crate::annotation::{views, AnnoView, Annotation, ResultView};
use crate::parser::spec::{lemma_identifiers_root, ParserSpec, SpecView};
use crate::render::Render;
use crate::text::decimal;
use vstd::prelude::*;

verus! {

/// The number whose little-endian bytes are `s`.
pub open spec fn le_value(s: Seq<u8>) -> nat
    decreases s.len(),
{
    if s.len() == 0 {
        0
    } else {
        s[0] as nat + 256 * le_value(s.drop_first())
    }
}

/// The outcome of reading a `width`-byte little-endian number named `name` from `input`.
pub open spec fn spec_fixed<V>(name: Seq<char>, width: int, input: Seq<u8>, value: V, text: Seq<char>) -> Outcome<V> {
    if input.len() < width {
        Outcome::Failed {
            consumed: 0,
            anno: AnnoView { id: name, children: seq![], result: ResultView::Incomplete { start: 0 } },
        }
    } else {
        Outcome::Parsed {
            consumed: width,
            value,
            anno: AnnoView {
                id: name,
                children: seq![],
                result: ResultView::Success { start: 0, end: width, value: text },
            },
        }
    }
}

/// The value of the first byte of `input`.
pub open spec fn spec_u8(input: Seq<u8>) -> u8 {
    input[0]
}

/// The value of the first two bytes of `input`, little-endian.
pub open spec fn spec_u16(input: Seq<u8>) -> u16 {
    le_value(input.take(2)) as u16
}

/// The value of the first four bytes of `input`, little-endian.
pub open spec fn spec_u32(input: Seq<u8>) -> u32 {
    le_value(input.take(4)) as u32
}

/// Reads a little-endian `u16` from the first two bytes of `s`.
pub fn read_u16_le(s: &[u8]) -> (r: u16)
    requires
        s@.len() >= 2,
    ensures
        r == spec_u16(s@),
        r as nat == le_value(s@.take(2)),
{
    let b0 = s[0] as u16;
    let b1 = s[1] as u16;
    proof {
        reveal_with_fuel(le_value, 3);
        let t = s@.take(2);
        assert(t.drop_first().drop_first() =~= Seq::<u8>::empty());
        assert(le_value(t) == t[0] + 256 * (t[1] + 256 * 0));
    }
    assert(b0 + 256 * b1 <= 65535) by (nonlinear_arith)
        requires b0 <= 255, b1 <= 255;
    b0 + 256 * b1
}

/// Reads a little-endian `u32` from the first four bytes of `s`.
pub fn read_u32_le(s: &[u8]) -> (r: u32)
    requires
        s@.len() >= 4,
    ensures
        r == spec_u32(s@),
        r as nat == le_value(s@.take(4)),
{
    let b0 = s[0] as u32;
    let b1 = s[1] as u32;
    let b2 = s[2] as u32;
    let b3 = s[3] as u32;
    proof {
        reveal_with_fuel(le_value, 5);
        let t = s@.take(4);
        assert(t.drop_first().drop_first().drop_first().drop_first() =~= Seq::<u8>::empty());
        assert(le_value(t) == t[0] + 256 * (t[1] + 256 * (t[2] + 256 * (t[3] + 256 * 0))));
    }
    assert(b0 + 256 * (b1 + 256 * (b2 + 256 * b3)) <= 0xffff_ffff) by (nonlinear_arith)
        requires b0 <= 255, b1 <= 255, b2 <= 255, b3 <= 255;
    b0 + 256 * (b1 + 256 * (b2 + 256 * b3))
}

/// A single byte.
pub struct U8;

/// A little-endian `u16`.
pub struct U16LE;

/// A little-endian `u32`.
pub struct U32LE;

impl Parser for U8 {
    type Output = u8;

    open spec fn spec_name(&self) -> Seq<char> {
        "u8"@
    }

    open spec fn spec_tree(&self) -> SpecView {
        SpecView { name: "u8"@, inner: seq![], friendly_name: None }
    }

    open spec fn is_pure(&self) -> bool {
        true
    }

    open spec fn spec_parse(&self, input: Seq<u8>) -> Outcome<u8> {
        spec_fixed("u8"@, 1, input, spec_u8(input), decimal(spec_u8(input) as nat))
    }

    fn name(&self) -> (r: String) {
        "u8".to_owned()
    }

    fn spec(&self) -> (r: ParserSpec) {
        ParserSpec::empty("u8")
    }

    fn parse(&mut self, input: &mut &[u8]) -> (res: Result<u8>) {
        proof {
            lemma_identifiers_root(self.spec_tree());
        }
        if input.len() < 1 {
            let a = Annotation::incomplete("u8", 0, Vec::new());
            proof {
                assert(old(input)@.skip(0) =~= old(input)@);
                assert(views(Seq::<Annotation>::empty()) =~= Seq::<AnnoView>::empty());
            }
            return Err(a);
        }
        let value = input[0];
        let n = input.len();
        *input = &input[1..n];
        let annotation = Annotation::success("u8", 0..1, &value, Vec::new());
        proof {
            assert(views(Seq::<Annotation>::empty()) =~= Seq::<AnnoView>::empty());
            assert(annotation.view().children =~= Seq::<AnnoView>::empty());
        }
        Ok((value, annotation))
    }
}

impl Parser for U16LE {
    type Output = u16;

    open spec fn spec_name(&self) -> Seq<char> {
        "le_u16"@
    }

    open spec fn spec_tree(&self) -> SpecView {
        SpecView { name: "le_u16"@, inner: seq![], friendly_name: None }
    }

    open spec fn is_pure(&self) -> bool {
        true
    }

    open spec fn spec_parse(&self, input: Seq<u8>) -> Outcome<u16> {
        spec_fixed("le_u16"@, 2, input, spec_u16(input), decimal(spec_u16(input) as nat))
    }

    fn name(&self) -> (r: String) {
        "le_u16".to_owned()
    }

    fn spec(&self) -> (r: ParserSpec) {
        ParserSpec::empty("le_u16")
    }

    fn parse(&mut self, input: &mut &[u8]) -> (res: Result<u16>) {
        proof {
            lemma_identifiers_root(self.spec_tree());
        }
        if input.len() < 2 {
            let a = Annotation::incomplete("le_u16", 0, Vec::new());
            proof {
                assert(old(input)@.skip(0) =~= old(input)@);
                assert(views(Seq::<Annotation>::empty()) =~= Seq::<AnnoView>::empty());
            }
            return Err(a);
        }
        let value = read_u16_le(*input);
        let n = input.len();
        *input = &input[2..n];
        let annotation = Annotation::success("le_u16", 0..2, &value, Vec::new());
        proof {
            assert(views(Seq::<Annotation>::empty()) =~= Seq::<AnnoView>::empty());
            assert(annotation.view().children =~= Seq::<AnnoView>::empty());
        }
        Ok((value, annotation))
    }
}

impl Parser for U32LE {
    type Output = u32;

    open spec fn spec_name(&self) -> Seq<char> {
        "le_u32"@
    }

    open spec fn spec_tree(&self) -> SpecView {
        SpecView { name: "le_u32"@, inner: seq![], friendly_name: None }
    }

    open spec fn is_pure(&self) -> bool {
        true
    }

    open spec fn spec_parse(&self, input: Seq<u8>) -> Outcome<u32> {
        spec_fixed("le_u32"@, 4, input, spec_u32(input), decimal(spec_u32(input) as nat))
    }

    fn name(&self) -> (r: String) {
        "le_u32".to_owned()
    }

    fn spec(&self) -> (r: ParserSpec) {
        ParserSpec::empty("le_u32")
    }

    fn parse(&mut self, input: &mut &[u8]) -> (res: Result<u32>) {
        proof {
            lemma_identifiers_root(self.spec_tree());
        }
        if input.len() < 4 {
            let a = Annotation::incomplete("le_u32", 0, Vec::new());
            proof {
                assert(old(input)@.skip(0) =~= old(input)@);
                assert(views(Seq::<Annotation>::empty()) =~= Seq::<AnnoView>::empty());
            }
            return Err(a);
        }
        let value = read_u32_le(*input);
        let n = input.len();
        *input = &input[4..n];
        let annotation = Annotation::success("le_u32", 0..4, &value, Vec::new());
        proof {
            assert(views(Seq::<Annotation>::empty()) =~= Seq::<AnnoView>::empty());
            assert(annotation.view().children =~= Seq::<AnnoView>::empty());
        }
        Ok((value, annotation))
    }
}

} // verus!
