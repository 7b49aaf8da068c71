use super::combinator::length_repeat::LengthRepeat;
use super::combinator::map::{applied, TryMap, TryMapFn};
use super::combinator::Checkpoint;
use super::generic::{checkpoint, length_repeat, try_map};
use super::helpers::{parse_child, spec_step, Step};
use super::num::{U16LE, U32LE};
use super::spec::{lemma_identifiers_root, ParserSpec, SpecView};
use super::{lemma_advanced_refl, lemma_advanced_trans, Outcome, Parser, Result};
use crate::annotation::{views, AnnoView, Annotation, ResultView};
use crate::render::{debug_str, Render};
use crate::text::{decimal, decode_utf16, push_str, string_from_utf16, utf16_error_text};
use vstd::prelude::*;

verus! {

/// Decodes UTF-16 code units into a string; fails on a lone surrogate.
pub struct Utf16ToString;

impl TryMapFn<Vec<u16>> for Utf16ToString {
    type Out = String;

    open spec fn is_pure(&self) -> bool {
        true
    }

    open spec fn spec_apply(&self, x: Seq<u16>) -> std::result::Result<Seq<char>, Seq<char>> {
        match decode_utf16(x) {
            Some(s) => Ok(s),
            None => Err(utf16_error_text(x)),
        }
    }

    fn apply(&mut self, x: Vec<u16>) -> (r: std::result::Result<String, String>) {
        let units = x.as_slice();
        proof {
            assert(x.deep_view() =~= x@);
            assert(units@ == x@);
        }
        let r = string_from_utf16(units);
        assert(applied(r) == self.spec_apply(x.deep_view()));
        r
    }
}

/// The parser of the string section: a `u32` count, then that many UTF-16 code units.
pub type StringsParser = TryMap<Checkpoint<LengthRepeat<U32LE, U16LE>>, Utf16ToString>;

/// The parser is the string section's, named `strings`.
pub open spec fn is_strings_parser(p: StringsParser) -> bool {
    &&& p.label@ == "strings"@
    &&& p.func_name@ == "strings"@
    &&& p.inner.0.length == U32LE
    &&& p.inner.0.value == U16LE
    &&& p.func == Utf16ToString
}

/// The string section: a count, then that many UTF-16 code units, decoded.
pub fn strings() -> (r: StringsParser)
    ensures
        is_strings_parser(r),
{
    let inner = length_repeat(U32LE, U16LE);
    // The repetition restores the input when it fails itself; where decoding fails afterwards,
    // the bytes it read stay consumed.
    try_map("strings", inner, Utf16ToString)
}

/// The model of a [`TDTFile`].
pub struct TDTFileView {
    pub version: u32,
    pub strings: Seq<char>,
}

#[derive(Debug)]
pub struct TDTFile {
    pub version: u32,
    pub strings: String,
}

impl DeepView for TDTFile {
    type V = TDTFileView;

    open spec fn deep_view(&self) -> TDTFileView {
        TDTFileView { version: self.version, strings: self.strings@ }
    }
}

impl Render for TDTFile {
    open spec fn render_exact() -> bool {
        true
    }

    open spec fn spec_render(v: TDTFileView) -> Seq<char> {
        "TDTFile { version: "@ + decimal(v.version as nat) + ", strings: "@ + debug_str(v.strings)
            + " }"@
    }

    fn render(&self) -> (r: String) {
        let mut s = "TDTFile { version: ".to_owned();
        let version = self.version.render();
        push_str(&mut s, version.as_str());
        push_str(&mut s, ", strings: ");
        let strings = self.strings.render();
        push_str(&mut s, strings.as_str());
        push_str(&mut s, " }");
        s
    }
}

/// A version number, then the string section.
pub struct TdtFileParser {
    pub strings: StringsParser,
}

impl Parser for TdtFileParser {
    type Output = TDTFile;

    open spec fn spec_name(&self) -> Seq<char> {
        "tdt_file"@
    }

    open spec fn spec_tree(&self) -> SpecView {
        SpecView {
            name: "tdt_file"@,
            inner: seq![U32LE.spec_tree(), self.strings.spec_tree()],
            friendly_name: None,
        }
    }

    open spec fn is_pure(&self) -> bool {
        self.strings.is_pure()
    }

    open spec fn spec_parse(&self, input: Seq<u8>) -> Outcome<TDTFileView> {
        match spec_step(U32LE.spec_parse(input), 0, 0, seq![], "tdt_file"@, 0) {
            Step::Stop { consumed, anno } => Outcome::Failed { consumed, anno },
            Step::Next { consumed: c0, offset: o0, value: version, children: ch0 } => match spec_step(
                self.strings.spec_parse(input.skip(c0)),
                c0,
                o0,
                ch0,
                "tdt_file"@,
                1,
            ) {
                Step::Stop { consumed, anno } => Outcome::Failed { consumed, anno },
                Step::Next { consumed: c1, offset: o1, value: strings, children: ch1 } => {
                    let v = TDTFileView { version, strings };
                    Outcome::Parsed {
                        consumed: c1,
                        value: v,
                        anno: AnnoView {
                            id: "tdt_file"@,
                            children: ch1,
                            result: ResultView::Success {
                                start: 0,
                                end: o1,
                                value: TDTFile::spec_render(v),
                            },
                        },
                    }
                },
            },
        }
    }

    fn name(&self) -> (r: String) {
        "tdt_file".to_owned()
    }

    fn spec(&self) -> (r: ParserSpec) {
        let mut inner = Vec::new();
        inner.push(U32LE.spec());
        inner.push(self.strings.spec());
        let r = ParserSpec::new("tdt_file", inner);
        assert(r.view().inner =~= seq![U32LE.spec_tree(), self.strings.spec_tree()]);
        r
    }

    fn parse(&mut self, input: &mut &[u8]) -> (res: Result<TDTFile>) {
        let ghost input0 = old(input)@;
        let total = input.len();
        proof {
            assert(views(Seq::<Annotation>::empty()) =~= Seq::<AnnoView>::empty());
            lemma_advanced_refl(input0);
        }
        let mut version_parser = U32LE;
        let ghost tree = self.spec_tree();
        let r0 = parse_child(
            &mut version_parser,
            input,
            Vec::new(),
            0,
            "tdt_file",
            0,
            Ghost(input0.len() as int),
            Ghost(tree),
        );
        let ghost before_1 = input@;
        let (version, offset, children) = match r0 {
            Ok(t) => t,
            Err(a) => {
                return Err(a);
            },
        };
        let r1 = parse_child(
            &mut self.strings,
            input,
            children,
            offset,
            "tdt_file",
            1,
            Ghost(input0.len() as int),
            Ghost(tree),
        );
        proof {
            lemma_advanced_trans(input0, before_1, input@);
        }
        let (strings, offset, children) = match r1 {
            Ok(t) => t,
            Err(a) => {
                return Err(a);
            },
        };
        let tdt_file = TDTFile { version, strings };
        let annotation = Annotation::success("tdt_file", 0..offset, &tdt_file, children);
        proof {
            assert(annotation.view().children == views(children@));
            lemma_identifiers_root(tree);
        }
        Ok((tdt_file, annotation))
    }
}

/// The whole file: a version number, then the string section; the input is reset on failure.
pub fn tdt_file() -> (r: Checkpoint<TdtFileParser>)
    ensures
        is_strings_parser(r.0.strings),
{
    checkpoint(TdtFileParser { strings: strings() })
}

} // verus!
