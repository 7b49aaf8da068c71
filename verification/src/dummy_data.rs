pub mod data;
pub mod parser;

use crate::annotation::{views, AnnoView, Annotation, ResultView};
use crate::data_loader::Parser as ParserDescription;
use crate::parser::combinator::Checkpoint;
use crate::parser::num::{read_u16_le, read_u32_le, spec_u16, spec_u32};
use crate::parser::spec::{ids_among, spec_identifiers, SpecView};
use crate::parser::specific::{is_strings_parser, tdt_file, TDTFile, TDTFileView, TdtFileParser};
use crate::parser::Parser;
use crate::render::Render;
use crate::text::{decimal, decode_utf16, string_from_utf16};
use vstd::prelude::*;

verus! {

/// The description of the parser that is applied to each file.
pub open spec fn spec_tdt_description() -> SpecView {
    let leaf = |name: Seq<char>| SpecView { name, inner: seq![], friendly_name: None };
    SpecView {
        name: "tdt_file"@,
        inner: seq![
            leaf("le_u32"@),
            SpecView {
                name: "strings"@,
                inner: seq![
                    SpecView {
                        name: "length_repeat"@,
                        inner: seq![leaf("le_u32"@), leaf("le_u16"@)],
                        friendly_name: None,
                    },
                ],
                friendly_name: None,
            },
        ],
        friendly_name: None,
    }
}

/// Load the parser spec to be applied to the file
pub fn load_parser() -> (r: ParserDescription)
    ensures
        r.view() == spec_tdt_description(),
{
    let mut pair = Vec::new();
    pair.push(ParserDescription::from_name("le_u32"));
    pair.push(ParserDescription::from_name("le_u16"));
    let length_repeat = ParserDescription::from_children("length_repeat", pair);
    let mut one = Vec::new();
    one.push(length_repeat);
    let strings = ParserDescription::from_children("strings", one);
    let mut top = Vec::new();
    top.push(ParserDescription::from_name("le_u32"));
    top.push(strings);
    let r = ParserDescription::from_children("tdt_file", top);
    proof {
        let leaf = |name: Seq<char>| SpecView { name, inner: seq![], friendly_name: None };
        assert(length_repeat.view().inner =~= seq![leaf("le_u32"@), leaf("le_u16"@)]);
        assert(strings.view().inner =~= seq![length_repeat.view()]);
        assert(r.view().inner =~= seq![leaf("le_u32"@), strings.view()]);
    }
    r
}

/// The parser is the one that [`tdt_file`] builds.
pub open spec fn is_tdt_file_parser(p: Checkpoint<TdtFileParser>) -> bool {
    is_strings_parser(p.0.strings)
}

/// Apply a parser and produce some annotations. Every identifier in them is one of those of the
/// description that [`load_parser`] gives, so a colour made for each of those covers them all.
pub fn load_annotation(bytes: &[u8]) -> (r: Annotation)
    ensures
        forall|p: Checkpoint<TdtFileParser>|
            is_tdt_file_parser(p) ==> r.view() == #[trigger] p.spec_parse(bytes@).anno(),
        ids_among(r.view(), spec_identifiers(spec_tdt_description())),
{
    let mut parser = tdt_file();
    proof {
        assert(parser.spec_tree().inner =~= spec_tdt_description().inner);
    }
    let r = parser.annotate(bytes);
    proof {
        assert forall|p: Checkpoint<TdtFileParser>| is_tdt_file_parser(p) implies r.view()
            == #[trigger] p.spec_parse(bytes@).anno() by {
            assert(p.0.strings.inner == parser.0.strings.inner);
            assert(p.0.strings.label@ == parser.0.strings.label@);
        }
    }
    r
}

/// An annotation without children that succeeded on `start..end`, showing `value`.
pub open spec fn leaf_success(id: Seq<char>, start: int, end: int, value: Seq<char>) -> AnnoView {
    AnnoView { id, children: seq![], result: ResultView::Success { start, end, value } }
}

/// The little-endian `u32` at byte `p` of `bytes`.
pub open spec fn u32_at(bytes: Seq<u8>, p: int) -> u32 {
    spec_u32(bytes.skip(p))
}

/// The little-endian `u16` at byte `p` of `bytes`.
pub open spec fn u16_at(bytes: Seq<u8>, p: int) -> u16 {
    spec_u16(bytes.skip(p))
}

/// The number of characters that the string section says it holds.
pub open spec fn char_count(bytes: Seq<u8>) -> nat {
    u32_at(bytes, 4) as nat
}

/// The `i`th character of the string section.
pub open spec fn char_at(bytes: Seq<u8>, i: int) -> u16 {
    u16_at(bytes, 8 + 2 * i)
}

/// The annotation of the `i`th character of the string section.
pub open spec fn char_anno(bytes: Seq<u8>, i: int) -> AnnoView {
    leaf_success(
        "tdt_file[1]/strings[1]/le_u16"@,
        8 + 2 * i,
        10 + 2 * i,
        decimal(char_at(bytes, i) as nat),
    )
}

/// The annotation of the version field.
pub open spec fn version_anno(bytes: Seq<u8>) -> AnnoView {
    leaf_success("tdt_file[0]/version"@, 0, 4, decimal(u32_at(bytes, 0) as nat))
}

/// The annotation of the character count.
pub open spec fn count_anno(bytes: Seq<u8>) -> AnnoView {
    leaf_success("tdt_file[1]/strings[0]/le_u32"@, 4, 8, decimal(char_count(bytes)))
}

/// Reads the little-endian `u32` at byte `p`.
fn read_u32_at(bytes: &[u8], p: usize) -> (r: u32)
    requires
        p + 4 <= bytes@.len(),
    ensures
        r == u32_at(bytes@, p as int),
{
    let n = bytes.len();
    let tail = &bytes[p..n];
    proof {
        assert(tail@ =~= bytes@.skip(p as int));
    }
    read_u32_le(tail)
}

/// Reads the little-endian `u16` at byte `p`.
fn read_u16_at(bytes: &[u8], p: usize) -> (r: u16)
    requires
        p + 2 <= bytes@.len(),
    ensures
        r == u16_at(bytes@, p as int),
{
    let n = bytes.len();
    let tail = &bytes[p..n];
    proof {
        assert(tail@ =~= bytes@.skip(p as int));
    }
    read_u16_le(tail)
}

/// The first `count` characters of the string section, and their annotations.
fn char_annotations(bytes: &[u8], count: usize) -> (r: (Vec<u16>, Vec<Annotation>))
    requires
        8 + 2 * count <= bytes@.len(),
    ensures
        r.0@ == Seq::new(count as nat, |i: int| char_at(bytes@, i)),
        views(r.1@) == Seq::new(count as nat, |i: int| char_anno(bytes@, i)),
{
    let total = bytes.len();
    let mut chars: Vec<u16> = Vec::new();
    let mut chars_a: Vec<Annotation> = Vec::new();
    for i in 0..count
        invariant
            total == bytes@.len(),
            8 + 2 * count <= bytes@.len(),
            chars@ == Seq::new(i as nat, |k: int| char_at(bytes@, k)),
            views(chars_a@) == Seq::new(i as nat, |k: int| char_anno(bytes@, k)),
    {
        let start = 8 + 2 * i;
        let value = read_u16_at(bytes, start);
        let anno = Annotation::success("tdt_file[1]/strings[1]/le_u16", start..start + 2, &value, Vec::new());
        let ghost before = views(chars_a@);
        chars.push(value);
        chars_a.push(anno);
        proof {
            assert(views(Seq::<Annotation>::empty()) =~= Seq::<AnnoView>::empty());
            assert(anno.view() == char_anno(bytes@, i as int));
            assert(views(chars_a@) =~= before.push(anno.view()));
            assert(chars@ =~= Seq::new((i + 1) as nat, |k: int| char_at(bytes@, k)));
            assert(views(chars_a@) =~= Seq::new((i + 1) as nat, |k: int| char_anno(bytes@, k)));
        }
    }
    (chars, chars_a)
}

/// The version and count annotations.
fn header_annotations(bytes: &[u8]) -> (r: (Annotation, u32, Annotation))
    requires
        8 <= bytes@.len(),
    ensures
        r.0.view() == version_anno(bytes@),
        r.1 == char_count(bytes@),
        r.2.view() == count_anno(bytes@),
{
    let version = read_u32_at(bytes, 0);
    let version_a = Annotation::success("tdt_file[0]/version", 0..4, &version, Vec::new());
    let num_chars = read_u32_at(bytes, 4);
    let num_chars_a = Annotation::success("tdt_file[1]/strings[0]/le_u32", 4..8, &num_chars, Vec::new());
    proof {
        assert(views(Seq::<Annotation>::empty()) =~= Seq::<AnnoView>::empty());
    }
    (version_a, num_chars, num_chars_a)
}

/// The smaller of two numbers.
pub open spec fn min(a: nat, b: nat) -> nat {
    if a < b {
        a
    } else {
        b
    }
}

/// The made-up annotations of a file whose fifth character is unexpected.
pub open spec fn spec_err_invalid(bytes: Seq<u8>) -> AnnoView {
    let k = min(char_count(bytes), 4);
    let chars_a = Seq::new(k, |i: int| char_anno(bytes, i)).push(
        AnnoView {
            id: "tdt_file[1]/strings[1]/le_u16"@,
            children: seq![],
            result: ResultView::Invalid { start: 16, end: 18, reason: "Weird u16 value"@ },
        },
    );
    let strings_a = AnnoView {
        id: "tdt_file[1]/strings"@,
        children: seq![count_anno(bytes)] + chars_a,
        result: ResultView::Child { start: 4 },
    };
    AnnoView {
        id: "tdt_file"@,
        children: seq![version_anno(bytes), strings_a],
        result: ResultView::Child { start: 0 },
    }
}

/// Load some fake annotations for a given file
pub fn load_annotations_err_invalid(bytes: &[u8]) -> (r: Annotation)
    requires
        8 <= bytes@.len(),
        8 + 2 * min(char_count(bytes@), 4) <= bytes@.len(),
    ensures
        r.view() == spec_err_invalid(bytes@),
{
    let (version_a, num_chars, num_chars_a) = header_annotations(bytes);
    let count = if num_chars < 4 {
        num_chars as usize
    } else {
        4
    };
    let (_chars, mut chars_a) = char_annotations(bytes, count);
    let ghost chars_view = views(chars_a@);
    chars_a.push(
        Annotation::invalid(
            "tdt_file[1]/strings[1]/le_u16",
            16..18,
            "Weird u16 value".to_owned(),
            Vec::new(),
        ),
    );
    let mut strings_children = Vec::new();
    strings_children.push(num_chars_a);
    strings_children.append(&mut chars_a);
    let strings_a = Annotation::child("tdt_file[1]/strings", 4, strings_children);
    let mut top = Vec::new();
    top.push(version_a);
    top.push(strings_a);
    let r = Annotation::child("tdt_file", 0, top);
    proof {
        assert(views(Seq::<Annotation>::empty()) =~= Seq::<AnnoView>::empty());
        let want = spec_err_invalid(bytes@);
        assert(strings_a.view().children =~= want.children[1].children);
        assert(r.view().children =~= want.children);
    }
    r
}

/// The made-up annotations of a file whose string section holds unexpected characters.
pub open spec fn spec_err_middle(bytes: Seq<u8>) -> AnnoView {
    let n = char_count(bytes);
    let strings_a = AnnoView {
        id: "tdt_file[1]/strings"@,
        children: seq![count_anno(bytes)] + Seq::new(n, |i: int| char_anno(bytes, i)),
        result: ResultView::Invalid { start: 4, end: 8 + 2 * n as int, reason: "Bad string chars"@ },
    };
    AnnoView {
        id: "tdt_file"@,
        children: seq![version_anno(bytes), strings_a],
        result: ResultView::Child { start: 0 },
    }
}

/// Load some fake annotations for a given file
pub fn load_annotations_err_middle(bytes: &[u8]) -> (r: Annotation)
    requires
        8 <= bytes@.len(),
        8 + 2 * char_count(bytes@) <= bytes@.len(),
    ensures
        r.view() == spec_err_middle(bytes@),
{
    let total = bytes.len();
    let (version_a, num_chars, num_chars_a) = header_annotations(bytes);
    let count = num_chars as usize;
    let (_chars, mut chars_a) = char_annotations(bytes, count);
    let mut strings_children = Vec::new();
    strings_children.push(num_chars_a);
    strings_children.append(&mut chars_a);
    let strings_a = Annotation::invalid(
        "tdt_file[1]/strings",
        4..(8 + 2 * count),
        "Bad string chars".to_owned(),
        strings_children,
    );
    let mut top = Vec::new();
    top.push(version_a);
    top.push(strings_a);
    let r = Annotation::child("tdt_file", 0, top);
    proof {
        let want = spec_err_middle(bytes@);
        assert(strings_a.view().children =~= want.children[1].children);
        assert(r.view().children =~= want.children);
    }
    r
}

/// The text of the characters of the string section.
pub open spec fn decoded_chars(bytes: Seq<u8>) -> Seq<char> {
    decode_utf16(Seq::new(char_count(bytes), |i: int| char_at(bytes, i))).unwrap()
}

/// The made-up annotations of a file that parses as expected.
pub open spec fn spec_good(bytes: Seq<u8>) -> AnnoView {
    let n = char_count(bytes);
    let strings = decoded_chars(bytes);
    let strings_a = AnnoView {
        id: "tdt_file[1]/strings"@,
        children: seq![count_anno(bytes)] + Seq::new(n, |i: int| char_anno(bytes, i)),
        result: ResultView::Success {
            start: 4,
            end: 8 + 2 * n as int,
            value: String::spec_render(strings),
        },
    };
    AnnoView {
        id: "tdt_file"@,
        children: seq![version_anno(bytes), strings_a],
        result: ResultView::Success {
            start: 0,
            end: 8 + 2 * n as int,
            value: TDTFile::spec_render(TDTFileView { version: u32_at(bytes, 0), strings }),
        },
    }
}

/// Load some fake annotations for a given file
pub fn load_annotations_good(bytes: &[u8]) -> (r: Annotation)
    requires
        8 <= bytes@.len(),
        8 + 2 * char_count(bytes@) <= bytes@.len(),
        char_count(bytes@) >= 1,
        decode_utf16(Seq::new(char_count(bytes@), |i: int| char_at(bytes@, i))) is Some,
    ensures
        r.view() == spec_good(bytes@),
{
    let version = read_u32_at(bytes, 0);
    let total = bytes.len();
    let (version_a, num_chars, num_chars_a) = header_annotations(bytes);
    let count = num_chars as usize;
    let (chars, mut chars_a) = char_annotations(bytes, count);
    let units = chars.as_slice();
    let strings = match string_from_utf16(units) {
        Ok(s) => s,
        Err(_) => {
            proof {
                assert(units@ == chars@);
            }
            String::new()
        },
    };
    let end = 8 + 2 * count;
    let mut strings_children = Vec::new();
    strings_children.push(num_chars_a);
    strings_children.append(&mut chars_a);
    let strings_a = Annotation::success("tdt_file[1]/strings", 4..end, &strings, strings_children);
    let tdt_file = TDTFile { version, strings };
    let mut top = Vec::new();
    top.push(version_a);
    top.push(strings_a);
    let r = Annotation::success("tdt_file", 0..end, &tdt_file, top);
    proof {
        let want = spec_good(bytes@);
        assert(strings_a.view().children =~= want.children[1].children);
        assert(r.view().children =~= want.children);
    }
    r
}

} // verus!
