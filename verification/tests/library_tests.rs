use binspect::annotation::{Annotation, AnnotationResult};
use binspect::colours::{assign_colours, colour_of_hash, generate_colours};
use binspect::data_loader::Parser as ParserDescription;
use binspect::data_section::{byte_line, layout_annotation, Area};
use binspect::dummy_data::parser::{index_in, index_string, FlagIn, IndexIn, TDTParser};
use binspect::dummy_data::{
    load_annotation, load_annotations_err_invalid, load_annotations_err_middle,
    load_annotations_good, load_parser,
};
use binspect::parser::combinator::conditional::{Cond, Given};
use binspect::parser::combinator::delayed::{Delayed, DelayedVal};
use binspect::parser::combinator::optional::Opt;
use binspect::parser::combinator::{Checkpoint, LengthRepeat, TryMap};
use binspect::parser::generic::{checkpoint, fold, le_u16, try_map};
use binspect::parser::helpers::FoldResult;
use binspect::parser::num::{U16LE, U32LE, U8};
use binspect::parser::spec::ParserSpec;
use binspect::parser::specific::{strings, tdt_file, Utf16ToString};
use binspect::parser::Parser;
use binspect::render::Render;
use rustc_hash::FxBuildHasher;
use std::hash::BuildHasher;

fn leaf(id: &str, span: std::ops::Range<usize>, value: u16) -> Annotation {
    Annotation::success(id, span, &value, vec![])
}

#[test]
fn fold_success_prefixes_and_shifts() {
    let child = leaf("le_u16", 0..2, 5);
    let (value, span, children) = fold(Ok((5u16, child)), vec![], 4, "parent", 1).unwrap();
    assert_eq!(value, 5);
    assert_eq!(span, 4..6);
    assert_eq!(children.len(), 1);
    assert_eq!(children[0].parser_id, "parent[1]/le_u16");
}

#[test]
fn fold_failure_gives_failed_parent() {
    let before = vec![leaf("parent[0]/le_u16", 0..2, 1)];
    let failed = Annotation::incomplete("le_u32", 0, vec![]);
    let r: Result<(u32, Annotation), Annotation> = Err(failed);
    let anno = r.fold(before, 2, "parent", 12).unwrap_err();
    assert_eq!(anno.parser_id, "parent");
    assert!(matches!(anno.result, AnnotationResult::Child { start: 0 }));
    assert_eq!(anno.children.len(), 2);
    assert_eq!(anno.children[1].parser_id, "parent[12]/le_u32");
    assert!(matches!(anno.children[1].result, AnnotationResult::Incomplete { start: 2 }));
}

#[test]
fn update_with_parent_reaches_grandchildren() {
    let inner = leaf("x", 1..3, 9);
    let mut outer = Annotation::success("y", 0..3, &7u8, vec![inner]);
    outer.update_with_parent(10, "p/");
    outer.update_with_parent(5, "q/");
    assert_eq!(outer.parser_id, "q/p/y");
    assert_eq!(outer.children[0].parser_id, "q/p/x");
    assert_eq!(outer.result.span(), (15, Some(18)));
    assert_eq!(outer.children[0].result.span(), (16, Some(18)));
}

#[test]
fn annotation_results_show_and_span() {
    let ok = AnnotationResult::Success { span: 1..3, value: "7".to_owned() };
    let inc = AnnotationResult::Incomplete { start: 4 };
    let child = AnnotationResult::Child { start: 5 };
    let bad = AnnotationResult::Invalid { span: 2..6, reason: "nope".to_owned() };
    assert_eq!(ok.to_string(), "7");
    assert_eq!(inc.to_string(), "ERR(INCOMPLETE)");
    assert_eq!(child.to_string(), "ERR(CHILD)");
    assert_eq!(bad.to_string(), "ERR(nope)");
    assert_eq!(ok.span(), (1, Some(3)));
    assert_eq!(inc.span(), (4, None));
    assert_eq!(child.span(), (5, None));
    assert_eq!(bad.span(), (2, Some(6)));
    assert!(ok.is_ok());
    assert!(!inc.is_ok());
    assert!(!child.is_ok());
    assert!(!bad.is_ok());
}

#[test]
fn max_depth_counts_levels() {
    let deep = Annotation::child("c", 0, vec![leaf("d", 0..2, 1)]);
    let top = Annotation::child("a", 0, vec![leaf("b", 0..2, 1), deep]);
    assert_eq!(top.max_depth(), 3);
    assert_eq!(leaf("e", 0..2, 1).max_depth(), 1);
}

#[test]
fn checkpoint_restores_input_on_failure() {
    let bytes = [1, 2, 3];
    let mut input = bytes.as_slice();
    let mut parser = checkpoint(U32LE);
    assert!(parser.parse(&mut input).is_err());
    assert_eq!(input.len(), 3);
}

#[test]
fn tuple_without_checkpoint_keeps_progress() {
    let bytes = [1, 2];
    let mut input = bytes.as_slice();
    let mut parser = (U8, U16LE);
    let anno = parser.parse(&mut input).unwrap_err();
    assert_eq!(input.len(), 1);
    assert_eq!(anno.parser_id, "tuple");
    assert_eq!(anno.children.len(), 2);
    assert_eq!(anno.children[1].parser_id, "tuple[1]/le_u16");
    assert!(matches!(anno.children[1].result, AnnotationResult::Incomplete { start: 1 }));

    let mut input = [1u8, 2, 0].as_slice();
    let ((a, b), anno) = parser.parse(&mut input).unwrap();
    assert_eq!((a, b), (1, 2));
    assert_eq!(anno.result.span(), (0, Some(3)));
    assert_eq!(anno.result.to_string(), "(1, 2)");
}

#[test]
fn optional_never_fails() {
    let mut parser = Opt(U16LE);
    let mut input = [7u8].as_slice();
    let (value, anno) = parser.parse(&mut input).unwrap();
    assert_eq!(value, None);
    assert_eq!(anno.result.to_string(), "None");
    assert_eq!(anno.result.span(), (0, Some(0)));
    assert_eq!(anno.children[0].parser_id, "opt");
    assert_eq!(anno.children[0].children[0].parser_id, "opt[0]/le_u16");

    let mut input = [7u8, 0].as_slice();
    let (value, anno) = parser.parse(&mut input).unwrap();
    assert_eq!(value, Some(7));
    assert_eq!(anno.result.to_string(), "Some(7)");
}

#[test]
fn try_map_reports_invalid_utf16() {
    let bytes = [1, 0, 0, 0, 0, 0xd8];
    let mut parser = strings();
    let anno = parser.parse(&mut bytes.as_slice()).unwrap_err();
    assert_eq!(anno.parser_id, "strings");
    assert!(matches!(&anno.result, AnnotationResult::Invalid { span, .. } if *span == (0..6)));
    assert_eq!(anno.children[0].parser_id, "strings[0]/length_repeat");
}

#[test]
fn try_map_names() {
    let parser = TryMap::new(LengthRepeat::new(U32LE, U16LE), Utf16ToString, "utf16_to_string");
    assert_eq!(parser.name(), "try_map(utf16_to_string)");
    let named = try_map("strings", LengthRepeat::new(U32LE, U16LE), Utf16ToString);
    assert_eq!(named.name(), "strings");
    assert_eq!(named.spec().inner.len(), 1);
    let mut named = named;
    let mut input = [1u8, 0, 0, 0, b'h', 0, 9].as_slice();
    let (value, anno) = named.parse(&mut input).unwrap();
    assert_eq!(value, "h");
    assert_eq!(input, &[9]);
    assert_eq!(anno.result.to_string(), "\"h\"");
    assert_eq!(anno.children[0].parser_id, "strings[0]/length_repeat");
}

#[test]
fn try_map_failure_of_the_function() {
    let mut parser = try_map("small", LengthRepeat::new(U32LE, U16LE), Utf16ToString);
    let anno = parser.parse(&mut [1u8, 0, 0, 0, 0, 0xdc].as_slice()).unwrap_err();
    let expected = String::from_utf16(&[0xdc00]).unwrap_err().to_string();
    assert!(matches!(&anno.result, AnnotationResult::Invalid { reason, span } if *reason == expected && *span == (0..6)));
}

#[test]
fn rendering_follows_debug() {
    assert_eq!(vec![1u16, 2].render(), "[1, 2]");
    assert_eq!(Vec::<u16>::new().render(), "[]");
    assert_eq!(Some(3u8).render(), "Some(3)");
    assert_eq!("a\"b".to_owned().render(), format!("{:?}", "a\"b"));
    assert_eq!((1u32, "x".to_owned()).render(), "(1, \"x\")");
    assert_eq!(4294967295u32.render(), "4294967295");
}

#[test]
fn identifiers_are_paths() {
    let spec = ParserSpec::new(
        "root",
        vec![ParserSpec::empty("a"), ParserSpec::new("b", vec![ParserSpec::empty("c")])],
    );
    assert_eq!(spec.identifiers(), vec!["root", "root[0]/a", "root[1]/b", "root[1]/b[0]/c"]);
    let described = load_parser();
    assert_eq!(
        described.identifiers(),
        vec![
            "tdt_file",
            "tdt_file[0]/le_u32",
            "tdt_file[1]/strings",
            "tdt_file[1]/strings[0]/length_repeat",
            "tdt_file[1]/strings[0]/length_repeat[0]/le_u32",
            "tdt_file[1]/strings[0]/length_repeat[1]/le_u16",
        ]
    );
}

#[test]
fn identifiers_are_unique_with_many_children() {
    let children = (0..12).map(|_| ParserSpec::empty("x")).collect::<Vec<_>>();
    let spec = ParserSpec::new("r", vec![ParserSpec::new("r[1", children)]);
    let ids = spec.identifiers();
    let mut sorted = ids.clone();
    sorted.sort();
    sorted.dedup();
    assert_eq!(sorted.len(), ids.len());
    assert_eq!(ids.len(), 14);
}

#[test]
fn lines_show_the_hierarchy() {
    let spec = ParserSpec::new("a", vec![ParserSpec::empty("b")]).with_friendly("A");
    assert_eq!(spec.friendly_name, Some("A".to_owned()));
    let lines = spec.to_lines_styled(0, "", Some("a[0]/b"));
    assert_eq!(lines.len(), 3);
    assert_eq!(lines[0].spans, vec!["", "a", "("]);
    assert_eq!(lines[0].color_key, "a");
    assert!(!lines[0].highlighted);
    assert_eq!(lines[1].spans, vec![" ", "b", ""]);
    assert_eq!(lines[1].color_key, "a[0]/b");
    assert!(lines[1].highlighted);
    assert_eq!(lines[2].spans, vec!["", ")"]);
    let description = ParserDescription::from_children("p", vec![ParserDescription::from_name("q")]);
    assert_eq!(description.to_lines_styled(1, "").len(), 3);
}

fn tdt_bytes() -> Vec<u8> {
    let mut bytes = vec![1, 0, 0, 0];
    // strings: "a\0b\0"
    bytes.extend([4, 0, 0, 0, b'a', 0, 0, 0, b'b', 0, 0, 0]);
    // file name at byte 0, flags 1, number 7, target at byte 2
    bytes.extend([0, 0, 0, 0, 1, 7, 0, 2, 0, 0, 0]);
    bytes
}

#[test]
fn tdt_parser_reads_a_file() {
    let bytes = tdt_bytes();
    let mut parser = TDTParser::new();
    let mut input = bytes.as_slice();
    let (data, anno) = parser.parse(&mut input).unwrap();
    assert!(input.is_empty());
    assert_eq!(data.version, 1);
    assert_eq!(data.strings, "a\0b\0");
    assert_eq!(data.tdt_file, Some("a".to_owned()));
    assert_eq!(data.flags, Some(1));
    assert_eq!(data.num, Some(7));
    assert_eq!(data.tgt_file, Some("b".to_owned()));
    assert_eq!(data.tag, None);
    assert_eq!(anno.parser_id, "map");
    assert_eq!(anno.result.span(), (0, Some(bytes.len())));
}

#[test]
fn tdt_parser_resets_on_failure() {
    let bytes = tdt_bytes();
    let mut parser = TDTParser::new();
    let mut input = &bytes[..20];
    assert!(parser.parse(&mut input).is_err());
    assert_eq!(input.len(), 20);
}

#[test]
fn index_string_cases() {
    assert_eq!(index_string("ab\0cd\0", 0), Ok(Some("ab".to_owned())));
    assert_eq!(index_string("ab\0cd\0", 3), Ok(Some("cd".to_owned())));
    assert_eq!(index_string("ab\0cd\0", 2), Ok(None));
    assert_eq!(index_string("ab\0cd\0", u32::MAX), Ok(None));
    assert_eq!(index_string("ab\0cd\0", 6), Err("String index out of bounds".to_owned()));
    assert_eq!(index_string("abcd", 1), Err("Did not find null terminator".to_owned()));
}

#[test]
fn conditional_parsing() {
    let flag: DelayedVal<Option<u8>> = DelayedVal::empty();
    let mut cond = Cond::new(flag.share(), FlagIn { flags: vec![1, 3], when_absent: false }, U16LE);
    let mut input = [5u8, 0].as_slice();
    let anno = cond.parse(&mut input).unwrap_err();
    assert!(matches!(&anno.result, AnnotationResult::Invalid { reason, .. }
        if reason == "Dependent value has not been initialised yet"));
    flag.set(Some(Some(2)));
    let (value, _) = cond.parse(&mut input).unwrap();
    assert_eq!(value, None);
    assert_eq!(input.len(), 2);
    flag.set(Some(Some(1)));
    let (value, anno) = cond.parse(&mut input).unwrap();
    assert_eq!(value, Some(5));
    assert_eq!(anno.children[0].parser_id, "cond[0]/le_u16");
    assert!(input.is_empty());
}

#[test]
fn delayed_output_is_shared() {
    let mut parser = Delayed::new(U8);
    let handle = parser.output();
    assert_eq!(handle.get(), None);
    let (value, anno) = parser.parse(&mut [9u8].as_slice()).unwrap();
    assert_eq!(value.get(), Some(9));
    assert_eq!(handle.get(), Some(9));
    assert_eq!(anno.parser_id, "u8");
    assert_eq!(handle.render(), "RefCell { value: Some(9) }");
}

#[test]
fn boxed_parser_parses_like_its_content() {
    let mut parser = Box::new(U16LE);
    let (value, anno) = parser.parse(&mut [1u8, 1].as_slice()).unwrap();
    assert_eq!(value, 257);
    assert_eq!(anno.parser_id, "le_u16");
    assert_eq!(parser.name(), "le_u16");
}

#[test]
fn le_u16_reads_little_endian() {
    let bytes = [0x34, 0x12, 0xff];
    let mut input = bytes.as_slice();
    let (value, _) = le_u16(&mut input).unwrap();
    assert_eq!(value, 0x1234);
    assert_eq!(input, &[0xff]);
}

fn sample_bytes() -> Vec<u8> {
    vec![3, 0, 0, 0, 2, 0, 0, 0, b'h', 0, b'i', 0]
}

#[test]
fn fake_annotations_good() {
    let anno = load_annotations_good(&sample_bytes());
    assert_eq!(anno.parser_id, "tdt_file");
    assert_eq!(anno.result.span(), (0, Some(12)));
    assert_eq!(anno.result.to_string(), "TDTFile { version: 3, strings: \"hi\" }");
    assert_eq!(anno.children[1].parser_id, "tdt_file[1]/strings");
    assert_eq!(anno.children[1].children.len(), 3);
    assert_eq!(anno.children[1].children[2].result.span(), (10, Some(12)));
}

#[test]
fn fake_annotations_err_middle() {
    let anno = load_annotations_err_middle(&sample_bytes());
    assert!(matches!(anno.result, AnnotationResult::Child { start: 0 }));
    assert!(matches!(&anno.children[1].result,
        AnnotationResult::Invalid { span, reason } if *span == (4..12) && reason == "Bad string chars"));
}

#[test]
fn fake_annotations_err_invalid() {
    let anno = load_annotations_err_invalid(&sample_bytes());
    let strings = &anno.children[1];
    assert!(matches!(strings.result, AnnotationResult::Child { start: 4 }));
    assert_eq!(strings.children.len(), 4);
    assert!(matches!(&strings.children[3].result,
        AnnotationResult::Invalid { span, .. } if *span == (16..18)));
}

#[test]
fn load_annotation_applies_the_file_parser() {
    let bytes = sample_bytes();
    let anno = load_annotation(&bytes);
    assert_eq!(anno.parser_id, "tdt_file");
    assert_eq!(anno.result.to_string(), "TDTFile { version: 3, strings: \"hi\" }");
    assert_eq!(anno.children[1].parser_id, "tdt_file[1]/strings");
    let mut parser = tdt_file();
    assert!(parser.parse(&mut &bytes[..5]).is_err());
}

#[test]
fn colours_come_from_the_hash() {
    let ids = vec!["a".to_owned(), "a[0]/b".to_owned()];
    let colours = generate_colours(&ids);
    assert_eq!(colours.len(), 2);
    for (id, code) in &colours {
        assert_eq!(*code, FxBuildHasher.hash_one(id) as u32);
    }
    assert_eq!(colour_of_hash(0x1_2345_6789), 0x2345_6789);
}

#[test]
fn layout_of_an_annotation() {
    let child = leaf_at("p[0]/le_u16", 2, 9);
    let top = Annotation::success("p", 0..4, &1u32, vec![child]);
    let paints = layout_annotation(&top, Area { x: 0, y: 0, width: 40, height: 2 });
    assert_eq!(paints.len(), 2);
    assert_eq!(paints[0].area.width, 11);
    assert_eq!(paints[0].text, "1");
    assert_eq!(paints[0].text_x, 10);
    assert_eq!(paints[1].area, Area { x: 6, y: 1, width: 5, height: 1 });
    assert_eq!(paints[1].color_key, "p[0]/le_u16");
    assert!(layout_annotation(&top, Area { x: 0, y: 0, width: 40, height: 0 }).is_empty());
    let narrow = layout_annotation(&Annotation::success("w", 0..1, &12345u32, vec![]), Area { x: 0, y: 0, width: 9, height: 1 });
    assert_eq!(narrow[0].text, "45");
}

fn leaf_at(id: &str, start: usize, value: u16) -> Annotation {
    Annotation::success(id, start..start + 2, &value, vec![])
}

#[test]
fn byte_line_in_hex() {
    assert_eq!(byte_line(&[1, 0xff, 0x0a], 9), "01 ff 0a");
    assert_eq!(byte_line(&[1, 0xff, 0x0a], 7), "01 ff");
    assert_eq!(byte_line(&[], 9), "");
}

#[test]
fn checkpoint_keeps_length_repeat_whole() {
    let mut parser: Checkpoint<LengthRepeat<U32LE, U16LE>> = LengthRepeat::new(U32LE, U16LE);
    let mut input = [1u8, 0, 0, 0, 5].as_slice();
    assert!(parser.parse(&mut input).is_err());
    assert_eq!(input.len(), 5);
}

fn all_ids(a: &Annotation, out: &mut Vec<String>) {
    out.push(a.parser_id.clone());
    for c in &a.children {
        all_ids(c, out);
    }
}

#[test]
fn loaded_annotation_ids_are_described() {
    let described = load_parser().identifiers();
    for bytes in [sample_bytes(), vec![1, 0], vec![], tdt_bytes(), vec![1, 0, 0, 0, 1, 0, 0, 0, 0, 0xd8]] {
        let anno = load_annotation(&bytes);
        let mut ids = Vec::new();
        all_ids(&anno, &mut ids);
        for id in &ids {
            assert!(described.contains(id), "{id} is not described");
        }
        let paints = layout_annotation(&anno, Area { x: 0, y: 0, width: 200, height: 6 });
        assert!(!paints.is_empty());
        for paint in &paints {
            assert!(described.contains(&paint.color_key));
        }
    }
}

#[test]
fn parsed_ids_are_identifiers_of_the_spec() {
    let mut parser = (Opt(U32LE), (U8, LengthRepeat::new(U8, U16LE)));
    let described = parser.spec().identifiers();
    for bytes in [vec![], vec![1u8, 2, 3, 4, 5, 2, 1, 0], vec![1u8, 2, 3, 4, 5, 2, 1]] {
        let anno = parser.annotate(&bytes);
        let mut ids = Vec::new();
        all_ids(&anno, &mut ids);
        assert!(ids.len() > 1);
        for id in &ids {
            assert!(described.contains(id), "{id} is not described");
        }
    }
}

#[test]
fn parser_view_lines_use_identifier_colours() {
    let described = load_parser();
    let ids = described.identifiers();
    let lines = described.to_lines_styled(0, "");
    assert_eq!(lines.len(), 9);
    for line in &lines {
        assert!(ids.contains(&line.color_key));
    }
    let spec = ParserSpec::new("a", vec![ParserSpec::empty("b")]);
    for line in spec.to_lines_styled(2, "p/", None) {
        assert!(line.color_key == "p/a" || line.color_key == "p/a[0]/b");
    }
}

#[test]
fn colours_are_distinct() {
    let ids: Vec<String> = (0..6000).map(|i| format!("p[{i}]/x")).collect();
    let colours = generate_colours(&ids);
    assert_eq!(colours.len(), ids.len());
    let mut seen = std::collections::HashSet::new();
    for (k, (id, code)) in colours.iter().enumerate() {
        assert_eq!(id, &ids[k]);
        assert!(seen.insert(code % 0x100_0000), "colour of {id} repeats");
    }
}

#[test]
fn tdt_parser_minimal_file() {
    let b: [u8; 24] = [
        1, 0, 0, 0, 2, 0, 0, 0, 0x61, 0, 0, 0, 0xff, 0xff, 0xff, 0xff, 0, 0, 0, 0, 0, 0, 0, 0,
    ];
    let mut s: &[u8] = &b;
    let mut parser = TDTParser::new();
    let (d, anno) = parser.parse(&mut s).unwrap();
    assert!(s.is_empty());
    assert_eq!(d.version, 1);
    assert_eq!(d.strings, "a\0");
    assert_eq!(d.tdt_file, None);
    assert_eq!(d.flags, None);
    assert_eq!(d.num, None);
    assert_eq!(d.tgt_file, Some("a".to_string()));
    assert_eq!(d.tag, Some("a".to_string()));
    assert_eq!(anno.parser_id, "map");
    assert_eq!(anno.children[0].parser_id, "map[0]/tuple");
    assert_eq!(anno.children[0].children.len(), 7);
    assert_eq!(
        anno.children[0].result.to_string(),
        "(1, RefCell { value: Some(\"a\\0\") }, RefCell { value: Some(None) }, \
         RefCell { value: Some(None) }, None, Some(Some(\"a\")), Some(Some(\"a\")))"
    );
    assert_eq!(parser.0.inner.inner.1.value.get(), Some("a\0".to_string()));
    assert_eq!(parser.0.inner.inner.3.value.get(), Some(None));
}

#[test]
fn indexed_lookup_with_the_table_given() {
    let table = Some("ab\0c\0".to_string());
    let mut p = TryMap::new(U32LE, IndexIn { table: table.clone() }, "index_string");
    let (v, a) = p.parse(&mut [3u8, 0, 0, 0].as_slice()).unwrap();
    assert_eq!(v, Some("c".to_string()));
    assert_eq!(a.result.span(), (0, Some(4)));
    assert_eq!(p.parse(&mut [0u8, 0, 0, 0].as_slice()).unwrap().0, Some("ab".to_string()));
    assert_eq!(p.parse(&mut [2u8, 0, 0, 0].as_slice()).unwrap().0, None);
    assert_eq!(p.parse(&mut [0xffu8, 0xff, 0xff, 0xff].as_slice()).unwrap().0, None);
    let mut input = [9u8, 0, 0, 0, 7].as_slice();
    let err = p.parse(&mut input).unwrap_err();
    assert!(matches!(&err.result, AnnotationResult::Invalid { span, reason }
        if *span == (0..4) && reason == "String index out of bounds"));
    assert_eq!(input, &[7]);
    let mut none = TryMap::new(U32LE, IndexIn { table: None }, "index_string");
    let err = none.parse(&mut [0xffu8, 0xff, 0xff, 0xff].as_slice()).unwrap_err();
    assert!(matches!(&err.result, AnnotationResult::Invalid { reason, .. }
        if reason == "String table has not been initialised yet"));
    let mut open = TryMap::new(U32LE, IndexIn { table: Some("abc".to_string()) }, "index_string");
    let err = open.parse(&mut [1u8, 0, 0, 0].as_slice()).unwrap_err();
    assert!(matches!(&err.result, AnnotationResult::Invalid { reason, .. }
        if reason == "Did not find null terminator"));
    assert_eq!(index_in(&table, 3), Ok(Some("c".to_string())));
}

#[test]
fn conditional_with_the_value_given() {
    let mut g = Given {
        cond: Cond::new(DelayedVal::empty(), FlagIn { flags: vec![1, 2], when_absent: false }, U16LE),
        value: Some(Some(0u8)),
    };
    let mut s = [7u8, 0].as_slice();
    let (v, a) = g.parse(&mut s).unwrap();
    assert_eq!(v, None);
    assert_eq!(a.result.span(), (0, Some(0)));
    assert!(a.children.is_empty());
    assert_eq!(s.len(), 2);
    g.value = Some(Some(2));
    let (v, a) = g.parse(&mut s).unwrap();
    assert_eq!(v, Some(7));
    assert_eq!(a.children[0].parser_id, "cond[0]/le_u16");
    g.value = None;
    let a = g.parse(&mut s).unwrap_err();
    assert!(matches!(&a.result, AnnotationResult::Invalid { reason, .. }
        if reason == "Dependent value has not been initialised yet"));
}

#[test]
fn layout_fits_text_by_bytes() {
    let area = Area { x: 0, y: 0, width: 40, height: 1 };
    let wide = Annotation {
        parser_id: "x".to_owned(),
        children: vec![],
        result: AnnotationResult::Success { span: 0..2, value: "é".to_owned() },
    };
    let paints = layout_annotation(&wide, area);
    assert_eq!(paints[0].area.width, 5);
    assert_eq!(paints[0].text_x, 3);
    assert_eq!(paints[0].text, "é");
    let cut = Annotation {
        parser_id: "x".to_owned(),
        children: vec![],
        result: AnnotationResult::Success { span: 0..1, value: "aéb".to_owned() },
    };
    let paints = layout_annotation(&cut, area);
    assert_eq!(paints[0].area.width, 2);
    assert_eq!(paints[0].text_x, 0);
    assert_eq!(paints[0].text, "b");
}

#[test]
fn assigned_colours_resolve_collisions() {
    let ids = vec!["a".to_owned(), "b".to_owned(), "c".to_owned()];
    let r = assign_colours(&ids, &[0x1_0000_0005, 5, 0x0100_0000]);
    let codes: Vec<u32> = r.iter().map(|(_, c)| *c).collect();
    assert_eq!(codes, vec![5, 0, 1]);
    assert_eq!(r[1].0, "b");
    let r = assign_colours(&ids, &[7, 0xffff_ffff_0000_0009, 8]);
    let codes: Vec<u32> = r.iter().map(|(_, c)| *c).collect();
    assert_eq!(codes, vec![7, 9, 8]);
}
