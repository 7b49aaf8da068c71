use binspect::annotation::AnnotationResult;
use binspect::dummy_data::parser::{strings_section, TDTParser};
use binspect::parser::combinator::LengthRepeat;
use binspect::parser::generic::{le_u32, length_repeat};
use binspect::parser::num::{U16LE, U32LE};
use binspect::parser::spec::ParserSpec;
use binspect::parser::specific::strings;
use binspect::parser::Parser;

#[test]
fn parser_test_strings_good() {
    let bytes = [5, 0, 0, 0, b'h', 0, b'e', 0, b'l', 0, b'l', 0, b'o', 0];
    let input = &mut bytes.as_slice();

    let mut parser = strings_section();
    let (value, _anno) = parser.parse(input).unwrap();
    assert_eq!(value.get(), Some("hello".to_owned()));
}

#[test]
fn parser_test_strings_bad() {
    let bytes = [5, 0, 0, 0, b'h', 0, b'e', 0, b'l', 0, 0, 0xd8, b'o', 0];
    let input = &mut bytes.as_slice();

    let mut parser = strings_section();
    let Err(anno) = parser.parse(input) else {
        panic!("the parse should have failed")
    };
    println!("{:#?}", anno);
}

#[test]
fn test_tdt_spec() {
    let parser = TDTParser::new();
    let spec = parser.spec();
    println!("{:#?}", spec);
}

#[test]
fn class_test_u32_good() {
    let bytes = [4, 0, 0, 0];
    let input = &mut bytes.as_slice();

    let (value, anno) = U32LE.parse(input).unwrap();
    assert_eq!(value, 4);
    assert_eq!(anno.parser_id, "le_u32");
    assert!(anno.children.is_empty());

    let AnnotationResult::Success { span, value } = anno.result else {
        unreachable!()
    };

    assert_eq!(span, 0..4);
    assert_eq!(value, "4");
}

#[test]
fn class_test_u32_bad() {
    let bytes = [4, 0, 0];
    let input = &mut bytes.as_slice();

    let anno = U32LE.parse(input).unwrap_err();
    assert_eq!(anno.parser_id, "le_u32");
    assert!(anno.children.is_empty());

    let AnnotationResult::Incomplete { start } = anno.result else {
        unreachable!()
    };

    assert_eq!(start, 0);
}

#[test]
fn class_test_length_repeat_good() {
    let bytes = [2, 0, 0, 0, 1, 0, 2, 0];
    let input = &mut bytes.as_slice();

    let mut parser = LengthRepeat::new(U32LE, U16LE);
    let (value, anno) = parser.parse(input).unwrap();
    assert_eq!(value, vec![1, 2]);
    assert_eq!(anno.parser_id, "length_repeat");
    assert_eq!(anno.children.len(), 3);

    let AnnotationResult::Success { span, value } = &anno.result else {
        unreachable!()
    };

    assert_eq!(*span, 0..8);
    assert_eq!(value, "[1, 2]");
}

#[test]
fn class_test_length_repeat_bad() {
    let bytes = [2, 0, 0, 0, 1, 0];
    let input = &mut bytes.as_slice();

    let mut parser = LengthRepeat::new(U32LE, U16LE);
    let anno = parser.parse(input).unwrap_err();
    assert_eq!(anno.parser_id, "length_repeat");
    assert_eq!(anno.children.len(), 3);
}

#[test]
fn class_test_length_repeat_spec() {
    let parser = LengthRepeat::new(U32LE, U16LE);
    let spec = parser.spec();

    let expected = ParserSpec {
        name: "length_repeat".to_owned(),
        inner: vec![ParserSpec::empty("le_u32"), ParserSpec::empty("le_u16")],
        friendly_name: None,
    };

    assert_eq!(expected, spec);
}

#[test]
fn length_repeat_test_length_repeat_good() {
    let bytes = [2, 0, 0, 0, 1, 0, 2, 0];
    let input = &mut bytes.as_slice();

    let mut parser = LengthRepeat::new(U32LE, U16LE);
    let (value, anno) = parser.parse(input).unwrap();
    assert_eq!(value, vec![1, 2]);
    assert_eq!(anno.parser_id, "length_repeat");
    assert_eq!(anno.children.len(), 3);

    let AnnotationResult::Success { span, value } = &anno.result else {
        unreachable!()
    };

    assert_eq!(*span, 0..8);
    assert_eq!(value, "[1, 2]");
}

#[test]
fn length_repeat_test_length_repeat_bad() {
    let bytes = [2, 0, 0, 0, 1, 0];
    let input = &mut bytes.as_slice();

    let mut parser = LengthRepeat::new(U32LE, U16LE);
    let anno = parser.parse(input).unwrap_err();
    assert_eq!(anno.parser_id, "length_repeat");
    assert_eq!(anno.children.len(), 3);
}

#[test]
fn length_repeat_test_length_repeat_spec() {
    let parser = LengthRepeat::new(U32LE, U16LE);
    let spec = parser.spec();

    let expected = ParserSpec {
        name: "length_repeat".to_owned(),
        inner: vec![ParserSpec::empty("le_u32"), ParserSpec::empty("le_u16")],
        friendly_name: None,
    };

    assert_eq!(expected, spec);
}

#[test]
fn generic_test_u32_good() {
    let bytes = [4, 0, 0, 0];
    let input = &mut bytes.as_slice();

    let (value, anno) = le_u32(input).unwrap();
    assert_eq!(value, 4);
    assert_eq!(anno.parser_id, "le_u32");
    assert!(anno.children.is_empty());

    let AnnotationResult::Success { span, value } = anno.result else {
        unreachable!()
    };

    assert_eq!(span, 0..4);
    assert_eq!(value, "4");
}

#[test]
fn generic_test_u32_bad() {
    let bytes = [4, 0, 0];
    let input = &mut bytes.as_slice();

    let anno = le_u32(input).unwrap_err();
    assert_eq!(anno.parser_id, "le_u32");
    assert!(anno.children.is_empty());

    let AnnotationResult::Incomplete { start } = anno.result else {
        unreachable!()
    };

    assert_eq!(start, 0);
}

#[test]
fn generic_test_length_repeat_good() {
    let bytes = [2, 0, 0, 0, 1, 0, 2, 0];
    let input = &mut bytes.as_slice();

    let mut parser = length_repeat(U32LE, U16LE);
    let (value, anno) = parser.parse(input).unwrap();
    assert_eq!(value, vec![1, 2]);
    assert_eq!(anno.parser_id, "length_repeat");
    assert_eq!(anno.children.len(), 3);

    let AnnotationResult::Success { span, value } = &anno.result else {
        unreachable!()
    };

    assert_eq!(*span, 0..8);
    assert_eq!(value, "[1, 2]");
}

#[test]
fn generic_test_length_repeat_bad() {
    let bytes = [2, 0, 0, 0, 1, 0];
    let input = &mut bytes.as_slice();

    let mut parser = length_repeat(U32LE, U16LE);
    let anno = parser.parse(input).unwrap_err();
    assert_eq!(anno.parser_id, "length_repeat");
    assert_eq!(anno.children.len(), 3);
}

#[test]
fn mod_test_u32_good() {
    let bytes = [4, 0, 0, 0];
    let input = &mut bytes.as_slice();

    let (value, anno) = U32LE.parse(input).unwrap();
    assert_eq!(value, 4);
    assert_eq!(anno.parser_id, "le_u32");
    assert!(anno.children.is_empty());

    let AnnotationResult::Success { span, value } = anno.result else {
        unreachable!()
    };

    assert_eq!(span, 0..4);
    assert_eq!(value, "4");
}

#[test]
fn mod_test_u32_bad() {
    let bytes = [4, 0, 0];
    let input = &mut bytes.as_slice();

    let anno = U32LE.parse(input).unwrap_err();
    assert_eq!(anno.parser_id, "le_u32");
    assert!(anno.children.is_empty());

    let AnnotationResult::Incomplete { start } = anno.result else {
        unreachable!()
    };

    assert_eq!(start, 0);
}

#[test]
fn specific_test_strings_good() {
    let bytes = [5, 0, 0, 0, b'h', 0, b'e', 0, b'l', 0, b'l', 0, b'o', 0];
    let input = &mut bytes.as_slice();

    let mut parser = strings();
    let (value, _anno) = parser.parse(input).unwrap();
    assert_eq!(value, "hello");
}

#[test]
fn specific_test_strings_bad() {
    let bytes = [5, 0, 0, 0, b'h', 0, b'e', 0, b'l', 0, 0, 0xd8, b'o', 0];
    let input = &mut bytes.as_slice();

    let mut parser = strings();
    let anno = parser.parse(input).unwrap_err();
    println!("{:#?}", anno);
}
