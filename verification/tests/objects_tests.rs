use rusty_pdf::object_ops::ObjectNumber;
use rusty_pdf::objects::boolean::PdfBooleanObject;
use rusty_pdf::objects::dictionary::PdfDictionaryObject;
use rusty_pdf::objects::name::PdfNameObject;
use rusty_pdf::objects::number::NumberType;
use rusty_pdf::objects::pdf_array::PdfArrayObject;
use rusty_pdf::objects::pdf_object::{PdfObj, PdfObject};
use rusty_pdf::objects::pdf_string::{encode_text_string, PdfStringObject};
use rusty_pdf::objects::reference::PdfReferenceObject;
use rusty_pdf::objects::stream::PdfStreamObject;
use rusty_pdf::version::Version;

fn contains(haystack: &[u8], needle: &[u8]) -> bool {
    haystack.windows(needle.len()).any(|w| w == needle)
}

#[test]
fn encode_simple_name() {
    let obj = PdfNameObject::new("Type");
    assert_eq!(obj.encode().unwrap(), b"/Type");
}

#[test]
fn encode_longer_name() {
    let obj = PdfNameObject::new("FlateDecode");
    assert_eq!(obj.encode().unwrap(), b"/FlateDecode");
}

#[test]
fn encode_empty_name() {
    let obj = PdfNameObject::new("");
    assert_eq!(obj.encode().unwrap(), b"/");
}

#[test]
fn encode_simple_string() {
    let obj = PdfStringObject::new("Hello, World!");
    assert_eq!(obj.encode(Version::V1_5).unwrap(), b"(Hello, World!)");
}

#[test]
fn encode_empty_string() {
    let obj = PdfStringObject::new("");
    assert_eq!(obj.encode(Version::V1_5).unwrap(), b"()");
}

#[test]
fn encode_string_with_newline() {
    let obj = PdfStringObject::new("line1\nline2");
    assert_eq!(obj.encode(Version::V1_5).unwrap(), b"(line1\nline2)");
}

#[test]
fn test_is_ascii() {
    let str = "String";
    let res = str.is_ascii();
    assert_eq!(res, true);
}

#[test]
fn encode_ascii() {
    let str = "String";
    let res = encode_text_string(str, Version::V1_4);
    assert_eq!(res, b"(String)");
}

#[test]
fn encode_ascii_bytes() {
    let str = "String";
    let res = encode_text_string(str, Version::V1_4);
    assert_eq!(res, [40, 83, 116, 114, 105, 110, 103, 41]);
}

#[test]
fn encode_chinese() {
    let str = "公共汽车";
    let res = encode_text_string(str, Version::V1_4);
    assert_eq!(res, [0xFE, 0xFF, 81, 108, 81, 113, 108, 125, 143, 102]);
}

#[test]
fn encode_chinese_version_2() {
    let str = "公共汽车";
    let res = encode_text_string(str, Version::V2_2017);
    assert_eq!(res, [0xEF, 0xBB, 0xBF, 229, 133, 172, 229, 133, 177, 230, 177, 189, 232, 189, 166]);
}

#[test]
fn ascii_is_same_for_v_2_and_v_1_4() {
    let str = "String";
    let res1 = encode_text_string(str, Version::V2_2017);
    let res2 = encode_text_string(str, Version::V1_4);
    assert_eq!(res1, res2);
}

#[test]
fn test_dictionary_methods() {
    let mut dict = PdfDictionaryObject::new();
    assert!(dict.is_empty());
    assert_eq!(dict.len(), 0);

    dict.add("Key1", *Box::from(PdfObj::make_name_obj("Value1"))).expect("fail");
    assert!(!dict.is_empty());
    assert_eq!(dict.len(), 1);
    assert!(dict.contains_key("Key1"));
    assert!(!dict.contains_key("Key2"));

    dict.add("Key2", *Box::from(PdfObj::make_name_obj("Value2"))).expect("fail");
    assert_eq!(dict.len(), 2);
    assert!(dict.contains_key("Key2"));
}

#[test]
fn encode_empty_dictionary() {
    let dict = PdfDictionaryObject::new();
    assert_eq!(dict.encode().unwrap(), b"<<\n>>\n");
}

#[test]
fn encode_single_entry() {
    let mut dict = PdfDictionaryObject::new();
    dict.add("Type", PdfObj::make_name_obj("Catalog")).expect("fail");
    let output = String::from_utf8(dict.encode().unwrap()).unwrap();
    assert!(output.starts_with("<<\n"));
    assert!(output.contains("/Type /Catalog"));
    assert!(output.ends_with(">>\n"));
}

#[test]
fn encode_multiple_entries() {
    let mut dict = PdfDictionaryObject::new();
    dict.add("Type", PdfObj::make_name_obj("Page")).expect("fail");
    dict.add("Count", PdfObj::make_num_obj(NumberType::from(3i64))).expect("fail");
    let output = String::from_utf8(dict.encode().unwrap()).unwrap();
    assert!(output.contains("/Type /Page"));
    assert!(output.contains("/Count 3"));
}

#[test]
fn encode_with_boolean_value() {
    let mut dict = PdfDictionaryObject::new();
    dict.add("Visible", PdfObject::from(PdfBooleanObject::new(true))).expect("fail");
    let output = String::from_utf8(dict.encode().unwrap()).unwrap();
    assert!(output.contains("/Visible true"));
}

#[test]
fn dictionary_encode_with_indirect_reference() {
    let mut dict = PdfDictionaryObject::new();
    dict.add("Pages", PdfObj::make_reference_obj(2)).expect("fail");
    let output = String::from_utf8(dict.encode().unwrap()).unwrap();
    assert!(output.contains("/Pages 2 0 R"));
}

#[test]
fn encode_empty_array() {
    let arr = PdfArrayObject::new();
    assert_eq!(arr.encode().unwrap(), b"[ ]");
}

#[test]
fn encode_single_element() {
    let mut arr = PdfArrayObject::new();
    arr.push(PdfObject::from(42));
    assert_eq!(arr.encode().unwrap(), b"[ 42 ]");
}

#[test]
fn encode_mixed_elements() {
    let mut arr = PdfArrayObject::new();
    arr.push(PdfObject::from(549));
    arr.push(PdfObject::from(NumberType::Real(31400)));
    arr.push(PdfObject::from(false));
    assert_eq!(arr.encode().unwrap(), b"[ 549 3.14 false ]");
}

#[test]
fn encode_with_name() {
    let mut arr = PdfArrayObject::new();
    arr.push(PdfObject::name_obj("SomeName"));
    assert_eq!(arr.encode().unwrap(), b"[ /SomeName ]");
}

#[test]
fn pdf_array_encode_with_indirect_reference() {
    let mut arr = PdfArrayObject::new();
    arr.push(PdfObject::from(PdfReferenceObject::new(ObjectNumber::new(10))));
    assert_eq!(arr.encode().unwrap(), b"[ 10 0 R  ]");
}

#[test]
fn encode_empty_stream() {
    let stream = PdfStreamObject::new().with_object_number(1);
    let output = String::from_utf8(stream.encode().unwrap()).unwrap();
    assert!(output.contains("/Length 0"));
    assert!(output.contains("stream\n"));
    assert!(output.contains("\nendstream\n"));
}

#[test]
fn encode_stream_with_content() {
    let mut stream = PdfStreamObject::new().with_object_number(1);
    stream.add(b"some data".to_vec());
    let output = String::from_utf8(stream.encode().unwrap()).unwrap();
    assert!(output.contains("/Length 9"));
    assert!(output.contains("stream\nsome data\nendstream\n"));
    stream.add(b"BT /F1 12 Tf ET".to_vec());
    let output = String::from_utf8(stream.encode().unwrap()).unwrap();
    assert!(output.contains("/Length 15"));
    assert!(output.contains("stream\nBT /F1 12 Tf ET\nendstream\n"));
}

#[test]
fn encode_stream_length_matches_content() {
    let mut stream = PdfStreamObject::new().with_object_number(1);
    let content = b"q 1 0 0 1 100 200 cm Q";
    stream.add(content.to_vec());
    let output = String::from_utf8(stream.encode().unwrap()).unwrap();
    assert!(output.contains(&format!("/Length {}", content.len())));
}

#[test]
fn encode_compressed_stream_has_filter() {
    let stream = PdfStreamObject::new().with_object_number(1).compressed();
    let encoded = stream.expect("REASON").encode().unwrap();
    assert!(contains(&encoded, b"/Filter /FlateDecode"));
    assert!(contains(&encoded, b"stream\n"));
    assert!(contains(&encoded, b"\nendstream\n"));
}

#[test]
fn encode_stream_with_dict_entries() {
    let mut stream = PdfStreamObject::new().with_object_number(1);
    stream.dict.add("Type", PdfObj::make_name_obj("XObject")).expect("fail");
    stream.add(b"some data".to_vec());
    let output = String::from_utf8(stream.encode().unwrap()).unwrap();
    assert!(output.contains("/Type /XObject"));
    assert!(output.contains("/Length 9"));
}
