use std::collections::hash_map::DefaultHasher;
use std::hash::{Hash, Hasher};
use rusty_pdf::cross_ref::CrossRefTable;
use rusty_pdf::page_ops::PageOps;
use rusty_pdf::page_size::PageSize;
use rusty_pdf::action::FitDestination;
use rusty_pdf::cross_ref::Entry;
use rusty_pdf::cross_ref_stream::{CrossRefStream, CrossRefStreamEntry};
use rusty_pdf::color::{Color, RGB};
use rusty_pdf::error::PdfError;
use rusty_pdf::object_ops::ObjectOps;
use rusty_pdf::objects::metadata::{Generation, ObjectStatus, PdfMetadata};
use rusty_pdf::objects::pdf_array::PdfArrayObject;
use rusty_pdf::objects::pdf_object::PdfObject;
use rusty_pdf::objects::stream::PdfStreamObject;
use rusty_pdf::objects::string::encode_non_ascii;
use rusty_pdf::outline::{DocumentOutline, OutlineItem};
use rusty_pdf::pattern::{PaintType, TilingPattern, TilingType};
use rusty_pdf::resource_category::ResourceCategory;
use rusty_pdf::resources_ops::NamedResources;
use rusty_pdf::util::Rectangle;
use rusty_pdf::version::Version;

#[test]
fn cross_reference_line_is_twenty_bytes() {
    let root = Entry::new(0, ObjectStatus::Free, 0, Generation::Root);
    let line = root.as_pdf();
    assert_eq!(line, "0000000000 65535 f\r\n");
    assert_eq!(line.len(), 20);
    let used = Entry::new(3, ObjectStatus::InUse, 1234, Generation::Normal);
    assert_eq!(used.as_pdf(), "0000001234 00000 n\r\n");
}

#[test]
fn metadata_xref_entry_ends_with_space_cr_lf() {
    assert_eq!(PdfMetadata::new_free().format_xref_entry(), "0000000000 00000 f \r\n");
    assert_eq!(PdfMetadata::new().format_xref_entry(), "0000000000 00000 n \r\n");
}

#[test]
fn non_ascii_text_is_one_hex_string_with_mark() {
    assert_eq!(encode_non_ascii("é"), "<FEFF00E9>");
    assert_eq!(encode_non_ascii("Aé"), "<FEFF004100E9>");
}

#[test]
fn stream_with_length_gives_the_duplicate_key_error() {
    let mut stream = PdfStreamObject::new();
    stream.dict.add("Length", PdfObject::from(3i64)).unwrap();
    match stream.encode() {
        Err(PdfError::StructureError(m)) => {
            assert_eq!(m, "add: Attempt to make duplicate key Length in dictionary")
        }
        _ => panic!("expected an error"),
    }
    let mut arr = PdfArrayObject::new();
    arr.push(PdfObject::Stream(stream));
    match arr.encode() {
        Err(PdfError::StructureError(m)) => {
            assert_eq!(m, "add: Attempt to make duplicate key Length in dictionary")
        }
        _ => panic!("expected an error"),
    }
}

#[test]
fn cross_reference_stream_object_and_data_length() {
    let s = CrossRefStream::new();
    let (bytes, len) = s.build_stream_object(5, 1, Some(2));
    let expected: Vec<u8> =
        b"5 0 obj\n<< /Type /XRef /Size 1 /Root 1 0 R /W [ 1 1 2 ] /Info 2 0 R /Length 4 >>\nstream\n\x00\x00\xFF\xFF\nendstream\nendobj"
            .to_vec();
    assert_eq!(bytes, expected);
    assert_eq!(len, 4);
}

#[test]
fn cross_reference_stream_rows_decode_to_entries() {
    let mut s = CrossRefStream::new();
    s.add_entry(CrossRefStreamEntry::Uncompressed { byte_offset: 70000, generation: 0 });
    s.add_entry(CrossRefStreamEntry::CompressedInObjstm { objstm_number: 9, index_within_objstm: 3 });
    let (w2, w3) = s.calculate_optimal_widths();
    assert_eq!((w2, w3), (3, 2));
    let data = s.build_binary_data(w2, w3);
    let n = 1 + w2 + w3;
    assert_eq!(data.len(), 3 * n);
    let be = |b: &[u8]| b.iter().fold(0u64, |acc, x| acc * 256 + *x as u64);
    assert_eq!(data[0], 0);
    assert_eq!(be(&data[1..1 + w2]), 0);
    assert_eq!(be(&data[1 + w2..n]), 65535);
    assert_eq!(data[n], 1);
    assert_eq!(be(&data[n + 1..n + 1 + w2]), 70000);
    assert_eq!(be(&data[n + 1 + w2..2 * n]), 0);
    assert_eq!(data[2 * n], 2);
    assert_eq!(be(&data[2 * n + 1..2 * n + 1 + w2]), 9);
    assert_eq!(be(&data[2 * n + 1 + w2..3 * n]), 3);
}

#[test]
fn outline_dictionaries_one_per_entry() {
    let mut outline = DocumentOutline::new();
    outline.add_item(OutlineItem::new("Introduction".to_string(), Some(FitDestination::fit(0))));
    let mut part = OutlineItem::new("Part".to_string(), Some(FitDestination::fit(1)));
    part.add_child(OutlineItem::new("Chapter1".to_string(), Some(FitDestination::fit(2))));
    part.add_child(OutlineItem::new("Chapter2".to_string(), Some(FitDestination::fit(3))));
    outline.add_item(part);

    let mut ops = ObjectOps::new(Version::V1_7);
    let start = ops.last_object_number().value();
    let dicts = outline.to_dicts(&mut ops).unwrap();
    assert_eq!(ops.last_object_number().value(), start + 5);

    let (outline_id, outline_dict) = dicts.outline_dict.unwrap();
    assert_eq!(outline_id, start + 1);
    assert_eq!(outline_dict.get_integer("First"), Some((start + 2) as i64));
    assert_eq!(outline_dict.get_integer("Last"), Some((start + 3) as i64));
    assert_eq!(outline_dict.get_integer("Count"), Some(4));

    let items = &dicts.item_dicts;
    assert_eq!(items.len(), 4);
    let ids: Vec<u64> = items.iter().map(|(id, _)| *id).collect();
    assert_eq!(ids, vec![start + 2, start + 4, start + 5, start + 3]);

    let intro = &items[0].1;
    assert_eq!(intro.get_integer("Prev"), None);
    assert_eq!(intro.get_integer("Next"), Some((start + 3) as i64));
    assert!(intro.contains_key("Dest"));
    assert!(!intro.contains_key("First"));

    let ch1 = &items[1].1;
    assert_eq!(ch1.get_integer("Prev"), None);
    assert_eq!(ch1.get_integer("Next"), Some((start + 5) as i64));
    let ch2 = &items[2].1;
    assert_eq!(ch2.get_integer("Prev"), Some((start + 4) as i64));
    assert_eq!(ch2.get_integer("Next"), None);

    let part_dict = &items[3].1;
    assert_eq!(part_dict.get_integer("Prev"), Some((start + 2) as i64));
    assert_eq!(part_dict.get_integer("Next"), None);
    assert_eq!(part_dict.get_integer("First"), Some((start + 4) as i64));
    assert_eq!(part_dict.get_integer("Last"), Some((start + 5) as i64));
    assert_eq!(part_dict.get_integer("Count"), Some(2));
}

#[test]
fn empty_outline_takes_no_numbers() {
    let outline = DocumentOutline::new();
    let mut ops = ObjectOps::new(Version::V1_7);
    let dicts = outline.to_dicts(&mut ops).unwrap();
    assert!(dicts.outline_dict.is_none());
    assert!(dicts.item_dicts.is_empty());
    assert_eq!(ops.last_object_number().value(), 0);
}

#[test]
fn error_messages() {
    assert_eq!(PdfError::InvalidObjectReference(7).message(), "Invalid object reference: 7");
    assert_eq!(PdfError::CompressionError("bad".to_string()).message(), "Compression error: bad");
    assert_eq!(PdfError::InvalidFont("X".to_string()).message(), "Invalid font: X");
    assert_eq!(PdfError::InvalidImage("png".to_string()).message(), "Invalid image: png");
    assert_eq!(PdfError::StructureError("oops".to_string()).message(), "PDF structure error: oops");
    assert_eq!(
        PdfError::InvalidColorChannel { color: Color::new(10000) }.message(),
        "Invalid color channel: Color { color: 1.0 }"
    );
    assert_eq!(
        PdfError::InvalidColorChannel { color: Color::new(2500) }.message(),
        "Invalid color channel: Color { color: 0.25 }"
    );
    let rgb = RGB::new(Color::new(10000), Color::new(5000), Color::new(0));
    assert_eq!(
        PdfError::InvalidRGB { rgb }.message(),
        "Invalid color values: r=1, g=0.5, b=0 (must be 0.0-1.0)"
    );
}

#[test]
fn tiling_pattern_key() {
    let bbox = Rectangle { x1: 0, y1: 0, x2: 100000, y2: 100000 };
    let p = TilingPattern::new(bbox, 100000, 25000, PaintType::Colored, TilingType::ConstantSpacing, b"0 0 m".to_vec())
        .unwrap();
    assert_eq!(p.hash(42), "tiling:10:2.5:1:42");
    let q = TilingPattern::new(bbox, 100000, 100000, PaintType::Uncolored, TilingType::NoDistortion, Vec::new())
        .unwrap();
    assert_eq!(q.hash(7), "tiling:10:10:2:7");
}

#[test]
fn tiling_pattern_key_hashes_its_content() {
    let content = b"0 0 10 10 re f".to_vec();
    let mut hasher = DefaultHasher::new();
    content.hash(&mut hasher);
    let h = hasher.finish();
    let bbox = Rectangle { x1: 0, y1: 0, x2: 100000, y2: 100000 };
    let p = TilingPattern::new(bbox, 100000, 100000, PaintType::Colored, TilingType::ConstantSpacing, content)
        .unwrap();
    assert_eq!(p.key(), p.hash(h));
    assert_eq!(p.key(), format!("tiling:10:10:1:{}", h));
}

#[test]
fn resource_names_differ_across_categories() {
    let mut res = NamedResources::new();
    let f = res.add(ResourceCategory::Font, 1);
    let g = res.add(ResourceCategory::ExtGState, 2);
    let p = res.add(ResourceCategory::Pattern, 3);
    let pr = res.add(ResourceCategory::Properties, 4);
    assert_ne!(f, g);
    assert_ne!(p, pr);
    assert!(f.starts_with('F'));
    assert!(g.starts_with("GS"));
}

#[test]
fn page_keeps_its_size_and_content_under_its_node() {
    let mut ops = ObjectOps::new(Version::V1_7);
    let mut page_ops = PageOps::new(&mut ops).unwrap();
    let root = page_ops.root_tree();
    let page = root.make_page(&mut ops, PageSize::Letter, b"BT ET".to_vec()).unwrap();
    root.add_page(page).unwrap();
    let mut xref = CrossRefTable::new();
    let mut out: Vec<u8> = Vec::new();
    page_ops.root_tree().serialise_all(&mut xref, &mut out).unwrap();
    let text = String::from_utf8_lossy(&out).to_string();
    assert!(text.contains("1 0 obj\n<<\n/Type /Pages\n"));
    assert!(text.contains("/Count 1\n"));
    assert!(text.contains("2 0 obj\n<<\n/Type /Page\n/MediaBox [ 0 0 612 792 ]\n/Resources <<\n>>\n\n/Contents 3 0 R \n/Parent 1 0 R \n>>"));
    assert!(text.contains("stream\nBT ET\nendstream"));
}
