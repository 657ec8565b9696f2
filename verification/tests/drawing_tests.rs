use std::cmp::Ordering;
use rusty_pdf::encoding::to_bytes_num;
use rusty_pdf::resource_category::ResourceCategory;
use rusty_pdf::resources_ops::NamedResources;
use rusty_pdf::graphics_ops::GraphicsStateManager;
use rusty_pdf::body::Body;
use rusty_pdf::color::{CMYK, Color, ColorSpace, RGB, RGBA};
use rusty_pdf::cross_ref::CrossRefTable;
use rusty_pdf::drawing_commands::DrawingCommands;
use rusty_pdf::file_specification::{EmbeddedFileStreams, FileSpecification};
use rusty_pdf::gradient::{Gradient, GradientKind};
use rusty_pdf::graphics_ops::GraphicsOps;
use rusty_pdf::object_ops::ObjectOps;
use rusty_pdf::objects::dictionary::PdfDictionaryObject;
use rusty_pdf::objects::number::{NumberType, PdfNumberObject};
use rusty_pdf::objects::pdf_array::PdfArrayObject;
use rusty_pdf::objects::pdf_object::PdfObject;
use rusty_pdf::objects::stream::{CompressionMethod, PdfStreamObject};
use rusty_pdf::objects::pdf_object::PdfObj;
use rusty_pdf::page_ops::PageOps;
use rusty_pdf::page_size::PageSize;
use rusty_pdf::pdf_file::{Pdf, write_document, write_trailer};
use rusty_pdf::shading::{Shading2Axial, Shading6CoonsPatch, ShadingBase, ShadingType};
use rusty_pdf::util::{Dims, Matrix, Posn, StrokeOrFill, WindingRule};
use rusty_pdf::version::Version;

fn content_of(f: impl FnOnce(&mut DrawingCommands)) -> String {
    let mut stream = PdfStreamObject::new();
    {
        let mut cmd = DrawingCommands::new(&mut stream);
        f(&mut cmd);
    }
    String::from_utf8(stream.content.clone()).unwrap()
}

fn rgb(r: i64, g: i64, b: i64) -> RGB {
    RGB::new(Color::new(r), Color::new(g), Color::new(b))
}

#[test]
fn path_operators_are_written_in_order() {
    let text = content_of(|cmd| {
        cmd.move_to_x_y(Posn { x: 500000, y: 1000000 });
        cmd.line_to_x_y(Posn { x: 3500000, y: 1000000 });
        cmd.curve_to(Posn { x: 1, y: 2 }, Posn { x: 30000, y: 40000 }, Posn { x: -55000, y: 0 });
        cmd.close();
        cmd.stroke_path();
    });
    assert_eq!(text, "50 100 m350 100 l0.0001 0.0002 3 4 -5.5 0 chS");
}

#[test]
fn rectangle_and_fill_rules() {
    let text = content_of(|cmd| {
        cmd.rectangle(Posn { x: 500000, y: 500000 }, Dims { width: 3000000, height: 500000 });
        cmd.fill(WindingRule::EvenOdd);
        cmd.fill(WindingRule::NonZero);
        cmd.clip(WindingRule::EvenOdd);
        cmd.fill_and_stroke(WindingRule::NonZero);
        cmd.fill_stroke_and_close(WindingRule::EvenOdd);
    });
    assert_eq!(text, "50 50 300 50 ref*f W*B b*");
}

#[test]
fn colours_and_colour_spaces() {
    let text = content_of(|cmd| {
        cmd.set_color_rgb(rgb(0, 0, 10000), StrokeOrFill::Fill);
        cmd.set_color_rgb(rgb(10000, 5000, 0), StrokeOrFill::Stroke);
        cmd.set_color_cmyk(
            CMYK::new(Color::new(0), Color::new(2500), Color::new(0), Color::new(10000)),
            StrokeOrFill::Fill,
        );
        cmd.set_color_grayscale(Color::new(7500), StrokeOrFill::Stroke);
        cmd.set_color_space("Pattern", StrokeOrFill::Fill);
        cmd.set_color_special(Some("P0"), StrokeOrFill::Fill, &[]);
        cmd.set_color_special(None, StrokeOrFill::Stroke, &[10000, 5000]);
        cmd.set_color_special(Some("P1"), StrokeOrFill::Stroke, &[2500]);
    });
    assert_eq!(text, "0 0 1 rg1 0.5 0 RG0 0.25 0 1 k0.75 G/ Pattern cs/P0 scn1 0.5 SCN0.25 /P1 SCN");
}

#[test]
fn text_operators() {
    let text = content_of(|cmd| {
        cmd.begin_text();
        cmd.set_font_name_and_size("Helvetica-Bold", 160000);
        cmd.set_text_position(Posn { x: 500000, y: 2500000 });
        cmd.show_single_text_string("Hello");
        cmd.set_text_rendering_mode(2);
        cmd.set_text_rise(-15000);
        cmd.move_text_to_next_line_at(Posn { x: 0, y: -120000 });
        cmd.show_text_strings("(a) 120 (b)");
        cmd.end_text();
    });
    assert_eq!(
        text,
        "BT/Helvetica-Bold 16 Tf1 0 0 1 50 250 Tm(Hello) Tj2 Tr-1.5 Ts0 -12 T*[(a) 120 (b)] TJET"
    );
}

#[test]
fn graphics_state_operators() {
    let text = content_of(|cmd| {
        cmd.push_state();
        cmd.set_line_width(25000);
        cmd.set_line_cap_style(1);
        cmd.set_line_join_style(2);
        cmd.set_miter_limit(100000);
        cmd.set_dash_line_pattern(&[30000, 15000], 0);
        cmd.set_transformation_matrix(Matrix { a: 10000, b: 0, c: 0, d: 10000, e: 1000000, f: 2000000 });
        cmd.set_state("GS0");
        cmd.pop_state();
    });
    assert_eq!(text, "q2.5 w1 J2 j10 M[3 1.5] 0 d1 0 0 1 100 200 cm/GS0 gsQ");
}

#[test]
fn marked_content_shading_and_x_objects() {
    let text = content_of(|cmd| {
        cmd.begin_marked_content("OC", None);
        cmd.begin_marked_content("OC", Some(b"/L1".to_vec()));
        cmd.paint_shading("Sh0");
        cmd.draw_x_object("Im1");
        cmd.end_marked_content();
        cmd.end();
    });
    assert_eq!(text, "/OC BMC/OC /L1 BDC/Sh0 sh/Im1 DoEMCn");
}

#[test]
fn gradient_pattern_application() {
    let with_state = content_of(|cmd| cmd.apply_gradient_pattern("P0", StrokeOrFill::Fill, Some("GS1")));
    assert_eq!(with_state, "/GS1 gs/ Pattern cs/P0 scn");
    let without = content_of(|cmd| cmd.apply_gradient_pattern("P2", StrokeOrFill::Stroke, None));
    assert_eq!(without, "/ Pattern CS/P2 SCN");
}

#[test]
fn rounded_rectangle_with_square_corners() {
    let text = content_of(|cmd| {
        cmd.rounded_rectangle(Posn { x: 100000, y: 200000 }, Dims { width: 300000, height: 400000 }, 0, 0, 0, 0);
    });
    assert_eq!(text, "10 60 m40 60 l40 20 l40 20 l10 20 lh");
}

#[test]
fn rounded_rectangle_with_round_corner() {
    // Only the top left radius is set: its corner curve is drawn with KAPPA rounded to
    // ten-thousandths (10 * 0.5522847498 = 5.5228), at the box-relative position.
    let text = content_of(|cmd| {
        cmd.rounded_rectangle(Posn { x: 0, y: 0 }, Dims { width: 1000000, height: 1000000 }, 100000, 0, 0, 0);
    });
    assert_eq!(text, "10 100 m195.5228 200 200 195.5228 200 190 c100 100 l100 0 l100 0 l0 0 lh");
}

#[test]
fn inline_image_uncompressed() {
    let text = content_of(|cmd| {
        cmd.inline_image(1, 1, ColorSpace::RGB, 8, &[0, 0, 0, 0], CompressionMethod::Uncompressed);
    });
    assert_eq!(text, "BI /W 1 /H 1 /BPC 8 /CS /DeviceRGB /F None /L 3 ID\nz~>\nEI\n");
}

#[test]
fn inline_image_compressed_is_not_the_raw_data() {
    let text = content_of(|cmd| {
        cmd.inline_image(2, 2, ColorSpace::Gray, 8, &[7, 7, 7, 7], CompressionMethod::Flate);
    });
    assert!(text.starts_with("BI /W 2 /H 2 /BPC 8 /CS /DeviceGray /F FlateDecode /L "));
    assert!(text.ends_with("~>\nEI\n"));
    // the ASCII85 text of the raw bytes would be "#6tJ=~>"
    assert!(!text.contains(" ID\n#6tJ=~>"));
}

#[test]
fn file_specification_entries() {
    let spec = FileSpecification::new()
        .unwrap()
        .with_name("URL")
        .unwrap()
        .with_spec_string("doc.pdf")
        .unwrap()
        .with_volatile(true)
        .unwrap()
        .with_id("a", "b")
        .unwrap();
    assert!(spec.with_name("again").is_err());
}

#[test]
fn file_specification_dos_name_and_embedded_streams_share_a_key() {
    let spec = FileSpecification::new().unwrap().with_dos_name("DOC.PDF").unwrap();
    let streams = EmbeddedFileStreams { dict: PdfDictionaryObject::new() };
    assert!(spec.with_embedded_file_streams(streams).is_err());
}

#[test]
fn shading_type_numbers() {
    assert_eq!(ShadingType::Function.value(), 1);
    assert_eq!(ShadingType::Axial.value(), 2);
    assert_eq!(ShadingType::TensorPatch.value(), 7);
}

#[test]
fn axial_shading_dictionary() {
    let mut coords = PdfArrayObject::new();
    coords.push(PdfObject::from(0i64));
    coords.push(PdfObject::from(1i64));
    let shading = Shading2Axial::new(PdfObject::name_obj("DeviceRGB"), coords, PdfDictionaryObject::new())
        .unwrap()
        .with_extend(PdfArrayObject::new())
        .unwrap()
        .with_anti_alias(true)
        .unwrap();
    assert!(shading.with_anti_alias(false).is_err());
}

#[test]
fn patch_shading_refuses_a_second_function() {
    let shading = Shading6CoonsPatch::new(PdfObject::name_obj("DeviceGray"), 8, 8, 2)
        .unwrap()
        .with_function(PdfDictionaryObject::new())
        .unwrap();
    assert!(shading.with_function(PdfDictionaryObject::new()).is_err());
}

#[test]
fn graphics_ops_test_extgstate_dict() {
    let mut object_ops = ObjectOps::new(Version::V1_7);
    let mut gs_manager = GraphicsOps::new();
    gs_manager.get_or_create_opacity_state(&mut object_ops, 500).expect(" ");
    gs_manager.get_or_create_opacity_state(&mut object_ops, 750).expect(" ");
    let dict = gs_manager.get_extgstate_dict();
    assert_eq!(dict.len(), 2);
    assert!(dict.iter().any(|(k, _)| k == "GS0"));
    assert!(dict.iter().any(|(k, _)| k == "GS1"));
}

#[test]
fn test_opacity_state_creation() {
    let mut object_ops = ObjectOps::new(Version::V1_7);
    let mut gs_manager = GraphicsOps::new();
    let name1 = gs_manager.get_or_create_opacity_state(&mut object_ops, 500).unwrap();
    assert_eq!(name1, "GS0");
    let name2 = gs_manager.get_or_create_opacity_state(&mut object_ops, 500).unwrap();
    assert_eq!(name2, "GS0");
    let name3 = gs_manager.get_or_create_opacity_state(&mut object_ops, 750).unwrap();
    assert_eq!(name3, "GS1");
}

#[test]
fn graphics_state_test_extgstate_dict() {
    let mut object_ops = ObjectOps::new(Version::V1_7);
    let mut gs_manager = GraphicsOps::new();
    gs_manager.get_or_create_opacity_state(&mut object_ops, 500).unwrap();
    gs_manager.get_or_create_opacity_state(&mut object_ops, 750).unwrap();
    let dict = gs_manager.get_extgstate_dict();
    assert_eq!(dict.len(), 2);
    assert_eq!(dict[0].0, "GS0");
    assert_eq!(dict[0].1, b"1 0 R".to_vec());
    assert_eq!(dict[1].0, "GS1");
    assert_eq!(dict[1].1, b"2 0 R".to_vec());
}

#[test]
fn soft_masks_and_reset_share_the_counter() {
    let mut object_ops = ObjectOps::new(Version::V1_7);
    let mut g = GraphicsOps::new();
    assert_eq!(g.get_or_create_opacity_state(&mut object_ops, 500).unwrap(), "GS0");
    assert_eq!(g.add_soft_mask(9), "GS1");
    assert_eq!(g.get_soft_masks().len(), 1);
    assert_eq!(g.get_soft_masks()[0].name, "GS1");
    assert_eq!(g.get_soft_masks()[0].shading_object_number, 9);
    g.reset();
    assert_eq!(g.add_soft_mask(10), "GS0");
}

#[test]
fn apply_opacity_writes_the_state_operator() {
    let mut object_ops = ObjectOps::new(Version::V1_7);
    let mut g = GraphicsOps::new();
    let mut stream = PdfStreamObject::new();
    let name = g.apply_opacity(&mut object_ops, &mut stream, 250).unwrap();
    assert_eq!(name, "GS0");
    assert_eq!(stream.content, b"/GS0 gs".to_vec());
}

fn opaque(r: i64, g: i64, b: i64) -> RGBA {
    RGBA::new(Color::new(r), Color::new(g), Color::new(b), Color::new(10000))
}

#[test]
fn gradient_with_one_stop_makes_nothing() {
    let mut g = Gradient::new(GradientKind::Radial);
    g.add_stop(0, opaque(0, 0, 0));
    let mut object_ops = ObjectOps::new(Version::V1_7);
    let mut objects = Vec::new();
    let mut counter = 0u32;
    let r = g.create_pattern(
        &mut object_ops,
        &mut objects,
        &mut counter,
        Posn { x: 0, y: 0 },
        Dims { width: 100000, height: 100000 },
        0,
        0,
        0,
    );
    assert!(r.is_none());
    assert!(objects.is_empty());
    assert_eq!(counter, 0);
}

#[test]
fn opaque_radial_gradient_makes_three_objects() {
    let mut g = Gradient::new(GradientKind::Radial);
    g.add_stop(0, opaque(10000, 0, 0));
    g.add_stop(10000, opaque(0, 0, 10000));
    let mut object_ops = ObjectOps::new(Version::V1_7);
    let mut objects = Vec::new();
    let mut counter = 4u32;
    let (name, gs) = g
        .create_pattern(
            &mut object_ops,
            &mut objects,
            &mut counter,
            Posn { x: 0, y: 0 },
            Dims { width: 200000, height: 100000 },
            0,
            0,
            0,
        )
        .unwrap();
    assert_eq!(name, "P4");
    assert!(gs.is_none());
    assert_eq!(counter, 5);
    assert_eq!(objects.len(), 3);
    assert_eq!(objects[0].get_object_number(), Some(1));
    assert_eq!(objects[2].get_object_number(), Some(3));
    let shading = objects[1].as_dict().unwrap();
    // centre (10, 5), radius 1.5 times the smaller side
    assert_eq!(
        shading.get("Coords").unwrap().as_vec_f64().unwrap(),
        vec![100000, 50000, 0, 100000, 50000, 150000]
    );
    assert_eq!(shading.get("ShadingType").unwrap().as_integer().unwrap(), 3);
}

#[test]
fn transparent_linear_gradient_makes_a_soft_mask() {
    let mut g = Gradient::new(GradientKind::Linear { angle: 900000 });
    g.add_stop(0, RGBA::new(Color::new(0), Color::new(0), Color::new(0), Color::new(5000)));
    g.add_stop(10000, opaque(10000, 10000, 10000));
    let mut object_ops = ObjectOps::new(Version::V1_7);
    let mut objects = Vec::new();
    let mut counter = 0u32;
    // angle 90: the direction is cos 0, sin 0... of 90 - 90 = 0 degrees: (1, 0)
    let (name, gs) = g
        .create_pattern(
            &mut object_ops,
            &mut objects,
            &mut counter,
            Posn { x: 0, y: 0 },
            Dims { width: 1000000, height: 500000 },
            10000,
            10000,
            0,
        )
        .unwrap();
    assert_eq!(name, "P0");
    assert_eq!(gs.as_deref(), Some("GS1"));
    assert_eq!(counter, 2);
    assert_eq!(objects.len(), 8);
    let shading = objects[1].as_dict().unwrap();
    // centre (50, 25), half length 50 + 1
    assert_eq!(
        shading.get("Coords").unwrap().as_vec_f64().unwrap(),
        vec![-10000, 250000, 1010000, 250000]
    );
    assert!(matches!(objects[4], PdfObject::Stream(_)));
    let pattern = objects[7].as_dict().unwrap();
    assert_eq!(pattern.get("PatternType").unwrap().as_integer().unwrap(), 2);
}

#[test]
fn pdf_starts_with_page_tree_one() {
    let mut pdf = Pdf::new().version(Version::V1_4);
    assert_eq!(pdf.next_object_number(), 2);
    assert!(pdf.get_catalog_dict().contains_key("Type"));
    assert_eq!(pdf.get_trailer_dict().len(), 0);
    assert_eq!(pdf.add_font_resources(), 0);
}

#[test]
fn pdf_encrypted_adds_encrypt_and_id_once() {
    let mut pdf = Pdf::new();
    pdf.encrypted().encrypted();
    let trailer = pdf.get_trailer_dict();
    assert_eq!(trailer.len(), 2);
    assert!(trailer.contains_key("Encrypt"));
    assert!(trailer.contains_key("ID"));
}

#[test]
fn trailer_text() {
    let mut dict = PdfDictionaryObject::new();
    dict.add("Size", PdfObject::from(3i64)).unwrap();
    let bytes = write_trailer(&dict, 1234).unwrap();
    assert_eq!(String::from_utf8(bytes).unwrap(), "trailer\n<<\n/Size 3\n>>\nstartxref\n1234\n%%EOF");
}

#[test]
fn body_writes_indirect_objects_and_records_them() {
    let mut body = Body::new();
    let mut d = PdfDictionaryObject::new().with_object_number(1);
    d.add("Type", PdfObject::name_obj("Catalog")).unwrap();
    body.add_object(PdfObject::Dictionary(d));
    body.add_object(PdfObject::from(5i64));
    let mut xref = CrossRefTable::new();
    let mut out = b"HEAD".to_vec();
    body.serialise(&mut xref, &mut out).unwrap();
    assert_eq!(String::from_utf8(out).unwrap(), "HEAD1 0 obj\n<<\n/Type /Catalog\n>>\nendobj\n\n");
    assert!(xref.as_pdf().unwrap().contains("0000000004 00000 n"));
}

#[test]
fn fixed_point_number_views() {
    assert_eq!(PdfNumberObject::new(NumberType::Integer(3)).as_real(), 30000);
    assert_eq!(PdfNumberObject::new(NumberType::Real(-31400)).as_real(), -31400);
    let a = PdfArrayObject::from_vec_f64(vec![15000, 0]);
    assert_eq!(PdfObject::Array(a).as_vec_f64().unwrap(), vec![15000, 0]);
    let mut mixed = PdfArrayObject::new();
    mixed.push(PdfObject::from(1i64));
    mixed.push(PdfObject::name_obj("X"));
    assert!(mixed.to_vec_f64().is_err());
    assert!(PdfObject::name_obj("X").as_f64().is_err());
    assert_eq!(PdfArrayObject::from_vec_f32(vec![5000]).values.len(), 1);
}

#[test]
fn rgba_channels_in_ten_thousandths() {
    let c = RGBA::new(Color::new(1), Color::new(2), Color::new(3), Color::new(4));
    assert_eq!(c.as_vec_64(), [1, 2, 3, 4]);
}

#[test]
fn whole_document_is_written_with_table_and_trailer() {
    let mut object_ops = ObjectOps::new(Version::V1_7);
    let mut page_ops = PageOps::new(&mut object_ops).unwrap();
    let root = page_ops.root_tree();
    let page = root.make_page(&mut object_ops, PageSize::A4, b"0 0 m".to_vec()).unwrap();
    root.add_page(page).unwrap();
    let catalog_number = object_ops.next_object_number().value();
    let mut catalog = PdfDictionaryObject::new().typed("Catalog").unwrap().with_object_number(catalog_number);
    catalog.add("Pages", PdfObj::make_reference_obj(1)).unwrap();
    let mut trailer = PdfDictionaryObject::new();
    trailer.add("Size", PdfObject::from(5i64)).unwrap();
    trailer.add("Root", PdfObj::make_reference_obj(catalog_number)).unwrap();
    let bytes = write_document(Version::V1_7, &page_ops, &catalog, &trailer).unwrap();
    let text = String::from_utf8_lossy(&bytes).to_string();
    assert!(text.starts_with("%PDF-1.7\r\n"));
    let first = text.find("1 0 obj").unwrap();
    assert!(text.contains("2 0 obj"));
    assert!(text.contains("3 0 obj"));
    assert!(text.contains("4 0 obj"));
    assert!(text.contains("xref\r\n0 5\r\n0000000000 65535 f"));
    assert!(text.contains(&format!("{:010} 00000 n", first)));
    assert!(text.contains("trailer\n<<\n/Size 5\n/Root 4 0 R \n>>\nstartxref\n"));
    assert!(text.ends_with("%%EOF"));
}

#[test]
fn real_numbers_are_written_with_at_most_four_decimals() {
    assert_eq!(to_bytes_num(1000000), b"100".to_vec());
    assert_eq!(to_bytes_num(31400), b"3.14".to_vec());
    assert_eq!(to_bytes_num(-5), b"-0.0005".to_vec());
    assert_eq!(to_bytes_num(0), b"0".to_vec());
}

#[test]
fn resource_names_of_a_category_differ() {
    let mut res = NamedResources::new();
    let a = res.add(ResourceCategory::Font, 7);
    let b = res.add(ResourceCategory::Font, 8);
    let c = res.add(ResourceCategory::ExtGState, 9);
    assert_eq!(a, "F0");
    assert_eq!(b, "F1");
    assert_eq!(c, "GS0");
    assert_ne!(a, b);
}

#[test]
fn graphics_state_manager_is_graphics_ops() {
    let mut object_ops = ObjectOps::new(Version::V1_7);
    let mut m: GraphicsStateManager = GraphicsStateManager::new();
    assert_eq!(m.get_or_create_opacity_state(&mut object_ops, 1000).unwrap(), "GS0");
}

#[test]
fn document_finalize_numbers_the_catalog_last() {
    let mut pdf = rusty_pdf::pdf::Pdf::new().unwrap().having_version(Version::V1_4);
    let root = pdf.page_ops.root_tree();
    let page = root.make_page(&mut pdf.object_ops, PageSize::A5, b"BT ET".to_vec()).unwrap();
    root.add_page(page).unwrap();
    let bytes = pdf.finalize().unwrap();
    let text = String::from_utf8_lossy(&bytes).to_string();
    assert!(text.starts_with("%PDF-1.4\r\n"));
    assert!(text.contains("4 0 obj\n<<\n/Type /Catalog\n/Pages 1 0 R \n>>"));
    assert!(text.contains("xref\r\n0 5\r\n"));
    assert!(text.contains("trailer\n<<\n/Size 5\n/Root 4 0 R \n>>\nstartxref\n"));
    assert!(text.ends_with("%%EOF"));
    assert_eq!(pdf.object_ops.last_object_number().value(), 4);
}

#[test]
fn colour_texts() {
    let c = rgb(10000, 5000, 0);
    assert_eq!(c.to_pdf(), "1 0.5 0");
    assert_eq!(c.as_string(), "r:1 g:0.5 b:0");
    let k = CMYK::new(Color::new(0), Color::new(2500), Color::new(10000), Color::new(1));
    assert_eq!(k.to_pdf(), "0 0.25 1 0.0001");
    assert_eq!(k.as_string(), "c:0 m:0.25 y:1 k:0.0001");
    let a = RGBA::new(Color::new(0), Color::new(0), Color::new(0), Color::new(7500));
    assert_eq!(a.as_string(), "r:0 g:0 b:0 a:0.75");
    assert_eq!(Color::new(3300).to_pdf(), "0.33");
    assert_eq!(Color::new(3300).as_string(), "0.33");
}

#[test]
fn object_numbers_are_ordered_by_value() {
    let a = rusty_pdf::object_ops::ObjectNumber::new(3);
    let b = rusty_pdf::object_ops::ObjectNumber::new(12);
    assert!(a < b);
    assert_eq!(a.cmp(&b), Ordering::Less);
    assert_eq!(b.max(a), b);
}

#[test]
fn object_kind_names() {
    assert_eq!(PdfObject::from(1i64).kind_name(), "Number");
    assert_eq!(PdfObject::name_obj("A").kind_name(), "Name");
    assert_eq!(PdfObject::Dictionary(PdfDictionaryObject::new()).kind_name(), "Dictionary");
}
