use rusty_pdf::action::{Action, FitDestination, GoToAction, JavaScriptAction, NamedAction, NamedActionType, UriAction};
use rusty_pdf::annotation::{Annotation, AnnotationFlags, LinkAnnotation, TextAnnotation};
use rusty_pdf::extended_graphics_state::{BlendMode, ExtGState, RenderingIntent};
use rusty_pdf::optional_content::{
    LayerOrder, OptionalContentConfig, OptionalContentGroup, VisibilityInitialState,
};
use rusty_pdf::outline::{DocumentOutline, OutlineItem, OutlineItemFlags};
use rusty_pdf::resource::Resource;
use rusty_pdf::resource_category::ResourceCategory;
use rusty_pdf::resources::ResourceMap;
use rusty_pdf::resources_ops::NamedResources;
use rusty_pdf::util::{Posn, Rectangle};

#[test]
fn test_uri_action() {
    let action = UriAction::new("https://example.com".to_string());
    let dict = action.to_dict().unwrap();
    assert!(dict.contains_key("S"));
    assert!(dict.contains_key("URI"));
}

#[test]
fn test_goto_action() {
    let dest = FitDestination::xyz(1, Some(0), Some(0), Some(10000));
    let action = GoToAction::new(dest);
    let dict = action.to_dict().unwrap();
    assert!(dict.contains_key("S"));
    assert!(dict.contains_key("D"));
}

#[test]
fn test_javascript_action() {
    let action = JavaScriptAction::new("app.alert('Hello');".to_string());
    let dict = action.to_dict().unwrap();
    assert!(dict.contains_key("S"));
    assert!(dict.contains_key("JS"));
}

#[test]
fn test_named_action() {
    let action = NamedAction::new(NamedActionType::NextPage);
    let dict = action.to_dict().unwrap();
    assert!(dict.contains_key("S"));
    assert!(dict.contains_key("N"));
}

#[test]
fn test_rect_to_array() {
    let rect = Rectangle { x1: 100000, y1: 200000, x2: 1000000, y2: 2000000 };
    let arr = rect.as_pdf_array();
    assert_eq!(arr.values.len(), 4);
}

#[test]
fn test_annotation_flags() {
    let flags = AnnotationFlags::PRINT.or(AnnotationFlags::READ_ONLY);
    assert_eq!(flags.bits(), (1 << 2) | (1 << 6));
}

#[test]
fn test_text_annotation() {
    let annot = TextAnnotation::new(
        Rectangle { x1: 1000000, y1: 1000000, x2: 1200000, y2: 1200000 },
        "This is a note".to_string(),
    );

    let dict = annot.to_dict().unwrap();
    assert!(dict.contains_key("Type"));
    assert!(dict.contains_key("Subtype"));
    assert!(dict.contains_key("Rect"));
    assert!(dict.contains_key("Contents"));
}

#[test]
fn test_link_annotation_uri() {
    let annot = LinkAnnotation::uri(
        Rectangle { x1: 100000, y1: 100000, x2: 1000000, y2: 300000 },
        "https://example.com".to_string(),
    );

    let dict = annot.to_dict().unwrap();
    assert!(dict.contains_key("A"));
}

#[test]
fn test_link_annotation_goto() {
    let annot = LinkAnnotation::goto(
        Rectangle { x1: 100000, y1: 100000, x2: 1000000, y2: 300000 },
        5,
        Posn { x: 0, y: 0 },
        Some(10000),
    );

    let dict = annot.to_dict().unwrap();
    assert!(dict.contains_key("Dest"));
}

#[test]
fn test_blend_mode_names() {
    assert_eq!(BlendMode::Normal.as_str(), "Normal");
    assert_eq!(BlendMode::Multiply.as_str(), "Multiply");
    assert_eq!(BlendMode::Screen.as_str(), "Screen");
}

#[test]
fn test_extgstate_with_alpha() {
    let gs = ExtGState::with_alpha(5000, 8000);
    assert_eq!(gs.stroke_alpha, Some(5000));
    assert_eq!(gs.fill_alpha, Some(8000));
}

#[test]
fn test_extgstate_with_blend_mode() {
    let gs = ExtGState::with_blend_mode(BlendMode::Multiply);
    assert_eq!(gs.blend_mode, Some(BlendMode::Multiply));
}

#[test]
fn test_extgstate_to_dict() {
    let gs = ExtGState::new().set_stroke_alpha(5000).set_fill_alpha(8000).set_blend_mode(BlendMode::Screen);

    let dict = gs.to_dict();
    assert!(dict.contains_key("Type"));
    assert!(dict.contains_key("CA"));
    assert!(dict.contains_key("ca"));
    assert!(dict.contains_key("BM"));
}

#[test]
fn test_extgstate_resource_trait() {
    let gs = ExtGState::with_alpha(5000, 5000);
    assert_eq!(gs.category(), ResourceCategory::ExtGState);
    assert!(!gs.resource_unique_id().is_empty());
}

#[test]
fn test_alpha_clamping() {
    let gs = ExtGState::new().set_stroke_alpha(15000).set_fill_alpha(-5000);

    assert_eq!(gs.stroke_alpha, Some(10000));
    assert_eq!(gs.fill_alpha, Some(0));
}

#[test]
fn test_rendering_intent() {
    assert_eq!(RenderingIntent::Perceptual.as_str(), "Perceptual");
    assert_eq!(RenderingIntent::RelativeColorimetric.as_str(), "RelativeColorimetric");
}

#[test]
fn test_ocg_creation() {
    let ocg = OptionalContentGroup::new("Layer 1".to_string());
    assert_eq!(ocg.name, "Layer 1");
    assert_eq!(ocg.initial_state, VisibilityInitialState::On);
}

#[test]
fn test_ocg_with_state() {
    let ocg = OptionalContentGroup::new("Hidden Layer".to_string()).with_state(VisibilityInitialState::Off);

    assert_eq!(ocg.initial_state, VisibilityInitialState::Off);
}

#[test]
fn test_ocg_to_dict() {
    let ocg = OptionalContentGroup::new("Test Layer".to_string()).with_print_state(VisibilityInitialState::Off);

    let dict = ocg.to_dict();
    assert!(dict.contains_key("Type"));
    assert!(dict.contains_key("Name"));
    assert!(dict.contains_key("Usage"));
}

#[test]
fn test_oc_config_creation() {
    let config = OptionalContentConfig::new("Default".to_string())
        .with_base_state(VisibilityInitialState::On)
        .add_off(5);

    assert_eq!(config.name, "Default");
    assert_eq!(config.base_state, VisibilityInitialState::On);
    assert_eq!(config.off_list, vec![5]);
}

#[test]
fn test_oc_config_to_dict() {
    let config = OptionalContentConfig::new("Config".to_string())
        .with_base_state(VisibilityInitialState::Off)
        .add_on(1)
        .add_on(2);

    let dict = config.to_dict();
    assert!(dict.contains_key("Name"));
    assert!(dict.contains_key("BaseState"));
    assert!(dict.contains_key("ON"));
}

#[test]
fn test_layer_order() {
    let order = LayerOrder::Group {
        label: "Group 1".to_string(),
        children: vec![LayerOrder::Single(1), LayerOrder::Single(2)],
    };

    match order {
        LayerOrder::Group { label, children } => {
            assert_eq!(label, "Group 1");
            assert_eq!(children.len(), 2);
        }
        _ => panic!("Expected Group"),
    }
}

#[test]
fn test_outline_item_creation() {
    let item = OutlineItem::new("Chapter 1".to_string(), Some(FitDestination::fit(0)));

    assert_eq!(item.title, "Chapter 1");
    assert!(item.destination.is_some());
    assert!(item.children.is_empty());
}

#[test]
fn test_outline_item_with_children() {
    let mut parent = OutlineItem::new("Part 1".to_string(), Some(FitDestination::fit(0)));

    parent.add_child(OutlineItem::new("Chapter 1".to_string(), Some(FitDestination::fit(1))));

    parent.add_child(OutlineItem::new("Chapter 2".to_string(), Some(FitDestination::fit(2))));

    assert_eq!(parent.children.len(), 2);
    assert_eq!(parent.count_descendants(), 2);
}

#[test]
fn test_document_outline() {
    let mut outline = DocumentOutline::new();

    outline.add_item(OutlineItem::new("Introduction".to_string(), Some(FitDestination::fit(0))));

    outline.add_item(OutlineItem::new("Conclusion".to_string(), Some(FitDestination::fit(10))));

    assert_eq!(outline.items.len(), 2);
    assert_eq!(outline.total_count(), 2);
}

#[test]
fn test_outline_flags() {
    let flags = OutlineItemFlags::BOLD.or(OutlineItemFlags::ITALIC);
    assert_eq!(flags.bits(), 3);
}

#[test]
fn test_empty_outline() {
    let outline = DocumentOutline::new();
    assert!(outline.is_empty());
    assert_eq!(outline.total_count(), 0);
}

#[test]
fn test_nested_bookmarks() {
    let mut root = OutlineItem::new("Part 1".to_string(), Some(FitDestination::fit(0)));

    let mut chapter = OutlineItem::new("Chapter 1".to_string(), Some(FitDestination::fit(1)));

    chapter.add_child(OutlineItem::new("Section 1.1".to_string(), Some(FitDestination::fit(2))));

    root.add_child(chapter);

    assert_eq!(root.count_descendants(), 2);
}

#[test]
fn resources_test_empty_resources() {
    let resources = ResourceMap::new();
    assert!(resources.is_empty());
    assert_eq!(resources.to_dict().len(), 0);
}

#[test]
fn resources_test_add_resources() {
    let mut resources = ResourceMap::new();

    {
        let mut extgstate = resources.implement("ExtGState").unwrap();

        extgstate.add("GS0", 5);
        assert_eq!(extgstate.count(), 1);
    }
    {
        let mut pattern = resources.implement("Pattern").unwrap();
        pattern.add("P0", 8);
        assert_eq!(pattern.count(), 1);
    }

    assert!(!resources.is_empty());

    let dict = resources.to_dict();
    assert!(dict.contains_key("ExtGState"));
    assert!(dict.contains_key("Pattern"));
}

#[test]
fn resources_ops_test_empty_resources() {
    let resources = NamedResources::new();
    assert!(resources.is_empty());
    assert_eq!(resources.len(), 0);
}

#[test]
fn resources_ops_test_add_resources() {
    let mut res_dict = NamedResources::new();
    let name = res_dict.add(ResourceCategory::Font, 1);
    assert_eq!(name, "F0");

    let name = res_dict.add(ResourceCategory::ExtGState, 5);
    assert_eq!(name, "GS0");
    assert_eq!(res_dict.get(ResourceCategory::ExtGState).unwrap().len(), 1);

    let name = res_dict.add(ResourceCategory::Pattern, 8);
    assert_eq!(name, "P0");
    let name = res_dict.add(ResourceCategory::Pattern, 18);
    assert_eq!(name, "P1");
    assert_eq!(res_dict.get(ResourceCategory::Pattern).unwrap().len(), 2);

    assert!(!res_dict.is_empty());
    assert!(res_dict.contains(ResourceCategory::ExtGState));
    assert!(res_dict.contains(ResourceCategory::Pattern));
}
