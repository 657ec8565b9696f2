pub mod encoding;
pub mod error;
pub mod object_ops;
pub mod objects;
pub mod version;

pub use error::{PdfError, PdfResult};
pub mod cross_ref;
pub mod cross_ref_stream;
pub mod util;
pub mod color;
pub mod action;
pub mod annotation;
pub mod optional_content;
pub mod outline;
pub mod resource_category;
pub mod resources;
pub mod resource;
pub mod extended_graphics_state;
pub mod header;
pub mod generation;
pub mod file_identifier;
pub mod metadata;
pub mod soft_mask;
pub mod page_size;
pub mod pdf;
pub mod pattern;
pub mod object;
pub mod dictionary;
pub mod fonts;
pub mod resources_ops;
pub mod page;
pub mod page_ops;
pub mod drawing_commands;
pub mod file_specification;
pub mod shading;
pub mod graphics_ops;
pub mod pdf_file;
pub mod gradient;
pub mod body;

pub use action::{
    Action, FitDestination, GoToAction, JavaScriptAction, LaunchAction, NamedAction, NamedActionType, UriAction,
};
pub use annotation::{Annotation, AnnotationFlags, BorderStyle, LinkAction, LinkAnnotation, TextAnnotation, TextIcon};
pub use extended_graphics_state::{BlendMode, ExtGState, RenderingIntent};
pub use fonts::StandardFont;
pub use graphics_ops::GraphicsOps;
pub use metadata::{Metadata, TrappedState};
pub use objects::boolean::PdfBooleanObject;
pub use objects::dictionary::PdfDictionaryObject;
pub use objects::name::PdfNameObject;
pub use objects::null::PdfNullObject;
pub use objects::number::NumberType;
pub use objects::pdf_array::PdfArrayObject;
pub use objects::pdf_object::PdfObject;
pub use objects::reference::PdfReferenceObject;
pub use objects::stream::{CompressionMethod, PdfStreamObject};
pub use objects::pdf_string::PdfStringObject;
pub use optional_content::{LayerOrder, OptionalContentConfig, OptionalContentGroup, VisibilityInitialState};
pub use outline::{DocumentOutline, OutlineItem, OutlineItemFlags};
pub use page_size::PageSize;
pub use pattern::{PaintType, PatternType, TilingPattern, TilingType};
pub use pdf::Pdf;
pub use resource_category::ResourceCategory;
pub use resources_ops::NamedResources;
pub use util::Rectangle;
