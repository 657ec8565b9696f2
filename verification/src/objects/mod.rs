pub mod boolean;
pub mod dictionary;
pub mod metadata;
pub mod name;
pub mod null;
pub mod number;
pub mod pdf_array;
pub mod pdf_object;
pub mod pdf_string;
pub mod reference;
pub mod stream;
pub mod string;
pub mod base;
pub mod object_status;
pub mod status;
pub mod object_type;
pub mod indirect;
pub mod serial;
