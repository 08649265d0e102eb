pub mod strs;
pub mod xml;
pub mod xml_text;
pub mod maps;
pub mod ext;
pub mod order;
pub mod codec;
