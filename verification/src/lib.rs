//! Templates for user interfaces written in an HTML-like markup: the
//! parser of the markup, the model of the styles and values it describes,
//! and the small data structures around them.
pub mod lex;
pub mod number;
pub mod text;
pub mod values;
pub mod xml;
pub mod attribute;
pub mod table;
pub mod template;
pub mod style;
pub mod timer;
pub mod slot_map;
pub mod location;
pub mod content;
pub mod resolve;
pub mod properties;
pub mod node;
pub mod widgets;
pub mod xml_style;
