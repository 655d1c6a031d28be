pub mod block;
pub mod editable_text;
pub mod line;
