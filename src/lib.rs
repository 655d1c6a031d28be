pub mod app;
pub mod dispatch;
pub mod event;
pub mod input;
pub mod room;
pub mod sequence_number;
pub mod text;
pub mod widget;
