//! State of the desktop shell that lives beside TDLib: local groups, local
//! pins and the icon set.

pub mod feeds;
pub mod groups;
pub mod icons;
pub mod images;
pub mod pins;
pub mod search;
pub mod spans;
pub mod text;
pub mod view;
pub mod window;

