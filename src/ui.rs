pub mod header;
pub mod primary;
pub mod sidebar;
pub mod title;
