pub mod btree;
pub mod codec;
pub mod cursor;
pub mod meta_command;
pub mod open;
pub mod pager;
pub mod row;
pub mod save;
pub mod slice_pointer;
pub mod statement;
pub mod table;
pub mod text;
