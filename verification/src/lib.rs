pub mod handlers;
pub mod history;
pub mod parse;
pub mod security;
pub mod text;
pub mod treasury;
pub mod usd_idr;
pub mod utils;
