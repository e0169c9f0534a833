pub mod ast;
pub mod html;
pub mod lint;
pub mod log;
pub mod parsed;
