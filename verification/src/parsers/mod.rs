//! One parser for each supported language.

pub mod c;
pub mod go;
pub mod lua;
pub mod python;
pub mod rust;

pub use self::c::CParser;
pub use self::go::GoParser;
pub use self::lua::LuaParser;
pub use self::python::PythonParser;
pub use self::rust::RustParser;
