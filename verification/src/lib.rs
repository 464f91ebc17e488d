//! Front end of an embeddable scripting engine: lexer, parser, the error
//! taxonomy shared by both, and the module-resolution services that satisfy
//! `import` statements.

pub mod ast;
pub mod error;
pub mod fn_basic;
pub mod lexer;
pub mod module;
pub mod parser;
pub mod position;
pub mod render;
pub mod resolver;
pub mod token;

pub use error::LexError;
pub use error::ParseError;
pub use error::ParseErrorType;
pub use fn_basic::get_fn_name;
pub use fn_basic::FnPtr;
pub use module::Module;
pub use position::Position;
pub use resolver::FileModuleResolver;
pub use resolver::ModuleResolver;
pub use resolver::ModuleResolversCollection;
pub use resolver::StaticModuleResolver;
