//! The lexical vocabulary: token categories and literal payloads.

pub mod literal;
pub mod token_type;

pub use literal::Literal;
pub use literal::LiteralModel;
pub use token_type::TokenType;
