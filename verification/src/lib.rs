//! Query-text front end of a small database engine: a lexer and a
//! recursive-descent parser that turn one raw statement string into a
//! validated syntax tree, or reject it with a located diagnostic, together
//! with the packet framing of the surrounding wire protocol, the client's
//! option handling, and the server's session decisions.

pub mod client_options;
pub mod ext;
pub mod keyword;
pub mod lexer;
pub mod parser;
pub mod proto;
pub mod session;
pub mod statement;
pub mod token;

pub use keyword::IllegalEnumValueError;
pub use keyword::Keyword;
pub use lexer::Lexer;
pub use lexer::LexerError;
pub use parser::StatementParseError;
pub use parser::StatementParser;
pub use statement::Statement;
pub use token::Span;
pub use token::Token;
pub use token::TokenKind;
