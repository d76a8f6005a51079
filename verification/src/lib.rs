//! A verified parser for plain-text request-definition documents.
//!
//! A document holds one or more request definitions: an optional `###` title
//! line, a mandatory request line (`method SP target [SP version]`), header
//! lines, a free-form body, and an optional script handler.  Parsing never
//! copies body or header text: every captured token is a [`Span`], a view
//! into the caller's buffer carrying its byte offset, line and column.
//!
//! The grammar itself is stated as spec functions over `Seq<u8>` in the
//! [`model`] module; every executable parser is proved to return exactly
//! what the model says, and the [`laws`] module proves the properties that
//! relate the rules to one another.

pub mod ast;
pub mod err;
pub mod grammar;
pub mod laws;
pub mod lex;
pub mod model;
pub mod request;
pub mod span;

pub use ast::Document;
pub use ast::Header;
pub use ast::MessageBody;
pub use ast::Method;
pub use ast::Request;
pub use ast::RequestLine;
pub use ast::ScriptHandler;
pub use ast::Version;
pub use err::ErrKind;
pub use err::ParseErr;
pub use grammar::header_line;
pub use grammar::parse_external_script;
pub use grammar::parse_header;
pub use grammar::parse_headers;
pub use grammar::parse_inline_script;
pub use grammar::parse_input_file_ref;
pub use grammar::parse_request_body;
pub use grammar::parse_request_title;
pub use grammar::parse_script;
pub use grammar::request_line;
pub use lex::is_header_value_char;
pub use lex::is_line_ending;
pub use lex::is_space_char;
pub use lex::is_token_char;
pub use lex::is_vchar;
pub use lex::sp;
pub use lex::token;
pub use lex::vchar_1;
pub use request::parse;
pub use request::parse_multiple_request;
pub use request::parse_one;
pub use request::parse_request;
pub use span::Span;
pub use span::fragment;
pub use span::same_text;
