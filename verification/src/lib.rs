//! Structured resource identifiers of the form
//! `arn:<domain>:<category>:<account>:<root>[/<part>]*`, with a
//! state-tracked builder and a parser that agree on one grammar.

pub mod builder;
pub mod errors;
pub mod model;
pub mod parser;
pub mod text;

pub use builder::{
    build_result, step_err, step_ok, step_view, ArnBuilder, ArnComponent, BuilderView,
    PrivateArnBuilder,
};
pub use errors::ArnError;
pub use parser::{
    first_invalid_name, lemma_parse_format_round_trip, missing_name, spec_parse_ok, ArnParser,
};
pub use model::{arn_text, Account, Arn, ArnView, Category, Domain, Part, Parts, Root};
pub use text::{is_valid_component, join, split_char, split_on, str_eq, valid_seq};
