pub mod constraints;
pub mod document;
pub mod engine;
pub mod script;
pub mod value;

pub use constraints::{
    BlankValidator, CollectionConstraints, Conditions, IfCondition, IntConstraints,
    SelectConstraints, StringConstraints, ValidationError,
};
pub use document::Document;
pub use engine::{Field, PromptValue, Schema, TypeConstraints};
pub use script::{Event, Header, Outcome, PromptError, ReqKind, Request, Script};
pub use value::{display_value, maybe_parse_value, value_eq, TraitIntBounds, ValModel, Value};
