use vstd::prelude::*;
use crate::engine::Field;
use crate::value::{TraitIntBounds, Value};

verus! {

/// Whether a pattern is accepted by the pattern engine. Depends on the
/// pattern text alone.
pub uninterp spec fn regex_pattern_ok(pattern: Seq<char>) -> bool;

/// Whether a pattern matches somewhere in a text. Depends on the pattern
/// and the text alone.
pub uninterp spec fn regex_matches(pattern: Seq<char>, text: Seq<char>) -> bool;

/// Relies on `regex::Regex::new` (a pattern either compiles or it does not,
/// by the pattern text alone) and `regex::Regex::is_match` (a deterministic
/// function of the compiled pattern and the text).
#[verifier::external_body]
pub(crate) fn regex_is_match(pattern: &str, text: &str) -> (r: Option<bool>)
    ensures
        r is Some <==> regex_pattern_ok(pattern@),
        r matches Some(b) ==> b == regex_matches(pattern@, text@),
{
    match regex::Regex::new(pattern) {
        Ok(re) => Some(re.is_match(text)),
        Err(_) => None,
    }
}

/// Why one answer was rejected: the offending measure and the violated
/// bound travel along, so a front end can report both.
#[derive(Clone, Copy, PartialEq, Eq, Debug)]
pub enum ValidationError {
    /// The text is shorter than the least allowed length.
    TooShort { length: usize, min_length: usize },
    /// The text is longer than the greatest allowed length.
    TooLong { length: usize, max_length: usize },
    /// The field's pattern itself does not compile.
    PatternInvalid,
    /// The text does not match the field's pattern.
    PatternMismatch,
    /// The text does not denote a number representable in the field's kind.
    NotNumeric,
    /// The number is below the least allowed value.
    BelowMinimum { value: i128, minimum: i128 },
    /// The number is above the greatest allowed value.
    AboveMaximum { value: i128, maximum: i128 },
    /// A collection still holds fewer items than it must.
    TooFewItems { count: usize, min_items: usize },
}

/// The constraints for collection kinds: how many items must and may be
/// collected.
#[derive(Clone, Copy)]
pub struct CollectionConstraints {
    /// The least number of items.
    pub min_items: usize,
    /// The greatest number of items.
    pub max_items: usize,
}

impl Default for CollectionConstraints {
    /// By default any number of items is allowed.
    fn default() -> (r: Self)
        ensures
            r.min_items == 0,
            r.max_items == usize::MAX,
    {
        CollectionConstraints { min_items: 0, max_items: usize::MAX }
    }
}

/// The constraints for string fields.
#[derive(Clone)]
pub struct StringConstraints {
    /// The least allowed length, in characters.
    pub min_length: usize,
    /// The greatest allowed length, in characters.
    pub max_length: usize,
    /// A pattern the text must match, if any.
    pub regex: Option<String>,
}

impl Default for StringConstraints {
    /// By default any text is allowed.
    fn default() -> (r: Self)
        ensures
            r.min_length == 0,
            r.max_length == usize::MAX,
            r.regex is None,
    {
        StringConstraints { min_length: 0, max_length: usize::MAX, regex: None }
    }
}

impl StringConstraints {
    /// The verdict on a text: the first violated rule, checked in the
    /// order length floor, length ceiling, pattern.
    pub open spec fn check(self, s: Seq<char>) -> Result<(), ValidationError> {
        if s.len() < self.min_length {
            Err(ValidationError::TooShort {
                length: s.len() as usize,
                min_length: self.min_length,
            })
        } else if s.len() > self.max_length {
            Err(ValidationError::TooLong {
                length: s.len() as usize,
                max_length: self.max_length,
            })
        } else {
            match self.regex {
                None => Ok(()),
                Some(p) => if !regex_pattern_ok(p@) {
                    Err(ValidationError::PatternInvalid)
                } else if !regex_matches(p@, s) {
                    Err(ValidationError::PatternMismatch)
                } else {
                    Ok(())
                },
            }
        }
    }

    /// Whether a text passes every rule.
    pub open spec fn accepts(self, s: Seq<char>) -> bool {
        self.check(s) is Ok
    }

    pub fn validate(&self, input: &String) -> (r: Result<(), ValidationError>)
        ensures
            r == self.check(input@),
    {
        let len = input.as_str().unicode_len();
        if len < self.min_length {
            return Err(ValidationError::TooShort { length: len, min_length: self.min_length });
        }
        if len > self.max_length {
            return Err(ValidationError::TooLong { length: len, max_length: self.max_length });
        }
        match &self.regex {
            None => Ok(()),
            Some(p) => match regex_is_match(p.as_str(), input.as_str()) {
                None => Err(ValidationError::PatternInvalid),
                Some(true) => Ok(()),
                Some(false) => Err(ValidationError::PatternMismatch),
            },
        }
    }
}

/// The constraints for numeric fields of one machine-integer kind.
#[derive(Clone, Copy)]
pub struct IntConstraints<T: TraitIntBounds> {
    /// The least allowed value.
    pub min: T,
    /// The greatest allowed value.
    pub max: T,
}

impl<T: TraitIntBounds> Default for IntConstraints<T> {
    /// By default every representable value is allowed.
    fn default() -> (r: Self)
        ensures
            r.min.as_int() == T::lo(),
            r.max.as_int() == T::hi(),
    {
        IntConstraints { min: T::min(), max: T::max() }
    }
}

impl<T: TraitIntBounds> IntConstraints<T> {
    /// The verdict on a value: below the floor, above the ceiling, or allowed.
    pub open spec fn check(self, value: int) -> Result<(), ValidationError> {
        if value < self.min.as_int() {
            Err(ValidationError::BelowMinimum {
                value: value as i128,
                minimum: self.min.as_int() as i128,
            })
        } else if value > self.max.as_int() {
            Err(ValidationError::AboveMaximum {
                value: value as i128,
                maximum: self.max.as_int() as i128,
            })
        } else {
            Ok(())
        }
    }

    pub fn validate(&self, input: T) -> (r: Result<(), ValidationError>)
        ensures
            r == self.check(input.as_int()),
    {
        proof {
            T::bounds_ok();
            input.in_range();
            self.min.in_range();
            self.max.in_range();
        }
        if !self.min.le(input) {
            Err(ValidationError::BelowMinimum {
                value: input.to_wide(),
                minimum: self.min.to_wide(),
            })
        } else if !input.le(self.max) {
            Err(ValidationError::AboveMaximum {
                value: input.to_wide(),
                maximum: self.max.to_wide(),
            })
        } else {
            Ok(())
        }
    }
}

/// A validator that accepts everything: for field kinds that carry no
/// constraints of their own.
pub struct BlankValidator;

impl BlankValidator {
    pub fn validate<T>(&self, _input: &T) -> (r: Result<(), ValidationError>)
        ensures
            r is Ok,
    {
        Ok(())
    }
}

/// The constraints for a selection field.
pub struct SelectConstraints {
    /// Whether several items may be selected at once.
    pub select_many: bool,
    /// The items offered for selection.
    pub items: Vec<Value>,
}

/// Dependent questions triggered by what was selected.
pub struct Conditions {
    /// Whether the dependent answers land at the root of the result
    /// document; when false they are gathered into a nested object that
    /// replaces the selection itself.
    pub insert_at_root: bool,
    /// The triggers, tried in order; only the first match fires.
    pub if_conditions: Vec<IfCondition>,
}

impl Default for Conditions {
    /// By default nothing is triggered.
    fn default() -> (r: Self)
        ensures
            !r.insert_at_root,
            r.if_conditions@.len() == 0,
    {
        Conditions { insert_at_root: false, if_conditions: Vec::new() }
    }
}

/// One trigger: when the selected value equals `picked`, the dependent
/// fields are prompted.
pub struct IfCondition {
    /// The trigger value.
    pub picked: Value,
    /// The dependent fields.
    pub fields: Vec<(String, Field)>,
}

} // verus!
