//! The editable fields of the settings screen: how an edited value is
//! checked, and how the selection moves between fields.
use vstd::prelude::*;

use crate::text::{chars_of, trim_chars, trim_spec};
use crate::update::{parse_u32, parse_u32_spec};

verus! {

/// Why an edited setting was refused.
#[derive(Debug, Clone, Copy, PartialEq, Eq, Structural)]
pub enum SettingError {
    /// The age is not a whole number from 14 to 100.
    InvalidAge,
    /// The batch size is not a whole number.
    InvalidBatch,
    /// The batch size is a number outside 2 to 5.
    BatchRange,
}

/// The age a learner may enter.
pub open spec fn age_in_range(age: u32) -> bool {
    14 <= age <= 100
}

/// The age field's value, from the text typed (surrounding whitespace
/// ignored): nothing clears the age; a whole number from 14 to 100 sets
/// it; anything else is refused.
pub open spec fn age_setting_spec(input: Seq<char>) -> Result<Option<u32>, SettingError> {
    let v = trim_spec(input);
    if v.len() == 0 {
        Ok(None)
    } else {
        match parse_u32_spec(v) {
            Some(a) => if age_in_range(a) {
                Ok(Some(a))
            } else {
                Err(SettingError::InvalidAge)
            },
            None => Err(SettingError::InvalidAge),
        }
    }
}

/// Checks an edited age.
pub fn parse_age_setting(input: &str) -> (r: Result<Option<u32>, SettingError>)
    ensures
        r == age_setting_spec(input@),
{
    let v = trim_chars(&chars_of(input));
    if v.len() == 0 {
        return Ok(None);
    }
    match parse_u32(&v) {
        Some(a) => {
            if 14 <= a && a <= 100 {
                Ok(Some(a))
            } else {
                Err(SettingError::InvalidAge)
            }
        },
        None => Err(SettingError::InvalidAge),
    }
}

/// The batch size field's value, from the text typed (surrounding
/// whitespace ignored): a whole number from 2 to 5.
pub open spec fn batch_setting_spec(input: Seq<char>) -> Result<u32, SettingError> {
    match parse_u32_spec(trim_spec(input)) {
        Some(n) => if 2 <= n <= 5 {
            Ok(n)
        } else {
            Err(SettingError::BatchRange)
        },
        None => Err(SettingError::InvalidBatch),
    }
}

/// Checks an edited batch size.
pub fn parse_batch_setting(input: &str) -> (r: Result<u32, SettingError>)
    ensures
        r == batch_setting_spec(input@),
{
    let v = trim_chars(&chars_of(input));
    match parse_u32(&v) {
        Some(n) => {
            if 2 <= n && n <= 5 {
                Ok(n)
            } else {
                Err(SettingError::BatchRange)
            }
        },
        None => Err(SettingError::InvalidBatch),
    }
}

/// The field after `active` among `count`, wrapping to the first.
pub fn next_field(active: usize, count: usize) -> (r: usize)
    requires
        count > 0,
        active < usize::MAX,
    ensures
        r == (active + 1) % (count as int),
{
    (active + 1) % count
}

/// The field before `active` among `count`, wrapping to the last.
pub fn prev_field(active: usize, count: usize) -> (r: usize)
    requires
        count > 0,
        active + count - 1 <= usize::MAX,
    ensures
        r == (active + count - 1) % (count as int),
{
    (active + (count - 1)) % count
}

/// The position of a batch size among the choices 2, 3, 4 and 5: the size
/// less two, between 0 and 3.
pub fn batch_choice_index(size: u32) -> (r: usize)
    ensures
        r == (if size < 2 {
            0
        } else if size - 2 > 3 {
            3
        } else {
            size - 2
        }),
{
    let i: u32 = if size < 2 {
        0
    } else {
        size - 2
    };
    if i > 3 {
        3
    } else {
        i as usize
    }
}

/// Moving to the previous field undoes moving to the next one.
pub proof fn lemma_prev_undoes_next(active: int, count: int)
    requires
        0 <= active < count,
    ensures
        ((active + 1) % count + count - 1) % count == active,
{
    if active + 1 == count {
        assert((active + 1) % count == 0) by (nonlinear_arith)
            requires
                active + 1 == count,
                count > 0,
        ;
        assert((count - 1) % count == count - 1) by (nonlinear_arith)
            requires
                count > 0,
        ;
    } else {
        assert((active + 1) % count == active + 1) by (nonlinear_arith)
            requires
                0 <= active + 1 < count,
        ;
        assert((active + count) % count == active) by (nonlinear_arith)
            requires
                0 <= active < count,
        ;
    }
}

} // verus!
