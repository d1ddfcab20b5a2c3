//! What a request asks for, and the HTTP status that answers it.

use crate::pi::{GenNameError, GenPiError, KanaForm};
use vstd::prelude::*;

verus! {

pub const OK: u16 = 200;

pub const BAD_REQUEST: u16 = 400;

pub const CONFLICT: u16 = 409;

pub const INTERNAL_SERVER_ERROR: u16 = 500;

/// The query of a request for a record. A flag that is absent counts as `false`.
#[derive(Clone, Copy, Debug, PartialEq, Eq, Structural)]
pub struct GetRootQuery {
    pub halfwidth: Option<bool>,
    pub katakana: Option<bool>,
}

/// The script that two flags ask for. Half-width is a way of writing katakana: asked for
/// without katakana it means nothing, and there is no script to give.
pub open spec fn kana_form_of(katakana: bool, halfwidth: bool) -> Option<KanaForm> {
    if katakana {
        if halfwidth {
            Some(KanaForm::HalfwidthKana)
        } else {
            Some(KanaForm::Katakana)
        }
    } else {
        if halfwidth {
            None
        } else {
            Some(KanaForm::Hiragana)
        }
    }
}

/// The script that two flags ask for, if they ask for one.
pub fn kana_form_from_flags(katakana: bool, halfwidth: bool) -> (r: Option<KanaForm>)
    ensures
        r == kana_form_of(katakana, halfwidth),
{
    match (katakana, halfwidth) {
        (false, false) => Some(KanaForm::Hiragana),
        (false, true) => None,
        (true, false) => Some(KanaForm::Katakana),
        (true, true) => Some(KanaForm::HalfwidthKana),
    }
}

/// What a flag of a query is taken for.
pub open spec fn flag(value: Option<bool>) -> bool {
    value == Some(true)
}

impl GetRootQuery {
    /// The script that the query asks for, or the status that refuses the query.
    pub fn kana_form(&self) -> (r: Result<KanaForm, u16>)
        ensures
            r == match kana_form_of(flag(self.katakana), flag(self.halfwidth)) {
                Some(form) => Ok::<KanaForm, u16>(form),
                None => Err::<KanaForm, u16>(BAD_REQUEST),
            },
    {
        let katakana = match self.katakana {
            Some(value) => value,
            None => false,
        };
        let halfwidth = match self.halfwidth {
            Some(value) => value,
            None => false,
        };
        match kana_form_from_flags(katakana, halfwidth) {
            Some(form) => Ok(form),
            None => Err(BAD_REQUEST),
        }
    }
}

/// The status that reports a failure to generate a record: a failed fetch is an error of the
/// server, a slot that is taken is a conflict.
pub fn status_of_error(error: GenPiError) -> (r: u16)
    ensures
        r == match error {
            GenPiError::GenNameError(GenNameError::RequestFailure) => INTERNAL_SERVER_ERROR,
            GenPiError::GenNameError(GenNameError::Conflict) => CONFLICT,
        },
{
    match error {
        GenPiError::GenNameError(e) => match e {
            GenNameError::RequestFailure => INTERNAL_SERVER_ERROR,
            GenNameError::Conflict => CONFLICT,
        },
    }
}

} // verus!
