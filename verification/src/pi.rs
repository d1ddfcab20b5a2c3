//! The personal-information record and the pieces it is put together from.

use crate::date_of_birth::{gen_date_of_birth, CalendarDate, DateOfBirth};
use crate::name::{Name, NameView};
use crate::sex::Sex;
use vstd::prelude::*;
use vstd::std_specs::convert::{FromSpec, FromSpecImpl};

verus! {

/// The script in which the readings of a name are written out.
#[derive(Clone, Copy, Debug, PartialEq, Eq, Structural)]
pub enum KanaForm {
    Hiragana,
    Katakana,
    HalfwidthKana,
}

/// Why no name could be supplied.
#[derive(Clone, Copy, Debug, PartialEq, Eq, Structural)]
pub enum GenNameError {
    /// The list of names could not be fetched, or what was fetched is no list of names.
    RequestFailure,
    /// Another request is refreshing the names of the same sex.
    Conflict,
}

/// Why no record could be generated.
#[derive(Clone, Copy, Debug, PartialEq, Eq, Structural)]
pub enum GenPiError {
    GenNameError(GenNameError),
}

impl GenNameError {
    /// The error in words.
    pub fn message(&self) -> (r: String)
        ensures
            r@ == match self {
                GenNameError::RequestFailure => "request failure"@,
                GenNameError::Conflict => "conflict"@,
            },
    {
        match self {
            GenNameError::RequestFailure => "request failure".to_owned(),
            GenNameError::Conflict => "conflict".to_owned(),
        }
    }
}

impl GenPiError {
    /// The error in words.
    pub fn message(&self) -> (r: String)
        ensures
            r@ == "gen name error"@,
    {
        "gen name error".to_owned()
    }
}

/// A fictitious person: a date of birth, a name with its readings, and a sex.
#[derive(Debug, PartialEq, Eq)]
pub struct PI {
    pub date_of_birth: DateOfBirth,
    pub first_name: String,
    pub first_name_kana: String,
    pub last_name: String,
    pub last_name_kana: String,
    pub sex: Sex,
}

/// The content of a [`PI`].
pub struct PIView {
    pub date_of_birth: CalendarDate,
    pub name: NameView,
    pub sex: Sex,
}

impl View for PI {
    type V = PIView;

    open spec fn view(&self) -> PIView {
        PIView {
            date_of_birth: self.date_of_birth@,
            name: NameView {
                first_name: self.first_name@,
                first_name_kana: self.first_name_kana@,
                last_name: self.last_name@,
                last_name_kana: self.last_name_kana@,
            },
            sex: self.sex,
        }
    }
}

impl NameView {
    /// The name with its readings written in the given script.
    pub open spec fn in_form(self, form: KanaForm) -> NameView {
        match form {
            KanaForm::Hiragana => self,
            KanaForm::Katakana => self.in_katakana(),
            KanaForm::HalfwidthKana => self.in_halfwidth_kana(),
        }
    }
}

impl Name {
    /// Renders the readings in the given script. A name asked for in hiragana is handed back as
    /// it is, whatever its readings hold.
    pub fn in_form(self, form: KanaForm) -> (r: Self)
        requires
            form != KanaForm::Hiragana ==> self@.kana_is_hiragana(),
        ensures
            r@ == self@.in_form(form),
    {
        match form {
            KanaForm::Hiragana => self,
            KanaForm::Katakana => self.in_katakana(),
            KanaForm::HalfwidthKana => self.in_halfwidth_kana(),
        }
    }
}

impl PI {
    /// Makes the record of a person of the given name, sex and date of birth, with the readings
    /// of the name rendered in the given script.
    pub fn assemble(name: Name, sex: Sex, kana_form: KanaForm, date_of_birth: DateOfBirth) -> (r:
        Self)
        requires
            kana_form != KanaForm::Hiragana ==> name@.kana_is_hiragana(),
        ensures
            r@ == (PIView {
                date_of_birth: date_of_birth@,
                name: name@.in_form(kana_form),
                sex,
            }),
    {
        PI::from((name.in_form(kana_form), sex, date_of_birth))
    }

    /// Makes the record of a person of the given name and sex: the readings of the name are
    /// rendered in the given script, and a date of birth is drawn by the clock. There is no
    /// record where no date of birth can be drawn; whether one can is for the clock to say.
    pub fn gen(name: Name, sex: Sex, kana_form: KanaForm) -> (r: Option<Self>)
        requires
            kana_form != KanaForm::Hiragana ==> name@.kana_is_hiragana(),
        ensures
            r matches Some(pi) ==> {
                &&& pi@.name == name@.in_form(kana_form)
                &&& pi@.sex == sex
                &&& pi@.date_of_birth.is_valid()
            },
    {
        match gen_date_of_birth() {
            Some(date_of_birth) => Some(PI::assemble(name, sex, kana_form, date_of_birth)),
            None => None,
        }
    }
}

impl From<(Name, Sex, DateOfBirth)> for PI {
    /// Puts a record together from a name, a sex and a date of birth.
    fn from(parts: (Name, Sex, DateOfBirth)) -> (r: Self) {
        let (name, sex, date_of_birth) = parts;
        PI {
            date_of_birth,
            first_name: name.first_name,
            first_name_kana: name.first_name_kana,
            last_name: name.last_name,
            last_name_kana: name.last_name_kana,
            sex,
        }
    }
}

impl FromSpecImpl<(Name, Sex, DateOfBirth)> for PI {
    open spec fn obeys_from_spec() -> bool {
        true
    }

    open spec fn from_spec(parts: (Name, Sex, DateOfBirth)) -> Self {
        PI {
            date_of_birth: parts.2,
            first_name: parts.0.first_name,
            first_name_kana: parts.0.first_name_kana,
            last_name: parts.0.last_name,
            last_name_kana: parts.0.last_name_kana,
            sex: parts.1,
        }
    }
}

/// A record holds the name, the sex and the date of birth that it was put together from, and
/// nothing else.
pub proof fn lemma_record_holds_its_parts(name: Name, sex: Sex, date_of_birth: DateOfBirth)
    ensures
        <PI as FromSpec<(Name, Sex, DateOfBirth)>>::from_spec((name, sex, date_of_birth))@ == (PIView {
            date_of_birth: date_of_birth@,
            name: name@,
            sex,
        }),
{
}

} // verus!
