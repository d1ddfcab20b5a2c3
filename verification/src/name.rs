//! A person's name with its phonetic reading, and the rendering of that reading in katakana.

use crate::kana::{
    all_hiragana, first_offender_at, halfwidth, halfwidth_of, halfwidth_units, is_hiragana,
    is_hiragana_char, katakana, katakana_of, NotHiragana, KATAKANA_OFFSET,
};
use vstd::prelude::*;

verus! {

/// A family name and a given name, each with its reading in kana.
#[derive(Debug, PartialEq, Eq)]
pub struct Name {
    pub first_name: String,
    pub first_name_kana: String,
    pub last_name: String,
    pub last_name_kana: String,
}

/// The four strings of a [`Name`] as sequences of characters.
pub struct NameView {
    pub first_name: Seq<char>,
    pub first_name_kana: Seq<char>,
    pub last_name: Seq<char>,
    pub last_name_kana: Seq<char>,
}

impl View for Name {
    type V = NameView;

    open spec fn view(&self) -> NameView {
        NameView {
            first_name: self.first_name@,
            first_name_kana: self.first_name_kana@,
            last_name: self.last_name@,
            last_name_kana: self.last_name_kana@,
        }
    }
}

/// The views of a list of names.
pub open spec fn name_views(names: Seq<Name>) -> Seq<NameView> {
    names.map_values(|name: Name| name@)
}

impl DeepView for Name {
    type V = NameView;

    open spec fn deep_view(&self) -> NameView {
        self@
    }
}

impl Clone for Name {
    fn clone(&self) -> (r: Self)
        ensures
            r@ == self@,
    {
        Name {
            first_name: self.first_name.clone(),
            first_name_kana: self.first_name_kana.clone(),
            last_name: self.last_name.clone(),
            last_name_kana: self.last_name_kana.clone(),
        }
    }
}

impl NameView {
    /// Both readings are written in hiragana only.
    pub open spec fn kana_is_hiragana(self) -> bool {
        all_hiragana(self.first_name_kana) && all_hiragana(self.last_name_kana)
    }

    /// The same name with both readings in katakana.
    pub open spec fn in_katakana(self) -> NameView {
        NameView {
            first_name_kana: katakana(self.first_name_kana),
            last_name_kana: katakana(self.last_name_kana),
            ..self
        }
    }

    /// The same name with both readings in half-width katakana.
    pub open spec fn in_halfwidth_kana(self) -> NameView {
        NameView {
            first_name_kana: halfwidth(self.first_name_kana),
            last_name_kana: halfwidth(self.last_name_kana),
            ..self
        }
    }
}

impl Name {
    /// Whether both readings are written in hiragana only.
    pub fn kana_is_hiragana(&self) -> (r: bool)
        ensures
            r == self@.kana_is_hiragana(),
    {
        Self::is_hiragana_str(self.first_name_kana.as_str()) && Self::is_hiragana_str(
            self.last_name_kana.as_str(),
        )
    }

    /// Renders both readings in katakana.
    pub fn in_katakana(self) -> (r: Self)
        requires
            self@.kana_is_hiragana(),
        ensures
            r@ == self@.in_katakana(),
    {
        let first_name_kana = Self::hiragana_to_katakana(self.first_name_kana.as_str()).unwrap();
        let last_name_kana = Self::hiragana_to_katakana(self.last_name_kana.as_str()).unwrap();
        Self { first_name_kana, last_name_kana, ..self }
    }

    /// Renders both readings in half-width katakana.
    pub fn in_halfwidth_kana(self) -> (r: Self)
        requires
            self@.kana_is_hiragana(),
        ensures
            r@ == self@.in_halfwidth_kana(),
    {
        let first_name_kana = Self::hiragana_to_halfwidth_kana(
            self.first_name_kana.as_str(),
        ).unwrap();
        let last_name_kana = Self::hiragana_to_halfwidth_kana(
            self.last_name_kana.as_str(),
        ).unwrap();
        Self { first_name_kana, last_name_kana, ..self }
    }

    /// Whether every character of `s` is hiragana.
    pub fn is_hiragana_str(s: &str) -> (r: bool)
        ensures
            r == all_hiragana(s@),
    {
        broadcast use vstd::string::group_string_axioms;

        let chars = s.chars();
        for c in it: chars
            invariant
                it.seq() == s@,
                all_hiragana(s@.take(it.index())),
        {
            if !is_hiragana_char(c) {
                return false;
            }
        }
        assert(s@.take(s@.len() as int) == s@);
        true
    }

    /// Renders a hiragana string in half-width katakana, character by character: each becomes
    /// its base letter, followed by a voicing mark where its sound is voiced. Fails at the first
    /// character that is not hiragana.
    pub fn hiragana_to_halfwidth_kana(s: &str) -> (r: Result<String, NotHiragana>)
        ensures
            all_hiragana(s@) ==> r is Ok && r->Ok_0@ == halfwidth(s@),
            !all_hiragana(s@) ==> r is Err && exists|at: int|
                first_offender_at(s@, at) && r->Err_0.ch == s@[at],
    {
        broadcast use vstd::string::group_string_axioms;

        let mut out = String::new();
        let chars = s.chars();
        for c in it: chars
            invariant
                it.seq() == s@,
                all_hiragana(s@.take(it.index())),
                out@ == halfwidth(s@.take(it.index())),
        {
            let ghost at = it.index();
            if !is_hiragana_char(c) {
                assert(first_offender_at(s@, at));
                return Err(NotHiragana { ch: c });
            }
            let (base, mark) = halfwidth_units(c);
            out.push(base);
            match mark {
                Some(m) => out.push(m),
                None => {},
            }
            proof {
                let f = |c: char| halfwidth_of(c);
                assert(s@.take(at + 1).map_values(f) == s@.take(at).map_values(f).push(f(c)));
                s@.take(at).map_values(f).lemma_flatten_push(f(c));
            }
        }
        assert(s@.take(s@.len() as int) == s@);
        Ok(out)
    }

    /// Renders a hiragana string in katakana: every character moves up by the fixed distance
    /// between the two syllabaries. Fails at the first character that is not hiragana.
    pub fn hiragana_to_katakana(s: &str) -> (r: Result<String, NotHiragana>)
        ensures
            all_hiragana(s@) ==> r is Ok && r->Ok_0@ == katakana(s@),
            !all_hiragana(s@) ==> r is Err && exists|at: int|
                first_offender_at(s@, at) && r->Err_0.ch == s@[at],
    {
        broadcast use vstd::string::group_string_axioms;

        let mut out = String::new();
        let chars = s.chars();
        for c in it: chars
            invariant
                it.seq() == s@,
                all_hiragana(s@.take(it.index())),
                out@ == katakana(s@.take(it.index())),
        {
            let ghost at = it.index();
            if !is_hiragana_char(c) {
                assert(first_offender_at(s@, at));
                return Err(NotHiragana { ch: c });
            }
            let shifted = char::from_u32(c as u32 + KATAKANA_OFFSET);
            out.push(shifted.unwrap());
            assert(s@.take(at + 1).map_values(|c: char| katakana_of(c)) == s@.take(at).map_values(
                |c: char| katakana_of(c),
            ).push(katakana_of(c)));
        }
        assert(s@.take(s@.len() as int) == s@);
        Ok(out)
    }
}

} // verus!
