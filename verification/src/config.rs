//! The configuration of the server, taken from two variables of the environment.

use crate::text::{digit_value, is_digit, read_digit};
use vstd::prelude::*;

verus! {

/// The port on which the server listens unless the environment names another.
pub const DEFAULT_PORT: u16 = 3000;

/// What the environment holds under a name.
#[derive(Clone, Debug, PartialEq, Eq)]
pub enum EnvValue {
    /// The variable is not set.
    Unset,
    /// The variable is set to something that is not Unicode text.
    NotUnicode,
    /// The variable is set to this text.
    Present(String),
}

/// Why the environment gives no configuration.
#[derive(Clone, Copy, Debug, PartialEq, Eq, Structural)]
pub enum ConfigError {
    BasePathNotUnicode,
    PortNotUnicode,
    PortNotNumber,
}

#[derive(Clone, Debug, PartialEq, Eq)]
pub struct Config {
    /// The path under which the routes are nested; empty for none.
    pub base_path: String,
    pub port: u16,
}

/// The content of an [`EnvValue`].
pub enum EnvValueView {
    Unset,
    NotUnicode,
    Present(Seq<char>),
}

impl View for EnvValue {
    type V = EnvValueView;

    open spec fn view(&self) -> EnvValueView {
        match self {
            EnvValue::Unset => EnvValueView::Unset,
            EnvValue::NotUnicode => EnvValueView::NotUnicode,
            EnvValue::Present(text) => EnvValueView::Present(text@),
        }
    }
}

/// The content of a [`Config`].
pub struct ConfigView {
    pub base_path: Seq<char>,
    pub port: u16,
}

impl View for Config {
    type V = ConfigView;

    open spec fn view(&self) -> ConfigView {
        ConfigView { base_path: self.base_path@, port: self.port }
    }
}

pub open spec fn all_digits(s: Seq<char>) -> bool {
    forall|i: int| 0 <= i < s.len() ==> is_digit(#[trigger] s[i])
}

/// The number that a row of decimal digits writes.
pub open spec fn decimal_value(digits: Seq<char>) -> nat
    decreases digits.len(),
{
    if digits.len() == 0 {
        0
    } else {
        (10 * decimal_value(digits.drop_last()) + digit_value(digits.last())) as nat
    }
}

/// A text without the plus sign that it may begin with.
pub open spec fn unsigned_part(s: Seq<char>) -> Seq<char> {
    if s.len() > 0 && s[0] == '+' {
        s.drop_first()
    } else {
        s
    }
}

/// The port that a text names: the text is one or more decimal digits, with or without a plus
/// sign before them, and the number they write is no more than 65535.
pub open spec fn port_of(s: Seq<char>) -> Option<u16> {
    let digits = unsigned_part(s);
    if digits.len() > 0 && all_digits(digits) && decimal_value(digits) <= u16::MAX {
        Some(decimal_value(digits) as u16)
    } else {
        None
    }
}

/// The configuration that the environment gives. A path that is not set is empty, and a port
/// that is not set is [`DEFAULT_PORT`]. The path is looked at first.
pub open spec fn config_of(base_path: EnvValueView, port: EnvValueView) -> Result<
    ConfigView,
    ConfigError,
> {
    let path = match base_path {
        EnvValueView::Present(text) => text,
        _ => Seq::<char>::empty(),
    };
    if base_path is NotUnicode {
        Err(ConfigError::BasePathNotUnicode)
    } else if port is NotUnicode {
        Err(ConfigError::PortNotUnicode)
    } else if port is Unset {
        Ok(ConfigView { base_path: path, port: DEFAULT_PORT })
    } else if port_of(port->Present_0) is None {
        Err(ConfigError::PortNotNumber)
    } else {
        Ok(ConfigView { base_path: path, port: port_of(port->Present_0)->0 })
    }
}

/// The number that digits write is no smaller than the number that the first of them write.
pub proof fn lemma_decimal_value_grows(digits: Seq<char>, upto: int)
    requires
        all_digits(digits),
        0 <= upto <= digits.len(),
    ensures
        decimal_value(digits.take(upto)) <= decimal_value(digits),
    decreases digits.len() - upto,
{
    if upto < digits.len() {
        assert(digits.take(upto + 1).drop_last() == digits.take(upto));
        assert(is_digit(digits.take(upto + 1).last()));
        lemma_decimal_value_grows(digits, upto + 1);
    } else {
        assert(digits.take(upto) == digits);
    }
}

/// Reads a port.
pub fn parse_port(s: &str) -> (r: Option<u16>)
    ensures
        r == port_of(s@),
{
    let chars = crate::text::chars_of(s);
    let start: usize = if chars.len() > 0 && chars[0] == '+' {
        1
    } else {
        0
    };
    let ghost digits = unsigned_part(s@);
    assert(digits == chars@.skip(start as int));
    if start == chars.len() {
        return None;
    }
    let mut value: u32 = 0;
    let mut i: usize = start;
    assert(digits.take(0) == Seq::<char>::empty());
    while i < chars.len()
        invariant
            start <= i <= chars.len(),
            digits == chars@.skip(start as int),
            digits == unsigned_part(s@),
            all_digits(digits.take(i - start)),
            value == decimal_value(digits.take(i - start)),
            value <= u16::MAX,
        decreases chars.len() - i,
    {
        assert(digits.take(i - start + 1).drop_last() == digits.take(i - start));
        assert(digits.take(i - start + 1).last() == chars@[i as int]);
        match read_digit(chars[i]) {
            Some(digit) => {
                value = 10 * value + digit as u32;
                assert(value == decimal_value(digits.take(i - start + 1)));
                if value > 65535 {
                    proof {
                        if all_digits(digits) {
                            lemma_decimal_value_grows(digits, i - start + 1);
                        }
                    }
                    return None;
                }
            },
            None => {
                assert(!is_digit(digits[i - start]));
                assert(!all_digits(digits));
                return None;
            },
        }
        i += 1;
    }
    assert(digits.take(digits.len() as int) == digits);
    Some(value as u16)
}

impl Config {
    /// Makes the configuration from what the environment holds under `BASE_PATH` and under
    /// `PORT`.
    pub fn from_env(base_path: EnvValue, port: EnvValue) -> (r: Result<Self, ConfigError>)
        ensures
            match r {
                Ok(config) => config_of(base_path@, port@) == Ok::<ConfigView, ConfigError>(
                    config@,
                ),
                Err(e) => config_of(base_path@, port@) == Err::<ConfigView, ConfigError>(e),
            },
    {
        let base_path = match base_path {
            EnvValue::Present(text) => text,
            EnvValue::Unset => String::new(),
            EnvValue::NotUnicode => return Err(ConfigError::BasePathNotUnicode),
        };
        let port = match port {
            EnvValue::Present(text) => match parse_port(text.as_str()) {
                Some(port) => port,
                None => return Err(ConfigError::PortNotNumber),
            },
            EnvValue::Unset => DEFAULT_PORT,
            EnvValue::NotUnicode => return Err(ConfigError::PortNotUnicode),
        };
        Ok(Config { base_path, port })
    }
}

impl ConfigError {
    /// The error in words.
    pub fn message(&self) -> (r: String)
        ensures
            r@ == match self {
                ConfigError::BasePathNotUnicode => "BASE_PATH is not unicode"@,
                ConfigError::PortNotUnicode => "PORT is not unicode"@,
                ConfigError::PortNotNumber => "PORT range is (0..=65535)"@,
            },
    {
        match self {
            ConfigError::BasePathNotUnicode => "BASE_PATH is not unicode".to_owned(),
            ConfigError::PortNotUnicode => "PORT is not unicode".to_owned(),
            ConfigError::PortNotNumber => "PORT range is (0..=65535)".to_owned(),
        }
    }
}

} // verus!
