//! Fictitious Japanese personal information: a name with its reading, a sex and a date of
//! birth.
//!
//! Names come from a page of a name generator, which is fetched at most once in five seconds
//! for each sex and cached in between ([`names_cache`], [`name_source`]). The reading of a name
//! is hiragana, and can be rendered in katakana and in half-width katakana ([`kana`],
//! [`name`]). Sex and date of birth are drawn at random ([`sex`], [`date_of_birth`]). The
//! record that is made of them is [`pi::PI`].
//!
//! Nothing here reads the network or the environment: the caller fetches the page and reads
//! the variables, and hands over what it found ([`name_source::names_from_response`],
//! [`names_cache::NamesCache::fetched`], [`config::Config::from_env`]).

pub mod config;
pub mod date_of_birth;
pub mod kana;
pub mod name;
pub mod name_source;
pub mod names_cache;
pub mod pi;
pub mod random;
pub mod request;
pub mod sex;
pub mod text;
