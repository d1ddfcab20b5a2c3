//! Hiragana, and its transliteration into katakana and half-width katakana, character by
//! character.
//!
//! The hiragana block runs from U+3041 to U+3096. Each of its characters has a full-width
//! katakana counterpart at a fixed distance, and a half-width rendering of one or two
//! characters: a base letter, followed by a voicing mark where the sound is voiced.

use vstd::prelude::*;

verus! {

/// Code point of the first hiragana character, small `a`.
pub const HIRAGANA_FIRST: u32 = 0x3041;

/// Code point of the last hiragana character, small `ke`.
pub const HIRAGANA_LAST: u32 = 0x3096;

/// Distance from a hiragana character to its katakana counterpart.
pub const KATAKANA_OFFSET: u32 = 0x60;

/// Half-width voiced sound mark.
pub const DAKUTEN: char = 'ﾞ';

/// Half-width semi-voiced sound mark.
pub const HANDAKUTEN: char = 'ﾟ';

/// A character that was expected to be hiragana and is not.
#[derive(Clone, Copy, Debug, PartialEq, Eq, Structural)]
pub struct NotHiragana {
    pub ch: char,
}

pub open spec fn is_hiragana(c: char) -> bool {
    HIRAGANA_FIRST <= c as u32 <= HIRAGANA_LAST
}

pub open spec fn all_hiragana(s: Seq<char>) -> bool {
    forall|i: int| 0 <= i < s.len() ==> is_hiragana(#[trigger] s[i])
}

/// `s[at]` is the first character of `s` that is not hiragana.
pub open spec fn first_offender_at(s: Seq<char>, at: int) -> bool {
    &&& 0 <= at < s.len()
    &&& !is_hiragana(s[at])
    &&& all_hiragana(s.take(at))
}

/// The katakana counterpart of a hiragana character.
pub open spec fn katakana_of(c: char) -> char {
    (c as u32 + KATAKANA_OFFSET) as char
}

/// The hiragana character whose katakana counterpart is `k`.
pub open spec fn hiragana_of(k: char) -> char {
    (k as u32 - KATAKANA_OFFSET) as char
}

pub open spec fn katakana(s: Seq<char>) -> Seq<char> {
    s.map_values(|c: char| katakana_of(c))
}

pub open spec fn hiragana(s: Seq<char>) -> Seq<char> {
    s.map_values(|k: char| hiragana_of(k))
}

/// The half-width letter that carries the sound of a hiragana character, without its voicing.
/// A character that is not hiragana stands for itself.
///
/// Five rare characters have no half-width letter of their own and borrow the nearest one:
/// small `wa` that of `wa`, `wi` that of `i`, `we` that of `e`, small `ka` that of `ka`, and
/// small `ke` that of `ke`.
pub open spec fn halfwidth_base(c: char) -> char {
    match c {
        'ぁ' => 'ｧ',
        'あ' => 'ｱ',
        'ぃ' => 'ｨ',
        'い' => 'ｲ',
        'ぅ' => 'ｩ',
        'う' => 'ｳ',
        'ぇ' => 'ｪ',
        'え' => 'ｴ',
        'ぉ' => 'ｫ',
        'お' => 'ｵ',
        'か' => 'ｶ',
        'が' => 'ｶ',
        'き' => 'ｷ',
        'ぎ' => 'ｷ',
        'く' => 'ｸ',
        'ぐ' => 'ｸ',
        'け' => 'ｹ',
        'げ' => 'ｹ',
        'こ' => 'ｺ',
        'ご' => 'ｺ',
        'さ' => 'ｻ',
        'ざ' => 'ｻ',
        'し' => 'ｼ',
        'じ' => 'ｼ',
        'す' => 'ｽ',
        'ず' => 'ｽ',
        'せ' => 'ｾ',
        'ぜ' => 'ｾ',
        'そ' => 'ｿ',
        'ぞ' => 'ｿ',
        'た' => 'ﾀ',
        'だ' => 'ﾀ',
        'ち' => 'ﾁ',
        'ぢ' => 'ﾁ',
        'っ' => 'ｯ',
        'つ' => 'ﾂ',
        'づ' => 'ﾂ',
        'て' => 'ﾃ',
        'で' => 'ﾃ',
        'と' => 'ﾄ',
        'ど' => 'ﾄ',
        'な' => 'ﾅ',
        'に' => 'ﾆ',
        'ぬ' => 'ﾇ',
        'ね' => 'ﾈ',
        'の' => 'ﾉ',
        'は' => 'ﾊ',
        'ば' => 'ﾊ',
        'ぱ' => 'ﾊ',
        'ひ' => 'ﾋ',
        'び' => 'ﾋ',
        'ぴ' => 'ﾋ',
        'ふ' => 'ﾌ',
        'ぶ' => 'ﾌ',
        'ぷ' => 'ﾌ',
        'へ' => 'ﾍ',
        'べ' => 'ﾍ',
        'ぺ' => 'ﾍ',
        'ほ' => 'ﾎ',
        'ぼ' => 'ﾎ',
        'ぽ' => 'ﾎ',
        'ま' => 'ﾏ',
        'み' => 'ﾐ',
        'む' => 'ﾑ',
        'め' => 'ﾒ',
        'も' => 'ﾓ',
        'ゃ' => 'ｬ',
        'や' => 'ﾔ',
        'ゅ' => 'ｭ',
        'ゆ' => 'ﾕ',
        'ょ' => 'ｮ',
        'よ' => 'ﾖ',
        'ら' => 'ﾗ',
        'り' => 'ﾘ',
        'る' => 'ﾙ',
        'れ' => 'ﾚ',
        'ろ' => 'ﾛ',
        'ゎ' => 'ﾜ',
        'わ' => 'ﾜ',
        'ゐ' => 'ｲ',
        'ゑ' => 'ｴ',
        'を' => 'ｦ',
        'ん' => 'ﾝ',
        'ゔ' => 'ｳ',
        'ゕ' => 'ｶ',
        'ゖ' => 'ｹ',
        _ => c,
    }
}

/// Whether the sound of `c` is voiced.
pub open spec fn is_voiced(c: char) -> bool {
    c == 'が' || c == 'ぎ' || c == 'ぐ' || c == 'げ' || c == 'ご' || c == 'ざ' || c == 'じ'
        || c == 'ず' || c == 'ぜ' || c == 'ぞ' || c == 'だ' || c == 'ぢ' || c == 'づ' || c == 'で'
        || c == 'ど' || c == 'ば' || c == 'び' || c == 'ぶ' || c == 'べ' || c == 'ぼ' || c == 'ゔ'
}

/// Whether the sound of `c` is semi-voiced.
pub open spec fn is_semi_voiced(c: char) -> bool {
    c == 'ぱ' || c == 'ぴ' || c == 'ぷ' || c == 'ぺ' || c == 'ぽ'
}

/// The half-width rendering of a hiragana character: its base letter, then the voicing mark if
/// its sound is voiced or semi-voiced.
pub open spec fn halfwidth_of(c: char) -> Seq<char> {
    if is_voiced(c) {
        seq![halfwidth_base(c), DAKUTEN]
    } else if is_semi_voiced(c) {
        seq![halfwidth_base(c), HANDAKUTEN]
    } else {
        seq![halfwidth_base(c)]
    }
}

pub open spec fn halfwidth(s: Seq<char>) -> Seq<char> {
    s.map_values(|c: char| halfwidth_of(c)).flatten()
}

pub fn is_hiragana_char(c: char) -> (r: bool)
    ensures
        r == is_hiragana(c),
{
    let code: u32 = c as u32;
    HIRAGANA_FIRST <= code && code <= HIRAGANA_LAST
}

/// Looks up the half-width base letter of a hiragana character and the voicing mark that
/// follows it, if any. A character that is not hiragana is its own base letter.
pub fn halfwidth_units(c: char) -> (r: (char, Option<char>))
    ensures
        halfwidth_of(c) == match r.1 {
            Some(mark) => seq![r.0, mark],
            None => seq![r.0],
        },
        r.0 == halfwidth_base(c),
        r.1 is Some <==> is_voiced(c) || is_semi_voiced(c),
{
    match c {
        'ぁ' => ('ｧ', None),
        'あ' => ('ｱ', None),
        'ぃ' => ('ｨ', None),
        'い' => ('ｲ', None),
        'ぅ' => ('ｩ', None),
        'う' => ('ｳ', None),
        'ぇ' => ('ｪ', None),
        'え' => ('ｴ', None),
        'ぉ' => ('ｫ', None),
        'お' => ('ｵ', None),
        'か' => ('ｶ', None),
        'が' => ('ｶ', Some(DAKUTEN)),
        'き' => ('ｷ', None),
        'ぎ' => ('ｷ', Some(DAKUTEN)),
        'く' => ('ｸ', None),
        'ぐ' => ('ｸ', Some(DAKUTEN)),
        'け' => ('ｹ', None),
        'げ' => ('ｹ', Some(DAKUTEN)),
        'こ' => ('ｺ', None),
        'ご' => ('ｺ', Some(DAKUTEN)),
        'さ' => ('ｻ', None),
        'ざ' => ('ｻ', Some(DAKUTEN)),
        'し' => ('ｼ', None),
        'じ' => ('ｼ', Some(DAKUTEN)),
        'す' => ('ｽ', None),
        'ず' => ('ｽ', Some(DAKUTEN)),
        'せ' => ('ｾ', None),
        'ぜ' => ('ｾ', Some(DAKUTEN)),
        'そ' => ('ｿ', None),
        'ぞ' => ('ｿ', Some(DAKUTEN)),
        'た' => ('ﾀ', None),
        'だ' => ('ﾀ', Some(DAKUTEN)),
        'ち' => ('ﾁ', None),
        'ぢ' => ('ﾁ', Some(DAKUTEN)),
        'っ' => ('ｯ', None),
        'つ' => ('ﾂ', None),
        'づ' => ('ﾂ', Some(DAKUTEN)),
        'て' => ('ﾃ', None),
        'で' => ('ﾃ', Some(DAKUTEN)),
        'と' => ('ﾄ', None),
        'ど' => ('ﾄ', Some(DAKUTEN)),
        'な' => ('ﾅ', None),
        'に' => ('ﾆ', None),
        'ぬ' => ('ﾇ', None),
        'ね' => ('ﾈ', None),
        'の' => ('ﾉ', None),
        'は' => ('ﾊ', None),
        'ば' => ('ﾊ', Some(DAKUTEN)),
        'ぱ' => ('ﾊ', Some(HANDAKUTEN)),
        'ひ' => ('ﾋ', None),
        'び' => ('ﾋ', Some(DAKUTEN)),
        'ぴ' => ('ﾋ', Some(HANDAKUTEN)),
        'ふ' => ('ﾌ', None),
        'ぶ' => ('ﾌ', Some(DAKUTEN)),
        'ぷ' => ('ﾌ', Some(HANDAKUTEN)),
        'へ' => ('ﾍ', None),
        'べ' => ('ﾍ', Some(DAKUTEN)),
        'ぺ' => ('ﾍ', Some(HANDAKUTEN)),
        'ほ' => ('ﾎ', None),
        'ぼ' => ('ﾎ', Some(DAKUTEN)),
        'ぽ' => ('ﾎ', Some(HANDAKUTEN)),
        'ま' => ('ﾏ', None),
        'み' => ('ﾐ', None),
        'む' => ('ﾑ', None),
        'め' => ('ﾒ', None),
        'も' => ('ﾓ', None),
        'ゃ' => ('ｬ', None),
        'や' => ('ﾔ', None),
        'ゅ' => ('ｭ', None),
        'ゆ' => ('ﾕ', None),
        'ょ' => ('ｮ', None),
        'よ' => ('ﾖ', None),
        'ら' => ('ﾗ', None),
        'り' => ('ﾘ', None),
        'る' => ('ﾙ', None),
        'れ' => ('ﾚ', None),
        'ろ' => ('ﾛ', None),
        'ゎ' => ('ﾜ', None),
        'わ' => ('ﾜ', None),
        'ゐ' => ('ｲ', None),
        'ゑ' => ('ｴ', None),
        'を' => ('ｦ', None),
        'ん' => ('ﾝ', None),
        'ゔ' => ('ｳ', Some(DAKUTEN)),
        'ゕ' => ('ｶ', None),
        'ゖ' => ('ｹ', None),
        _ => (c, None),
    }
}

/// The katakana rendering has one character for each character of the input, and each lies
/// exactly [`KATAKANA_OFFSET`] code points above the hiragana character it renders.
pub proof fn lemma_katakana_is_offset(s: Seq<char>)
    requires
        all_hiragana(s),
    ensures
        katakana(s).len() == s.len(),
        forall|i: int|
            0 <= i < s.len() ==> (#[trigger] katakana(s)[i]) as u32 == s[i] as u32
                + KATAKANA_OFFSET,
{
}

/// Moving every character of a katakana rendering back down by [`KATAKANA_OFFSET`] gives the
/// hiragana string it was made from.
pub proof fn lemma_katakana_round_trip(s: Seq<char>)
    requires
        all_hiragana(s),
    ensures
        hiragana(katakana(s)) == s,
{
    assert forall|i: int| 0 <= i < s.len() implies hiragana(katakana(s))[i] == s[i] by {
        let c = s[i];
        assert(is_hiragana(c));
        assert(katakana_of(c) as u32 == c as u32 + KATAKANA_OFFSET);
        vstd::utf8::char_u32_cast(c, c as u32);
    }
    assert(hiragana(katakana(s)) =~= s);
}

/// Distinct hiragana strings have distinct katakana renderings.
pub proof fn lemma_katakana_injective(s: Seq<char>, t: Seq<char>)
    requires
        all_hiragana(s),
        all_hiragana(t),
        katakana(s) == katakana(t),
    ensures
        s == t,
{
    lemma_katakana_round_trip(s);
    lemma_katakana_round_trip(t);
}

/// A voiced or semi-voiced character has the base letter of the unvoiced character that
/// stands before it in the syllabary (two before it, for a semi-voiced one). The one exception
/// is voiced `u`, which has no unvoiced neighbour and takes the base letter of `u`.
pub proof fn lemma_voicing_keeps_base(c: char)
    requires
        is_hiragana(c),
    ensures
        is_voiced(c) && c != 'ゔ' ==> halfwidth_base(c) == halfwidth_base((c as u32 - 1) as char),
        is_semi_voiced(c) ==> halfwidth_base(c) == halfwidth_base((c as u32 - 2) as char),
        c == 'ゔ' ==> halfwidth_base(c) == halfwidth_base('う'),
        !(is_voiced(c) && is_semi_voiced(c)),
{
}

/// A half-width rendering is made of half-width katakana only: letters from U+FF66 to U+FF9D
/// and the two voicing marks.
pub proof fn lemma_halfwidth_range(c: char)
    requires
        is_hiragana(c),
    ensures
        1 <= halfwidth_of(c).len() <= 2,
        0xFF66 <= halfwidth_of(c)[0] as u32 <= 0xFF9D,
        halfwidth_of(c).len() == 2 ==> halfwidth_of(c)[1] == DAKUTEN || halfwidth_of(c)[1]
            == HANDAKUTEN,
{
}

} // verus!
