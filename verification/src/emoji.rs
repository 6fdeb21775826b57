//! Emoji detection in text and the image URLs that stand in for them.
use unicode_segmentation::UnicodeSegmentation;
use vstd::prelude::*;

use crate::text::{ascii_lower, ascii_lower_seq, chars_of, push_char, string_of};

verus! {

pub const ZERO_WIDTH_JOINER: char = '\u{200D}';

pub const VARIATION_SELECTOR_16: char = '\u{FE0F}';

pub const KEYCAP_MARK: char = '\u{20E3}';

/// The emoji image set that emoji are drawn from.
#[derive(Debug, Clone, Copy, PartialEq, Eq)]
pub enum EmojiType {
    Twemoji,
    Blobmoji,
    Noto,
    Openmoji,
    Fluent,
    FluentFlat,
}

/// Code points with the Extended_Pictographic property that the
/// detection recognizes.
pub open spec fn is_pictographic_code(code: u32) -> bool {
    ||| code == 0x00A9 || code == 0x00AE || code == 0x203C || code == 0x2049 || code == 0x2122
    ||| code == 0x2139 || (0x231A <= code <= 0x231B) || code == 0x2328 || code == 0x23CF
    ||| (0x23E9 <= code <= 0x23F3) || (0x23F8 <= code <= 0x23FA) || code == 0x24C2
    ||| (0x25AA <= code <= 0x25AB) || code == 0x25B6 || code == 0x25C0 || (0x25FB <= code <= 0x25FE)
    ||| (0x2600 <= code <= 0x2605) || (0x2607 <= code <= 0x260F) || code == 0x2611
    ||| (0x2614 <= code <= 0x2615) || code == 0x2618 || code == 0x261D || code == 0x2620
    ||| (0x2622 <= code <= 0x2623) || code == 0x2626 || code == 0x262A || (0x262E <= code <= 0x262F)
    ||| (0x2638 <= code <= 0x263A) || code == 0x2640 || code == 0x2642 || (0x2648 <= code <= 0x2653)
    ||| (0x265F <= code <= 0x2660) || code == 0x2663 || (0x2665 <= code <= 0x2666) || code == 0x2668
    ||| code == 0x267B || (0x267E <= code <= 0x267F) || (0x2692 <= code <= 0x2697) || code == 0x2699
    ||| (0x269B <= code <= 0x269C) || (0x26A0 <= code <= 0x26A1) || code == 0x26A7
    ||| (0x26AA <= code <= 0x26AB) || (0x26B0 <= code <= 0x26B1) || (0x26BD <= code <= 0x26BE)
    ||| (0x26C4 <= code <= 0x26C5) || code == 0x26C8 || (0x26CE <= code <= 0x26CF) || code == 0x26D1
    ||| (0x26D3 <= code <= 0x26D4) || (0x26E9 <= code <= 0x26EA) || (0x26F0 <= code <= 0x26F5)
    ||| (0x26F7 <= code <= 0x26FA) || code == 0x26FD || code == 0x2702 || code == 0x2705
    ||| (0x2708 <= code <= 0x270D) || code == 0x270F || code == 0x2712 || code == 0x2714
    ||| code == 0x2716 || code == 0x271D || code == 0x2721 || code == 0x2728
    ||| (0x2733 <= code <= 0x2734) || code == 0x2744 || code == 0x2747 || code == 0x274C
    ||| code == 0x274E || (0x2753 <= code <= 0x2755) || code == 0x2757 || (0x2763 <= code <= 0x2764)
    ||| code == 0x27A1 || (0x2934 <= code <= 0x2935) || (0x2B05 <= code <= 0x2B07)
    ||| (0x2B1B <= code <= 0x2B1C) || code == 0x2B50 || code == 0x2B55 || code == 0x3030
    ||| code == 0x303D || code == 0x3297 || code == 0x3299
    ||| (0x1F000 <= code <= 0x1FAFF)
}

pub fn is_extended_pictographic(ch: char) -> (r: bool)
    ensures
        r == is_pictographic_code(ch as u32),
{
    let code = ch as u32;
    matches!(
        code,
        0x00A9 | 0x00AE | 0x203C | 0x2049 | 0x2122 | 0x2139 | 0x231A | 0x231B | 0x2328 | 0x23CF
            | 0x23E9 | 0x23EA | 0x23EB | 0x23EC | 0x23ED | 0x23EE | 0x23EF | 0x23F0 | 0x23F1
            | 0x23F2 | 0x23F3 | 0x23F8 | 0x23F9 | 0x23FA | 0x24C2 | 0x25AA | 0x25AB | 0x25B6
            | 0x25C0 | 0x25FB | 0x25FC | 0x25FD | 0x25FE | 0x2600 | 0x2601 | 0x2602 | 0x2603
            | 0x2604 | 0x2605 | 0x2607 | 0x2608 | 0x2609 | 0x260A | 0x260B | 0x260C | 0x260D
            | 0x260E | 0x260F | 0x2611 | 0x2614 | 0x2615 | 0x2618 | 0x261D | 0x2620 | 0x2622
            | 0x2623 | 0x2626 | 0x262A | 0x262E | 0x262F | 0x2638 | 0x2639 | 0x263A | 0x2640
            | 0x2642 | 0x2648 | 0x2649 | 0x264A | 0x264B | 0x264C | 0x264D | 0x264E | 0x264F
            | 0x2650 | 0x2651 | 0x2652 | 0x2653 | 0x265F | 0x2660 | 0x2663 | 0x2665 | 0x2666
            | 0x2668 | 0x267B | 0x267E | 0x267F | 0x2692 | 0x2693 | 0x2694 | 0x2695 | 0x2696
            | 0x2697 | 0x2699 | 0x269B | 0x269C | 0x26A0 | 0x26A1 | 0x26A7 | 0x26AA | 0x26AB
            | 0x26B0 | 0x26B1 | 0x26BD | 0x26BE | 0x26C4 | 0x26C5 | 0x26C8 | 0x26CE | 0x26CF
            | 0x26D1 | 0x26D3 | 0x26D4 | 0x26E9 | 0x26EA | 0x26F0 | 0x26F1 | 0x26F2 | 0x26F3
            | 0x26F4 | 0x26F5 | 0x26F7 | 0x26F8 | 0x26F9 | 0x26FA | 0x26FD | 0x2702 | 0x2705
            | 0x2708 | 0x2709 | 0x270A | 0x270B | 0x270C | 0x270D | 0x270F | 0x2712 | 0x2714
            | 0x2716 | 0x271D | 0x2721 | 0x2728 | 0x2733 | 0x2734 | 0x2744 | 0x2747 | 0x274C
            | 0x274E | 0x2753 | 0x2754 | 0x2755 | 0x2757 | 0x2763 | 0x2764 | 0x27A1 | 0x2934
            | 0x2935 | 0x2B05 | 0x2B06 | 0x2B07 | 0x2B1B | 0x2B1C | 0x2B50 | 0x2B55 | 0x3030
            | 0x303D | 0x3297 | 0x3299
    ) || (0x1F000 <= code && code <= 0x1FAFF)
}

pub open spec fn is_regional_indicator_char(ch: char) -> bool {
    '\u{1F1E6}' <= ch && ch <= '\u{1F1FF}'
}

pub fn is_regional_indicator(ch: char) -> (r: bool)
    ensures
        r == is_regional_indicator_char(ch),
{
    '\u{1F1E6}' <= ch && ch <= '\u{1F1FF}'
}

pub open spec fn is_keycap_base_char(ch: char) -> bool {
    ch == '#' || ch == '*' || ('0' <= ch && ch <= '9')
}

pub fn is_keycap_base(ch: char) -> (r: bool)
    ensures
        r == is_keycap_base_char(ch),
{
    ch == '#' || ch == '*' || ('0' <= ch && ch <= '9')
}

/// A keycap sequence: a base, an optional variation selector 16, and the
/// combining keycap mark.
pub open spec fn is_keycap_seq(s: Seq<char>) -> bool {
    ||| (s.len() == 2 && is_keycap_base_char(s[0]) && s[1] == KEYCAP_MARK)
    ||| (s.len() == 3 && is_keycap_base_char(s[0]) && s[1] == VARIATION_SELECTOR_16 && s[2]
        == KEYCAP_MARK)
}

pub open spec fn is_regional_indicator_pair_seq(s: Seq<char>) -> bool {
    s.len() == 2 && is_regional_indicator_char(s[0]) && is_regional_indicator_char(s[1])
}

/// A grapheme cluster that is drawn as an emoji image.
pub open spec fn is_emoji_seq(s: Seq<char>) -> bool {
    is_keycap_seq(s) || is_regional_indicator_pair_seq(s) || exists|i: int|
        0 <= i < s.len() && is_pictographic_code(#[trigger] s[i] as u32)
}

pub fn is_keycap_emoji(segment: &Vec<char>) -> (r: bool)
    ensures
        r == is_keycap_seq(segment@),
{
    if segment.len() == 2 {
        is_keycap_base(segment[0]) && segment[1] == KEYCAP_MARK
    } else if segment.len() == 3 {
        is_keycap_base(segment[0]) && segment[1] == VARIATION_SELECTOR_16 && segment[2]
            == KEYCAP_MARK
    } else {
        false
    }
}

pub fn is_regional_indicator_pair(segment: &Vec<char>) -> (r: bool)
    ensures
        r == is_regional_indicator_pair_seq(segment@),
{
    segment.len() == 2 && is_regional_indicator(segment[0]) && is_regional_indicator(segment[1])
}

pub fn is_emoji_segment(segment: &Vec<char>) -> (r: bool)
    ensures
        r == is_emoji_seq(segment@),
{
    if is_keycap_emoji(segment) || is_regional_indicator_pair(segment) {
        return true;
    }
    let mut i: usize = 0;
    while i < segment.len()
        invariant
            0 <= i <= segment@.len(),
            forall|j: int| 0 <= j < i ==> !is_pictographic_code(#[trigger] segment@[j] as u32),
        decreases segment@.len() - i,
    {
        if is_extended_pictographic(segment[i]) {
            return true;
        }
        i += 1;
    }
    false
}

/// The lower-case hexadecimal digit for `d < 16`.
pub open spec fn hex_digit_lower(d: int) -> char {
    if d < 10 {
        (('0' as int) + d) as char
    } else {
        (('a' as int) + d - 10) as char
    }
}

/// `n` in lower-case hexadecimal without leading zeros, as `{:x}` writes it.
pub open spec fn hex_lower(n: nat) -> Seq<char>
    decreases n,
{
    if n < 16 {
        seq![hex_digit_lower(n as int)]
    } else {
        hex_lower(n / 16) + seq![hex_digit_lower((n % 16) as int)]
    }
}

/// The code points of a segment that its icon file is named after: all of
/// them in a zero-width-joiner sequence, otherwise all but variation
/// selector 16.
pub open spec fn icon_code_points(segment: Seq<char>) -> Seq<char> {
    if segment.contains(ZERO_WIDTH_JOINER) {
        segment
    } else {
        segment.filter(not_variation_selector())
    }
}

/// The filter that drops variation selector 16.
pub open spec fn not_variation_selector() -> spec_fn(char) -> bool {
    |c: char| c != VARIATION_SELECTOR_16
}

/// The hexadecimal code points of `cs`, joined by `-`.
pub open spec fn join_hex(cs: Seq<char>) -> Seq<char>
    decreases cs.len(),
{
    if cs.len() == 0 {
        Seq::empty()
    } else if cs.len() == 1 {
        hex_lower((cs[0] as u32) as nat)
    } else {
        join_hex(cs.drop_last()) + seq!['-'] + hex_lower((cs.last() as u32) as nat)
    }
}

/// The icon code of an emoji segment, such as `1f600` or `1f468-200d-1f469`.
pub open spec fn icon_code(segment: Seq<char>) -> Seq<char> {
    join_hex(icon_code_points(segment))
}

/// Outside a ZWJ sequence, variation selector 16 is no part of an emoji's
/// icon: the code points of a segment without a ZWJ hold no `U+FE0F`, keep
/// every other code point of the segment, and are those of the segment
/// with its selectors taken out. In a ZWJ sequence every code point,
/// selectors included, stays, in order.
pub proof fn law_icon_drops_selector_outside_zwj(segment: Seq<char>)
    ensures
        segment.contains(ZERO_WIDTH_JOINER) ==> icon_code_points(segment) == segment,
        !segment.contains(ZERO_WIDTH_JOINER) ==> {
            &&& !icon_code_points(segment).contains(VARIATION_SELECTOR_16)
            &&& forall|i: int|
                0 <= i < segment.len() && segment[i] != VARIATION_SELECTOR_16 ==> icon_code_points(
                    segment,
                ).contains(#[trigger] segment[i])
            &&& (!segment.contains(VARIATION_SELECTOR_16) ==> icon_code_points(segment) == segment)
            &&& icon_code(segment) == icon_code(
                segment.filter(|c: char| c != VARIATION_SELECTOR_16),
            )
        },
{
    let pred = not_variation_selector();
    if !segment.contains(ZERO_WIDTH_JOINER) {
        let f = segment.filter(|c: char| c != VARIATION_SELECTOR_16);
        assert(f =~= segment.filter(pred));
        assert forall|i: int|
            0 <= i < segment.len() && segment[i] != VARIATION_SELECTOR_16 implies icon_code_points(
                segment,
            ).contains(#[trigger] segment[i]) by {
            segment.lemma_filter_contains(pred, i);
        }
        assert(!f.contains(VARIATION_SELECTOR_16)) by {
            if f.contains(VARIATION_SELECTOR_16) {
                let k = choose|k: int| 0 <= k < f.len() && f[k] == VARIATION_SELECTOR_16;
                segment.lemma_filter_pred(pred, k);
            }
        }
        if !segment.contains(VARIATION_SELECTOR_16) {
            lemma_filter_keeps_all(segment);
        }
        assert(!f.contains(ZERO_WIDTH_JOINER)) by {
            if f.contains(ZERO_WIDTH_JOINER) {
                segment.lemma_filter_contains_rev(pred, ZERO_WIDTH_JOINER);
            }
        }
        lemma_filter_keeps_all(f);
    }
}

/// Filtering out selectors keeps a sequence that has none.
proof fn lemma_filter_keeps_all(s: Seq<char>)
    requires
        !s.contains(VARIATION_SELECTOR_16),
    ensures
        s.filter(not_variation_selector()) == s,
    decreases s.len(),
{
    reveal(Seq::filter);
    if s.len() > 0 {
        assert(!s.drop_last().contains(VARIATION_SELECTOR_16)) by {
            if s.drop_last().contains(VARIATION_SELECTOR_16) {
                let k = choose|k: int| 0 <= k < s.drop_last().len() && s.drop_last()[k] == VARIATION_SELECTOR_16;
                assert(s[k] == VARIATION_SELECTOR_16);
            }
        }
        lemma_filter_keeps_all(s.drop_last());
        assert(s.last() != VARIATION_SELECTOR_16) by {
            assert(s[s.len() - 1] == s.last());
        }
        assert(s.drop_last().push(s.last()) =~= s);
    }
}


fn hex_digit_char(d: u32) -> (c: char)
    requires
        d < 16,
    ensures
        c == hex_digit_lower(d as int),
{
    let digits = vec![
        '0', '1', '2', '3', '4', '5', '6', '7', '8', '9', 'a', 'b', 'c', 'd', 'e', 'f',
    ];
    proof {
        assert(digits@ =~= seq![
            '0', '1', '2', '3', '4', '5', '6', '7', '8', '9', 'a', 'b', 'c', 'd', 'e', 'f',
        ]);
    }
    digits[d as usize]
}

/// Appends `n` in lower-case hexadecimal to `out`.
pub fn push_hex_lower(out: &mut String, n: u32)
    ensures
        final(out)@ == old(out)@ + hex_lower(n as nat),
    decreases n,
{
    if n < 16 {
        push_char(out, hex_digit_char(n));
    } else {
        push_hex_lower(out, n / 16);
        push_char(out, hex_digit_char(n % 16));
    }
}

/// The icon code of `segment`.
pub fn emoji_icon_code(segment: &Vec<char>) -> (code: String)
    ensures
        code@ == icon_code(segment@),
{
    let mut has_zwj = false;
    let mut i: usize = 0;
    while i < segment.len()
        invariant
            0 <= i <= segment@.len(),
            has_zwj <==> (exists|k: int| 0 <= k < i && segment@[k] == ZERO_WIDTH_JOINER),
        decreases segment@.len() - i,
    {
        if segment[i] == ZERO_WIDTH_JOINER {
            has_zwj = true;
        }
        i += 1;
    }
    proof {
        if has_zwj {
            let k = choose|k: int| 0 <= k < i && segment@[k] == ZERO_WIDTH_JOINER;
            assert(segment@.contains(ZERO_WIDTH_JOINER));
        }
        if segment@.contains(ZERO_WIDTH_JOINER) {
            let k = choose|k: int| 0 <= k < segment@.len() && segment@[k] == ZERO_WIDTH_JOINER;
            assert(has_zwj);
        }
    }
    let mut points: Vec<char> = Vec::new();
    let mut j: usize = 0;
    while j < segment.len()
        invariant
            0 <= j <= segment@.len(),
            has_zwj == segment@.contains(ZERO_WIDTH_JOINER),
            has_zwj ==> points@ == segment@.subrange(0, j as int),
            !has_zwj ==> points@ == segment@.subrange(0, j as int).filter(not_variation_selector()),
        decreases segment@.len() - j,
    {
        proof {
            let a = segment@.subrange(0, j as int);
            let b = segment@.subrange(0, j + 1);
            assert(b.drop_last() =~= a);
            assert(b.last() == segment@[j as int]);
            let f = not_variation_selector();
            assert(b =~= a.push(segment@[j as int]));
            a.lemma_filter_push(segment@[j as int], f);
            assert(b.filter(f) == if f(b.last()) {
                a.filter(f).push(b.last())
            } else {
                a.filter(f)
            });
        }
        if has_zwj || segment[j] != VARIATION_SELECTOR_16 {
            points.push(segment[j]);
        }
        j += 1;
        proof {
            let b = segment@.subrange(0, j as int);
            if has_zwj {
                assert(points@ =~= b);
            }
        }
    }
    assert(segment@.subrange(0, segment@.len() as int) =~= segment@);
    assert(points@ == icon_code_points(segment@));
    let mut code = String::new();
    let mut k: usize = 0;
    while k < points.len()
        invariant
            0 <= k <= points@.len(),
            code@ == join_hex(points@.subrange(0, k as int)),
        decreases points@.len() - k,
    {
        proof {
            let b = points@.subrange(0, k + 1);
            assert(b.drop_last() =~= points@.subrange(0, k as int));
            assert(b.last() == points@[k as int]);
            if k == 0 {
                assert(points@.subrange(0, 0).len() == 0);
            }
        }
        if k > 0 {
            push_char(&mut code, '-');
        }
        let point: u32 = points[k] as u32;
        push_hex_lower(&mut code, point);
        k += 1;
    }
    assert(points@.subrange(0, points@.len() as int) =~= points@);
    assert(segment@.subrange(0, segment@.len() as int) =~= segment@);
    code
}

pub open spec fn ascii_upper(c: char) -> char {
    if 'a' <= c && c <= 'z' {
        ((c as u32) - 32) as char
    } else {
        c
    }
}

pub open spec fn ascii_upper_seq(s: Seq<char>) -> Seq<char> {
    Seq::new(s.len(), |i: int| ascii_upper(s[i]))
}

/// `s` with every `-` replaced by `_`.
pub open spec fn dashes_to_underscores(s: Seq<char>) -> Seq<char> {
    Seq::new(s.len(), |i: int| if s[i] == '-' { '_' } else { s[i] })
}

/// The image URL that draws the emoji `segment` in the set `emoji_type`.
pub open spec fn emoji_image_url(emoji_type: EmojiType, segment: Seq<char>) -> Seq<char> {
    let code = icon_code(segment);
    match emoji_type {
        EmojiType::Twemoji => "https://cdn.jsdelivr.net/gh/jdecked/twemoji@17.0.2/assets/svg/"@
            + ascii_lower_seq(code) + ".svg"@,
        EmojiType::Openmoji => "https://cdn.jsdelivr.net/npm/@svgmoji/openmoji@2.0.0/svg/"@
            + ascii_upper_seq(code) + ".svg"@,
        EmojiType::Blobmoji => "https://cdn.jsdelivr.net/npm/@svgmoji/blob@2.0.0/svg/"@
            + ascii_upper_seq(code) + ".svg"@,
        EmojiType::Noto => "https://cdn.jsdelivr.net/gh/googlefonts/noto-emoji@v2.051/svg/emoji_u"@
            + dashes_to_underscores(ascii_lower_seq(code)) + ".svg"@,
        EmojiType::Fluent => "https://cdn.jsdelivr.net/gh/shuding/fluentui-emoji-unicode/assets/"@
            + ascii_lower_seq(code) + "_color.svg"@,
        EmojiType::FluentFlat => "https://cdn.jsdelivr.net/gh/shuding/fluentui-emoji-unicode/assets/"@
            + ascii_lower_seq(code) + "_flat.svg"@,
    }
}

/// The three ways the icon code is spelled in URLs.
enum CodeCase {
    Lower,
    Upper,
    LowerUnderscored,
}

fn spelled(code: &String, case: CodeCase) -> (r: String)
    ensures
        case is Lower ==> r@ == ascii_lower_seq(code@),
        case is Upper ==> r@ == ascii_upper_seq(code@),
        case is LowerUnderscored ==> r@ == dashes_to_underscores(ascii_lower_seq(code@)),
{
    let v = chars_of(code.as_str());
    let mut out: Vec<char> = Vec::new();
    let mut i: usize = 0;
    while i < v.len()
        invariant
            0 <= i <= v@.len(),
            v@ == code@,
            out@.len() == i,
            forall|j: int|
                0 <= j < i ==> #[trigger] out@[j] == (match case {
                    CodeCase::Lower => ascii_lower(v@[j]),
                    CodeCase::Upper => ascii_upper(v@[j]),
                    CodeCase::LowerUnderscored => if ascii_lower(v@[j]) == '-' {
                        '_'
                    } else {
                        ascii_lower(v@[j])
                    },
                }),
        decreases v@.len() - i,
    {
        let c = v[i];
        let mapped = match case {
            CodeCase::Lower => crate::text::ascii_lower_char(c),
            CodeCase::Upper => ascii_upper_char(c),
            CodeCase::LowerUnderscored => {
                let l = crate::text::ascii_lower_char(c);
                if l == '-' {
                    '_'
                } else {
                    l
                }
            },
        };
        out.push(mapped);
        i += 1;
    }
    let r = string_of(&out);
    proof {
        match case {
            CodeCase::Lower => assert(r@ =~= ascii_lower_seq(code@)),
            CodeCase::Upper => assert(r@ =~= ascii_upper_seq(code@)),
            CodeCase::LowerUnderscored => assert(r@ =~= dashes_to_underscores(
                ascii_lower_seq(code@),
            )),
        }
    }
    r
}

fn ascii_upper_char(c: char) -> (r: char)
    ensures
        r == ascii_upper(c),
{
    if 'a' <= c && c <= 'z' {
        let code: u32 = c as u32;
        let b: u8 = (code - 32) as u8;
        b as char
    } else {
        c
    }
}

impl EmojiType {
    /// The image URL for the emoji `icon`.
    pub fn image_url(self, icon: &Vec<char>) -> (url: String)
        ensures
            url@ == emoji_image_url(self, icon@),
    {
        let code = emoji_icon_code(icon);
        let mut url = String::new();
        match self {
            EmojiType::Twemoji => {
                url.append("https://cdn.jsdelivr.net/gh/jdecked/twemoji@17.0.2/assets/svg/");
                url.append(spelled(&code, CodeCase::Lower).as_str());
                url.append(".svg");
            },
            EmojiType::Openmoji => {
                url.append("https://cdn.jsdelivr.net/npm/@svgmoji/openmoji@2.0.0/svg/");
                url.append(spelled(&code, CodeCase::Upper).as_str());
                url.append(".svg");
            },
            EmojiType::Blobmoji => {
                url.append("https://cdn.jsdelivr.net/npm/@svgmoji/blob@2.0.0/svg/");
                url.append(spelled(&code, CodeCase::Upper).as_str());
                url.append(".svg");
            },
            EmojiType::Noto => {
                url.append("https://cdn.jsdelivr.net/gh/googlefonts/noto-emoji@v2.051/svg/emoji_u");
                url.append(spelled(&code, CodeCase::LowerUnderscored).as_str());
                url.append(".svg");
            },
            EmojiType::Fluent => {
                url.append("https://cdn.jsdelivr.net/gh/shuding/fluentui-emoji-unicode/assets/");
                url.append(spelled(&code, CodeCase::Lower).as_str());
                url.append("_color.svg");
            },
            EmojiType::FluentFlat => {
                url.append("https://cdn.jsdelivr.net/gh/shuding/fluentui-emoji-unicode/assets/");
                url.append(spelled(&code, CodeCase::Lower).as_str());
                url.append("_flat.svg");
            },
        }
        url
    }
}

/// The extended grapheme clusters of a text, in order, as
/// `unicode-segmentation` splits it.
pub uninterp spec fn grapheme_clusters(text: Seq<char>) -> Seq<Seq<char>>;

/// `UnicodeSegmentation::graphemes(text, true)`, each cluster copied into a
/// `String`. Claims only that the clusters are those named by
/// `grapheme_clusters`, a function of the text alone.
#[verifier::external_body]
fn graphemes_of(text: &str) -> (clusters: Vec<String>)
    ensures
        clusters@.len() == grapheme_clusters(text@).len(),
        forall|i: int|
            0 <= i < clusters@.len() ==> #[trigger] clusters@[i]@ == grapheme_clusters(text@)[i],
{
    text.graphemes(true).map(String::from).collect()
}

/// A run of a text after emoji extraction: plain text, or the image URL of
/// one emoji.
#[derive(Debug)]
pub enum EmojiPiece {
    Text(String),
    Image(String),
}

pub enum EmojiPieceView {
    Text(Seq<char>),
    Image(Seq<char>),
}

impl View for EmojiPiece {
    type V = EmojiPieceView;

    open spec fn view(&self) -> EmojiPieceView {
        match self {
            EmojiPiece::Text(t) => EmojiPieceView::Text(t@),
            EmojiPiece::Image(u) => EmojiPieceView::Image(u@),
        }
    }
}

/// The pieces finished after the first `n` clusters, the text gathered since
/// the last emoji, and whether an emoji was seen.
pub open spec fn split_state(
    clusters: Seq<Seq<char>>,
    emoji_type: EmojiType,
    n: int,
) -> (Seq<EmojiPieceView>, Seq<char>, bool)
    decreases n,
{
    if n <= 0 {
        (Seq::empty(), Seq::empty(), false)
    } else {
        let (pieces, current, found) = split_state(clusters, emoji_type, n - 1);
        let cluster = clusters[n - 1];
        if is_emoji_seq(cluster) {
            let flushed = if current.len() > 0 {
                pieces.push(EmojiPieceView::Text(current))
            } else {
                pieces
            };
            (flushed.push(EmojiPieceView::Image(emoji_image_url(emoji_type, cluster))), Seq::empty(), true)
        } else {
            (pieces, current + cluster, found)
        }
    }
}

/// The text split around its emoji, or `None` when it holds none.
pub open spec fn split_emoji(clusters: Seq<Seq<char>>, emoji_type: EmojiType) -> Option<
    Seq<EmojiPieceView>,
> {
    let (pieces, current, found) = split_state(clusters, emoji_type, clusters.len() as int);
    if found {
        Some(
            if current.len() > 0 {
                pieces.push(EmojiPieceView::Text(current))
            } else {
                pieces
            },
        )
    } else {
        None
    }
}

/// Splits `text` into text runs and emoji images; `None` when the text has
/// no emoji.
pub fn split_text_to_pieces(text: &str, emoji_type: EmojiType) -> (r: Option<Vec<EmojiPiece>>)
    ensures
        r matches Some(pieces) ==> split_emoji(grapheme_clusters(text@), emoji_type) == Some(
            pieces@.map_values(|p: EmojiPiece| p@),
        ),
        r is None ==> split_emoji(grapheme_clusters(text@), emoji_type) is None,
{
    let clusters = graphemes_of(text);
    let ghost cs = grapheme_clusters(text@);
    let mut pieces: Vec<EmojiPiece> = Vec::new();
    let mut current = String::new();
    let mut found = false;
    let mut i: usize = 0;
    while i < clusters.len()
        invariant
            0 <= i <= clusters@.len(),
            clusters@.len() == cs.len(),
            forall|k: int| 0 <= k < clusters@.len() ==> #[trigger] clusters@[k]@ == cs[k],
            split_state(cs, emoji_type, i as int) == (
                pieces@.map_values(|p: EmojiPiece| p@),
                current@,
                found,
            ),
        decreases clusters@.len() - i,
    {
        let segment = chars_of(clusters[i].as_str());
        if is_emoji_segment(&segment) {
            found = true;
            if !current.as_str().is_empty() {
                let flushed = EmojiPiece::Text(current);
                pieces.push(flushed);
                current = String::new();
            }
            pieces.push(EmojiPiece::Image(emoji_type.image_url(&segment)));
        } else {
            current.append(clusters[i].as_str());
        }
        i += 1;
        proof {
            assert(pieces@.map_values(|p: EmojiPiece| p@) =~= split_state(cs, emoji_type, i as int).0);
        }
    }
    if !found {
        return None;
    }
    if !current.as_str().is_empty() {
        pieces.push(EmojiPiece::Text(current));
    }
    proof {
        assert(pieces@.map_values(|p: EmojiPiece| p@) =~= split_emoji(cs, emoji_type)->0);
    }
    Some(pieces)
}

} // verus!
