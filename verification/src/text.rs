//! Decimal numbers and plain text: how counts are written, how typed page
//! numbers are read, and the character-level searches the note list needs.

use vstd::prelude::*;
use vstd::string::is_ascii;
use vstd::utf8::is_ascii_chars;

verus! {

/// `c` is an ASCII decimal digit.
pub open spec fn is_digit(c: char) -> bool {
    '0' <= c && c <= '9'
}

/// The value of the ASCII digit `c`.
pub open spec fn digit_value(c: char) -> int {
    c as int - '0' as int
}

/// The ASCII digit for `d`, which is below ten.
pub open spec fn digit_char(d: nat) -> char {
    (d + '0' as nat) as char
}

/// Every character of `s` is an ASCII digit.
pub open spec fn all_digits(s: Seq<char>) -> bool {
    forall|i: int| 0 <= i < s.len() ==> is_digit(#[trigger] s[i])
}

/// The number that the digits `s` spell, most significant first.
pub open spec fn digits_value(s: Seq<char>) -> int
    decreases s.len(),
{
    if s.len() == 0 {
        0
    } else {
        digits_value(s.drop_last()) * 10 + digit_value(s.last())
    }
}

/// The decimal digits of `n`, most significant first, with no leading zero.
pub open spec fn decimal(n: nat) -> Seq<char>
    decreases n,
{
    if n < 10 {
        seq![digit_char(n)]
    } else {
        decimal(n / 10).push(digit_char(n % 10))
    }
}

/// The digits of an unsigned number as written: one leading `+` may stand
/// before them.
pub open spec fn unsigned_digits(s: Seq<char>) -> Seq<char> {
    if s.len() > 0 && s[0] == '+' {
        s.drop_first()
    } else {
        s
    }
}

/// What reading `s` as a `u32` gives: the value of its digits when there is
/// at least one digit after the optional `+`, all are digits, and the value
/// fits; nothing otherwise.
pub open spec fn parsed_u32(s: Seq<char>) -> Option<u32> {
    let d = unsigned_digits(s);
    if d.len() > 0 && all_digits(d) && digits_value(d) <= u32::MAX {
        Some(digits_value(d) as u32)
    } else {
        None
    }
}

/// `needle` occurs in `hay` as a run of consecutive characters.
pub open spec fn contains_text(hay: Seq<char>, needle: Seq<char>) -> bool {
    exists|i: int|
        0 <= i && i + needle.len() <= hay.len() && #[trigger] hay.subrange(i, i + needle.len())
            == needle
}

/// The lower-case form of the text `s` as Unicode defines it
/// (`str::to_lowercase`), including its context rules such as the
/// word-final sigma.
pub uninterp spec fn lowercase_chars(s: Seq<char>) -> Seq<char>;

/// The lower-case form of `s` (`str::to_lowercase`). The Unicode case
/// mapping itself is not stated; the result is named `lowercase_chars` of
/// the text, a function of the text alone. The library calls it only on
/// text that is not ASCII.
#[verifier::external_body]
pub(crate) fn to_lowercase(s: &str) -> (r: String)
    ensures
        r@ == lowercase_chars(s@),
{
    s.to_lowercase()
}

/// The small letters, in alphabetical order.
pub open spec fn small_letters() -> Seq<char> {
    "abcdefghijklmnopqrstuvwxyz"@
}

/// `c` is an ASCII capital letter.
pub open spec fn is_ascii_capital(c: char) -> bool {
    'A' <= c && c <= 'Z'
}

/// The lower-case form of an ASCII character: a capital letter becomes the
/// small letter at the same place in the alphabet; anything else stays.
pub open spec fn ascii_lower(c: char) -> char {
    if is_ascii_capital(c) {
        small_letters()[c as int - 'A' as int]
    } else {
        c
    }
}

/// The lower-case form of a text, as `str::to_lowercase` gives it: ASCII
/// text has each capital replaced by its small letter, one for one; any
/// other text is lower-cased as Unicode defines it.
pub open spec fn text_lowercase(s: Seq<char>) -> Seq<char> {
    if is_ascii_chars(s) {
        s.map_values(|c: char| ascii_lower(c))
    } else {
        lowercase_chars(s)
    }
}

/// The lower-case form of `s`, as `str::to_lowercase` gives it.
pub fn lowercase_text(s: &str) -> (r: String)
    ensures
        r@ == text_lowercase(s@),
{
    if !s.is_ascii() {
        return to_lowercase(s);
    }
    let chars = chars_of(s);
    let n = chars.len();
    let alphabet = "abcdefghijklmnopqrstuvwxyz";
    proof {
        reveal_strlit("abcdefghijklmnopqrstuvwxyz");
    }
    assert(is_ascii(alphabet));
    assert(small_letters().len() == 26);
    let ghost lowered = s@.map_values(|c: char| ascii_lower(c));
    let mut r = String::new();
    let mut i: usize = 0;
    while i < n
        invariant
            chars@ == s@,
            n == s@.len(),
            is_ascii(s),
            is_ascii(alphabet),
            alphabet@ == small_letters(),
            small_letters().len() == 26,
            lowered == s@.map_values(|c: char| ascii_lower(c)),
            i <= n,
            r@ == lowered.take(i as int),
        decreases n - i,
    {
        let c = chars[i];
        assert(lowered[i as int] == ascii_lower(c));
        let piece = if 'A' <= c && c <= 'Z' {
            let k = (c as u32 - 'A' as u32) as usize;
            assert(k as int == c as int - 'A' as int);
            let p = alphabet.substring_ascii(k, k + 1);
            assert(p@ =~= seq![small_letters()[k as int]]);
            p
        } else {
            let p = s.substring_ascii(i, i + 1);
            assert(p@ =~= seq![c]);
            p
        };
        assert(piece@ =~= seq![lowered[i as int]]);
        r.append(piece);
        assert(lowered.take(i + 1) =~= lowered.take(i as int).push(lowered[i as int]));
        i = i + 1;
    }
    assert(lowered.take(n as int) =~= lowered);
    r
}

/// Lower-casing ASCII text keeps its length, leaves every character that is
/// not a capital letter as it is, and turns each capital letter into the
/// small letter 32 code points above it.
pub proof fn lemma_ascii_lowercase(s: Seq<char>)
    requires
        is_ascii_chars(s),
    ensures
        text_lowercase(s).len() == s.len(),
        forall|i: int|
            0 <= i < s.len() && !is_ascii_capital(s[i]) ==> #[trigger] text_lowercase(s)[i]
                == s[i],
        forall|i: int|
            0 <= i < s.len() && is_ascii_capital(s[i]) ==> #[trigger] text_lowercase(s)[i] as int
                == s[i] as int + 32 && !is_ascii_capital(text_lowercase(s)[i]),
{
    assert forall|i: int|
        0 <= i < s.len() && is_ascii_capital(s[i]) implies #[trigger] text_lowercase(s)[i] as int
        == s[i] as int + 32 && !is_ascii_capital(text_lowercase(s)[i]) by {
        lemma_small_letter(s[i] as int - 'A' as int);
    }
}

/// The small letter at place `k` is 97 + `k` in code points.
proof fn lemma_small_letter(k: int)
    requires
        0 <= k < 26,
    ensures
        small_letters()[k] as int == 'a' as int + k,
{
    reveal_strlit("abcdefghijklmnopqrstuvwxyz");
    let t = small_letters();
    assert(t[0] == 'a' && t[1] == 'b' && t[2] == 'c' && t[3] == 'd' && t[4] == 'e' && t[5] == 'f'
        && t[6] == 'g' && t[7] == 'h' && t[8] == 'i' && t[9] == 'j' && t[10] == 'k' && t[11]
        == 'l' && t[12] == 'm');
    assert(t[13] == 'n' && t[14] == 'o' && t[15] == 'p' && t[16] == 'q' && t[17] == 'r' && t[18]
        == 's' && t[19] == 't' && t[20] == 'u' && t[21] == 'v' && t[22] == 'w' && t[23] == 'x'
        && t[24] == 'y' && t[25] == 'z');
}

/// The one-character text of the ASCII digit for `d`.
fn digit_text(d: u64) -> (t: &'static str)
    requires
        d < 10,
    ensures
        t@ == seq![digit_char(d as nat)],
{
    proof {
        reveal_strlit("0");
        reveal_strlit("1");
        reveal_strlit("2");
        reveal_strlit("3");
        reveal_strlit("4");
        reveal_strlit("5");
        reveal_strlit("6");
        reveal_strlit("7");
        reveal_strlit("8");
        reveal_strlit("9");
    }
    let t = match d {
        0 => "0",
        1 => "1",
        2 => "2",
        3 => "3",
        4 => "4",
        5 => "5",
        6 => "6",
        7 => "7",
        8 => "8",
        _ => "9",
    };
    assert(t@ =~= seq![digit_char(d as nat)]);
    t
}

/// Writes `n` in decimal.
pub fn decimal_text(n: u64) -> (s: String)
    ensures
        s@ == decimal(n as nat),
    decreases n,
{
    if n < 10 {
        String::from_str(digit_text(n))
    } else {
        let mut s = decimal_text(n / 10);
        s.append(digit_text(n % 10));
        s
    }
}

/// The characters of `s`, in order.
pub fn chars_of(s: &str) -> (v: Vec<char>)
    ensures
        v@ == s@,
{
    let n = s.unicode_len();
    let mut v: Vec<char> = Vec::new();
    let mut i: usize = 0;
    while i < n
        invariant
            n == s@.len(),
            i <= n,
            v@ == s@.take(i as int),
        decreases n - i,
    {
        v.push(s.get_char(i));
        assert(s@.take(i + 1) =~= s@.take(i as int).push(s@[i as int]));
        i = i + 1;
    }
    assert(s@.take(n as int) =~= s@);
    v
}

/// Digits that follow digits give a number at least as large.
pub proof fn lemma_digits_value_monotone(s: Seq<char>, k: int)
    requires
        all_digits(s),
        0 <= k <= s.len(),
    ensures
        digits_value(s.take(k)) <= digits_value(s),
        0 <= digits_value(s),
    decreases s.len(),
{
    if s.len() == 0 {
        assert(s.take(k) =~= s);
    } else if k == s.len() {
        assert(s.take(k) =~= s);
        lemma_digits_value_monotone(s.drop_last(), 0);
    } else {
        lemma_digits_value_monotone(s.drop_last(), k);
        assert(s.drop_last().take(k) =~= s.take(k));
    }
}

/// The digits of `n` are digits, and they spell `n`.
pub proof fn lemma_decimal_digits(n: nat)
    ensures
        decimal(n).len() > 0,
        all_digits(decimal(n)),
        digits_value(decimal(n)) == n,
    decreases n,
{
    if n < 10 {
        assert(decimal(n).drop_last() =~= Seq::<char>::empty());
        assert(digit_value(digit_char(n)) == n);
        assert(digits_value(decimal(n).drop_last()) == 0);
    } else {
        assert(digit_value(digit_char(n % 10)) == n % 10);
        assert((n / 10) * 10 + n % 10 == n);
        lemma_decimal_digits(n / 10);
        let d = decimal(n);
        assert(d.drop_last() =~= decimal(n / 10));
        assert(d.last() == digit_char(n % 10));
        assert(digits_value(d) == digits_value(decimal(n / 10)) * 10 + digit_value(d.last()));
        assert forall|i: int| 0 <= i < d.len() implies is_digit(#[trigger] d[i]) by {
            if i < d.len() - 1 {
                assert(d[i] == decimal(n / 10)[i]);
            }
        }
    }
}

/// Reading back the decimal text of a `u32` gives the same number.
pub proof fn lemma_parse_decimal_roundtrip(n: u32)
    ensures
        parsed_u32(decimal(n as nat)) == Some(n),
{
    lemma_decimal_digits(n as nat);
    let d = decimal(n as nat);
    assert(is_digit(d[0]));
    assert(unsigned_digits(d) == d);
}

/// Reads `s` as a `u32`, as `str::parse::<u32>` does.
pub fn parse_u32(s: &str) -> (r: Option<u32>)
    ensures
        r == parsed_u32(s@),
{
    let chars = chars_of(s);
    let len = chars.len();
    let start: usize = if len > 0 && chars[0] == '+' {
        1
    } else {
        0
    };
    let ghost d = unsigned_digits(s@);
    assert(d =~= s@.subrange(start as int, len as int));
    if start == len {
        return None;
    }
    let mut value: u64 = 0;
    let mut i: usize = start;
    while i < len
        invariant
            chars@ == s@,
            len == chars@.len(),
            start <= i <= len,
            d == chars@.subrange(start as int, len as int),
            d == unsigned_digits(s@),
            all_digits(d.take(i - start)),
            value == digits_value(d.take(i - start)),
            value <= u32::MAX,
        decreases len - i,
    {
        let c = chars[i];
        let ghost k = i - start;
        assert(d[k] == c);
        if !('0' <= c && c <= '9') {
            assert(!all_digits(d));
            return None;
        }
        let digit: u64 = (c as u64) - ('0' as u64);
        value = value * 10 + digit;
        assert(d.take(k + 1).drop_last() =~= d.take(k));
        assert(all_digits(d.take(k + 1)));
        i = i + 1;
        if value > 4294967295 {
            proof {
                if all_digits(d) {
                    lemma_digits_value_monotone(d, k + 1);
                }
            }
            return None;
        }
    }
    assert(d.take(len - start) =~= d);
    Some(value as u32)
}

/// Whether the characters `needle` occur in `hay` as a consecutive run.
pub fn contains_chars(hay: &Vec<char>, needle: &Vec<char>) -> (r: bool)
    ensures
        r == contains_text(hay@, needle@),
{
    let n = hay.len();
    let m = needle.len();
    if m > n {
        return false;
    }
    let mut i: usize = 0;
    while i <= n - m
        invariant
            n == hay@.len(),
            m == needle@.len(),
            m <= n,
            i <= n - m + 1,
            forall|j: int| 0 <= j < i ==> #[trigger] hay@.subrange(j, j + m) != needle@,
        decreases n - m + 1 - i,
    {
        let mut k: usize = 0;
        let mut same = true;
        while k < m
            invariant
                n == hay@.len(),
                m == needle@.len(),
                i + m <= n,
                k <= m,
                same == (forall|t: int| 0 <= t < k ==> hay@[i + t] == needle@[t]),
            decreases m - k,
        {
            if hay[i + k] != needle[k] {
                same = false;
            }
            k = k + 1;
        }
        if same {
            assert(hay@.subrange(i as int, i + m) =~= needle@);
            return true;
        }
        assert(hay@.subrange(i as int, i + m)[0] == hay@[i as int + 0]);
        assert(hay@.subrange(i as int, i + m) != needle@) by {
            let t = choose|t: int| 0 <= t < m && hay@[i + t] != needle@[t];
            assert(hay@.subrange(i as int, i + m)[t] == hay@[i + t]);
        }
        i = i + 1;
    }
    assert forall|j: int|
        0 <= j && j + needle@.len() <= hay@.len() implies #[trigger] hay@.subrange(
        j,
        j + needle@.len(),
    ) != needle@ by {
        assert(j < i);
    }
    false
}

} // verus!
