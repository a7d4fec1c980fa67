//! Character and string helpers: Unicode trimming, ASCII case folding,
//! prefix tests and lowercase hex.

use vstd::prelude::*;

verus! {

/// The Unicode `White_Space` property, which is what `char::is_whitespace` tests.
pub open spec fn is_white_space(c: char) -> bool {
    let n = c as u32;
    ||| 0x9 <= n <= 0xd
    ||| n == 0x20
    ||| n == 0x85
    ||| n == 0xa0
    ||| n == 0x1680
    ||| 0x2000 <= n <= 0x200a
    ||| n == 0x2028
    ||| n == 0x2029
    ||| n == 0x202f
    ||| n == 0x205f
    ||| n == 0x3000
}

pub fn char_is_white_space(c: char) -> (r: bool)
    ensures
        r == is_white_space(c),
{
    let n = c as u32;
    (0x9 <= n && n <= 0xd) || n == 0x20 || n == 0x85 || n == 0xa0 || n == 0x1680 || (0x2000 <= n
        && n <= 0x200a) || n == 0x2028 || n == 0x2029 || n == 0x202f || n == 0x205f || n == 0x3000
}

/// `s` without its leading white space.
pub open spec fn trim_start_seq(s: Seq<char>) -> Seq<char>
    decreases s.len(),
{
    if s.len() > 0 && is_white_space(s[0]) {
        trim_start_seq(s.drop_first())
    } else {
        s
    }
}

/// `s` without its trailing white space.
pub open spec fn trim_end_seq(s: Seq<char>) -> Seq<char>
    decreases s.len(),
{
    if s.len() > 0 && is_white_space(s.last()) {
        trim_end_seq(s.drop_last())
    } else {
        s
    }
}

/// `s` without leading and trailing white space, as `str::trim` returns it.
pub open spec fn trim_seq(s: Seq<char>) -> Seq<char> {
    trim_end_seq(trim_start_seq(s))
}

/// A sequence with no white space at either end is its own trim.
pub proof fn lemma_trim_seq_unchanged(s: Seq<char>)
    requires
        s.len() > 0 ==> !is_white_space(s[0]) && !is_white_space(s.last()),
    ensures
        trim_seq(s) == s,
{
}

/// Trimming twice trims no more than trimming once.
pub proof fn lemma_trim_seq_idempotent(s: Seq<char>)
    ensures
        trim_seq(trim_seq(s)) == trim_seq(s),
    decreases s.len(),
{
    lemma_trim_start_ends(s);
    let t = trim_start_seq(s);
    lemma_trim_end_keeps_start(t);
    lemma_trim_end_ends(t);
    lemma_trim_seq_unchanged(trim_end_seq(t));
}

proof fn lemma_trim_start_ends(s: Seq<char>)
    ensures
        trim_start_seq(s).len() > 0 ==> !is_white_space(trim_start_seq(s)[0]),
    decreases s.len(),
{
    if s.len() > 0 && is_white_space(s[0]) {
        lemma_trim_start_ends(s.drop_first());
    }
}

proof fn lemma_trim_end_ends(s: Seq<char>)
    ensures
        trim_end_seq(s).len() > 0 ==> !is_white_space(trim_end_seq(s).last()),
    decreases s.len(),
{
    if s.len() > 0 && is_white_space(s.last()) {
        lemma_trim_end_ends(s.drop_last());
    }
}

proof fn lemma_trim_end_keeps_start(s: Seq<char>)
    requires
        s.len() > 0 ==> !is_white_space(s[0]),
    ensures
        trim_end_seq(s).len() > 0 ==> trim_end_seq(s)[0] == s[0],
        trim_end_seq(s).len() <= s.len(),
    decreases s.len(),
{
    if s.len() > 0 && is_white_space(s.last()) {
        let d = s.drop_last();
        if d.len() > 0 {
            assert(d[0] == s[0]);
        }
        lemma_trim_end_keeps_start(d);
    }
}

/// Removes leading and trailing white space, as `str::trim` does.
pub fn trim<'a>(s: &'a str) -> (r: &'a str)
    ensures
        r@ == trim_seq(s@),
{
    let n = s.unicode_len();
    let mut i: usize = 0;
    assert(s@.subrange(0, n as int) =~= s@);
    while i < n && char_is_white_space(s.get_char(i))
        invariant
            i <= n,
            n == s@.len(),
            trim_start_seq(s@.subrange(i as int, n as int)) == trim_start_seq(s@),
        decreases n - i,
    {
        let ghost rest = s@.subrange(i as int, n as int);
        assert(rest.drop_first() =~= s@.subrange(i + 1, n as int));
        i = i + 1;
    }
    let ghost start = s@.subrange(i as int, n as int);
    assert(trim_start_seq(start) == start);
    let mut j: usize = n;
    assert(start.subrange(0, (j - i) as int) =~= start);
    while j > i && char_is_white_space(s.get_char(j - 1))
        invariant
            i <= j <= n,
            n == s@.len(),
            start == s@.subrange(i as int, n as int),
            trim_end_seq(s@.subrange(i as int, j as int)) == trim_end_seq(start),
        decreases j - i,
    {
        let ghost part = s@.subrange(i as int, j as int);
        assert(part.drop_last() =~= s@.subrange(i as int, j - 1));
        j = j - 1;
    }
    s.substring_char(i, j)
}

/// Equality of two string slices, character by character.
pub fn str_equal(a: &str, b: &str) -> (r: bool)
    ensures
        r == (a@ == b@),
{
    let n = a.unicode_len();
    let m = b.unicode_len();
    if n != m {
        return false;
    }
    let mut i: usize = 0;
    while i < n
        invariant
            i <= n,
            n == a@.len(),
            m == b@.len(),
            n == m,
            forall|k: int| 0 <= k < i ==> a@[k] == b@[k],
        decreases n - i,
    {
        if a.get_char(i) != b.get_char(i) {
            return false;
        }
        i = i + 1;
    }
    assert(a@ =~= b@);
    true
}

/// ASCII case folding of one character: `A`..=`Z` become `a`..=`z`, the rest stays.
pub open spec fn ascii_lower(c: char) -> char {
    if 'A' <= c <= 'Z' {
        ((c as u32) + 32) as char
    } else {
        c
    }
}

/// ASCII case folding of a sequence, as `str::to_ascii_lowercase` does it.
pub open spec fn ascii_lower_seq(s: Seq<char>) -> Seq<char> {
    s.map_values(|c: char| ascii_lower(c))
}

/// ASCII upper-casing of a character, as `char::to_ascii_uppercase` does it.
pub open spec fn ascii_upper(c: char) -> char {
    if 'a' <= c <= 'z' {
        ((c as u32) - 32) as char
    } else {
        c
    }
}

/// ASCII upper-casing of a sequence, as `str::to_ascii_uppercase` does it.
pub open spec fn ascii_upper_seq(s: Seq<char>) -> Seq<char> {
    s.map_values(|c: char| ascii_upper(c))
}

/// Upper-casing changes no white space, so it commutes with trimming the
/// start.
proof fn lemma_trim_start_upper(s: Seq<char>)
    ensures
        trim_start_seq(ascii_upper_seq(s)) == ascii_upper_seq(trim_start_seq(s)),
    decreases s.len(),
{
    let u = ascii_upper_seq(s);
    if s.len() > 0 {
        assert(u[0] == ascii_upper(s[0]));
        assert(is_white_space(u[0]) == is_white_space(s[0]));
        if is_white_space(s[0]) {
            assert(u.drop_first() =~= ascii_upper_seq(s.drop_first()));
            lemma_trim_start_upper(s.drop_first());
        }
    }
}

/// Upper-casing changes no white space, so it commutes with trimming the end.
proof fn lemma_trim_end_upper(s: Seq<char>)
    ensures
        trim_end_seq(ascii_upper_seq(s)) == ascii_upper_seq(trim_end_seq(s)),
    decreases s.len(),
{
    let u = ascii_upper_seq(s);
    if s.len() > 0 {
        assert(u.last() == ascii_upper(s.last()));
        assert(is_white_space(u.last()) == is_white_space(s.last()));
        if is_white_space(s.last()) {
            assert(u.drop_last() =~= ascii_upper_seq(s.drop_last()));
            lemma_trim_end_upper(s.drop_last());
        }
    }
}

/// Trimming an upper-cased string gives the upper-cased trim.
pub proof fn lemma_trim_upper(s: Seq<char>)
    ensures
        trim_seq(ascii_upper_seq(s)) == ascii_upper_seq(trim_seq(s)),
{
    lemma_trim_start_upper(s);
    lemma_trim_end_upper(trim_start_seq(s));
}

/// `p` is a prefix of `s`.
pub open spec fn starts_with_seq(s: Seq<char>, p: Seq<char>) -> bool {
    p.len() <= s.len() && s.subrange(0, p.len() as int) == p
}

/// Whether `s`, folded to ASCII lowercase, starts with `prefix`.
pub fn starts_with_ascii_lowercase(s: &str, prefix: &str) -> (r: bool)
    ensures
        r == starts_with_seq(ascii_lower_seq(s@), prefix@),
{
    let n = s.unicode_len();
    let m = prefix.unicode_len();
    if m > n {
        return false;
    }
    let mut i: usize = 0;
    while i < m
        invariant
            i <= m <= n,
            n == s@.len(),
            m == prefix@.len(),
            forall|k: int| 0 <= k < i ==> ascii_lower(#[trigger] s@[k]) == prefix@[k],
        decreases m - i,
    {
        let c = s.get_char(i);
        let p = prefix.get_char(i);
        let same = if 'A' <= c && c <= 'Z' {
            (c as u32) + 32 == p as u32
        } else {
            c == p
        };
        if !same {
            assert(ascii_lower_seq(s@)[i as int] == ascii_lower(c));
            assert(ascii_lower_seq(s@).subrange(0, m as int)[i as int] != prefix@[i as int]);
            return false;
        }
        assert(ascii_lower(c) == p);
        i = i + 1;
    }
    assert(ascii_lower_seq(s@).subrange(0, m as int) =~= prefix@);
    true
}

/// The lowercase hex digit of a nibble.
pub open spec fn hex_digit(n: int) -> char {
    if 0 <= n < 10 {
        (48 + n) as char
    } else {
        (87 + n) as char
    }
}

/// Lowercase hex of a byte string, two digits per byte, high nibble first.
pub open spec fn hex_lower(data: Seq<u8>) -> Seq<char>
    decreases data.len(),
{
    if data.len() == 0 {
        Seq::empty()
    } else {
        seq![hex_digit(data[0] as int / 16), hex_digit(data[0] as int % 16)] + hex_lower(data.drop_first())
    }
}

/// The value that a lowercase hex digit stands for: `0`..`9` are 0 to 9 and
/// `a`..`f` are 10 to 15, by their ASCII codes.
pub open spec fn hex_value(c: char) -> int {
    if '0' <= c <= '9' {
        (c as int) - ('0' as int)
    } else {
        (c as int) - ('a' as int) + 10
    }
}

/// A character of the lowercase hex alphabet `0123456789abcdef`.
pub open spec fn is_lower_hex_digit(c: char) -> bool {
    ('0' <= c <= '9') || ('a' <= c <= 'f')
}

/// The bytes that a hex text spells, two digits per byte, high nibble first.
pub open spec fn hex_decode(s: Seq<char>) -> Seq<u8>
    decreases s.len(),
{
    if s.len() < 2 {
        Seq::empty()
    } else {
        seq![(hex_value(s[0]) * 16 + hex_value(s[1])) as u8] + hex_decode(s.subrange(2, s.len() as int))
    }
}

/// Each nibble is written as the digit of the hex alphabet with its value.
proof fn lemma_hex_digit_value(n: int)
    requires
        0 <= n < 16,
    ensures
        is_lower_hex_digit(hex_digit(n)),
        hex_value(hex_digit(n)) == n,
{
    if n < 10 {
        assert(((48 + n) as char) as int == 48 + n);
    } else {
        assert(((87 + n) as char) as int == 87 + n);
    }
}

/// Lowercase hex, as `hex::encode` writes it, is two characters of the
/// alphabet `0123456789abcdef` per byte and spells the bytes back: reading the
/// text as hex gives the data it was written from.
pub proof fn law_hex_lower_spells_the_bytes(data: Seq<u8>)
    ensures
        hex_lower(data).len() == 2 * data.len(),
        forall|i: int| 0 <= i < hex_lower(data).len() ==> is_lower_hex_digit(#[trigger] hex_lower(data)[i]),
        hex_decode(hex_lower(data)) == data,
    decreases data.len(),
{
    if data.len() > 0 {
        let b = data[0] as int;
        let rest = data.drop_first();
        law_hex_lower_spells_the_bytes(rest);
        lemma_hex_digit_value(b / 16);
        lemma_hex_digit_value(b % 16);
        let head = seq![hex_digit(b / 16), hex_digit(b % 16)];
        let t = hex_lower(data);
        assert(t == head + hex_lower(rest));
        assert forall|i: int| 0 <= i < t.len() implies is_lower_hex_digit(#[trigger] t[i]) by {
            if i >= 2 {
                assert(t[i] == hex_lower(rest)[i - 2]);
            }
        }
        assert(t.subrange(2, t.len() as int) =~= hex_lower(rest));
        assert((hex_value(t[0]) * 16 + hex_value(t[1])) as u8 == data[0]) by (nonlinear_arith)
            requires
                hex_value(t[0]) == b / 16,
                hex_value(t[1]) == b % 16,
                b == data[0] as int,
                0 <= b < 256,
        ;
        assert(hex_decode(t) =~= data);
    } else {
        assert(hex_decode(hex_lower(data)) =~= data);
    }
}

/// The hex digit of a nibble, as a one-character string.
fn hex_digit_str(n: u8) -> (r: &'static str)
    requires
        n < 16,
    ensures
        r@ == seq![hex_digit(n as int)],
{
    proof {
        reveal_strlit("0");
        reveal_strlit("1");
        reveal_strlit("2");
        reveal_strlit("3");
        reveal_strlit("4");
        reveal_strlit("5");
        reveal_strlit("6");
        reveal_strlit("7");
        reveal_strlit("8");
        reveal_strlit("9");
        reveal_strlit("a");
        reveal_strlit("b");
        reveal_strlit("c");
        reveal_strlit("d");
        reveal_strlit("e");
        reveal_strlit("f");
    }
    match n {
        0 => "0",
        1 => "1",
        2 => "2",
        3 => "3",
        4 => "4",
        5 => "5",
        6 => "6",
        7 => "7",
        8 => "8",
        9 => "9",
        10 => "a",
        11 => "b",
        12 => "c",
        13 => "d",
        14 => "e",
        _ => "f",
    }
}

/// Appending a byte appends its two digits.
proof fn lemma_hex_lower_push(data: Seq<u8>, b: u8)
    ensures
        hex_lower(data.push(b)) == hex_lower(data) + seq![
            hex_digit(b as int / 16),
            hex_digit(b as int % 16),
        ],
    decreases data.len(),
{
    let tail = seq![hex_digit(b as int / 16), hex_digit(b as int % 16)];
    let pushed = data.push(b);
    if data.len() > 0 {
        let head = seq![hex_digit(data[0] as int / 16), hex_digit(data[0] as int % 16)];
        assert(pushed[0] == data[0]);
        assert(pushed.drop_first() =~= data.drop_first().push(b));
        lemma_hex_lower_push(data.drop_first(), b);
        assert(hex_lower(pushed) == head + hex_lower(pushed.drop_first()));
        assert(hex_lower(data) == head + hex_lower(data.drop_first()));
        assert(hex_lower(pushed) =~= hex_lower(data) + tail);
    } else {
        assert(pushed.drop_first() =~= Seq::<u8>::empty());
        assert(pushed[0] == b);
        assert(hex_lower(pushed.drop_first()) == Seq::<char>::empty());
        assert(hex_lower(data) == Seq::<char>::empty());
        assert(hex_lower(pushed) == tail + Seq::<char>::empty());
        assert(hex_lower(pushed) =~= hex_lower(data) + tail);
    }
}

/// Lowercase hex of a byte string, two digits per byte, high nibble first,
/// as `hex::encode` writes it.
pub(crate) fn hex_encode(data: &[u8]) -> (r: String)
    ensures
        r@ == hex_lower(data@),
{
    let mut out = String::new();
    let n = data.len();
    let mut i: usize = 0;
    assert(data@.subrange(0, 0) =~= Seq::<u8>::empty());
    while i < n
        invariant
            i <= n,
            n == data@.len(),
            out@ == hex_lower(data@.subrange(0, i as int)),
        decreases n - i,
    {
        let b = data[i];
        proof {
            lemma_hex_lower_push(data@.subrange(0, i as int), b);
            assert(data@.subrange(0, i as int).push(b) =~= data@.subrange(0, i as int + 1));
        }
        out.append(hex_digit_str(b / 16));
        out.append(hex_digit_str(b % 16));
        i = i + 1;
    }
    assert(data@.subrange(0, n as int) =~= data@);
    out
}

} // verus!
