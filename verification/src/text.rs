//! Small text utilities the rules need: decimal digits, ASCII case
//! folding, whitespace trimming and substring search over character
//! sequences.

use vstd::prelude::*;

verus! {

/// The character of a decimal digit `d` (`0 <= d < 10`).
pub open spec fn digit_char(d: int) -> char {
    if d == 0 {
        '0'
    } else if d == 1 {
        '1'
    } else if d == 2 {
        '2'
    } else if d == 3 {
        '3'
    } else if d == 4 {
        '4'
    } else if d == 5 {
        '5'
    } else if d == 6 {
        '6'
    } else if d == 7 {
        '7'
    } else if d == 8 {
        '8'
    } else {
        '9'
    }
}

/// The decimal representation of a natural number, without leading zeros.
pub open spec fn digits(n: nat) -> Seq<char>
    decreases n,
{
    if n < 10 {
        seq![digit_char(n as int)]
    } else {
        digits(n / 10) + seq![digit_char((n % 10) as int)]
    }
}

/// `n` rendered with exactly `width` digits, padded with leading zeros
/// (the lowest `width` digits when `n` is wider).
pub open spec fn padded_digits(n: nat, width: nat) -> Seq<char>
    decreases width,
{
    if width == 0 {
        Seq::empty()
    } else {
        padded_digits(n / 10, (width - 1) as nat) + seq![digit_char((n % 10) as int)]
    }
}

/// Every character of a zero-padded number is a decimal digit, and there
/// are `width` of them.
pub proof fn lemma_padded_digits_shape(n: nat, width: nat)
    ensures
        padded_digits(n, width).len() == width,
        forall|i: int| 0 <= i < width ==> '0' <= #[trigger] padded_digits(n, width)[i] <= '9',
    decreases width,
{
    if width > 0 {
        lemma_padded_digits_shape(n / 10, (width - 1) as nat);
        let s = padded_digits(n, width);
        assert forall|i: int| 0 <= i < width implies '0' <= #[trigger] s[i] <= '9' by {
            if i < width - 1 {
                assert(s[i] == padded_digits(n / 10, (width - 1) as nat)[i]);
            }
        }
    }
}

/// A zero-padded number of at least one digit has no white space to trim.
pub proof fn lemma_padded_digits_trimmed(n: nat, width: nat)
    requires
        width > 0,
    ensures
        trimmed(padded_digits(n, width)) == padded_digits(n, width),
{
    let s = padded_digits(n, width);
    lemma_padded_digits_shape(n, width);
    assert('0' <= s[0] <= '9');
    assert('0' <= s[s.len() - 1] <= '9');
    assert(!is_white_space(s[0]));
    assert(!is_white_space(s[s.len() - 1]));
}

/// A one-character string holding the digit `d`.
pub fn digit_str(d: u64) -> (s: &'static str)
    requires
        d < 10,
    ensures
        s@ == seq![digit_char(d as int)],
{
    proof {
        reveal_strlit("0");
        reveal_strlit("1");
        reveal_strlit("2");
        reveal_strlit("3");
        reveal_strlit("4");
        reveal_strlit("5");
        reveal_strlit("6");
        reveal_strlit("7");
        reveal_strlit("8");
        reveal_strlit("9");
    }
    if d == 0 {
        "0"
    } else if d == 1 {
        "1"
    } else if d == 2 {
        "2"
    } else if d == 3 {
        "3"
    } else if d == 4 {
        "4"
    } else if d == 5 {
        "5"
    } else if d == 6 {
        "6"
    } else if d == 7 {
        "7"
    } else if d == 8 {
        "8"
    } else {
        "9"
    }
}

/// Appends the decimal digits of `n` to `out`.
pub fn push_digits(out: &mut String, n: u64)
    ensures
        final(out)@ == old(out)@ + digits(n as nat),
    decreases n,
{
    if n < 10 {
        out.append(digit_str(n));
    } else {
        push_digits(out, n / 10);
        out.append(digit_str(n % 10));
        proof {
            assert(old(out)@ + digits((n / 10) as nat) + seq![digit_char((n % 10) as int)]
                =~= old(out)@ + digits(n as nat));
        }
    }
}

/// Appends `n` as exactly `width` zero-padded digits to `out`.
pub fn push_padded_digits(out: &mut String, n: u64, width: u64)
    ensures
        final(out)@ == old(out)@ + padded_digits(n as nat, width as nat),
    decreases width,
{
    if width > 0 {
        push_padded_digits(out, n / 10, width - 1);
        out.append(digit_str(n % 10));
        proof {
            assert(old(out)@ + padded_digits((n / 10) as nat, (width - 1) as nat) + seq![
                digit_char((n % 10) as int),
            ] =~= old(out)@ + padded_digits(n as nat, width as nat));
        }
    }
}

/// The decimal string of `n`.
pub fn u64_text(n: u64) -> (s: String)
    ensures
        s@ == digits(n as nat),
{
    let mut s = String::new();
    push_digits(&mut s, n);
    proof {
        assert(s@ =~= digits(n as nat));
    }
    s
}

/// The decimal string of a signed integer (with a leading `-` when negative).
pub open spec fn int_text(n: int) -> Seq<char> {
    if n < 0 {
        seq!['-'] + digits((-n) as nat)
    } else {
        digits(n as nat)
    }
}

/// The decimal string of `n`.
pub fn i64_text(n: i64) -> (s: String)
    ensures
        s@ == int_text(n as int),
{
    let mut s = String::new();
    if n < 0 {
        proof {
            reveal_strlit("-");
        }
        s.append("-");
        let m: u64 = (-(n as i128)) as u64;
        push_digits(&mut s, m);
    } else {
        push_digits(&mut s, n as u64);
    }
    proof {
        assert(s@ =~= int_text(n as int));
    }
    s
}

/// ASCII upper-case letters map to lower case; every other character is kept.
pub open spec fn lower_char(c: char) -> char {
    if 'A' <= c && c <= 'Z' {
        ((c as u32) + 32) as char
    } else {
        c
    }
}

/// ASCII lower-casing of a whole sequence.
pub open spec fn ascii_lower(s: Seq<char>) -> Seq<char> {
    Seq::new(s.len(), |i: int| lower_char(s[i]))
}

/// Lower-cases the ASCII letters of `s`.
pub fn to_ascii_lower(s: &str) -> (r: String)
    ensures
        r@ == ascii_lower(s@),
{
    let n = s.unicode_len();
    let mut r = String::new();
    let mut i: usize = 0;
    while i < n
        invariant
            n == s@.len(),
            i <= n,
            r@ == ascii_lower(s@.subrange(0, i as int)),
        decreases n - i,
    {
        let c = s.get_char(i);
        let piece = s.substring_char(i, i + 1);
        if 'A' <= c && c <= 'Z' {
            let low = lower_letter(c);
            r.append(low);
        } else {
            r.append(piece);
        }
        proof {
            assert(s@.subrange(0, i + 1) =~= s@.subrange(0, i as int).push(c));
            assert(r@ =~= ascii_lower(s@.subrange(0, i + 1)));
        }
        i = i + 1;
    }
    proof {
        assert(s@.subrange(0, n as int) =~= s@);
    }
    r
}

/// The lower-case one-letter string for an ASCII capital.
fn lower_letter(c: char) -> (s: &'static str)
    requires
        'A' <= c && c <= 'Z',
    ensures
        s@ == seq![lower_char(c)],
{
    proof {
        reveal_strlit("a");
        reveal_strlit("b");
        reveal_strlit("c");
        reveal_strlit("d");
        reveal_strlit("e");
        reveal_strlit("f");
        reveal_strlit("g");
        reveal_strlit("h");
        reveal_strlit("i");
        reveal_strlit("j");
        reveal_strlit("k");
        reveal_strlit("l");
        reveal_strlit("m");
        reveal_strlit("n");
        reveal_strlit("o");
        reveal_strlit("p");
        reveal_strlit("q");
        reveal_strlit("r");
        reveal_strlit("s");
        reveal_strlit("t");
        reveal_strlit("u");
        reveal_strlit("v");
        reveal_strlit("w");
        reveal_strlit("x");
        reveal_strlit("y");
        reveal_strlit("z");
    }
    if c == 'A' { "a" }
    else if c == 'B' { "b" }
    else if c == 'C' { "c" }
    else if c == 'D' { "d" }
    else if c == 'E' { "e" }
    else if c == 'F' { "f" }
    else if c == 'G' { "g" }
    else if c == 'H' { "h" }
    else if c == 'I' { "i" }
    else if c == 'J' { "j" }
    else if c == 'K' { "k" }
    else if c == 'L' { "l" }
    else if c == 'M' { "m" }
    else if c == 'N' { "n" }
    else if c == 'O' { "o" }
    else if c == 'P' { "p" }
    else if c == 'Q' { "q" }
    else if c == 'R' { "r" }
    else if c == 'S' { "s" }
    else if c == 'T' { "t" }
    else if c == 'U' { "u" }
    else if c == 'V' { "v" }
    else if c == 'W' { "w" }
    else if c == 'X' { "x" }
    else if c == 'Y' { "y" }
    else { "z" }
}

/// Unicode's `White_Space` property, the set that `char::is_whitespace`,
/// `str::trim` and `str::split_whitespace` work with.
pub open spec fn is_white_space(c: char) -> bool {
    let u = c as u32;
    ||| 0x09 <= u && u <= 0x0D
    ||| u == 0x20
    ||| u == 0x85
    ||| u == 0xA0
    ||| u == 0x1680
    ||| 0x2000 <= u && u <= 0x200A
    ||| u == 0x2028
    ||| u == 0x2029
    ||| u == 0x202F
    ||| u == 0x205F
    ||| u == 0x3000
}

/// Whether `c` is white space in the sense of [`is_white_space`].
pub fn is_space(c: char) -> (b: bool)
    ensures
        b == is_white_space(c),
{
    let u = c as u32;
    (0x09 <= u && u <= 0x0D) || u == 0x20 || u == 0x85 || u == 0xA0 || u == 0x1680 || (0x2000
        <= u && u <= 0x200A) || u == 0x2028 || u == 0x2029 || u == 0x202F || u == 0x205F || u
        == 0x3000
}

/// `s` without its leading white space.
pub open spec fn skip_space_front(s: Seq<char>) -> Seq<char>
    decreases s.len(),
{
    if s.len() > 0 && is_white_space(s[0]) {
        skip_space_front(s.drop_first())
    } else {
        s
    }
}

/// `s` without its trailing white space.
pub open spec fn skip_space_back(s: Seq<char>) -> Seq<char>
    decreases s.len(),
{
    if s.len() > 0 && is_white_space(s[s.len() - 1]) {
        skip_space_back(s.drop_last())
    } else {
        s
    }
}

/// `s` without leading and trailing white space.
pub open spec fn trimmed(s: Seq<char>) -> Seq<char> {
    skip_space_back(skip_space_front(s))
}

/// Removes leading and trailing white space, as `str::trim` does.
pub fn trim(s: &str) -> (r: &str)
    ensures
        r@ == trimmed(s@),
{
    let n = s.unicode_len();
    let mut i: usize = 0;
    proof {
        assert(s@.subrange(0, n as int) =~= s@);
    }
    while i < n && is_space(s.get_char(i))
        invariant
            n == s@.len(),
            i <= n,
            skip_space_front(s@) == skip_space_front(s@.subrange(i as int, n as int)),
        decreases n - i,
    {
        proof {
            assert(s@.subrange(i as int, n as int).drop_first() =~= s@.subrange(
                i + 1,
                n as int,
            ));
        }
        i = i + 1;
    }
    let mut j: usize = n;
    proof {
        assert(skip_space_front(s@) == s@.subrange(i as int, n as int));
    }
    while j > i && is_space(s.get_char(j - 1))
        invariant
            n == s@.len(),
            i <= j <= n,
            skip_space_front(s@) == s@.subrange(i as int, n as int),
            trimmed(s@) == skip_space_back(s@.subrange(i as int, j as int)),
        decreases j,
    {
        proof {
            assert(s@.subrange(i as int, j as int).drop_last() =~= s@.subrange(
                i as int,
                j - 1,
            ));
        }
        j = j - 1;
    }
    s.substring_char(i, j)
}

/// Whether `needle` occurs in `hay` starting at position `k`.
pub open spec fn occurs_at(hay: Seq<char>, needle: Seq<char>, k: int) -> bool {
    0 <= k && k + needle.len() <= hay.len() && hay.subrange(k, k + needle.len()) == needle
}

/// Whether `needle` occurs anywhere in `hay`.
pub open spec fn contains_seq(hay: Seq<char>, needle: Seq<char>) -> bool {
    exists|k: int| occurs_at(hay, needle, k)
}

/// Whether `hay` begins with `prefix`.
pub open spec fn starts_with_seq(hay: Seq<char>, prefix: Seq<char>) -> bool {
    occurs_at(hay, prefix, 0)
}

/// Whether `needle` occurs in `hay` at position `k` (checked character by character).
fn matches_at(hay: &str, hay_len: usize, needle: &str, needle_len: usize, k: usize) -> (b: bool)
    requires
        hay_len == hay@.len(),
        needle_len == needle@.len(),
        k + needle_len <= hay_len,
    ensures
        b == occurs_at(hay@, needle@, k as int),
{
    let mut i: usize = 0;
    while i < needle_len
        invariant
            hay_len == hay@.len(),
            needle_len == needle@.len(),
            k + needle_len <= hay_len,
            i <= needle_len,
            forall|m: int| 0 <= m < i ==> hay@[k + m] == needle@[m],
        decreases needle_len - i,
    {
        if hay.get_char(k + i) != needle.get_char(i) {
            proof {
                assert(hay@.subrange(k as int, k + needle_len)[i as int] != needle@[i as int]);
            }
            return false;
        }
        i = i + 1;
    }
    proof {
        assert(hay@.subrange(k as int, k + needle_len) =~= needle@);
    }
    true
}

/// Whether `needle` occurs in `hay`, as `str::contains` decides for a string pattern.
pub fn contains(hay: &str, needle: &str) -> (b: bool)
    ensures
        b == contains_seq(hay@, needle@),
{
    let hay_len = hay.unicode_len();
    let needle_len = needle.unicode_len();
    if needle_len > hay_len {
        proof {
            assert forall|k: int| !occurs_at(hay@, needle@, k) by {}
        }
        return false;
    }
    let limit = hay_len - needle_len;
    let mut k: usize = 0;
    loop
        invariant
            hay_len == hay@.len(),
            needle_len == needle@.len(),
            limit == hay_len - needle_len,
            k <= limit,
            forall|m: int| 0 <= m < k ==> !occurs_at(hay@, needle@, m),
        ensures
            forall|m: int| 0 <= m <= limit ==> !occurs_at(hay@, needle@, m),
        decreases limit - k,
    {
        if matches_at(hay, hay_len, needle, needle_len, k) {
            return true;
        }
        if k == limit {
            break;
        }
        k = k + 1;
    }
    proof {
        assert forall|m: int| !occurs_at(hay@, needle@, m) by {
            if 0 <= m && m + needle_len <= hay_len {
                assert(m <= limit);
            }
        }
    }
    false
}

/// Whether two strings hold the same characters.
pub fn same_text(a: &str, b: &str) -> (r: bool)
    ensures
        r == (a@ == b@),
{
    let n = a.unicode_len();
    if n != b.unicode_len() {
        return false;
    }
    let r = matches_at(a, n, b, n, 0);
    proof {
        assert(a@.subrange(0, n as int) =~= a@);
    }
    r
}

/// Whether `hay` begins with `prefix`, as `str::starts_with` decides.
pub fn starts_with(hay: &str, prefix: &str) -> (b: bool)
    ensures
        b == starts_with_seq(hay@, prefix@),
{
    let hay_len = hay.unicode_len();
    let prefix_len = prefix.unicode_len();
    if prefix_len > hay_len {
        false
    } else {
        matches_at(hay, hay_len, prefix, prefix_len, 0)
    }
}

} // verus!
