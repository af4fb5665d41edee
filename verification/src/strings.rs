use vstd::prelude::*;

verus! {

/// What `char::is_alphanumeric` answers for a character (Unicode Alphabetic or Numeric).
pub uninterp spec fn unicode_alphanumeric(c: char) -> bool;

/// What `char::is_whitespace` answers for a character: the 25 code points
/// of Unicode's White_Space property.
pub open spec fn unicode_whitespace(c: char) -> bool {
    let u = c as u32;
    (0x9 <= u && u <= 0xD) || u == 0x20 || u == 0x85 || u == 0xA0 || u == 0x1680 || (0x2000 <= u && u <= 0x200A)
        || u == 0x2028 || u == 0x2029 || u == 0x202F || u == 0x205F || u == 0x3000
}

/// ASCII letters and digits, as `char::is_ascii_alphanumeric` defines them.
pub open spec fn ascii_alphanumeric(c: char) -> bool {
    ('a' <= c && c <= 'z') || ('A' <= c && c <= 'Z') || ('0' <= c && c <= '9')
}

/// ASCII letters, as `char::is_ascii_alphabetic` defines them.
pub open spec fn ascii_alphabetic(c: char) -> bool {
    ('a' <= c && c <= 'z') || ('A' <= c && c <= 'Z')
}

/// ASCII digits, as `char::is_ascii_digit` defines them.
pub open spec fn ascii_digit(c: char) -> bool {
    '0' <= c && c <= '9'
}

/// The whitespace characters of the ASCII range under Unicode's White_Space property.
pub open spec fn ascii_range_whitespace(c: char) -> bool {
    c == ' ' || ('\t' <= c && c <= '\r')
}

/// Calls `char::is_alphanumeric`. Claimed: the answer is the one named by
/// `unicode_alphanumeric`, and on ASCII characters it is exactly "ASCII letter or digit".
#[verifier::external_body]
pub(crate) fn char_is_alphanumeric(c: char) -> (r: bool)
    ensures
        r == unicode_alphanumeric(c),
        (c as u32) < 128 ==> (r == ascii_alphanumeric(c)),
{
    c.is_alphanumeric()
}

/// Calls `char::is_whitespace`. Claimed: the answer is `unicode_whitespace`
/// (the White_Space code points), so on ASCII characters it is exactly
/// space, tab, line feed, vertical tab, form feed or carriage return.
#[verifier::external_body]
pub(crate) fn char_is_whitespace(c: char) -> (r: bool)
    ensures
        r == unicode_whitespace(c),
        (c as u32) < 128 ==> (r == ascii_range_whitespace(c)),
{
    c.is_whitespace()
}

/// `char::is_ascii_digit`.
pub fn is_ascii_digit(c: char) -> (r: bool)
    ensures
        r == ascii_digit(c),
{
    '0' <= c && c <= '9'
}

/// `char::is_ascii_alphanumeric`.
pub fn is_ascii_alphanumeric(c: char) -> (r: bool)
    ensures
        r == ascii_alphanumeric(c),
{
    ('a' <= c && c <= 'z') || ('A' <= c && c <= 'Z') || ('0' <= c && c <= '9')
}

/// `char::is_ascii_alphabetic`.
pub fn is_ascii_alphabetic(c: char) -> (r: bool)
    ensures
        r == ascii_alphabetic(c),
{
    ('a' <= c && c <= 'z') || ('A' <= c && c <= 'Z')
}

/// Calls `str::chars` and collects the characters. Claimed: the vector holds
/// exactly the characters of the string, in order.
#[verifier::external_body]
pub(crate) fn str_to_chars(s: &str) -> (v: Vec<char>)
    ensures
        v@ == s@,
{
    s.chars().collect()
}

/// Collects characters into a `String` (`FromIterator<char>`). Claimed: the
/// string holds exactly those characters, in order.
#[verifier::external_body]
pub(crate) fn chars_to_string(v: &[char]) -> (s: String)
    ensures
        s@ == v@,
{
    v.iter().collect()
}

/// Calls `String::push`. Claimed: the character is appended at the end.
#[verifier::external_body]
pub(crate) fn string_push(s: &mut String, c: char)
    ensures
        final(s)@ == old(s)@.push(c),
{
    s.push(c)
}

/// The number that a sequence of decimal digits denotes.
pub open spec fn digits_value(s: Seq<char>) -> nat
    decreases s.len(),
{
    if s.len() == 0 {
        0
    } else {
        digits_value(s.drop_last()) * 10 + ((s.last() as u32) - ('0' as u32)) as nat
    }
}

/// Every character is an ASCII digit.
pub open spec fn all_digits(s: Seq<char>) -> bool {
    forall|i: int| 0 <= i < s.len() ==> ascii_digit(#[trigger] s[i])
}

/// `str::parse::<u64>` on a non-empty run of ASCII digits: `None` exactly when
/// the number does not fit.
pub fn parse_u64_digits(s: &Vec<char>) -> (r: Option<u64>)
    requires
        s@.len() > 0,
        all_digits(s@),
    ensures
        r is Some <==> digits_value(s@) <= u64::MAX,
        r matches Some(n) ==> n == digits_value(s@),
{
    let mut acc: u64 = 0;
    let mut i: usize = 0;
    while i < s.len()
        invariant
            0 <= i <= s@.len(),
            all_digits(s@),
            acc == digits_value(s@.subrange(0, i as int)),
        decreases s@.len() - i,
    {
        let c = s[i];
        assert(ascii_digit(s@[i as int]));
        let d: u64 = ((c as u32) - ('0' as u32)) as u64;
        assert(s@.subrange(0, i + 1).drop_last() =~= s@.subrange(0, i as int));
        if acc > (u64::MAX - d) / 10 {
            proof {
                lemma_digits_prefix_monotone(s@, i + 1);
            }
            return None;
        }
        acc = acc * 10 + d;
        i = i + 1;
    }
    assert(s@.subrange(0, s@.len() as int) =~= s@);
    Some(acc)
}

/// The value of a digit string is at least the value of any of its prefixes.
pub proof fn lemma_digits_prefix_monotone(s: Seq<char>, k: int)
    requires
        0 <= k <= s.len(),
    ensures
        digits_value(s.subrange(0, k)) <= digits_value(s),
    decreases s.len() - k,
{
    if k < s.len() {
        lemma_digits_prefix_monotone(s, k + 1);
        assert(s.subrange(0, k + 1).drop_last() =~= s.subrange(0, k));
    } else {
        assert(s.subrange(0, k) =~= s);
    }
}

} // verus!

verus! {

/// The characters `from..to` of `v`.
pub fn chars_between(v: &Vec<char>, from: usize, to: usize) -> (out: Vec<char>)
    requires
        from <= to <= v@.len(),
    ensures
        out@ == v@.subrange(from as int, to as int),
{
    let mut out: Vec<char> = Vec::new();
    let mut i = from;
    while i < to
        invariant
            from <= i <= to <= v@.len(),
            out@ == v@.subrange(from as int, i as int),
        decreases to - i,
    {
        out.push(v[i]);
        assert(v@.subrange(from as int, i + 1) =~= v@.subrange(from as int, i as int).push(v@[i as int]));
        i = i + 1;
    }
    out
}

/// The characters `from..to` of `v` as a string.
pub fn substring_of(v: &Vec<char>, from: usize, to: usize) -> (s: String)
    requires
        from <= to <= v@.len(),
    ensures
        s@ == v@.subrange(from as int, to as int),
{
    let out = chars_between(v, from, to);
    chars_to_string(out.as_slice())
}

} // verus!

verus! {

/// What `char::escape_debug` yields for a character.
pub uninterp spec fn escape_debug_text(c: char) -> Seq<char>;

/// Calls `char::escape_debug` and collects it. Claimed: the text is the one
/// named by `escape_debug_text` for this character.
#[verifier::external_body]
pub(crate) fn char_escape_debug(c: char) -> (s: String)
    ensures
        s@ == escape_debug_text(c),
{
    c.escape_debug().collect()
}

/// The decimal digits of a number.
pub open spec fn decimal(n: nat) -> Seq<char>
    decreases n,
{
    if n < 10 {
        seq![(('0' as u32) + n) as char]
    } else {
        decimal(n / 10).push((('0' as u32) + (n % 10)) as char)
    }
}

/// The decimal text of a `u64`, as `to_string` writes it.
pub fn u64_to_decimal(n: u64) -> (s: String)
    ensures
        s@ == decimal(n as nat),
    decreases n,
{
    if n < 10 {
        let c = char_from_digit(n as u32);
        let mut s = String::new();
        string_push(&mut s, c);
        assert(s@ =~= seq![(('0' as u32) + n) as char]);
        s
    } else {
        let mut s = u64_to_decimal(n / 10);
        let c = char_from_digit((n % 10) as u32);
        string_push(&mut s, c);
        s
    }
}

/// The ASCII digit for `d < 10`.
fn char_from_digit(d: u32) -> (c: char)
    requires
        d < 10,
    ensures
        c == (('0' as u32) + d) as char,
{
    if d == 0 { '0' } else if d == 1 { '1' } else if d == 2 { '2' } else if d == 3 { '3' } else if d == 4 { '4' } else if d == 5 { '5' } else if d == 6 { '6' } else if d == 7 { '7' } else if d == 8 { '8' } else { '9' }
}

} // verus!

verus! {

/// What `str::parse::<u64>` gives for the text `s`: an optional `+`, then
/// one or more ASCII digits whose value fits in a `u64`.
pub open spec fn u64_text(s: Seq<char>) -> Option<u64> {
    let d = if s.len() > 0 && s[0] == '+' { s.subrange(1, s.len() as int) } else { s };
    if d.len() > 0 && all_digits(d) && digits_value(d) <= u64::MAX {
        Some(digits_value(d) as u64)
    } else {
        None
    }
}

/// `str::parse::<u64>` on the characters `s`.
pub fn parse_u64_text(s: &Vec<char>) -> (r: Option<u64>)
    ensures
        r == u64_text(s@),
{
    let from: usize = if s.len() > 0 && s[0] == '+' { 1 } else { 0 };
    let d = chars_between(s, from, s.len());
    assert(d@ =~= (if s@.len() > 0 && s@[0] == '+' { s@.subrange(1, s@.len() as int) } else { s@ }));
    if d.len() == 0 {
        return None;
    }
    let mut k: usize = 0;
    while k < d.len()
        invariant
            0 <= k <= d@.len(),
            forall|j: int| 0 <= j < k ==> ascii_digit(#[trigger] d@[j]),
            d@ == (if s@.len() > 0 && s@[0] == '+' { s@.subrange(1, s@.len() as int) } else { s@ }),
        decreases d@.len() - k,
    {
        if !is_ascii_digit(d[k]) {
            assert(!all_digits(d@));
            return None;
        }
        k = k + 1;
    }
    assert(all_digits(d@));
    parse_u64_digits(&d)
}

} // verus!

verus! {

/// The texts of `parts` with `sep` between each two, as `join` writes them.
pub open spec fn join_with(parts: Seq<Seq<char>>, sep: Seq<char>) -> Seq<char>
    decreases parts.len(),
{
    if parts.len() == 0 {
        Seq::empty()
    } else if parts.len() == 1 {
        parts[0]
    } else {
        join_with(parts.drop_last(), sep) + sep + parts.last()
    }
}

pub proof fn lemma_join_step(parts: Seq<Seq<char>>, sep: Seq<char>, i: int)
    requires
        0 <= i < parts.len(),
    ensures
        join_with(parts.subrange(0, i + 1), sep) == if i == 0 {
            parts[0]
        } else {
            join_with(parts.subrange(0, i), sep) + sep + parts[i]
        },
{
    assert(parts.subrange(0, i + 1).drop_last() =~= parts.subrange(0, i));
}

/// The characters of the strings in `v`, with `sep` between each two.
pub fn join_chars(v: &Vec<String>, sep: &str) -> (out: Vec<char>)
    ensures
        out@ == join_with(v@.map_values(|s: String| s@), sep@),
{
    let ghost parts = v@.map_values(|s: String| s@);
    let sep_chars = str_to_chars(sep);
    let mut out: Vec<char> = Vec::new();
    let mut i: usize = 0;
    while i < v.len()
        invariant
            0 <= i <= v@.len(),
            parts == v@.map_values(|s: String| s@),
            sep_chars@ == sep@,
            out@ == join_with(parts.subrange(0, i as int), sep@),
        decreases v@.len() - i,
    {
        proof {
            lemma_join_step(parts, sep@, i as int);
        }
        if i > 0 {
            let mut k: usize = 0;
            let ghost before = out@;
            while k < sep_chars.len()
                invariant
                    0 <= k <= sep_chars@.len(),
                    out@ == before + sep_chars@.subrange(0, k as int),
                decreases sep_chars@.len() - k,
            {
                out.push(sep_chars[k]);
                assert(sep_chars@.subrange(0, k + 1) =~= sep_chars@.subrange(0, k as int).push(sep_chars@[k as int]));
                k = k + 1;
            }
            assert(sep_chars@.subrange(0, sep_chars@.len() as int) =~= sep_chars@);
        }
        let part = str_to_chars(v[i].as_str());
        let mut k: usize = 0;
        let ghost before = out@;
        while k < part.len()
            invariant
                0 <= k <= part@.len(),
                out@ == before + part@.subrange(0, k as int),
            decreases part@.len() - k,
        {
            out.push(part[k]);
            assert(part@.subrange(0, k + 1) =~= part@.subrange(0, k as int).push(part@[k as int]));
            k = k + 1;
        }
        assert(part@.subrange(0, part@.len() as int) =~= part@);
        assert(parts[i as int] == part@);
        if i == 0 {
            assert(out@ =~= parts[0]);
        }
        i = i + 1;
    }
    assert(parts.subrange(0, v@.len() as int) =~= parts);
    out
}

/// The strings in `v` joined with `sep` (`slice::join`).
pub fn join_strings(v: &Vec<String>, sep: &str) -> (s: String)
    ensures
        s@ == join_with(v@.map_values(|s: String| s@), sep@),
{
    let out = join_chars(v, sep);
    chars_to_string(out.as_slice())
}

} // verus!


verus! {

pub proof fn lemma_decimal_digits(n: nat)
    ensures
        decimal(n).len() > 0,
        all_digits(decimal(n)),
        digits_value(decimal(n)) == n,
    decreases n,
{
    if n < 10 {
        let s = decimal(n);
        assert(s.drop_last() =~= Seq::<char>::empty());
        assert(((('0' as u32) + n) as char) as u32 == ('0' as u32) + n);
        assert(digits_value(Seq::<char>::empty()) == 0);
        assert(s.last() == (('0' as u32) + n) as char);
        assert(digits_value(s) == digits_value(s.drop_last()) * 10 + ((s.last() as u32) - ('0' as u32)) as nat);
    } else {
        lemma_decimal_digits(n / 10);
        let s = decimal(n);
        let t = decimal(n / 10);
        assert(s.drop_last() =~= t);
        assert(((('0' as u32) + (n % 10)) as char) as u32 == ('0' as u32) + (n % 10));
        assert((n / 10) * 10 + n % 10 == n) by (nonlinear_arith);
        assert(digits_value(s) == digits_value(t) * 10 + ((s.last() as u32) - ('0' as u32)) as nat);
        assert forall|i: int| 0 <= i < s.len() implies ascii_digit(#[trigger] s[i]) by {
            if i < t.len() {
                assert(s[i] == t[i]);
            }
        }
    }
}

/// A number written in decimal reads back as the same number: parsing what
/// `u64_to_decimal` writes gives the number written.
pub proof fn law_decimal_parses_back(n: u64)
    ensures
        u64_text(decimal(n as nat)) == Some(n),
{
    lemma_decimal_digits(n as nat);
    let s = decimal(n as nat);
    assert(ascii_digit(s[0]));
}

} // verus!
