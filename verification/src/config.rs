use vstd::prelude::*;
use crate::parser::spec::find_char;
use crate::strings::{chars_between, chars_to_string, str_to_chars};

verus! {

pub proof fn lemma_find_char_bounds(s: Seq<char>, c: char, i: int)
    requires
        0 <= i <= s.len(),
    ensures
        i <= find_char(s, c, i) <= s.len(),
        find_char(s, c, i) < s.len() ==> s[find_char(s, c, i)] == c,
    decreases s.len() - i,
{
    if i < s.len() && s[i] != c {
        lemma_find_char_bounds(s, c, i + 1);
    }
}

/// The line of `s` that starts at `i` (`str::lines`): up to the next line
/// feed, without the carriage return of a `\r\n` ending.
pub open spec fn line_at(s: Seq<char>, i: int) -> Seq<char> {
    let k = find_char(s, '\n', i);
    let raw = s.subrange(i, k);
    if k < s.len() && raw.len() > 0 && raw.last() == '\r' {
        raw.drop_last()
    } else {
        raw
    }
}

/// The first line of `s` from index `i` on that starts with `key`.
pub open spec fn first_line_with(s: Seq<char>, i: int, key: Seq<char>) -> Option<Seq<char>>
    decreases s.len() + 1 - i,
{
    if i < 0 || i >= s.len() {
        None
    } else {
        let l = line_at(s, i);
        if l.len() >= key.len() && l.subrange(0, key.len() as int) == key {
            Some(l)
        } else {
            proof {
                lemma_find_char_bounds(s, '\n', i);
            }
            first_line_with(s, find_char(s, '\n', i) + 1, key)
        }
    }
}

/// The field `n` (from 0) of `l` split at `:` (`split(':').nth(n)`).
pub open spec fn colon_field(l: Seq<char>, n: nat) -> Option<Seq<char>>
    decreases l.len(), n,
{
    let k = find_char(l, ':', 0);
    if n == 0 {
        Some(l.subrange(0, k))
    } else if k >= l.len() {
        None
    } else {
        proof {
            lemma_find_char_bounds(l, ':', 0);
        }
        colon_field(l.subrange(k + 1, l.len() as int), (n - 1) as nat)
    }
}

/// The login shell of `user` in the text of `/etc/passwd`: the seventh
/// field of the first line that starts with `user:`.
pub open spec fn login_shell_of(passwd: Seq<char>, user: Seq<char>) -> Option<Seq<char>> {
    match first_line_with(passwd, 0, user.push(':')) {
        Some(l) => colon_field(l, 6),
        None => None,
    }
}

fn find_from(v: &Vec<char>, c: char, i: usize) -> (r: usize)
    requires
        i <= v@.len(),
    ensures
        r == find_char(v@, c, i as int),
{
    let mut k = i;
    while k < v.len() && v[k] != c
        invariant
            i <= k <= v@.len(),
            find_char(v@, c, k as int) == find_char(v@, c, i as int),
        decreases v@.len() - k,
    {
        k = k + 1;
    }
    k
}

fn starts_with(l: &Vec<char>, key: &Vec<char>) -> (r: bool)
    ensures
        r == (l@.len() >= key@.len() && l@.subrange(0, key@.len() as int) == key@),
{
    if l.len() < key.len() {
        return false;
    }
    let mut k: usize = 0;
    while k < key.len()
        invariant
            k <= key@.len() <= l@.len(),
            forall|j: int| 0 <= j < k ==> l@[j] == key@[j],
        decreases key@.len() - k,
    {
        if l[k] != key[k] {
            assert(l@.subrange(0, key@.len() as int)[k as int] != key@[k as int]);
            return false;
        }
        k = k + 1;
    }
    assert(l@.subrange(0, key@.len() as int) =~= key@);
    true
}

fn field_of(l: &Vec<char>, n: usize) -> (r: Option<Vec<char>>)
    ensures
        match colon_field(l@, n as nat) {
            Some(f) => r matches Some(v) && v@ == f,
            None => r is None,
        },
{
    let mut rest = chars_between(l, 0, l.len());
    assert(rest@ =~= l@);
    let mut m = n;
    while m > 0
        invariant
            colon_field(rest@, m as nat) == colon_field(l@, n as nat),
        decreases m,
    {
        let k = find_from(&rest, ':', 0);
        if k >= rest.len() {
            return None;
        }
        proof {
            lemma_find_char_bounds(rest@, ':', 0);
        }
        rest = chars_between(&rest, k + 1, rest.len());
        m = m - 1;
    }
    let k = find_from(&rest, ':', 0);
    proof {
        lemma_find_char_bounds(rest@, ':', 0);
    }
    Some(chars_between(&rest, 0, k))
}

/// The login shell that `/etc/passwd` (its text `passwd`) records for
/// `user`; see `login_shell_of`.
pub fn login_shell(passwd: &str, user: &str) -> (r: Option<String>)
    ensures
        match login_shell_of(passwd@, user@) {
            Some(f) => r matches Some(s) && s@ == f,
            None => r is None,
        },
{
    let s = str_to_chars(passwd);
    let mut key = str_to_chars(user);
    key.push(':');
    let mut i: usize = 0;
    while i < s.len()
        invariant
            i <= s@.len(),
            key@ == user@.push(':'),
            first_line_with(s@, i as int, key@) == first_line_with(s@, 0, key@),
            s@ == passwd@,
        decreases s@.len() - i,
    {
        let k = find_from(&s, '\n', i);
        proof {
            lemma_find_char_bounds(s@, '\n', i as int);
        }
        let mut line = chars_between(&s, i, k);
        if k < s.len() && line.len() > 0 && line[line.len() - 1] == '\r' {
            line.pop();
        }
        assert(line@ == line_at(s@, i as int));
        if starts_with(&line, &key) {
            return match field_of(&line, 6) {
                Some(f) => Some(chars_to_string(f.as_slice())),
                None => None,
            };
        }
        assert(first_line_with(s@, i as int, key@) == first_line_with(s@, k + 1, key@));
        if k >= s.len() {
            assert(first_line_with(s@, k + 1, key@) is None);
            return None;
        }
        i = k + 1;
    }
    None
}

} // verus!
