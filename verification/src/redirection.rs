use vstd::prelude::*;
use vstd::string::StringExecFns;
use crate::envirement::ShellEnv;
use crate::error::{ShellError, ShellErrorV};
use crate::parser::text::{word_text, word_to_string};
use crate::parser::types::{Redirect, RedirectOp, RedirectV};
use crate::strings::{ascii_digit, char_is_whitespace, chars_between, str_to_chars, unicode_whitespace};

verus! {

/// Why a text does not read as an `i32` (`str::parse::<i32>`).
#[derive(Debug, Clone, Copy, PartialEq, Eq, Structural)]
pub enum IntErrorKind {
    Empty,
    InvalidDigit,
    PosOverflow,
    NegOverflow,
}

/// Reading the digits of `s` from `k` on, the value so far `acc`, for a
/// negative number when `neg`: the first bad character or overflow met
/// from the left decides the error.
pub open spec fn scan_digits(s: Seq<char>, k: int, acc: int, neg: bool) -> Result<int, IntErrorKind>
    decreases s.len() - k,
{
    if k < 0 || k >= s.len() {
        Ok(acc)
    } else if !ascii_digit(s[k]) {
        Err(IntErrorKind::InvalidDigit)
    } else {
        let d = (s[k] as int) - ('0' as int);
        let v = if neg { acc * 10 - d } else { acc * 10 + d };
        if v > i32::MAX {
            Err(IntErrorKind::PosOverflow)
        } else if v < i32::MIN {
            Err(IntErrorKind::NegOverflow)
        } else {
            scan_digits(s, k + 1, v, neg)
        }
    }
}

/// `str::parse::<i32>`: an optional sign, then decimal digits.
pub open spec fn i32_text(s: Seq<char>) -> Result<i32, IntErrorKind> {
    if s.len() == 0 {
        Err(IntErrorKind::Empty)
    } else if (s[0] == '+' || s[0] == '-') && s.len() == 1 {
        Err(IntErrorKind::InvalidDigit)
    } else {
        let signed = s[0] == '+' || s[0] == '-';
        match scan_digits(s, if signed { 1 } else { 0 }, 0, s[0] == '-') {
            Ok(v) => Ok(v as i32),
            Err(e) => Err(e),
        }
    }
}

/// The message of a `ParseIntError` of this kind.
pub open spec fn int_error_text(e: IntErrorKind) -> Seq<char> {
    match e {
        IntErrorKind::Empty => "cannot parse integer from empty string"@,
        IntErrorKind::InvalidDigit => "invalid digit found in string"@,
        IntErrorKind::PosOverflow => "number too large to fit in target type"@,
        IntErrorKind::NegOverflow => "number too small to fit in target type"@,
    }
}

proof fn lemma_scan_range(s: Seq<char>, k: int, acc: int, neg: bool)
    requires
        i32::MIN <= acc <= i32::MAX,
    ensures
        scan_digits(s, k, acc, neg) matches Ok(v) ==> i32::MIN <= v <= i32::MAX,
    decreases s.len() - k,
{
    if 0 <= k < s.len() && ascii_digit(s[k]) {
        let d = (s[k] as int) - ('0' as int);
        let v = if neg { acc * 10 - d } else { acc * 10 + d };
        if i32::MIN <= v <= i32::MAX {
            lemma_scan_range(s, k + 1, v, neg);
        }
    }
}

/// Reads a text as an `i32` the way `str::parse::<i32>` does.
pub fn parse_i32_text(s: &Vec<char>) -> (r: Result<i32, IntErrorKind>)
    ensures
        r == i32_text(s@),
{
    let n = s.len();
    if n == 0 {
        return Err(IntErrorKind::Empty);
    }
    let first = s[0];
    let signed = first == '+' || first == '-';
    if signed && n == 1 {
        return Err(IntErrorKind::InvalidDigit);
    }
    let neg = first == '-';
    let mut k: usize = if signed { 1 } else { 0 };
    let mut acc: i64 = 0;
    proof {
        lemma_scan_range(s@, k as int, 0, neg);
    }
    while k < n
        invariant
            n == s@.len(),
            n > 0,
            !(signed && n == 1),
            signed == (s@[0] == '+' || s@[0] == '-'),
            neg == (s@[0] == '-'),
            k <= n,
            i32::MIN <= acc <= i32::MAX,
            scan_digits(s@, k as int, acc as int, neg) == scan_digits(s@, if signed { 1int } else { 0int }, 0, neg),
        decreases n - k,
    {
        let c = s[k];
        if !('0' <= c && c <= '9') {
            return Err(IntErrorKind::InvalidDigit);
        }
        let d: i64 = (c as u32 - '0' as u32) as i64;
        let v: i64 = if neg { acc * 10 - d } else { acc * 10 + d };
        if v > 2147483647 {
            return Err(IntErrorKind::PosOverflow);
        }
        if v < -2147483648 {
            return Err(IntErrorKind::NegOverflow);
        }
        acc = v;
        k = k + 1;
    }
    proof {
        lemma_scan_range(s@, if signed { 1int } else { 0int }, 0, neg);
    }
    Ok(acc as i32)
}

/// The first index from `k` on that holds no white space (the length when
/// none does).
pub open spec fn first_non_ws(s: Seq<char>, k: int) -> int
    decreases s.len() - k,
{
    if k < 0 || k >= s.len() {
        s.len() as int
    } else if unicode_whitespace(s[k]) {
        first_non_ws(s, k + 1)
    } else {
        k
    }
}

/// The end of the text before `k` without its trailing white space.
pub open spec fn end_non_ws(s: Seq<char>, k: int) -> int
    decreases k,
{
    if k <= 0 || k > s.len() {
        0
    } else if unicode_whitespace(s[k - 1]) {
        end_non_ws(s, k - 1)
    } else {
        k
    }
}

/// `str::trim`: the text without leading and trailing white space.
pub open spec fn trim_text(s: Seq<char>) -> Seq<char> {
    let i = first_non_ws(s, 0);
    let j = end_non_ws(s, s.len() as int);
    if i < j {
        s.subrange(i, j)
    } else {
        Seq::empty()
    }
}

proof fn lemma_first_non_ws(s: Seq<char>, k: int)
    requires
        0 <= k <= s.len(),
    ensures
        k <= first_non_ws(s, k) <= s.len(),
        forall|j: int| k <= j < first_non_ws(s, k) ==> unicode_whitespace(#[trigger] s[j]),
        first_non_ws(s, k) < s.len() ==> !unicode_whitespace(s[first_non_ws(s, k)]),
    decreases s.len() - k,
{
    if k < s.len() && unicode_whitespace(s[k]) {
        lemma_first_non_ws(s, k + 1);
    }
}

proof fn lemma_end_non_ws(s: Seq<char>, k: int)
    requires
        0 <= k <= s.len(),
    ensures
        0 <= end_non_ws(s, k) <= k,
        forall|j: int| end_non_ws(s, k) <= j < k ==> unicode_whitespace(#[trigger] s[j]),
        end_non_ws(s, k) > 0 ==> !unicode_whitespace(s[end_non_ws(s, k) - 1]),
    decreases k,
{
    if k > 0 && unicode_whitespace(s[k - 1]) {
        lemma_end_non_ws(s, k - 1);
    }
}

fn trim_bounds(cs: &Vec<char>) -> (r: (usize, usize))
    ensures
        r.0 == first_non_ws(cs@, 0),
        r.1 == end_non_ws(cs@, cs@.len() as int),
{
    let mut i: usize = 0;
    proof {
        lemma_first_non_ws(cs@, 0);
    }
    while i < cs.len() && char_is_whitespace(cs[i])
        invariant
            0 <= i <= cs@.len(),
            first_non_ws(cs@, i as int) == first_non_ws(cs@, 0),
        decreases cs@.len() - i,
    {
        i = i + 1;
    }
    let mut j: usize = cs.len();
    while j > 0 && char_is_whitespace(cs[j - 1])
        invariant
            0 <= j <= cs@.len(),
            end_non_ws(cs@, j as int) == end_non_ws(cs@, cs@.len() as int),
        decreases j,
    {
        j = j - 1;
    }
    (i, j)
}

/// How a file named by a redirection is opened: for reading, for writing
/// from empty (created when missing), or for appending (created when
/// missing).
#[derive(Debug, Clone, Copy, PartialEq, Eq, Structural)]
pub enum OpenMode {
    Read,
    Truncate,
    Append,
}

/// One step of putting a command's redirection in place.
#[derive(Debug)]
pub enum RedirectStep {
    /// Close descriptor `fd` (target `&-`).
    Close(u64),
    /// Make `fd` a copy of descriptor `source` (target `&N`).
    Dup { fd: u64, source: i32 },
    /// Open `path` with `mode` as descriptor `fd`.
    Open { fd: u64, path: String, mode: OpenMode },
}

/// The value of a `RedirectStep`.
pub enum RedirectStepV {
    Close(u64),
    Dup { fd: u64, source: i32 },
    Open { fd: u64, path: Seq<char>, mode: OpenMode },
}

impl View for RedirectStep {
    type V = RedirectStepV;

    open spec fn view(&self) -> RedirectStepV {
        match self {
            RedirectStep::Close(fd) => RedirectStepV::Close(*fd),
            RedirectStep::Dup { fd, source } => RedirectStepV::Dup { fd: *fd, source: *source },
            RedirectStep::Open { fd, path, mode } => RedirectStepV::Open { fd: *fd, path: path@, mode: *mode },
        }
    }
}

/// The descriptor a redirection applies to: the one it names, else 0 for
/// reading and 1 for the rest.
pub open spec fn redirect_fd(r: RedirectV) -> u64 {
    match r.fd {
        Some(n) => n,
        None => if r.kind == RedirectOp::Read { 0 } else { 1 },
    }
}

/// What putting the redirection `r` in place takes, its target's variables
/// read in `vars`: closing for a target `&-` (white space around it
/// allowed), copying a descriptor for `&N`, else opening the file by the
/// kind of redirection; an error for `&` followed by no `i32`, and for a
/// here-document or read-write redirection.
pub open spec fn redirect_step_of(r: RedirectV, vars: Map<Seq<char>, Seq<char>>) -> Result<RedirectStepV, ShellErrorV> {
    let fd = redirect_fd(r);
    let t = word_text(r.target, vars);
    if trim_text(t) == "&-"@ {
        Ok(RedirectStepV::Close(fd))
    } else if t.len() > 0 && t[0] == '&' {
        match i32_text(t.subrange(1, t.len() as int)) {
            Ok(n) => Ok(RedirectStepV::Dup { fd, source: n }),
            Err(e) => Err(ShellErrorV::Exec("Invalid file descriptor in redirection: "@ + int_error_text(e))),
        }
    } else {
        match r.kind {
            RedirectOp::Read => Ok(RedirectStepV::Open { fd, path: t, mode: OpenMode::Read }),
            RedirectOp::Write => Ok(RedirectStepV::Open { fd, path: t, mode: OpenMode::Truncate }),
            RedirectOp::Append => Ok(RedirectStepV::Open { fd, path: t, mode: OpenMode::Append }),
            RedirectOp::HereDoc => Err(ShellErrorV::Exec("Unsupported redirection: HereDoc"@)),
            RedirectOp::ReadWrite => Err(ShellErrorV::Exec("Unsupported redirection: ReadWrite"@)),
        }
    }
}

/// The value of what `redirect_step` gives back.
pub open spec fn step_res_view(r: Result<RedirectStep, ShellError>) -> Result<RedirectStepV, ShellErrorV> {
    match r {
        Ok(s) => Ok(s@),
        Err(e) => Err(e@),
    }
}

fn int_error_message(e: IntErrorKind) -> (s: String)
    ensures
        s@ == int_error_text(e),
{
    match e {
        IntErrorKind::Empty => String::from_str("cannot parse integer from empty string"),
        IntErrorKind::InvalidDigit => String::from_str("invalid digit found in string"),
        IntErrorKind::PosOverflow => String::from_str("number too large to fit in target type"),
        IntErrorKind::NegOverflow => String::from_str("number too small to fit in target type"),
    }
}

/// What putting one redirection in place takes; see `redirect_step_of`.
pub fn redirect_step(r: &Redirect, env: &ShellEnv) -> (res: Result<RedirectStep, ShellError>)
    ensures
        step_res_view(res) == redirect_step_of(r@, env.vars()),
{
    let fd: u64 = match r.fd {
        Some(n) => n,
        None => match r.kind {
            RedirectOp::Read => 0,
            _ => 1,
        },
    };
    let target = word_to_string(&r.target, env);
    let cs = str_to_chars(target.as_str());
    let (i, j) = trim_bounds(&cs);
    proof {
        reveal_strlit("&-");
        lemma_first_non_ws(cs@, 0);
        lemma_end_non_ws(cs@, cs@.len() as int);
    }
    if i < j && j - i == 2 && cs[i] == '&' && cs[i + 1] == '-' {
        assert(trim_text(cs@) =~= "&-"@);
        return Ok(RedirectStep::Close(fd));
    }
    assert(trim_text(cs@) != "&-"@) by {
        if trim_text(cs@) == "&-"@ {
            assert(trim_text(cs@).len() == 2);
            assert(trim_text(cs@)[0] == cs@[i as int]);
            assert(trim_text(cs@)[1] == cs@[i + 1]);
        }
    }
    if cs.len() > 0 && cs[0] == '&' {
        let rest = chars_between(&cs, 1, cs.len());
        match parse_i32_text(&rest) {
            Ok(n) => Ok(RedirectStep::Dup { fd, source: n }),
            Err(e) => {
                let mut msg = String::from_str("Invalid file descriptor in redirection: ");
                let m = int_error_message(e);
                msg.append(m.as_str());
                Err(ShellError::Exec(msg))
            },
        }
    } else {
        match r.kind {
            RedirectOp::Read => Ok(RedirectStep::Open { fd, path: target, mode: OpenMode::Read }),
            RedirectOp::Write => Ok(RedirectStep::Open { fd, path: target, mode: OpenMode::Truncate }),
            RedirectOp::Append => Ok(RedirectStep::Open { fd, path: target, mode: OpenMode::Append }),
            RedirectOp::HereDoc => Err(ShellError::Exec(String::from_str("Unsupported redirection: HereDoc"))),
            RedirectOp::ReadWrite => Err(ShellError::Exec(String::from_str("Unsupported redirection: ReadWrite"))),
        }
    }
}

} // verus!

verus! {

/// The descriptor a redirection step acts on.
pub open spec fn step_fd(s: RedirectStepV) -> u64 {
    match s {
        RedirectStepV::Close(fd) => fd,
        RedirectStepV::Dup { fd, .. } => fd,
        RedirectStepV::Open { fd, .. } => fd,
    }
}

/// A redirection that names its descriptor acts on it; one that names none
/// acts on standard input (0) for `<` and on standard output (1) for every
/// other kind, `>>` included.
pub proof fn law_redirect_default_descriptor(r: RedirectV, vars: Map<Seq<char>, Seq<char>>)
    ensures
        redirect_step_of(r, vars) matches Ok(s) ==> step_fd(s) == match r.fd {
            Some(n) => n,
            None => if r.kind == RedirectOp::Read { 0u64 } else { 1u64 },
        },
        r.fd is None && r.kind == RedirectOp::Append ==> (redirect_step_of(r, vars) matches Ok(s) ==> step_fd(s) == 1),
        r.fd is None && r.kind == RedirectOp::Write ==> (redirect_step_of(r, vars) matches Ok(s) ==> step_fd(s) == 1),
        r.fd is None && r.kind == RedirectOp::Read ==> (redirect_step_of(r, vars) matches Ok(s) ==> step_fd(s) == 0),
{
}

/// Appending to a file named by plain text opens that file for appending
/// on standard output when no descriptor is named.
pub proof fn law_append_opens_stdout(r: RedirectV, vars: Map<Seq<char>, Seq<char>>)
    requires
        r.fd is None,
        r.kind == RedirectOp::Append,
        word_text(r.target, vars).len() > 0,
        word_text(r.target, vars)[0] != '&',
        trim_text(word_text(r.target, vars)) != "&-"@,
    ensures
        redirect_step_of(r, vars) == Ok::<RedirectStepV, ShellErrorV>(
            RedirectStepV::Open { fd: 1, path: word_text(r.target, vars), mode: OpenMode::Append },
        ),
{
}

} // verus!
