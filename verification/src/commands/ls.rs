use vstd::prelude::*;
use crate::parser::types::strings_view;
use vstd::string::{StrSliceExecFns, StringExecFns};
use crate::strings::{decimal, str_to_chars};

verus! {

/// The `ls` command: targets, options, and the flags the options turn on.
#[derive(Debug, PartialEq, Eq)]
pub struct Ls {
    pub args: Vec<String>,
    pub opts: Vec<String>,
    pub all: bool,
    pub classify: bool,
    pub format: bool,
    pub valid_opts: bool,
}

/// The flags of `ls`: `-a`, `-F`, `-l`, and whether every option was valid.
pub struct LsFlags {
    pub all: bool,
    pub classify: bool,
    pub format: bool,
    pub valid: bool,
}

/// Reading the letters of one option from `k` on: the flags, and whether an
/// unknown letter stopped the reading.
pub open spec fn ls_letters(f: Seq<char>, k: int, st: LsFlags) -> (LsFlags, bool)
    decreases f.len() - k,
{
    if k < 0 || k >= f.len() {
        (st, false)
    } else if f[k] == 'a' {
        ls_letters(f, k + 1, LsFlags { all: true, ..st })
    } else if f[k] == 'F' {
        ls_letters(f, k + 1, LsFlags { classify: true, ..st })
    } else if f[k] == 'l' {
        ls_letters(f, k + 1, LsFlags { format: true, ..st })
    } else {
        (LsFlags { valid: false, ..st }, true)
    }
}

/// Reading the options from `i` on: each must be `-` followed by letters
/// among `a`, `F`, `l`; the first bad one marks the options invalid and
/// ends the reading.
pub open spec fn ls_opts(opts: Seq<Seq<char>>, i: int, st: LsFlags) -> LsFlags
    decreases opts.len() - i,
{
    if i < 0 || i >= opts.len() {
        st
    } else {
        let f = opts[i];
        if f.len() > 1 && f[0] == '-' {
            let (s2, stop) = ls_letters(f, 1, st);
            if stop {
                s2
            } else {
                ls_opts(opts, i + 1, s2)
            }
        } else {
            LsFlags { valid: false, ..st }
        }
    }
}

impl Ls {
    /// The flags as they stand.
    pub open spec fn flags(&self) -> LsFlags {
        LsFlags { all: self.all, classify: self.classify, format: self.format, valid: self.valid_opts }
    }

    /// An `ls` with these targets and options, its flags read from the options.
    pub fn new(args: Vec<String>, opts: Vec<String>) -> (r: Self)
        ensures
            r.args@ == args@,
            r.opts@ == opts@,
            r.flags() == ls_opts(strings_view(opts@), 0, LsFlags { all: false, classify: false, format: false, valid: true }),
    {
        let mut res = Ls { args, opts, all: false, classify: false, format: false, valid_opts: true };
        res.parse_flags();
        res
    }

    /// Turns on the flags that the options name; see `ls_opts`.
    pub fn parse_flags(&mut self)
        ensures
            final(self).args@ == old(self).args@,
            final(self).opts@ == old(self).opts@,
            final(self).flags() == ls_opts(strings_view(old(self).opts@), 0, old(self).flags()),
    {
        let ghost opts = strings_view(self.opts@);
        let ghost start = self.flags();
        let mut i: usize = 0;
        while i < self.opts.len()
            invariant
                0 <= i <= self.opts@.len(),
                opts == strings_view(self.opts@),
                self.args@ == old(self).args@,
                self.opts@ == old(self).opts@,
                start == old(self).flags(),
                ls_opts(opts, i as int, self.flags()) == ls_opts(opts, 0, start),
            decreases self.opts@.len() - i,
        {
            let f = str_to_chars(self.opts[i].as_str());
            assert(opts[i as int] == f@);
            if f.len() > 1 && f[0] == '-' {
                let ghost at_opt = self.flags();
                let mut k: usize = 1;
                while k < f.len()
                    invariant
                        1 <= k <= f@.len(),
                        f@.len() > 1 && f@[0] == '-',
                        opts == strings_view(self.opts@),
                        opts[i as int] == f@,
                        0 <= i < self.opts@.len(),
                        self.args@ == old(self).args@,
                        self.opts@ == old(self).opts@,
                        start == old(self).flags(),
                        ls_letters(f@, k as int, self.flags()) == ls_letters(f@, 1, at_opt),
                        ls_opts(opts, i as int, at_opt) == ls_opts(opts, 0, start),
                    decreases f@.len() - k,
                {
                    let ch = f[k];
                    if ch == 'a' {
                        self.all = true;
                    } else if ch == 'F' {
                        self.classify = true;
                    } else if ch == 'l' {
                        self.format = true;
                    } else {
                        self.valid_opts = false;
                        return;
                    }
                    k = k + 1;
                }
            } else {
                self.valid_opts = false;
                return;
            }
            i = i + 1;
        }
    }
}

} // verus!

verus! {

/// `char::to_ascii_uppercase`.
pub open spec fn ascii_upper(c: char) -> char {
    if 'a' <= c && c <= 'z' {
        ((c as u32) - 32) as char
    } else {
        c
    }
}

fn to_ascii_uppercase(c: char) -> (r: char)
    ensures
        r == ascii_upper(c),
{
    if 'a' <= c && c <= 'z' {
        let u: u8 = (c as u8) - 32;
        u as char
    } else {
        c
    }
}

/// Three permission letters for the bits `bits` (read, write, execute);
/// `special` (set-id or sticky) shows as `special_char` over execute, or
/// as its capital without execute.
pub open spec fn rwx_text(bits: u32, special: bool, special_char: char) -> Seq<char> {
    seq![
        if bits & 4 != 0 { 'r' } else { '-' },
        if bits & 2 != 0 { 'w' } else { '-' },
        if bits & 1 != 0 {
            if special { special_char } else { 'x' }
        } else {
            if special { ascii_upper(special_char) } else { '-' }
        },
    ]
}

/// The nine permission letters of a file mode, as `ls -l` shows them.
pub open spec fn perm_text(mode: u32) -> Seq<char> {
    rwx_text((mode >> 6) & 7, mode & 0o4000 != 0, 's') + rwx_text((mode >> 3) & 7, mode & 0o2000 != 0, 's')
        + rwx_text(mode & 7, mode & 0o1000 != 0, 't')
}

fn rwx(bits: u32, special: bool, special_char: char) -> (r: String)
    ensures
        r@ == rwx_text(bits, special, special_char),
{
    let read = if bits & 4 != 0 { 'r' } else { '-' };
    let write = if bits & 2 != 0 { 'w' } else { '-' };
    let exec = if bits & 1 != 0 {
        if special { special_char } else { 'x' }
    } else {
        if special { to_ascii_uppercase(special_char) } else { '-' }
    };
    let mut s = String::new();
    crate::strings::string_push(&mut s, read);
    crate::strings::string_push(&mut s, write);
    crate::strings::string_push(&mut s, exec);
    assert(s@ =~= rwx_text(bits, special, special_char));
    s
}

/// The permission letters of `mode`; see `perm_text`.
pub fn build_perm_string(mode: u32) -> (r: String)
    ensures
        r@ == perm_text(mode),
{
    let suid = mode & 0o4000 != 0;
    let sgid = mode & 0o2000 != 0;
    let sticky = mode & 0o1000 != 0;
    let mut perm = rwx((mode >> 6) & 0o7, suid, 's');
    let g = rwx((mode >> 3) & 0o7, sgid, 's');
    perm.append(g.as_str());
    let o = rwx(mode & 0o7, sticky, 't');
    perm.append(o.as_str());
    perm
}

/// What kind of file an entry is, as the file system reports it.
pub struct FileTypeInfo {
    pub is_dir: bool,
    pub is_symlink: bool,
    pub is_block_device: bool,
    pub is_char_device: bool,
    pub is_socket: bool,
    pub is_fifo: bool,
    pub is_file: bool,
}

/// The letter `ls -l` shows for a file kind.
pub open spec fn type_char(ft: FileTypeInfo) -> Seq<char> {
    if ft.is_dir {
        "d"@
    } else if ft.is_symlink {
        "l"@
    } else if ft.is_block_device {
        "b"@
    } else if ft.is_char_device {
        "c"@
    } else if ft.is_socket {
        "s"@
    } else if ft.is_fifo {
        "p"@
    } else {
        "-"@
    }
}

/// The letter for a file kind; see `type_char`.
pub fn file_type_char(ft: &FileTypeInfo) -> (r: String)
    ensures
        r@ == type_char(*ft),
{
    if ft.is_dir {
        String::from_str("d")
    } else if ft.is_symlink {
        String::from_str("l")
    } else if ft.is_block_device {
        String::from_str("b")
    } else if ft.is_char_device {
        String::from_str("c")
    } else if ft.is_socket {
        String::from_str("s")
    } else if ft.is_fifo {
        String::from_str("p")
    } else {
        String::from_str("-")
    }
}

/// The mark `ls -F` puts after a name.
pub open spec fn suffix_of(ft: FileTypeInfo, mode: u32) -> Seq<char> {
    if ft.is_dir {
        "/"@
    } else if ft.is_symlink {
        "@"@
    } else if ft.is_socket {
        "="@
    } else if ft.is_fifo {
        "|"@
    } else if ft.is_file && (mode & 0o111 != 0) {
        "*"@
    } else {
        ""@
    }
}

/// The name with the mark for its kind; see `suffix_of`.
pub fn display_name_with_suffix(file_name: &str, ft: &FileTypeInfo, mode: u32) -> (r: String)
    ensures
        r@ == file_name@ + suffix_of(*ft, mode),
{
    let suffix = if ft.is_dir {
        "/"
    } else if ft.is_symlink {
        "@"
    } else if ft.is_socket {
        "="
    } else if ft.is_fifo {
        "|"
    } else if ft.is_file && (mode & 0o111 != 0) {
        "*"
    } else {
        ""
    };
    let s = String::from_str(file_name);
    s.concat(suffix)
}

} // verus!

verus! {

/// The modification time as `ls -l` writes it, for `secs` seconds after
/// 1970-01-01 00:00 UTC: chrono's `%b %e %H:%M` layout of that UTC time.
pub uninterp spec fn ls_time_text(secs: i64) -> Seq<char>;

/// The first second chrono can read as a date (`DateTime::<Utc>::MIN_UTC`).
pub open spec fn chrono_min_secs() -> int {
    -8334601228800
}

/// The last second chrono can read as a date (`DateTime::<Utc>::MAX_UTC`,
/// in December of 262142 CE).
pub open spec fn chrono_max_secs() -> int {
    8210266876799
}

/// Calls `chrono::DateTime::from_timestamp(secs, 0)` and formats its UTC
/// time with `%b %e %H:%M`. Claimed: `None` exactly when the seconds are
/// out of chrono's date range, else the text named by `ls_time_text`,
/// which depends on `secs` alone.
#[verifier::external_body]
pub(crate) fn format_ls_time(secs: i64) -> (r: Option<String>)
    ensures
        r is None <==> !(chrono_min_secs() <= secs <= chrono_max_secs()),
        r matches Some(s) ==> s@ == ls_time_text(secs),
{
    match chrono::DateTime::from_timestamp(secs, 0) {
        Some(dt) => Some(dt.naive_utc().format("%b %e %H:%M").to_string()),
        None => None,
    }
}

/// The time column of `ls -l`: the modification time, or `???` when it is
/// unknown (`None`) or out of chrono's range.
pub open spec fn time_column(mtime: Option<i64>) -> Seq<char> {
    match mtime {
        Some(t) => if chrono_min_secs() <= t <= chrono_max_secs() {
            ls_time_text(t)
        } else {
            "???"@
        },
        None => "???"@,
    }
}

fn time_column_text(mtime: Option<i64>) -> (r: String)
    ensures
        r@ == time_column(mtime),
{
    match mtime {
        Some(t) => match format_ls_time(t) {
            Some(s) => s,
            None => String::from_str("???"),
        },
        None => String::from_str("???"),
    }
}

/// What `ls -l` shows of a file besides its name: kind, mode, link count,
/// owner, group, size and modification time (seconds since 1970-01-01 UTC,
/// `None` when the file system does not give it).
pub struct EntryMeta {
    pub file_type: FileTypeInfo,
    pub mode: u32,
    pub nlink: u64,
    pub user: String,
    pub group: String,
    pub size: u64,
    pub mtime: Option<i64>,
}

/// `s` right-aligned in `width` columns (`{:>width}`).
pub open spec fn pad_left(s: Seq<char>, width: nat) -> Seq<char> {
    if s.len() < width {
        Seq::new((width - s.len()) as nat, |i: int| ' ') + s
    } else {
        s
    }
}

/// The line `ls -l` writes for an entry shown as `name`.
pub open spec fn long_line(m: EntryMeta, name: Seq<char>) -> Seq<char> {
    type_char(m.file_type) + perm_text(m.mode) + " "@ + decimal(m.nlink as nat) + " "@ + m.user@ + " "@ + m.group@
        + " "@ + pad_left(decimal(m.size as nat), 5) + " "@ + time_column(m.mtime) + " "@ + name + "\r"@
}

/// The line `ls` writes for an entry: the name (with its mark under `-F`),
/// in the long layout under `-l`.
pub open spec fn entry_line(classify: bool, format: bool, name: Seq<char>, m: EntryMeta) -> Seq<char> {
    let shown = if classify { name + suffix_of(m.file_type, m.mode) } else { name };
    if format {
        long_line(m, shown)
    } else {
        shown + "\r"@
    }
}

fn pad_left_exec(s: String, width: usize) -> (r: String)
    ensures
        r@ == pad_left(s@, width as nat),
{
    let n = s.unicode_len();
    if n < width {
        let mut out = String::new();
        let mut k: usize = 0;
        while k < width - n
            invariant
                k <= width - n,
                out@ == Seq::new(k as nat, |i: int| ' '),
            decreases width - n - k,
        {
            out.append(" ");
            proof {
                reveal_strlit(" ");
            }
            assert(out@ =~= Seq::new((k + 1) as nat, |i: int| ' '));
            k = k + 1;
        }
        out.concat(s.as_str())
    } else {
        s
    }
}

impl Ls {
    /// The long line for an entry shown as `name`; see `long_line`.
    pub fn format_long_entry(&self, meta: &EntryMeta, name: &str) -> (r: String)
        ensures
            r@ == long_line(*meta, name@),
    {
        let mut s = file_type_char(&meta.file_type);
        let perm = build_perm_string(meta.mode);
        s.append(perm.as_str());
        s.append(" ");
        let nlink = crate::strings::u64_to_decimal(meta.nlink);
        s.append(nlink.as_str());
        s.append(" ");
        s.append(meta.user.as_str());
        s.append(" ");
        s.append(meta.group.as_str());
        s.append(" ");
        let size = pad_left_exec(crate::strings::u64_to_decimal(meta.size), 5);
        s.append(size.as_str());
        s.append(" ");
        let time = time_column_text(meta.mtime);
        s.append(time.as_str());
        s.append(" ");
        s.append(name);
        s.append("\r");
        s
    }

    /// The line for an entry named `name`; see `entry_line`.
    pub fn format_entry(&self, name: &str, meta: &EntryMeta) -> (r: String)
        ensures
            r@ == entry_line(self.classify, self.format, name@, *meta),
    {
        let display_name = if self.classify {
            display_name_with_suffix(name, &meta.file_type, meta.mode)
        } else {
            String::from_str(name)
        };
        if self.format {
            self.format_long_entry(meta, display_name.as_str())
        } else {
            display_name.concat("\r")
        }
    }
}

} // verus!

verus! {

impl Ls {
    /// Whether a directory entry named `file_name` is listed: hidden names
    /// (starting with `.`) only under `-a`.
    pub fn shows_entry(&self, file_name: &str) -> (r: bool)
        ensures
            r == (self.all || !(file_name@.len() > 0 && file_name@[0] == '.')),
    {
        if self.all {
            return true;
        }
        let cs = str_to_chars(file_name);
        !(cs.len() > 0 && cs[0] == '.')
    }

    /// Whether a directory's entries are sorted by path first: only when
    /// no flag is on.
    pub fn sorts_entries(&self) -> (r: bool)
        ensures
            r == (!self.format && !self.classify && !self.all),
    {
        !self.format && !self.classify && !self.all
    }

    /// What to list: the arguments, or `.` when there are none.
    pub fn targets(&self) -> (r: Vec<String>)
        ensures
            self.args@.len() == 0 ==> r@.len() == 1 && r@[0]@ == "."@,
            self.args@.len() > 0 ==> r@.map_values(|s: String| s@) == self.args@.map_values(|s: String| s@),
    {
        if self.args.len() == 0 {
            let mut v: Vec<String> = Vec::new();
            v.push(String::from_str("."));
            v
        } else {
            let mut v: Vec<String> = Vec::new();
            let mut i: usize = 0;
            while i < self.args.len()
                invariant
                    0 <= i <= self.args@.len(),
                    v@.map_values(|s: String| s@) == self.args@.subrange(0, i as int).map_values(|s: String| s@),
                decreases self.args@.len() - i,
            {
                let c = self.args[i].clone();
                assert(c@ == self.args@[i as int]@);
                let ghost v0 = v@;
                v.push(c);
                assert(v@.map_values(|s: String| s@) =~= v0.map_values(|s: String| s@).push(c@));
                assert(v@.map_values(|s: String| s@) =~= self.args@.subrange(0, i + 1).map_values(|s: String| s@));
                i = i + 1;
            }
            assert(self.args@.subrange(0, self.args@.len() as int) =~= self.args@);
            v
        }
    }
}

} // verus!
