use vstd::prelude::*;
use crate::strings::{chars_to_string, join_chars, join_with};

verus! {

/// The `echo` command and its arguments.
pub struct Echo {
    args: Vec<String>,
}

/// What `format_input` has read so far: the words finished, the word being
/// read, the open quote if any, and whether a backslash is pending.
pub struct EchoSt {
    pub res: Seq<Seq<char>>,
    pub current: Seq<char>,
    pub quote: Option<char>,
    pub escaped: bool,
}

/// Reading one more character.
pub open spec fn echo_step(st: EchoSt, c: char) -> EchoSt {
    if st.escaped {
        EchoSt { current: st.current.push(c), escaped: false, ..st }
    } else if c == '\\' {
        EchoSt { escaped: true, ..st }
    } else if c == '\'' || c == '"' {
        match st.quote {
            Some(q) => if c == q {
                EchoSt { quote: None, res: st.res.push(st.current), current: Seq::empty(), ..st }
            } else {
                EchoSt { current: st.current.push(c), ..st }
            },
            None => EchoSt { quote: Some(c), ..st },
        }
    } else if c == ' ' && st.quote is None {
        if st.current.len() > 0 {
            EchoSt { res: st.res.push(st.current), current: Seq::empty(), ..st }
        } else {
            st
        }
    } else {
        EchoSt { current: st.current.push(c), ..st }
    }
}

/// Reading all of `s`.
pub open spec fn echo_run(s: Seq<char>) -> EchoSt
    decreases s.len(),
{
    if s.len() == 0 {
        EchoSt { res: Seq::empty(), current: Seq::empty(), quote: None, escaped: false }
    } else {
        echo_step(echo_run(s.drop_last()), s.last())
    }
}

/// The words of `s` (quotes and backslashes taken off), or `None` when a
/// quote is left open or the text ends in a backslash.
pub open spec fn echo_words(s: Seq<char>) -> Option<Seq<Seq<char>>> {
    let st = echo_run(s);
    if st.escaped || st.quote is Some {
        None
    } else {
        Some(if st.current.len() > 0 { st.res.push(st.current) } else { st.res })
    }
}

impl Echo {
    /// The arguments, by value.
    pub closed spec fn args(&self) -> Seq<Seq<char>> {
        self.args@.map_values(|s: String| s@)
    }

    pub fn new(args: Vec<String>) -> (r: Self)
        ensures
            r.args() == args@.map_values(|s: String| s@),
    {
        Echo { args }
    }

    /// The words that `echo` prints: the arguments joined with spaces, then
    /// split again at unquoted spaces, with quotes and backslashes taken
    /// off; `None` for an open quote or a trailing backslash.
    pub fn format_input(&self) -> (r: Option<Vec<String>>)
        ensures
            match r {
                Some(v) => echo_words(join_with(self.args(), " "@)) == Some(v@.map_values(|s: String| s@)),
                None => echo_words(join_with(self.args(), " "@)) is None,
            },
    {
        let input = join_chars(&self.args, " ");
        let mut res: Vec<String> = Vec::new();
        let mut current: Vec<char> = Vec::new();
        let mut quote: Option<char> = None;
        let mut escaped = false;
        let mut i: usize = 0;
        assert(res@.map_values(|s: String| s@) =~= Seq::<Seq<char>>::empty());
        assert(input@.subrange(0, 0) =~= Seq::<char>::empty());
        assert(current@ =~= Seq::<char>::empty());
        while i < input.len()
            invariant
                0 <= i <= input@.len(),
                echo_run(input@.subrange(0, i as int)) == (EchoSt {
                    res: res@.map_values(|s: String| s@),
                    current: current@,
                    quote,
                    escaped,
                }),
            decreases input@.len() - i,
        {
            let c = input[i];
            assert(input@.subrange(0, i + 1).drop_last() =~= input@.subrange(0, i as int));
            let ghost r0 = res@;
            if escaped {
                current.push(c);
                escaped = false;
            } else if c == '\\' {
                escaped = true;
            } else if c == '\'' || c == '"' {
                match quote {
                    Some(q) => {
                        if c == q {
                            quote = None;
                            res.push(chars_to_string(current.as_slice()));
                            assert(res@.map_values(|s: String| s@) =~= r0.map_values(|s: String| s@).push(current@));
                            current = Vec::new();
                        } else {
                            current.push(c);
                        }
                    },
                    None => {
                        quote = Some(c);
                    },
                }
            } else if c == ' ' && quote.is_none() {
                if current.len() > 0 {
                    res.push(chars_to_string(current.as_slice()));
                    assert(res@.map_values(|s: String| s@) =~= r0.map_values(|s: String| s@).push(current@));
                    current = Vec::new();
                }
            } else {
                current.push(c);
            }
            i = i + 1;
        }
        assert(input@.subrange(0, input@.len() as int) =~= input@);
        if escaped || quote.is_some() {
            None
        } else {
            if current.len() > 0 {
                let ghost r0 = res@;
                res.push(chars_to_string(current.as_slice()));
                assert(res@.map_values(|s: String| s@) =~= r0.map_values(|s: String| s@).push(current@));
            }
            Some(res)
        }
    }
}

} // verus!

verus! {

/// A word `echo` prints as it is: not empty, with no space, quote or
/// backslash in it.
pub open spec fn plain_word(w: Seq<char>) -> bool {
    w.len() > 0 && plain_chars(w)
}

/// No space, quote or backslash in `w`.
pub open spec fn plain_chars(w: Seq<char>) -> bool {
    forall|i: int| 0 <= i < w.len() ==> w[i] != ' ' && w[i] != '\'' && w[i] != '"' && w[i] != '\\'
}

proof fn lemma_run_plain(s: Seq<char>, w: Seq<char>)
    requires
        echo_run(s).quote is None,
        !echo_run(s).escaped,
        plain_chars(w),
    ensures
        echo_run(s + w).res == echo_run(s).res,
        echo_run(s + w).current == echo_run(s).current + w,
        echo_run(s + w).quote is None,
        !echo_run(s + w).escaped,
    decreases w.len(),
{
    if w.len() == 0 {
        assert(s + w =~= s);
        assert(echo_run(s).current + w =~= echo_run(s).current);
    } else {
        let w0 = w.drop_last();
        assert(plain_chars(w0)) by {
            assert forall|i: int| 0 <= i < w0.len() implies w0[i] != ' ' && w0[i] != '\'' && w0[i] != '"'
                && w0[i] != '\\' by {
                assert(w0[i] == w[i]);
            }
        }
        lemma_run_plain(s, w0);
        assert((s + w).drop_last() =~= s + w0);
        assert((s + w).last() == w.last());
        assert(w.last() == w[w.len() - 1]);
        assert(echo_run(s).current + w =~= (echo_run(s).current + w0).push(w.last()));
    }
}

proof fn lemma_run_space(s: Seq<char>)
    requires
        echo_run(s).quote is None,
        !echo_run(s).escaped,
        echo_run(s).current.len() > 0,
    ensures
        echo_run(s + " "@).res == echo_run(s).res.push(echo_run(s).current),
        echo_run(s + " "@).current == Seq::<char>::empty(),
        echo_run(s + " "@).quote is None,
        !echo_run(s + " "@).escaped,
{
    reveal_strlit(" ");
    assert((s + " "@).drop_last() =~= s);
    assert((s + " "@).last() == ' ');
}

proof fn lemma_echo_join(args: Seq<Seq<char>>, n: int)
    requires
        1 <= n <= args.len(),
        forall|i: int| 0 <= i < args.len() ==> plain_word(#[trigger] args[i]),
    ensures
        echo_run(join_with(args.subrange(0, n), " "@)).res == args.subrange(0, n - 1),
        echo_run(join_with(args.subrange(0, n), " "@)).current == args[n - 1],
        echo_run(join_with(args.subrange(0, n), " "@)).quote is None,
        !echo_run(join_with(args.subrange(0, n), " "@)).escaped,
    decreases n,
{
    assert(plain_word(args[n - 1]));
    if n == 1 {
        let e = Seq::<char>::empty();
        lemma_run_plain(e, args[0]);
        assert(e + args[0] =~= args[0]);
        assert(join_with(args.subrange(0, 1), " "@) == args[0]);
        assert(args.subrange(0, 0) =~= Seq::<Seq<char>>::empty());
    } else {
        lemma_echo_join(args, n - 1);
        crate::strings::lemma_join_step(args, " "@, n - 1);
        let prev = join_with(args.subrange(0, n - 1), " "@);
        lemma_run_space(prev);
        lemma_run_plain(prev + " "@, args[n - 1]);
        assert(join_with(args.subrange(0, n), " "@) == prev + " "@ + args[n - 1]);
        assert(args.subrange(0, n - 2).push(args[n - 2]) =~= args.subrange(0, n - 1));
        assert(Seq::<char>::empty() + args[n - 1] =~= args[n - 1]);
    }
}

/// `echo` prints plain arguments as they are: the words of the arguments
/// joined with spaces are the arguments.
pub proof fn law_echo_plain_words(args: Seq<Seq<char>>)
    requires
        forall|i: int| 0 <= i < args.len() ==> plain_word(#[trigger] args[i]),
    ensures
        echo_words(join_with(args, " "@)) == Some(args),
{
    if args.len() == 0 {
        assert(echo_run(Seq::<char>::empty()).res =~= Seq::<Seq<char>>::empty());
    } else {
        let n = args.len() as int;
        lemma_echo_join(args, n);
        assert(args.subrange(0, n) =~= args);
        assert(args.subrange(0, n - 1).push(args[n - 1]) =~= args);
    }
}

} // verus!
