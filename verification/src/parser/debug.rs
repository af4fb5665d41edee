use vstd::prelude::*;
use vstd::string::StringExecFns;
use crate::lexer::pretty::{debug_string, push_debug_string};
use crate::lexer::types::{Word, WordV};
use crate::parser::text::{debug_arith, debug_opt_word, debug_word_c, push_debug_arith, push_debug_opt_word, push_debug_word_c};
use crate::parser::types::{AstNode, AstNodeV, Redirect, RedirectOp, RedirectV};
use crate::strings::{decimal, join_with, lemma_join_step};

verus! {

pub open spec fn debug_words(ws: Seq<WordV>) -> Seq<char> {
    "["@ + join_with(Seq::new(ws.len(), |i: int| debug_word_c(ws[i])), ", "@) + "]"@
}

pub open spec fn debug_strings(ss: Seq<Seq<char>>) -> Seq<char> {
    "["@ + join_with(Seq::new(ss.len(), |i: int| debug_string(ss[i])), ", "@) + "]"@
}

pub open spec fn debug_assigns(a: Seq<(Seq<char>, WordV)>) -> Seq<char> {
    "["@ + join_with(Seq::new(a.len(), |i: int| "("@ + debug_string(a[i].0) + ", "@ + debug_word_c(a[i].1) + ")"@), ", "@)
        + "]"@
}

pub open spec fn kind_name(k: RedirectOp) -> Seq<char> {
    match k {
        RedirectOp::Write => "Write"@,
        RedirectOp::Append => "Append"@,
        RedirectOp::Read => "Read"@,
        RedirectOp::HereDoc => "HereDoc"@,
        RedirectOp::ReadWrite => "ReadWrite"@,
    }
}

pub open spec fn debug_opt_fd(fd: Option<u64>) -> Seq<char> {
    match fd {
        Some(n) => "Some("@ + decimal(n as nat) + ")"@,
        None => "None"@,
    }
}

/// A redirection in the compact `Debug` layout.
pub open spec fn debug_redirect(r: RedirectV) -> Seq<char> {
    "Redirect { fd: "@ + debug_opt_fd(r.fd) + ", kind: "@ + kind_name(r.kind) + ", target: "@ + debug_word_c(r.target)
        + " }"@
}

/// A redirection as its `Display` shows it.
pub open spec fn display_redirect(r: RedirectV) -> Seq<char> {
    "Redirect(fd: "@ + debug_opt_fd(r.fd) + ", kind: "@ + kind_name(r.kind) + ", target: "@ + debug_word_c(r.target)
        + ")"@
}

pub open spec fn debug_redirects(rs: Seq<RedirectV>) -> Seq<char> {
    "["@ + join_with(Seq::new(rs.len(), |i: int| debug_redirect(rs[i])), ", "@) + "]"@
}

/// A syntax tree in the compact `Debug` layout.
pub open spec fn debug_ast(n: AstNodeV) -> Seq<char>
    decreases n,
{
    match n {
        AstNodeV::Command { cmd, args, assignments, redirects } => "Command { cmd: "@ + debug_word_c(cmd) + ", args: "@
            + debug_words(args) + ", assignments: "@ + debug_assigns(assignments) + ", redirects: "@ + debug_redirects(
            redirects,
        ) + " }"@,
        AstNodeV::Pipeline(v) => "Pipeline(["@ + debug_ast_list(v) + "])"@,
        AstNodeV::Sequence(v) => "Sequence(["@ + debug_ast_list(v) + "])"@,
        AstNodeV::And(a, b) => "And("@ + debug_ast(*a) + ", "@ + debug_ast(*b) + ")"@,
        AstNodeV::Or(a, b) => "Or("@ + debug_ast(*a) + ", "@ + debug_ast(*b) + ")"@,
        AstNodeV::Not(a) => "Not("@ + debug_ast(*a) + ")"@,
        AstNodeV::Background(a) => "Background("@ + debug_ast(*a) + ")"@,
        AstNodeV::Subshell(a) => "Subshell("@ + debug_ast(*a) + ")"@,
        AstNodeV::Group { commands, redirects } => "Group { commands: ["@ + debug_ast_list(commands) + "], redirects: "@
            + debug_redirects(redirects) + " }"@,
        AstNodeV::If { condition, then_branch, elif, else_branch } => "If { condition: "@ + debug_ast(*condition)
            + ", then_branch: "@ + debug_ast(*then_branch) + ", elif: ["@ + debug_elif_list(elif) + "], else_branch: "@
            + (match else_branch {
            Some(e) => "Some("@ + debug_ast(*e) + ")"@,
            None => "None"@,
        }) + " }"@,
        AstNodeV::While { condition, body } => "While { condition: "@ + debug_ast(*condition) + ", body: "@ + debug_ast(
            *body,
        ) + " }"@,
        AstNodeV::Until { condition, body } => "Until { condition: "@ + debug_ast(*condition) + ", body: "@ + debug_ast(
            *body,
        ) + " }"@,
        AstNodeV::For { var, values, body } => "For { var: "@ + debug_string(var) + ", values: "@ + debug_words(values)
            + ", body: "@ + debug_ast(*body) + " }"@,
        AstNodeV::Case { word, arms } => "Case { word: "@ + debug_string(word) + ", arms: ["@ + debug_arm_list(arms)
            + "] }"@,
        AstNodeV::FunctionDef { name, body } => "FunctionDef { name: "@ + debug_word_c(name) + ", body: "@ + debug_ast(
            *body,
        ) + " }"@,
        AstNodeV::Break(w) => "Break("@ + debug_opt_word(w) + ")"@,
        AstNodeV::Continue(w) => "Continue("@ + debug_opt_word(w) + ")"@,
        AstNodeV::ArithmeticCommand(e) => "ArithmeticCommand("@ + debug_arith(e) + ")"@,
    }
}

pub open spec fn debug_ast_list(v: Seq<AstNodeV>) -> Seq<char>
    decreases v,
{
    if v.len() == 0 {
        Seq::empty()
    } else if v.len() == 1 {
        debug_ast(v[0])
    } else {
        debug_ast_list(v.subrange(0, v.len() - 1)) + ", "@ + debug_ast(v[v.len() - 1])
    }
}

pub open spec fn debug_elif_list(v: Seq<(AstNodeV, AstNodeV)>) -> Seq<char>
    decreases v,
{
    if v.len() == 0 {
        Seq::empty()
    } else {
        (if v.len() == 1 { Seq::empty() } else { debug_elif_list(v.subrange(0, v.len() - 1)) + ", "@ }) + "("@
            + debug_ast(v[v.len() - 1].0) + ", "@ + debug_ast(v[v.len() - 1].1) + ")"@
    }
}

pub open spec fn debug_arm_list(v: Seq<(Seq<Seq<char>>, AstNodeV)>) -> Seq<char>
    decreases v,
{
    if v.len() == 0 {
        Seq::empty()
    } else {
        (if v.len() == 1 { Seq::empty() } else { debug_arm_list(v.subrange(0, v.len() - 1)) + ", "@ }) + "("@
            + debug_strings(v[v.len() - 1].0) + ", "@ + debug_ast(v[v.len() - 1].1) + ")"@
    }
}

/// `2 * n` spaces.
pub open spec fn spaces(n: nat) -> Seq<char>
    decreases n,
{
    if n == 0 {
        Seq::empty()
    } else {
        spaces((n - 1) as nat) + "  "@
    }
}

/// `<indent>    <key> = <word>` lines for the assignments.
pub open spec fn assign_lines(a: Seq<(Seq<char>, WordV)>, sp: Seq<char>) -> Seq<char>
    decreases a.len(),
{
    if a.len() == 0 {
        Seq::empty()
    } else {
        assign_lines(a.drop_last(), sp) + sp + "    "@ + a.last().0 + " = "@ + debug_word_c(a.last().1) + "\n"@
    }
}

pub open spec fn word_lines(ws: Seq<WordV>, sp: Seq<char>) -> Seq<char>
    decreases ws.len(),
{
    if ws.len() == 0 {
        Seq::empty()
    } else {
        word_lines(ws.drop_last(), sp) + sp + "    "@ + debug_word_c(ws.last()) + "\n"@
    }
}

pub open spec fn redirect_lines(rs: Seq<RedirectV>, sp: Seq<char>) -> Seq<char>
    decreases rs.len(),
{
    if rs.len() == 0 {
        Seq::empty()
    } else {
        redirect_lines(rs.drop_last(), sp) + sp + "    "@ + display_redirect(rs.last()) + "\n"@
    }
}

/// The indented outline of a syntax tree that `fmt_with_indent` writes:
/// commands field by field, pipelines and `&&`/`||` with their parts
/// indented below them, anything else in the compact `Debug` layout.
pub open spec fn fmt_text(n: AstNodeV, indent: nat) -> Seq<char>
    decreases n,
{
    let sp = spaces(indent);
    match n {
        AstNodeV::Command { cmd, args, assignments, redirects } => sp + "Command\n"@ + sp + "  cmd: "@ + debug_word_c(cmd)
            + "\n"@ + (if assignments.len() > 0 {
            sp + "  assignments:\n"@ + assign_lines(assignments, sp)
        } else {
            Seq::empty()
        }) + (if args.len() > 0 {
            sp + "  args:\n"@ + word_lines(args, sp)
        } else {
            Seq::empty()
        }) + (if redirects.len() > 0 {
            sp + "  redirects:\n"@ + redirect_lines(redirects, sp)
        } else {
            Seq::empty()
        }),
        AstNodeV::Pipeline(cmds) => sp + "Pipeline\n"@ + pipeline_lines(cmds, indent),
        AstNodeV::And(l, r) => sp + "And (&&)\n"@ + sp + "  left:\n"@ + fmt_text(*l, indent + 2) + sp + "  right:\n"@
            + fmt_text(*r, indent + 2),
        AstNodeV::Or(l, r) => sp + "Or (||)\n"@ + sp + "  left:\n"@ + fmt_text(*l, indent + 2) + sp + "  right:\n"@
            + fmt_text(*r, indent + 2),
        _ => sp + debug_ast(n) + "\n"@,
    }
}

/// `[i]` and the outline of each command of a pipeline.
pub open spec fn pipeline_lines(v: Seq<AstNodeV>, indent: nat) -> Seq<char>
    decreases v,
{
    if v.len() == 0 {
        Seq::empty()
    } else {
        pipeline_lines(v.subrange(0, v.len() - 1), indent) + spaces(indent) + "  ["@ + decimal((v.len() - 1) as nat)
            + "]\n"@ + fmt_text(v[v.len() - 1], indent + 2)
    }
}

/// How deep pipelines, `&&` and `||` nest.
pub open spec fn outline_depth(n: AstNodeV) -> nat
    decreases n,
{
    match n {
        AstNodeV::Pipeline(cmds) => 1 + depth_list(cmds),
        AstNodeV::And(l, r) => 1 + if outline_depth(*l) >= outline_depth(*r) { outline_depth(*l) } else { outline_depth(*r) },
        AstNodeV::Or(l, r) => 1 + if outline_depth(*l) >= outline_depth(*r) { outline_depth(*l) } else { outline_depth(*r) },
        _ => 0,
    }
}

pub open spec fn depth_list(v: Seq<AstNodeV>) -> nat
    decreases v,
{
    if v.len() == 0 {
        0
    } else {
        let a = depth_list(v.subrange(0, v.len() - 1));
        let b = outline_depth(v[v.len() - 1]);
        if a >= b { a } else { b }
    }
}

fn push_debug_words(s: &mut String, ws: &Vec<Word>)
    ensures
        final(s)@ == old(s)@ + debug_words(crate::parser::types::words_view(ws@)),
{
    let ghost wv = crate::parser::types::words_view(ws@);
    let ghost items = Seq::new(wv.len(), |i: int| debug_word_c(wv[i]));
    s.append("[");
    let ghost base = s@;
    let mut i: usize = 0;
    while i < ws.len()
        invariant
            0 <= i <= ws@.len(),
            wv == crate::parser::types::words_view(ws@),
            items == Seq::new(wv.len(), |i: int| debug_word_c(wv[i])),
            s@ == base + join_with(items.subrange(0, i as int), ", "@),
        decreases ws@.len() - i,
    {
        proof {
            lemma_join_step(items, ", "@, i as int);
        }
        if i > 0 {
            s.append(", ");
        }
        push_debug_word_c(s, &ws[i]);
        i = i + 1;
    }
    assert(items.subrange(0, ws@.len() as int) =~= items);
    s.append("]");
}

fn push_debug_strings(s: &mut String, ss: &Vec<String>)
    ensures
        final(s)@ == old(s)@ + debug_strings(crate::parser::types::strings_view(ss@)),
{
    let ghost sv = crate::parser::types::strings_view(ss@);
    let ghost items = Seq::new(sv.len(), |i: int| debug_string(sv[i]));
    s.append("[");
    let ghost base = s@;
    let mut i: usize = 0;
    while i < ss.len()
        invariant
            0 <= i <= ss@.len(),
            sv == crate::parser::types::strings_view(ss@),
            items == Seq::new(sv.len(), |i: int| debug_string(sv[i])),
            s@ == base + join_with(items.subrange(0, i as int), ", "@),
        decreases ss@.len() - i,
    {
        proof {
            lemma_join_step(items, ", "@, i as int);
        }
        if i > 0 {
            s.append(", ");
        }
        push_debug_string(s, &ss[i]);
        i = i + 1;
    }
    assert(items.subrange(0, ss@.len() as int) =~= items);
    s.append("]");
}

fn push_debug_assigns(s: &mut String, a: &Vec<(String, Word)>)
    ensures
        final(s)@ == old(s)@ + debug_assigns(crate::parser::types::assignments_view(a@)),
{
    let ghost av = crate::parser::types::assignments_view(a@);
    let ghost items = Seq::new(av.len(), |i: int| "("@ + debug_string(av[i].0) + ", "@ + debug_word_c(av[i].1) + ")"@);
    s.append("[");
    let ghost base = s@;
    let mut i: usize = 0;
    while i < a.len()
        invariant
            0 <= i <= a@.len(),
            av == crate::parser::types::assignments_view(a@),
            items == Seq::new(av.len(), |i: int| "("@ + debug_string(av[i].0) + ", "@ + debug_word_c(av[i].1) + ")"@),
            s@ == base + join_with(items.subrange(0, i as int), ", "@),
        decreases a@.len() - i,
    {
        proof {
            lemma_join_step(items, ", "@, i as int);
        }
        if i > 0 {
            s.append(", ");
        }
        s.append("(");
        push_debug_string(s, &a[i].0);
        s.append(", ");
        push_debug_word_c(s, &a[i].1);
        s.append(")");
        i = i + 1;
    }
    assert(items.subrange(0, a@.len() as int) =~= items);
    s.append("]");
}

fn push_opt_fd(s: &mut String, fd: Option<u64>)
    ensures
        final(s)@ == old(s)@ + debug_opt_fd(fd),
{
    match fd {
        Some(n) => {
            s.append("Some(");
            let d = crate::strings::u64_to_decimal(n);
            s.append(d.as_str());
            s.append(")");
        },
        None => {
            s.append("None");
        },
    }
}

fn kind_text(k: RedirectOp) -> (r: &'static str)
    ensures
        r@ == kind_name(k),
{
    match k {
        RedirectOp::Write => "Write",
        RedirectOp::Append => "Append",
        RedirectOp::Read => "Read",
        RedirectOp::HereDoc => "HereDoc",
        RedirectOp::ReadWrite => "ReadWrite",
    }
}

fn push_debug_redirect(s: &mut String, r: &Redirect)
    ensures
        final(s)@ == old(s)@ + debug_redirect(r@),
{
    s.append("Redirect { fd: ");
    push_opt_fd(s, r.fd);
    s.append(", kind: ");
    s.append(kind_text(r.kind));
    s.append(", target: ");
    push_debug_word_c(s, &r.target);
    s.append(" }");
}

impl Redirect {
    /// The redirection as its `Display` shows it:
    /// `Redirect(fd: .., kind: .., target: ..)`.
    pub fn display_text(&self) -> (r: String)
        ensures
            r@ == display_redirect(self@),
    {
        let mut s = String::from_str("Redirect(fd: ");
        push_opt_fd(&mut s, self.fd);
        s.append(", kind: ");
        s.append(kind_text(self.kind));
        s.append(", target: ");
        push_debug_word_c(&mut s, &self.target);
        s.append(")");
        s
    }
}

fn push_debug_redirects(s: &mut String, rs: &Vec<Redirect>)
    ensures
        final(s)@ == old(s)@ + debug_redirects(crate::parser::types::redirects_view(rs@)),
{
    let ghost rv = crate::parser::types::redirects_view(rs@);
    let ghost items = Seq::new(rv.len(), |i: int| debug_redirect(rv[i]));
    s.append("[");
    let ghost base = s@;
    let mut i: usize = 0;
    while i < rs.len()
        invariant
            0 <= i <= rs@.len(),
            rv == crate::parser::types::redirects_view(rs@),
            items == Seq::new(rv.len(), |i: int| debug_redirect(rv[i])),
            s@ == base + join_with(items.subrange(0, i as int), ", "@),
        decreases rs@.len() - i,
    {
        proof {
            lemma_join_step(items, ", "@, i as int);
        }
        if i > 0 {
            s.append(", ");
        }
        push_debug_redirect(s, &rs[i]);
        i = i + 1;
    }
    assert(items.subrange(0, rs@.len() as int) =~= items);
    s.append("]");
}

pub proof fn lemma_ast_list_step(v: Seq<AstNodeV>, i: int)
    requires
        0 <= i < v.len(),
    ensures
        debug_ast_list(v.subrange(0, i + 1)) == if i == 0 {
            debug_ast(v[0])
        } else {
            debug_ast_list(v.subrange(0, i)) + ", "@ + debug_ast(v[i])
        },
{
    assert(v.subrange(0, i + 1).subrange(0, i) =~= v.subrange(0, i));
}

impl AstNode {
    /// Appends the tree in the compact `Debug` layout; see `debug_ast`.
    #[verifier::spinoff_prover]
    #[verifier::rlimit(80)]
    pub fn push_debug(&self, s: &mut String)
        ensures
            final(s)@ == old(s)@ + debug_ast(self@),
        decreases self,
    {
        match self {
            AstNode::Command { cmd, args, assignments, redirects } => {
                s.append("Command { cmd: ");
                push_debug_word_c(s, cmd);
                s.append(", args: ");
                push_debug_words(s, args);
                s.append(", assignments: ");
                push_debug_assigns(s, assignments);
                s.append(", redirects: ");
                push_debug_redirects(s, redirects);
                s.append(" }");
            },
            AstNode::Pipeline(v) => {
                s.append("Pipeline([");
                Self::push_debug_list(v, s);
                s.append("])");
            },
            AstNode::Sequence(v) => {
                s.append("Sequence([");
                Self::push_debug_list(v, s);
                s.append("])");
            },
            AstNode::And(a, b) => {
                s.append("And(");
                a.push_debug(s);
                s.append(", ");
                b.push_debug(s);
                s.append(")");
            },
            AstNode::Or(a, b) => {
                s.append("Or(");
                a.push_debug(s);
                s.append(", ");
                b.push_debug(s);
                s.append(")");
            },
            AstNode::Not(a) => {
                s.append("Not(");
                a.push_debug(s);
                s.append(")");
            },
            AstNode::Background(a) => {
                s.append("Background(");
                a.push_debug(s);
                s.append(")");
            },
            AstNode::Subshell(a) => {
                s.append("Subshell(");
                a.push_debug(s);
                s.append(")");
            },
            AstNode::Group { commands, redirects } => {
                s.append("Group { commands: [");
                Self::push_debug_list(commands, s);
                s.append("], redirects: ");
                push_debug_redirects(s, redirects);
                s.append(" }");
            },
            AstNode::If { condition, then_branch, elif, else_branch } => {
                s.append("If { condition: ");
                condition.push_debug(s);
                s.append(", then_branch: ");
                then_branch.push_debug(s);
                s.append(", elif: [");
                Self::push_debug_elifs(elif, s);
                s.append("], else_branch: ");
                match else_branch {
                    Some(e) => {
                        s.append("Some(");
                        e.push_debug(s);
                        s.append(")");
                    },
                    None => {
                        s.append("None");
                    },
                }
                s.append(" }");
            },
            AstNode::While { condition, body } => {
                s.append("While { condition: ");
                condition.push_debug(s);
                s.append(", body: ");
                body.push_debug(s);
                s.append(" }");
            },
            AstNode::Until { condition, body } => {
                s.append("Until { condition: ");
                condition.push_debug(s);
                s.append(", body: ");
                body.push_debug(s);
                s.append(" }");
            },
            AstNode::For { var, values, body } => {
                s.append("For { var: ");
                push_debug_string(s, var);
                s.append(", values: ");
                push_debug_words(s, values);
                s.append(", body: ");
                body.push_debug(s);
                s.append(" }");
            },
            AstNode::Case { word, arms } => {
                s.append("Case { word: ");
                push_debug_string(s, word);
                s.append(", arms: [");
                Self::push_debug_arms(arms, s);
                s.append("] }");
            },
            AstNode::FunctionDef { name, body } => {
                s.append("FunctionDef { name: ");
                push_debug_word_c(s, name);
                s.append(", body: ");
                body.push_debug(s);
                s.append(" }");
            },
            AstNode::Break(w) => {
                s.append("Break(");
                push_debug_opt_word(s, w);
                s.append(")");
            },
            AstNode::Continue(w) => {
                s.append("Continue(");
                push_debug_opt_word(s, w);
                s.append(")");
            },
            AstNode::ArithmeticCommand(e) => {
                s.append("ArithmeticCommand(");
                push_debug_arith(s, e);
                s.append(")");
            },
        }
    }

    fn push_debug_list(v: &Vec<AstNode>, s: &mut String)
        ensures
            final(s)@ == old(s)@ + debug_ast_list(crate::parser::types::asts_view(v@)),
        decreases v,
    {
        let ghost nv = crate::parser::types::asts_view(v@);
        let ghost base = s@;
        let mut i: usize = 0;
        while i < v.len()
            invariant
                0 <= i <= v@.len(),
                nv == crate::parser::types::asts_view(v@),
                s@ == base + debug_ast_list(nv.subrange(0, i as int)),
            decreases v@.len() - i,
        {
            proof {
                crate::parser::types::lemma_asts_index(v@, i as int);
                lemma_ast_list_step(nv, i as int);
            }
            if i > 0 {
                s.append(", ");
            }
            v[i].push_debug(s);
            i = i + 1;
        }
        proof {
            crate::parser::types::lemma_asts_len(v@);
        }
        assert(nv.subrange(0, v@.len() as int) =~= nv);
    }

    fn push_debug_elifs(v: &Vec<(Box<AstNode>, Box<AstNode>)>, s: &mut String)
        ensures
            final(s)@ == old(s)@ + debug_elif_list(crate::parser::types::elifs_view(v@)),
        decreases v,
    {
        let ghost ev = crate::parser::types::elifs_view(v@);
        let ghost base = s@;
        let mut i: usize = 0;
        while i < v.len()
            invariant
                0 <= i <= v@.len(),
                ev == crate::parser::types::elifs_view(v@),
                s@ == base + debug_elif_list(ev.subrange(0, i as int)),
            decreases v@.len() - i,
        {
            proof {
                crate::parser::types::lemma_elifs_index(v@, i as int);
                assert(ev.subrange(0, i + 1).subrange(0, i as int) =~= ev.subrange(0, i as int));
            }
            if i > 0 {
                s.append(", ");
            }
            s.append("(");
            v[i].0.push_debug(s);
            s.append(", ");
            v[i].1.push_debug(s);
            s.append(")");
            i = i + 1;
        }
        proof {
            crate::parser::types::lemma_elifs_len(v@);
        }
        assert(ev.subrange(0, v@.len() as int) =~= ev);
    }

    fn push_debug_arms(v: &Vec<(Vec<String>, AstNode)>, s: &mut String)
        ensures
            final(s)@ == old(s)@ + debug_arm_list(crate::parser::types::arms_view(v@)),
        decreases v,
    {
        let ghost av = crate::parser::types::arms_view(v@);
        let ghost base = s@;
        let mut i: usize = 0;
        while i < v.len()
            invariant
                0 <= i <= v@.len(),
                av == crate::parser::types::arms_view(v@),
                s@ == base + debug_arm_list(av.subrange(0, i as int)),
            decreases v@.len() - i,
        {
            proof {
                crate::parser::types::lemma_arms_index(v@, i as int);
                assert(av.subrange(0, i + 1).subrange(0, i as int) =~= av.subrange(0, i as int));
            }
            if i > 0 {
                s.append(", ");
            }
            s.append("(");
            push_debug_strings(s, &v[i].0);
            s.append(", ");
            v[i].1.push_debug(s);
            s.append(")");
            i = i + 1;
        }
        proof {
            crate::parser::types::lemma_arms_len(v@);
        }
        assert(av.subrange(0, v@.len() as int) =~= av);
    }
}

pub proof fn lemma_depth_list(v: Seq<AstNodeV>, i: int)
    requires
        0 <= i < v.len(),
    ensures
        outline_depth(v[i]) <= depth_list(v),
    decreases v.len(),
{
    if i < v.len() - 1 {
        let t = v.subrange(0, v.len() - 1);
        lemma_depth_list(t, i);
        assert(t[i] == v[i]);
    }
}

pub proof fn lemma_pipeline_step(v: Seq<AstNodeV>, indent: nat, i: int)
    requires
        0 <= i < v.len(),
    ensures
        pipeline_lines(v.subrange(0, i + 1), indent) == pipeline_lines(v.subrange(0, i), indent) + spaces(indent)
            + "  ["@ + decimal(i as nat) + "]\n"@ + fmt_text(v[i], indent + 2),
{
    assert(v.subrange(0, i + 1).subrange(0, i) =~= v.subrange(0, i));
}

/// `2 * n` spaces (`"  ".repeat(n)`).
fn spaces_string(n: usize) -> (r: String)
    ensures
        r@ == spaces(n as nat),
{
    let mut s = String::new();
    let mut i: usize = 0;
    while i < n
        invariant
            i <= n,
            s@ == spaces(i as nat),
        decreases n - i,
    {
        s.append("  ");
        i = i + 1;
    }
    s
}

fn push_assign_lines(s: &mut String, a: &Vec<(String, Word)>, sp: &String)
    ensures
        final(s)@ == old(s)@ + assign_lines(crate::parser::types::assignments_view(a@), sp@),
{
    let ghost av = crate::parser::types::assignments_view(a@);
    let ghost base = s@;
    let mut i: usize = 0;
    while i < a.len()
        invariant
            0 <= i <= a@.len(),
            av == crate::parser::types::assignments_view(a@),
            s@ == base + assign_lines(av.subrange(0, i as int), sp@),
        decreases a@.len() - i,
    {
        assert(av.subrange(0, i + 1).drop_last() =~= av.subrange(0, i as int));
        s.append(sp.as_str());
        s.append("    ");
        s.append(a[i].0.as_str());
        s.append(" = ");
        push_debug_word_c(s, &a[i].1);
        s.append("\n");
        i = i + 1;
    }
    assert(av.subrange(0, a@.len() as int) =~= av);
}

fn push_word_lines(s: &mut String, ws: &Vec<Word>, sp: &String)
    ensures
        final(s)@ == old(s)@ + word_lines(crate::parser::types::words_view(ws@), sp@),
{
    let ghost wv = crate::parser::types::words_view(ws@);
    let ghost base = s@;
    let mut i: usize = 0;
    while i < ws.len()
        invariant
            0 <= i <= ws@.len(),
            wv == crate::parser::types::words_view(ws@),
            s@ == base + word_lines(wv.subrange(0, i as int), sp@),
        decreases ws@.len() - i,
    {
        assert(wv.subrange(0, i + 1).drop_last() =~= wv.subrange(0, i as int));
        s.append(sp.as_str());
        s.append("    ");
        push_debug_word_c(s, &ws[i]);
        s.append("\n");
        i = i + 1;
    }
    assert(wv.subrange(0, ws@.len() as int) =~= wv);
}

fn push_redirect_lines(s: &mut String, rs: &Vec<Redirect>, sp: &String)
    ensures
        final(s)@ == old(s)@ + redirect_lines(crate::parser::types::redirects_view(rs@), sp@),
{
    let ghost rv = crate::parser::types::redirects_view(rs@);
    let ghost base = s@;
    let mut i: usize = 0;
    while i < rs.len()
        invariant
            0 <= i <= rs@.len(),
            rv == crate::parser::types::redirects_view(rs@),
            s@ == base + redirect_lines(rv.subrange(0, i as int), sp@),
        decreases rs@.len() - i,
    {
        assert(rv.subrange(0, i + 1).drop_last() =~= rv.subrange(0, i as int));
        s.append(sp.as_str());
        s.append("    ");
        let t = rs[i].display_text();
        s.append(t.as_str());
        s.append("\n");
        i = i + 1;
    }
    assert(rv.subrange(0, rs@.len() as int) =~= rv);
}

impl AstNode {
    /// The indented outline of the tree at indentation `indent` (two spaces
    /// a level), as the `Display` of a tree shows it from level 0; see
    /// `fmt_text`. `requires` keeps the indentation countable.
    #[verifier::spinoff_prover]
    #[verifier::rlimit(60)]
    pub fn fmt_with_indent(&self, indent: usize) -> (r: String)
        requires
            indent + 2 * outline_depth(self@) <= usize::MAX / 2,
        ensures
            r@ == fmt_text(self@, indent as nat),
        decreases self,
    {
        let spaces_s = spaces_string(indent);
        let mut s = spaces_s.clone();
        match self {
            AstNode::Command { cmd, args, assignments, redirects } => {
                s.append("Command\n");
                s.append(spaces_s.as_str());
                s.append("  cmd: ");
                push_debug_word_c(&mut s, cmd);
                s.append("\n");
                if assignments.len() > 0 {
                    s.append(spaces_s.as_str());
                    s.append("  assignments:\n");
                    push_assign_lines(&mut s, assignments, &spaces_s);
                }
                if args.len() > 0 {
                    s.append(spaces_s.as_str());
                    s.append("  args:\n");
                    push_word_lines(&mut s, args, &spaces_s);
                }
                if redirects.len() > 0 {
                    s.append(spaces_s.as_str());
                    s.append("  redirects:\n");
                    push_redirect_lines(&mut s, redirects, &spaces_s);
                }
                s
            },
            AstNode::Pipeline(commands) => {
                s.append("Pipeline\n");
                let lines = Self::pipeline_text(commands, indent);
                s.append(lines.as_str());
                s
            },
            AstNode::And(left, right) => {
                s.append("And (&&)\n");
                s.append(spaces_s.as_str());
                s.append("  left:\n");
                let l = left.fmt_with_indent(indent + 2);
                s.append(l.as_str());
                s.append(spaces_s.as_str());
                s.append("  right:\n");
                let r = right.fmt_with_indent(indent + 2);
                s.append(r.as_str());
                s
            },
            AstNode::Or(left, right) => {
                s.append("Or (||)\n");
                s.append(spaces_s.as_str());
                s.append("  left:\n");
                let l = left.fmt_with_indent(indent + 2);
                s.append(l.as_str());
                s.append(spaces_s.as_str());
                s.append("  right:\n");
                let r = right.fmt_with_indent(indent + 2);
                s.append(r.as_str());
                s
            },
            _ => {
                self.push_debug(&mut s);
                s.append("\n");
                s
            },
        }
    }

    fn pipeline_text(commands: &Vec<AstNode>, indent: usize) -> (r: String)
        requires
            indent + 2 * (1 + depth_list(crate::parser::types::asts_view(commands@))) <= usize::MAX / 2,
        ensures
            r@ == pipeline_lines(crate::parser::types::asts_view(commands@), indent as nat),
        decreases commands,
    {
        let ghost cv = crate::parser::types::asts_view(commands@);
        let spaces_s = spaces_string(indent);
        let mut s = String::new();
        let mut i: usize = 0;
        while i < commands.len()
            invariant
                0 <= i <= commands@.len(),
                cv == crate::parser::types::asts_view(commands@),
                spaces_s@ == spaces(indent as nat),
                indent + 2 * (1 + depth_list(cv)) <= usize::MAX / 2,
                s@ == pipeline_lines(cv.subrange(0, i as int), indent as nat),
            decreases commands@.len() - i,
        {
            proof {
                crate::parser::types::lemma_asts_index(commands@, i as int);
                lemma_pipeline_step(cv, indent as nat, i as int);
                lemma_depth_list(cv, i as int);
            }
            s.append(spaces_s.as_str());
            s.append("  [");
            let d = crate::strings::u64_to_decimal(i as u64);
            s.append(d.as_str());
            s.append("]\n");
            let t = commands[i].fmt_with_indent(indent + 2);
            s.append(t.as_str());
            i = i + 1;
        }
        proof {
            crate::parser::types::lemma_asts_len(commands@);
        }
        assert(cv.subrange(0, commands@.len() as int) =~= cv);
        s
    }
}

} // verus!

verus! {

proof fn lemma_spaces(n: nat)
    ensures
        spaces(n).len() == 2 * n,
        forall|i: int| 0 <= i < spaces(n).len() ==> #[trigger] spaces(n)[i] == ' ',
    decreases n,
{
    reveal_strlit("  ");
    if n > 0 {
        lemma_spaces((n - 1) as nat);
        let a = spaces((n - 1) as nat);
        assert forall|i: int| 0 <= i < spaces(n).len() implies #[trigger] spaces(n)[i] == ' ' by {
            if i < a.len() {
                assert(spaces(n)[i] == a[i]);
            } else {
                assert(spaces(n)[i] == "  "@[i - a.len()]);
            }
        }
    }
}

/// The outline at indentation `k` (`2 * k` spaces): `&&` and `||` give
/// their name line, then `left:` and `right:` lines each followed by the
/// outline of that side two levels deeper; a pipeline gives its name line,
/// then for each command in order a `[i]` line and its outline two levels
/// deeper; an empty pipeline gives the name line alone.
pub proof fn law_outline_layout(l: AstNodeV, r: AstNodeV, cs: Seq<AstNodeV>, c: AstNodeV, k: nat)
    ensures
        spaces(k).len() == 2 * k,
        forall|i: int| 0 <= i < spaces(k).len() ==> #[trigger] spaces(k)[i] == ' ',
        fmt_text(AstNodeV::And(Box::new(l), Box::new(r)), k) == spaces(k) + "And (&&)\n"@ + spaces(k) + "  left:\n"@
            + fmt_text(l, k + 2) + spaces(k) + "  right:\n"@ + fmt_text(r, k + 2),
        fmt_text(AstNodeV::Or(Box::new(l), Box::new(r)), k) == spaces(k) + "Or (||)\n"@ + spaces(k) + "  left:\n"@
            + fmt_text(l, k + 2) + spaces(k) + "  right:\n"@ + fmt_text(r, k + 2),
        fmt_text(AstNodeV::Pipeline(cs), k) == spaces(k) + "Pipeline\n"@ + pipeline_lines(cs, k),
        pipeline_lines(Seq::empty(), k) == Seq::<char>::empty(),
        pipeline_lines(cs.push(c), k) == pipeline_lines(cs, k) + spaces(k) + "  ["@ + decimal(cs.len()) + "]\n"@
            + fmt_text(c, k + 2),
{
    lemma_spaces(k);
    assert(cs.push(c).subrange(0, cs.len() as int) =~= cs);
    assert(cs.push(c)[cs.len() as int] == c);
}

} // verus!
