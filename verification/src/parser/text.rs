use vstd::prelude::*;
use vstd::string::StringExecFns;
use crate::envirement::ShellEnv;
use crate::lexer::pretty::{debug_string, push_debug_string, quote_name};
use crate::lexer::types::{QuoteType, Word, WordPart, WordPartV, WordV};
use crate::parser::types::{
    ArithmeticExpr, ArithmeticExprV, AstNode, AstNodeV, BinaryOperator, Redirect, RedirectOp, RedirectV,
    UnaryOperator,
};
use crate::strings::{decimal, join_strings, join_with, u64_to_decimal};

verus! {

/// The text of a word part: a literal as it is, a variable by its value
/// (nothing when unset); substitutions are not expanded and give nothing.
pub open spec fn part_text(p: WordPartV, vars: Map<Seq<char>, Seq<char>>) -> Seq<char> {
    match p {
        WordPartV::Literal(s) => s,
        WordPartV::VariableSubstitution(v) => if vars.contains_key(v) { vars[v] } else { Seq::empty() },
        _ => Seq::empty(),
    }
}

pub open spec fn parts_text(ps: Seq<WordPartV>, vars: Map<Seq<char>, Seq<char>>) -> Seq<char>
    decreases ps.len(),
{
    if ps.len() == 0 {
        Seq::empty()
    } else {
        parts_text(ps.drop_last(), vars) + part_text(ps.last(), vars)
    }
}

/// The text of a word with its variables replaced by their values.
pub open spec fn word_text(w: WordV, vars: Map<Seq<char>, Seq<char>>) -> Seq<char> {
    parts_text(w.parts, vars)
}

/// A word with its variables replaced by their values (`word_to_string`).
pub fn word_to_string(word: &Word, env: &ShellEnv) -> (r: String)
    ensures
        r@ == word_text(word@, env.vars()),
{
    let mut result = String::new();
    let mut i: usize = 0;
    while i < word.parts.len()
        invariant
            0 <= i <= word.parts@.len(),
            result@ == parts_text(word@.parts.subrange(0, i as int), env.vars()),
        decreases word.parts@.len() - i,
    {
        assert(word@.parts.subrange(0, i + 1).drop_last() =~= word@.parts.subrange(0, i as int));
        match &word.parts[i] {
            WordPart::Literal(s) => {
                result.append(s.as_str());
            },
            WordPart::VariableSubstitution(var) => {
                match env.get_var(var.as_str()) {
                    Some(val) => {
                        result.append(val.as_str());
                    },
                    None => {
                        assert(result@ + Seq::<char>::empty() =~= result@);
                    },
                }
            },
            _ => {
                assert(result@ + Seq::<char>::empty() =~= result@);
            },
        }
        i = i + 1;
    }
    assert(word@.parts.subrange(0, word.parts@.len() as int) =~= word@.parts);
    result
}

/// The operator of a redirection kind.
pub open spec fn op_text(k: RedirectOp) -> Seq<char> {
    match k {
        RedirectOp::Write => ">"@,
        RedirectOp::Append => ">>"@,
        RedirectOp::Read => "<"@,
        RedirectOp::HereDoc => "<<"@,
        RedirectOp::ReadWrite => "<>"@,
    }
}

/// A redirection as text: its descriptor, operator and expanded target.
pub open spec fn redirect_text(r: RedirectV, vars: Map<Seq<char>, Seq<char>>) -> Seq<char> {
    (match r.fd {
        Some(fd) => decimal(fd as nat),
        None => Seq::empty(),
    }) + op_text(r.kind) + word_text(r.target, vars)
}

/// The pieces of a command's text: `NAME=value` for each assignment, the
/// command word, the arguments and the redirections.
pub open spec fn command_pieces(
    cmd: WordV,
    args: Seq<WordV>,
    assigns: Seq<(Seq<char>, WordV)>,
    redirs: Seq<RedirectV>,
    vars: Map<Seq<char>, Seq<char>>,
) -> Seq<Seq<char>> {
    Seq::new(assigns.len(), |i: int| assigns[i].0 + "="@ + word_text(assigns[i].1, vars)).push(word_text(cmd, vars))
        + Seq::new(args.len(), |i: int| word_text(args[i], vars))
        + Seq::new(redirs.len(), |i: int| redirect_text(redirs[i], vars))
}

/// ` <redirection>` for each redirection.
pub open spec fn redirects_suffix(rs: Seq<RedirectV>, vars: Map<Seq<char>, Seq<char>>) -> Seq<char>
    decreases rs.len(),
{
    if rs.len() == 0 {
        Seq::empty()
    } else {
        redirects_suffix(rs.drop_last(), vars) + " "@ + redirect_text(rs.last(), vars)
    }
}

/// A string in the compact `Debug` layout of a word part.
pub open spec fn debug_part_c(p: WordPartV) -> Seq<char> {
    match p {
        WordPartV::Literal(x) => "Literal("@ + debug_string(x) + ")"@,
        WordPartV::VariableSubstitution(x) => "VariableSubstitution("@ + debug_string(x) + ")"@,
        WordPartV::ArithmeticSubstitution(x) => "ArithmeticSubstitution("@ + debug_string(x) + ")"@,
        WordPartV::CommandSubstitution(x) => "CommandSubstitution("@ + debug_string(x) + ")"@,
    }
}

pub open spec fn debug_part_list(ps: Seq<WordPartV>) -> Seq<char>
    decreases ps.len(),
{
    if ps.len() == 0 {
        Seq::empty()
    } else if ps.len() == 1 {
        debug_part_c(ps[0])
    } else {
        debug_part_list(ps.drop_last()) + ", "@ + debug_part_c(ps.last())
    }
}

/// A word in the compact `Debug` layout.
pub open spec fn debug_word_c(w: WordV) -> Seq<char> {
    "Word { parts: ["@ + debug_part_list(w.parts) + "], quote: "@ + quote_name(w.quote) + " }"@
}

pub open spec fn debug_opt_word(w: Option<WordV>) -> Seq<char> {
    match w {
        Some(w) => "Some("@ + debug_word_c(w) + ")"@,
        None => "None"@,
    }
}

/// The decimal text of an integer, with `-` when negative.
pub open spec fn int_text(n: int) -> Seq<char> {
    if n < 0 {
        "-"@ + decimal((-n) as nat)
    } else {
        decimal(n as nat)
    }
}

pub open spec fn unop_name(op: UnaryOperator) -> Seq<char> {
    match op {
        UnaryOperator::Negate => "Negate"@,
        UnaryOperator::Not => "Not"@,
        UnaryOperator::BitNot => "BitNot"@,
    }
}

pub open spec fn binop_name(op: BinaryOperator) -> Seq<char> {
    match op {
        BinaryOperator::Add => "Add"@,
        BinaryOperator::Sub => "Sub"@,
        BinaryOperator::Mul => "Mul"@,
        BinaryOperator::Div => "Div"@,
        BinaryOperator::Mod => "Mod"@,
        BinaryOperator::Eq => "Eq"@,
        BinaryOperator::Neq => "Neq"@,
        BinaryOperator::Lt => "Lt"@,
        BinaryOperator::Gt => "Gt"@,
        BinaryOperator::Le => "Le"@,
        BinaryOperator::Ge => "Ge"@,
        BinaryOperator::BitAnd => "BitAnd"@,
        BinaryOperator::BitOr => "BitOr"@,
        BinaryOperator::BitXor => "BitXor"@,
        BinaryOperator::ShiftLeft => "ShiftLeft"@,
        BinaryOperator::ShiftRight => "ShiftRight"@,
        BinaryOperator::LogicalAnd => "LogicalAnd"@,
        BinaryOperator::LogicalOr => "LogicalOr"@,
    }
}

/// An arithmetic expression in the compact `Debug` layout.
pub open spec fn debug_arith(e: ArithmeticExprV) -> Seq<char>
    decreases e,
{
    match e {
        ArithmeticExprV::Literal(n) => "Literal("@ + int_text(n as int) + ")"@,
        ArithmeticExprV::Variable(s) => "Variable("@ + debug_string(s) + ")"@,
        ArithmeticExprV::UnaryOp { op, expr } => "UnaryOp { op: "@ + unop_name(op) + ", expr: "@ + debug_arith(*expr)
            + " }"@,
        ArithmeticExprV::BinaryOp { op, lhs, rhs } => "BinaryOp { op: "@ + binop_name(op) + ", lhs: "@ + debug_arith(*lhs)
            + ", rhs: "@ + debug_arith(*rhs) + " }"@,
        ArithmeticExprV::Assignment { var, value } => "Assignment { var: "@ + debug_string(var) + ", value: "@
            + debug_arith(*value) + " }"@,
    }
}

/// A command line as shell text (`AstNode::to_text`), with variables
/// replaced by their values.
pub open spec fn ast_text(n: AstNodeV, vars: Map<Seq<char>, Seq<char>>) -> Seq<char>
    decreases n,
{
    match n {
        AstNodeV::Command { cmd, args, assignments, redirects } => join_with(
            command_pieces(cmd, args, assignments, redirects, vars),
            " "@,
        ),
        AstNodeV::Pipeline(v) => join_asts(v, " | "@, vars),
        AstNodeV::Sequence(v) => join_asts(v, "; "@, vars),
        AstNodeV::And(a, b) => ast_text(*a, vars) + " && "@ + ast_text(*b, vars),
        AstNodeV::Or(a, b) => ast_text(*a, vars) + " || "@ + ast_text(*b, vars),
        AstNodeV::Not(a) => "! "@ + ast_text(*a, vars),
        AstNodeV::Background(a) => ast_text(*a, vars) + " &"@,
        AstNodeV::Subshell(a) => "($"@ + ast_text(*a, vars) + ")"@,
        AstNodeV::Group { commands, redirects } => "{ "@ + join_asts(commands, "; "@, vars) + "; }"@
            + redirects_suffix(redirects, vars),
        AstNodeV::If { condition, then_branch, elif, else_branch } => "if "@ + ast_text(*condition, vars)
            + "; then "@ + ast_text(*then_branch, vars) + elifs_text(elif, vars) + (match else_branch {
            Some(e) => " else "@ + ast_text(*e, vars),
            None => Seq::empty(),
        }) + " fi"@,
        AstNodeV::While { condition, body } => "while "@ + ast_text(*condition, vars) + "; do "@ + ast_text(
            *body,
            vars,
        ) + "; done"@,
        AstNodeV::Until { condition, body } => "until "@ + ast_text(*condition, vars) + "; do "@ + ast_text(
            *body,
            vars,
        ) + "; done"@,
        AstNodeV::For { .. } => Seq::empty(),
        AstNodeV::Case { word, arms } => "case "@ + word + " in"@ + arms_text(arms, vars) + " esac"@,
        AstNodeV::FunctionDef { name, body } => word_text(name, vars) + "() { "@ + ast_text(*body, vars) + "; }"@,
        AstNodeV::Break(w) => "Break("@ + debug_opt_word(w) + ")"@,
        AstNodeV::Continue(w) => "Continue("@ + debug_opt_word(w) + ")"@,
        AstNodeV::ArithmeticCommand(e) => "ArithmeticCommand("@ + debug_arith(e) + ")"@,
    }
}

/// The texts of `v` with `sep` between each two.
pub open spec fn join_asts(v: Seq<AstNodeV>, sep: Seq<char>, vars: Map<Seq<char>, Seq<char>>) -> Seq<char>
    decreases v,
{
    if v.len() == 0 {
        Seq::empty()
    } else if v.len() == 1 {
        ast_text(v[0], vars)
    } else {
        join_asts(v.subrange(0, v.len() - 1), sep, vars) + sep + ast_text(v[v.len() - 1], vars)
    }
}

/// ` elif <cond>; then <body>` for each `elif` branch.
pub open spec fn elifs_text(v: Seq<(AstNodeV, AstNodeV)>, vars: Map<Seq<char>, Seq<char>>) -> Seq<char>
    decreases v,
{
    if v.len() == 0 {
        Seq::empty()
    } else {
        elifs_text(v.subrange(0, v.len() - 1), vars) + " elif "@ + ast_text(v[v.len() - 1].0, vars) + "; then "@
            + ast_text(v[v.len() - 1].1, vars)
    }
}

/// ` <patterns> ) <body> ;;` for each arm of a `case`.
pub open spec fn arms_text(v: Seq<(Seq<Seq<char>>, AstNodeV)>, vars: Map<Seq<char>, Seq<char>>) -> Seq<char>
    decreases v,
{
    if v.len() == 0 {
        Seq::empty()
    } else {
        arms_text(v.subrange(0, v.len() - 1), vars) + " "@ + join_with(v[v.len() - 1].0, " | "@) + " ) "@
            + ast_text(v[v.len() - 1].1, vars) + " ;;"@
    }
}

pub proof fn lemma_join_asts_step(v: Seq<AstNodeV>, sep: Seq<char>, vars: Map<Seq<char>, Seq<char>>, i: int)
    requires
        0 <= i < v.len(),
    ensures
        join_asts(v.subrange(0, i + 1), sep, vars) == if i == 0 {
            ast_text(v[0], vars)
        } else {
            join_asts(v.subrange(0, i), sep, vars) + sep + ast_text(v[i], vars)
        },
{
    assert(v.subrange(0, i + 1).subrange(0, i) =~= v.subrange(0, i));
}

impl Redirect {
    /// The redirection as shell text: descriptor, operator, expanded target.
    pub fn to_text(&self, env: &ShellEnv) -> (r: String)
        ensures
            r@ == redirect_text(self@, env.vars()),
    {
        let mut s = match self.fd {
            Some(fd) => u64_to_decimal(fd),
            None => String::new(),
        };
        let op = match self.kind {
            RedirectOp::Write => ">",
            RedirectOp::Append => ">>",
            RedirectOp::Read => "<",
            RedirectOp::HereDoc => "<<",
            RedirectOp::ReadWrite => "<>",
        };
        s.append(op);
        let t = word_to_string(&self.target, env);
        s.append(t.as_str());
        s
    }
}

fn push_debug_part_c(s: &mut String, p: &WordPart)
    ensures
        final(s)@ == old(s)@ + debug_part_c(p@),
{
    let (name, text) = match p {
        WordPart::Literal(x) => ("Literal(", x),
        WordPart::VariableSubstitution(x) => ("VariableSubstitution(", x),
        WordPart::ArithmeticSubstitution(x) => ("ArithmeticSubstitution(", x),
        WordPart::CommandSubstitution(x) => ("CommandSubstitution(", x),
    };
    s.append(name);
    push_debug_string(s, text);
    s.append(")");
}

/// Appends a word in the compact `Debug` layout.
pub fn push_debug_word_c(s: &mut String, w: &Word)
    ensures
        final(s)@ == old(s)@ + debug_word_c(w@),
{
    s.append("Word { parts: [");
    let ghost base = s@;
    let ghost ps = w@.parts;
    let mut i: usize = 0;
    while i < w.parts.len()
        invariant
            0 <= i <= w.parts@.len(),
            ps == w@.parts,
            ps.len() == w.parts@.len(),
            s@ == base + debug_part_list(ps.subrange(0, i as int)),
        decreases w.parts@.len() - i,
    {
        assert(ps.subrange(0, i + 1).drop_last() =~= ps.subrange(0, i as int));
        assert(ps[i as int] == w.parts@[i as int]@);
        if i > 0 {
            s.append(", ");
        }
        push_debug_part_c(s, &w.parts[i]);
        if i == 0 {
            assert(ps.subrange(0, 1) =~= seq![ps[0]]);
        }
        i = i + 1;
    }
    assert(ps.subrange(0, w.parts@.len() as int) =~= ps);
    s.append("], quote: ");
    let q = match w.quote {
        QuoteType::Single => "Single",
        QuoteType::Double => "Double",
        QuoteType::Unquoted => "None",
    };
    s.append(q);
    s.append(" }");
}

pub fn push_debug_opt_word(s: &mut String, w: &Option<Word>)
    ensures
        final(s)@ == old(s)@ + debug_opt_word(
            match w {
                Some(x) => Some(x@),
                None => None,
            },
        ),
{
    match w {
        Some(x) => {
            s.append("Some(");
            push_debug_word_c(s, x);
            s.append(")");
        },
        None => {
            s.append("None");
        },
    }
}

/// The decimal text of an `i64`.
fn i64_text(n: i64) -> (r: String)
    ensures
        r@ == int_text(n as int),
{
    if n < 0 {
        let m: u64 = (0 - (n as i128)) as u64;
        let d = u64_to_decimal(m);
        let s = String::from_str("-");
        s.concat(d.as_str())
    } else {
        u64_to_decimal(n as u64)
    }
}

pub fn push_debug_arith(s: &mut String, e: &ArithmeticExpr)
    ensures
        final(s)@ == old(s)@ + debug_arith(e@),
    decreases e,
{
    match e {
        ArithmeticExpr::Literal(n) => {
            s.append("Literal(");
            let t = i64_text(*n);
            s.append(t.as_str());
            s.append(")");
        },
        ArithmeticExpr::Variable(v) => {
            s.append("Variable(");
            push_debug_string(s, v);
            s.append(")");
        },
        ArithmeticExpr::UnaryOp { op, expr } => {
            s.append("UnaryOp { op: ");
            let name = match op {
                UnaryOperator::Negate => "Negate",
                UnaryOperator::Not => "Not",
                UnaryOperator::BitNot => "BitNot",
            };
            s.append(name);
            s.append(", expr: ");
            push_debug_arith(s, expr);
            s.append(" }");
        },
        ArithmeticExpr::BinaryOp { op, lhs, rhs } => {
            s.append("BinaryOp { op: ");
            let name = binop_text(*op);
            s.append(name);
            s.append(", lhs: ");
            push_debug_arith(s, lhs);
            s.append(", rhs: ");
            push_debug_arith(s, rhs);
            s.append(" }");
        },
        ArithmeticExpr::Assignment { var, value } => {
            s.append("Assignment { var: ");
            push_debug_string(s, var);
            s.append(", value: ");
            push_debug_arith(s, value);
            s.append(" }");
        },
    }
}

fn binop_text(op: BinaryOperator) -> (r: &'static str)
    ensures
        r@ == binop_name(op),
{
    match op {
        BinaryOperator::Add => "Add",
        BinaryOperator::Sub => "Sub",
        BinaryOperator::Mul => "Mul",
        BinaryOperator::Div => "Div",
        BinaryOperator::Mod => "Mod",
        BinaryOperator::Eq => "Eq",
        BinaryOperator::Neq => "Neq",
        BinaryOperator::Lt => "Lt",
        BinaryOperator::Gt => "Gt",
        BinaryOperator::Le => "Le",
        BinaryOperator::Ge => "Ge",
        BinaryOperator::BitAnd => "BitAnd",
        BinaryOperator::BitOr => "BitOr",
        BinaryOperator::BitXor => "BitXor",
        BinaryOperator::ShiftLeft => "ShiftLeft",
        BinaryOperator::ShiftRight => "ShiftRight",
        BinaryOperator::LogicalAnd => "LogicalAnd",
        BinaryOperator::LogicalOr => "LogicalOr",
    }
}

fn push_piece(parts: &mut Vec<String>, t: String)
    ensures
        final(parts)@.map_values(|s: String| s@) == old(parts)@.map_values(|s: String| s@).push(t@),
{
    parts.push(t);
    assert(parts@.map_values(|s: String| s@) =~= old(parts)@.map_values(|s: String| s@).push(t@));
}

/// The text of a command: its assignments, word, arguments and
/// redirections, separated by spaces.
fn command_text(cmd: &Word, args: &Vec<Word>, assignments: &Vec<(String, Word)>, redirects: &Vec<Redirect>, env: &ShellEnv) -> (r: String)
    ensures
        r@ == join_with(
            command_pieces(
                cmd@,
                crate::parser::types::words_view(args@),
                crate::parser::types::assignments_view(assignments@),
                crate::parser::types::redirects_view(redirects@),
                env.vars(),
            ),
            " "@,
        ),
{
    let ghost vars = env.vars();
    let ghost av = crate::parser::types::assignments_view(assignments@);
    let ghost wv = crate::parser::types::words_view(args@);
    let ghost rv = crate::parser::types::redirects_view(redirects@);
    let ghost at = Seq::new(av.len(), |i: int| av[i].0 + "="@ + word_text(av[i].1, vars));
    let ghost wt = Seq::new(wv.len(), |i: int| word_text(wv[i], vars));
    let ghost rt = Seq::new(rv.len(), |i: int| redirect_text(rv[i], vars));
    let mut parts: Vec<String> = Vec::new();
    assert(parts@.map_values(|s: String| s@) =~= at.subrange(0, 0));
    let mut i: usize = 0;
    while i < assignments.len()
        invariant
            0 <= i <= assignments@.len(),
            av == crate::parser::types::assignments_view(assignments@),
            at == Seq::new(av.len(), |i: int| av[i].0 + "="@ + word_text(av[i].1, vars)),
            vars == env.vars(),
            parts@.map_values(|s: String| s@) == at.subrange(0, i as int),
        decreases assignments@.len() - i,
    {
        let mut t = assignments[i].0.clone();
        t.append("=");
        let v = word_to_string(&assignments[i].1, env);
        t.append(v.as_str());
        assert(t@ == at[i as int]);
        push_piece(&mut parts, t);
        assert(at.subrange(0, i + 1) =~= at.subrange(0, i as int).push(at[i as int]));
        i = i + 1;
    }
    let c = word_to_string(cmd, env);
    push_piece(&mut parts, c);
    assert(at.subrange(0, at.len() as int) =~= at);
    let ghost head = at.push(word_text(cmd@, vars));
    assert(parts@.map_values(|s: String| s@) =~= head + wt.subrange(0, 0));
    let mut i: usize = 0;
    while i < args.len()
        invariant
            0 <= i <= args@.len(),
            wv == crate::parser::types::words_view(args@),
            wt == Seq::new(wv.len(), |i: int| word_text(wv[i], vars)),
            vars == env.vars(),
            parts@.map_values(|s: String| s@) == head + wt.subrange(0, i as int),
        decreases args@.len() - i,
    {
        let a = word_to_string(&args[i], env);
        assert(a@ == wt[i as int]);
        push_piece(&mut parts, a);
        assert(head + wt.subrange(0, i + 1) =~= (head + wt.subrange(0, i as int)).push(wt[i as int]));
        i = i + 1;
    }
    assert(wt.subrange(0, wt.len() as int) =~= wt);
    let ghost head2 = head + wt;
    assert(parts@.map_values(|s: String| s@) =~= head2 + rt.subrange(0, 0));
    let mut i: usize = 0;
    while i < redirects.len()
        invariant
            0 <= i <= redirects@.len(),
            rv == crate::parser::types::redirects_view(redirects@),
            rt == Seq::new(rv.len(), |i: int| redirect_text(rv[i], vars)),
            vars == env.vars(),
            parts@.map_values(|s: String| s@) == head2 + rt.subrange(0, i as int),
        decreases redirects@.len() - i,
    {
        let r = redirects[i].to_text(env);
        assert(r@ == rt[i as int]);
        push_piece(&mut parts, r);
        assert(head2 + rt.subrange(0, i + 1) =~= (head2 + rt.subrange(0, i as int)).push(rt[i as int]));
        i = i + 1;
    }
    assert(rt.subrange(0, rt.len() as int) =~= rt);
    assert(parts@.map_values(|s: String| s@) =~= command_pieces(cmd@, wv, av, rv, vars));
    join_strings(&parts, " ")
}

impl AstNode {
    /// The command line as shell text, with variables replaced by their
    /// values; see `ast_text`.
    pub fn to_text(&self, env: &ShellEnv) -> (r: String)
        ensures
            r@ == ast_text(self@, env.vars()),
        decreases self,
    {
        let ghost vars = env.vars();
        match self {
            AstNode::Command { cmd, args, assignments, redirects } => command_text(cmd, args, assignments, redirects, env),
            AstNode::Pipeline(nodes) => Self::join_nodes(nodes, " | ", env),
            AstNode::Sequence(nodes) => Self::join_nodes(nodes, "; ", env),
            AstNode::And(lhs, rhs) => {
                let mut s = lhs.to_text(env);
                s.append(" && ");
                let t = rhs.to_text(env);
                s.append(t.as_str());
                s
            },
            AstNode::Or(lhs, rhs) => {
                let mut s = lhs.to_text(env);
                s.append(" || ");
                let t = rhs.to_text(env);
                s.append(t.as_str());
                s
            },
            AstNode::Not(node) => {
                let mut s = String::from_str("! ");
                let t = node.to_text(env);
                s.append(t.as_str());
                s
            },
            AstNode::Background(node) => {
                let mut s = node.to_text(env);
                s.append(" &");
                s
            },
            AstNode::Subshell(node) => {
                let mut s = String::from_str("($");
                let t = node.to_text(env);
                s.append(t.as_str());
                s.append(")");
                s
            },
            AstNode::Group { commands, redirects } => {
                let mut s = String::from_str("{ ");
                let body = Self::join_nodes(commands, "; ", env);
                s.append(body.as_str());
                s.append("; }");
                let ghost base = s@;
                let ghost rv = crate::parser::types::redirects_view(redirects@);
                let mut i: usize = 0;
                while i < redirects.len()
                    invariant
                        0 <= i <= redirects@.len(),
                        rv == crate::parser::types::redirects_view(redirects@),
                        vars == env.vars(),
                        s@ == base + redirects_suffix(rv.subrange(0, i as int), vars),
                    decreases redirects@.len() - i,
                {
                    assert(rv.subrange(0, i + 1).drop_last() =~= rv.subrange(0, i as int));
                    s.append(" ");
                    let t = redirects[i].to_text(env);
                    s.append(t.as_str());
                    i = i + 1;
                }
                assert(rv.subrange(0, redirects@.len() as int) =~= rv);
                s
            },
            AstNode::If { condition, then_branch, elif, else_branch } => {
                let mut s = String::from_str("if ");
                let c = condition.to_text(env);
                s.append(c.as_str());
                s.append("; then ");
                let t = then_branch.to_text(env);
                s.append(t.as_str());
                let more = Self::elifs_to_text(elif, env);
                s.append(more.as_str());
                match else_branch {
                    Some(e) => {
                        s.append(" else ");
                        let t = e.to_text(env);
                        s.append(t.as_str());
                    },
                    None => {},
                }
                s.append(" fi");
                s
            },
            AstNode::While { condition, body } => {
                let mut s = String::from_str("while ");
                let c = condition.to_text(env);
                s.append(c.as_str());
                s.append("; do ");
                let b = body.to_text(env);
                s.append(b.as_str());
                s.append("; done");
                s
            },
            AstNode::Until { condition, body } => {
                let mut s = String::from_str("until ");
                let c = condition.to_text(env);
                s.append(c.as_str());
                s.append("; do ");
                let b = body.to_text(env);
                s.append(b.as_str());
                s.append("; done");
                s
            },
            AstNode::For { .. } => String::new(),
            AstNode::Case { word, arms } => {
                let mut s = String::from_str("case ");
                s.append(word.as_str());
                s.append(" in");
                let more = Self::arms_to_text(arms, env);
                s.append(more.as_str());
                s.append(" esac");
                s
            },
            AstNode::FunctionDef { name, body } => {
                let mut s = word_to_string(name, env);
                s.append("() { ");
                let b = body.to_text(env);
                s.append(b.as_str());
                s.append("; }");
                s
            },
            AstNode::Break(w) => {
                let mut s = String::from_str("Break(");
                push_debug_opt_word(&mut s, w);
                s.append(")");
                s
            },
            AstNode::Continue(w) => {
                let mut s = String::from_str("Continue(");
                push_debug_opt_word(&mut s, w);
                s.append(")");
                s
            },
            AstNode::ArithmeticCommand(e) => {
                let mut s = String::from_str("ArithmeticCommand(");
                push_debug_arith(&mut s, e);
                s.append(")");
                s
            },
        }
    }

    /// The texts of `nodes` with `sep` between each two.
    fn join_nodes(nodes: &Vec<AstNode>, sep: &str, env: &ShellEnv) -> (r: String)
        ensures
            r@ == join_asts(crate::parser::types::asts_view(nodes@), sep@, env.vars()),
        decreases nodes,
    {
        let ghost vars = env.vars();
        let ghost nv = crate::parser::types::asts_view(nodes@);
        let mut s = String::new();
        let mut i: usize = 0;
        while i < nodes.len()
            invariant
                0 <= i <= nodes@.len(),
                nv == crate::parser::types::asts_view(nodes@),
                vars == env.vars(),
                s@ == join_asts(nv.subrange(0, i as int), sep@, vars),
            decreases nodes@.len() - i,
        {
            proof {
                crate::parser::types::lemma_asts_index(nodes@, i as int);
                lemma_join_asts_step(nv, sep@, vars, i as int);
            }
            if i > 0 {
                s.append(sep);
            }
            let t = nodes[i].to_text(env);
            s.append(t.as_str());
            i = i + 1;
        }
        proof {
            crate::parser::types::lemma_asts_len(nodes@);
        }
        assert(nv.subrange(0, nodes@.len() as int) =~= nv);
        s
    }

    /// ` elif <cond>; then <body>` for each branch.
    fn elifs_to_text(elif: &Vec<(Box<AstNode>, Box<AstNode>)>, env: &ShellEnv) -> (r: String)
        ensures
            r@ == elifs_text(crate::parser::types::elifs_view(elif@), env.vars()),
        decreases elif,
    {
        let ghost vars = env.vars();
        let ghost ev = crate::parser::types::elifs_view(elif@);
        let mut s = String::new();
        let mut i: usize = 0;
        while i < elif.len()
            invariant
                0 <= i <= elif@.len(),
                ev == crate::parser::types::elifs_view(elif@),
                vars == env.vars(),
                s@ == elifs_text(ev.subrange(0, i as int), vars),
            decreases elif@.len() - i,
        {
            proof {
                crate::parser::types::lemma_elifs_index(elif@, i as int);
                assert(ev.subrange(0, i + 1).subrange(0, i as int) =~= ev.subrange(0, i as int));
            }
            s.append(" elif ");
            let c = elif[i].0.to_text(env);
            s.append(c.as_str());
            s.append("; then ");
            let b = elif[i].1.to_text(env);
            s.append(b.as_str());
            i = i + 1;
        }
        proof {
            crate::parser::types::lemma_elifs_len(elif@);
        }
        assert(ev.subrange(0, elif@.len() as int) =~= ev);
        s
    }

    /// ` <patterns> ) <body> ;;` for each arm.
    fn arms_to_text(arms: &Vec<(Vec<String>, AstNode)>, env: &ShellEnv) -> (r: String)
        ensures
            r@ == arms_text(crate::parser::types::arms_view(arms@), env.vars()),
        decreases arms,
    {
        let ghost vars = env.vars();
        let ghost armv = crate::parser::types::arms_view(arms@);
        let mut s = String::new();
        let mut i: usize = 0;
        while i < arms.len()
            invariant
                0 <= i <= arms@.len(),
                armv == crate::parser::types::arms_view(arms@),
                vars == env.vars(),
                s@ == arms_text(armv.subrange(0, i as int), vars),
            decreases arms@.len() - i,
        {
            proof {
                crate::parser::types::lemma_arms_index(arms@, i as int);
                assert(armv.subrange(0, i + 1).subrange(0, i as int) =~= armv.subrange(0, i as int));
            }
            s.append(" ");
            let pats = join_strings(&arms[i].0, " | ");
            s.append(pats.as_str());
            s.append(" ) ");
            let b = arms[i].1.to_text(env);
            s.append(b.as_str());
            s.append(" ;;");
            i = i + 1;
        }
        proof {
            crate::parser::types::lemma_arms_len(arms@);
        }
        assert(armv.subrange(0, arms@.len() as int) =~= armv);
        s
    }
}

} // verus!
