use vstd::prelude::*;
use vstd::string::StringExecFns;
use crate::error::ShellError;
use crate::lexer::types::Token;
use crate::parser::spec::sp_while;
use crate::parser::types::AstNode;
use crate::parser::{res_view, single_literal, string_is, Parser};

verus! {

impl Parser {
    /// `while|until cond do body done`; see `sp_while`.
    pub fn parse_while_or_until(&mut self) -> (r: Result<Option<AstNode>, ShellError>)
        ensures
            res_view(r) == sp_while(old(self).state()).0,
            final(self).state() == sp_while(old(self).state()).1,
            r matches Ok(None) ==> final(self).state() == old(self).state(),
    {
        let is_while: bool = match self.current() {
            Some(t) => match single_literal(t) {
                Some((x, _)) => {
                    if string_is(x, "while") {
                        true
                    } else if string_is(x, "until") {
                        false
                    } else {
                        return Ok(None);
                    }
                },
                None => {
                    return Ok(None);
                },
            },
            None => {
                return Ok(None);
            },
        };
        let loop_type = if is_while { "while" } else { "until" };
        self.advance();
        let condition = match self.parse_sequence(true) {
            Err(e) => {
                return Err(e);
            },
            Ok(None) => {
                let mut msg = String::from_str("Expected command after '");
                msg.append(loop_type);
                msg.append("'");
                return Err(ShellError::Parse(msg));
            },
            Ok(Some(c)) => c,
        };
        match self.expect_word("do") {
            Err(e) => {
                return Err(e);
            },
            Ok(()) => {},
        }
        let body = match self.parse_sequence(true) {
            Err(e) => {
                return Err(e);
            },
            Ok(None) => {
                let mut msg = String::from_str("Expected body after 'do' in ");
                msg.append(loop_type);
                msg.append(" loop");
                return Err(ShellError::Parse(msg));
            },
            Ok(Some(b)) => b,
        };
        match self.expect_word("done") {
            Err(e) => {
                return Err(e);
            },
            Ok(()) => {},
        }
        if is_while {
            Ok(Some(AstNode::While { condition: Box::new(condition), body: Box::new(body) }))
        } else {
            proof {
                reveal_strlit("while");
                reveal_strlit("until");
            }
            Ok(Some(AstNode::Until { condition: Box::new(condition), body: Box::new(body) }))
        }
    }
}

} // verus!
