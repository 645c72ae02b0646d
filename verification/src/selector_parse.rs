//! The selector-expression parser: a lexer over the input characters and a
//! recursive-descent parser producing the requirements of a selector.
//!
//! The grammar:
//!
//! ```text
//! <selector>                ::= <requirement> | <requirement> "," <selector>
//! <requirement>             ::= [!] KEY [ <set-restriction> | <exact-restriction> ]
//! <set-restriction>         ::= ("in" | "notin") "(" <values> ")"
//! <exact-restriction>       ::= ("=" | "==" | "!=" | ">" | "<") VALUE
//! ```

use vstd::prelude::*;
use vstd::string::StrSliceExecFns;

use crate::common::Error;
use crate::selector::{
    selector_sorted, spec_requirement_valid, spec_selector_ops_set, Requirement, SelectionOp,
    Selector,
};
use crate::strutil::sorted_insert;
use crate::strutil::strs_sorted_unique;

verus! {

/// The tokens the selector lexer produces.
#[derive(Debug, Clone, Copy, PartialEq, Eq, Structural)]
pub enum Token {
    /// A scan error.
    ErrorToken,
    EndOfStringToken,
    ClosedParToken,
    CommaToken,
    DoesNotExistToken,
    DoubleEqualsToken,
    EqualsToken,
    GreaterThanToken,
    /// A key or value literal.
    IdentifierToken,
    InToken,
    LessThanToken,
    NotEqualsToken,
    NotInToken,
    OpenParToken,
}

impl Default for Token {
    fn default() -> (r: Self)
        ensures
            r is ErrorToken,
    {
        Token::ErrorToken
    }
}

/// The token a literal spells, if any.
pub open spec fn spec_token_for(s: Seq<char>) -> Option<Token> {
    if s == ")"@ {
        Some(Token::ClosedParToken)
    } else if s == ","@ {
        Some(Token::CommaToken)
    } else if s == "!"@ {
        Some(Token::DoesNotExistToken)
    } else if s == "=="@ {
        Some(Token::DoubleEqualsToken)
    } else if s == "="@ {
        Some(Token::EqualsToken)
    } else if s == ">"@ {
        Some(Token::GreaterThanToken)
    } else if s == "in"@ {
        Some(Token::InToken)
    } else if s == "<"@ {
        Some(Token::LessThanToken)
    } else if s == "!="@ {
        Some(Token::NotEqualsToken)
    } else if s == "notin"@ {
        Some(Token::NotInToken)
    } else if s == "("@ {
        Some(Token::OpenParToken)
    } else {
        None
    }
}

/// Look a literal up in the operator table.
fn token_for(s: &String) -> (r: Option<Token>)
    ensures
        r == spec_token_for(s@),
{
    if *s == ")".to_owned() {
        Some(Token::ClosedParToken)
    } else if *s == ",".to_owned() {
        Some(Token::CommaToken)
    } else if *s == "!".to_owned() {
        Some(Token::DoesNotExistToken)
    } else if *s == "==".to_owned() {
        Some(Token::DoubleEqualsToken)
    } else if *s == "=".to_owned() {
        Some(Token::EqualsToken)
    } else if *s == ">".to_owned() {
        Some(Token::GreaterThanToken)
    } else if *s == "in".to_owned() {
        Some(Token::InToken)
    } else if *s == "<".to_owned() {
        Some(Token::LessThanToken)
    } else if *s == "!=".to_owned() {
        Some(Token::NotEqualsToken)
    } else if *s == "notin".to_owned() {
        Some(Token::NotInToken)
    } else if *s == "(".to_owned() {
        Some(Token::OpenParToken)
    } else {
        None
    }
}

/// One token with the literal that produced it.
#[derive(Debug, Default)]
pub struct ScannedItem {
    pub tok: Token,
    pub literal: String,
}

/// Whether `c` is a blank character.
pub open spec fn spec_is_ws(c: char) -> bool {
    c == ' ' || c == '\t' || c == '\r' || c == '\n'
}

/// Whether the rune is a space, tab, carriage return or newline.
pub fn IsWhitespace(ch: char) -> (r: bool)
    ensures
        r == spec_is_ws(ch),
{
    ch == ' ' || ch == '\t' || ch == '\r' || ch == '\n'
}

/// Whether `c` can start an operator.
pub open spec fn spec_is_special(c: char) -> bool {
    c == '=' || c == '!' || c == '(' || c == ')' || c == ',' || c == '>' || c == '<'
}

/// Whether the character can be part of an operator.
pub fn IsSpecialSymbol(ch: char) -> (r: bool)
    ensures
        r == spec_is_special(ch),
{
    match ch {
        '=' | '!' | '(' | ')' | ',' | '>' | '<' => true,
        _ => false,
    }
}

/// The lexer: the input characters and the position to scan next.
#[derive(Debug)]
pub struct Lexer {
    pub s: Vec<char>,
    pub pos: usize,
}

impl Lexer {
    /// Positions never run past the input.
    pub open spec fn wf(self) -> bool {
        self.pos <= self.s@.len()
    }

    /// The character at the scan position, advancing past it; the NUL
    /// character stands for the end of the input.
    pub fn Read(&mut self) -> (b: char)
        requires
            old(self).wf(),
        ensures
            final(self).wf(),
            final(self).s@ == old(self).s@,
            old(self).pos < old(self).s@.len() ==> (b == old(self).s@[old(self).pos as int]
                && final(self).pos == old(self).pos + 1),
            old(self).pos >= old(self).s@.len() ==> (b == '\0' && final(self).pos == old(
                self,
            ).pos),
    {
        let mut b = '\0';
        if self.pos < self.s.len() {
            b = self.s[self.pos];
            self.pos = self.pos + 1;
        }
        b
    }

    /// Undo the last read.
    pub fn Unread(&mut self)
        requires
            old(self).pos > 0,
        ensures
            final(self).s@ == old(self).s@,
            final(self).pos == old(self).pos - 1,
    {
        self.pos = self.pos - 1;
    }

    /// Scan a literal: either an operator keyword (`in`, `notin`) or an
    /// identifier.  Never produces the end-of-string token.
    pub fn ScanIDOrKeyword(&mut self) -> (r: (Token, String))
        requires
            old(self).wf(),
        ensures
            final(self).wf(),
            final(self).s@ == old(self).s@,
            final(self).pos >= old(self).pos,
            r.0 == (match spec_token_for(r.1@) {
                Some(t) => t,
                None => Token::IdentifierToken,
            }),
            !(r.0 is EndOfStringToken),
            (old(self).pos < old(self).s@.len() && !spec_is_special(
                old(self).s@[old(self).pos as int],
            ) && !spec_is_ws(old(self).s@[old(self).pos as int]) && old(self).s@[old(
                self,
            ).pos as int] != '\0') ==> final(self).pos > old(self).pos,
    {
        let mut buf: Vec<char> = Vec::new();
        let first = self.Read();
        if first == '\0' || IsSpecialSymbol(first) || IsWhitespace(first) {
            if first != '\0' {
                self.Unread();
            }
        } else {
            buf.push(first);
            loop
                invariant
                    self.wf(),
                    self.s@ == old(self).s@,
                    self.pos > old(self).pos,
                decreases old(self).s@.len() + 1 - self.pos,
            {
                let ch = self.Read();
                if ch == '\0' {
                    break ;
                } else if IsSpecialSymbol(ch) || IsWhitespace(ch) {
                    self.Unread();
                    break ;
                } else {
                    buf.push(ch);
                }
            }
        }

        let mut s = String::new();
        let mut i: usize = 0;
        while i < buf.len()
            decreases buf@.len() - i,
        {
            s.push(buf[i]);
            i = i + 1;
        }
        match token_for(&s) {
            Some(v) => {
                proof {
                    assert(!(v is EndOfStringToken));
                }
                (v, s)
            },
            None => (Token::IdentifierToken, s),
        }
    }

    /// Scan an operator made of special symbols, greedily taking the
    /// longest literal the operator table knows.  Never produces the
    /// end-of-string token.
    pub fn ScanSpecialSymbol(&mut self) -> (r: (Token, String))
        requires
            old(self).wf(),
            old(self).pos < old(self).s@.len(),
            spec_is_special(old(self).s@[old(self).pos as int]),
        ensures
            final(self).wf(),
            final(self).s@ == old(self).s@,
            final(self).pos > old(self).pos,
            !(r.0 is EndOfStringToken),
            !(r.0 is IdentifierToken),
    {
        let mut buf: Vec<char> = Vec::new();
        let first = self.Read();
        buf.push(first);
        let mut firstLit = String::new();
        firstLit.push(first);
        // Every single special character spells an operator, so the first
        // lookup always succeeds.
        let (mut lastTok, mut lastLit) = match token_for(&firstLit) {
            Some(token) => (token, firstLit),
            None => {
                proof {
                    assert(firstLit@ =~= seq![first]);
                    assert(first == '=' || first == '!' || first == '(' || first == ')'
                        || first == ',' || first == '>' || first == '<');
                    assert(firstLit@ =~= "="@ || firstLit@ =~= "!"@ || firstLit@ =~= "("@
                        || firstLit@ =~= ")"@ || firstLit@ =~= ","@ || firstLit@ =~= ">"@
                        || firstLit@ =~= "<"@) by {
                        reveal_strlit("=");
                        reveal_strlit("!");
                        reveal_strlit("(");
                        reveal_strlit(")");
                        reveal_strlit(",");
                        reveal_strlit(">");
                        reveal_strlit("<");
                    }
                    assert(false);
                }
                vstd::pervasive::unreached()
            },
        };
        proof {
            assert(!(lastTok is EndOfStringToken));
            assert(!(lastTok is IdentifierToken));
        }

        loop
            invariant
                self.wf(),
                self.s@ == old(self).s@,
                self.pos > old(self).pos,
                !(lastTok is EndOfStringToken),
                !(lastTok is IdentifierToken),
            decreases old(self).s@.len() + 1 - self.pos,
        {
            let ch = self.Read();
            if ch == '\0' {
                break ;
            } else if IsSpecialSymbol(ch) {
                buf.push(ch);
                let mut s = String::new();
                let mut i: usize = 0;
                while i < buf.len()
                    decreases buf@.len() - i,
                {
                    s.push(buf[i]);
                    i = i + 1;
                }
                match token_for(&s) {
                    Some(token) => {
                        proof {
                            assert(!(token is EndOfStringToken));
                            assert(!(token is IdentifierToken));
                        }
                        lastTok = token;
                        lastLit = s;
                    },
                    None => {
                        self.Unread();
                        break ;
                    },
                }
            } else {
                self.Unread();
                break ;
            }
        }

        (lastTok, lastLit)
    }

    /// Consume blank characters, returning the first non-blank one.
    pub fn SkipWhiteSpaces(&mut self, ch: char) -> (r: char)
        requires
            old(self).wf(),
            ch != '\0' ==> (old(self).pos > 0 && old(self).pos <= old(self).s@.len() && old(
                self,
            ).s@[old(self).pos - 1] == ch),
        ensures
            final(self).wf(),
            final(self).s@ == old(self).s@,
            final(self).pos >= old(self).pos,
            !spec_is_ws(r),
            !spec_is_ws(ch) ==> (r == ch && final(self).pos == old(self).pos),
            r != '\0' ==> (final(self).pos > 0 && final(self).s@[final(self).pos - 1] == r),
    {
        let mut cur = ch;
        while IsWhitespace(cur)
            invariant
                self.wf(),
                self.s@ == old(self).s@,
                self.pos >= old(self).pos,
                cur != '\0' ==> (self.pos > 0 && self.s@[self.pos - 1] == cur),
                !spec_is_ws(ch) ==> (cur == ch && self.pos == old(self).pos),
            decreases self.s@.len() - self.pos, (if spec_is_ws(cur) {
                1int
            } else {
                0int
            }),
        {
            cur = self.Read();
        }
        cur
    }

    /// The next token and its literal.  Produces `EndOfStringToken` exactly
    /// at the end of the input (or at an embedded NUL); otherwise the scan
    /// position strictly advances.
    pub fn Lex(&mut self) -> (r: (Token, String))
        requires
            old(self).wf(),
        ensures
            final(self).wf(),
            final(self).s@ == old(self).s@,
            final(self).pos >= old(self).pos,
            !(r.0 is EndOfStringToken) ==> final(self).pos > old(self).pos,
    {
        let ch = self.Read();
        let ch = self.SkipWhiteSpaces(ch);
        if ch == '\0' {
            (Token::EndOfStringToken, "".to_owned())
        } else if IsSpecialSymbol(ch) {
            self.Unread();
            self.ScanSpecialSymbol()
        } else {
            self.Unread();
            self.ScanIDOrKeyword()
        }
    }
}

/// Whether a token list is a finished scan: nonempty, ending with the one
/// end-of-string token.
pub open spec fn items_wf(items: Seq<ScannedItem>) -> bool {
    &&& items.len() > 0
    &&& items.last().tok is EndOfStringToken
    &&& forall|i: int|
        0 <= i < items.len() - 1 ==> !((#[trigger] items[i]).tok is EndOfStringToken)
}

/// The parsing context: `in` and `notin` read as identifiers where values
/// are expected.
#[derive(Debug, Clone, Copy, PartialEq, Eq, Structural)]
pub enum ParserContext {
    KeyAndOperator,
    Values,
}

/// The token as seen in a context.
pub open spec fn spec_ctx_token(t: Token, context: ParserContext) -> Token {
    if context is Values && (t is InToken || t is NotInToken) {
        Token::IdentifierToken
    } else {
        t
    }
}

/// The recursive-descent selector parser.
#[derive(Debug)]
pub struct Parser {
    pub l: Lexer,
    pub scanItems: Vec<ScannedItem>,
    pub position: usize,
}

impl Parser {
    /// Well-formedness while parsing: the scan is finished and the position
    /// has not run past the end-of-string token.
    pub open spec fn wf(self) -> bool {
        &&& items_wf(self.scanItems@)
        &&& self.position < self.scanItems@.len()
    }

    /// The current token and literal, without advancing.
    pub fn Lookahead(&self, context: ParserContext) -> (r: (Token, String))
        requires
            self.position < self.scanItems@.len(),
        ensures
            r.0 == spec_ctx_token(self.scanItems@[self.position as int].tok, context),
            r.1@ == self.scanItems@[self.position as int].literal@,
    {
        let mut tok = self.scanItems[self.position].tok;
        let lit = self.scanItems[self.position].literal.clone();
        if matches!(context, ParserContext::Values) {
            if matches!(tok, Token::InToken | Token::NotInToken) {
                tok = Token::IdentifierToken;
            }
        }
        (tok, lit)
    }

    /// The current token and literal, advancing past it.  A non-final token
    /// leaves the parser well-formed.
    pub fn Consume(&mut self, context: ParserContext) -> (r: (Token, String))
        requires
            items_wf(old(self).scanItems@),
            old(self).position < old(self).scanItems@.len(),
        ensures
            final(self).scanItems@ == old(self).scanItems@,
            final(self).l == old(self).l,
            final(self).position == old(self).position + 1,
            r.0 == spec_ctx_token(old(self).scanItems@[old(self).position as int].tok, context),
            r.1@ == old(self).scanItems@[old(self).position as int].literal@,
            !(r.0 is EndOfStringToken) ==> final(self).wf(),
    {
        let n = self.scanItems.len();
        self.position = self.position + 1;
        let mut tok = self.scanItems[self.position - 1].tok;
        let lit = self.scanItems[self.position - 1].literal.clone();
        if matches!(context, ParserContext::Values) {
            if matches!(tok, Token::InToken | Token::NotInToken) {
                tok = Token::IdentifierToken;
            }
        }
        proof {
            if !(tok is EndOfStringToken) {
                assert(old(self).position < old(self).scanItems@.len() - 1);
            }
        }
        (tok, lit)
    }

    /// Run the lexer over the whole input, storing the scanned items.
    pub fn Scan(&mut self)
        requires
            old(self).l.wf(),
            old(self).scanItems@.len() == 0,
        ensures
            items_wf(final(self).scanItems@),
            final(self).position == old(self).position,
    {
        let mut token_is_end = false;
        while !token_is_end
            invariant
                self.l.wf(),
                self.position == old(self).position,
                token_is_end ==> items_wf(self.scanItems@),
                !token_is_end ==> forall|i: int|
                    0 <= i < self.scanItems@.len() ==> !((#[trigger] self.scanItems@[i]).tok
                        is EndOfStringToken),
            decreases self.l.s@.len() + 1 - self.l.pos, (if token_is_end {
                0int
            } else {
                1int
            }),
        {
            let (token, literal) = self.l.Lex();
            token_is_end = matches!(token, Token::EndOfStringToken);
            self.scanItems.push(ScannedItem { tok: token, literal });
        }
    }

    /// Parse the whole token stream into requirements.
    pub fn Parse(&mut self) -> (r: Result<Selector, Error>)
        requires
            old(self).l.wf(),
            old(self).scanItems@.len() == 0,
            old(self).position == 0,
        ensures
            r matches Ok(sel) ==> spec_selector_ops_set(sel.0@) && (forall|i: int|
                0 <= i < sel.0@.len() ==> spec_requirement_valid(
                    (#[trigger] sel.0@[i]).key@,
                    sel.0@[i].op,
                    sel.0@[i].strVals@,
                )),
    {
        self.Scan();
        let mut requirements = Selector::default();
        loop
            invariant_except_break
                self.wf(),
                spec_selector_ops_set(requirements.0@),
                forall|i: int|
                    0 <= i < requirements.0@.len() ==> spec_requirement_valid(
                        (#[trigger] requirements.0@[i]).key@,
                        requirements.0@[i].op,
                        requirements.0@[i].strVals@,
                    ),
            ensures
                true,
            decreases self.scanItems@.len() - self.position,
        {
            let (tok, lit) = self.Lookahead(ParserContext::Values);
            match tok {
                Token::IdentifierToken | Token::DoesNotExistToken => {
                    let r = match self.ParseRequirement() {
                        Ok(r) => r,
                        Err(e) => {
                            return Err(e);
                        },
                    };
                    requirements.Add(r);
                    let (t, l) = self.Consume(ParserContext::Values);
                    match t {
                        Token::EndOfStringToken => {
                            return Ok(requirements);
                        },
                        Token::CommaToken => {
                            let (t2, l2) = self.Lookahead(ParserContext::Values);
                            if !matches!(t2, Token::IdentifierToken | Token::DoesNotExistToken)
                            {
                                let mut msg = "found '".to_owned();
                                msg.append(l2.as_str());
                                msg.append("', expected: identifier after ','");
                                return Err(Error::CommonError(msg));
                            }
                        },
                        _ => {
                            let mut msg = "found '".to_owned();
                            msg.append(l.as_str());
                            msg.append("', expected: ',' or 'end of string'");
                            return Err(Error::CommonError(msg));
                        },
                    }
                },
                Token::EndOfStringToken => {
                    return Ok(requirements);
                },
                _ => {
                    let mut msg = "found '".to_owned();
                    msg.append(lit.as_str());
                    msg.append("', expected: !, identifier, or 'end of string'");
                    return Err(Error::CommonError(msg));
                },
            }
        }
    }

    /// Parse one requirement.
    pub fn ParseRequirement(&mut self) -> (r: Result<Requirement, Error>)
        requires
            old(self).wf(),
        ensures
            final(self).scanItems@ == old(self).scanItems@,
            final(self).position > old(self).position,
            r matches Ok(req) ==> final(self).wf() && !(req.op is NoneOp)
                && spec_requirement_valid(req.key@, req.op, req.strVals@),
    {
        let (key, operator) = match self.ParseKeyAndInferOperator() {
            Ok(p) => p,
            Err(e) => {
                return Err(e);
            },
        };
        if matches!(operator, SelectionOp::Exists | SelectionOp::DoesNotExist) {
            return Requirement::New(key.as_str(), operator, Vec::new());
        }

        let operator = match self.ParseOperator() {
            Ok(op) => op,
            Err(e) => {
                return Err(e);
            },
        };
        let values: Vec<String> = match operator {
            SelectionOp::In | SelectionOp::NotIn => {
                match self.ParseValues() {
                    Ok(v) => v,
                    Err(e) => {
                        return Err(e);
                    },
                }
            },
            SelectionOp::Equals
            | SelectionOp::DoubleEquals
            | SelectionOp::NotEquals
            | SelectionOp::GreaterThan
            | SelectionOp::LessThan => {
                match self.ParseExactValue() {
                    Ok(v) => v,
                    Err(e) => {
                        return Err(e);
                    },
                }
            },
            _ => Vec::new(),
        };

        Requirement::New(key.as_str(), operator, values)
    }

    /// Parse the key; infer `Exists` or `DoesNotExist` when no operator
    /// follows.
    pub fn ParseKeyAndInferOperator(&mut self) -> (r: Result<(String, SelectionOp), Error>)
        requires
            old(self).wf(),
        ensures
            final(self).scanItems@ == old(self).scanItems@,
            final(self).position > old(self).position,
            r matches Ok(p) ==> final(self).wf() && (p.1 is Exists || p.1 is DoesNotExist || p.1
                is NoneOp) && crate::validation::spec_qualified_name(p.0@),
    {
        let mut operator = SelectionOp::NoneOp;
        let (mut tok, mut literal) = self.Consume(ParserContext::Values);
        if matches!(tok, Token::DoesNotExistToken) {
            operator = SelectionOp::DoesNotExist;
            let (tt, tl) = self.Consume(ParserContext::Values);
            tok = tt;
            literal = tl;
        }

        if !matches!(tok, Token::IdentifierToken) {
            let mut msg = "found '".to_owned();
            msg.append(literal.as_str());
            msg.append("', expected: identifier");
            return Err(Error::CommonError(msg));
        }

        match crate::validation::IsQualifiedName(literal.as_str()) {
            Err(e) => {
                return Err(e);
            },
            Ok(_) => {},
        }

        let (t, _lit) = self.Lookahead(ParserContext::Values);
        if matches!(t, Token::EndOfStringToken | Token::CommaToken) {
            if !matches!(operator, SelectionOp::DoesNotExist) {
                operator = SelectionOp::Exists;
            }
        }

        Ok((literal, operator))
    }

    /// Parse the operator of a requirement.
    pub fn ParseOperator(&mut self) -> (r: Result<SelectionOp, Error>)
        requires
            old(self).wf(),
        ensures
            final(self).scanItems@ == old(self).scanItems@,
            final(self).position > old(self).position,
            r matches Ok(op) ==> final(self).wf() && !(op is NoneOp) && !(op is Exists) && !(op
                is DoesNotExist),
    {
        let (tok, lit) = self.Consume(ParserContext::KeyAndOperator);
        let op = match tok {
            Token::InToken => SelectionOp::In,
            Token::EqualsToken => SelectionOp::Equals,
            Token::DoubleEqualsToken => SelectionOp::DoubleEquals,
            Token::GreaterThanToken => SelectionOp::GreaterThan,
            Token::LessThanToken => SelectionOp::LessThan,
            Token::NotInToken => SelectionOp::NotIn,
            Token::NotEqualsToken => SelectionOp::NotEquals,
            _ => {
                let mut msg = "found '".to_owned();
                msg.append(lit.as_str());
                msg.append("', expected: In, NotIn ...");
                return Err(Error::CommonError(msg));
            },
        };
        Ok(op)
    }

    /// Parse a parenthesized value set.
    pub fn ParseValues(&mut self) -> (r: Result<Vec<String>, Error>)
        requires
            old(self).wf(),
        ensures
            final(self).scanItems@ == old(self).scanItems@,
            final(self).position > old(self).position,
            r matches Ok(v) ==> final(self).wf(),
    {
        let (tok, lit) = self.Consume(ParserContext::Values);
        if !matches!(tok, Token::OpenParToken) {
            let mut msg = "found '".to_owned();
            msg.append(lit.as_str());
            msg.append("' expected: '('");
            return Err(Error::CommonError(msg));
        }

        let (tok, lit) = self.Lookahead(ParserContext::Values);
        match tok {
            Token::IdentifierToken | Token::CommaToken => {
                let s = match self.ParseIdentifiersList() {
                    Ok(s) => s,
                    Err(e) => {
                        return Err(e);
                    },
                };
                let (tok, _l) = self.Consume(ParserContext::Values);
                if !matches!(tok, Token::ClosedParToken) {
                    let mut msg = "found '".to_owned();
                    msg.append(lit.as_str());
                    msg.append("', expected: ')'");
                    return Err(Error::CommonError(msg));
                }
                Ok(s)
            },
            Token::ClosedParToken => {
                self.Consume(ParserContext::Values);
                Ok(Vec::new())
            },
            _ => {
                let mut msg = "found '".to_owned();
                msg.append(lit.as_str());
                msg.append("', expected: ',', ')' or identifier");
                Err(Error::CommonError(msg))
            },
        }
    }

    /// Parse a comma-separated identifier list, the empty string included.
    pub fn ParseIdentifiersList(&mut self) -> (r: Result<Vec<String>, Error>)
        requires
            old(self).wf(),
        ensures
            final(self).scanItems@ == old(self).scanItems@,
            final(self).position > old(self).position,
            r matches Ok(v) ==> final(self).wf(),
    {
        let mut s: Vec<String> = Vec::new();
        let ghost entry = old(self).position as int;
        loop
            invariant
                self.wf(),
                self.scanItems@ == old(self).scanItems@,
                self.position >= entry,
                entry == old(self).position,
                strs_sorted_unique(s@),
            decreases self.scanItems@.len() - self.position,
        {
            let (tok, lit) = self.Consume(ParserContext::Values);
            match tok {
                Token::IdentifierToken => {
                    sorted_insert(&mut s, lit);
                    let (tok2, lit2) = self.Lookahead(ParserContext::Values);
                    match tok2 {
                        Token::CommaToken => {},
                        Token::ClosedParToken => {
                            return Ok(s);
                        },
                        _ => {
                            let mut msg = "found '".to_owned();
                            msg.append(lit2.as_str());
                            msg.append("', expected: ',' or ')'");
                            return Err(Error::CommonError(msg));
                        },
                    }
                },
                Token::CommaToken => {
                    // A leading or doubled comma stands for the empty value.
                    if s.len() == 0 {
                        sorted_insert(&mut s, "".to_owned());
                    }
                    let (tok2, _lit2) = self.Lookahead(ParserContext::Values);
                    if matches!(tok2, Token::CommaToken) {
                        self.Consume(ParserContext::Values);
                        sorted_insert(&mut s, "".to_owned());
                    }
                },
                _ => {
                    let mut msg = "found '".to_owned();
                    msg.append(lit.as_str());
                    msg.append("', expected: ',', or identifier");
                    return Err(Error::CommonError(msg));
                },
            }
        }
    }

    /// Parse the single value of an exact-match operator; a missing value
    /// stands for the empty string.
    pub fn ParseExactValue(&mut self) -> (r: Result<Vec<String>, Error>)
        requires
            old(self).wf(),
        ensures
            final(self).scanItems@ == old(self).scanItems@,
            final(self).position >= old(self).position,
            r matches Ok(v) ==> final(self).wf(),
    {
        let (tok, _l) = self.Lookahead(ParserContext::Values);
        if matches!(tok, Token::EndOfStringToken | Token::CommaToken) {
            let mut s: Vec<String> = Vec::new();
            s.push("".to_owned());
            return Ok(s);
        }

        let (tok, lit) = self.Consume(ParserContext::Values);
        if matches!(tok, Token::IdentifierToken) {
            let mut s: Vec<String> = Vec::new();
            s.push(lit);
            return Ok(s);
        }

        let mut msg = "found '".to_owned();
        msg.append(lit.as_str());
        msg.append("', expected: identifier");
        Err(Error::CommonError(msg))
    }
}

/// Parse a selector expression into a selector whose requirements are
/// valid, carry a set operator, and are sorted by key.
///
/// Example of valid syntax: `x in (foo,,baz),y,z notin ()`.
pub fn Parse(selector: &str) -> (r: Result<Selector, Error>)
    ensures
        r matches Ok(sel) ==> selector_sorted(sel.0@) && spec_selector_ops_set(sel.0@) && (
        forall|i: int|
            0 <= i < sel.0@.len() ==> spec_requirement_valid(
                (#[trigger] sel.0@[i]).key@,
                sel.0@[i].op,
                sel.0@[i].strVals@,
            )),
{
    let len = selector.unicode_len();
    let mut chars: Vec<char> = Vec::new();
    let mut i: usize = 0;
    while i < len
        invariant
            len == selector@.len(),
            i <= len,
            chars@.len() == i,
        decreases len - i,
    {
        chars.push(selector.get_char(i));
        i = i + 1;
    }

    let mut p = Parser { l: Lexer { s: chars, pos: 0 }, scanItems: Vec::new(), position: 0 };

    let mut items = match p.Parse() {
        Ok(items) => items,
        Err(e) => {
            return Err(e);
        },
    };
    let ghost pre = items.0@;
    items.Sort();
    proof {
        broadcast use vstd::seq_lib::group_to_multiset_ensures;

        assert forall|i: int| 0 <= i < items.0@.len() implies spec_requirement_valid(
            (#[trigger] items.0@[i]).key@,
            items.0@[i].op,
            items.0@[i].strVals@,
        ) && !(items.0@[i].op is NoneOp) by {
            assert(items.0@.contains(items.0@[i]));
            assert(items.0@.to_multiset().count(items.0@[i]) > 0);
            assert(pre.to_multiset().count(items.0@[i]) > 0);
            assert(pre.contains(items.0@[i]));
            let j = choose|j: int| 0 <= j < pre.len() && pre[j] == items.0@[i];
            assert(spec_requirement_valid(pre[j].key@, pre[j].op, pre[j].strVals@));
        }
    }
    Ok(items)
}

} // verus!
