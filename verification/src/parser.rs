//! The recursive-descent parser: consumes a lexical token sequence
//! terminated by an `Eof` token and produces the flat IR, recording a parse
//! diagnostic and resynchronizing at the next statement boundary whenever a
//! grammar rule fails, so that one parse collects diagnostics for the whole
//! input.
//!
//! Entry-point convention: a function named `main` is wrapped for immediate
//! invocation — a `LeftParen` node is emitted before its `Fn` node and a
//! `Main` sentinel node after its body closes, which the emitter renders as
//! an immediately-invoked function expression.

use vstd::prelude::*;

use crate::ast::{brace_balanced, kinds, AstToken, AstType};
use crate::error::Problem;
use crate::token::{Token, TokenType};

verus! {

/// A well-formed parser input: at least one token, the last one `Eof`.
pub open spec fn tokens_wf(toks: Seq<Token>) -> bool {
    toks.len() >= 1 && toks.last().token_type == TokenType::Eof
}

/// The token kinds that can start a new declaration, where panic-mode
/// recovery resynchronizes.
pub open spec fn starts_declaration(k: TokenType) -> bool {
    ||| k == TokenType::Class
    ||| k == TokenType::Fn
    ||| k == TokenType::Let
    ||| k == TokenType::For
    ||| k == TokenType::If
    ||| k == TokenType::While
    ||| k == TokenType::Print
    ||| k == TokenType::Return
}

/// Where panic-mode recovery lands when its scan starts at position `i`:
/// the first position from `i` on whose token is the end of input or starts
/// a declaration, or whose predecessor ended a statement.
pub open spec fn spec_synchronize(toks: Seq<Token>, i: int) -> int
    decreases toks.len() - i,
{
    if !(1 <= i < toks.len()) {
        i
    } else if toks[i].token_type == TokenType::Eof || toks[i - 1].token_type
        == TokenType::SemiColon || starts_declaration(toks[i].token_type) {
        i
    } else {
        spec_synchronize(toks, i + 1)
    }
}

/// The recovery scan never runs backwards, and on a well-formed input it
/// never runs past the end-of-input token.
pub proof fn lemma_spec_synchronize_bounds(toks: Seq<Token>, i: int)
    requires
        tokens_wf(toks),
        1 <= i <= toks.len() - 1,
    ensures
        i <= spec_synchronize(toks, i) <= toks.len() - 1,
    decreases toks.len() - i,
{
    if !(toks[i].token_type == TokenType::Eof || toks[i - 1].token_type == TokenType::SemiColon
        || starts_declaration(toks[i].token_type)) {
        lemma_spec_synchronize_bounds(toks, i + 1);
    }
}

/// The token window of one well-formed typed parameter: an identifier, the
/// colon-shaped annotation, and a recognized primitive type name.
pub open spec fn param_window(toks: Seq<Token>, i: int) -> bool {
    &&& 0 <= i && i + 3 <= toks.len()
    &&& toks[i].token_type == TokenType::Identifier
    &&& toks[i + 1].token_type == TokenType::Annotation
    &&& (toks[i + 2].token_type == TokenType::NumberType || toks[i + 2].token_type
        == TokenType::StringType || toks[i + 2].token_type == TokenType::BoolType)
}

/// What a failing rule records: exactly one new parse diagnostic, a
/// `ParseError` carrying one of the input tokens as the offending token.
pub open spec fn one_parse_error_recorded(pre: Parser, post: Parser) -> bool {
    &&& post.diagnostics@.len() == pre.diagnostics@.len() + 1
    &&& pre.diagnostics@.is_prefix_of(post.diagnostics@)
    &&& post.diagnostics@.last() matches Problem::ParseError { token: t, message: _ } && (exists|
        k: int,
    | 0 <= k < pre.tokens@.len() && t == #[trigger] pre.tokens@[k])
}

/// The token window of a condition-and-block statement skeleton: a
/// parenthesized (empty) condition and an empty block body.
pub open spec fn cond_block_window(toks: Seq<Token>, i: int) -> bool {
    &&& 0 <= i && i + 4 <= toks.len()
    &&& toks[i].token_type == TokenType::LeftParen
    &&& toks[i + 1].token_type == TokenType::RightParen
    &&& toks[i + 2].token_type == TokenType::LeftBrace
    &&& toks[i + 3].token_type == TokenType::RightBrace
}

/// The token window of a `for` statement's empty header: `( ; ; )`.
pub open spec fn for_empty_header_window(toks: Seq<Token>, i: int) -> bool {
    &&& 0 <= i && i + 4 <= toks.len()
    &&& toks[i].token_type == TokenType::LeftParen
    &&& toks[i + 1].token_type == TokenType::SemiColon
    &&& toks[i + 2].token_type == TokenType::SemiColon
    &&& toks[i + 3].token_type == TokenType::RightParen
}

/// The token window of a `for` header whose initializer is a variable
/// declaration and whose condition and increment are empty.
pub open spec fn for_let_header_window(toks: Seq<Token>, i: int) -> bool {
    &&& 0 <= i && i + 8 <= toks.len()
    &&& toks[i].token_type == TokenType::LeftParen
    &&& toks[i + 1].token_type == TokenType::Let
    &&& let_window(toks, i + 2)
    &&& toks[i + 6].token_type == TokenType::SemiColon
    &&& toks[i + 7].token_type == TokenType::RightParen
}

/// The token window of a class declaration with no superclass and no
/// methods.
pub open spec fn class_empty_window(toks: Seq<Token>, i: int) -> bool {
    &&& 0 <= i && i + 3 <= toks.len()
    &&& toks[i].token_type == TokenType::Identifier
    &&& toks[i + 1].token_type == TokenType::LeftBrace
    &&& toks[i + 2].token_type == TokenType::RightBrace
}

/// Whether a token can stand as a function-call argument: an identifier or
/// a string literal.
pub open spec fn call_arg_token(t: Token) -> bool {
    t.token_type == TokenType::Identifier || t.token_type == TokenType::String
}

/// The IR node kind a function-call argument is echoed as.
pub open spec fn spec_call_arg_kind(t: Token) -> AstType {
    if t.token_type == TokenType::Identifier {
        AstType::Identifier
    } else {
        AstType::String
    }
}

/// Where a function call's argument tail ends: starting at `i`, pairs of a
/// comma and one argument are consumed until a position that holds no such
/// pair.
pub open spec fn call_args_tail_end(toks: Seq<Token>, i: int) -> int
    decreases toks.len() - i,
{
    if 0 <= i && i < toks.len() && toks[i].token_type == TokenType::Comma && i + 1 < toks.len()
        && call_arg_token(toks[i + 1]) {
        call_args_tail_end(toks, i + 2)
    } else {
        i
    }
}

/// The IR node kinds a function call's argument tail is echoed as.
pub open spec fn call_arg_tail_kinds(toks: Seq<Token>, i: int) -> Seq<AstType>
    decreases toks.len() - i,
{
    if 0 <= i && i < toks.len() && toks[i].token_type == TokenType::Comma && i + 1 < toks.len()
        && call_arg_token(toks[i + 1]) {
        seq![spec_call_arg_kind(toks[i + 1])] + call_arg_tail_kinds(toks, i + 2)
    } else {
        Seq::empty()
    }
}

/// Where a function call's whole argument region ends, `i` being the
/// position right after the opening parenthesis.
pub open spec fn call_args_region_end(toks: Seq<Token>, i: int) -> int {
    if 0 <= i && i < toks.len() && call_arg_token(toks[i]) {
        call_args_tail_end(toks, i + 1)
    } else {
        i
    }
}

/// The IR node kinds a function call's whole argument region is echoed as.
pub open spec fn call_region_kinds(toks: Seq<Token>, i: int) -> Seq<AstType> {
    if 0 <= i && i < toks.len() && call_arg_token(toks[i]) {
        seq![spec_call_arg_kind(toks[i])] + call_arg_tail_kinds(toks, i + 1)
    } else {
        Seq::empty()
    }
}

/// The token window of a well-formed bare function-call statement: a name,
/// a parenthesized comma-separated argument region, and the terminating
/// semicolon.
pub open spec fn call_window(toks: Seq<Token>, i: int) -> bool {
    let e = call_args_region_end(toks, i + 2);
    &&& 0 <= i && i + 2 <= toks.len()
    &&& toks[i].token_type == TokenType::Identifier
    &&& toks[i + 1].token_type == TokenType::LeftParen
    &&& (toks[i + 2].token_type == TokenType::RightParen || call_arg_token(toks[i + 2]))
    &&& e + 2 <= toks.len()
    &&& toks[e].token_type == TokenType::RightParen
    &&& toks[e + 1].token_type == TokenType::SemiColon
}

/// The literal text a token carries, empty when it has none.
pub open spec fn literal_text(t: Token) -> Seq<char> {
    match t.literal {
        Option::Some(o) => o.spec_text(),
        Option::None => Seq::empty(),
    }
}

/// The parser: one exclusively owned cursor into the token sequence, the IR
/// accumulated so far, and the diagnostics recorded so far.
#[derive(Debug)]
pub struct Parser {
    pub tokens: Vec<Token>,
    pub current: usize,
    pub ast_tokens: Vec<AstToken>,
    pub diagnostics: Vec<Problem>,
}

impl Parser {
    /// The parser's cursor stays strictly inside the token sequence.
    pub open spec fn wf(self) -> bool {
        tokens_wf(self.tokens@) && self.current < self.tokens@.len()
    }

    /// Whether the cursor has reached the `Eof` token.
    pub open spec fn at_end(self) -> bool {
        self.tokens@[self.current as int].token_type == TokenType::Eof
    }

    /// The kind of the token under the cursor.
    pub open spec fn cur_kind(self) -> TokenType {
        self.tokens@[self.current as int].token_type
    }

    /// What every parsing step preserves: the tokens are read-only, the
    /// cursor only moves forward, and the IR and the diagnostics only grow.
    pub open spec fn parse_step(pre: Parser, post: Parser) -> bool {
        &&& post.wf()
        &&& post.tokens == pre.tokens
        &&& pre.current <= post.current
        &&& pre.ast_tokens@.is_prefix_of(post.ast_tokens@)
        &&& pre.diagnostics@.is_prefix_of(post.diagnostics@)
    }

    /// A parser at the start of a token sequence, with no IR and no
    /// diagnostics.
    pub fn new(tokens: Vec<Token>) -> (r: Parser)
        requires
            tokens_wf(tokens@),
        ensures
            r.wf(),
            r.tokens == tokens,
            r.current == 0,
            r.ast_tokens@ == Seq::<AstToken>::empty(),
            r.diagnostics@ == Seq::<Problem>::empty(),
    {
        Parser { tokens, current: 0, ast_tokens: Vec::new(), diagnostics: Vec::new() }
    }

    /// The token under the cursor, without consuming it.
    pub fn peek(&self) -> (t: &Token)
        requires
            self.wf(),
        ensures
            *t == self.tokens@[self.current as int],
    {
        &self.tokens[self.current]
    }

    /// One token of further lookahead, without consuming.
    pub fn peek_further(&self) -> (t: &Token)
        requires
            self.wf(),
            !self.at_end(),
        ensures
            *t == self.tokens@[self.current + 1],
    {
        let n: usize = self.tokens.len();
        proof {
            assert(self.tokens@.last() == self.tokens@[n - 1]);
        }
        &self.tokens[self.current + 1]
    }

    /// The most recently consumed token.
    pub fn previous(&self) -> (t: &Token)
        requires
            self.wf(),
            self.current >= 1,
        ensures
            *t == self.tokens@[self.current - 1],
    {
        &self.tokens[self.current - 1]
    }

    /// Whether the cursor has reached the end-of-input token.
    pub fn is_at_end(&self) -> (r: bool)
        requires
            self.wf(),
        ensures
            r == self.at_end(),
    {
        self.peek().is(TokenType::Eof)
    }

    /// Whether the current token has the given kind; always false at the
    /// end of input.
    pub fn check(&self, ttype: TokenType) -> (r: bool)
        requires
            self.wf(),
        ensures
            r == (!self.at_end() && self.cur_kind() == ttype),
    {
        if self.is_at_end() {
            false
        } else {
            self.peek().is(ttype)
        }
    }

    /// Whether the token one past the cursor has the given kind; always
    /// false at the end of input.
    pub fn check_further(&self, ttype: TokenType) -> (r: bool)
        requires
            self.wf(),
        ensures
            r == (!self.at_end() && self.tokens@[self.current + 1].token_type == ttype),
    {
        if self.is_at_end() {
            false
        } else {
            self.peek_further().is(ttype)
        }
    }

    /// Moves the cursor one token forward, stopping at the end of input.
    pub fn advance(&mut self)
        requires
            old(self).wf(),
        ensures
            final(self).wf(),
            final(self).tokens == old(self).tokens,
            final(self).ast_tokens == old(self).ast_tokens,
            final(self).diagnostics == old(self).diagnostics,
            final(self).current == if old(self).at_end() {
                old(self).current as int
            } else {
                old(self).current + 1
            },
    {
        if !self.is_at_end() {
            let n: usize = self.tokens.len();
            proof {
                assert(self.tokens@.last() == self.tokens@[n - 1]);
            }
            self.current = self.current + 1;
        }
    }

    /// Consumes the current token when it has the given kind.
    pub fn is_match(&mut self, ttype: TokenType) -> (r: bool)
        requires
            old(self).wf(),
        ensures
            final(self).wf(),
            final(self).tokens == old(self).tokens,
            final(self).ast_tokens == old(self).ast_tokens,
            final(self).diagnostics == old(self).diagnostics,
            r == (!old(self).at_end() && old(self).cur_kind() == ttype),
            final(self).current == if (!old(self).at_end() && old(self).cur_kind() == ttype) {
                old(self).current + 1
            } else {
                old(self).current as int
            },
    {
        if self.check(ttype) {
            self.advance();
            true
        } else {
            false
        }
    }

    /// Records a parse diagnostic carrying the offending token, and hands
    /// the same diagnostic back for the failing rule to return.
    pub fn error(&mut self, token: &Token, message: &str) -> (r: Problem)
        ensures
            final(self).tokens == old(self).tokens,
            final(self).current == old(self).current,
            final(self).ast_tokens == old(self).ast_tokens,
            final(self).diagnostics@ == old(self).diagnostics@.push(r),
            r matches Problem::ParseError { token: t, message: m } && t == *token && m@
                == message@,
    {
        let recorded = Problem::parse_error(token, message);
        let returned = recorded.dup();
        self.diagnostics.push(recorded);
        returned
    }

    /// Consumes and returns the current token when it has the given kind;
    /// otherwise records a diagnostic carrying the offending token and
    /// fails without consuming.
    pub fn consume(&mut self, ttype: TokenType, message: &str) -> (r: Result<Token, Problem>)
        requires
            old(self).wf(),
        ensures
            final(self).wf(),
            final(self).tokens == old(self).tokens,
            final(self).ast_tokens == old(self).ast_tokens,
            !old(self).at_end() && old(self).cur_kind() == ttype ==> {
                &&& r matches Ok(t) && t == old(self).tokens@[old(self).current as int]
                &&& final(self).current == old(self).current + 1
                &&& final(self).diagnostics == old(self).diagnostics
            },
            !(!old(self).at_end() && old(self).cur_kind() == ttype) ==> {
                &&& r is Err
                &&& final(self).current == old(self).current
                &&& final(self).diagnostics@.len() == old(self).diagnostics@.len() + 1
                &&& old(self).diagnostics@.is_prefix_of(final(self).diagnostics@)
                &&& final(self).diagnostics@.last() matches Problem::ParseError {
                    token: t,
                    message: m,
                } && t == old(self).tokens@[old(self).current as int] && m@ == message@
            },
    {
        if self.check(ttype) {
            let t = self.peek().dup();
            self.advance();
            Ok(t)
        } else {
            let offending = self.peek().dup();
            Err(self.error(&offending, message))
        }
    }

    /// Panic-mode recovery: advances one token, then keeps advancing until
    /// the previous token ended a statement or the current token starts a
    /// new declaration, so that one broken statement yields one diagnostic.
    pub fn synchronize(&mut self)
        requires
            old(self).wf(),
        ensures
            final(self).wf(),
            final(self).tokens == old(self).tokens,
            final(self).ast_tokens == old(self).ast_tokens,
            final(self).diagnostics == old(self).diagnostics,
            old(self).current <= final(self).current,
            !old(self).at_end() ==> final(self).current > old(self).current,
            final(self).at_end() || final(self).tokens@[final(self).current - 1].token_type
                == TokenType::SemiColon || starts_declaration(final(self).cur_kind()),
            old(self).at_end() ==> final(self).current == old(self).current,
            !old(self).at_end() ==> final(self).current == spec_synchronize(
                old(self).tokens@,
                old(self).current + 1,
            ),
    {
        self.advance();

        while !self.is_at_end()
            invariant
                self.wf(),
                self.tokens == old(self).tokens,
                self.ast_tokens == old(self).ast_tokens,
                self.diagnostics == old(self).diagnostics,
                old(self).current <= self.current,
                !old(self).at_end() ==> self.current > old(self).current,
                self.current >= 1 || self.at_end(),
                old(self).at_end() ==> self.current == old(self).current,
                !old(self).at_end() ==> spec_synchronize(
                    self.tokens@,
                    old(self).current + 1,
                ) == spec_synchronize(self.tokens@, self.current as int),
            decreases self.tokens@.len() - self.current,
        {
            if self.previous().is(TokenType::SemiColon) {
                proof {
                    assert(spec_synchronize(self.tokens@, self.current as int)
                        == self.current as int);
                }
                return ;
            }
            let next_kind = self.peek().token_type();
            if matches!(
                next_kind,
                TokenType::Class
                    | TokenType::Fn
                    | TokenType::Let
                    | TokenType::For
                    | TokenType::If
                    | TokenType::While
                    | TokenType::Print
                    | TokenType::Return
            ) {
                proof {
                    assert(starts_declaration(self.cur_kind()));
                    assert(spec_synchronize(self.tokens@, self.current as int)
                        == self.current as int);
                }
                return ;
            }
            proof {
                assert(spec_synchronize(self.tokens@, self.current as int) == spec_synchronize(
                    self.tokens@,
                    self.current + 1,
                ));
            }
            self.advance();
        }
        proof {
            if self.current >= 1 {
                assert(spec_synchronize(self.tokens@, self.current as int)
                    == self.current as int);
            }
        }
    }

    /// Appends an IR node of the given kind carrying the lexeme of the most
    /// recently consumed token.
    pub fn add_token(&mut self, atype: AstType)
        requires
            old(self).wf(),
            old(self).current >= 1,
        ensures
            final(self).wf(),
            final(self).tokens == old(self).tokens,
            final(self).current == old(self).current,
            final(self).diagnostics == old(self).diagnostics,
            final(self).ast_tokens@.len() == old(self).ast_tokens@.len() + 1,
            old(self).ast_tokens@.is_prefix_of(final(self).ast_tokens@),
            final(self).ast_tokens@.last().ast_type == atype,
            final(self).ast_tokens@.last().lexeme@ == old(self).tokens@[old(
                self,
            ).current - 1].lexeme@,
            final(self).ast_tokens@.last().literal is None,
            kinds(final(self).ast_tokens@) == kinds(old(self).ast_tokens@).push(atype),
    {
        self.add_token_object(atype, None);
    }

    /// Appends an IR node of the given kind carrying an explicit lexeme.
    pub fn add_token_with_value(&mut self, atype: AstType, lexeme: String)
        ensures
            final(self).tokens == old(self).tokens,
            final(self).current == old(self).current,
            final(self).diagnostics == old(self).diagnostics,
            final(self).ast_tokens@.len() == old(self).ast_tokens@.len() + 1,
            old(self).ast_tokens@.is_prefix_of(final(self).ast_tokens@),
            final(self).ast_tokens@.last().ast_type == atype,
            final(self).ast_tokens@.last().lexeme == lexeme,
            final(self).ast_tokens@.last().literal is None,
            kinds(final(self).ast_tokens@) == kinds(old(self).ast_tokens@).push(atype),
    {
        self.ast_tokens.push(AstToken::new(atype, lexeme, None));
        proof {
            assert(kinds(self.ast_tokens@) =~= kinds(old(self).ast_tokens@).push(
                self.ast_tokens@.last().ast_type,
            ));
        }
    }

    /// Appends an IR node of the given kind carrying the lexeme of the most
    /// recently consumed token and the given literal.
    pub fn add_token_object(&mut self, atype: AstType, literal: Option<crate::token::Object>)
        requires
            old(self).wf(),
            old(self).current >= 1,
        ensures
            final(self).wf(),
            final(self).tokens == old(self).tokens,
            final(self).current == old(self).current,
            final(self).diagnostics == old(self).diagnostics,
            final(self).ast_tokens@.len() == old(self).ast_tokens@.len() + 1,
            old(self).ast_tokens@.is_prefix_of(final(self).ast_tokens@),
            final(self).ast_tokens@.last().ast_type == atype,
            final(self).ast_tokens@.last().lexeme@ == old(self).tokens@[old(
                self,
            ).current - 1].lexeme@,
            final(self).ast_tokens@.last().literal == literal,
            kinds(final(self).ast_tokens@) == kinds(old(self).ast_tokens@).push(atype),
    {
        let lexeme = self.previous().as_string();
        self.ast_tokens.push(AstToken::new(atype, lexeme, literal));
        proof {
            assert(kinds(self.ast_tokens@) =~= kinds(old(self).ast_tokens@).push(
                self.ast_tokens@.last().ast_type,
            ));
        }
    }
}

/// The first position at or after `i` where the placeholder `{}` occurs.
pub open spec fn find_placeholder_from(s: Seq<char>, i: int) -> Option<int>
    decreases s.len() - i,
{
    if i < 0 || i + 2 > s.len() {
        None
    } else if s[i] == '{' && s[i + 1] == '}' {
        Some(i)
    } else {
        find_placeholder_from(s, i + 1)
    }
}

/// The interpolation marker built from an argument's lexeme.
pub open spec fn marker_of(lexeme: Seq<char>) -> Seq<char> {
    seq!['$', '{'] + lexeme + seq!['}']
}

/// One substitution step: the first `{}` placeholder replaced by the marker;
/// a text without a placeholder is left unchanged.
pub open spec fn spec_substitute(s: Seq<char>, marker: Seq<char>) -> Seq<char> {
    match find_placeholder_from(s, 0) {
        Some(i) => s.take(i) + marker + s.skip(i + 2),
        None => s,
    }
}

/// Each argument's marker substituted for one placeholder, left to right;
/// placeholders beyond the supplied arguments stay unsubstituted.
pub open spec fn spec_substitute_all(s: Seq<char>, args: Seq<Seq<char>>) -> Seq<char>
    decreases args.len(),
{
    if args.len() == 0 {
        s
    } else {
        spec_substitute_all(spec_substitute(s, marker_of(args[0])), args.subrange(1, args.len() as int))
    }
}

/// A found placeholder really is one: it lies in bounds, after the start of
/// the search, and spells `{}`.
proof fn lemma_find_placeholder_props(s: Seq<char>, from: int, i: int)
    requires
        0 <= from,
        find_placeholder_from(s, from) == Some(i),
    ensures
        from <= i,
        i + 2 <= s.len(),
        s[i] == '{',
        s[i + 1] == '}',
    decreases s.len() - from,
{
    if !(from + 2 > s.len()) && !(s[from] == '{' && s[from + 1] == '}') {
        lemma_find_placeholder_props(s, from + 1, i);
    }
}

/// Substituting one more argument substitutes into the already-substituted
/// text.
proof fn lemma_substitute_all_snoc(s: Seq<char>, args: Seq<Seq<char>>, a: Seq<char>)
    ensures
        spec_substitute_all(s, args.push(a)) == spec_substitute(
            spec_substitute_all(s, args),
            marker_of(a),
        ),
    decreases args.len(),
{
    if args.len() == 0 {
        assert(args.push(a)[0] == a);
        assert(args.push(a).subrange(1, 1) =~= Seq::<Seq<char>>::empty());
        assert(spec_substitute_all(s, args) == s);
        assert(spec_substitute_all(spec_substitute(s, marker_of(a)), Seq::empty())
            == spec_substitute(s, marker_of(a)));
        assert(spec_substitute_all(s, args.push(a)) == spec_substitute_all(
            spec_substitute(s, marker_of(a)),
            args.push(a).subrange(1, 1),
        ));
    } else {
        assert(args.push(a)[0] == args[0]);
        assert(args.push(a).subrange(1, args.len() as int + 1) =~= args.subrange(
            1,
            args.len() as int,
        ).push(a));
        lemma_substitute_all_snoc(
            spec_substitute(s, marker_of(args[0])),
            args.subrange(1, args.len() as int),
            a,
        );
    }
}

/// The position of the first `{}` placeholder in a text, if any.
pub fn find_placeholder(s: &str) -> (r: Option<usize>)
    ensures
        match r {
            Some(i) => find_placeholder_from(s@, 0) == Some(i as int),
            None => find_placeholder_from(s@, 0) is None,
        },
{
    let n = s.unicode_len();
    let mut i: usize = 0;
    while n >= 2 && i <= n - 2
        invariant
            i <= n,
            n == s@.len(),
            find_placeholder_from(s@, 0) == find_placeholder_from(s@, i as int),
        decreases n - i,
    {
        let c1 = s.get_char(i);
        let c2 = s.get_char(i + 1);
        if c1 == '{' && c2 == '}' {
            return Some(i);
        }
        i = i + 1;
    }
    None
}

/// Replaces the first `{}` placeholder in `s` with the interpolation marker
/// built from `lexeme`; a text without a placeholder comes back unchanged.
pub fn substitute_placeholder(s: &str, lexeme: &str) -> (r: String)
    ensures
        r@ == spec_substitute(s@, marker_of(lexeme@)),
{
    match find_placeholder(s) {
        None => s.to_owned(),
        Some(i) => {
            proof {
                lemma_find_placeholder_props(s@, 0, i as int);
            }
            let n = s.unicode_len();
            let mut r = s.substring_char(0, i).to_owned();
            r.append("${");
            r.append(lexeme);
            r.append("}");
            r.append(s.substring_char(i + 2, n));
            proof {
                reveal_strlit("${");
                reveal_strlit("}");
                assert(("${")@ =~= seq!['$', '{']);
                assert(("}")@ =~= seq!['}']);
                assert(r@ =~= s@.take(i as int) + marker_of(lexeme@) + s@.skip(i + 2));
            }
            r
        },
    }
}

/// Wraps a rewritten print text for interpolation at emission time.
pub fn wrap_backticks(s: &str) -> (r: String)
    ensures
        r@ == seq!['`'] + s@ + seq!['`'],
{
    let mut r = String::from_str("`");
    r.append(s);
    r.append("`");
    proof {
        reveal_strlit("`");
        assert(("`")@ =~= seq!['`']);
        assert(r@ =~= seq!['`'] + s@ + seq!['`']);
    }
    r
}

/// Where a print statement's argument region ends: starting at `i`, pairs
/// of a comma and one argument token are consumed until a position that
/// holds no such pair.
pub open spec fn print_args_end(toks: Seq<Token>, i: int) -> int
    decreases toks.len() - i,
{
    if 0 <= i && i < toks.len() && toks[i].token_type == TokenType::Comma && i + 1 < toks.len()
        && toks[i + 1].token_type != TokenType::Eof {
        print_args_end(toks, i + 2)
    } else {
        i
    }
}

/// The lexemes of a print statement's comma-separated arguments, in order.
pub open spec fn print_arg_lexemes(toks: Seq<Token>, i: int) -> Seq<Seq<char>>
    decreases toks.len() - i,
{
    if 0 <= i && i < toks.len() && toks[i].token_type == TokenType::Comma && i + 1 < toks.len()
        && toks[i + 1].token_type != TokenType::Eof {
        seq![toks[i + 1].lexeme@] + print_arg_lexemes(toks, i + 2)
    } else {
        Seq::empty()
    }
}

/// The token window of a well-formed print statement, as it stands when the
/// `print` keyword has just been consumed: an opening parenthesis, the
/// string literal, the comma-separated argument region, the closing
/// parenthesis, and the terminating semicolon.
pub open spec fn print_window(toks: Seq<Token>, i: int) -> bool {
    let j = print_args_end(toks, i + 2);
    &&& 0 <= i && i + 2 <= toks.len()
    &&& toks[i].token_type == TokenType::LeftParen
    &&& toks[i + 1].token_type == TokenType::String
    &&& j + 2 <= toks.len()
    &&& toks[j].token_type == TokenType::RightParen
    &&& toks[j + 1].token_type == TokenType::SemiColon
}

/// The token window of a variable declaration, as it stands when the `let`
/// keyword has just been consumed.
pub open spec fn let_window(toks: Seq<Token>, i: int) -> bool {
    &&& 0 <= i && i + 4 <= toks.len()
    &&& toks[i].token_type == TokenType::Identifier
    &&& toks[i + 1].token_type == TokenType::Assign
    &&& (toks[i + 2].token_type == TokenType::String || toks[i + 2].token_type
        == TokenType::Number)
    &&& toks[i + 3].token_type == TokenType::SemiColon
}

impl Parser {
    /// The expression grammar is intentionally a placeholder in this
    /// language revision: conditions and expression statements are validated
    /// only through their surrounding punctuation, and no IR is produced for
    /// them.
    pub fn expression(&mut self) -> (r: Result<(), Problem>)
        ensures
            *final(self) == *old(self),
            r is Ok,
    {
        Ok(())
    }

    /// An expression followed by its terminating semicolon.
    pub fn expression_statement(&mut self) -> (r: Result<(), Problem>)
        requires
            old(self).wf(),
        ensures
            Parser::parse_step(*old(self), *final(self)),
            final(self).ast_tokens == old(self).ast_tokens,
            r is Ok ==> final(self).diagnostics == old(self).diagnostics && final(self).current
                == old(self).current + 1,
            r is Err ==> one_parse_error_recorded(*old(self), *final(self))
                && final(self).current == old(self).current,
            r is Ok <==> !old(self).at_end() && old(self).cur_kind() == TokenType::SemiColon,
    {
        self.expression()?;
        self.consume(TokenType::SemiColon, "Jparser: Expect ';' after expression.")?;
        Ok(())
    }

    /// One typed parameter: an identifier, a colon-shaped annotation, and a
    /// recognized primitive type name.  Only the identifier is echoed into
    /// the IR.
    pub fn param_annotation(&mut self) -> (r: Result<(), Problem>)
        requires
            old(self).wf(),
        ensures
            Parser::parse_step(*old(self), *final(self)),
            r is Ok ==> final(self).diagnostics == old(self).diagnostics,
            r is Err ==> one_parse_error_recorded(*old(self), *final(self)),
            r is Ok ==> final(self).current >= old(self).current + 3,
            r is Ok ==> kinds(final(self).ast_tokens@) == kinds(old(self).ast_tokens@).push(
                AstType::Identifier,
            ),
            r is Ok ==> final(self).ast_tokens@.last().lexeme@ == old(self).tokens@[old(
                self,
            ).current as int].lexeme@,
            kinds(final(self).ast_tokens@) == kinds(old(self).ast_tokens@) || kinds(
                final(self).ast_tokens@,
            ) == kinds(old(self).ast_tokens@).push(AstType::Identifier),
            r is Ok <==> param_window(old(self).tokens@, old(self).current as int),
            r is Ok ==> final(self).current == old(self).current + 3,
    {
        self.consume(TokenType::Identifier, "Param type Required")?;
        self.add_token(AstType::Identifier);
        self.consume(
            TokenType::Annotation,
            "Param type must be annotated with : [variable name: variable type] ",
        )?;
        let var_type = self.peek().token_type();
        if matches!(var_type, TokenType::NumberType | TokenType::StringType | TokenType::BoolType) {
            self.consume(var_type, "must have type name")?;
            Ok(())
        } else {
            let offending = self.peek().dup();
            Err(self.error(&offending, "parameter requires a type"))
        }
    }

    /// One argument of a function-call statement: an identifier or a string
    /// literal is echoed into the IR; any other token is left for the
    /// closing parenthesis to reject.
    pub fn function_call_params(&mut self) -> (r: Result<(), Problem>)
        requires
            old(self).wf(),
        ensures
            Parser::parse_step(*old(self), *final(self)),
            r is Ok,
            final(self).diagnostics == old(self).diagnostics,
            !old(self).at_end() && old(self).cur_kind() == TokenType::Identifier ==> ({
                &&& final(self).current == old(self).current + 1
                &&& kinds(final(self).ast_tokens@) == kinds(old(self).ast_tokens@).push(
                    AstType::Identifier,
                )
                &&& final(self).ast_tokens@.last().lexeme@ == old(self).tokens@[old(
                    self,
                ).current as int].lexeme@
            }),
            !old(self).at_end() && old(self).cur_kind() == TokenType::String ==> ({
                &&& final(self).current == old(self).current + 1
                &&& kinds(final(self).ast_tokens@) == kinds(old(self).ast_tokens@).push(
                    AstType::String,
                )
                &&& final(self).ast_tokens@.last().lexeme@ == old(self).tokens@[old(
                    self,
                ).current as int].lexeme@
            }),
            old(self).at_end() || !(old(self).cur_kind() == TokenType::Identifier || old(
                self,
            ).cur_kind() == TokenType::String) ==> *final(self) == *old(self),
    {
        let next_kind = self.peek().token_type();
        match next_kind {
            TokenType::Identifier => {
                self.consume(TokenType::Identifier, "Expect paramater name")?;
                self.add_token(AstType::Identifier);
            },
            TokenType::String => {
                self.consume(TokenType::String, "Expect paramater name")?;
                self.add_token(AstType::String);
            },
            _ => {},
        }
        Ok(())
    }

    /// A bare function-call statement: name, parenthesized comma-separated
    /// arguments, terminating semicolon; every token is individually
    /// validated and echoed into the IR.
    pub fn function_call(&mut self) -> (r: Result<(), Problem>)
        requires
            old(self).wf(),
        ensures
            Parser::parse_step(*old(self), *final(self)),
            r is Ok ==> final(self).diagnostics == old(self).diagnostics,
            r is Err ==> one_parse_error_recorded(*old(self), *final(self)),
            r is Ok ==> final(self).current > old(self).current,
            !old(self).at_end() && old(self).cur_kind() == TokenType::Identifier
                ==> final(self).current > old(self).current,
            forall|i: int|
                kinds(old(self).ast_tokens@).len() <= i < kinds(final(self).ast_tokens@).len()
                    ==> crate::ast::brace_delta(#[trigger] kinds(final(self).ast_tokens@)[i])
                    == 0,
            r is Ok ==> brace_balanced(
                kinds(final(self).ast_tokens@).skip(old(self).ast_tokens@.len() as int),
            ),
            r is Ok ==> old(self).tokens@[old(self).current as int].token_type
                == TokenType::Identifier && old(self).tokens@[old(self).current + 1].token_type
                == TokenType::LeftParen,
            call_window(old(self).tokens@, old(self).current as int) ==> ({
                &&& r is Ok
                &&& final(self).current == call_args_region_end(
                    old(self).tokens@,
                    old(self).current + 2,
                ) + 2
                &&& kinds(final(self).ast_tokens@) == kinds(old(self).ast_tokens@) + seq![
                    AstType::Identifier,
                    AstType::LeftParen,
                ] + call_region_kinds(old(self).tokens@, old(self).current + 2) + seq![
                    AstType::RightParen,
                    AstType::SemiColon,
                ]
            }),
    {
        self.consume(TokenType::Identifier, "Function call name not added")?;
        self.add_token(AstType::Identifier);

        self.consume(TokenType::LeftParen, "Function Opening brace not added")?;
        self.add_token(AstType::LeftParen);

        if !self.check(TokenType::RightParen) {
            self.function_call_params()?;
            loop
                invariant
                    self.wf(),
                    self.tokens == old(self).tokens,
                    old(self).ast_tokens@.is_prefix_of(self.ast_tokens@),
                    self.diagnostics == old(self).diagnostics,
                    old(self).current < self.current,
                    call_window(old(self).tokens@, old(self).current as int) ==> ({
                        let toks = old(self).tokens@;
                        let c = old(self).current as int;
                        &&& c + 3 <= self.current
                        &&& call_args_tail_end(toks, c + 3) == call_args_tail_end(
                            toks,
                            self.current as int,
                        )
                        &&& kinds(self.ast_tokens@) + call_arg_tail_kinds(
                            toks,
                            self.current as int,
                        ) =~= kinds(old(self).ast_tokens@) + seq![
                            AstType::Identifier,
                            AstType::LeftParen,
                            spec_call_arg_kind(toks[c + 2]),
                        ] + call_arg_tail_kinds(toks, c + 3)
                    }),
                    forall|i: int|
                        kinds(old(self).ast_tokens@).len() <= i < kinds(self.ast_tokens@).len()
                            ==> crate::ast::brace_delta(#[trigger] kinds(self.ast_tokens@)[i])
                            == 0,
                ensures
                    self.wf(),
                    self.tokens == old(self).tokens,
                    old(self).ast_tokens@.is_prefix_of(self.ast_tokens@),
                    self.diagnostics == old(self).diagnostics,
                    old(self).current < self.current,
                    call_window(old(self).tokens@, old(self).current as int) ==> ({
                        let toks = old(self).tokens@;
                        let c = old(self).current as int;
                        &&& call_args_tail_end(toks, c + 3) == self.current as int
                        &&& kinds(self.ast_tokens@) =~= kinds(old(self).ast_tokens@) + seq![
                            AstType::Identifier,
                            AstType::LeftParen,
                            spec_call_arg_kind(toks[c + 2]),
                        ] + call_arg_tail_kinds(toks, c + 3)
                    }),
                    forall|i: int|
                        kinds(old(self).ast_tokens@).len() <= i < kinds(self.ast_tokens@).len()
                            ==> crate::ast::brace_delta(#[trigger] kinds(self.ast_tokens@)[i])
                            == 0,
                decreases self.tokens@.len() - self.current,
            {
                let ghost pos = self.current as int;
                if !self.is_match(TokenType::Comma) {
                    proof {
                        if call_window(old(self).tokens@, old(self).current as int) {
                            assert(call_args_tail_end(old(self).tokens@, pos) == pos);
                            assert(call_arg_tail_kinds(old(self).tokens@, pos)
                                =~= Seq::<AstType>::empty());
                        }
                    }
                    break ;
                }
                self.function_call_params()?;
                proof {
                    if call_window(old(self).tokens@, old(self).current as int) {
                        let toks = old(self).tokens@;
                        assert(call_args_tail_end(toks, pos) == pos || (toks[pos + 1].token_type
                            == TokenType::Identifier || toks[pos + 1].token_type
                            == TokenType::String));
                        assert(call_arg_tail_kinds(toks, pos) == seq![
                            spec_call_arg_kind(toks[pos + 1]),
                        ] + call_arg_tail_kinds(toks, self.current as int));
                        assert(call_args_tail_end(toks, pos) == call_args_tail_end(
                            toks,
                            self.current as int,
                        ));
                        assert(kinds(self.ast_tokens@) + call_arg_tail_kinds(
                            toks,
                            self.current as int,
                        ) =~= kinds(old(self).ast_tokens@) + seq![
                            AstType::Identifier,
                            AstType::LeftParen,
                            spec_call_arg_kind(toks[old(self).current + 2]),
                        ] + call_arg_tail_kinds(toks, old(self).current + 3));
                    }
                }
            }
        }
        self.consume(TokenType::RightParen, "Close function call body")?;
        self.add_token(AstType::RightParen);

        self.consume(TokenType::SemiColon, "End function call with semi-colon")?;
        self.add_token(AstType::SemiColon);
        proof {
            crate::ast::lemma_braceless_balanced(
                kinds(self.ast_tokens@).skip(old(self).ast_tokens@.len() as int),
            );
        }
        Ok(())
    }

    /// A variable declaration: `let <identifier> = <literal> ;` where the
    /// value is restricted to a single string or number literal.  On the
    /// well-formed window the emitted IR is exactly
    /// `[Let, Identifier, Assign, String | Number, SemiColon]`.
    pub fn var_declaration(&mut self) -> (r: Result<(), Problem>)
        requires
            old(self).wf(),
            old(self).current >= 1,
        ensures
            Parser::parse_step(*old(self), *final(self)),
            r is Ok ==> final(self).diagnostics == old(self).diagnostics,
            r is Err ==> one_parse_error_recorded(*old(self), *final(self)),
            r is Ok ==> final(self).current > old(self).current,
            forall|i: int|
                kinds(old(self).ast_tokens@).len() <= i < kinds(final(self).ast_tokens@).len()
                    ==> crate::ast::brace_delta(#[trigger] kinds(final(self).ast_tokens@)[i])
                    == 0,
            r is Ok ==> brace_balanced(
                kinds(final(self).ast_tokens@).skip(old(self).ast_tokens@.len() as int),
            ),
            old(self).cur_kind() != TokenType::Identifier ==> ({
                &&& r is Err
                &&& final(self).current == old(self).current
                &&& kinds(final(self).ast_tokens@) == kinds(old(self).ast_tokens@).push(
                    AstType::Let,
                )
                &&& final(self).diagnostics@.last() matches Problem::ParseError {
                    token: t,
                    message: _,
                } && t == old(self).tokens@[old(self).current as int]
            }),
            ({
                let toks = old(self).tokens@;
                let c = old(self).current as int;
                &&& !old(self).at_end()
                &&& toks[c].token_type == TokenType::Identifier
                &&& toks[c + 1].token_type == TokenType::Assign
                &&& toks[c + 2].token_type != TokenType::String
                &&& toks[c + 2].token_type != TokenType::Number
            }) ==> ({
                &&& r is Err
                &&& final(self).current == old(self).current + 2
                &&& final(self).diagnostics@.last() matches Problem::ParseError {
                    token: t,
                    message: _,
                } && t == old(self).tokens@[old(self).current + 2]
            }),
            let_window(old(self).tokens@, old(self).current as int) ==> ({
                &&& r is Ok
                &&& final(self).current == old(self).current + 4
                &&& kinds(final(self).ast_tokens@) == kinds(old(self).ast_tokens@) + seq![
                    AstType::Let,
                    AstType::Identifier,
                    AstType::Assign,
                    if old(self).tokens@[old(self).current + 2].token_type == TokenType::String {
                        AstType::String
                    } else {
                        AstType::Number
                    },
                    AstType::SemiColon,
                ]
                &&& final(self).ast_tokens@[old(self).ast_tokens@.len() as int + 1].lexeme@
                    == old(self).tokens@[old(self).current as int].lexeme@
            }),
    {
        self.add_token(AstType::Let);

        let name = self.consume(TokenType::Identifier, "Jparser: Expect variable name.")?;
        self.add_token_object(AstType::Identifier, name.literal);

        self.consume(TokenType::Assign, "Jparser: Expect '=' variable assignment required.")?;
        self.add_token(AstType::Assign);

        if self.is_match(TokenType::String) {
            self.add_token(AstType::String);
        } else if self.is_match(TokenType::Number) {
            self.add_token(AstType::Number);
        } else {
            let offending = self.peek().dup();
            return Err(
                self.error(
                    &offending,
                    "Jparser: Expect a string or number literal as the variable value.",
                ),
            );
        }
        self.consume(TokenType::SemiColon, "Jparser: Expect ';' after variable declaration.")?;
        self.add_token(AstType::SemiColon);
        proof {
            crate::ast::lemma_braceless_balanced(
                kinds(self.ast_tokens@).skip(old(self).ast_tokens@.len() as int),
            );
        }
        Ok(())
    }

    /// A print statement: the string literal is rewritten by substituting
    /// each comma-separated argument's interpolation marker for one `{}`
    /// placeholder in turn (placeholders beyond the supplied arguments stay
    /// as they are), wrapped for interpolation, and emitted as a single
    /// `String` IR node carrying the rewritten text as its lexeme.
    pub fn print_statement(&mut self) -> (r: Result<(), Problem>)
        requires
            old(self).wf(),
            old(self).current >= 1,
        ensures
            Parser::parse_step(*old(self), *final(self)),
            r is Ok ==> final(self).diagnostics == old(self).diagnostics,
            r is Err ==> one_parse_error_recorded(*old(self), *final(self)),
            r is Ok ==> final(self).current > old(self).current,
            r is Ok ==> kinds(final(self).ast_tokens@) == kinds(old(self).ast_tokens@) + seq![
                AstType::Print,
                AstType::LeftParen,
                AstType::String,
                AstType::RightParen,
                AstType::SemiColon,
            ],
            r is Ok ==> brace_balanced(
                kinds(final(self).ast_tokens@).skip(old(self).ast_tokens@.len() as int),
            ),
            r is Ok ==> print_window(old(self).tokens@, old(self).current as int),
            print_window(old(self).tokens@, old(self).current as int) ==> ({
                &&& r is Ok
                &&& final(self).current == print_args_end(
                    old(self).tokens@,
                    old(self).current + 2,
                ) + 2
                &&& final(self).ast_tokens@[old(self).ast_tokens@.len() as int + 2].lexeme@
                    == seq!['`'] + spec_substitute_all(
                    literal_text(old(self).tokens@[old(self).current + 1]),
                    print_arg_lexemes(old(self).tokens@, old(self).current + 2),
                ) + seq!['`']
                &&& final(self).ast_tokens@[old(self).ast_tokens@.len() as int + 2].literal
                    is None
            }),
    {
        self.add_token(AstType::Print);

        self.consume(TokenType::LeftParen, "Print Requires Opening brace")?;
        self.add_token(AstType::LeftParen);

        self.consume(TokenType::String, "No string Value for  print")?;

        let mut string_value: String = {
            let prev = self.previous();
            match &prev.literal {
                Some(print_val) => print_val.to_string(),
                None => String::new(),
            }
        };
        let ghost lit0 = string_value@;
        let ghost mut args: Seq<Seq<char>> = Seq::empty();

        if !self.check(TokenType::RightParen) {
            loop
                invariant
                    self.wf(),
                    self.tokens == old(self).tokens,
                    self.ast_tokens@.len() == old(self).ast_tokens@.len() + 2,
                    old(self).ast_tokens@.is_prefix_of(self.ast_tokens@),
                    kinds(self.ast_tokens@) == kinds(old(self).ast_tokens@) + seq![
                        AstType::Print,
                        AstType::LeftParen,
                    ],
                    self.diagnostics == old(self).diagnostics,
                    old(self).current + 2 <= self.current,
                    string_value@ == spec_substitute_all(lit0, args),
                    lit0 == literal_text(old(self).tokens@[old(self).current + 1]),
                    print_arg_lexemes(old(self).tokens@, old(self).current + 2) =~= args
                        + print_arg_lexemes(old(self).tokens@, self.current as int),
                    print_args_end(old(self).tokens@, old(self).current + 2) == print_args_end(
                        old(self).tokens@,
                        self.current as int,
                    ),
                ensures
                    self.wf(),
                    self.tokens == old(self).tokens,
                    self.ast_tokens@.len() == old(self).ast_tokens@.len() + 2,
                    old(self).ast_tokens@.is_prefix_of(self.ast_tokens@),
                    kinds(self.ast_tokens@) == kinds(old(self).ast_tokens@) + seq![
                        AstType::Print,
                        AstType::LeftParen,
                    ],
                    self.diagnostics == old(self).diagnostics,
                    old(self).current + 2 <= self.current,
                    string_value@ == spec_substitute_all(lit0, args),
                    lit0 == literal_text(old(self).tokens@[old(self).current + 1]),
                    args =~= print_arg_lexemes(old(self).tokens@, old(self).current + 2),
                    print_args_end(old(self).tokens@, old(self).current + 2)
                        == self.current as int,
                decreases self.tokens@.len() - self.current,
            {
                let ghost pos = self.current as int;
                if !self.is_match(TokenType::Comma) {
                    proof {
                        assert(print_arg_lexemes(old(self).tokens@, pos)
                            =~= Seq::<Seq<char>>::empty());
                        assert(print_args_end(old(self).tokens@, pos) == pos);
                        assert(args =~= args + Seq::<Seq<char>>::empty());
                    }
                    break ;
                }
                proof {
                    if self.at_end() {
                        // the argument token would be the end of input, so
                        // this position cannot lie inside a well-formed
                        // argument region
                        assert(print_args_end(old(self).tokens@, pos) == pos);
                        assert(!print_window(old(self).tokens@, old(self).current as int));
                    }
                }
                let token_next = self.peek().token_type();
                let arg_lexeme = self.peek().as_string();
                let ghost args_before = args;
                string_value = substitute_placeholder(string_value.as_str(), arg_lexeme.as_str());
                proof {
                    args = args.push(arg_lexeme@);
                    lemma_substitute_all_snoc(lit0, args_before, arg_lexeme@);
                }
                self.consume(token_next, "Println: Expect paramter value after comma")?;
                proof {
                    assert(print_arg_lexemes(old(self).tokens@, pos) == seq![old(
                        self,
                    ).tokens@[pos + 1].lexeme@] + print_arg_lexemes(
                        old(self).tokens@,
                        self.current as int,
                    ));
                    assert(print_args_end(old(self).tokens@, pos) == print_args_end(
                        old(self).tokens@,
                        self.current as int,
                    ));
                    assert(print_arg_lexemes(old(self).tokens@, old(self).current + 2) =~= args
                        + print_arg_lexemes(old(self).tokens@, self.current as int));
                }
            }
        }
        proof {
            assert(args =~= print_arg_lexemes(old(self).tokens@, old(self).current + 2));
            assert(print_args_end(old(self).tokens@, old(self).current + 2)
                == self.current as int);
        }
        let wrapped = wrap_backticks(string_value.as_str());
        self.add_token_with_value(AstType::String, wrapped);

        self.consume(TokenType::RightParen, "Print Requires Closing brace")?;
        self.add_token(AstType::RightParen);

        self.consume(TokenType::SemiColon, "Print value must end with ;")?;
        self.add_token(AstType::SemiColon);
        proof {
            assert(kinds(self.ast_tokens@).skip(old(self).ast_tokens@.len() as int) =~= seq![
                AstType::Print,
                AstType::LeftParen,
                AstType::String,
                AstType::RightParen,
                AstType::SemiColon,
            ]);
            crate::ast::lemma_braceless_balanced(
                kinds(self.ast_tokens@).skip(old(self).ast_tokens@.len() as int),
            );
            assert(args == print_arg_lexemes(old(self).tokens@, old(self).current + 2));
            assert(print_window(old(self).tokens@, old(self).current as int));
            assert(self.ast_tokens@[old(self).ast_tokens@.len() as int + 2].lexeme@ == seq!['`']
                + spec_substitute_all(
                literal_text(old(self).tokens@[old(self).current + 1]),
                print_arg_lexemes(old(self).tokens@, old(self).current + 2),
            ) + seq!['`']);
        }
        Ok(())
    }
}

/// The token window of a zero-parameter, empty-body function declaration,
/// as it stands when the `fn` keyword has just been consumed.
pub open spec fn simple_fn_window(toks: Seq<Token>, i: int) -> bool {
    &&& 0 <= i && i + 5 <= toks.len()
    &&& toks[i].token_type == TokenType::Identifier
    &&& toks[i + 1].token_type == TokenType::LeftParen
    &&& toks[i + 2].token_type == TokenType::RightParen
    &&& toks[i + 3].token_type == TokenType::LeftBrace
    &&& toks[i + 4].token_type == TokenType::RightBrace
}

/// The IR a zero-parameter, empty-body function parses to: six nodes
/// mirroring its six tokens, wrapped in the entry-point markers when its
/// name is the entry-point sentinel.
pub open spec fn simple_fn_kinds(entry_point: bool) -> Seq<AstType> {
    if entry_point {
        seq![
            AstType::LeftParen,
            AstType::Fn,
            AstType::Identifier,
            AstType::LeftParen,
            AstType::RightParen,
            AstType::LeftBrace,
            AstType::RightBrace,
            AstType::Main,
        ]
    } else {
        seq![
            AstType::Fn,
            AstType::Identifier,
            AstType::LeftParen,
            AstType::RightParen,
            AstType::LeftBrace,
            AstType::RightBrace,
        ]
    }
}

/// Where a parameter list's tail ends: starting at `i`, pairs of a comma
/// and one typed parameter are consumed until a position that holds no such
/// pair.
pub open spec fn fn_params_tail_end(toks: Seq<Token>, i: int) -> int
    decreases toks.len() - i,
{
    if 0 <= i && i < toks.len() && toks[i].token_type == TokenType::Comma && param_window(
        toks,
        i + 1,
    ) {
        fn_params_tail_end(toks, i + 4)
    } else {
        i
    }
}

/// The IR node kinds a parameter list's tail is echoed as: one `Comma` and
/// one `Identifier` per further parameter (type names are consumed but not
/// echoed).
pub open spec fn fn_param_tail_kinds(toks: Seq<Token>, i: int) -> Seq<AstType>
    decreases toks.len() - i,
{
    if 0 <= i && i < toks.len() && toks[i].token_type == TokenType::Comma && param_window(
        toks,
        i + 1,
    ) {
        seq![AstType::Comma, AstType::Identifier] + fn_param_tail_kinds(toks, i + 4)
    } else {
        Seq::empty()
    }
}

/// Where a well-formed parameter region ends, `i` being the position right
/// after the opening parenthesis.
pub open spec fn fn_params_end(toks: Seq<Token>, i: int) -> int {
    if 0 <= i && i < toks.len() && toks[i].token_type == TokenType::RightParen {
        i
    } else {
        fn_params_tail_end(toks, i + 3)
    }
}

/// The IR node kinds a whole parameter region is echoed as.
pub open spec fn fn_params_kinds(toks: Seq<Token>, i: int) -> Seq<AstType> {
    if 0 <= i && i < toks.len() && toks[i].token_type == TokenType::RightParen {
        Seq::empty()
    } else {
        seq![AstType::Identifier] + fn_param_tail_kinds(toks, i + 3)
    }
}

/// The token window of a function declaration with a well-formed (possibly
/// empty) parameter list and an empty body, as it stands when the `fn`
/// keyword has just been consumed.
pub open spec fn fn_decl_window(toks: Seq<Token>, i: int) -> bool {
    let pe = fn_params_end(toks, i + 2);
    &&& 0 <= i && i + 2 <= toks.len()
    &&& toks[i].token_type == TokenType::Identifier
    &&& toks[i + 1].token_type == TokenType::LeftParen
    &&& (toks[i + 2].token_type == TokenType::RightParen || param_window(toks, i + 2))
    &&& pe + 3 <= toks.len()
    &&& toks[pe].token_type == TokenType::RightParen
    &&& toks[pe + 1].token_type == TokenType::LeftBrace
    &&& toks[pe + 2].token_type == TokenType::RightBrace
}

/// The IR such a function declaration parses to, with the entry-point
/// wrapping when its name is the entry-point sentinel.
pub open spec fn fn_decl_kinds(toks: Seq<Token>, i: int, entry_point: bool) -> Seq<AstType> {
    let header = seq![AstType::Fn, AstType::Identifier, AstType::LeftParen] + fn_params_kinds(
        toks,
        i + 2,
    ) + seq![AstType::RightParen, AstType::LeftBrace, AstType::RightBrace];
    if entry_point {
        seq![AstType::LeftParen] + header + seq![AstType::Main]
    } else {
        header
    }
}

/// Splitting the IR appended between two prefix-related states: what `b`
/// appended past position `n` is what `a` had appended, then the rest.
proof fn lemma_ir_concat(a: Seq<AstToken>, b: Seq<AstToken>, n: int)
    requires
        0 <= n <= a.len(),
        a.is_prefix_of(b),
    ensures
        kinds(b).skip(n) =~= kinds(a).skip(n) + kinds(b).skip(a.len() as int),
{
}

/// Appending a balanced IR segment to a balanced IR segment keeps the whole
/// appended range balanced.
proof fn lemma_balanced_append(a: Seq<AstToken>, b: Seq<AstToken>, n: int)
    requires
        0 <= n <= a.len(),
        a.is_prefix_of(b),
        brace_balanced(kinds(a).skip(n)),
        brace_balanced(kinds(b).skip(a.len() as int)),
    ensures
        brace_balanced(kinds(b).skip(n)),
{
    lemma_ir_concat(a, b, n);
    crate::ast::lemma_balanced_concat(kinds(a).skip(n), kinds(b).skip(a.len() as int));
}

/// An appended IR range that holds no block markers is balanced.
proof fn lemma_braceless_range_balanced(b: Seq<AstToken>, n: int)
    requires
        0 <= n <= b.len(),
        forall|i: int| n <= i < b.len() ==> crate::ast::brace_delta(#[trigger] kinds(b)[i]) == 0,
    ensures
        brace_balanced(kinds(b).skip(n)),
{
    crate::ast::lemma_braceless_balanced(kinds(b).skip(n));
}

impl Parser {
    /// A brace-delimited block: a "begin block" marker, then declarations
    /// until the closing brace, then the matching "end block" marker.  On
    /// success the appended IR is brace-balanced.
    pub fn block(&mut self) -> (r: Result<(), Problem>)
        requires
            old(self).wf(),
            old(self).current >= 1,
        ensures
            Parser::parse_step(*old(self), *final(self)),
            r is Ok ==> final(self).diagnostics == old(self).diagnostics,
            r is Err ==> one_parse_error_recorded(*old(self), *final(self)),
            r is Ok ==> final(self).current > old(self).current,
            r is Ok ==> brace_balanced(
                kinds(final(self).ast_tokens@).skip(old(self).ast_tokens@.len() as int),
            ),
            r is Ok ==> ({
                &&& final(self).ast_tokens@.len() >= old(self).ast_tokens@.len() + 2
                &&& kinds(final(self).ast_tokens@)[old(self).ast_tokens@.len() as int]
                    == AstType::LeftBrace
                &&& final(self).ast_tokens@.last().ast_type == AstType::RightBrace
                &&& final(self).tokens@[final(self).current - 1].token_type
                    == TokenType::RightBrace
            }),
            !old(self).at_end() && old(self).cur_kind() == TokenType::RightBrace ==> ({
                &&& r is Ok
                &&& final(self).current == old(self).current + 1
                &&& kinds(final(self).ast_tokens@) == kinds(old(self).ast_tokens@) + seq![
                    AstType::LeftBrace,
                    AstType::RightBrace,
                ]
            }),
        decreases old(self).tokens@.len() - old(self).current, 3int,
    {
        self.add_token(AstType::LeftBrace);
        let ghost mid_start = old(self).ast_tokens@.len() as int + 1;
        proof {
            lemma_braceless_range_balanced(self.ast_tokens@, mid_start);
        }
        loop
            invariant
                self.wf(),
                self.tokens == old(self).tokens,
                self.current >= old(self).current,
                old(self).ast_tokens@.is_prefix_of(self.ast_tokens@),
                mid_start == old(self).ast_tokens@.len() + 1,
                self.ast_tokens@.len() >= mid_start,
                kinds(self.ast_tokens@)[mid_start - 1] == AstType::LeftBrace,
                self.diagnostics == old(self).diagnostics,
                brace_balanced(kinds(self.ast_tokens@).skip(mid_start)),
                old(self).cur_kind() == TokenType::RightBrace && !old(self).at_end()
                    ==> self.current == old(self).current && self.ast_tokens@.len() == mid_start,
            decreases self.tokens@.len() - self.current,
        {
            let more = !self.check(TokenType::RightBrace) && !self.is_at_end();
            if !more {
                break ;
            }
            let ghost before = *self;
            self.declaration()?;
            proof {
                lemma_balanced_append(before.ast_tokens@, self.ast_tokens@, mid_start);
            }
        }
        self.consume(TokenType::RightBrace, "Jparser: Expect '}' after block.")?;
        let ghost before_close = *self;
        self.add_token(AstType::RightBrace);
        proof {
            let whole = kinds(self.ast_tokens@).skip(old(self).ast_tokens@.len() as int);
            let mid = kinds(before_close.ast_tokens@).skip(mid_start);
            assert(whole =~= seq![AstType::LeftBrace] + mid + seq![AstType::RightBrace]);
            crate::ast::lemma_balanced_wrap(mid);
        }
        Ok(())
    }

    /// Statement dispatch: `break`, `for`, `if`, `print`, `return`, `while`
    /// and nested blocks; any other token is left for the caller.
    pub fn statement(&mut self) -> (r: Result<(), Problem>)
        requires
            old(self).wf(),
        ensures
            Parser::parse_step(*old(self), *final(self)),
            r is Ok ==> final(self).diagnostics == old(self).diagnostics,
            r is Err ==> one_parse_error_recorded(*old(self), *final(self)),
            r is Ok ==> brace_balanced(
                kinds(final(self).ast_tokens@).skip(old(self).ast_tokens@.len() as int),
            ),
            !old(self).at_end() && old(self).cur_kind() == TokenType::LeftBrace && old(
                self,
            ).tokens@[old(self).current + 1].token_type == TokenType::RightBrace ==> ({
                &&& r is Ok
                &&& final(self).current == old(self).current + 2
                &&& kinds(final(self).ast_tokens@) == kinds(old(self).ast_tokens@) + seq![
                    AstType::LeftBrace,
                    AstType::RightBrace,
                ]
            }),
            !old(self).at_end() && old(self).cur_kind() == TokenType::Break && old(
                self,
            ).current + 1 < old(self).tokens@.len() && old(self).tokens@[old(
                self,
            ).current + 1].token_type == TokenType::SemiColon ==> ({
                &&& r is Ok
                &&& final(self).current == old(self).current + 2
                &&& final(self).ast_tokens == old(self).ast_tokens
            }),
            !old(self).at_end() && old(self).cur_kind() == TokenType::Break && old(
                self,
            ).tokens@[old(self).current + 1].token_type != TokenType::SemiColon ==> r is Err,
            !old(self).at_end() && (old(self).cur_kind() == TokenType::Break || old(
                self,
            ).cur_kind() == TokenType::For || old(self).cur_kind() == TokenType::If || old(
                self,
            ).cur_kind() == TokenType::Print || old(self).cur_kind() == TokenType::Return || old(
                self,
            ).cur_kind() == TokenType::While || old(self).cur_kind() == TokenType::LeftBrace)
                ==> final(self).current > old(self).current,
        decreases old(self).tokens@.len() - old(self).current, 1int,
    {
        if self.is_match(TokenType::Break) {
            self.consume(TokenType::SemiColon, "Jparser: Expect ';' after break statement.")?;
            proof {
                lemma_braceless_range_balanced(
                    self.ast_tokens@,
                    old(self).ast_tokens@.len() as int,
                );
            }
            return Ok(());
        }
        if self.is_match(TokenType::For) {
            let r = self.for_statement();
            return r;
        }
        if self.is_match(TokenType::If) {
            let r = self.if_statement();
            return r;
        }
        if self.is_match(TokenType::Print) {
            let r = self.print_statement();
            return r;
        }
        if self.is_match(TokenType::Return) {
            let r = self.return_statement();
            proof {
                lemma_braceless_range_balanced(
                    self.ast_tokens@,
                    old(self).ast_tokens@.len() as int,
                );
            }
            return r;
        }
        if self.is_match(TokenType::While) {
            let r = self.while_statement();
            return r;
        }
        if self.is_match(TokenType::LeftBrace) {
            let r = self.block();
            return r;
        }
        proof {
            lemma_braceless_range_balanced(self.ast_tokens@, old(self).ast_tokens@.len() as int);
        }
        Ok(())
    }

    /// A `for` statement's syntactic shape: parenthesized initializer,
    /// condition and increment.  Only a `let` initializer produces IR; this
    /// language revision validates the rest without lowering it.
    pub fn for_statement(&mut self) -> (r: Result<(), Problem>)
        requires
            old(self).wf(),
        ensures
            Parser::parse_step(*old(self), *final(self)),
            r is Ok ==> final(self).diagnostics == old(self).diagnostics,
            r is Err ==> one_parse_error_recorded(*old(self), *final(self)),
            r is Ok ==> final(self).current > old(self).current,
            r is Ok ==> brace_balanced(
                kinds(final(self).ast_tokens@).skip(old(self).ast_tokens@.len() as int),
            ),
            for_empty_header_window(old(self).tokens@, old(self).current as int) ==> ({
                &&& r is Ok
                &&& final(self).current == old(self).current + 4
                &&& final(self).ast_tokens == old(self).ast_tokens
            }),
            for_let_header_window(old(self).tokens@, old(self).current as int) ==> ({
                &&& r is Ok
                &&& final(self).current == old(self).current + 8
                &&& kinds(final(self).ast_tokens@) == kinds(old(self).ast_tokens@) + seq![
                    AstType::Let,
                    AstType::Identifier,
                    AstType::Assign,
                    if old(self).tokens@[old(self).current + 4].token_type == TokenType::String {
                        AstType::String
                    } else {
                        AstType::Number
                    },
                    AstType::SemiColon,
                ]
            }),
    {
        self.consume(TokenType::LeftParen, "Jparser: Expect '(' after 'for'.")?;

        if self.is_match(TokenType::SemiColon) {
        } else if self.is_match(TokenType::Let) {
            self.var_declaration()?;
        } else {
            self.expression_statement()?;
        }
        if self.check(TokenType::SemiColon) {
        } else {
            self.expression()?;
        }
        self.consume(TokenType::SemiColon, "Jparser: Expect ';' after loop condition.")?;

        if self.check(TokenType::RightParen) {
        } else {
            self.expression()?;
        }
        self.consume(TokenType::RightParen, "Jparser: Expect ')' after for clauses.")?;
        proof {
            lemma_braceless_range_balanced(self.ast_tokens@, old(self).ast_tokens@.len() as int);
        }
        Ok(())
    }

    /// An `if` statement's syntactic shape: parenthesized condition, branch
    /// statement, optional `else` branch.
    pub fn if_statement(&mut self) -> (r: Result<(), Problem>)
        requires
            old(self).wf(),
        ensures
            Parser::parse_step(*old(self), *final(self)),
            r is Ok ==> final(self).diagnostics == old(self).diagnostics,
            r is Err ==> one_parse_error_recorded(*old(self), *final(self)),
            r is Ok ==> final(self).current > old(self).current,
            r is Ok ==> brace_balanced(
                kinds(final(self).ast_tokens@).skip(old(self).ast_tokens@.len() as int),
            ),
            cond_block_window(old(self).tokens@, old(self).current as int) && old(
                self,
            ).tokens@[old(self).current + 4].token_type != TokenType::Else ==> ({
                &&& r is Ok
                &&& final(self).current == old(self).current + 4
                &&& kinds(final(self).ast_tokens@) == kinds(old(self).ast_tokens@) + seq![
                    AstType::LeftBrace,
                    AstType::RightBrace,
                ]
            }),
        decreases old(self).tokens@.len() - old(self).current, 0int,
    {
        self.consume(TokenType::LeftParen, "Jparser: Expect '(' after 'if'.")?;
        self.expression()?;
        self.consume(TokenType::RightParen, "Jparser: Expect ')' after 'if'.")?;

        self.statement()?;
        if self.is_match(TokenType::Else) {
            let ghost before_else = *self;
            self.statement()?;
            proof {
                lemma_balanced_append(
                    before_else.ast_tokens@,
                    self.ast_tokens@,
                    old(self).ast_tokens@.len() as int,
                );
            }
        }
        Ok(())
    }

    /// A `return` statement's syntactic shape; no IR is produced for it in
    /// this language revision.
    pub fn return_statement(&mut self) -> (r: Result<(), Problem>)
        requires
            old(self).wf(),
        ensures
            Parser::parse_step(*old(self), *final(self)),
            final(self).ast_tokens == old(self).ast_tokens,
            r is Ok ==> final(self).diagnostics == old(self).diagnostics,
            r is Err ==> one_parse_error_recorded(*old(self), *final(self)),
            r is Ok ==> final(self).current > old(self).current,
            r is Ok <==> !old(self).at_end() && old(self).cur_kind() == TokenType::SemiColon,
            r is Ok ==> final(self).current == old(self).current + 1,
    {
        if !self.check(TokenType::SemiColon) {
            self.expression()?;
        }
        self.consume(TokenType::SemiColon, "Jparser: Expect ';' after return value.")?;
        Ok(())
    }

    /// A `while` statement's syntactic shape: parenthesized condition and
    /// body statement.
    pub fn while_statement(&mut self) -> (r: Result<(), Problem>)
        requires
            old(self).wf(),
        ensures
            Parser::parse_step(*old(self), *final(self)),
            r is Ok ==> final(self).diagnostics == old(self).diagnostics,
            r is Err ==> one_parse_error_recorded(*old(self), *final(self)),
            r is Ok ==> final(self).current > old(self).current,
            r is Ok ==> brace_balanced(
                kinds(final(self).ast_tokens@).skip(old(self).ast_tokens@.len() as int),
            ),
            cond_block_window(old(self).tokens@, old(self).current as int) ==> ({
                &&& r is Ok
                &&& final(self).current == old(self).current + 4
                &&& kinds(final(self).ast_tokens@) == kinds(old(self).ast_tokens@) + seq![
                    AstType::LeftBrace,
                    AstType::RightBrace,
                ]
            }),
        decreases old(self).tokens@.len() - old(self).current, 0int,
    {
        self.consume(TokenType::LeftParen, "Jparser: Expect '(' after 'while'.")?;
        self.expression()?;
        self.consume(TokenType::RightParen, "Jparser: Expect ')' after 'while'.")?;
        self.statement()?;
        Ok(())
    }

    /// A class declaration: name, optional superclass name after `<`, and a
    /// brace-delimited method list, each method parsed by the function rule.
    /// Classes are structurally validated but emit no IR of their own.
    pub fn class_declaration(&mut self) -> (r: Result<(), Problem>)
        requires
            old(self).wf(),
        ensures
            Parser::parse_step(*old(self), *final(self)),
            r is Ok ==> final(self).diagnostics == old(self).diagnostics,
            r is Err ==> one_parse_error_recorded(*old(self), *final(self)),
            r is Ok ==> final(self).current > old(self).current,
            r is Ok ==> brace_balanced(
                kinds(final(self).ast_tokens@).skip(old(self).ast_tokens@.len() as int),
            ),
            class_empty_window(old(self).tokens@, old(self).current as int) ==> ({
                &&& r is Ok
                &&& final(self).current == old(self).current + 3
                &&& final(self).ast_tokens == old(self).ast_tokens
            }),
        decreases old(self).tokens@.len() - old(self).current, 0int,
    {
        self.consume(TokenType::Identifier, "Jparser: Expect class name.")?;

        if self.is_match(TokenType::Less) {
            self.consume(TokenType::Identifier, "Jparser: Expect superclass name.")?;
        }
        self.consume(TokenType::LeftBrace, "Jparser: Expect '{' before class body.")?;
        proof {
            lemma_braceless_range_balanced(self.ast_tokens@, old(self).ast_tokens@.len() as int);
        }
        loop
            invariant
                self.wf(),
                self.tokens == old(self).tokens,
                self.current > old(self).current,
                self.current >= 1,
                old(self).ast_tokens@.is_prefix_of(self.ast_tokens@),
                self.diagnostics == old(self).diagnostics,
                brace_balanced(kinds(self.ast_tokens@).skip(old(self).ast_tokens@.len() as int)),
                class_empty_window(old(self).tokens@, old(self).current as int)
                    ==> self.current == old(self).current + 2 && self.ast_tokens == old(
                    self,
                ).ast_tokens,
            decreases self.tokens@.len() - self.current,
        {
            let more = !self.check(TokenType::RightBrace) && !self.is_at_end();
            if !more {
                break ;
            }
            let ghost before = *self;
            self.function()?;
            proof {
                lemma_balanced_append(
                    before.ast_tokens@,
                    self.ast_tokens@,
                    old(self).ast_tokens@.len() as int,
                );
            }
        }
        self.consume(TokenType::RightBrace, "Jparser: Expect '}' after class body.")?;
        Ok(())
    }

    /// A function declaration: `Fn`, name, parenthesized typed parameters,
    /// and a block body.  A function named `main` is wrapped for immediate
    /// invocation: a `LeftParen` node before `Fn` and a `Main` sentinel
    /// after the body.  On a well-formed header with an empty body the
    /// emitted IR is exactly `fn_decl_kinds` (`simple_fn_kinds` when the
    /// parameter list is empty), and a parse can only succeed from a header
    /// that starts with a name, a parenthesis, and either a closing
    /// parenthesis or a well-formed first parameter.
    #[verifier::rlimit(100)]
    pub fn function(&mut self) -> (r: Result<(), Problem>)
        requires
            old(self).wf(),
            old(self).current >= 1,
        ensures
            Parser::parse_step(*old(self), *final(self)),
            r is Ok ==> final(self).diagnostics == old(self).diagnostics,
            r is Err ==> one_parse_error_recorded(*old(self), *final(self)),
            r is Ok ==> final(self).current > old(self).current,
            r is Ok ==> brace_balanced(
                kinds(final(self).ast_tokens@).skip(old(self).ast_tokens@.len() as int),
            ),
            simple_fn_window(old(self).tokens@, old(self).current as int) ==> ({
                &&& r is Ok
                &&& final(self).current == old(self).current + 5
                &&& kinds(final(self).ast_tokens@) == kinds(old(self).ast_tokens@)
                    + simple_fn_kinds(
                    old(self).tokens@[old(self).current as int].lexeme@ == "main"@,
                )
                &&& final(self).ast_tokens@[old(self).ast_tokens@.len() as int + (
                if old(self).tokens@[old(self).current as int].lexeme@ == "main"@ {
                    2int
                } else {
                    1int
                })].lexeme@ == old(self).tokens@[old(self).current as int].lexeme@
            }),
            r is Ok ==> ({
                let toks = old(self).tokens@;
                let c = old(self).current as int;
                &&& toks[c].token_type == TokenType::Identifier
                &&& toks[c + 1].token_type == TokenType::LeftParen
                &&& (toks[c + 2].token_type == TokenType::RightParen || param_window(toks, c + 2))
            }),
            fn_decl_window(old(self).tokens@, old(self).current as int) ==> ({
                &&& r is Ok
                &&& final(self).current == fn_params_end(
                    old(self).tokens@,
                    old(self).current + 2,
                ) + 3
                &&& kinds(final(self).ast_tokens@) == kinds(old(self).ast_tokens@)
                    + fn_decl_kinds(
                    old(self).tokens@,
                    old(self).current as int,
                    old(self).tokens@[old(self).current as int].lexeme@ == "main"@,
                )
            }),
        decreases old(self).tokens@.len() - old(self).current, 0int,
    {
        let entry_name = String::from_str("main");
        let fm = {
            let p = self.peek();
            p.lexeme == entry_name
        };
        if fm {
            self.add_token(AstType::LeftParen);
        }
        self.add_token(AstType::Fn);

        self.consume(TokenType::Identifier, "Jparser: Expect function name.")?;
        self.add_token(AstType::Identifier);

        self.consume(TokenType::LeftParen, "Jparser: Expect '(' after function name.")?;
        self.add_token(AstType::LeftParen);

        if !self.check(TokenType::RightParen) {
            self.param_annotation()?;

            let ghost entry_kinds = kinds(self.ast_tokens@);
            loop
                invariant
                    self.wf(),
                    self.tokens == old(self).tokens,
                    self.current > old(self).current,
                    old(self).current + 5 <= self.current,
                    old(self).ast_tokens@.is_prefix_of(self.ast_tokens@),
                    self.diagnostics == old(self).diagnostics,
                    !simple_fn_window(old(self).tokens@, old(self).current as int),
                    old(self).tokens@[old(self).current as int].token_type
                        == TokenType::Identifier,
                    old(self).tokens@[old(self).current + 1].token_type == TokenType::LeftParen,
                    param_window(old(self).tokens@, old(self).current + 2),
                    entry_kinds == kinds(old(self).ast_tokens@) + (if fm {
                        seq![AstType::LeftParen]
                    } else {
                        Seq::<AstType>::empty()
                    }) + seq![
                        AstType::Fn,
                        AstType::Identifier,
                        AstType::LeftParen,
                        AstType::Identifier,
                    ],
                    fn_params_tail_end(old(self).tokens@, old(self).current + 5)
                        == fn_params_tail_end(old(self).tokens@, self.current as int),
                    kinds(self.ast_tokens@) + fn_param_tail_kinds(
                        old(self).tokens@,
                        self.current as int,
                    ) =~= entry_kinds + fn_param_tail_kinds(
                        old(self).tokens@,
                        old(self).current + 5,
                    ),
                    forall|i: int|
                        kinds(old(self).ast_tokens@).len() <= i < kinds(self.ast_tokens@).len()
                            ==> crate::ast::brace_delta(#[trigger] kinds(self.ast_tokens@)[i])
                            == 0,
                ensures
                    self.wf(),
                    self.tokens == old(self).tokens,
                    old(self).current + 5 <= self.current,
                    old(self).ast_tokens@.is_prefix_of(self.ast_tokens@),
                    self.diagnostics == old(self).diagnostics,
                    fn_params_tail_end(old(self).tokens@, old(self).current + 5)
                        == self.current as int,
                    kinds(self.ast_tokens@) =~= entry_kinds + fn_param_tail_kinds(
                        old(self).tokens@,
                        old(self).current + 5,
                    ),
                    forall|i: int|
                        kinds(old(self).ast_tokens@).len() <= i < kinds(self.ast_tokens@).len()
                            ==> crate::ast::brace_delta(#[trigger] kinds(self.ast_tokens@)[i])
                            == 0,
                decreases self.tokens@.len() - self.current,
            {
                let ghost pos = self.current as int;
                if !self.is_match(TokenType::Comma) {
                    proof {
                        assert(fn_params_tail_end(old(self).tokens@, pos) == pos);
                        assert(fn_param_tail_kinds(old(self).tokens@, pos)
                            =~= Seq::<AstType>::empty());
                    }
                    break ;
                }
                self.add_token(AstType::Comma);
                match self.param_annotation() {
                    Ok(()) => {},
                    Err(problem) => {
                        proof {
                            assert(fn_params_tail_end(old(self).tokens@, pos) == pos);
                        }
                        return Err(problem);
                    },
                }
                proof {
                    assert(fn_param_tail_kinds(old(self).tokens@, pos) == seq![
                        AstType::Comma,
                        AstType::Identifier,
                    ] + fn_param_tail_kinds(old(self).tokens@, self.current as int));
                    assert(fn_params_tail_end(old(self).tokens@, pos) == fn_params_tail_end(
                        old(self).tokens@,
                        self.current as int,
                    ));
                    assert(kinds(self.ast_tokens@) + fn_param_tail_kinds(
                        old(self).tokens@,
                        self.current as int,
                    ) =~= entry_kinds + fn_param_tail_kinds(
                        old(self).tokens@,
                        old(self).current + 5,
                    ));
                }
            }
        }
        self.consume(TokenType::RightParen, "Jparser: Expect ')' after parameters.")?;
        self.add_token(AstType::RightParen);

        self.consume(TokenType::LeftBrace, "Jparser: Expect '{' before function body.")?;

        let ghost before_body = *self;
        proof {
            lemma_braceless_range_balanced(
                before_body.ast_tokens@,
                old(self).ast_tokens@.len() as int,
            );
        }
        self.block()?;
        let ghost after_body = *self;

        if fm {
            self.add_token(AstType::Main);
        }
        proof {
            let n0 = old(self).ast_tokens@.len() as int;
            lemma_balanced_append(before_body.ast_tokens@, after_body.ast_tokens@, n0);
            lemma_braceless_range_balanced(self.ast_tokens@, after_body.ast_tokens@.len() as int);
            lemma_balanced_append(after_body.ast_tokens@, self.ast_tokens@, n0);
            if simple_fn_window(old(self).tokens@, old(self).current as int) {
                assert(kinds(self.ast_tokens@) =~= kinds(old(self).ast_tokens@)
                    + simple_fn_kinds(
                    old(self).tokens@[old(self).current as int].lexeme@ == "main"@,
                ));
            }
            if fn_decl_window(old(self).tokens@, old(self).current as int) {
                assert(kinds(self.ast_tokens@) =~= kinds(old(self).ast_tokens@) + fn_decl_kinds(
                    old(self).tokens@,
                    old(self).current as int,
                    old(self).tokens@[old(self).current as int].lexeme@ == "main"@,
                ));
            }
        }
        Ok(())
    }

    /// Declaration-level dispatch, first match wins: class, function and
    /// variable declarations, statements, bare function calls.  Any other
    /// token is a parse failure: one diagnostic is recorded and the parser
    /// resynchronizes at the next statement boundary.
    pub fn declaration(&mut self) -> (r: Result<(), Problem>)
        requires
            old(self).wf(),
        ensures
            Parser::parse_step(*old(self), *final(self)),
            r is Ok ==> final(self).diagnostics == old(self).diagnostics,
            r is Err ==> one_parse_error_recorded(*old(self), *final(self)),
            r is Ok ==> final(self).current > old(self).current,
            !old(self).at_end() ==> final(self).current > old(self).current,
            r is Err ==> final(self).at_end()
                || final(self).tokens@[final(self).current - 1].token_type
                == TokenType::SemiColon || starts_declaration(final(self).cur_kind()),
            r is Ok ==> brace_balanced(
                kinds(final(self).ast_tokens@).skip(old(self).ast_tokens@.len() as int),
            ),
            !old(self).at_end() && old(self).cur_kind() == TokenType::Fn && simple_fn_window(
                old(self).tokens@,
                old(self).current + 1,
            ) ==> ({
                &&& r is Ok
                &&& final(self).current == old(self).current + 6
                &&& kinds(final(self).ast_tokens@) == kinds(old(self).ast_tokens@)
                    + simple_fn_kinds(
                    old(self).tokens@[old(self).current + 1].lexeme@ == "main"@,
                )
                &&& final(self).ast_tokens@[old(self).ast_tokens@.len() as int + (
                if old(self).tokens@[old(self).current + 1].lexeme@ == "main"@ {
                    2int
                } else {
                    1int
                })].lexeme@ == old(self).tokens@[old(self).current + 1].lexeme@
            }),
            !old(self).at_end() && old(self).cur_kind() == TokenType::Let && old(
                self,
            ).tokens@[old(self).current + 1].token_type != TokenType::Identifier && old(
                self,
            ).tokens@[old(self).current + 1].token_type != TokenType::Eof ==> ({
                &&& r is Err
                &&& kinds(final(self).ast_tokens@) == kinds(old(self).ast_tokens@).push(
                    AstType::Let,
                )
                &&& final(self).diagnostics@.last() matches Problem::ParseError {
                    token: t,
                    message: _,
                } && t == old(self).tokens@[old(self).current + 1]
                &&& final(self).current == spec_synchronize(
                    old(self).tokens@,
                    old(self).current + 2,
                )
            }),
            !old(self).at_end() && old(self).cur_kind() == TokenType::Let && let_window(
                old(self).tokens@,
                old(self).current + 1,
            ) ==> ({
                &&& r is Ok
                &&& final(self).current == old(self).current + 5
                &&& kinds(final(self).ast_tokens@) == kinds(old(self).ast_tokens@) + seq![
                    AstType::Let,
                    AstType::Identifier,
                    AstType::Assign,
                    if old(self).tokens@[old(self).current + 3].token_type == TokenType::String {
                        AstType::String
                    } else {
                        AstType::Number
                    },
                    AstType::SemiColon,
                ]
                &&& final(self).ast_tokens@[old(self).ast_tokens@.len() as int + 1].lexeme@
                    == old(self).tokens@[old(self).current + 1].lexeme@
            }),
        decreases old(self).tokens@.len() - old(self).current, 2int,
    {
        let result = if self.is_match(TokenType::Class) {
            self.class_declaration()
        } else if self.is_match(TokenType::Fn) {
            self.function()
        } else if self.is_match(TokenType::Let) {
            self.var_declaration()
        } else if self.check(TokenType::For) || self.check(TokenType::If) || self.check(
            TokenType::Print,
        ) || self.check(TokenType::Return) || self.check(TokenType::While) || self.check(
            TokenType::Break,
        ) {
            self.statement()
        } else if self.check(TokenType::Identifier) && self.check_further(TokenType::LeftParen) {
            self.function_call()
        } else {
            let offending = self.peek().dup();
            Err(self.error(&offending, "Jparser: Expect a declaration."))
        };
        if result.is_err() {
            self.synchronize();
        }
        proof {
            if result is Ok {
                lemma_braceless_range_balanced(self.ast_tokens@, self.ast_tokens@.len() as int);
            }
        }
        result
    }

    /// A recovery scenario: a first declaration broken right at its
    /// variable name, arbitrary material up to the next statement boundary,
    /// then one well-formed variable declaration that ends the input.
    pub open spec fn recovery_window(toks: Seq<Token>) -> bool {
        let j = spec_synchronize(toks, 2);
        &&& toks.len() >= 3
        &&& toks[0].token_type == TokenType::Let
        &&& toks[1].token_type != TokenType::Identifier
        &&& toks[1].token_type != TokenType::Eof
        &&& toks[j].token_type == TokenType::Let
        &&& let_window(toks, j + 1)
        &&& j + 6 <= toks.len()
        &&& toks[j + 5].token_type == TokenType::Eof
    }

    /// Parses the whole token sequence.  On success the accumulated IR is
    /// returned and its block markers are balanced; on failure the non-empty
    /// diagnostics are returned, one per broken statement, while the
    /// statements after each failure were still parsed.  A zero-parameter,
    /// empty-body function parses to exactly its six mirroring nodes, plus
    /// the entry-point wrapping when its name is the entry-point sentinel.
    pub fn parse(&mut self) -> (r: Result<Vec<AstToken>, Vec<Problem>>)
        requires
            old(self).wf(),
        ensures
            Parser::parse_step(*old(self), *final(self)),
            final(self).at_end(),
            r is Ok <==> final(self).diagnostics@.len() == 0,
            r matches Ok(ir) ==> ir@ == final(self).ast_tokens@ && final(self).diagnostics@ == old(
                self,
            ).diagnostics@ && brace_balanced(
                kinds(final(self).ast_tokens@).skip(old(self).ast_tokens@.len() as int),
            ),
            r matches Err(ds) ==> ds@ == final(self).diagnostics@ && ds@.len() > 0,
            (old(self).current == 0 && old(self).ast_tokens@.len() == 0 && old(
                self,
            ).diagnostics@.len() == 0 && old(self).tokens@.len() == 7 && old(
                self,
            ).tokens@[0].token_type == TokenType::Fn && simple_fn_window(old(self).tokens@, 1))
                ==> ({
                &&& r is Ok
                &&& kinds(final(self).ast_tokens@) == simple_fn_kinds(
                    old(self).tokens@[1].lexeme@ == "main"@,
                )
                &&& final(self).ast_tokens@[if old(self).tokens@[1].lexeme@ == "main"@ {
                    2int
                } else {
                    1int
                }].lexeme@ == old(self).tokens@[1].lexeme@
            }),
            (old(self).current == 0 && old(self).ast_tokens@.len() == 0 && old(
                self,
            ).diagnostics@.len() == 0 && Parser::recovery_window(old(self).tokens@)) ==> ({
                let toks = old(self).tokens@;
                let j = spec_synchronize(toks, 2);
                &&& r is Err
                &&& final(self).diagnostics@.len() == 1
                &&& final(self).diagnostics@[0] matches Problem::ParseError {
                    token: t,
                    message: _,
                } && t == toks[1]
                &&& kinds(final(self).ast_tokens@) == seq![
                    AstType::Let,
                    AstType::Let,
                    AstType::Identifier,
                    AstType::Assign,
                    if toks[j + 3].token_type == TokenType::String {
                        AstType::String
                    } else {
                        AstType::Number
                    },
                    AstType::SemiColon,
                ]
                &&& final(self).ast_tokens@[2].lexeme@ == toks[j + 1].lexeme@
            }),
    {
        let ghost p1 = old(self).current == 0 && old(self).ast_tokens@.len() == 0 && old(
            self,
        ).diagnostics@.len() == 0 && old(self).tokens@.len() == 7 && old(
            self,
        ).tokens@[0].token_type == TokenType::Fn && simple_fn_window(old(self).tokens@, 1);
        let ghost rw = old(self).current == 0 && old(self).ast_tokens@.len() == 0 && old(
            self,
        ).diagnostics@.len() == 0 && Parser::recovery_window(old(self).tokens@);
        proof {
            lemma_braceless_range_balanced(
                old(self).ast_tokens@,
                old(self).ast_tokens@.len() as int,
            );
        }
        while !self.is_at_end()
            invariant
                self.wf(),
                self.tokens == old(self).tokens,
                self.current >= old(self).current,
                old(self).ast_tokens@.is_prefix_of(self.ast_tokens@),
                old(self).diagnostics@.is_prefix_of(self.diagnostics@),
                self.diagnostics@ == old(self).diagnostics@ ==> brace_balanced(
                    kinds(self.ast_tokens@).skip(old(self).ast_tokens@.len() as int),
                ),
                p1 ==> old(self).tokens@.len() == 7 && old(self).tokens@[0].token_type
                    == TokenType::Fn && simple_fn_window(old(self).tokens@, 1) && old(
                    self,
                ).ast_tokens@.len() == 0 && old(self).diagnostics@.len() == 0,
                p1 ==> (self.current == 0 && self.ast_tokens@.len() == 0 && self.diagnostics@.len()
                    == 0) || (self.current == 6 && self.diagnostics@ == old(self).diagnostics@
                    && kinds(self.ast_tokens@) == simple_fn_kinds(
                    old(self).tokens@[1].lexeme@ == "main"@,
                ) && self.ast_tokens@[if old(self).tokens@[1].lexeme@ == "main"@ {
                    2int
                } else {
                    1int
                }].lexeme@ == old(self).tokens@[1].lexeme@),
                rw ==> old(self).current == 0 && old(self).ast_tokens@.len() == 0 && old(
                    self,
                ).diagnostics@.len() == 0 && Parser::recovery_window(old(self).tokens@),
                rw ==> ({
                    let toks = old(self).tokens@;
                    let j = spec_synchronize(toks, 2);
                    ||| (self.current == 0 && self.ast_tokens@.len() == 0
                        && self.diagnostics@.len() == 0)
                    ||| (self.current == j && kinds(self.ast_tokens@) == seq![AstType::Let]
                        && self.diagnostics@.len() == 1 && (self.diagnostics@[0]
                        matches Problem::ParseError { token: t, message: _ } && t == toks[1]))
                    ||| (self.current == j + 5 && self.diagnostics@.len() == 1
                        && (self.diagnostics@[0] matches Problem::ParseError {
                        token: t,
                        message: _,
                    } && t == toks[1]) && kinds(self.ast_tokens@) == seq![
                        AstType::Let,
                        AstType::Let,
                        AstType::Identifier,
                        AstType::Assign,
                        if toks[j + 3].token_type == TokenType::String {
                            AstType::String
                        } else {
                            AstType::Number
                        },
                        AstType::SemiColon,
                    ] && self.ast_tokens@[2].lexeme@ == toks[j + 1].lexeme@)
                }),
            decreases self.tokens@.len() - self.current,
        {
            let ghost before = *self;
            let outcome = self.declaration();
            proof {
                if p1 {
                    assert(old(self).tokens@.last() == old(self).tokens@[6]);
                }
                if outcome is Ok && self.diagnostics@ == old(self).diagnostics@ {
                    lemma_balanced_append(
                        before.ast_tokens@,
                        self.ast_tokens@,
                        old(self).ast_tokens@.len() as int,
                    );
                }
                if p1 && before.current == 0 {
                    assert(kinds(before.ast_tokens@) =~= Seq::<AstType>::empty());
                    assert(kinds(self.ast_tokens@) =~= simple_fn_kinds(
                        old(self).tokens@[1].lexeme@ == "main"@,
                    ));
                }
                if rw {
                    let toks = old(self).tokens@;
                    let j = spec_synchronize(toks, 2);
                    lemma_spec_synchronize_bounds(toks, 2);
                    if before.current == 0 {
                        assert(kinds(before.ast_tokens@) =~= Seq::<AstType>::empty());
                        assert(kinds(self.ast_tokens@) =~= seq![AstType::Let]);
                    } else if before.current == j {
                        assert(kinds(self.ast_tokens@) =~= seq![
                            AstType::Let,
                            AstType::Let,
                            AstType::Identifier,
                            AstType::Assign,
                            if toks[j + 3].token_type == TokenType::String {
                                AstType::String
                            } else {
                                AstType::Number
                            },
                            AstType::SemiColon,
                        ]);
                    }
                }
            }
        }
        if self.diagnostics.len() > 0 {
            let ds = clone_problems(&self.diagnostics);
            Err(ds)
        } else {
            let ir = clone_ir(&self.ast_tokens);
            Ok(ir)
        }
    }
}

/// An element-wise copy of an IR sequence.
fn clone_ir(v: &Vec<AstToken>) -> (r: Vec<AstToken>)
    ensures
        r@ == v@,
{
    let mut r: Vec<AstToken> = Vec::new();
    let mut i: usize = 0;
    while i < v.len()
        invariant
            i <= v@.len(),
            r@ =~= v@.take(i as int),
        decreases v@.len() - i,
    {
        r.push(v[i].dup());
        i = i + 1;
    }
    proof {
        assert(r@ =~= v@);
    }
    r
}

/// An element-wise copy of a diagnostics sequence.
fn clone_problems(v: &Vec<Problem>) -> (r: Vec<Problem>)
    ensures
        r@ == v@,
{
    let mut r: Vec<Problem> = Vec::new();
    let mut i: usize = 0;
    while i < v.len()
        invariant
            i <= v@.len(),
            r@ =~= v@.take(i as int),
        decreases v@.len() - i,
    {
        r.push(v[i].dup());
        i = i + 1;
    }
    proof {
        assert(r@ =~= v@);
    }
    r
}

} // verus!
