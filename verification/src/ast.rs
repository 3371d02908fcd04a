//! The flat intermediate representation (IR) the parser produces: a sequence
//! of tagged nodes.  Structural nesting is encoded by paired `LeftBrace` /
//! `RightBrace` marker nodes rather than by a tree.

use vstd::prelude::*;

use crate::token::Object;

verus! {

/// The closed set of IR node kinds: punctuation, keywords, literals,
/// identifiers, and typed-variable markers.  `Main` is a sentinel marking the
/// language's program-entry function; `NumberType` / `StringType` carry a
/// binding's declared name so the type checker can recover it from within a
/// flattened expression.  `SetVar` heads an assignment to an existing
/// variable.
#[derive(Debug, Clone, PartialEq, Eq, Hash)]
pub enum AstType {
    SetVar,
    Break,
    LeftParen,
    RightParen,
    LeftBrace,
    RightBrace,
    Comma,
    Dot,
    Minus,
    Plus,
    SemiColon,
    Slash,
    Star,
    Bang,
    BangEqual,
    Assign,
    Equals,
    Greater,
    GreaterEqual,
    Less,
    LessEqual,
    Identifier,
    String,
    Number,
    And,
    Class,
    Else,
    False,
    Fn,
    For,
    If,
    Nil,
    Or,
    Print,
    Return,
    Super,
    This,
    True,
    Let,
    While,
    Eof,
    Main,
    NumberType(String),
    StringType(String),
    UnKnown,
}

impl AstType {
    /// A structurally equal copy, fully specified (the derived clone is
    /// opaque to the verifier and is kept only for unverified callers).
    pub fn duplicate(&self) -> (r: AstType)
        ensures
            r == *self,
    {
        match self {
            AstType::SetVar => AstType::SetVar,
            AstType::Break => AstType::Break,
            AstType::LeftParen => AstType::LeftParen,
            AstType::RightParen => AstType::RightParen,
            AstType::LeftBrace => AstType::LeftBrace,
            AstType::RightBrace => AstType::RightBrace,
            AstType::Comma => AstType::Comma,
            AstType::Dot => AstType::Dot,
            AstType::Minus => AstType::Minus,
            AstType::Plus => AstType::Plus,
            AstType::SemiColon => AstType::SemiColon,
            AstType::Slash => AstType::Slash,
            AstType::Star => AstType::Star,
            AstType::Bang => AstType::Bang,
            AstType::BangEqual => AstType::BangEqual,
            AstType::Assign => AstType::Assign,
            AstType::Equals => AstType::Equals,
            AstType::Greater => AstType::Greater,
            AstType::GreaterEqual => AstType::GreaterEqual,
            AstType::Less => AstType::Less,
            AstType::LessEqual => AstType::LessEqual,
            AstType::Identifier => AstType::Identifier,
            AstType::String => AstType::String,
            AstType::Number => AstType::Number,
            AstType::And => AstType::And,
            AstType::Class => AstType::Class,
            AstType::Else => AstType::Else,
            AstType::False => AstType::False,
            AstType::Fn => AstType::Fn,
            AstType::For => AstType::For,
            AstType::If => AstType::If,
            AstType::Nil => AstType::Nil,
            AstType::Or => AstType::Or,
            AstType::Print => AstType::Print,
            AstType::Return => AstType::Return,
            AstType::Super => AstType::Super,
            AstType::This => AstType::This,
            AstType::True => AstType::True,
            AstType::Let => AstType::Let,
            AstType::While => AstType::While,
            AstType::Eof => AstType::Eof,
            AstType::Main => AstType::Main,
            AstType::NumberType(name) => AstType::NumberType(name.clone()),
            AstType::StringType(name) => AstType::StringType(name.clone()),
            AstType::UnKnown => AstType::UnKnown,
        }
    }
}

/// One IR node: a kind, the source lexeme it arose from, and an optional
/// literal value.
#[derive(Debug)]
pub struct AstToken {
    pub ast_type: AstType,
    pub literal: Option<Object>,
    pub lexeme: String,
}

impl AstToken {
    /// Builds an IR node from its parts.
    pub fn new(ast_type: AstType, lexeme: String, literal: Option<Object>) -> (r: AstToken)
        ensures
            r.ast_type == ast_type,
            r.lexeme == lexeme,
            r.literal == literal,
    {
        AstToken { ast_type, lexeme, literal }
    }

    /// The node's kind.
    pub fn ast_type(&self) -> (r: AstType)
        ensures
            r == self.ast_type,
    {
        self.ast_type.duplicate()
    }

    /// The node's source lexeme.
    pub fn ast_lexeme(&self) -> (r: &str)
        ensures
            r@ == self.lexeme@,
    {
        self.lexeme.as_str()
    }

    /// A structurally equal copy.
    pub fn dup(&self) -> (r: AstToken)
        ensures
            r == *self,
    {
        AstToken {
            ast_type: self.ast_type.duplicate(),
            lexeme: self.lexeme.clone(),
            literal: match &self.literal {
                Some(o) => Some(o.dup()),
                None => None,
            },
        }
    }
}

/// The kinds of an IR node sequence, in order.
pub open spec fn kinds(s: Seq<AstToken>) -> Seq<AstType> {
    s.map_values(|t: AstToken| t.ast_type)
}

/// How one node kind changes the block-nesting depth.
pub open spec fn brace_delta(k: AstType) -> int {
    match k {
        AstType::LeftBrace => 1,
        AstType::RightBrace => -1,
        _ => 0,
    }
}

/// The block-nesting depth after a whole kind sequence.
pub open spec fn brace_depth(s: Seq<AstType>) -> int
    decreases s.len(),
{
    if s.len() == 0 {
        0
    } else {
        brace_depth(s.drop_last()) + brace_delta(s.last())
    }
}

/// No prefix of the sequence closes more blocks than it has opened.
pub open spec fn depth_never_negative(s: Seq<AstType>) -> bool {
    forall|i: int| 0 <= i <= s.len() ==> #[trigger] brace_depth(s.take(i)) >= 0
}

/// The sequence's block markers are balanced: every "begin block" has a
/// matching "end block" at the same nesting depth.
pub open spec fn brace_balanced(s: Seq<AstType>) -> bool {
    brace_depth(s) == 0 && depth_never_negative(s)
}

/// The number of "begin block" markers in the sequence.
pub open spec fn count_begin(s: Seq<AstType>) -> int
    decreases s.len(),
{
    if s.len() == 0 {
        0
    } else {
        count_begin(s.drop_last()) + if s.last() is LeftBrace {
            1int
        } else {
            0int
        }
    }
}

/// The number of "end block" markers in the sequence.
pub open spec fn count_end(s: Seq<AstType>) -> int
    decreases s.len(),
{
    if s.len() == 0 {
        0
    } else {
        count_end(s.drop_last()) + if s.last() is RightBrace {
            1int
        } else {
            0int
        }
    }
}

/// The depth of a sequence is the difference between its "begin block" and
/// "end block" marker counts.
pub proof fn lemma_depth_is_count_difference(s: Seq<AstType>)
    ensures
        brace_depth(s) == count_begin(s) - count_end(s),
    decreases s.len(),
{
    if s.len() > 0 {
        lemma_depth_is_count_difference(s.drop_last());
    }
}

/// In a balanced IR the count of "begin block" markers equals the count of
/// "end block" markers, and a depth-tracking scan of any prefix never sees
/// more ends than begins.
pub proof fn lemma_balanced_marker_counts(s: Seq<AstType>)
    requires
        brace_balanced(s),
    ensures
        count_begin(s) == count_end(s),
        forall|i: int|
            0 <= i <= s.len() ==> #[trigger] count_end(s.take(i)) <= count_begin(s.take(i)),
{
    lemma_depth_is_count_difference(s);
    assert forall|i: int|
        0 <= i <= s.len() implies #[trigger] count_end(s.take(i)) <= count_begin(s.take(i)) by {
        lemma_depth_is_count_difference(s.take(i));
        assert(brace_depth(s.take(i)) >= 0);
    }
}

/// Depth adds across concatenation.
pub proof fn lemma_depth_concat(a: Seq<AstType>, b: Seq<AstType>)
    ensures
        brace_depth(a + b) == brace_depth(a) + brace_depth(b),
    decreases b.len(),
{
    if b.len() == 0 {
        assert(a + b =~= a);
    } else {
        lemma_depth_concat(a, b.drop_last());
        assert((a + b).drop_last() =~= a + b.drop_last());
        assert((a + b).last() == b.last());
    }
}

/// Concatenating balanced segments yields a balanced segment.
pub proof fn lemma_balanced_concat(a: Seq<AstType>, b: Seq<AstType>)
    requires
        brace_balanced(a),
        brace_balanced(b),
    ensures
        brace_balanced(a + b),
{
    lemma_depth_concat(a, b);
    assert forall|i: int| 0 <= i <= (a + b).len() implies #[trigger] brace_depth(
        (a + b).take(i),
    ) >= 0 by {
        if i <= a.len() {
            assert((a + b).take(i) =~= a.take(i));
        } else {
            assert((a + b).take(i) =~= a + b.take(i - a.len()));
            lemma_depth_concat(a, b.take(i - a.len()));
            assert(brace_depth(b.take(i - a.len())) >= 0);
        }
    }
}

/// A segment with no block markers at all is balanced.
pub proof fn lemma_braceless_balanced(s: Seq<AstType>)
    requires
        forall|i: int| 0 <= i < s.len() ==> #[trigger] brace_delta(s[i]) == 0,
    ensures
        brace_balanced(s),
    decreases s.len(),
{
    if s.len() > 0 {
        lemma_braceless_balanced(s.drop_last());
        assert(brace_depth(s) == brace_depth(s.drop_last()) + brace_delta(s.last()));
        assert forall|i: int| 0 <= i <= s.len() implies #[trigger] brace_depth(s.take(i)) >= 0 by {
            if i < s.len() {
                assert(s.take(i) =~= s.drop_last().take(i));
            } else {
                assert(s.take(i) =~= s);
            }
        }
    }
}

/// The depth of a one-kind sequence is that kind's delta.
pub proof fn lemma_depth_singleton(k: AstType)
    ensures
        brace_depth(seq![k]) == brace_delta(k),
{
    let s = seq![k];
    assert(brace_depth(Seq::<AstType>::empty()) == 0);
    assert(s.drop_last() =~= Seq::<AstType>::empty());
    assert(s.last() == k);
}

/// Wrapping a balanced segment in one begin / end marker pair keeps it
/// balanced.
pub proof fn lemma_balanced_wrap(mid: Seq<AstType>)
    requires
        brace_balanced(mid),
    ensures
        brace_balanced(seq![AstType::LeftBrace] + mid + seq![AstType::RightBrace]),
{
    let l = seq![AstType::LeftBrace];
    let r = seq![AstType::RightBrace];
    let whole = l + mid + r;
    lemma_depth_concat(l + mid, r);
    lemma_depth_concat(l, mid);
    lemma_depth_singleton(AstType::LeftBrace);
    lemma_depth_singleton(AstType::RightBrace);
    assert forall|i: int| 0 <= i <= whole.len() implies #[trigger] brace_depth(whole.take(i))
        >= 0 by {
        if i == 0 {
            assert(whole.take(i) =~= Seq::<AstType>::empty());
        } else if i <= 1 + mid.len() {
            assert(whole.take(i) =~= l + mid.take(i - 1));
            lemma_depth_concat(l, mid.take(i - 1));
            assert(brace_depth(mid.take(i - 1)) >= 0);
        } else {
            assert(whole.take(i) =~= whole);
        }
    }
}

} // verus!
