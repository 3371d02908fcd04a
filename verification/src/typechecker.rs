//! The type checker: walks short slices of the flat IR (binary-operator
//! triples, declaration triples, block slices), resolves identifier types
//! through the scope chain, and validates operator / operand compatibility.
//!
//! Every validation failure is reported, never raised: the checker records a
//! diagnostic and yields a best-effort type so the rest of the program can
//! still be checked in one pass.

use vstd::prelude::*;

use crate::ast::AstType;
use crate::environment::{chain_resolve, TypeEnvironment};
use crate::types::{RustScriptType, Types};

verus! {

/// A recorded type diagnostic; never fatal.
#[derive(Debug, PartialEq, Eq)]
pub enum TypeDiagnostic {
    /// An operand's type is outside the set its operator allows.
    OperandNotAllowed { operand: Types, operator: AstType },
    /// Two types were required to be equal and were not.
    Mismatch { actual: Types, expected: Types },
    /// An identifier was resolved through the scope chain and found nowhere.
    UndefinedVariable { name: String },
    /// A slice matched no recognized expression shape.
    UnrecognizedExpression,
}

/// The `Number` type value.
pub open spec fn num_type() -> Types {
    Types { name: RustScriptType::Number }
}

/// The `String` type value.
pub open spec fn str_type() -> Types {
    Types { name: RustScriptType::String }
}

/// The `UnKnown` type value.
pub open spec fn unknown_type() -> Types {
    Types { name: RustScriptType::UnKnown }
}

/// Whether a node kind is one of the four binary operators.
pub open spec fn is_binary_operator(k: AstType) -> bool {
    k is Plus || k is Minus || k is Star || k is Slash
}

/// The operand types an operator accepts: `+` works on strings and numbers,
/// `-`, `*` and `/` on numbers only.
pub open spec fn spec_operand_types(op: AstType) -> Seq<Types> {
    match op {
        AstType::Plus => seq![str_type(), num_type()],
        AstType::Minus => seq![num_type()],
        AstType::Slash => seq![num_type()],
        AstType::Star => seq![num_type()],
        _ => seq![unknown_type()],
    }
}

/// The report an operand check leaves behind: nothing when the operand's
/// type is allowed for the operator, one diagnostic otherwise.
pub open spec fn spec_operand_report(operand: Types, op: AstType) -> Seq<TypeDiagnostic> {
    if spec_operand_types(op).contains(operand) {
        Seq::empty()
    } else {
        seq![TypeDiagnostic::OperandNotAllowed { operand, operator: op }]
    }
}

/// The report an equality expectation leaves behind: nothing when the types
/// agree, one diagnostic otherwise.
pub open spec fn spec_mismatch_report(actual: Types, expected: Types) -> Seq<TypeDiagnostic> {
    if actual == expected {
        Seq::empty()
    } else {
        seq![TypeDiagnostic::Mismatch { actual, expected }]
    }
}

/// The declared name a `Let` slice carries in its typed-variable marker.
pub open spec fn spec_let_name(k: AstType) -> Seq<char> {
    match k {
        AstType::NumberType(s) => s@,
        AstType::StringType(s) => s@,
        _ => Seq::empty(),
    }
}

/// What one checker invocation produces: the slice's best-effort type, the
/// scope chain afterwards, and the diagnostics reported along the way.
pub struct CheckOutcome {
    pub result: Types,
    pub chain: Seq<Map<Seq<char>, Types>>,
    pub reports: Seq<TypeDiagnostic>,
}

/// The outcome of the shape no rule recognizes.
pub open spec fn spec_unrecognized(c: Seq<Map<Seq<char>, Types>>) -> CheckOutcome {
    CheckOutcome {
        result: unknown_type(),
        chain: c,
        reports: seq![TypeDiagnostic::UnrecognizedExpression],
    }
}

/// The checker's full semantics on one slice, dispatching on the slice's
/// length and head exactly as `TypeChecker::tc` does.
pub open spec fn spec_check(exp: Seq<AstType>, c: Seq<Map<Seq<char>, Types>>) -> CheckOutcome
    decreases exp.len(), 0int, 1int,
{
    if exp.len() == 5 {
        // Left-associative folding of two chained binary operators: the left
        // triple first, its type re-injected as a marker for the right one.
        let first = spec_check(exp.subrange(0, 3), c);
        let second = spec_check(seq![first.result.spec_to_token(), exp[3], exp[4]], first.chain);
        CheckOutcome {
            result: second.result,
            chain: second.chain,
            reports: first.reports + second.reports,
        }
    } else if exp.len() == 3 && is_binary_operator(exp[1]) {
        let left = spec_check(seq![exp[0]], c);
        let right = spec_check(seq![exp[2]], left.chain);
        CheckOutcome {
            result: right.result,
            chain: right.chain,
            reports: left.reports + right.reports + spec_operand_report(left.result, exp[1])
                + spec_operand_report(right.result, exp[1]) + spec_mismatch_report(
                right.result,
                left.result,
            ),
        }
    } else if exp.len() == 0 {
        spec_unrecognized(c)
    } else {
        match exp[0] {
            AstType::SetVar => if exp.len() >= 3 {
                // Assignment: the new value's type must match the variable's.
                let value = spec_check(seq![exp[2]], c);
                let var = spec_check(seq![exp[1]], value.chain);
                CheckOutcome {
                    result: value.result,
                    chain: var.chain,
                    reports: value.reports + var.reports + spec_mismatch_report(
                        value.result,
                        var.result,
                    ),
                }
            } else {
                spec_unrecognized(c)
            },
            AstType::Let => if exp.len() >= 3 {
                // Declaration: infer the value's type and bind the declared
                // name to it in the current scope.
                let value = spec_check(seq![exp[2]], c);
                CheckOutcome {
                    result: value.result,
                    chain: value.chain.update(
                        0,
                        value.chain[0].insert(spec_let_name(exp[1]), value.result),
                    ),
                    reports: value.reports,
                }
            } else {
                spec_unrecognized(c)
            },
            AstType::String => CheckOutcome { result: str_type(), chain: c, reports: Seq::empty() },
            AstType::Number => CheckOutcome { result: num_type(), chain: c, reports: Seq::empty() },
            AstType::NumberType(s) => match chain_resolve(c, s@) {
                Option::Some(t) => CheckOutcome { result: t, chain: c, reports: Seq::empty() },
                Option::None => CheckOutcome {
                    result: unknown_type(),
                    chain: c,
                    reports: seq![TypeDiagnostic::UndefinedVariable { name: s }],
                },
            },
            AstType::StringType(s) => match chain_resolve(c, s@) {
                Option::Some(t) => CheckOutcome { result: t, chain: c, reports: Seq::empty() },
                Option::None => CheckOutcome {
                    result: unknown_type(),
                    chain: c,
                    reports: seq![TypeDiagnostic::UndefinedVariable { name: s }],
                },
            },
            AstType::LeftBrace => {
                // A block: check its statements in a fresh child scope and
                // hand back the last statement's type; the child scope is
                // discarded, so the surrounding chain is returned unchanged.
                let inner = spec_check_block(
                    exp.subrange(1, exp.len() as int),
                    Seq::empty(),
                    0,
                    seq![Map::<Seq<char>, Types>::empty()] + c,
                    unknown_type(),
                );
                CheckOutcome { result: inner.result, chain: c, reports: inner.reports }
            },
            _ => spec_unrecognized(c),
        }
    }
}

/// Statement grouping and checking inside a block slice: elements are
/// gathered into per-statement groups, a semicolon at nesting depth zero or
/// the brace that closes a nested block ending one group.  Each completed
/// group is checked in order; the last group's type is the block's type, and
/// `UnKnown` stands for an empty block.  A trailing unfinished group is
/// dropped.
pub open spec fn spec_check_block(
    rest: Seq<AstType>,
    temp: Seq<AstType>,
    depth: int,
    c: Seq<Map<Seq<char>, Types>>,
    last: Types,
) -> CheckOutcome
    decreases rest.len() + temp.len(), rest.len(), 0int,
{
    if rest.len() == 0 {
        CheckOutcome { result: last, chain: c, reports: Seq::empty() }
    } else {
        let e = rest[0];
        let tail = rest.subrange(1, rest.len() as int);
        if e is LeftBrace {
            spec_check_block(tail, temp.push(e), depth + 1, c, last)
        } else if depth != 0 {
            if e is RightBrace && depth == 1 {
                let o = spec_check(temp.push(e), c);
                let onward = spec_check_block(tail, Seq::empty(), 0, o.chain, o.result);
                CheckOutcome {
                    result: onward.result,
                    chain: onward.chain,
                    reports: o.reports + onward.reports,
                }
            } else if e is RightBrace {
                spec_check_block(tail, temp.push(e), depth - 1, c, last)
            } else {
                spec_check_block(tail, temp.push(e), depth, c, last)
            }
        } else if e is SemiColon {
            let o = spec_check(temp, c);
            let onward = spec_check_block(tail, Seq::empty(), 0, o.chain, o.result);
            CheckOutcome {
                result: onward.result,
                chain: onward.chain,
                reports: o.reports + onward.reports,
            }
        } else if e is RightBrace {
            spec_check_block(tail, temp, depth, c, last)
        } else {
            spec_check_block(tail, temp.push(e), depth, c, last)
        }
    }
}

/// The scope-aware type checker.  `diagnostics` collects every report, in
/// order; `exec` builds a fresh global scope per run, so invocations stay
/// independently testable, while `tc` threads a caller-owned scope chain.
#[derive(Debug)]
pub struct TypeChecker {
    pub env: TypeEnvironment,
    pub diagnostics: Vec<TypeDiagnostic>,
}

impl TypeChecker {
    /// A fresh checker with no diagnostics.
    pub fn new() -> (r: TypeChecker)
        ensures
            r.diagnostics@ == Seq::<TypeDiagnostic>::empty(),
            r.env.record@ == Seq::<(String, Types)>::empty(),
            r.env.parent is None,
    {
        TypeChecker { env: TypeEnvironment::new(), diagnostics: Vec::new() }
    }

    /// The operand types available to a binary operator.
    pub fn get_operand_types(&self, binary_type: AstType) -> (r: Vec<Types>)
        ensures
            r@ == spec_operand_types(binary_type),
    {
        let str_t = Types::new(RustScriptType::String);
        let num_t = Types::new(RustScriptType::Number);
        let unknown_t = Types::new(RustScriptType::UnKnown);
        match binary_type {
            AstType::Plus => {
                let mut v: Vec<Types> = Vec::new();
                v.push(str_t);
                v.push(num_t);
                proof {
                    assert(v@ =~= spec_operand_types(AstType::Plus));
                }
                v
            },
            AstType::Minus | AstType::Slash | AstType::Star => {
                let mut v: Vec<Types> = Vec::new();
                v.push(num_t);
                proof {
                    assert(v@ =~= spec_operand_types(binary_type));
                }
                v
            },
            _ => {
                let mut v: Vec<Types> = Vec::new();
                v.push(unknown_t);
                proof {
                    assert(v@ =~= spec_operand_types(binary_type));
                }
                v
            },
        }
    }

    /// Records a diagnostic when an operand's type is not in the operator's
    /// allowed set; checking continues either way.
    fn expect_operator_type(
        &mut self,
        operand_type: &Types,
        allowed_types: &Vec<Types>,
        operator: &AstType,
    )
        requires
            allowed_types@ == spec_operand_types(*operator),
        ensures
            final(self).diagnostics@ == old(self).diagnostics@ + spec_operand_report(
                *operand_type,
                *operator,
            ),
            final(self).env == old(self).env,
    {
        let mut found = false;
        let mut i: usize = 0;
        while i < allowed_types.len()
            invariant
                i <= allowed_types@.len(),
                found <==> exists|j: int|
                    0 <= j < i && #[trigger] allowed_types@[j] == *operand_type,
            decreases allowed_types@.len() - i,
        {
            if allowed_types[i].equals(*operand_type) {
                found = true;
            }
            i = i + 1;
        }
        if !found {
            self.diagnostics.push(
                TypeDiagnostic::OperandNotAllowed {
                    operand: *operand_type,
                    operator: operator.duplicate(),
                },
            );
            proof {
                assert(!spec_operand_types(*operator).contains(*operand_type));
                assert(self.diagnostics@ =~= old(self).diagnostics@ + spec_operand_report(
                    *operand_type,
                    *operator,
                ));
            }
        } else {
            proof {
                assert(spec_operand_types(*operator).contains(*operand_type));
                assert(self.diagnostics@ =~= old(self).diagnostics@ + spec_operand_report(
                    *operand_type,
                    *operator,
                ));
            }
        }
    }

    /// Requires two types to be equal: records a mismatch diagnostic when
    /// they are not, and returns the actual type so checking continues.
    pub fn expect(&mut self, actual_type: Types, expected_type: Types) -> (r: Types)
        ensures
            r == actual_type,
            final(self).diagnostics@ == old(self).diagnostics@ + spec_mismatch_report(
                actual_type,
                expected_type,
            ),
            final(self).env == old(self).env,
    {
        if !actual_type.equals(expected_type) {
            self.diagnostics.push(
                TypeDiagnostic::Mismatch { actual: actual_type, expected: expected_type },
            );
            proof {
                assert(self.diagnostics@ =~= old(self).diagnostics@ + spec_mismatch_report(
                    actual_type,
                    expected_type,
                ));
            }
        } else {
            proof {
                assert(self.diagnostics@ =~= old(self).diagnostics@ + spec_mismatch_report(
                    actual_type,
                    expected_type,
                ));
            }
        }
        actual_type
    }

    /// The binary-operator rule: both operand types are computed, checked
    /// against the operator's allowed set, required to be mutually equal,
    /// and the right operand's type becomes the expression's type.
    pub fn binary(&mut self, exp: &Vec<AstType>, env: &mut TypeEnvironment) -> (r: Types)
        requires
            exp@.len() == 3,
            is_binary_operator(exp@[1]),
        ensures
            ({
                let o = spec_check(exp@, old(env).chain());
                &&& r == o.result
                &&& final(env).chain() == o.chain
                &&& final(self).diagnostics@ == old(self).diagnostics@ + o.reports
                &&& final(env).parent == old(env).parent
                &&& final(self).env == old(self).env
            }),
        decreases exp@.len(), 0int,
    {
        let ghost c0 = old(env).chain();
        let mut left_operand: Vec<AstType> = Vec::new();
        left_operand.push(exp[0].duplicate());
        proof {
            assert(left_operand@ =~= seq![exp@[0]]);
        }
        let t1 = self.tc(&left_operand, env);

        let mut right_operand: Vec<AstType> = Vec::new();
        right_operand.push(exp[2].duplicate());
        proof {
            assert(right_operand@ =~= seq![exp@[2]]);
        }
        let t2 = self.tc(&right_operand, env);

        let allow_types = self.get_operand_types(exp[1].duplicate());
        self.expect_operator_type(&t1, &allow_types, &exp[1]);
        self.expect_operator_type(&t2, &allow_types, &exp[1]);
        let r = self.expect(t2, t1);
        proof {
            let o = spec_check(exp@, c0);
            assert(self.diagnostics@ =~= old(self).diagnostics@ + o.reports);
        }
        r
    }

    /// One checker invocation on one slice.  The result, the new scope
    /// chain, and the diagnostics appended are exactly those of
    /// `spec_check`; the scope's parent structure survives untouched.
    #[verifier::rlimit(100)]
    pub fn tc(&mut self, exp: &Vec<AstType>, env: &mut TypeEnvironment) -> (r: Types)
        ensures
            ({
                let o = spec_check(exp@, old(env).chain());
                &&& r == o.result
                &&& final(env).chain() == o.chain
                &&& final(self).diagnostics@ == old(self).diagnostics@ + o.reports
                &&& final(env).parent == old(env).parent
                &&& final(self).env == old(self).env
            }),
        decreases exp@.len(), 1int,
    {
        let ghost c0 = old(env).chain();
        if exp.len() == 5 {
            let mut first_triple: Vec<AstType> = Vec::new();
            first_triple.push(exp[0].duplicate());
            first_triple.push(exp[1].duplicate());
            first_triple.push(exp[2].duplicate());
            proof {
                assert(first_triple@ =~= exp@.subrange(0, 3));
            }
            let current_type = self.tc(&first_triple, env);
            let mut second_triple: Vec<AstType> = Vec::new();
            second_triple.push(current_type.type_to_token());
            second_triple.push(exp[3].duplicate());
            second_triple.push(exp[4].duplicate());
            proof {
                assert(second_triple@ =~= seq![
                    spec_check(exp@.subrange(0, 3), c0).result.spec_to_token(),
                    exp@[3],
                    exp@[4],
                ]);
            }
            let r = self.tc(&second_triple, env);
            return r;
        }
        if exp.len() == 3 {
            let operator = &exp[1];
            match operator {
                AstType::Plus | AstType::Minus | AstType::Star | AstType::Slash => {
                    return self.binary(exp, env);
                },
                _ => {},
            }
        }
        if exp.len() == 0 {
            self.diagnostics.push(TypeDiagnostic::UnrecognizedExpression);
            proof {
                assert(self.diagnostics@ =~= old(self).diagnostics@ + spec_check(
                    exp@,
                    c0,
                ).reports);
            }
            return Types::new(RustScriptType::UnKnown);
        }
        let head = &exp[0];
        match head {
            AstType::SetVar => {
                if exp.len() >= 3 {
                    // The type of the new value must match the type the
                    // variable had when it was defined.
                    let mut value_slice: Vec<AstType> = Vec::new();
                    value_slice.push(exp[2].duplicate());
                    proof {
                        assert(value_slice@ =~= seq![exp@[2]]);
                    }
                    let value_type = self.tc(&value_slice, env);
                    let mut var_slice: Vec<AstType> = Vec::new();
                    var_slice.push(exp[1].duplicate());
                    proof {
                        assert(var_slice@ =~= seq![exp@[1]]);
                    }
                    let var_type = self.tc(&var_slice, env);
                    let r = self.expect(value_type, var_type);
                    proof {
                        let o = spec_check(exp@, c0);
                        assert(self.diagnostics@ =~= old(self).diagnostics@ + o.reports);
                    }
                    r
                } else {
                    self.diagnostics.push(TypeDiagnostic::UnrecognizedExpression);
                    proof {
                        assert(self.diagnostics@ =~= old(self).diagnostics@ + spec_check(
                            exp@,
                            c0,
                        ).reports);
                    }
                    Types::new(RustScriptType::UnKnown)
                }
            },
            AstType::Let => {
                if exp.len() >= 3 {
                    let var_name: String = match &exp[1] {
                        AstType::NumberType(vname) => vname.clone(),
                        AstType::StringType(vname) => vname.clone(),
                        _ => String::new(),
                    };
                    let mut value_slice: Vec<AstType> = Vec::new();
                    value_slice.push(exp[2].duplicate());
                    proof {
                        assert(value_slice@ =~= seq![exp@[2]]);
                    }
                    let value_type = self.tc(&value_slice, env);
                    proof {
                        assert(var_name@ == spec_let_name(exp@[1]));
                    }
                    env.define(var_name, value_type)
                } else {
                    self.diagnostics.push(TypeDiagnostic::UnrecognizedExpression);
                    proof {
                        assert(self.diagnostics@ =~= old(self).diagnostics@ + spec_check(
                            exp@,
                            c0,
                        ).reports);
                    }
                    Types::new(RustScriptType::UnKnown)
                }
            },
            AstType::String => Types { name: RustScriptType::String },
            AstType::Number => Types { name: RustScriptType::Number },
            AstType::NumberType(var_name) | AstType::StringType(var_name) => {
                match env.lookup(var_name.clone()) {
                    Ok(var_type) => var_type,
                    Err(_) => {
                        self.diagnostics.push(
                            TypeDiagnostic::UndefinedVariable { name: var_name.clone() },
                        );
                        proof {
                            assert(self.diagnostics@ =~= old(self).diagnostics@ + spec_check(
                                exp@,
                                c0,
                            ).reports);
                        }
                        Types { name: RustScriptType::UnKnown }
                    },
                }
            },
            AstType::LeftBrace => {
                let mut saved = TypeEnvironment::new();
                core::mem::swap(env, &mut saved);
                let mut block_env = TypeEnvironment::branch_env(saved);
                let result = self.tc_block(exp, &mut block_env);
                let restored = match block_env.parent {
                    Some(boxed) => *boxed,
                    None => {
                        proof {
                            assert(false);
                        }
                        TypeEnvironment::new()
                    },
                };
                *env = restored;
                result
            },
            _ => {
                self.diagnostics.push(TypeDiagnostic::UnrecognizedExpression);
                proof {
                    assert(self.diagnostics@ =~= old(self).diagnostics@ + spec_check(
                        exp@,
                        c0,
                    ).reports);
                }
                Types::new(RustScriptType::UnKnown)
            },
        }
    }

    /// Checks a whole slice in a fresh global scope.
    pub fn exec(&mut self, exp: Vec<AstType>) -> (r: Types)
        ensures
            ({
                let o = spec_check(exp@, seq![Map::<Seq<char>, Types>::empty()]);
                &&& r == o.result
                &&& final(self).diagnostics@ == old(self).diagnostics@ + o.reports
                &&& final(self).env == old(self).env
            }),
    {
        let mut global_env = TypeEnvironment::new();
        self.tc(&exp, &mut global_env)
    }

    /// Checks a slice in a fresh global scope and compares the resulting
    /// type against an expectation.
    pub fn test(&mut self, exp: Vec<AstType>, expected: Types) -> (r: bool)
        ensures
            ({
                let o = spec_check(exp@, seq![Map::<Seq<char>, Types>::empty()]);
                &&& r == (o.result == expected)
                &&& final(self).diagnostics@ == old(self).diagnostics@ + o.reports
                &&& final(self).env == old(self).env
            }),
    {
        let actual = self.exec(exp);
        actual.equals(expected)
    }

    /// Groups the elements after a block's opening marker into statements,
    /// tracking nested-brace depth so a nested block is captured whole, and
    /// checks each group in order against `env`.
    fn tc_block(&mut self, exp: &Vec<AstType>, env: &mut TypeEnvironment) -> (r: Types)
        requires
            exp@.len() >= 1,
        ensures
            ({
                let o = spec_check_block(
                    exp@.subrange(1, exp@.len() as int),
                    Seq::empty(),
                    0,
                    old(env).chain(),
                    unknown_type(),
                );
                &&& r == o.result
                &&& final(env).chain() == o.chain
                &&& final(self).diagnostics@ == old(self).diagnostics@ + o.reports
                &&& final(env).parent == old(env).parent
                &&& final(self).env == old(self).env
            }),
        decreases exp@.len(), 0int,
    {
        let ghost c0 = old(env).chain();
        let ghost target = spec_check_block(
            exp@.subrange(1, exp@.len() as int),
            Seq::empty(),
            0,
            c0,
            unknown_type(),
        );
        let mut temp: Vec<AstType> = Vec::new();
        let mut in_branch: usize = 0;
        let mut result = Types::new(RustScriptType::UnKnown);
        let mut idx: usize = 1;
        while idx < exp.len()
            invariant
                1 <= idx <= exp@.len(),
                temp@.len() < idx,
                in_branch <= temp@.len(),
                old(self).diagnostics@.is_prefix_of(self.diagnostics@),
                self.env == old(self).env,
                env.parent == old(env).parent,
                ({
                    let o = spec_check_block(
                        exp@.subrange(idx as int, exp@.len() as int),
                        temp@,
                        in_branch as int,
                        env.chain(),
                        result,
                    );
                    &&& target.result == o.result
                    &&& target.chain == o.chain
                    &&& target.reports == self.diagnostics@.skip(old(self).diagnostics@.len() as int)
                        + o.reports
                }),
            decreases exp@.len() - idx,
        {
            let ghost rest = exp@.subrange(idx as int, exp@.len() as int);
            let ghost tail = exp@.subrange(idx as int + 1, exp@.len() as int);
            proof {
                assert(rest[0] == exp@[idx as int]);
                assert(rest.subrange(1, rest.len() as int) =~= tail);
            }
            let element = &exp[idx];
            let is_left_brace = matches!(element, AstType::LeftBrace);
            let is_right_brace = matches!(element, AstType::RightBrace);
            let is_semicolon = matches!(element, AstType::SemiColon);
            if is_left_brace {
                temp.push(element.duplicate());
                in_branch = in_branch + 1;
            } else if in_branch != 0 {
                if is_right_brace && in_branch == 1 {
                    temp.push(element.duplicate());
                    result = self.tc(&temp, env);
                    temp = Vec::new();
                    in_branch = 0;
                } else if is_right_brace {
                    temp.push(element.duplicate());
                    in_branch = in_branch - 1;
                } else {
                    temp.push(element.duplicate());
                }
            } else if is_semicolon {
                result = self.tc(&temp, env);
                temp = Vec::new();
            } else if is_right_brace {
                // skipped: a closing marker at depth zero belongs to the
                // enclosing block, not to any statement group
            } else {
                temp.push(element.duplicate());
            }
            idx = idx + 1;
        }
        proof {
            assert(exp@.subrange(idx as int, exp@.len() as int) =~= Seq::<AstType>::empty());
            let o = spec_check_block(
                Seq::<AstType>::empty(),
                temp@,
                in_branch as int,
                env.chain(),
                result,
            );
            assert(o.result == result);
            assert(o.chain == env.chain());
            assert(o.reports =~= Seq::<TypeDiagnostic>::empty());
            assert(self.diagnostics@ =~= old(self).diagnostics@ + self.diagnostics@.skip(
                old(self).diagnostics@.len() as int,
            ));
        }
        result
    }
}

/// Binary-operator typing, for any scope chain: subtracting numbers passes
/// and yields `Number`; subtracting strings is reported (the operand set of
/// `-` holds numbers only) yet still yields a type; adding strings passes
/// and yields `String`; adding a number and a string is reported as a
/// mismatch yet still yields a type.  Checking never aborts.
pub proof fn lemma_binary_operator_typing(c: Seq<Map<Seq<char>, Types>>)
    ensures
        spec_check(seq![AstType::Number, AstType::Minus, AstType::Number], c).result == num_type(),
        spec_check(seq![AstType::Number, AstType::Minus, AstType::Number], c).reports
            == Seq::<TypeDiagnostic>::empty(),
        spec_check(seq![AstType::String, AstType::Minus, AstType::String], c).result == str_type(),
        spec_check(seq![AstType::String, AstType::Minus, AstType::String], c).reports == seq![
            TypeDiagnostic::OperandNotAllowed { operand: str_type(), operator: AstType::Minus },
            TypeDiagnostic::OperandNotAllowed { operand: str_type(), operator: AstType::Minus },
        ],
        spec_check(seq![AstType::String, AstType::Plus, AstType::String], c).result == str_type(),
        spec_check(seq![AstType::String, AstType::Plus, AstType::String], c).reports
            == Seq::<TypeDiagnostic>::empty(),
        spec_check(seq![AstType::Number, AstType::Plus, AstType::String], c).result == str_type(),
        spec_check(seq![AstType::Number, AstType::Plus, AstType::String], c).reports == seq![
            TypeDiagnostic::Mismatch { actual: str_type(), expected: num_type() },
        ],
{
    let sn = seq![AstType::Number];
    let ss = seq![AstType::String];
    assert(spec_check(sn, c).result == num_type());
    assert(spec_check(sn, c).reports == Seq::<TypeDiagnostic>::empty());
    assert(spec_check(ss, c).result == str_type());
    assert(spec_check(ss, c).reports == Seq::<TypeDiagnostic>::empty());
    assert(spec_operand_types(AstType::Minus).contains(num_type())) by {
        assert(spec_operand_types(AstType::Minus)[0] == num_type());
    }
    assert(!spec_operand_types(AstType::Minus).contains(str_type()));
    assert(spec_operand_types(AstType::Plus).contains(num_type())) by {
        assert(spec_operand_types(AstType::Plus)[1] == num_type());
    }
    assert(spec_operand_types(AstType::Plus).contains(str_type())) by {
        assert(spec_operand_types(AstType::Plus)[0] == str_type());
    }
    let nmn = seq![AstType::Number, AstType::Minus, AstType::Number];
    assert(seq![nmn[0]] =~= sn && seq![nmn[2]] =~= sn);
    assert(spec_check(nmn, c).reports =~= Seq::<TypeDiagnostic>::empty());
    let sms = seq![AstType::String, AstType::Minus, AstType::String];
    assert(seq![sms[0]] =~= ss && seq![sms[2]] =~= ss);
    assert(spec_check(sms, c).reports =~= seq![
        TypeDiagnostic::OperandNotAllowed { operand: str_type(), operator: AstType::Minus },
        TypeDiagnostic::OperandNotAllowed { operand: str_type(), operator: AstType::Minus },
    ]);
    let sps = seq![AstType::String, AstType::Plus, AstType::String];
    assert(seq![sps[0]] =~= ss && seq![sps[2]] =~= ss);
    assert(spec_check(sps, c).reports =~= Seq::<TypeDiagnostic>::empty());
    let nps = seq![AstType::Number, AstType::Plus, AstType::String];
    assert(seq![nps[0]] =~= sn && seq![nps[2]] =~= ss);
    assert(spec_check(nps, c).reports =~= seq![
        TypeDiagnostic::Mismatch { actual: str_type(), expected: num_type() },
    ]);
}

/// The declaration round trip, for any starting scope chain: checking the
/// slice for a `let` that binds `name` to a literal leaves `name` bound in
/// the active scope to the literal's type, so a subsequent resolution of
/// `name` from that scope yields exactly that type, and the slice's own type
/// is the same.
pub proof fn lemma_let_binding_roundtrip(name: String, marker: AstType, lit: AstType, c: Seq<Map<Seq<char>, Types>>)
    requires
        c.len() >= 1,
        marker == AstType::NumberType(name) || marker == AstType::StringType(name),
        lit is String || lit is Number,
    ensures
        ({
            let o = spec_check(seq![AstType::Let, marker, lit], c);
            &&& o.result == if lit is String { str_type() } else { num_type() }
            &&& chain_resolve(o.chain, name@) == Option::Some(o.result)
            &&& o.reports == Seq::<TypeDiagnostic>::empty()
        }),
{
    let exp = seq![AstType::Let, marker, lit];
    let vt: Types = if lit is String { str_type() } else { num_type() };
    assert(spec_check(seq![lit], c).result == vt);
    assert(spec_check(seq![lit], c).chain == c);
    assert(spec_check(seq![lit], c).reports == Seq::<TypeDiagnostic>::empty());
    assert(seq![exp[2]] =~= seq![lit]);
    let o = spec_check(exp, c);
    assert(o.chain == c.update(0, c[0].insert(name@, vt)));
    crate::environment::lemma_define_then_resolve(c, name@, vt);
}

} // verus!
