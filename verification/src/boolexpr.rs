//! Code generation for boolean expressions. A truth value is an integer,
//! 0 for false and 1 for true, and the connectives are arithmetic on it.

use vstd::prelude::*;
use vstd::string::*;
use crate::codegen::{bin_op_text, relop_text, temp_name, CodeGenerator, CodeReference, GenView, RefView, VarType};
use crate::expression::{binary_op_model, cast_model, with_temp, BinaryOp, ExprView, Expression};
use crate::lexer::Lexeme;
use crate::text::str_eq;

verus! {

/// The result of compiling a boolean expression: where the truth value
/// lives and the code that computes it.
#[derive(Debug)]
pub struct BoolExpr {
    pub code_ref: CodeReference,
    pub code_generated: String,
}

/// What a [`BoolExpr`] stands for.
pub struct BoolView {
    pub code_ref: RefView,
    pub code: Seq<char>,
}

impl View for BoolExpr {
    type V = BoolView;

    open spec fn view(&self) -> BoolView {
        BoolView { code_ref: self.code_ref@, code: self.code_generated@ }
    }
}

/// A comparison of two expressions.
#[derive(Copy, Clone, Debug, PartialEq, Eq, Structural)]
pub enum RelOp {
    Eq,
    NotEq,
    Less,
    LessEq,
    Grt,
    GrtEq,
}

/// The comparison that a lexeme spells, if it spells one.
pub open spec fn rel_op_of(l: Seq<char>) -> Option<RelOp> {
    if l == "=="@ {
        Some(RelOp::Eq)
    } else if l == "!="@ {
        Some(RelOp::NotEq)
    } else if l == "<"@ {
        Some(RelOp::Less)
    } else if l == ">"@ {
        Some(RelOp::Grt)
    } else if l == "<="@ {
        Some(RelOp::LessEq)
    } else if l == ">="@ {
        Some(RelOp::GrtEq)
    } else {
        None
    }
}

/// The truth value as an integer expression.
pub open spec fn as_expression_view(b: BoolView) -> ExprView {
    ExprView { ty: VarType::Int, code_ref: b.code_ref, code: b.code }
}

/// The integer expression as a truth value.
pub open spec fn from_expression_view(e: ExprView) -> BoolView {
    BoolView { code_ref: e.code_ref, code: e.code }
}

/// The literal 1 as an expression.
pub open spec fn one() -> ExprView {
    ExprView { ty: VarType::Int, code_ref: RefView::IntLiteral(1), code: Seq::empty() }
}

/// Negation: `1 - b`.
pub open spec fn not_model(b: BoolView, g: GenView) -> (BoolView, GenView) {
    let (e, g1) = binary_op_model(one(), as_expression_view(b), BinaryOp::Sub, g);
    (from_expression_view(e), g1)
}

/// Conjunction: `a * b`.
pub open spec fn and_model(a: BoolView, b: BoolView, g: GenView) -> (BoolView, GenView) {
    let (e, g1) = binary_op_model(as_expression_view(a), as_expression_view(b), BinaryOp::Mul, g);
    (from_expression_view(e), g1)
}

/// Disjunction: `not(not(a) and not(b))`. Both operands are computed.
pub open spec fn or_model(a: BoolView, b: BoolView, g: GenView) -> (BoolView, GenView) {
    let (na, g1) = not_model(a, g);
    let (nb, g2) = not_model(b, g1);
    let (both, g3) = and_model(na, nb, g2);
    not_model(both, g3)
}

/// A comparison. A strict one converts the integer operand of a mixed
/// pair and then puts one instruction's result into a fresh temporary;
/// `<=` is the negation of `>`, and `>=` that of `<`.
pub open spec fn relop_model(e1: ExprView, e2: ExprView, op: RelOp, g: GenView) -> (
    BoolView,
    GenView,
)
    decreases (if op.is_strict() { 0nat } else { 1nat }),
{
    match op {
        RelOp::GrtEq => {
            let (less, g1) = relop_model(e1, e2, RelOp::Less, g);
            not_model(less, g1)
        },
        RelOp::LessEq => {
            let (greater, g1) = relop_model(e1, e2, RelOp::Grt, g);
            not_model(greater, g1)
        },
        _ => {
            let ty = e1.ty.spec_combine(e2.ty);
            let (c2, g2) = cast_model(ty, e2, g);
            let (c1, g1) = cast_model(ty, e1, g2);
            let dst = RefView::VarName(temp_name(g1.temps));
            (
                BoolView {
                    code_ref: dst,
                    code: c1.code + c2.code + relop_text(ty, op, dst, c1.code_ref, c2.code_ref),
                },
                with_temp(g1, VarType::Int),
            )
        },
    }
}

/// `>=` is the negation of `<` and `<=` that of `>`, on the same operands
/// and from the same generator: no temporary is taken but those of the
/// strict comparison and of the negation.
pub proof fn lemma_non_strict_negates_strict(e1: ExprView, e2: ExprView, g: GenView)
    ensures
        relop_model(e1, e2, RelOp::GrtEq, g) == not_model(
            relop_model(e1, e2, RelOp::Less, g).0,
            relop_model(e1, e2, RelOp::Less, g).1,
        ),
        relop_model(e1, e2, RelOp::LessEq, g) == not_model(
            relop_model(e1, e2, RelOp::Grt, g).0,
            relop_model(e1, e2, RelOp::Grt, g).1,
        ),
        e1.ty == e2.ty ==> relop_model(e1, e2, RelOp::GrtEq, g).1.temps == g.temps + 2,
{
}

/// The value of `not b` in the 0/1 encoding.
pub open spec fn not_value(b: int) -> int {
    1 - b
}

/// The value of `a and b` in the 0/1 encoding.
pub open spec fn and_value(a: int, b: int) -> int {
    a * b
}

/// The value of `a or b` in the 0/1 encoding.
pub open spec fn or_value(a: int, b: int) -> int {
    not_value(and_value(not_value(a), not_value(b)))
}

/// Negating twice gives the value back.
pub proof fn lemma_not_involution(b: int)
    ensures
        not_value(not_value(b)) == b,
{
}

/// On truth values the arithmetic connectives are the logical ones, and
/// their results are truth values again.
pub proof fn lemma_connectives(a: int, b: int)
    requires
        a == 0 || a == 1,
        b == 0 || b == 1,
    ensures
        not_value(a) == (if a == 1 { 0int } else { 1int }),
        and_value(a, b) == (if a == 1 && b == 1 { 1int } else { 0int }),
        or_value(a, b) == (if a == 1 || b == 1 { 1int } else { 0int }),
{
}

/// Negating twice emits the code of the operand and then two
/// subtractions from 1: nothing is simplified away.
pub proof fn lemma_double_negation_code(b: BoolView, g: GenView)
    ensures
        ({
            let (n1, g1) = not_model(b, g);
            let (n2, g2) = not_model(n1, g1);
            &&& n1.code == b.code + bin_op_text(
                VarType::Int,
                BinaryOp::Sub,
                n1.code_ref,
                RefView::IntLiteral(1),
                b.code_ref,
            )
            &&& n2.code == n1.code + bin_op_text(
                VarType::Int,
                BinaryOp::Sub,
                n2.code_ref,
                RefView::IntLiteral(1),
                n1.code_ref,
            )
            &&& g2.temps == g.temps + 2
        }),
{
    let (n1, g1) = not_model(b, g);
    assert(Seq::<char>::empty() + b.code =~= b.code);
    assert(Seq::<char>::empty() + n1.code =~= n1.code);
}

/// A disjunction emits the code of both operands, whatever their values:
/// first all of the left operand's, later all of the right operand's.
pub proof fn lemma_or_emits_both(a: BoolView, b: BoolView, g: GenView)
    ensures
        ({
            let (na, g1) = not_model(a, g);
            let (nb, g2) = not_model(b, g1);
            let (both, g3) = and_model(na, nb, g2);
            let (r, g4) = or_model(a, b, g);
            &&& na.code.subrange(0, a.code.len() as int) == a.code
            &&& nb.code.subrange(0, b.code.len() as int) == b.code
            &&& both.code.subrange(0, na.code.len() as int) == na.code
            &&& both.code.subrange(na.code.len() as int, (na.code.len() + nb.code.len()) as int) == nb.code
            &&& r.code.subrange(0, both.code.len() as int) == both.code
            &&& r.code.subrange(0, a.code.len() as int) == a.code
            &&& r.code.subrange(na.code.len() as int, (na.code.len() + b.code.len()) as int) == b.code
            &&& g4.temps == g.temps + 4
        }),
{
    let (na, g1) = not_model(a, g);
    let (nb, g2) = not_model(b, g1);
    let (both, g3) = and_model(na, nb, g2);
    let (r, g4) = or_model(a, b, g);
    assert(Seq::<char>::empty() + a.code =~= a.code);
    assert(Seq::<char>::empty() + b.code =~= b.code);
    assert(Seq::<char>::empty() + both.code =~= both.code);
    assert(na.code.subrange(0, a.code.len() as int) =~= a.code);
    assert(nb.code.subrange(0, b.code.len() as int) =~= b.code);
    assert(both.code.subrange(0, na.code.len() as int) =~= na.code);
    assert(both.code.subrange(na.code.len() as int, (na.code.len() + nb.code.len()) as int) =~= nb.code);
    assert(r.code.subrange(0, both.code.len() as int) =~= both.code);
    assert(r.code.subrange(0, a.code.len() as int) =~= a.code);
    assert(r.code.subrange(na.code.len() as int, (na.code.len() + b.code.len()) as int) =~= b.code);
}

impl RelOp {
    /// Whether the comparison has an instruction of its own.
    pub open spec fn is_strict(self) -> bool {
        self != RelOp::LessEq && self != RelOp::GrtEq
    }

    /// The comparison that a lexeme spells, if it spells one.
    pub fn try_from_lexeme(l: &Lexeme) -> (r: Option<Self>)
        ensures
            r == rel_op_of(l@),
    {
        if str_eq(l.0.as_str(), "==") {
            Some(Self::Eq)
        } else if str_eq(l.0.as_str(), "!=") {
            Some(Self::NotEq)
        } else if str_eq(l.0.as_str(), "<") {
            Some(Self::Less)
        } else if str_eq(l.0.as_str(), ">") {
            Some(Self::Grt)
        } else if str_eq(l.0.as_str(), "<=") {
            Some(Self::LessEq)
        } else if str_eq(l.0.as_str(), ">=") {
            Some(Self::GrtEq)
        } else {
            None
        }
    }

    /// The comparison that the lexeme of a relational operator spells.
    pub fn from_lexeme(l: Lexeme) -> (r: Self)
        requires
            rel_op_of(l@) is Some,
        ensures
            Some(r) == rel_op_of(l@),
    {
        match Self::try_from_lexeme(&l) {
            Some(op) => op,
            None => RelOp::Eq,
        }
    }
}

impl BoolExpr {
    /// The truth value as an integer expression.
    pub fn as_expression(self) -> (r: Expression)
        ensures
            r@ == as_expression_view(self@),
    {
        Expression { ty: VarType::Int, code_ref: self.code_ref, code_generated: self.code_generated }
    }

    /// The integer expression as a truth value.
    pub fn from_expression(expr: Expression) -> (r: BoolExpr)
        ensures
            r@ == from_expression_view(expr@),
    {
        BoolExpr { code_ref: expr.code_ref, code_generated: expr.code_generated }
    }

    /// Negation, as `1 - b`.
    pub fn not(bool_expr: BoolExpr, codegen: &mut CodeGenerator) -> (r: BoolExpr)
        requires
            old(codegen)@.temps + 2 <= usize::MAX,
        ensures
            (r@, final(codegen)@) == not_model(bool_expr@, old(codegen)@),
            final(codegen)@.temps == old(codegen)@.temps + 1,
            final(codegen)@.labels == old(codegen)@.labels,
    {
        BoolExpr::from_expression(
            Expression::binary_op(
                Expression::int_literal(1),
                bool_expr.as_expression(),
                BinaryOp::Sub,
                codegen,
            ),
        )
    }

    /// Conjunction, as `a * b`.
    pub fn and(bool_expr1: BoolExpr, bool_expr2: BoolExpr, codegen: &mut CodeGenerator) -> (r:
        BoolExpr)
        requires
            old(codegen)@.temps + 2 <= usize::MAX,
        ensures
            (r@, final(codegen)@) == and_model(bool_expr1@, bool_expr2@, old(codegen)@),
            final(codegen)@.temps == old(codegen)@.temps + 1,
            final(codegen)@.labels == old(codegen)@.labels,
    {
        BoolExpr::from_expression(
            Expression::binary_op(
                bool_expr1.as_expression(),
                bool_expr2.as_expression(),
                BinaryOp::Mul,
                codegen,
            ),
        )
    }

    /// Disjunction, as `not(not(a) and not(b))`: the code of both operands
    /// is emitted, whatever the left one gives.
    pub fn or(bool_expr1: BoolExpr, bool_expr2: BoolExpr, codegen: &mut CodeGenerator) -> (r:
        BoolExpr)
        requires
            old(codegen)@.temps + 5 <= usize::MAX,
        ensures
            (r@, final(codegen)@) == or_model(bool_expr1@, bool_expr2@, old(codegen)@),
            final(codegen)@.temps == old(codegen)@.temps + 4,
            final(codegen)@.labels == old(codegen)@.labels,
    {
        let not1 = BoolExpr::not(bool_expr1, codegen);
        let not2 = BoolExpr::not(bool_expr2, codegen);
        let both = BoolExpr::and(not1, not2, codegen);
        BoolExpr::not(both, codegen)
    }

    /// A comparison of two expressions.
    pub fn relop(expr1: Expression, expr2: Expression, relop: RelOp, codegen: &mut CodeGenerator) -> (r:
        BoolExpr)
        requires
            old(codegen)@.temps + (if relop.is_strict() { 3int } else { 5int }) <= usize::MAX,
        ensures
            (r@, final(codegen)@) == relop_model(expr1@, expr2@, relop, old(codegen)@),
            old(codegen)@.temps < final(codegen)@.temps <= old(codegen)@.temps + (if relop.is_strict() {
                2int
            } else {
                3int
            }),
            final(codegen)@.labels == old(codegen)@.labels,
        decreases (if relop.is_strict() { 0nat } else { 1nat }),
    {
        match relop {
            RelOp::GrtEq => {
                let less = BoolExpr::relop(expr1, expr2, RelOp::Less, codegen);
                BoolExpr::not(less, codegen)
            },
            RelOp::LessEq => {
                let greater = BoolExpr::relop(expr1, expr2, RelOp::Grt, codegen);
                BoolExpr::not(greater, codegen)
            },
            relop => {
                let expr_ty = expr1.ty.combine(expr2.ty);
                let expr2 = Expression::cast(expr_ty, expr2, codegen);
                let expr1 = Expression::cast(expr_ty, expr1, codegen);
                let code_ref = codegen.new_tmp_var(VarType::Int);
                let stmt = codegen.relop(
                    expr_ty,
                    relop,
                    &code_ref,
                    &expr1.code_ref,
                    &expr2.code_ref,
                );
                let mut code_generated = expr1.code_generated;
                code_generated.append(expr2.code_generated.as_str());
                code_generated.append(stmt.as_str());
                BoolExpr { code_ref, code_generated }
            },
        }
    }
}

} // verus!
