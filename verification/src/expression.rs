//! Code generation for arithmetic expressions: each value with its type,
//! the place where it lives, and the code that computes it.

use vstd::prelude::*;
use vstd::string::*;
use crate::codegen::{
    bin_op_text,
    cast_text,
    register,
    temp_name,
    CodeGenerator,
    CodeReference,
    GenView,
    RefView,
    VarType,
};
use crate::lexer::Lexeme;
use crate::text::str_eq;

verus! {

/// The result of compiling an expression.
#[derive(Debug)]
pub struct Expression {
    pub ty: VarType,
    pub code_ref: CodeReference,
    pub code_generated: String,
}

/// What an [`Expression`] stands for.
pub struct ExprView {
    pub ty: VarType,
    pub code_ref: RefView,
    pub code: Seq<char>,
}

impl View for Expression {
    type V = ExprView;

    open spec fn view(&self) -> ExprView {
        ExprView { ty: self.ty, code_ref: self.code_ref@, code: self.code_generated@ }
    }
}

/// An arithmetic operation on two expressions.
#[derive(Copy, Clone, Debug, PartialEq, Eq, Structural)]
pub enum BinaryOp {
    Add,
    Sub,
    Mul,
    Div,
}

/// The operation that a lexeme spells, if it spells one.
pub open spec fn binary_op_of(l: Seq<char>) -> Option<BinaryOp> {
    if l == "+"@ {
        Some(BinaryOp::Add)
    } else if l == "-"@ {
        Some(BinaryOp::Sub)
    } else if l == "*"@ {
        Some(BinaryOp::Mul)
    } else if l == "/"@ {
        Some(BinaryOp::Div)
    } else {
        None
    }
}

/// The generator after one more temporary of type `ty`.
pub open spec fn with_temp(g: GenView, ty: VarType) -> GenView {
    GenView { temps: g.temps + 1, vars: register(g.vars, temp_name(g.temps), ty), ..g }
}

/// A conversion of `e` into `ty`: nothing where `e` has that type already,
/// else a fresh temporary and the conversion after the code of `e`.
pub open spec fn cast_model(ty: VarType, e: ExprView, g: GenView) -> (ExprView, GenView) {
    if e.ty == ty {
        (e, g)
    } else {
        let dst = RefView::VarName(temp_name(g.temps));
        (
            ExprView { ty, code_ref: dst, code: e.code + cast_text(ty, dst, e.code_ref) },
            with_temp(g, ty),
        )
    }
}

/// An operation on two expressions: the integer operand of a mixed pair is
/// converted first, the result goes to a fresh temporary, and the code is
/// that of the left operand, that of the right, and the instruction.
pub open spec fn binary_op_model(e1: ExprView, e2: ExprView, op: BinaryOp, g: GenView) -> (
    ExprView,
    GenView,
) {
    let ty = e1.ty.spec_combine(e2.ty);
    let (c2, g2) = cast_model(ty, e2, g);
    let (c1, g1) = cast_model(ty, e1, g2);
    let dst = RefView::VarName(temp_name(g1.temps));
    (
        ExprView {
            ty,
            code_ref: dst,
            code: c1.code + c2.code + bin_op_text(ty, op, dst, c1.code_ref, c2.code_ref),
        },
        with_temp(g1, ty),
    )
}

impl BinaryOp {
    /// The operation that a lexeme spells, if it spells one.
    pub fn try_from_lexeme(l: &Lexeme) -> (r: Option<Self>)
        ensures
            r == binary_op_of(l@),
    {
        if str_eq(l.0.as_str(), "+") {
            Some(Self::Add)
        } else if str_eq(l.0.as_str(), "-") {
            Some(Self::Sub)
        } else if str_eq(l.0.as_str(), "*") {
            Some(Self::Mul)
        } else if str_eq(l.0.as_str(), "/") {
            Some(Self::Div)
        } else {
            None
        }
    }

    /// The operation that the lexeme of an additive or multiplicative
    /// operator spells.
    pub fn from_lexeme(l: Lexeme) -> (r: Self)
        requires
            binary_op_of(l@) is Some,
        ensures
            Some(r) == binary_op_of(l@),
    {
        match Self::try_from_lexeme(&l) {
            Some(op) => op,
            None => BinaryOp::Div,
        }
    }
}

impl Expression {
    /// Converts an expression into another type. An expression that has
    /// the type already comes back as it is, and nothing is emitted.
    pub fn cast(cast_type: VarType, expr_to_cast: Expression, codegen: &mut CodeGenerator) -> (r:
        Self)
        requires
            old(codegen)@.temps < usize::MAX,
        ensures
            (r@, final(codegen)@) == cast_model(cast_type, expr_to_cast@, old(codegen)@),
            expr_to_cast.ty == cast_type ==> r == expr_to_cast && *final(codegen) == *old(codegen),
    {
        if expr_to_cast.ty == cast_type {
            return expr_to_cast;
        }
        let var_name = codegen.new_tmp_var(cast_type);
        let mut code_generated = expr_to_cast.code_generated;
        let stmt = codegen.gen_cast_stmt(cast_type, &var_name, &expr_to_cast.code_ref);
        code_generated.append(stmt.as_str());
        Self { ty: cast_type, code_ref: var_name, code_generated }
    }

    /// An expression that is just a variable.
    pub fn variable(var_name: String, var_type: VarType) -> (r: Self)
        ensures
            r@ == (ExprView {
                ty: var_type,
                code_ref: RefView::VarName(var_name@),
                code: Seq::empty(),
            }),
    {
        Self {
            ty: var_type,
            code_ref: CodeReference::VarName(var_name),
            code_generated: String::new(),
        }
    }

    /// An expression that is just an integer literal.
    pub fn int_literal(num: i32) -> (r: Self)
        ensures
            r@ == (ExprView {
                ty: VarType::Int,
                code_ref: RefView::IntLiteral(num as int),
                code: Seq::empty(),
            }),
    {
        Self {
            ty: VarType::Int,
            code_ref: CodeReference::IntLiteral(num),
            code_generated: String::new(),
        }
    }

    /// An expression that is just a float literal, given by its rendering.
    pub fn float_literal(num: String) -> (r: Self)
        ensures
            r@ == (ExprView {
                ty: VarType::Float,
                code_ref: RefView::FloatLiteral(num@),
                code: Seq::empty(),
            }),
    {
        Self {
            ty: VarType::Float,
            code_ref: CodeReference::FloatLiteral(num),
            code_generated: String::new(),
        }
    }

    /// An operation on two expressions.
    pub fn binary_op(
        expr1: Expression,
        expr2: Expression,
        binop: BinaryOp,
        codegen: &mut CodeGenerator,
    ) -> (r: Self)
        requires
            old(codegen)@.temps + 2 <= usize::MAX,
        ensures
            (r@, final(codegen)@) == binary_op_model(expr1@, expr2@, binop, old(codegen)@),
    {
        let ty = expr1.ty.combine(expr2.ty);
        let expr2 = Expression::cast(ty, expr2, codegen);
        let expr1 = Expression::cast(ty, expr1, codegen);
        let tmp_var = codegen.new_tmp_var(ty);
        let stmt = codegen.bin_op(ty, binop, &tmp_var, &expr1.code_ref, &expr2.code_ref);
        let mut code_generated = expr1.code_generated;
        code_generated.append(expr2.code_generated.as_str());
        code_generated.append(stmt.as_str());
        Expression { ty, code_ref: tmp_var, code_generated }
    }
}

} // verus!
