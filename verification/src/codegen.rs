//! The code generator: the symbol table, the counters of temporaries and
//! labels, and the text of each instruction.

use vstd::prelude::*;
use vstd::string::*;
use crate::boolexpr::{BoolExpr, RelOp};
use crate::error::{CodeGenErrorKind, CodeGenErrorView};
use crate::expression::{BinaryOp, ExprView, Expression};
use crate::text::{decimal, decimal_string, int_string, int_text, str_eq};

verus! {

/// The type of a variable or of a value.
#[derive(Copy, Clone, Debug, PartialEq, Eq, Structural)]
pub enum VarType {
    Float,
    Int,
}

/// How an already computed value is denoted in the emitted code: a literal
/// or the name of a variable. A float literal is held as its rendering.
#[derive(Debug)]
pub enum CodeReference {
    IntLiteral(i32),
    FloatLiteral(String),
    VarName(String),
}

/// What a [`CodeReference`] stands for.
pub enum RefView {
    IntLiteral(int),
    FloatLiteral(Seq<char>),
    VarName(Seq<char>),
}

/// A handle on a label of the emitted code.
#[derive(Copy, Clone, Debug, PartialEq, Eq, Structural)]
pub struct Label {
    id: usize,
}

/// The state of code generation: how many labels and temporaries were
/// handed out, and the declared type of each variable.
#[derive(Debug)]
pub struct CodeGenerator {
    labels: usize,
    tmp_variables: usize,
    var_types: Vec<(String, VarType)>,
}

/// What a [`CodeGenerator`] stands for. `vars` holds each registered name
/// once, in the order of first registration, with its current type.
pub struct GenView {
    pub labels: nat,
    pub temps: nat,
    pub vars: Seq<(Seq<char>, VarType)>,
}

impl View for CodeReference {
    type V = RefView;

    open spec fn view(&self) -> RefView {
        match self {
            CodeReference::IntLiteral(i) => RefView::IntLiteral(*i as int),
            CodeReference::FloatLiteral(s) => RefView::FloatLiteral(s@),
            CodeReference::VarName(s) => RefView::VarName(s@),
        }
    }
}

impl View for Label {
    type V = nat;

    closed spec fn view(&self) -> nat {
        self.id as nat
    }
}

impl View for CodeGenerator {
    type V = GenView;

    closed spec fn view(&self) -> GenView {
        GenView {
            labels: self.labels as nat,
            temps: self.tmp_variables as nat,
            vars: Seq::new(
                self.var_types@.len(),
                |i: int| (self.var_types@[i].0@, self.var_types@[i].1),
            ),
        }
    }
}

/// The text that denotes a value in the emitted code.
pub open spec fn ref_text(r: RefView) -> Seq<char> {
    match r {
        RefView::IntLiteral(i) => int_text(i),
        RefView::FloatLiteral(s) => s,
        RefView::VarName(s) => s,
    }
}

/// The name of the temporary with the given number.
pub open spec fn temp_name(n: nat) -> Seq<char> {
    "_t"@ + decimal(n)
}

/// The name of the label with the given number.
pub open spec fn label_name(n: nat) -> Seq<char> {
    "L"@ + decimal(n)
}

/// An instruction with one operand.
pub open spec fn line2(op: Seq<char>, a: Seq<char>) -> Seq<char> {
    op + " "@ + a + "\n"@
}

/// An instruction with two operands.
pub open spec fn line3(op: Seq<char>, a: Seq<char>, b: Seq<char>) -> Seq<char> {
    op + " "@ + a + " "@ + b + "\n"@
}

/// An instruction with three operands.
pub open spec fn line4(op: Seq<char>, a: Seq<char>, b: Seq<char>, c: Seq<char>) -> Seq<char> {
    op + " "@ + a + " "@ + b + " "@ + c + "\n"@
}

/// `I` for integers, `R` for floats.
pub open spec fn type_prefix(ty: VarType) -> Seq<char> {
    match ty {
        VarType::Int => "I"@,
        VarType::Float => "R"@,
    }
}

/// The opcode suffix of an arithmetic operation.
pub open spec fn binop_suffix(op: BinaryOp) -> Seq<char> {
    match op {
        BinaryOp::Add => "ADD"@,
        BinaryOp::Sub => "SUB"@,
        BinaryOp::Mul => "MLT"@,
        BinaryOp::Div => "DIV"@,
    }
}

/// The opcode suffix of a strict comparison. `<=` and `>=` have no opcode
/// of their own and are never emitted: see [`crate::boolexpr::relop_model`].
pub open spec fn relop_suffix(op: RelOp) -> Seq<char> {
    match op {
        RelOp::Eq => "EQL"@,
        RelOp::NotEq => "NQL"@,
        RelOp::Less => "LSS"@,
        _ => "GRT"@,
    }
}

/// The conversion instruction into `ty`.
pub open spec fn cast_text(ty: VarType, dst: RefView, src: RefView) -> Seq<char> {
    line3(
        match ty {
            VarType::Int => "RTOI"@,
            VarType::Float => "ITOR"@,
        },
        ref_text(dst),
        ref_text(src),
    )
}

/// The arithmetic instruction `dst = a op b` at type `ty`.
pub open spec fn bin_op_text(ty: VarType, op: BinaryOp, dst: RefView, a: RefView, b: RefView) -> Seq<
    char,
> {
    line4(type_prefix(ty) + binop_suffix(op), ref_text(dst), ref_text(a), ref_text(b))
}

/// The comparison instruction `dst = a op b` at type `ty`.
pub open spec fn relop_text(ty: VarType, op: RelOp, dst: RefView, a: RefView, b: RefView) -> Seq<
    char,
> {
    line4(type_prefix(ty) + relop_suffix(op), ref_text(dst), ref_text(a), ref_text(b))
}

/// The declaration of a label.
pub open spec fn label_decl_text(label: nat) -> Seq<char> {
    label_name(label) + ":\n"@
}

/// The unconditional jump to a label.
pub open spec fn jump_text(label: nat) -> Seq<char> {
    line2("JUMP"@, label_name(label))
}

/// The jump to a label that is taken when the value is zero.
pub open spec fn jump_if_false_text(label: nat, value: RefView) -> Seq<char> {
    line3("JMPZ"@, label_name(label), ref_text(value))
}

/// The place of `name` in the table, if it is registered.
pub open spec fn position(vars: Seq<(Seq<char>, VarType)>, name: Seq<char>) -> Option<int>
    decreases vars.len(),
{
    if vars.len() == 0 {
        None
    } else {
        match position(vars.drop_last(), name) {
            Some(i) => Some(i),
            None => if vars.last().0 == name {
                Some(vars.len() - 1)
            } else {
                None
            },
        }
    }
}

/// The declared type of `name`, if it is registered.
pub open spec fn lookup(vars: Seq<(Seq<char>, VarType)>, name: Seq<char>) -> Option<VarType> {
    match position(vars, name) {
        Some(i) => Some(vars[i].1),
        None => None,
    }
}

/// The table after `name` was registered at type `ty`: a name that is
/// there gets the new type in its place, a new name goes to the end.
pub open spec fn register(vars: Seq<(Seq<char>, VarType)>, name: Seq<char>, ty: VarType) -> Seq<
    (Seq<char>, VarType),
> {
    match position(vars, name) {
        Some(i) => vars.update(i, (name, ty)),
        None => vars.push((name, ty)),
    }
}

/// No name stands twice in the table.
pub open spec fn distinct_names(vars: Seq<(Seq<char>, VarType)>) -> bool {
    forall|i: int, j: int| 0 <= i < j < vars.len() ==> (#[trigger] vars[i]).0 != (#[trigger] vars[j]).0
}

/// Registration keeps the names of the table distinct.
pub proof fn lemma_register_keeps_distinct(
    vars: Seq<(Seq<char>, VarType)>,
    name: Seq<char>,
    ty: VarType,
)
    requires
        distinct_names(vars),
    ensures
        distinct_names(register(vars, name, ty)),
{
    lemma_position_holds(vars, name);
    let after = register(vars, name, ty);
    assert forall|i: int, j: int| 0 <= i < j < after.len() implies (#[trigger] after[i]).0 != (
    #[trigger] after[j]).0 by {
        match position(vars, name) {
            Some(k) => {
                assert(after[i].0 == vars[i].0);
                assert(after[j].0 == vars[j].0);
            },
            None => {
                if j < vars.len() {
                    assert(after[i] == vars[i] && after[j] == vars[j]);
                } else {
                    assert(after[i] == vars[i]);
                }
            },
        }
    }
}

/// The registered names, in the order of the table.
pub open spec fn names(vars: Seq<(Seq<char>, VarType)>) -> Seq<Seq<char>> {
    Seq::new(vars.len(), |i: int| vars[i].0)
}

/// What a lookup of `name` gives: its type, or the error that lists every
/// registered name.
pub open spec fn var_type_of(vars: Seq<(Seq<char>, VarType)>, name: Seq<char>) -> Result<
    VarType,
    CodeGenErrorView,
> {
    match lookup(vars, name) {
        Some(ty) => Ok(ty),
        None => Err(
            CodeGenErrorView::UndeclaredVariable { varname: name, all_variables: names(vars) },
        ),
    }
}

/// A place in the table holds the name that was looked for, and no
/// earlier place does.
pub proof fn lemma_position_holds(vars: Seq<(Seq<char>, VarType)>, name: Seq<char>)
    ensures
        match position(vars, name) {
            Some(i) => 0 <= i < vars.len() && vars[i].0 == name && forall|j: int|
                0 <= j < i ==> (#[trigger] vars[j]).0 != name,
            None => forall|j: int| 0 <= j < vars.len() ==> (#[trigger] vars[j]).0 != name,
        },
    decreases vars.len(),
{
    if vars.len() > 0 {
        lemma_position_holds(vars.drop_last(), name);
        assert(forall|j: int|
            0 <= j < vars.len() - 1 ==> vars.drop_last()[j] == #[trigger] vars[j]);
    }
}

/// The first place that holds the name is its place in the table.
pub proof fn lemma_position_first(vars: Seq<(Seq<char>, VarType)>, name: Seq<char>, i: int)
    requires
        0 <= i < vars.len(),
        vars[i].0 == name,
        forall|j: int| 0 <= j < i ==> (#[trigger] vars[j]).0 != name,
    ensures
        position(vars, name) == Some(i),
{
    lemma_position_holds(vars, name);
}

/// Registration is an upsert: the name then has the new type, and every
/// other name keeps what it had.
pub proof fn lemma_register_lookup(
    vars: Seq<(Seq<char>, VarType)>,
    name: Seq<char>,
    ty: VarType,
    other: Seq<char>,
)
    ensures
        lookup(register(vars, name, ty), name) == Some(ty),
        other != name ==> lookup(register(vars, name, ty), other) == lookup(vars, other),
{
    let after = register(vars, name, ty);
    lemma_position_holds(vars, name);
    lemma_position_holds(vars, other);
    match position(vars, name) {
        Some(i) => {
            lemma_position_first(after, name, i);
            if other != name {
                match position(vars, other) {
                    Some(k) => {
                        lemma_position_first(after, other, k);
                    },
                    None => {
                        lemma_position_holds(after, other);
                    },
                }
            }
        },
        None => {
            lemma_position_first(after, name, vars.len() as int);
            if other != name {
                match position(vars, other) {
                    Some(k) => {
                        lemma_position_first(after, other, k);
                    },
                    None => {
                        lemma_position_holds(after, other);
                    },
                }
            }
        },
    }
}

/// Promotion is commutative; two integers give an integer, and a float on
/// either side gives a float.
pub proof fn lemma_combine_commutes(a: VarType, b: VarType)
    ensures
        a.spec_combine(b) == b.spec_combine(a),
        VarType::Int.spec_combine(VarType::Int) == VarType::Int,
        a == VarType::Float || b == VarType::Float ==> a.spec_combine(b) == VarType::Float,
{
}

/// Builds an instruction with one operand.
pub fn emit2(op: &str, a: &str) -> (r: String)
    ensures
        r@ == line2(op@, a@),
{
    let mut out = String::from_str(op);
    out.append(" ");
    out.append(a);
    out.append("\n");
    out
}

/// Builds an instruction with two operands.
pub fn emit3(op: &str, a: &str, b: &str) -> (r: String)
    ensures
        r@ == line3(op@, a@, b@),
{
    let mut out = String::from_str(op);
    out.append(" ");
    out.append(a);
    out.append(" ");
    out.append(b);
    out.append("\n");
    out
}

/// Builds an instruction with three operands.
pub fn emit4(op: &str, a: &str, b: &str, c: &str) -> (r: String)
    ensures
        r@ == line4(op@, a@, b@, c@),
{
    let mut out = String::from_str(op);
    out.append(" ");
    out.append(a);
    out.append(" ");
    out.append(b);
    out.append(" ");
    out.append(c);
    out.append("\n");
    out
}

impl Clone for CodeReference {
    fn clone(&self) -> (r: Self)
        ensures
            r@ == self@,
    {
        match self {
            CodeReference::IntLiteral(i) => CodeReference::IntLiteral(*i),
            CodeReference::FloatLiteral(s) => CodeReference::FloatLiteral(s.clone()),
            CodeReference::VarName(s) => CodeReference::VarName(s.clone()),
        }
    }
}

impl CodeReference {
    /// The text that denotes the value in the emitted code.
    pub fn render(&self) -> (r: String)
        ensures
            r@ == ref_text(self@),
    {
        match self {
            CodeReference::IntLiteral(i) => int_string(*i),
            CodeReference::FloatLiteral(s) => s.clone(),
            CodeReference::VarName(s) => s.clone(),
        }
    }
}

impl Label {
    /// The number of the label.
    pub fn id(&self) -> (r: usize)
        ensures
            r == self@,
    {
        self.id
    }
}

impl VarType {
    /// The type of the result of an operation on operands of the two types.
    pub open spec fn spec_combine(self, other: Self) -> Self {
        match (self, other) {
            (VarType::Int, VarType::Int) => VarType::Int,
            _ => VarType::Float,
        }
    }

    /// The type of the result of an operation on operands of the two
    /// types: an integer for two integers, a float otherwise.
    pub fn combine(self, other: Self) -> (r: Self)
        ensures
            r == self.spec_combine(other),
            r == other.spec_combine(self),
            r == VarType::Int <==> (self == VarType::Int && other == VarType::Int),
    {
        match (self, other) {
            (VarType::Int, VarType::Int) => VarType::Int,
            _ => VarType::Float,
        }
    }

    /// The name of the type as the source language writes it.
    pub open spec fn spec_as_str(self) -> Seq<char> {
        match self {
            VarType::Float => "float"@,
            VarType::Int => "int"@,
        }
    }

    /// The name of the type as the source language writes it.
    pub fn as_str(&self) -> (r: &'static str)
        ensures
            r@ == self.spec_as_str(),
    {
        match self {
            VarType::Float => "float",
            VarType::Int => "int",
        }
    }
}

impl CodeGenerator {
    /// Every generator holds each registered name once.
    #[verifier::type_invariant]
    closed spec fn names_are_distinct(&self) -> bool {
        distinct_names(self@.vars)
    }

    /// A generator that has handed out nothing and knows no variable.
    pub fn new() -> (r: Self)
        ensures
            r@ == (GenView { labels: 0, temps: 0, vars: Seq::empty() }),
            distinct_names(r@.vars),
    {
        let r = CodeGenerator { labels: 0, tmp_variables: 0, var_types: Vec::new() };
        assert(r@.vars =~= Seq::empty());
        r
    }

    /// The number of temporaries handed out so far.
    pub fn temp_count(&self) -> (r: usize)
        ensures
            r == self@.temps,
    {
        self.tmp_variables
    }

    /// The number of labels handed out so far.
    pub fn label_count(&self) -> (r: usize)
        ensures
            r == self@.labels,
    {
        self.labels
    }

    fn find(&self, var_name: &str) -> (r: Option<usize>)
        ensures
            match r {
                Some(i) => position(self@.vars, var_name@) == Some(i as int) && i
                    < self.var_types@.len(),
                None => position(self@.vars, var_name@) is None,
            },
    {
        let n: usize = self.var_types.len();
        let mut i: usize = 0;
        while i < n
            invariant
                i <= n,
                n == self.var_types@.len(),
                forall|j: int| 0 <= j < i ==> (#[trigger] self@.vars[j]).0 != var_name@,
            decreases n - i,
        {
            if str_eq(self.var_types[i].0.as_str(), var_name) {
                proof {
                    lemma_position_first(self@.vars, var_name@, i as int);
                }
                return Some(i);
            }
            i = i + 1;
        }
        proof {
            lemma_position_holds(self@.vars, var_name@);
        }
        None
    }

    fn all_names(&self) -> (r: Vec<String>)
        ensures
            r.deep_view() == names(self@.vars),
    {
        let n: usize = self.var_types.len();
        let mut out: Vec<String> = Vec::new();
        let mut i: usize = 0;
        while i < n
            invariant
                i <= n,
                n == self.var_types@.len(),
                out@.len() == i,
                forall|j: int| 0 <= j < i ==> (#[trigger] out@[j])@ == self@.vars[j].0,
            decreases n - i,
        {
            out.push(self.var_types[i].0.clone());
            i = i + 1;
        }
        assert(out.deep_view() =~= names(self@.vars));
        out
    }

    /// The declared type of a registered variable; for any other name the
    /// error that lists all registered names.
    pub fn get_var_type(&self, var_name: &str) -> (r: Result<VarType, CodeGenErrorKind>)
        ensures
            distinct_names(self@.vars),
            r is Ok <==> lookup(self@.vars, var_name@) is Some,
            match r {
                Ok(ty) => Ok(ty),
                Err(e) => Err(e@),
            } == var_type_of(self@.vars, var_name@),
    {
        proof {
            use_type_invariant(self);
        }
        match self.find(var_name) {
            Some(i) => Ok(self.var_types[i].1),
            None => Err(CodeGenErrorKind::undefined_variable(var_name, self.all_names())),
        }
    }

    /// Registers a variable at the given type. A name that is registered
    /// already gets the new type.
    pub fn register_variable(&mut self, var_name: &str, ty: VarType)
        ensures
            distinct_names(final(self)@.vars),
            final(self)@ == (GenView {
                vars: register(old(self)@.vars, var_name@, ty),
                ..old(self)@
            }),
    {
        proof {
            use_type_invariant(&*self);
            lemma_register_keeps_distinct(self@.vars, var_name@, ty);
        }
        let found = self.find(var_name);
        let ghost before = self@.vars;
        let mut table: Vec<(String, VarType)> = Vec::new();
        core::mem::swap(&mut self.var_types, &mut table);
        match found {
            Some(i) => {
                table[i] = (String::from_str(var_name), ty);
            },
            None => {
                table.push((String::from_str(var_name), ty));
            },
        }
        proof {
            let after = Seq::new(table@.len(), |i: int| (table@[i].0@, table@[i].1));
            assert(after =~= register(before, var_name@, ty));
        }
        core::mem::swap(&mut self.var_types, &mut table);
        assert(self@.vars =~= register(before, var_name@, ty));
    }

    /// Hands out the next temporary, `_t` and its number, and registers it
    /// at the given type.
    pub fn new_tmp_var(&mut self, ty: VarType) -> (r: CodeReference)
        requires
            old(self)@.temps < usize::MAX,
        ensures
            r@ == RefView::VarName(temp_name(old(self)@.temps)),
            distinct_names(final(self)@.vars),
            final(self)@ == (GenView {
                temps: old(self)@.temps + 1,
                vars: register(old(self)@.vars, temp_name(old(self)@.temps), ty),
                ..old(self)@
            }),
    {
        let mut tmp_var_name = String::from_str("_t");
        let number = decimal_string(self.tmp_variables);
        tmp_var_name.append(number.as_str());
        proof {
            use_type_invariant(&*self);
        }
        self.tmp_variables += 1;
        self.register_variable(tmp_var_name.as_str(), ty);
        CodeReference::VarName(tmp_var_name)
    }

    /// The instruction that converts `b` into type `ty` and stores it in `a`.
    pub fn gen_cast_stmt(&self, ty: VarType, a: &CodeReference, b: &CodeReference) -> (r: String)
        ensures
            r@ == cast_text(ty, a@, b@),
    {
        let dst = a.render();
        let src = b.render();
        match ty {
            VarType::Int => emit3("RTOI", dst.as_str(), src.as_str()),
            VarType::Float => emit3("ITOR", dst.as_str(), src.as_str()),
        }
    }

    /// The arithmetic instruction that stores `b binop c` in `a`.
    pub fn bin_op(
        &self,
        ty: VarType,
        binop: BinaryOp,
        a: &CodeReference,
        b: &CodeReference,
        c: &CodeReference,
    ) -> (r: String)
        ensures
            r@ == bin_op_text(ty, binop, a@, b@, c@),
    {
        let mut op = String::new();
        match ty {
            VarType::Int => {
                op.append("I");
            },
            VarType::Float => {
                op.append("R");
            },
        }
        match binop {
            BinaryOp::Sub => op.append("SUB"),
            BinaryOp::Div => op.append("DIV"),
            BinaryOp::Mul => op.append("MLT"),
            BinaryOp::Add => op.append("ADD"),
        };
        assert(op@ =~= type_prefix(ty) + binop_suffix(binop));
        let dst = a.render();
        let left = b.render();
        let right = c.render();
        emit4(op.as_str(), dst.as_str(), left.as_str(), right.as_str())
    }

    /// The comparison instruction that stores in `a` zero where `b relop c`
    /// is false and a positive number where it is true. Only the four
    /// strict comparisons have an instruction.
    pub fn relop(
        &self,
        ty: VarType,
        relop: RelOp,
        a: &CodeReference,
        b: &CodeReference,
        c: &CodeReference,
    ) -> (r: String)
        requires
            relop.is_strict(),
        ensures
            r@ == relop_text(ty, relop, a@, b@, c@),
    {
        let mut op = String::new();
        match ty {
            VarType::Int => {
                op.append("I");
            },
            VarType::Float => {
                op.append("R");
            },
        }
        match relop {
            RelOp::Eq => op.append("EQL"),
            RelOp::NotEq => op.append("NQL"),
            RelOp::Less => op.append("LSS"),
            _ => op.append("GRT"),
        }
        assert(op@ =~= type_prefix(ty) + relop_suffix(relop));
        let dst = a.render();
        let left = b.render();
        let right = c.render();
        emit4(op.as_str(), dst.as_str(), left.as_str(), right.as_str())
    }

    /// The code of an output statement: the code of the expression, then
    /// the print instruction for the type of the value.
    pub fn gen_output_stmt(&mut self, expr: Expression) -> (r: Result<String, CodeGenErrorKind>)
        ensures
            *final(self) == *old(self),
            match r {
                Ok(s) => Ok(s@),
                Err(e) => Err(e@),
            } == output_stmt_text(old(self)@.vars, expr@),
    {
        let mut output = String::new();
        output.append(expr.code_generated.as_str());
        let operand = expr.code_ref.render();
        let line = match &expr.code_ref {
            CodeReference::FloatLiteral(_) => emit2("RPRT", operand.as_str()),
            CodeReference::IntLiteral(_) => emit2("IPRT", operand.as_str()),
            CodeReference::VarName(var_name) => {
                match self.get_var_type(var_name.as_str()) {
                    Err(e) => {
                        return Err(e);
                    },
                    Ok(VarType::Int) => emit2("IPRT", operand.as_str()),
                    Ok(VarType::Float) => emit2("RPRT", operand.as_str()),
                }
            },
        };
        output.append(line.as_str());
        assert(output@ =~= expr@.code + line@);
        Ok(output)
    }

    /// The code of an input statement into a registered variable.
    pub fn gen_input_stmt(&mut self, var_name: &str) -> (r: Result<String, CodeGenErrorKind>)
        ensures
            *final(self) == *old(self),
            match r {
                Ok(s) => Ok(s@),
                Err(e) => Err(e@),
            } == input_stmt_text(old(self)@.vars, var_name@),
    {
        match self.get_var_type(var_name) {
            Err(e) => Err(e),
            Ok(VarType::Int) => Ok(emit2("IINP", var_name)),
            Ok(VarType::Float) => Ok(emit2("RINP", var_name)),
        }
    }

    /// The code of an assignment: the code of the expression, then the
    /// store. The expression must have the variable's declared type.
    pub fn gen_assignment_stmt(&mut self, var_name: &str, expr: Expression) -> (r: Result<
        String,
        CodeGenErrorKind,
    >)
        ensures
            *final(self) == *old(self),
            match r {
                Ok(s) => Ok(s@),
                Err(e) => Err(e@),
            } == assignment_stmt_text(old(self)@.vars, var_name@, expr@),
    {
        let var_type = match self.get_var_type(var_name) {
            Err(e) => {
                return Err(e);
            },
            Ok(t) => t,
        };
        if expr.ty != var_type {
            return Err(
                CodeGenErrorKind::type_mismtach(
                    CodeReference::VarName(String::from_str(var_name)),
                    var_type,
                    expr.code_ref,
                    expr.ty,
                ),
            );
        }
        let mut output = String::new();
        output.append(expr.code_generated.as_str());
        let operand = expr.code_ref.render();
        let line = match var_type {
            VarType::Int => emit3("IASN", var_name, operand.as_str()),
            VarType::Float => emit3("RASN", var_name, operand.as_str()),
        };
        output.append(line.as_str());
        assert(output@ =~= expr@.code + line@);
        Ok(output)
    }

    /// Hands out the next label.
    pub fn new_label(&mut self) -> (r: Label)
        requires
            old(self)@.labels < usize::MAX,
        ensures
            r@ == old(self)@.labels,
            final(self)@ == (GenView { labels: old(self)@.labels + 1, ..old(self)@ }),
    {
        proof {
            use_type_invariant(&*self);
        }
        self.labels += 1;
        Label { id: self.labels - 1 }
    }

    /// The declaration of a label.
    pub fn gen_label_decleration(&self, label: Label) -> (r: String)
        ensures
            r@ == label_decl_text(label@),
    {
        let mut out = String::from_str("L");
        let number = decimal_string(label.id);
        out.append(number.as_str());
        out.append(":\n");
        out
    }

    /// The unconditional jump to a label.
    pub fn gen_jump_to_label(&self, label: Label) -> (r: String)
        ensures
            r@ == jump_text(label@),
    {
        let mut target = String::from_str("L");
        let number = decimal_string(label.id);
        target.append(number.as_str());
        emit2("JUMP", target.as_str())
    }

    /// The jump to a label that is taken when the boolean value is zero.
    pub fn gen_jump_if_false(&self, label: Label, boolexpr: BoolExpr) -> (r: String)
        ensures
            r@ == jump_if_false_text(label@, boolexpr@.code_ref),
    {
        let mut target = String::from_str("L");
        let number = decimal_string(label.id);
        target.append(number.as_str());
        let operand = boolexpr.code_ref.render();
        emit3("JMPZ", target.as_str(), operand.as_str())
    }
}

/// The type that decides the print instruction: that of the literal, or
/// the declared type of the variable.
pub open spec fn value_type(vars: Seq<(Seq<char>, VarType)>, r: RefView) -> Result<
    VarType,
    CodeGenErrorView,
> {
    match r {
        RefView::IntLiteral(_) => Ok(VarType::Int),
        RefView::FloatLiteral(_) => Ok(VarType::Float),
        RefView::VarName(name) => var_type_of(vars, name),
    }
}

/// The code of an output statement.
pub open spec fn output_stmt_text(
    vars: Seq<(Seq<char>, VarType)>,
    expr: ExprView,
) -> Result<Seq<char>, CodeGenErrorView> {
    match value_type(vars, expr.code_ref) {
        Ok(VarType::Int) => Ok(expr.code + line2("IPRT"@, ref_text(expr.code_ref))),
        Ok(VarType::Float) => Ok(expr.code + line2("RPRT"@, ref_text(expr.code_ref))),
        Err(e) => Err(e),
    }
}

/// The code of an input statement.
pub open spec fn input_stmt_text(vars: Seq<(Seq<char>, VarType)>, name: Seq<char>) -> Result<
    Seq<char>,
    CodeGenErrorView,
> {
    match var_type_of(vars, name) {
        Ok(VarType::Int) => Ok(line2("IINP"@, name)),
        Ok(VarType::Float) => Ok(line2("RINP"@, name)),
        Err(e) => Err(e),
    }
}

/// The code of an assignment, or the error where the variable is not
/// registered or the types differ.
pub open spec fn assignment_stmt_text(
    vars: Seq<(Seq<char>, VarType)>,
    name: Seq<char>,
    expr: ExprView,
) -> Result<Seq<char>, CodeGenErrorView> {
    match var_type_of(vars, name) {
        Err(e) => Err(e),
        Ok(var_type) => if expr.ty != var_type {
            Err(
                CodeGenErrorView::TypeMismatchInAssignment {
                    expected_ref: RefView::VarName(name),
                    expected_type: var_type,
                    found_ref: expr.code_ref,
                    found_type: expr.ty,
                },
            )
        } else {
            Ok(
                expr.code + line3(
                    match var_type {
                        VarType::Int => "IASN"@,
                        VarType::Float => "RASN"@,
                    },
                    name,
                    ref_text(expr.code_ref),
                ),
            )
        },
    }
}

} // verus!
