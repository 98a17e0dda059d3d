//! The surface syntax tree: entity-indexed stores for expressions,
//! statements, fields and scopes, and a builder the grammar driver calls to
//! put nodes in them.

use vstd::prelude::*;

use crate::lex::numeral::Numeral;
use crate::string_pool::StringRef;

verus! {

/// A typed dense-integer handle into the syntax tree's `assignment_targets` store.
#[derive(Clone, Copy, Debug, PartialEq, Eq, Structural, Hash, PartialOrd, Ord)]
pub struct AssignmentTargetRef(pub u32);

/// A typed dense-integer handle into the syntax tree's `blocks` store.
#[derive(Clone, Copy, Debug, PartialEq, Eq, Structural, Hash, PartialOrd, Ord)]
pub struct BlockRef(pub u32);

/// A typed dense-integer handle into the syntax tree's `expressions` store.
#[derive(Clone, Copy, Debug, PartialEq, Eq, Structural, Hash, PartialOrd, Ord)]
pub struct ExpressionRef(pub u32);

/// A typed dense-integer handle into the syntax tree's `fields` store.
#[derive(Clone, Copy, Debug, PartialEq, Eq, Structural, Hash, PartialOrd, Ord)]
pub struct FieldRef(pub u32);

/// A typed dense-integer handle into the syntax tree's `functions` store.
#[derive(Clone, Copy, Debug, PartialEq, Eq, Structural, Hash, PartialOrd, Ord)]
pub struct FunctionRef(pub u32);

/// A typed dense-integer handle into the syntax tree's `generic_for_loops` store.
#[derive(Clone, Copy, Debug, PartialEq, Eq, Structural, Hash, PartialOrd, Ord)]
pub struct GenericForLoopRef(pub u32);

/// A typed dense-integer handle into the syntax tree's `labels` store.
#[derive(Clone, Copy, Debug, PartialEq, Eq, Structural, Hash, PartialOrd, Ord)]
pub struct LabelRef(pub u32);

/// A typed dense-integer handle into the syntax tree's `locals` store.
#[derive(Clone, Copy, Debug, PartialEq, Eq, Structural, Hash, PartialOrd, Ord)]
pub struct LocalRef(pub u32);

/// A typed dense-integer handle into the syntax tree's `numerical_for_loops` store.
#[derive(Clone, Copy, Debug, PartialEq, Eq, Structural, Hash, PartialOrd, Ord)]
pub struct NumericalForLoopRef(pub u32);

/// A typed dense-integer handle into the syntax tree's `statements` store.
#[derive(Clone, Copy, Debug, PartialEq, Eq, Structural, Hash, PartialOrd, Ord)]
pub struct StatementRef(pub u32);

/// A place an assignment writes to.
#[derive(Clone, Copy, Debug)]
pub enum AssignmentTarget {
    Local(LocalRef),
    Newindex(ExpressionRef, ExpressionRef),
}

/// A run of statements with its own scope of locals; `locals` names the
/// scope's slot in the map forest the driving parser keeps.
#[derive(Clone, Debug)]
pub struct Block {
    pub parent: Option<BlockRef>,
    pub locals: usize,
    pub statements: Vec<StatementRef>,
    pub returns: Option<Vec<ExpressionRef>>,
}

/// One expression node of the tree.
#[derive(Clone, Debug)]
pub enum Expression {
    Add(ExpressionRef, ExpressionRef),
    And(ExpressionRef, ExpressionRef),
    Band(ExpressionRef, ExpressionRef),
    Bnot(ExpressionRef),
    Bor(ExpressionRef, ExpressionRef),
    Bxor(ExpressionRef, ExpressionRef),
    Call(ExpressionRef, Option<StringRef>, Vec<ExpressionRef>),
    Concat(ExpressionRef, ExpressionRef),
    Div(ExpressionRef, ExpressionRef),
    Ellipses(FunctionRef),
    Eq(ExpressionRef, ExpressionRef),
    False,
    Float(u64),
    Function(FunctionRef),
    Ge(ExpressionRef, ExpressionRef),
    Gt(ExpressionRef, ExpressionRef),
    Idiv(ExpressionRef, ExpressionRef),
    Index(ExpressionRef, ExpressionRef),
    Int(i64),
    Le(ExpressionRef, ExpressionRef),
    Len(ExpressionRef),
    Local(LocalRef),
    Lt(ExpressionRef, ExpressionRef),
    Mod(ExpressionRef, ExpressionRef),
    Mul(ExpressionRef, ExpressionRef),
    Ne(ExpressionRef, ExpressionRef),
    Nil,
    Not(ExpressionRef),
    Or(ExpressionRef, ExpressionRef),
    Pow(ExpressionRef, ExpressionRef),
    Scalarize(ExpressionRef),
    Shl(ExpressionRef, ExpressionRef),
    Shr(ExpressionRef, ExpressionRef),
    String(StringRef),
    Sub(ExpressionRef, ExpressionRef),
    Table(Vec<FieldRef>),
    True,
    Unm(ExpressionRef),
}

/// Does this expression stand for several values at once, so that
/// parenthesizing it must scalarize it?
pub open spec fn is_multi_value(e: Expression) -> bool {
    e is Call || e is Ellipses
}

impl Expression {
    /// Does this expression stand for several values at once?
    pub fn is_multi_value(&self) -> (r: bool)
        ensures
            r == is_multi_value(*self),
    {
        match self {
            Expression::Call(_, _, _) | Expression::Ellipses(_) => true,
            _ => false,
        }
    }
}

/// One entry of a table constructor.
#[derive(Clone, Copy, Debug)]
pub enum Field {
    Keyed(ExpressionRef, ExpressionRef),
    Ordinal(ExpressionRef),
}

/// A function literal.
#[derive(Clone, Copy, Debug)]
pub struct Function {
    pub body: BlockRef,
}

/// A generic for loop: variables bound from an iterator expression list.
#[derive(Clone, Debug)]
pub struct GenericForLoop {
    pub vars: Vec<LocalRef>,
    pub iterator: Vec<ExpressionRef>,
    pub body: BlockRef,
}

/// A goto label.
#[derive(Clone, Copy, Debug)]
pub struct Label {
    pub name: StringRef,
}

/// A declared local, with its optional attribute.
#[derive(Clone, Copy, Debug)]
pub struct Local {
    pub name: StringRef,
    pub attribute: Option<StringRef>,
}

/// A numerical for loop: start, stop and optional step.
#[derive(Clone, Copy, Debug)]
pub struct NumericalForLoop {
    pub var: LocalRef,
    pub start: ExpressionRef,
    pub stop: ExpressionRef,
    pub step: Option<ExpressionRef>,
    pub body: BlockRef,
}

/// One statement node of the tree.
#[derive(Clone, Debug)]
pub enum Statement {
    Assign(Vec<AssignmentTargetRef>, Vec<ExpressionRef>),
    Break,
    Expression(ExpressionRef),
    Do(BlockRef),
    GenericForLoop(GenericForLoopRef),
    Goto(StringRef),
    If(Vec<ExpressionRef>, Vec<BlockRef>),
    Label(StringRef),
    DeclareLocal(LocalRef),
    NumericalForLoop(NumericalForLoopRef),
    RepeatUntil(BlockRef, ExpressionRef),
    While(ExpressionRef, BlockRef),
}

/// Owns every node of one surface syntax tree, addressed by dense typed
/// indices and cleared as a whole between compilations.
pub struct Ast {
    assignment_targets: Vec<AssignmentTarget>,
    blocks: Vec<Block>,
    expressions: Vec<Expression>,
    fields: Vec<Field>,
    functions: Vec<Function>,
    generic_for_loops: Vec<GenericForLoop>,
    labels: Vec<Label>,
    locals: Vec<Local>,
    numerical_for_loops: Vec<NumericalForLoop>,
    statements: Vec<Statement>,
}

impl Ast {
    /// The `assignment_targets` store, in creation order.
    pub closed spec fn assignment_targets_seq(self) -> Seq<AssignmentTarget> {
        self.assignment_targets@
    }

    /// The `blocks` store, in creation order.
    pub closed spec fn blocks_seq(self) -> Seq<Block> {
        self.blocks@
    }

    /// The `expressions` store, in creation order.
    pub closed spec fn expressions_seq(self) -> Seq<Expression> {
        self.expressions@
    }

    /// The `fields` store, in creation order.
    pub closed spec fn fields_seq(self) -> Seq<Field> {
        self.fields@
    }

    /// The `functions` store, in creation order.
    pub closed spec fn functions_seq(self) -> Seq<Function> {
        self.functions@
    }

    /// The `generic_for_loops` store, in creation order.
    pub closed spec fn generic_for_loops_seq(self) -> Seq<GenericForLoop> {
        self.generic_for_loops@
    }

    /// The `labels` store, in creation order.
    pub closed spec fn labels_seq(self) -> Seq<Label> {
        self.labels@
    }

    /// The `locals` store, in creation order.
    pub closed spec fn locals_seq(self) -> Seq<Local> {
        self.locals@
    }

    /// The `numerical_for_loops` store, in creation order.
    pub closed spec fn numerical_for_loops_seq(self) -> Seq<NumericalForLoop> {
        self.numerical_for_loops@
    }

    /// The `statements` store, in creation order.
    pub closed spec fn statements_seq(self) -> Seq<Statement> {
        self.statements@
    }

    /// An empty tree.
    pub fn new() -> (r: Self)
        ensures
            r.assignment_targets_seq() =~= Seq::<AssignmentTarget>::empty(),
            r.blocks_seq() =~= Seq::<Block>::empty(),
            r.expressions_seq() =~= Seq::<Expression>::empty(),
            r.fields_seq() =~= Seq::<Field>::empty(),
            r.functions_seq() =~= Seq::<Function>::empty(),
            r.generic_for_loops_seq() =~= Seq::<GenericForLoop>::empty(),
            r.labels_seq() =~= Seq::<Label>::empty(),
            r.locals_seq() =~= Seq::<Local>::empty(),
            r.numerical_for_loops_seq() =~= Seq::<NumericalForLoop>::empty(),
            r.statements_seq() =~= Seq::<Statement>::empty(),
    {
        Ast {
            assignment_targets: Vec::new(),
            blocks: Vec::new(),
            expressions: Vec::new(),
            fields: Vec::new(),
            functions: Vec::new(),
            generic_for_loops: Vec::new(),
            labels: Vec::new(),
            locals: Vec::new(),
            numerical_for_loops: Vec::new(),
            statements: Vec::new(),
        }
    }

    /// Forgets every node at once, returning the tree to its freshly-made
    /// state.
    pub fn clear(&mut self)
        ensures
            final(self).assignment_targets_seq() =~= Seq::<AssignmentTarget>::empty(),
            final(self).blocks_seq() =~= Seq::<Block>::empty(),
            final(self).expressions_seq() =~= Seq::<Expression>::empty(),
            final(self).fields_seq() =~= Seq::<Field>::empty(),
            final(self).functions_seq() =~= Seq::<Function>::empty(),
            final(self).generic_for_loops_seq() =~= Seq::<GenericForLoop>::empty(),
            final(self).labels_seq() =~= Seq::<Label>::empty(),
            final(self).locals_seq() =~= Seq::<Local>::empty(),
            final(self).numerical_for_loops_seq() =~= Seq::<NumericalForLoop>::empty(),
            final(self).statements_seq() =~= Seq::<Statement>::empty(),
    {
        *self = Ast::new();
    }

    /// The node behind a reference.
    pub fn assignment_target(&self, r: AssignmentTargetRef) -> (v: &AssignmentTarget)
        requires
            r.0 < self.assignment_targets_seq().len(),
        ensures
            *v == self.assignment_targets_seq()[r.0 as int],
    {
        &self.assignment_targets[r.0 as usize]
    }

    /// The node behind a reference.
    pub fn block(&self, r: BlockRef) -> (v: &Block)
        requires
            r.0 < self.blocks_seq().len(),
        ensures
            *v == self.blocks_seq()[r.0 as int],
    {
        &self.blocks[r.0 as usize]
    }

    /// The node behind a reference.
    pub fn expression(&self, r: ExpressionRef) -> (v: &Expression)
        requires
            r.0 < self.expressions_seq().len(),
        ensures
            *v == self.expressions_seq()[r.0 as int],
    {
        &self.expressions[r.0 as usize]
    }

    /// The node behind a reference.
    pub fn field(&self, r: FieldRef) -> (v: &Field)
        requires
            r.0 < self.fields_seq().len(),
        ensures
            *v == self.fields_seq()[r.0 as int],
    {
        &self.fields[r.0 as usize]
    }

    /// The node behind a reference.
    pub fn function(&self, r: FunctionRef) -> (v: &Function)
        requires
            r.0 < self.functions_seq().len(),
        ensures
            *v == self.functions_seq()[r.0 as int],
    {
        &self.functions[r.0 as usize]
    }

    /// The node behind a reference.
    pub fn generic_for_loop(&self, r: GenericForLoopRef) -> (v: &GenericForLoop)
        requires
            r.0 < self.generic_for_loops_seq().len(),
        ensures
            *v == self.generic_for_loops_seq()[r.0 as int],
    {
        &self.generic_for_loops[r.0 as usize]
    }

    /// The node behind a reference.
    pub fn label(&self, r: LabelRef) -> (v: &Label)
        requires
            r.0 < self.labels_seq().len(),
        ensures
            *v == self.labels_seq()[r.0 as int],
    {
        &self.labels[r.0 as usize]
    }

    /// The node behind a reference.
    pub fn local(&self, r: LocalRef) -> (v: &Local)
        requires
            r.0 < self.locals_seq().len(),
        ensures
            *v == self.locals_seq()[r.0 as int],
    {
        &self.locals[r.0 as usize]
    }

    /// The node behind a reference.
    pub fn numerical_for_loop(&self, r: NumericalForLoopRef) -> (v: &NumericalForLoop)
        requires
            r.0 < self.numerical_for_loops_seq().len(),
        ensures
            *v == self.numerical_for_loops_seq()[r.0 as int],
    {
        &self.numerical_for_loops[r.0 as usize]
    }

    /// The node behind a reference.
    pub fn statement(&self, r: StatementRef) -> (v: &Statement)
        requires
            r.0 < self.statements_seq().len(),
        ensures
            *v == self.statements_seq()[r.0 as int],
    {
        &self.statements[r.0 as usize]
    }
}

/// Builds syntax-tree nodes as the grammar driver walks the surface text:
/// each method makes one node (or hands an existing one back) and yields its
/// reference.
pub struct Builder {
    ast: Ast,
    current_block: Option<BlockRef>,
}

impl Builder {
    /// The tree under construction.
    pub closed spec fn spec_ast(self) -> Ast {
        self.ast
    }

    /// The block statements are currently collected into.
    pub closed spec fn spec_current_block(self) -> Option<BlockRef> {
        self.current_block
    }

    /// A fresh builder over `ast`.
    pub fn new(ast: Ast) -> (r: Self)
        ensures
            r.spec_ast() == ast,
            r.spec_current_block() is None,
    {
        Builder { ast, current_block: None }
    }

    /// Gives up the builder, yielding the finished tree.
    pub fn into_ast(self) -> (r: Ast)
        ensures
            r == self.spec_ast(),
    {
        self.ast
    }

    /// A borrow of the tree under construction.
    pub fn ast(&self) -> (r: &Ast)
        ensures
            *r == self.spec_ast(),
    {
        &self.ast
    }

    /// Stores one expression node.
    fn expression(&mut self, node: Expression) -> (r: ExpressionRef)
        requires
            old(self).spec_ast().expressions_seq().len() < u32::MAX,
        ensures
            r.0 == old(self).spec_ast().expressions_seq().len(),
            final(self).spec_ast().expressions_seq() == old(self).spec_ast().expressions_seq().push(
                node,
            ),
            final(self).spec_ast().fields_seq() == old(self).spec_ast().fields_seq(),
            final(self).spec_current_block() == old(self).spec_current_block(),
    {
        let n = self.ast.expressions.len();
        self.ast.expressions.push(node);
        ExpressionRef(n as u32)
    }

    /// Stores one field node.
    fn field(&mut self, node: Field) -> (r: FieldRef)
        requires
            old(self).spec_ast().fields_seq().len() < u32::MAX,
        ensures
            r.0 == old(self).spec_ast().fields_seq().len(),
            final(self).spec_ast().fields_seq() == old(self).spec_ast().fields_seq().push(node),
            final(self).spec_ast().expressions_seq() == old(self).spec_ast().expressions_seq(),
            final(self).spec_current_block() == old(self).spec_current_block(),
    {
        let n = self.ast.fields.len();
        self.ast.fields.push(node);
        FieldRef(n as u32)
    }

    /// Appends an expression to a list under construction.
    pub fn expression_list(
        &self,
        list: Vec<ExpressionRef>,
        expression: ExpressionRef,
    ) -> (r: Vec<ExpressionRef>)
        ensures
            r@ == list@.push(expression),
    {
        let mut list = list;
        list.push(expression);
        list
    }

    /// Appends a field to a list under construction.
    pub fn field_list(&self, list: Vec<FieldRef>, field: FieldRef) -> (r: Vec<FieldRef>)
        ensures
            r@ == list@.push(field),
    {
        let mut list = list;
        list.push(field);
        list
    }

    /// Makes a string constant expression node.
    pub fn string(&mut self, contents: StringRef) -> (r: ExpressionRef)
        requires
            old(self).spec_ast().expressions_seq().len() < u32::MAX,
        ensures
            r.0 == old(self).spec_ast().expressions_seq().len(),
            final(self).spec_ast().expressions_seq() == old(self).spec_ast().expressions_seq().push(
                Expression::String(contents),
            ),
            final(self).spec_ast().fields_seq() == old(self).spec_ast().fields_seq(),
            final(self).spec_current_block() == old(self).spec_current_block(),
    {
        self.expression(Expression::String(contents))
    }

    /// Makes a numeral constant expression node.
    pub fn numeral(&mut self, value: Numeral) -> (r: ExpressionRef)
        requires
            old(self).spec_ast().expressions_seq().len() < u32::MAX,
        ensures
            r.0 == old(self).spec_ast().expressions_seq().len(),
            final(self).spec_ast().expressions_seq() == old(self).spec_ast().expressions_seq().push(
                match value {
                    Numeral::Int(v) => Expression::Int(v),
                    Numeral::Float(v) => Expression::Float(v),
                },
            ),
            final(self).spec_ast().fields_seq() == old(self).spec_ast().fields_seq(),
            final(self).spec_current_block() == old(self).spec_current_block(),
    {
        match value {
            Numeral::Int(v) => self.expression(Expression::Int(v)),
            Numeral::Float(v) => self.expression(Expression::Float(v)),
        }
    }

    /// Makes a table constructor expression node over its fields.
    pub fn table(&mut self, fields: Vec<FieldRef>) -> (r: ExpressionRef)
        requires
            old(self).spec_ast().expressions_seq().len() < u32::MAX,
        ensures
            r.0 == old(self).spec_ast().expressions_seq().len(),
            final(self).spec_ast().expressions_seq() == old(self).spec_ast().expressions_seq().push(
                Expression::Table(fields),
            ),
            final(self).spec_ast().fields_seq() == old(self).spec_ast().fields_seq(),
            final(self).spec_current_block() == old(self).spec_current_block(),
    {
        self.expression(Expression::Table(fields))
    }

    /// Makes a call expression node: a receiver, an optional method name,
    /// and the arguments.
    pub fn call(
        &mut self,
        receiver: ExpressionRef,
        method: Option<StringRef>,
        args: Vec<ExpressionRef>,
    ) -> (r: ExpressionRef)
        requires
            old(self).spec_ast().expressions_seq().len() < u32::MAX,
        ensures
            r.0 == old(self).spec_ast().expressions_seq().len(),
            final(self).spec_ast().expressions_seq() == old(self).spec_ast().expressions_seq().push(
                Expression::Call(receiver, method, args),
            ),
            final(self).spec_ast().fields_seq() == old(self).spec_ast().fields_seq(),
            final(self).spec_current_block() == old(self).spec_current_block(),
    {
        self.expression(Expression::Call(receiver, method, args))
    }

    /// Makes an index expression node.
    pub fn index(&mut self, table: ExpressionRef, key: ExpressionRef) -> (r: ExpressionRef)
        requires
            old(self).spec_ast().expressions_seq().len() < u32::MAX,
        ensures
            r.0 == old(self).spec_ast().expressions_seq().len(),
            final(self).spec_ast().expressions_seq() == old(self).spec_ast().expressions_seq().push(
                Expression::Index(table, key),
            ),
            final(self).spec_ast().fields_seq() == old(self).spec_ast().fields_seq(),
            final(self).spec_current_block() == old(self).spec_current_block(),
    {
        self.expression(Expression::Index(table, key))
    }

    /// Makes a member access: an index by the member's name as a string
    /// constant.
    pub fn member_expression(&mut self, table: ExpressionRef, name: StringRef) -> (r:
        ExpressionRef)
        requires
            old(self).spec_ast().expressions_seq().len() + 1 < u32::MAX,
        ensures
            r.0 == old(self).spec_ast().expressions_seq().len() + 1,
            final(self).spec_ast().expressions_seq() == old(self).spec_ast().expressions_seq().push(
                Expression::String(name),
            ).push(
                Expression::Index(
                    table,
                    ExpressionRef(old(self).spec_ast().expressions_seq().len() as u32),
                ),
            ),
            final(self).spec_ast().fields_seq() == old(self).spec_ast().fields_seq(),
            final(self).spec_current_block() == old(self).spec_current_block(),
    {
        let key = self.string(name);
        self.index(table, key)
    }

    /// Hands a parenthesized expression back: a multi-value expression is
    /// scalarized, anything else stands unchanged.
    pub fn parenthesized(&mut self, inner: ExpressionRef) -> (r: ExpressionRef)
        requires
            inner.0 < old(self).spec_ast().expressions_seq().len(),
            old(self).spec_ast().expressions_seq().len() < u32::MAX,
        ensures
            is_multi_value(old(self).spec_ast().expressions_seq()[inner.0 as int]) ==> {
                &&& r.0 == old(self).spec_ast().expressions_seq().len()
                &&& final(self).spec_ast().expressions_seq() == old(
                    self,
                ).spec_ast().expressions_seq().push(Expression::Scalarize(inner))
            },
            !is_multi_value(old(self).spec_ast().expressions_seq()[inner.0 as int]) ==> {
                &&& r == inner
                &&& final(self).spec_ast().expressions_seq() == old(
                    self,
                ).spec_ast().expressions_seq()
            },
            final(self).spec_ast().fields_seq() == old(self).spec_ast().fields_seq(),
            final(self).spec_current_block() == old(self).spec_current_block(),
    {
        if self.ast.expressions[inner.0 as usize].is_multi_value() {
            self.expression(Expression::Scalarize(inner))
        } else {
            inner
        }
    }

    /// Makes the `or` expression node over its two operands.
    pub fn or(&mut self, lhs: ExpressionRef, rhs: ExpressionRef) -> (r: ExpressionRef)
        requires
            old(self).spec_ast().expressions_seq().len() < u32::MAX,
        ensures
            r.0 == old(self).spec_ast().expressions_seq().len(),
            final(self).spec_ast().expressions_seq() == old(self).spec_ast().expressions_seq().push(
                Expression::Or(lhs, rhs),
            ),
            final(self).spec_ast().fields_seq() == old(self).spec_ast().fields_seq(),
            final(self).spec_current_block() == old(self).spec_current_block(),
    {
        self.expression(Expression::Or(lhs, rhs))
    }

    /// Makes the `and` expression node over its two operands.
    pub fn and(&mut self, lhs: ExpressionRef, rhs: ExpressionRef) -> (r: ExpressionRef)
        requires
            old(self).spec_ast().expressions_seq().len() < u32::MAX,
        ensures
            r.0 == old(self).spec_ast().expressions_seq().len(),
            final(self).spec_ast().expressions_seq() == old(self).spec_ast().expressions_seq().push(
                Expression::And(lhs, rhs),
            ),
            final(self).spec_ast().fields_seq() == old(self).spec_ast().fields_seq(),
            final(self).spec_current_block() == old(self).spec_current_block(),
    {
        self.expression(Expression::And(lhs, rhs))
    }

    /// Makes the `add` expression node over its two operands.
    pub fn add(&mut self, lhs: ExpressionRef, rhs: ExpressionRef) -> (r: ExpressionRef)
        requires
            old(self).spec_ast().expressions_seq().len() < u32::MAX,
        ensures
            r.0 == old(self).spec_ast().expressions_seq().len(),
            final(self).spec_ast().expressions_seq() == old(self).spec_ast().expressions_seq().push(
                Expression::Add(lhs, rhs),
            ),
            final(self).spec_ast().fields_seq() == old(self).spec_ast().fields_seq(),
            final(self).spec_current_block() == old(self).spec_current_block(),
    {
        self.expression(Expression::Add(lhs, rhs))
    }

    /// Makes the `sub` expression node over its two operands.
    pub fn sub(&mut self, lhs: ExpressionRef, rhs: ExpressionRef) -> (r: ExpressionRef)
        requires
            old(self).spec_ast().expressions_seq().len() < u32::MAX,
        ensures
            r.0 == old(self).spec_ast().expressions_seq().len(),
            final(self).spec_ast().expressions_seq() == old(self).spec_ast().expressions_seq().push(
                Expression::Sub(lhs, rhs),
            ),
            final(self).spec_ast().fields_seq() == old(self).spec_ast().fields_seq(),
            final(self).spec_current_block() == old(self).spec_current_block(),
    {
        self.expression(Expression::Sub(lhs, rhs))
    }

    /// Makes the `mul` expression node over its two operands.
    pub fn mul(&mut self, lhs: ExpressionRef, rhs: ExpressionRef) -> (r: ExpressionRef)
        requires
            old(self).spec_ast().expressions_seq().len() < u32::MAX,
        ensures
            r.0 == old(self).spec_ast().expressions_seq().len(),
            final(self).spec_ast().expressions_seq() == old(self).spec_ast().expressions_seq().push(
                Expression::Mul(lhs, rhs),
            ),
            final(self).spec_ast().fields_seq() == old(self).spec_ast().fields_seq(),
            final(self).spec_current_block() == old(self).spec_current_block(),
    {
        self.expression(Expression::Mul(lhs, rhs))
    }

    /// Makes the `div` expression node over its two operands.
    pub fn div(&mut self, lhs: ExpressionRef, rhs: ExpressionRef) -> (r: ExpressionRef)
        requires
            old(self).spec_ast().expressions_seq().len() < u32::MAX,
        ensures
            r.0 == old(self).spec_ast().expressions_seq().len(),
            final(self).spec_ast().expressions_seq() == old(self).spec_ast().expressions_seq().push(
                Expression::Div(lhs, rhs),
            ),
            final(self).spec_ast().fields_seq() == old(self).spec_ast().fields_seq(),
            final(self).spec_current_block() == old(self).spec_current_block(),
    {
        self.expression(Expression::Div(lhs, rhs))
    }

    /// Makes the `idiv` expression node over its two operands.
    pub fn idiv(&mut self, lhs: ExpressionRef, rhs: ExpressionRef) -> (r: ExpressionRef)
        requires
            old(self).spec_ast().expressions_seq().len() < u32::MAX,
        ensures
            r.0 == old(self).spec_ast().expressions_seq().len(),
            final(self).spec_ast().expressions_seq() == old(self).spec_ast().expressions_seq().push(
                Expression::Idiv(lhs, rhs),
            ),
            final(self).spec_ast().fields_seq() == old(self).spec_ast().fields_seq(),
            final(self).spec_current_block() == old(self).spec_current_block(),
    {
        self.expression(Expression::Idiv(lhs, rhs))
    }

    /// Makes the `mod` expression node over its two operands.
    pub fn mod_(&mut self, lhs: ExpressionRef, rhs: ExpressionRef) -> (r: ExpressionRef)
        requires
            old(self).spec_ast().expressions_seq().len() < u32::MAX,
        ensures
            r.0 == old(self).spec_ast().expressions_seq().len(),
            final(self).spec_ast().expressions_seq() == old(self).spec_ast().expressions_seq().push(
                Expression::Mod(lhs, rhs),
            ),
            final(self).spec_ast().fields_seq() == old(self).spec_ast().fields_seq(),
            final(self).spec_current_block() == old(self).spec_current_block(),
    {
        self.expression(Expression::Mod(lhs, rhs))
    }

    /// Makes the `pow` expression node over its two operands.
    pub fn pow(&mut self, lhs: ExpressionRef, rhs: ExpressionRef) -> (r: ExpressionRef)
        requires
            old(self).spec_ast().expressions_seq().len() < u32::MAX,
        ensures
            r.0 == old(self).spec_ast().expressions_seq().len(),
            final(self).spec_ast().expressions_seq() == old(self).spec_ast().expressions_seq().push(
                Expression::Pow(lhs, rhs),
            ),
            final(self).spec_ast().fields_seq() == old(self).spec_ast().fields_seq(),
            final(self).spec_current_block() == old(self).spec_current_block(),
    {
        self.expression(Expression::Pow(lhs, rhs))
    }

    /// Makes the `concat` expression node over its two operands.
    pub fn concat(&mut self, lhs: ExpressionRef, rhs: ExpressionRef) -> (r: ExpressionRef)
        requires
            old(self).spec_ast().expressions_seq().len() < u32::MAX,
        ensures
            r.0 == old(self).spec_ast().expressions_seq().len(),
            final(self).spec_ast().expressions_seq() == old(self).spec_ast().expressions_seq().push(
                Expression::Concat(lhs, rhs),
            ),
            final(self).spec_ast().fields_seq() == old(self).spec_ast().fields_seq(),
            final(self).spec_current_block() == old(self).spec_current_block(),
    {
        self.expression(Expression::Concat(lhs, rhs))
    }

    /// Makes the `shl` expression node over its two operands.
    pub fn shl(&mut self, lhs: ExpressionRef, rhs: ExpressionRef) -> (r: ExpressionRef)
        requires
            old(self).spec_ast().expressions_seq().len() < u32::MAX,
        ensures
            r.0 == old(self).spec_ast().expressions_seq().len(),
            final(self).spec_ast().expressions_seq() == old(self).spec_ast().expressions_seq().push(
                Expression::Shl(lhs, rhs),
            ),
            final(self).spec_ast().fields_seq() == old(self).spec_ast().fields_seq(),
            final(self).spec_current_block() == old(self).spec_current_block(),
    {
        self.expression(Expression::Shl(lhs, rhs))
    }

    /// Makes the `shr` expression node over its two operands.
    pub fn shr(&mut self, lhs: ExpressionRef, rhs: ExpressionRef) -> (r: ExpressionRef)
        requires
            old(self).spec_ast().expressions_seq().len() < u32::MAX,
        ensures
            r.0 == old(self).spec_ast().expressions_seq().len(),
            final(self).spec_ast().expressions_seq() == old(self).spec_ast().expressions_seq().push(
                Expression::Shr(lhs, rhs),
            ),
            final(self).spec_ast().fields_seq() == old(self).spec_ast().fields_seq(),
            final(self).spec_current_block() == old(self).spec_current_block(),
    {
        self.expression(Expression::Shr(lhs, rhs))
    }

    /// Makes the `band` expression node over its two operands.
    pub fn band(&mut self, lhs: ExpressionRef, rhs: ExpressionRef) -> (r: ExpressionRef)
        requires
            old(self).spec_ast().expressions_seq().len() < u32::MAX,
        ensures
            r.0 == old(self).spec_ast().expressions_seq().len(),
            final(self).spec_ast().expressions_seq() == old(self).spec_ast().expressions_seq().push(
                Expression::Band(lhs, rhs),
            ),
            final(self).spec_ast().fields_seq() == old(self).spec_ast().fields_seq(),
            final(self).spec_current_block() == old(self).spec_current_block(),
    {
        self.expression(Expression::Band(lhs, rhs))
    }

    /// Makes the `bor` expression node over its two operands.
    pub fn bor(&mut self, lhs: ExpressionRef, rhs: ExpressionRef) -> (r: ExpressionRef)
        requires
            old(self).spec_ast().expressions_seq().len() < u32::MAX,
        ensures
            r.0 == old(self).spec_ast().expressions_seq().len(),
            final(self).spec_ast().expressions_seq() == old(self).spec_ast().expressions_seq().push(
                Expression::Bor(lhs, rhs),
            ),
            final(self).spec_ast().fields_seq() == old(self).spec_ast().fields_seq(),
            final(self).spec_current_block() == old(self).spec_current_block(),
    {
        self.expression(Expression::Bor(lhs, rhs))
    }

    /// Makes the `bxor` expression node over its two operands.
    pub fn bxor(&mut self, lhs: ExpressionRef, rhs: ExpressionRef) -> (r: ExpressionRef)
        requires
            old(self).spec_ast().expressions_seq().len() < u32::MAX,
        ensures
            r.0 == old(self).spec_ast().expressions_seq().len(),
            final(self).spec_ast().expressions_seq() == old(self).spec_ast().expressions_seq().push(
                Expression::Bxor(lhs, rhs),
            ),
            final(self).spec_ast().fields_seq() == old(self).spec_ast().fields_seq(),
            final(self).spec_current_block() == old(self).spec_current_block(),
    {
        self.expression(Expression::Bxor(lhs, rhs))
    }

    /// Makes the `eq` expression node over its two operands.
    pub fn eq(&mut self, lhs: ExpressionRef, rhs: ExpressionRef) -> (r: ExpressionRef)
        requires
            old(self).spec_ast().expressions_seq().len() < u32::MAX,
        ensures
            r.0 == old(self).spec_ast().expressions_seq().len(),
            final(self).spec_ast().expressions_seq() == old(self).spec_ast().expressions_seq().push(
                Expression::Eq(lhs, rhs),
            ),
            final(self).spec_ast().fields_seq() == old(self).spec_ast().fields_seq(),
            final(self).spec_current_block() == old(self).spec_current_block(),
    {
        self.expression(Expression::Eq(lhs, rhs))
    }

    /// Makes the `ne` expression node over its two operands.
    pub fn ne(&mut self, lhs: ExpressionRef, rhs: ExpressionRef) -> (r: ExpressionRef)
        requires
            old(self).spec_ast().expressions_seq().len() < u32::MAX,
        ensures
            r.0 == old(self).spec_ast().expressions_seq().len(),
            final(self).spec_ast().expressions_seq() == old(self).spec_ast().expressions_seq().push(
                Expression::Ne(lhs, rhs),
            ),
            final(self).spec_ast().fields_seq() == old(self).spec_ast().fields_seq(),
            final(self).spec_current_block() == old(self).spec_current_block(),
    {
        self.expression(Expression::Ne(lhs, rhs))
    }

    /// Makes the `lt` expression node over its two operands.
    pub fn lt(&mut self, lhs: ExpressionRef, rhs: ExpressionRef) -> (r: ExpressionRef)
        requires
            old(self).spec_ast().expressions_seq().len() < u32::MAX,
        ensures
            r.0 == old(self).spec_ast().expressions_seq().len(),
            final(self).spec_ast().expressions_seq() == old(self).spec_ast().expressions_seq().push(
                Expression::Lt(lhs, rhs),
            ),
            final(self).spec_ast().fields_seq() == old(self).spec_ast().fields_seq(),
            final(self).spec_current_block() == old(self).spec_current_block(),
    {
        self.expression(Expression::Lt(lhs, rhs))
    }

    /// Makes the `gt` expression node over its two operands.
    pub fn gt(&mut self, lhs: ExpressionRef, rhs: ExpressionRef) -> (r: ExpressionRef)
        requires
            old(self).spec_ast().expressions_seq().len() < u32::MAX,
        ensures
            r.0 == old(self).spec_ast().expressions_seq().len(),
            final(self).spec_ast().expressions_seq() == old(self).spec_ast().expressions_seq().push(
                Expression::Gt(lhs, rhs),
            ),
            final(self).spec_ast().fields_seq() == old(self).spec_ast().fields_seq(),
            final(self).spec_current_block() == old(self).spec_current_block(),
    {
        self.expression(Expression::Gt(lhs, rhs))
    }

    /// Makes the `le` expression node over its two operands.
    pub fn le(&mut self, lhs: ExpressionRef, rhs: ExpressionRef) -> (r: ExpressionRef)
        requires
            old(self).spec_ast().expressions_seq().len() < u32::MAX,
        ensures
            r.0 == old(self).spec_ast().expressions_seq().len(),
            final(self).spec_ast().expressions_seq() == old(self).spec_ast().expressions_seq().push(
                Expression::Le(lhs, rhs),
            ),
            final(self).spec_ast().fields_seq() == old(self).spec_ast().fields_seq(),
            final(self).spec_current_block() == old(self).spec_current_block(),
    {
        self.expression(Expression::Le(lhs, rhs))
    }

    /// Makes the `ge` expression node over its two operands.
    pub fn ge(&mut self, lhs: ExpressionRef, rhs: ExpressionRef) -> (r: ExpressionRef)
        requires
            old(self).spec_ast().expressions_seq().len() < u32::MAX,
        ensures
            r.0 == old(self).spec_ast().expressions_seq().len(),
            final(self).spec_ast().expressions_seq() == old(self).spec_ast().expressions_seq().push(
                Expression::Ge(lhs, rhs),
            ),
            final(self).spec_ast().fields_seq() == old(self).spec_ast().fields_seq(),
            final(self).spec_current_block() == old(self).spec_current_block(),
    {
        self.expression(Expression::Ge(lhs, rhs))
    }

    /// Makes the `unm` expression node over its operand.
    pub fn unm(&mut self, operand: ExpressionRef) -> (r: ExpressionRef)
        requires
            old(self).spec_ast().expressions_seq().len() < u32::MAX,
        ensures
            r.0 == old(self).spec_ast().expressions_seq().len(),
            final(self).spec_ast().expressions_seq() == old(self).spec_ast().expressions_seq().push(
                Expression::Unm(operand),
            ),
            final(self).spec_ast().fields_seq() == old(self).spec_ast().fields_seq(),
            final(self).spec_current_block() == old(self).spec_current_block(),
    {
        self.expression(Expression::Unm(operand))
    }

    /// Makes the `bnot` expression node over its operand.
    pub fn bnot(&mut self, operand: ExpressionRef) -> (r: ExpressionRef)
        requires
            old(self).spec_ast().expressions_seq().len() < u32::MAX,
        ensures
            r.0 == old(self).spec_ast().expressions_seq().len(),
            final(self).spec_ast().expressions_seq() == old(self).spec_ast().expressions_seq().push(
                Expression::Bnot(operand),
            ),
            final(self).spec_ast().fields_seq() == old(self).spec_ast().fields_seq(),
            final(self).spec_current_block() == old(self).spec_current_block(),
    {
        self.expression(Expression::Bnot(operand))
    }

    /// Makes the `len` expression node over its operand.
    pub fn len(&mut self, operand: ExpressionRef) -> (r: ExpressionRef)
        requires
            old(self).spec_ast().expressions_seq().len() < u32::MAX,
        ensures
            r.0 == old(self).spec_ast().expressions_seq().len(),
            final(self).spec_ast().expressions_seq() == old(self).spec_ast().expressions_seq().push(
                Expression::Len(operand),
            ),
            final(self).spec_ast().fields_seq() == old(self).spec_ast().fields_seq(),
            final(self).spec_current_block() == old(self).spec_current_block(),
    {
        self.expression(Expression::Len(operand))
    }

    /// Makes the `not` expression node over its operand.
    pub fn not(&mut self, operand: ExpressionRef) -> (r: ExpressionRef)
        requires
            old(self).spec_ast().expressions_seq().len() < u32::MAX,
        ensures
            r.0 == old(self).spec_ast().expressions_seq().len(),
            final(self).spec_ast().expressions_seq() == old(self).spec_ast().expressions_seq().push(
                Expression::Not(operand),
            ),
            final(self).spec_ast().fields_seq() == old(self).spec_ast().fields_seq(),
            final(self).spec_current_block() == old(self).spec_current_block(),
    {
        self.expression(Expression::Not(operand))
    }

    /// Makes the `true` constant expression node.
    pub fn true_(&mut self) -> (r: ExpressionRef)
        requires
            old(self).spec_ast().expressions_seq().len() < u32::MAX,
        ensures
            r.0 == old(self).spec_ast().expressions_seq().len(),
            final(self).spec_ast().expressions_seq() == old(self).spec_ast().expressions_seq().push(
                Expression::True,
            ),
            final(self).spec_ast().fields_seq() == old(self).spec_ast().fields_seq(),
            final(self).spec_current_block() == old(self).spec_current_block(),
    {
        self.expression(Expression::True)
    }

    /// Makes the `false` constant expression node.
    pub fn false_(&mut self) -> (r: ExpressionRef)
        requires
            old(self).spec_ast().expressions_seq().len() < u32::MAX,
        ensures
            r.0 == old(self).spec_ast().expressions_seq().len(),
            final(self).spec_ast().expressions_seq() == old(self).spec_ast().expressions_seq().push(
                Expression::False,
            ),
            final(self).spec_ast().fields_seq() == old(self).spec_ast().fields_seq(),
            final(self).spec_current_block() == old(self).spec_current_block(),
    {
        self.expression(Expression::False)
    }

    /// Makes the `nil` constant expression node.
    pub fn nil(&mut self) -> (r: ExpressionRef)
        requires
            old(self).spec_ast().expressions_seq().len() < u32::MAX,
        ensures
            r.0 == old(self).spec_ast().expressions_seq().len(),
            final(self).spec_ast().expressions_seq() == old(self).spec_ast().expressions_seq().push(
                Expression::Nil,
            ),
            final(self).spec_ast().fields_seq() == old(self).spec_ast().fields_seq(),
            final(self).spec_current_block() == old(self).spec_current_block(),
    {
        self.expression(Expression::Nil)
    }

    /// Makes an ordinal (positional) table field.
    pub fn ordinal_field(&mut self, value: ExpressionRef) -> (r: FieldRef)
        requires
            old(self).spec_ast().fields_seq().len() < u32::MAX,
        ensures
            r.0 == old(self).spec_ast().fields_seq().len(),
            final(self).spec_ast().fields_seq() == old(self).spec_ast().fields_seq().push(
                Field::Ordinal(value),
            ),
            final(self).spec_ast().expressions_seq() == old(self).spec_ast().expressions_seq(),
            final(self).spec_current_block() == old(self).spec_current_block(),
    {
        self.field(Field::Ordinal(value))
    }

    /// Makes a keyed table field.
    pub fn keyed_field(&mut self, key: ExpressionRef, value: ExpressionRef) -> (r: FieldRef)
        requires
            old(self).spec_ast().fields_seq().len() < u32::MAX,
        ensures
            r.0 == old(self).spec_ast().fields_seq().len(),
            final(self).spec_ast().fields_seq() == old(self).spec_ast().fields_seq().push(
                Field::Keyed(key, value),
            ),
            final(self).spec_ast().expressions_seq() == old(self).spec_ast().expressions_seq(),
            final(self).spec_current_block() == old(self).spec_current_block(),
    {
        self.field(Field::Keyed(key, value))
    }

    /// Makes a member field: keyed by the member's name as a string
    /// constant.
    pub fn member_field(&mut self, name: StringRef, value: ExpressionRef) -> (r: FieldRef)
        requires
            old(self).spec_ast().expressions_seq().len() < u32::MAX,
            old(self).spec_ast().fields_seq().len() < u32::MAX,
        ensures
            r.0 == old(self).spec_ast().fields_seq().len(),
            final(self).spec_ast().expressions_seq() == old(self).spec_ast().expressions_seq().push(
                Expression::String(name),
            ),
            final(self).spec_ast().fields_seq() == old(self).spec_ast().fields_seq().push(
                Field::Keyed(
                    ExpressionRef(old(self).spec_ast().expressions_seq().len() as u32),
                    value,
                ),
            ),
            final(self).spec_current_block() == old(self).spec_current_block(),
    {
        let key = self.string(name);
        self.keyed_field(key, value)
    }
}

} // verus!
