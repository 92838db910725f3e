//! The shape of the resolved tree: handles, operators and node kinds.
//!
//! Every node of a program lives in one arena and is named by its index
//! there. A handle is such an index together with the class of node that it
//! is expected to name.

use vstd::prelude::*;
use crate::types::Type;

verus! {

/// Names an expression node.
#[derive(Clone, Copy, Debug, PartialEq, Eq, Hash, Structural)]
pub struct ExprId(pub usize);

/// Names a statement node.
#[derive(Clone, Copy, Debug, PartialEq, Eq, Hash, Structural)]
pub struct StmtId(pub usize);

/// Names an identifier node: a definition, or a use of one.
#[derive(Clone, Copy, Debug, PartialEq, Eq, Hash, Structural)]
pub struct IdentId(pub usize);

/// Names a function signature.
#[derive(Clone, Copy, Debug, PartialEq, Eq, Hash, Structural)]
pub struct FuncId(pub usize);

/// The operator of an infix expression.
#[derive(Clone, Copy, Debug, PartialEq, Eq, Structural)]
pub enum BinaryOp {
    Add,
    Subtract,
    Multiply,
    Divide,
    Equal,
    NotEqual,
    Less,
    LessEqual,
    Greater,
    GreaterEqual,
    And,
    Or,
    Xor,
    Assign,
}

impl BinaryOp {
    /// The operators that compare their operands.
    pub open spec fn is_comparison(self) -> bool {
        self is Equal || self is NotEqual || self is Less || self is LessEqual || self is Greater
            || self is GreaterEqual
    }

    /// Whether the operator compares its operands.
    pub fn is_comparator(&self) -> (yes: bool)
        ensures
            yes == self.is_comparison(),
    {
        match self {
            BinaryOp::Equal
            | BinaryOp::NotEqual
            | BinaryOp::Less
            | BinaryOp::LessEqual
            | BinaryOp::Greater
            | BinaryOp::GreaterEqual => true,
            _ => false,
        }
    }
}

/// The operator of a prefix expression.
#[derive(Clone, Copy, Debug, PartialEq, Eq, Structural)]
pub enum UnaryOp {
    Minus,
    Not,
}

/// A literal expression.
#[derive(Debug)]
pub enum Literal {
    /// The element expressions, in order.
    Array(Vec<ExprId>),
    Bool(bool),
    Integer(u128),
    Str(String),
}

/// The syntactic kind of an expression, with the handles of its parts.
#[allow(inconsistent_fields)]
#[derive(Debug)]
pub enum ExpressionKind {
    /// A use of an identifier.
    Ident(IdentId),
    Literal(Literal),
    Prefix { operator: UnaryOp, rhs: ExprId },
    Infix { lhs: ExprId, operator: BinaryOp, rhs: ExprId },
    /// The element at position `index` of the collection that an identifier
    /// names.
    Index { collection: IdentId, index: ExprId },
    Call { func: FuncId, arguments: Vec<ExprId> },
    Cast { lhs: ExprId, target: Type },
    Predicate { lhs: ExprId, operator: BinaryOp, rhs: ExprId },
    /// A loop over a range, binding `identifier` in `block`.
    For { identifier: IdentId, start_range: ExprId, end_range: ExprId, block: StmtId },
    If { condition: ExprId, consequence: StmtId },
}

/// The syntactic kind of a statement, with the handles of its parts.
#[derive(Debug)]
pub enum StatementKind {
    /// An expression in statement position.
    Expression(ExprId),
    /// A sequence of statements, in order.
    Block(Vec<StmtId>),
    /// A statement that holds nothing for this pass to look into.
    Other,
}

/// One entry of the arena.
#[derive(Debug)]
pub enum Node {
    Expression(ExpressionKind),
    Statement(StatementKind),
    /// An identifier and, for a use, the definition that it resolves to.
    Identifier { definition: Option<IdentId> },
}

/// A declared parameter: the identifier that it defines, and its type.
#[derive(Debug)]
pub struct Param(pub IdentId, pub Type);

/// The signature of a function: its parameters in order, and what it returns.
#[derive(Debug)]
pub struct FuncMeta {
    pub parameters: Vec<Param>,
    pub return_type: Type,
}

/// The class of node that a handle is expected to name.
#[derive(Clone, Copy, Debug, PartialEq, Eq, Structural)]
pub enum Class {
    Expression,
    Statement,
    Block,
    Identifier,
}

/// A handle that a node owns, with the class that it must have.
pub struct Child {
    pub target: nat,
    pub class: Class,
}

/// The handles of a list of expressions, as owned children.
pub open spec fn expression_children(list: Seq<ExprId>) -> Seq<Child> {
    Seq::new(list.len(), |i: int| Child { target: list[i].0 as nat, class: Class::Expression })
}

/// The handles of a list of statements, as owned children.
pub open spec fn statement_children(list: Seq<StmtId>) -> Seq<Child> {
    Seq::new(list.len(), |i: int| Child { target: list[i].0 as nat, class: Class::Statement })
}

impl Node {
    /// The sub-expressions and statements of a node, in the order in which
    /// they are checked. These are the node's children in the tree. The
    /// parts of a form that is not supported are carried along and are no
    /// children: such a node is rejected before they are looked at.
    pub open spec fn children(self) -> Seq<Child> {
        match self {
            Node::Expression(ExpressionKind::Literal(Literal::Array(contents))) => {
                expression_children(contents@)
            },
            Node::Expression(ExpressionKind::Infix { lhs, rhs, .. }) => seq![
                Child { target: lhs.0 as nat, class: Class::Expression },
                Child { target: rhs.0 as nat, class: Class::Expression },
            ],
            Node::Expression(ExpressionKind::Index { index, .. }) => seq![
                Child { target: index.0 as nat, class: Class::Expression },
            ],
            Node::Expression(ExpressionKind::Call { arguments, .. }) => {
                expression_children(arguments@)
            },
            Node::Expression(ExpressionKind::Cast { lhs, .. }) => seq![
                Child { target: lhs.0 as nat, class: Class::Expression },
            ],
            Node::Expression(
                ExpressionKind::For { identifier, start_range, end_range, block },
            ) => seq![
                Child { target: start_range.0 as nat, class: Class::Expression },
                Child { target: end_range.0 as nat, class: Class::Expression },
                Child { target: identifier.0 as nat, class: Class::Identifier },
                Child { target: block.0 as nat, class: Class::Block },
            ],
            Node::Statement(StatementKind::Expression(expr)) => seq![
                Child { target: expr.0 as nat, class: Class::Expression },
            ],
            Node::Statement(StatementKind::Block(statements)) => statement_children(statements@),
            _ => Seq::empty(),
        }
    }

    /// The identifier that a node refers to without owning it: the one that
    /// an identifier expression uses, the collection of an index expression,
    /// the definition of an identifier.
    pub open spec fn reference(self) -> Option<IdentId> {
        match self {
            Node::Expression(ExpressionKind::Ident(ident)) => Some(ident),
            Node::Expression(ExpressionKind::Index { collection, .. }) => Some(collection),
            Node::Identifier { definition } => definition,
            _ => None,
        }
    }

    /// `self` is a node of class `class`.
    pub open spec fn has_class(self, class: Class) -> bool {
        match class {
            Class::Expression => self is Expression,
            Class::Statement => self is Statement,
            Class::Block => self matches Node::Statement(StatementKind::Block(_)),
            Class::Identifier => self is Identifier,
        }
    }

    /// How many children the node has.
    pub fn child_count(&self) -> (count: usize)
        ensures
            count == self.children().len(),
    {
        match self {
            Node::Expression(ExpressionKind::Literal(Literal::Array(contents))) => contents.len(),
            Node::Expression(ExpressionKind::Infix { .. }) => 2,
            Node::Expression(ExpressionKind::Index { .. }) => 1,
            Node::Expression(ExpressionKind::Call { arguments, .. }) => arguments.len(),
            Node::Expression(ExpressionKind::Cast { .. }) => 1,
            Node::Expression(ExpressionKind::For { .. }) => 4,
            Node::Statement(StatementKind::Expression(_)) => 1,
            Node::Statement(StatementKind::Block(statements)) => statements.len(),
            _ => 0,
        }
    }

    /// The handle of the child at position `at`, and the class that this
    /// place asks for.
    pub fn child_at(&self, at: usize) -> (child: (usize, Class))
        requires
            at < self.children().len(),
        ensures
            child.0 == self.children()[at as int].target,
            child.1 == self.children()[at as int].class,
    {
        match self {
            Node::Expression(ExpressionKind::Literal(Literal::Array(contents))) => (
                contents[at].0,
                Class::Expression,
            ),
            Node::Expression(ExpressionKind::Infix { lhs, rhs, .. }) => {
                if at == 0 {
                    (lhs.0, Class::Expression)
                } else {
                    (rhs.0, Class::Expression)
                }
            },
            Node::Expression(ExpressionKind::Index { index, .. }) => (index.0, Class::Expression),
            Node::Expression(ExpressionKind::Call { arguments, .. }) => (
                arguments[at].0,
                Class::Expression,
            ),
            Node::Expression(ExpressionKind::Cast { lhs, .. }) => (lhs.0, Class::Expression),
            Node::Expression(
                ExpressionKind::For { identifier, start_range, end_range, block },
            ) => {
                if at == 0 {
                    (start_range.0, Class::Expression)
                } else if at == 1 {
                    (end_range.0, Class::Expression)
                } else if at == 2 {
                    (identifier.0, Class::Identifier)
                } else {
                    (block.0, Class::Block)
                }
            },
            Node::Statement(StatementKind::Expression(expr)) => (expr.0, Class::Expression),
            Node::Statement(StatementKind::Block(statements)) => (
                statements[at].0,
                Class::Statement,
            ),
            _ => (0, Class::Expression),
        }
    }

    /// The identifier that the node refers to without owning it, if any.
    pub fn referenced(&self) -> (ident: Option<IdentId>)
        ensures
            ident == self.reference(),
    {
        match self {
            Node::Expression(ExpressionKind::Ident(ident)) => Some(*ident),
            Node::Expression(ExpressionKind::Index { collection, .. }) => Some(*collection),
            Node::Identifier { definition } => *definition,
            _ => None,
        }
    }

    /// Whether the node is of class `class`.
    pub fn is_class(&self, class: Class) -> (yes: bool)
        ensures
            yes == self.has_class(class),
    {
        match class {
            Class::Expression => match self {
                Node::Expression(_) => true,
                _ => false,
            },
            Class::Statement => match self {
                Node::Statement(_) => true,
                _ => false,
            },
            Class::Block => match self {
                Node::Statement(StatementKind::Block(_)) => true,
                _ => false,
            },
            Class::Identifier => match self {
                Node::Identifier { .. } => true,
                _ => false,
            },
        }
    }
}

} // verus!
