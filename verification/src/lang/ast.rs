//! The abstract syntax tree and its mathematical model.

use vstd::prelude::*;

verus! {

/// A node of the syntax tree. Trees have one owner and are never changed
/// once the parser has made them. A number holds its literal's spelling.
#[derive(Debug, PartialEq)]
#[allow(inconsistent_fields)]
pub enum ASTNode {
    Number(String),
    Bool(bool),
    String(String),
    Identifier { name: String },
    FunctionCall { name: String, args: Vec<ASTNode> },
    BinaryExpression { left: Box<ASTNode>, right: Box<ASTNode>, operator: char },
    UnaryExpression { sign: char, expr: Box<ASTNode> },
    VarDeclaration { name: String, value: Box<ASTNode> },
    VarAssignment { name: String, value: Box<ASTNode> },
    IfStmt { expr: Box<ASTNode>, true_block: Vec<ASTNode> },
}

/// A syntax tree as a mathematical value.
pub enum Node {
    Number(Seq<char>),
    Bool(bool),
    Text(Seq<char>),
    Identifier(Seq<char>),
    Call(Seq<char>, Seq<Node>),
    Binary(Box<Node>, Box<Node>, char),
    Unary(char, Box<Node>),
    Declare(Seq<char>, Box<Node>),
    Assign(Seq<char>, Box<Node>),
    If(Box<Node>, Seq<Node>),
}

impl ASTNode {
    /// The tree as a mathematical value.
    pub open spec fn model(&self) -> Node
        decreases self,
    {
        match self {
            ASTNode::Number(value) => Node::Number(value@),
            ASTNode::Bool(value) => Node::Bool(*value),
            ASTNode::String(value) => Node::Text(value@),
            ASTNode::Identifier { name } => Node::Identifier(name@),
            ASTNode::FunctionCall { name, args } => Node::Call(
                name@,
                Seq::new(
                    args@.len(),
                    |i: int|
                        if 0 <= i < args@.len() {
                            args@[i].model()
                        } else {
                            Node::Bool(false)
                        },
                ),
            ),
            ASTNode::BinaryExpression { left, right, operator } => Node::Binary(
                Box::new(left.model()),
                Box::new(right.model()),
                *operator,
            ),
            ASTNode::UnaryExpression { sign, expr } => Node::Unary(*sign, Box::new(expr.model())),
            ASTNode::VarDeclaration { name, value } => Node::Declare(name@, Box::new(value.model())),
            ASTNode::VarAssignment { name, value } => Node::Assign(name@, Box::new(value.model())),
            ASTNode::IfStmt { expr, true_block } => Node::If(
                Box::new(expr.model()),
                Seq::new(
                    true_block@.len(),
                    |i: int|
                        if 0 <= i < true_block@.len() {
                            true_block@[i].model()
                        } else {
                            Node::Bool(false)
                        },
                ),
            ),
        }
    }
}

impl View for ASTNode {
    type V = Node;

    open spec fn view(&self) -> Node {
        self.model()
    }
}

/// The models of a sequence of trees.
pub open spec fn nodes(trees: Seq<ASTNode>) -> Seq<Node> {
    Seq::new(trees.len(), |i: int| trees[i]@)
}

/// The model of a call holds the models of its arguments.
pub proof fn lemma_call_model(node: ASTNode)
    requires
        node is FunctionCall,
    ensures
        node@ == Node::Call(node->FunctionCall_name@, nodes(node->FunctionCall_args@)),
{
    assert(node@->Call_1 =~= nodes(node->FunctionCall_args@));
}

/// The model of a conditional holds the models of its statements.
pub proof fn lemma_if_model(node: ASTNode)
    requires
        node is IfStmt,
    ensures
        node@ == Node::If(Box::new(node->IfStmt_expr@), nodes(node->IfStmt_true_block@)),
{
    assert(node@->If_1 =~= nodes(node->IfStmt_true_block@));
}

} // verus!
