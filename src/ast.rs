use vstd::prelude::*;

verus! {

broadcast use vstd::std_specs::vec::axiom_vec_index_decreases;

/// The single-argument motion and pen commands.
#[derive(Debug, Clone, Copy, PartialEq, Eq, Structural)]
pub enum UnaryOp {
    Forward,
    Back,
    Left,
    Right,
    Setpencolor,
    Turn,
    Setheading,
    Setx,
    Sety,
}

/// The two-argument operations. `Func` carries the name of a user procedure
/// being defined.
#[derive(Debug, Clone)]
pub enum BinaryOp {
    Make,
    Addassign,
    If,
    While,
    Add,
    Sub,
    Mul,
    Div,
    Eq,
    Ne,
    Gt,
    Lt,
    And,
    Or,
    Func(String),
}

/// A node of the syntax tree. `If` and `While` keep their condition on the
/// left and a `Body` of the block on the right; a procedure definition keeps a
/// `Body` of formal parameters on the left and a `Body` of statements on the
/// right. `Empty` and `Newline` are sentinels of the parser.
#[derive(Debug)]
#[allow(inconsistent_fields)]
pub enum Node {
    Literal(String),
    Variable(String),
    Xcor,
    Ycor,
    Heading,
    Color,
    Penup,
    Pendown,
    UnaryExpr { op: UnaryOp, child: Box<Node> },
    BinaryExpr { op: BinaryOp, lhs: Box<Node>, rhs: Box<Node> },
    Body(Vec<Node>),
    Empty,
    Newline,
    Caller { name: String, args: Box<Node> },
}

/// The two kinds of leaf that a prefix marker introduces.
#[derive(Debug, Clone, Copy, PartialEq, Eq, Structural)]
pub enum Leaf {
    Literal,
    Variable,
}

/// The mathematical value of a `BinaryOp`.
pub enum BinOp {
    Make,
    Addassign,
    If,
    While,
    Add,
    Sub,
    Mul,
    Div,
    Eq,
    Ne,
    Gt,
    Lt,
    And,
    Or,
    Func(Seq<char>),
}

/// The mathematical value of a `Node`: the same tree, with text as `Seq<char>`
/// and child lists as `Seq`.
pub enum Ast {
    Literal(Seq<char>),
    Variable(Seq<char>),
    Xcor,
    Ycor,
    Heading,
    Color,
    Penup,
    Pendown,
    UnaryExpr(UnaryOp, Box<Ast>),
    BinaryExpr(BinOp, Box<Ast>, Box<Ast>),
    Body(Seq<Ast>),
    Empty,
    Newline,
    Caller(Seq<char>, Box<Ast>),
}

impl View for BinaryOp {
    type V = BinOp;

    open spec fn view(&self) -> BinOp {
        match self {
            BinaryOp::Make => BinOp::Make,
            BinaryOp::Addassign => BinOp::Addassign,
            BinaryOp::If => BinOp::If,
            BinaryOp::While => BinOp::While,
            BinaryOp::Add => BinOp::Add,
            BinaryOp::Sub => BinOp::Sub,
            BinaryOp::Mul => BinOp::Mul,
            BinaryOp::Div => BinOp::Div,
            BinaryOp::Eq => BinOp::Eq,
            BinaryOp::Ne => BinOp::Ne,
            BinaryOp::Gt => BinOp::Gt,
            BinaryOp::Lt => BinOp::Lt,
            BinaryOp::And => BinOp::And,
            BinaryOp::Or => BinOp::Or,
            BinaryOp::Func(name) => BinOp::Func(name@),
        }
    }
}

/// The value of a node.
pub open spec fn node_view(n: Node) -> Ast
    decreases n,
{
    match n {
        Node::Literal(s) => Ast::Literal(s@),
        Node::Variable(s) => Ast::Variable(s@),
        Node::Xcor => Ast::Xcor,
        Node::Ycor => Ast::Ycor,
        Node::Heading => Ast::Heading,
        Node::Color => Ast::Color,
        Node::Penup => Ast::Penup,
        Node::Pendown => Ast::Pendown,
        Node::UnaryExpr { op, child } => Ast::UnaryExpr(op, Box::new(node_view(*child))),
        Node::BinaryExpr { op, lhs, rhs } => Ast::BinaryExpr(
            op@,
            Box::new(node_view(*lhs)),
            Box::new(node_view(*rhs)),
        ),
        Node::Body(v) => Ast::Body(
            Seq::new(
                v.len() as nat,
                |i: int|
                    if 0 <= i < v.len() {
                        node_view(v[i])
                    } else {
                        Ast::Empty
                    },
            ),
        ),
        Node::Empty => Ast::Empty,
        Node::Newline => Ast::Newline,
        Node::Caller { name, args } => Ast::Caller(name@, Box::new(node_view(*args))),
    }
}

impl View for Node {
    type V = Ast;

    open spec fn view(&self) -> Ast {
        node_view(*self)
    }
}

} // verus!

verus! {

/// Why a program was rejected.
#[derive(Debug, Clone, Copy, PartialEq, Eq, Structural)]
pub enum ParseError {
    /// A prefix marker with nothing after it.
    LexError,
    /// `]` or `END` with no open block, or input that ends inside a block.
    UnbalancedBlock,
    /// A bare word that is neither a keyword nor a defined procedure.
    UnknownCommand,
    /// An operand of a command is missing or could not be parsed.
    MalformedOperand(Operand),
    /// A token after a complete statement on the same line.
    TrailingToken,
}

/// Which operand of a command failed.
#[derive(Debug, Clone, Copy, PartialEq, Eq, Structural)]
pub enum Operand {
    /// The text after a prefix marker.
    Value,
    /// The single operand of a unary command.
    Child,
    /// The first operand of a binary command.
    First,
    /// The second operand of a binary command.
    Second,
    /// The condition of `IF` or `WHILE`.
    Condition,
    /// The name after `TO`.
    Name,
    /// A formal parameter of a procedure definition.
    Parameter,
    /// An argument of a procedure call.
    Argument,
}

impl BinaryOp {
    /// A copy of this operation.
    pub fn duplicate(&self) -> (r: BinaryOp)
        ensures
            r@ == self@,
    {
        match self {
            BinaryOp::Make => BinaryOp::Make,
            BinaryOp::Addassign => BinaryOp::Addassign,
            BinaryOp::If => BinaryOp::If,
            BinaryOp::While => BinaryOp::While,
            BinaryOp::Add => BinaryOp::Add,
            BinaryOp::Sub => BinaryOp::Sub,
            BinaryOp::Mul => BinaryOp::Mul,
            BinaryOp::Div => BinaryOp::Div,
            BinaryOp::Eq => BinaryOp::Eq,
            BinaryOp::Ne => BinaryOp::Ne,
            BinaryOp::Gt => BinaryOp::Gt,
            BinaryOp::Lt => BinaryOp::Lt,
            BinaryOp::And => BinaryOp::And,
            BinaryOp::Or => BinaryOp::Or,
            BinaryOp::Func(name) => BinaryOp::Func(name.clone()),
        }
    }
}

impl Clone for Node {
    fn clone(&self) -> (r: Node)
        ensures
            r@ == self@,
    {
        self.duplicate()
    }
}

impl Node {
    /// A deep copy of this tree.
    pub fn duplicate(&self) -> (r: Node)
        ensures
            r@ == self@,
        decreases self,
    {
        match self {
            Node::Literal(s) => Node::Literal(s.clone()),
            Node::Variable(s) => Node::Variable(s.clone()),
            Node::Xcor => Node::Xcor,
            Node::Ycor => Node::Ycor,
            Node::Heading => Node::Heading,
            Node::Color => Node::Color,
            Node::Penup => Node::Penup,
            Node::Pendown => Node::Pendown,
            Node::UnaryExpr { op, child } => Node::UnaryExpr {
                op: *op,
                child: Box::new((**child).duplicate()),
            },
            Node::BinaryExpr { op, lhs, rhs } => Node::BinaryExpr {
                op: op.duplicate(),
                lhs: Box::new((**lhs).duplicate()),
                rhs: Box::new((**rhs).duplicate()),
            },
            Node::Body(v) => {
                let mut out: Vec<Node> = Vec::new();
                let mut i: usize = 0;
                assert(decreases_to!(*self => self->Body_0));
                while i < v.len()
                    invariant
                        i <= v.len(),
                        out.len() == i,
                        decreases_to!(*self => *v),
                        forall|k: int| 0 <= k < i ==> (#[trigger] out[k])@ == v[k]@,
                    decreases v.len() - i,
                {
                    proof {
                        assert(decreases_to!(*v => v[i as int]));
                    }
                    out.push(v[i].duplicate());
                    i = i + 1;
                }
                let r = Node::Body(out);
                assert(r@ == self@) by {
                    if let Ast::Body(a) = r@ {
                        if let Ast::Body(b) = self@ {
                            assert(a =~= b);
                        }
                    }
                }
                r
            },
            Node::Empty => Node::Empty,
            Node::Newline => Node::Newline,
            Node::Caller { name, args } => Node::Caller {
                name: name.clone(),
                args: Box::new((**args).duplicate()),
            },
        }
    }
}

} // verus!
