use crate::ast::{Ast, BinaryOp, Leaf, Node, Operand, ParseError, UnaryOp};
use crate::grammar::{
    arguments, binary, command, comment, conditional, definition, dispatch, leaf, operand,
    parse_result, program, texts, unary, word_of, Cursor, Procedure, Word,
};
use crate::procs::ProcTable;
use vstd::prelude::*;

verus! {

/// The values of a list of nodes.
pub open spec fn nodes_view(v: Seq<Node>) -> Seq<Ast> {
    v.map_values(|n: Node| n@)
}

/// The parser's state as a cursor.
pub open spec fn cursor_of(pos: usize, depth: usize, procs: Map<Seq<char>, Ast>) -> Cursor {
    Cursor { pos: pos as int, depth: depth as int, procs }
}

/// The executable outcome `r`, with the state left behind, agrees with the
/// modelled outcome `s`.
pub open spec fn node_outcome(
    r: Result<Node, ParseError>,
    s: Result<(Ast, Cursor), (ParseError, Cursor)>,
    pos: usize,
    depth: usize,
    procs: Map<Seq<char>, Ast>,
) -> bool {
    match s {
        Ok((a, c)) => r is Ok && r->Ok_0@ == a && cursor_of(pos, depth, procs) == c,
        Err((e, c)) => r == Err::<Node, ParseError>(e) && cursor_of(pos, depth, procs) == c,
    }
}

/// The same agreement for a list of nodes.
pub open spec fn nodes_outcome(
    r: Result<Vec<Node>, ParseError>,
    s: Result<(Seq<Ast>, Cursor), (ParseError, Cursor)>,
    pos: usize,
    depth: usize,
    procs: Map<Seq<char>, Ast>,
) -> bool {
    match s {
        Ok((a, c)) => r is Ok && nodes_view(r->Ok_0@) == a && cursor_of(pos, depth, procs) == c,
        Err((e, c)) => r == Err::<Vec<Node>, ParseError>(e) && cursor_of(pos, depth, procs) == c,
    }
}

/// What every step of the parser keeps, whether it succeeds or fails: it only
/// moves forward within the input, opens at most one block per token it reads,
/// and never removes a procedure from the table.
pub open spec fn progress(
    len: usize,
    pos0: usize,
    depth0: usize,
    procs0: Map<Seq<char>, Ast>,
    pos: usize,
    depth: usize,
    procs: Map<Seq<char>, Ast>,
) -> bool {
    pos0 <= pos <= len && depth <= depth0 + (pos - pos0) && procs0.dom().subset_of(procs.dom())
}

/// Whether two strings hold the same characters.
fn same_text(a: &str, b: &str) -> (r: bool)
    ensures
        r == (a@ == b@),
{
    let n = a.unicode_len();
    if n != b.unicode_len() {
        return false;
    }
    let mut i: usize = 0;
    while i < n
        invariant
            n == a@.len(),
            n == b@.len(),
            i <= n,
            forall|k: int| 0 <= k < i ==> a@[k] == b@[k],
        decreases n - i,
    {
        if a.get_char(i) != b.get_char(i) {
            return false;
        }
        i = i + 1;
    }
    assert(a@ =~= b@);
    true
}

/// What the parser takes a token to be.
fn classify(tok: &str) -> (w: Word)
    ensures
        w == word_of(tok@),
{
    if same_text(tok, "PENUP") { Word::Penup }
    else if same_text(tok, "PENDOWN") { Word::Pendown }
    else if same_text(tok, "HEADING") { Word::Heading }
    else if same_text(tok, "XCOR") { Word::Xcor }
    else if same_text(tok, "YCOR") { Word::Ycor }
    else if same_text(tok, "COLOR") { Word::Color }
    else if same_text(tok, "\"") { Word::Marker(Leaf::Literal) }
    else if same_text(tok, ":") { Word::Marker(Leaf::Variable) }
    else if same_text(tok, "FORWARD") { Word::Unary(UnaryOp::Forward) }
    else if same_text(tok, "BACK") { Word::Unary(UnaryOp::Back) }
    else if same_text(tok, "LEFT") { Word::Unary(UnaryOp::Left) }
    else if same_text(tok, "RIGHT") { Word::Unary(UnaryOp::Right) }
    else if same_text(tok, "SETPENCOLOR") { Word::Unary(UnaryOp::Setpencolor) }
    else if same_text(tok, "TURN") { Word::Unary(UnaryOp::Turn) }
    else if same_text(tok, "SETHEADING") { Word::Unary(UnaryOp::Setheading) }
    else if same_text(tok, "SETX") { Word::Unary(UnaryOp::Setx) }
    else if same_text(tok, "SETY") { Word::Unary(UnaryOp::Sety) }
    else if same_text(tok, "MAKE") { Word::Binary(BinaryOp::Make) }
    else if same_text(tok, "ADDASSIGN") { Word::Binary(BinaryOp::Addassign) }
    else if same_text(tok, "IF") { Word::Binary(BinaryOp::If) }
    else if same_text(tok, "WHILE") { Word::Binary(BinaryOp::While) }
    else if same_text(tok, "EQ") { Word::Binary(BinaryOp::Eq) }
    else if same_text(tok, "NE") { Word::Binary(BinaryOp::Ne) }
    else if same_text(tok, "GT") { Word::Binary(BinaryOp::Gt) }
    else if same_text(tok, "LT") { Word::Binary(BinaryOp::Lt) }
    else if same_text(tok, "AND") { Word::Binary(BinaryOp::And) }
    else if same_text(tok, "OR") { Word::Binary(BinaryOp::Or) }
    else if same_text(tok, "+") { Word::Binary(BinaryOp::Add) }
    else if same_text(tok, "-") { Word::Binary(BinaryOp::Sub) }
    else if same_text(tok, "*") { Word::Binary(BinaryOp::Mul) }
    else if same_text(tok, "/") { Word::Binary(BinaryOp::Div) }
    else if same_text(tok, "TO") { Word::To }
    else if same_text(tok, "END") { Word::End }
    else if same_text(tok, "//") { Word::Comment }
    else if same_text(tok, "\n") { Word::Newline }
    else if same_text(tok, "[") { Word::Open }
    else if same_text(tok, "]") { Word::Close }
    else { Word::Other }
}

/// Parses a literal or variable: the next token is its payload.
fn parse_leaf(tokens: &Vec<String>, pos: &mut usize, l: Leaf) -> (r: Result<Node, ParseError>)
    requires
        *old(pos) <= tokens.len(),
    ensures
        match leaf(texts(tokens@), l, cursor_of(*old(pos), 0, Map::empty())) {
            Ok((a, c)) => r is Ok && r->Ok_0@ == a && *final(pos) == c.pos,
            Err((e, c)) => r == Err::<Node, ParseError>(e) && *final(pos) == c.pos,
        },
        *old(pos) <= *final(pos) <= tokens.len(),
        r is Ok ==> *final(pos) > *old(pos),
{
    if *pos >= tokens.len() {
        return Err(ParseError::MalformedOperand(Operand::Value));
    }
    let payload = tokens[*pos].clone();
    *pos = *pos + 1;
    match l {
        Leaf::Literal => Ok(Node::Literal(payload)),
        Leaf::Variable => Ok(Node::Variable(payload)),
    }
}

proof fn lemma_body_view(v: Vec<Node>)
    ensures
        Node::Body(v)@ == Ast::Body(nodes_view(v@)),
{
    let b = Node::Body(v)@;
    assert(b->Body_0 =~= nodes_view(v@));
}

/// Parses the statements of a program or of a block, up to the command that
/// yields `Empty`: the end of input, or the `]` or `END` that closes the block.
/// A `Newline` is skipped; every other node is kept, and must end its line.
pub fn parse_logo(
    tokens: &Vec<String>,
    pos: &mut usize,
    brackets: &mut usize,
    procs: &mut ProcTable,
) -> (r: Result<Vec<Node>, ParseError>)
    requires
        *old(pos) <= tokens.len(),
        *old(brackets) + (tokens.len() - *old(pos)) <= usize::MAX,
    ensures
        nodes_outcome(
            r,
            program(texts(tokens@), seq![], cursor_of(*old(pos), *old(brackets), old(procs)@)),
            *final(pos),
            *final(brackets),
            final(procs)@,
        ),
        progress(
            tokens.len(),
            *old(pos),
            *old(brackets),
            old(procs)@,
            *final(pos),
            *final(brackets),
            final(procs)@,
        ),
        r is Ok ==> *final(pos) >= *old(pos),
    decreases tokens.len() - *old(pos), 1int,
{
    let ghost t = texts(tokens@);
    let ghost c0 = cursor_of(*old(pos), *old(brackets), old(procs)@);
    let ghost p0 = *pos;
    let ghost b0 = *brackets;
    let ghost m0 = procs@;
    let mut ast: Vec<Node> = Vec::new();
    assert(nodes_view(ast@) =~= seq![]);
    loop
        invariant
            t == texts(tokens@),
            p0 == *old(pos),
            b0 == *old(brackets),
            m0 == old(procs)@,
            c0 == cursor_of(*old(pos), *old(brackets), old(procs)@),
            progress(tokens.len(), p0, b0, m0, *pos, *brackets, procs@),
            b0 + (tokens.len() - p0) <= usize::MAX,
            program(t, nodes_view(ast@), cursor_of(*pos, *brackets, procs@)) == program(t, seq![], c0),
        decreases tokens.len() - *pos,
    {
        let ghost acc = nodes_view(ast@);
        match parse_command(tokens, pos, brackets, procs) {
            Err(e) => {
                return Err(e);
            },
            Ok(node) => {
                match node {
                    Node::Empty => {
                        return Ok(ast);
                    },
                    Node::Newline => {},
                    other => {
                        ast.push(other);
                        assert(nodes_view(ast@) =~= acc.push(other@));
                        if *pos >= tokens.len() {
                            return Ok(ast);
                        }
                        if !same_text(&tokens[*pos], "\n") {
                            return Err(ParseError::TrailingToken);
                        }
                    },
                }
            },
        }
    }
}

/// Parses one command: the token at `pos` and whatever operands it takes.
fn parse_command(
    tokens: &Vec<String>,
    pos: &mut usize,
    brackets: &mut usize,
    procs: &mut ProcTable,
) -> (r: Result<Node, ParseError>)
    requires
        *old(pos) <= tokens.len(),
        *old(brackets) + (tokens.len() - *old(pos)) <= usize::MAX,
    ensures
        node_outcome(
            r,
            command(texts(tokens@), cursor_of(*old(pos), *old(brackets), old(procs)@)),
            *final(pos),
            *final(brackets),
            final(procs)@,
        ),
        progress(
            tokens.len(),
            *old(pos),
            *old(brackets),
            old(procs)@,
            *final(pos),
            *final(brackets),
            final(procs)@,
        ),
        r is Ok && !(r->Ok_0 is Empty) ==> *final(pos) > *old(pos),
    decreases tokens.len() - *old(pos), 0int,
{
    if *pos >= tokens.len() {
        return Ok(Node::Empty);
    }
    let tok = &tokens[*pos];
    *pos = *pos + 1;
    match classify(tok) {
        Word::Penup => Ok(Node::Penup),
        Word::Pendown => Ok(Node::Pendown),
        Word::Heading => Ok(Node::Heading),
        Word::Xcor => Ok(Node::Xcor),
        Word::Ycor => Ok(Node::Ycor),
        Word::Color => Ok(Node::Color),
        Word::Marker(l) => parse_leaf(tokens, pos, l),
        Word::Unary(op) => parse_procedure(Procedure::Unary(op), tokens, pos, brackets, procs),
        Word::Binary(op) => parse_procedure(Procedure::Binary(op), tokens, pos, brackets, procs),
        Word::To => {
            *brackets = *brackets + 1;
            if *pos >= tokens.len() {
                return Err(ParseError::MalformedOperand(Operand::Name));
            }
            let name = tokens[*pos].clone();
            *pos = *pos + 1;
            match parse_procedure(
                Procedure::Binary(BinaryOp::Func(name.clone())),
                tokens,
                pos,
                brackets,
                procs,
            ) {
                Ok(def) => {
                    procs.insert(name, def.duplicate());
                    Ok(def)
                },
                Err(e) => Err(e),
            }
        },
        Word::End | Word::Close => {
            if *brackets == 0 {
                Err(ParseError::UnbalancedBlock)
            } else {
                *brackets = *brackets - 1;
                Ok(Node::Empty)
            }
        },
        Word::Comment => {
            let ghost t = texts(tokens@);
            let ghost c1 = cursor_of(*pos, *brackets, procs@);
            let ghost p1 = *pos;
            loop
                invariant
                    t == texts(tokens@),
                    p1 <= *pos <= tokens.len(),
                    p1 == *old(pos) + 1,
                    *brackets == *old(brackets),
                    procs@ == old(procs)@,
                    *old(brackets) + (tokens.len() - *old(pos)) <= usize::MAX,
                    comment(t, cursor_of(*pos, *brackets, procs@)) == comment(t, c1),
                    command(t, cursor_of(*old(pos), *old(brackets), old(procs)@)) == comment(t, c1),
                decreases tokens.len() - *pos,
            {
                if *pos >= tokens.len() {
                    return Ok(Node::Empty);
                }
                let newline = same_text(&tokens[*pos], "\n");
                *pos = *pos + 1;
                if newline {
                    return parse_command(tokens, pos, brackets, procs);
                }
            }
        },
        Word::Newline => Ok(Node::Newline),
        Word::Open => {
            *brackets = *brackets + 1;
            parse_command(tokens, pos, brackets, procs)
        },
        Word::Other => {
            if procs.contains_key(tok) {
                match parse_arguments(Operand::Argument, tokens, pos, brackets, procs) {
                    Ok(args) => {
                        proof {
                            lemma_body_view(args);
                        }
                        Ok(Node::Caller { name: tok.clone(), args: Box::new(Node::Body(args)) })
                    },
                    Err(e) => Err(e),
                }
            } else {
                Err(ParseError::UnknownCommand)
            }
        },
    }
}

/// Parses operands up to the end of the line: the arguments of a call, or the
/// formal parameters of a definition.
fn parse_arguments(
    role: Operand,
    tokens: &Vec<String>,
    pos: &mut usize,
    brackets: &mut usize,
    procs: &mut ProcTable,
) -> (r: Result<Vec<Node>, ParseError>)
    requires
        *old(pos) <= tokens.len(),
        *old(brackets) + (tokens.len() - *old(pos)) <= usize::MAX,
    ensures
        nodes_outcome(
            r,
            arguments(texts(tokens@), role, seq![], cursor_of(*old(pos), *old(brackets), old(procs)@)),
            *final(pos),
            *final(brackets),
            final(procs)@,
        ),
        progress(
            tokens.len(),
            *old(pos),
            *old(brackets),
            old(procs)@,
            *final(pos),
            *final(brackets),
            final(procs)@,
        ),
        r is Ok ==> *final(pos) > *old(pos),
    decreases tokens.len() - *old(pos), 1int,
{
    let ghost t = texts(tokens@);
    let ghost c0 = cursor_of(*old(pos), *old(brackets), old(procs)@);
    let ghost p0 = *pos;
    let ghost b0 = *brackets;
    let ghost m0 = procs@;
    let mut args: Vec<Node> = Vec::new();
    assert(nodes_view(args@) =~= seq![]);
    loop
        invariant
            t == texts(tokens@),
            p0 == *old(pos),
            b0 == *old(brackets),
            m0 == old(procs)@,
            c0 == cursor_of(*old(pos), *old(brackets), old(procs)@),
            progress(tokens.len(), p0, b0, m0, *pos, *brackets, procs@),
            b0 + (tokens.len() - p0) <= usize::MAX,
            arguments(t, role, nodes_view(args@), cursor_of(*pos, *brackets, procs@))
                == arguments(t, role, seq![], c0),
        decreases tokens.len() - *pos,
    {
        let ghost acc = nodes_view(args@);
        match parse_command(tokens, pos, brackets, procs) {
            Err(_) => {
                return Err(ParseError::MalformedOperand(role));
            },
            Ok(node) => {
                match node {
                    Node::Newline => {
                        return Ok(args);
                    },
                    Node::Empty => {
                        return Err(ParseError::MalformedOperand(role));
                    },
                    other => {
                        args.push(other);
                        assert(nodes_view(args@) =~= acc.push(other@));
                        if *pos < tokens.len() && same_text(&tokens[*pos], "\n") {
                            return Ok(args);
                        }
                    },
                }
            },
        }
    }
}

/// Parses one operand; a missing or failing one is reported as `role`.
fn parse_operand(
    role: Operand,
    tokens: &Vec<String>,
    pos: &mut usize,
    brackets: &mut usize,
    procs: &mut ProcTable,
) -> (r: Result<Node, ParseError>)
    requires
        *old(pos) <= tokens.len(),
        *old(brackets) + (tokens.len() - *old(pos)) <= usize::MAX,
    ensures
        node_outcome(
            r,
            operand(texts(tokens@), role, cursor_of(*old(pos), *old(brackets), old(procs)@)),
            *final(pos),
            *final(brackets),
            final(procs)@,
        ),
        progress(
            tokens.len(),
            *old(pos),
            *old(brackets),
            old(procs)@,
            *final(pos),
            *final(brackets),
            final(procs)@,
        ),
        r is Ok ==> *final(pos) > *old(pos),
    decreases tokens.len() - *old(pos), 1int,
{
    match parse_command(tokens, pos, brackets, procs) {
        Ok(node) => match node {
            Node::Empty | Node::Newline => Err(ParseError::MalformedOperand(role)),
            other => Ok(other),
        },
        Err(_) => Err(ParseError::MalformedOperand(role)),
    }
}

/// Parses the operand of a unary command.
fn parse_unary(
    procedure: UnaryOp,
    tokens: &Vec<String>,
    pos: &mut usize,
    brackets: &mut usize,
    procs: &mut ProcTable,
) -> (r: Result<Node, ParseError>)
    requires
        *old(pos) <= tokens.len(),
        *old(brackets) + (tokens.len() - *old(pos)) <= usize::MAX,
    ensures
        node_outcome(
            r,
            unary(texts(tokens@), procedure, cursor_of(*old(pos), *old(brackets), old(procs)@)),
            *final(pos),
            *final(brackets),
            final(procs)@,
        ),
        progress(
            tokens.len(),
            *old(pos),
            *old(brackets),
            old(procs)@,
            *final(pos),
            *final(brackets),
            final(procs)@,
        ),
        r is Ok ==> *final(pos) > *old(pos),
    decreases tokens.len() - *old(pos), 2int,
{
    match parse_operand(Operand::Child, tokens, pos, brackets, procs) {
        Ok(expr) => Ok(Node::UnaryExpr { op: procedure, child: Box::new(expr) }),
        Err(e) => Err(e),
    }
}

/// Parses the two operands of a plain binary command, left to right.
fn parse_binary(
    procedure: BinaryOp,
    tokens: &Vec<String>,
    pos: &mut usize,
    brackets: &mut usize,
    procs: &mut ProcTable,
) -> (r: Result<Node, ParseError>)
    requires
        *old(pos) <= tokens.len(),
        *old(brackets) + (tokens.len() - *old(pos)) <= usize::MAX,
    ensures
        node_outcome(
            r,
            binary(texts(tokens@), procedure@, cursor_of(*old(pos), *old(brackets), old(procs)@)),
            *final(pos),
            *final(brackets),
            final(procs)@,
        ),
        progress(
            tokens.len(),
            *old(pos),
            *old(brackets),
            old(procs)@,
            *final(pos),
            *final(brackets),
            final(procs)@,
        ),
        r is Ok ==> *final(pos) > *old(pos),
    decreases tokens.len() - *old(pos), 2int,
{
    match parse_operand(Operand::First, tokens, pos, brackets, procs) {
        Ok(expr1) => match parse_operand(Operand::Second, tokens, pos, brackets, procs) {
            Ok(expr2) => Ok(
                Node::BinaryExpr { op: procedure, lhs: Box::new(expr1), rhs: Box::new(expr2) },
            ),
            Err(e) => Err(e),
        },
        Err(e) => Err(e),
    }
}

/// Parses `IF` or `WHILE`: the condition, then the statements of the block.
fn parse_conditional_binary(
    procedure: BinaryOp,
    tokens: &Vec<String>,
    pos: &mut usize,
    brackets: &mut usize,
    procs: &mut ProcTable,
) -> (r: Result<Node, ParseError>)
    requires
        *old(pos) <= tokens.len(),
        *old(brackets) + (tokens.len() - *old(pos)) <= usize::MAX,
    ensures
        node_outcome(
            r,
            conditional(texts(tokens@), procedure@, cursor_of(*old(pos), *old(brackets), old(procs)@)),
            *final(pos),
            *final(brackets),
            final(procs)@,
        ),
        progress(
            tokens.len(),
            *old(pos),
            *old(brackets),
            old(procs)@,
            *final(pos),
            *final(brackets),
            final(procs)@,
        ),
        r is Ok ==> *final(pos) > *old(pos),
    decreases tokens.len() - *old(pos), 2int,
{
    match parse_operand(Operand::Condition, tokens, pos, brackets, procs) {
        Ok(cond) => match parse_logo(tokens, pos, brackets, procs) {
            Ok(body) => {
                proof {
                    lemma_body_view(body);
                }
                Ok(
                    Node::BinaryExpr {
                        op: procedure,
                        lhs: Box::new(cond),
                        rhs: Box::new(Node::Body(body)),
                    },
                )
            },
            Err(e) => Err(e),
        },
        Err(e) => Err(e),
    }
}

/// Parses the rest of a procedure definition: its formal parameters up to the
/// end of the line, then the statements of its body.
fn parse_functional_binary(
    procedure: BinaryOp,
    tokens: &Vec<String>,
    pos: &mut usize,
    brackets: &mut usize,
    procs: &mut ProcTable,
) -> (r: Result<Node, ParseError>)
    requires
        procedure is Func,
        *old(pos) <= tokens.len(),
        *old(brackets) + (tokens.len() - *old(pos)) <= usize::MAX,
    ensures
        node_outcome(
            r,
            definition(texts(tokens@), procedure->Func_0@, cursor_of(*old(pos), *old(brackets), old(procs)@)),
            *final(pos),
            *final(brackets),
            final(procs)@,
        ),
        progress(
            tokens.len(),
            *old(pos),
            *old(brackets),
            old(procs)@,
            *final(pos),
            *final(brackets),
            final(procs)@,
        ),
        r is Ok ==> *final(pos) > *old(pos),
    decreases tokens.len() - *old(pos), 2int,
{
    match parse_arguments(Operand::Parameter, tokens, pos, brackets, procs) {
        Ok(args) => match parse_logo(tokens, pos, brackets, procs) {
            Ok(body) => {
                proof {
                    lemma_body_view(args);
                    lemma_body_view(body);
                }
                Ok(
                    Node::BinaryExpr {
                        op: procedure,
                        lhs: Box::new(Node::Body(args)),
                        rhs: Box::new(Node::Body(body)),
                    },
                )
            },
            Err(e) => Err(e),
        },
        Err(e) => Err(e),
    }
}

/// Parses the operands of a command by the sub-parser that its tag selects.
fn parse_procedure(
    procedure: Procedure,
    tokens: &Vec<String>,
    pos: &mut usize,
    brackets: &mut usize,
    procs: &mut ProcTable,
) -> (r: Result<Node, ParseError>)
    requires
        *old(pos) <= tokens.len(),
        *old(brackets) + (tokens.len() - *old(pos)) <= usize::MAX,
    ensures
        node_outcome(
            r,
            dispatch(texts(tokens@), procedure, cursor_of(*old(pos), *old(brackets), old(procs)@)),
            *final(pos),
            *final(brackets),
            final(procs)@,
        ),
        progress(
            tokens.len(),
            *old(pos),
            *old(brackets),
            old(procs)@,
            *final(pos),
            *final(brackets),
            final(procs)@,
        ),
        r is Ok ==> *final(pos) > *old(pos),
    decreases tokens.len() - *old(pos), 3int,
{
    match procedure {
        Procedure::Unary(op) => parse_unary(op, tokens, pos, brackets, procs),
        Procedure::Binary(op) => match op {
            BinaryOp::If => parse_conditional_binary(BinaryOp::If, tokens, pos, brackets, procs),
            BinaryOp::While => parse_conditional_binary(BinaryOp::While, tokens, pos, brackets, procs),
            BinaryOp::Func(name) => parse_functional_binary(
                BinaryOp::Func(name),
                tokens,
                pos,
                brackets,
                procs,
            ),
            other => parse_binary(other, tokens, pos, brackets, procs),
        },
    }
}

/// Parses a whole program: from the first token, with no open block and no
/// procedure defined. Input that ends inside a block is rejected.
pub fn parse_program(tokens: &Vec<String>) -> (r: Result<Vec<Node>, ParseError>)
    ensures
        match parse_result(texts(tokens@)) {
            Ok(stmts) => r is Ok && nodes_view(r->Ok_0@) == stmts,
            Err(e) => r == Err::<Vec<Node>, ParseError>(e),
        },
{
    let mut pos: usize = 0;
    let mut brackets: usize = 0;
    let mut procs = ProcTable::new();
    match parse_logo(tokens, &mut pos, &mut brackets, &mut procs) {
        Ok(ast) => {
            if brackets != 0 {
                Err(ParseError::UnbalancedBlock)
            } else {
                Ok(ast)
            }
        },
        Err(e) => Err(e),
    }
}

} // verus!
