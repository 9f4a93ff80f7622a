use crate::ast::{Ast, BinOp, BinaryOp, Leaf, Operand, ParseError, UnaryOp};
use vstd::prelude::*;

verus! {

/// The lexical identity of a token, as the parser sees it.
pub enum Word {
    Penup,
    Pendown,
    Heading,
    Xcor,
    Ycor,
    Color,
    Marker(Leaf),
    Unary(UnaryOp),
    Binary(BinaryOp),
    To,
    End,
    Comment,
    Newline,
    Open,
    Close,
    Other,
}

/// A command that takes operands: the tag that selects its sub-parser.
pub enum Procedure {
    Unary(UnaryOp),
    Binary(BinaryOp),
}

/// Where the parser stands: the next token, the number of open blocks, and the
/// procedures defined so far.
pub struct Cursor {
    pub pos: int,
    pub depth: int,
    pub procs: Map<Seq<char>, Ast>,
}

/// The tokens as text.
pub open spec fn texts(v: Seq<String>) -> Seq<Seq<char>> {
    v.map_values(|s: String| s@)
}

/// What the parser takes a token to be. Keywords match exactly.
pub open spec fn word_of(w: Seq<char>) -> Word {
    if w == "PENUP"@ { Word::Penup }
    else if w == "PENDOWN"@ { Word::Pendown }
    else if w == "HEADING"@ { Word::Heading }
    else if w == "XCOR"@ { Word::Xcor }
    else if w == "YCOR"@ { Word::Ycor }
    else if w == "COLOR"@ { Word::Color }
    else if w == "\""@ { Word::Marker(Leaf::Literal) }
    else if w == ":"@ { Word::Marker(Leaf::Variable) }
    else if w == "FORWARD"@ { Word::Unary(UnaryOp::Forward) }
    else if w == "BACK"@ { Word::Unary(UnaryOp::Back) }
    else if w == "LEFT"@ { Word::Unary(UnaryOp::Left) }
    else if w == "RIGHT"@ { Word::Unary(UnaryOp::Right) }
    else if w == "SETPENCOLOR"@ { Word::Unary(UnaryOp::Setpencolor) }
    else if w == "TURN"@ { Word::Unary(UnaryOp::Turn) }
    else if w == "SETHEADING"@ { Word::Unary(UnaryOp::Setheading) }
    else if w == "SETX"@ { Word::Unary(UnaryOp::Setx) }
    else if w == "SETY"@ { Word::Unary(UnaryOp::Sety) }
    else if w == "MAKE"@ { Word::Binary(BinaryOp::Make) }
    else if w == "ADDASSIGN"@ { Word::Binary(BinaryOp::Addassign) }
    else if w == "IF"@ { Word::Binary(BinaryOp::If) }
    else if w == "WHILE"@ { Word::Binary(BinaryOp::While) }
    else if w == "EQ"@ { Word::Binary(BinaryOp::Eq) }
    else if w == "NE"@ { Word::Binary(BinaryOp::Ne) }
    else if w == "GT"@ { Word::Binary(BinaryOp::Gt) }
    else if w == "LT"@ { Word::Binary(BinaryOp::Lt) }
    else if w == "AND"@ { Word::Binary(BinaryOp::And) }
    else if w == "OR"@ { Word::Binary(BinaryOp::Or) }
    else if w == "+"@ { Word::Binary(BinaryOp::Add) }
    else if w == "-"@ { Word::Binary(BinaryOp::Sub) }
    else if w == "*"@ { Word::Binary(BinaryOp::Mul) }
    else if w == "/"@ { Word::Binary(BinaryOp::Div) }
    else if w == "TO"@ { Word::To }
    else if w == "END"@ { Word::End }
    else if w == "//"@ { Word::Comment }
    else if w == "\n"@ { Word::Newline }
    else if w == "["@ { Word::Open }
    else if w == "]"@ { Word::Close }
    else { Word::Other }
}

/// Whether `c2` stands after `c` and within the input.
pub open spec fn advanced(t: Seq<Seq<char>>, c: Cursor, c2: Cursor) -> bool {
    c.pos < c2.pos <= t.len()
}

/// The cursor moved on by one token.
pub open spec fn next(c: Cursor) -> Cursor {
    Cursor { pos: c.pos + 1, depth: c.depth, procs: c.procs }
}

/// The cursor with its block depth changed by `d`.
pub open spec fn nest(c: Cursor, d: int) -> Cursor {
    Cursor { pos: c.pos, depth: c.depth + d, procs: c.procs }
}

/// One command read at `c`: the node it yields, or the error, and where the
/// parser stands after it. At the end of input it yields `Empty` and reads nothing.
pub open spec fn command(t: Seq<Seq<char>>, c: Cursor) -> Result<(Ast, Cursor), (ParseError, Cursor)>
    decreases t.len() - c.pos, 0int,
{
    if !(0 <= c.pos < t.len()) {
        Ok((Ast::Empty, c))
    } else {
        let tok = t[c.pos];
        let c1 = next(c);
        match word_of(tok) {
            Word::Penup => Ok((Ast::Penup, c1)),
            Word::Pendown => Ok((Ast::Pendown, c1)),
            Word::Heading => Ok((Ast::Heading, c1)),
            Word::Xcor => Ok((Ast::Xcor, c1)),
            Word::Ycor => Ok((Ast::Ycor, c1)),
            Word::Color => Ok((Ast::Color, c1)),
            Word::Marker(l) => leaf(t, l, c1),
            Word::Unary(op) => dispatch(t, Procedure::Unary(op), c1),
            Word::Binary(op) => dispatch(t, Procedure::Binary(op), c1),
            Word::To => {
                let c2 = nest(c1, 1);
                if c2.pos >= t.len() {
                    Err((ParseError::MalformedOperand(Operand::Name), c2))
                } else {
                    match definition(t, t[c2.pos], next(c2)) {
                        Ok((def, c3)) => Ok(
                            (
                                def,
                                Cursor {
                                    pos: c3.pos,
                                    depth: c3.depth,
                                    procs: c3.procs.insert(t[c2.pos], def),
                                },
                            ),
                        ),
                        Err(e) => Err(e),
                    }
                }
            },
            Word::End | Word::Close => {
                if c.depth <= 0 {
                    Err((ParseError::UnbalancedBlock, c1))
                } else {
                    Ok((Ast::Empty, nest(c1, -1)))
                }
            },
            Word::Comment => comment(t, c1),
            Word::Newline => Ok((Ast::Newline, c1)),
            Word::Open => command(t, nest(c1, 1)),
            Word::Other => {
                if c.procs.dom().contains(tok) {
                    match arguments(t, Operand::Argument, seq![], c1) {
                        Ok((args, c2)) => Ok(
                            (Ast::Caller(tok, Box::new(Ast::Body(args))), c2),
                        ),
                        Err(e) => Err(e),
                    }
                } else {
                    Err((ParseError::UnknownCommand, c1))
                }
            },
        }
    }
}

/// The rest of a comment line is skipped, then one command is read from the
/// next line.
pub open spec fn comment(t: Seq<Seq<char>>, c: Cursor) -> Result<(Ast, Cursor), (ParseError, Cursor)>
    decreases t.len() - c.pos, 0int,
{
    if !(0 <= c.pos < t.len()) {
        Ok((Ast::Empty, c))
    } else if t[c.pos] == "\n"@ {
        command(t, next(c))
    } else {
        comment(t, next(c))
    }
}

/// The payload token of a literal or a variable.
pub open spec fn leaf(t: Seq<Seq<char>>, l: Leaf, c: Cursor) -> Result<(Ast, Cursor), (ParseError, Cursor)> {
    if !(0 <= c.pos < t.len()) {
        Err((ParseError::MalformedOperand(Operand::Value), c))
    } else {
        match l {
            Leaf::Literal => Ok((Ast::Literal(t[c.pos]), next(c))),
            Leaf::Variable => Ok((Ast::Variable(t[c.pos]), next(c))),
        }
    }
}

/// One operand: a command that yields a node. Any failure, and a missing
/// operand (end of line, end of block, end of input), is reported as `role`.
pub open spec fn operand(t: Seq<Seq<char>>, role: Operand, c: Cursor) -> Result<(Ast, Cursor), (ParseError, Cursor)>
    decreases t.len() - c.pos, 1int,
{
    match command(t, c) {
        Ok((a, c2)) => {
            if a is Empty || a is Newline {
                Err((ParseError::MalformedOperand(role), c2))
            } else {
                Ok((a, c2))
            }
        },
        Err((_, c2)) => Err((ParseError::MalformedOperand(role), c2)),
    }
}

/// A list of operands up to the end of the line, after the nodes `acc`.
pub open spec fn arguments(t: Seq<Seq<char>>, role: Operand, acc: Seq<Ast>, c: Cursor) -> Result<(Seq<Ast>, Cursor), (ParseError, Cursor)>
    decreases t.len() - c.pos, 1int,
{
    match command(t, c) {
        Ok((a, c2)) => {
            if a is Newline {
                Ok((acc, c2))
            } else if a is Empty || !advanced(t, c, c2) {
                Err((ParseError::MalformedOperand(role), c2))
            } else if c2.pos < t.len() && t[c2.pos] == "\n"@ {
                Ok((acc.push(a), c2))
            } else {
                arguments(t, role, acc.push(a), c2)
            }
        },
        Err((_, c2)) => Err((ParseError::MalformedOperand(role), c2)),
    }
}

/// A sequence of statements, after the nodes `acc`, up to the command that
/// yields `Empty`. Each statement ends its line.
pub open spec fn program(t: Seq<Seq<char>>, acc: Seq<Ast>, c: Cursor) -> Result<(Seq<Ast>, Cursor), (ParseError, Cursor)>
    decreases t.len() - c.pos, 1int,
{
    match command(t, c) {
        Ok((a, c2)) => {
            if a is Empty || !advanced(t, c, c2) {
                Ok((acc, c2))
            } else if a is Newline {
                program(t, acc, c2)
            } else if c2.pos >= t.len() {
                Ok((acc.push(a), c2))
            } else if t[c2.pos] == "\n"@ {
                program(t, acc.push(a), c2)
            } else {
                Err((ParseError::TrailingToken, c2))
            }
        },
        Err(e) => Err(e),
    }
}

/// A unary command's operand.
pub open spec fn unary(t: Seq<Seq<char>>, op: UnaryOp, c: Cursor) -> Result<(Ast, Cursor), (ParseError, Cursor)>
    decreases t.len() - c.pos, 2int,
{
    match operand(t, Operand::Child, c) {
        Ok((a, c2)) => Ok((Ast::UnaryExpr(op, Box::new(a)), c2)),
        Err(e) => Err(e),
    }
}

/// A plain binary command's two operands, left to right.
pub open spec fn binary(t: Seq<Seq<char>>, op: BinOp, c: Cursor) -> Result<(Ast, Cursor), (ParseError, Cursor)>
    decreases t.len() - c.pos, 2int,
{
    match operand(t, Operand::First, c) {
        Ok((a, c2)) => {
            if !advanced(t, c, c2) {
                Err((ParseError::MalformedOperand(Operand::First), c2))
            } else {
                match operand(t, Operand::Second, c2) {
                    Ok((b, c3)) => Ok((Ast::BinaryExpr(op, Box::new(a), Box::new(b)), c3)),
                    Err(e) => Err(e),
                }
            }
        },
        Err(e) => Err(e),
    }
}

/// `IF` or `WHILE`: a condition, then the statements of its block.
pub open spec fn conditional(t: Seq<Seq<char>>, op: BinOp, c: Cursor) -> Result<(Ast, Cursor), (ParseError, Cursor)>
    decreases t.len() - c.pos, 2int,
{
    match operand(t, Operand::Condition, c) {
        Ok((cond, c2)) => {
            if !advanced(t, c, c2) {
                Err((ParseError::MalformedOperand(Operand::Condition), c2))
            } else {
                match program(t, seq![], c2) {
                    Ok((body, c3)) => Ok(
                        (Ast::BinaryExpr(op, Box::new(cond), Box::new(Ast::Body(body))), c3),
                    ),
                    Err(e) => Err(e),
                }
            }
        },
        Err(e) => Err(e),
    }
}

/// The rest of a definition of procedure `name`: its formal parameters up to
/// the end of the line, then the statements of its body.
pub open spec fn definition(t: Seq<Seq<char>>, name: Seq<char>, c: Cursor) -> Result<(Ast, Cursor), (ParseError, Cursor)>
    decreases t.len() - c.pos, 2int,
{
    match arguments(t, Operand::Parameter, seq![], c) {
        Ok((formals, c2)) => {
            if !advanced(t, c, c2) {
                Err((ParseError::MalformedOperand(Operand::Parameter), c2))
            } else {
                match program(t, seq![], c2) {
                    Ok((body, c3)) => Ok(
                        (
                            Ast::BinaryExpr(
                                BinOp::Func(name),
                                Box::new(Ast::Body(formals)),
                                Box::new(Ast::Body(body)),
                            ),
                            c3,
                        ),
                    ),
                    Err(e) => Err(e),
                }
            }
        },
        Err(e) => Err(e),
    }
}

/// The operands of a command, by the sub-parser that its tag selects.
pub open spec fn dispatch(t: Seq<Seq<char>>, p: Procedure, c: Cursor) -> Result<(Ast, Cursor), (ParseError, Cursor)>
    decreases t.len() - c.pos, 3int,
{
    match p {
        Procedure::Unary(op) => unary(t, op, c),
        Procedure::Binary(op) => match op {
            BinaryOp::If | BinaryOp::While => conditional(t, op@, c),
            BinaryOp::Func(name) => definition(t, name@, c),
            _ => binary(t, op@, c),
        },
    }
}

/// The whole program from the first token, with no open block and no
/// procedure: its statements, unless it fails or ends inside a block.
pub open spec fn parse_result(t: Seq<Seq<char>>) -> Result<Seq<Ast>, ParseError> {
    match program(t, seq![], Cursor { pos: 0, depth: 0, procs: Map::empty() }) {
        Ok((stmts, c)) => {
            if c.depth == 0 {
                Ok(stmts)
            } else {
                Err(ParseError::UnbalancedBlock)
            }
        },
        Err((e, _)) => Err(e),
    }
}

} // verus!
