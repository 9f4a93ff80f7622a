use crate::ast::{Ast, BinaryOp, Leaf, ParseError, UnaryOp};
use crate::grammar::{command, parse_result, program, texts, word_of, Cursor, Word};
use vstd::prelude::*;

verus! {

/// A `]` or `END` met as a statement while no block is open fails with
/// `UnbalancedBlock` at that token, whatever follows it and whatever came
/// before in the same sequence: the parser stops right after it, with the
/// depth and the procedure table as they were.
pub proof fn lemma_unmatched_close_fails(t: Seq<Seq<char>>, acc: Seq<Ast>, c: Cursor)
    requires
        0 <= c.pos < t.len(),
        c.depth == 0,
        t[c.pos] == "]"@ || t[c.pos] == "END"@,
    ensures
        command(t, c) == Err::<(Ast, Cursor), (ParseError, Cursor)>(
            (ParseError::UnbalancedBlock, Cursor { pos: c.pos + 1, depth: c.depth, procs: c.procs }),
        ),
        program(t, acc, c) == Err::<(Seq<Ast>, Cursor), (ParseError, Cursor)>(
            (ParseError::UnbalancedBlock, Cursor { pos: c.pos + 1, depth: c.depth, procs: c.procs }),
        ),
{
    lemma_block_words();
}

/// A word that is no keyword, met as a command while no procedure of that name
/// has been defined, fails with `UnknownCommand` at that token: the parser
/// stops right after it, with the depth and the procedure table as they were.
pub proof fn lemma_undefined_call_fails(t: Seq<Seq<char>>, acc: Seq<Ast>, c: Cursor)
    requires
        0 <= c.pos < t.len(),
        word_of(t[c.pos]) is Other,
        !c.procs.dom().contains(t[c.pos]),
    ensures
        command(t, c) == Err::<(Ast, Cursor), (ParseError, Cursor)>(
            (ParseError::UnknownCommand, Cursor { pos: c.pos + 1, depth: c.depth, procs: c.procs }),
        ),
        program(t, acc, c) == Err::<(Seq<Ast>, Cursor), (ParseError, Cursor)>(
            (ParseError::UnknownCommand, Cursor { pos: c.pos + 1, depth: c.depth, procs: c.procs }),
        ),
{
}

/// Parsing depends on the text of the tokens alone: two token lists with the
/// same text give the same result, so running the pipeline again on the same
/// input gives the same tree.
pub proof fn lemma_parse_repeatable(a: Seq<String>, b: Seq<String>)
    requires
        texts(a) == texts(b),
    ensures
        parse_result(texts(a)) == parse_result(texts(b)),
{
}


/// How the parser reads the keywords that well-formed blocks are built of.
proof fn lemma_block_words()
    ensures
        word_of("FORWARD"@) == Word::Unary(UnaryOp::Forward),
        word_of("\""@) == Word::Marker(Leaf::Literal),
        word_of("WHILE"@) == Word::Binary(BinaryOp::While),
        word_of("PENUP"@) == Word::Penup,
        word_of("["@) == Word::Open,
        word_of("]"@) == Word::Close,
        word_of("\n"@) == Word::Newline,
        word_of("TO"@) == Word::To,
        word_of("END"@) == Word::End,
{
    reveal_strlit("PENUP");
    reveal_strlit("PENDOWN");
    reveal_strlit("HEADING");
    reveal_strlit("XCOR");
    reveal_strlit("YCOR");
    reveal_strlit("COLOR");
    reveal_strlit("\"");
    reveal_strlit(":");
    reveal_strlit("FORWARD");
    reveal_strlit("BACK");
    reveal_strlit("LEFT");
    reveal_strlit("RIGHT");
    reveal_strlit("SETPENCOLOR");
    reveal_strlit("TURN");
    reveal_strlit("SETHEADING");
    reveal_strlit("SETX");
    reveal_strlit("SETY");
    reveal_strlit("MAKE");
    reveal_strlit("ADDASSIGN");
    reveal_strlit("IF");
    reveal_strlit("WHILE");
    reveal_strlit("EQ");
    reveal_strlit("NE");
    reveal_strlit("GT");
    reveal_strlit("LT");
    reveal_strlit("AND");
    reveal_strlit("OR");
    reveal_strlit("+");
    reveal_strlit("-");
    reveal_strlit("*");
    reveal_strlit("/");
    reveal_strlit("TO");
    reveal_strlit("END");
    reveal_strlit("//");
    reveal_strlit("\n");
    reveal_strlit("[");
    reveal_strlit("]");
    assert("PENUP"@.len() == 5);
    assert("PENDOWN"@.len() == 7);
    assert("HEADING"@.len() == 7);
    assert("XCOR"@.len() == 4);
    assert("YCOR"@.len() == 4);
    assert("COLOR"@.len() == 5);
    assert("\""@.len() == 1);
    assert(":"@.len() == 1);
    assert("FORWARD"@.len() == 7);
    assert("BACK"@.len() == 4);
    assert("LEFT"@.len() == 4);
    assert("RIGHT"@.len() == 5);
    assert("SETPENCOLOR"@.len() == 11);
    assert("TURN"@.len() == 4);
    assert("SETHEADING"@.len() == 10);
    assert("SETX"@.len() == 4);
    assert("SETY"@.len() == 4);
    assert("MAKE"@.len() == 4);
    assert("ADDASSIGN"@.len() == 9);
    assert("IF"@.len() == 2);
    assert("WHILE"@.len() == 5);
    assert("EQ"@.len() == 2);
    assert("NE"@.len() == 2);
    assert("GT"@.len() == 2);
    assert("LT"@.len() == 2);
    assert("AND"@.len() == 3);
    assert("OR"@.len() == 2);
    assert("+"@.len() == 1);
    assert("-"@.len() == 1);
    assert("*"@.len() == 1);
    assert("/"@.len() == 1);
    assert("TO"@.len() == 2);
    assert("END"@.len() == 3);
    assert("//"@.len() == 2);
    assert("\n"@.len() == 1);
    assert("["@.len() == 1);
    assert("]"@.len() == 1);
    assert("FORWARD"@[0] != "PENDOWN"@[0]);
    assert("FORWARD"@[0] != "HEADING"@[0]);
    assert("WHILE"@[0] != "PENUP"@[0]);
    assert("WHILE"@[0] != "COLOR"@[0]);
    assert("WHILE"@[0] != "RIGHT"@[0]);
    assert("["@[0] != "\""@[0]);
    assert("["@[0] != ":"@[0]);
    assert("["@[0] != "+"@[0]);
    assert("["@[0] != "-"@[0]);
    assert("["@[0] != "*"@[0]);
    assert("["@[0] != "/"@[0]);
    assert("["@[0] != "\n"@[0]);
    assert("]"@[0] != "\""@[0]);
    assert("]"@[0] != ":"@[0]);
    assert("]"@[0] != "+"@[0]);
    assert("]"@[0] != "-"@[0]);
    assert("]"@[0] != "*"@[0]);
    assert("]"@[0] != "/"@[0]);
    assert("]"@[0] != "\n"@[0]);
    assert("]"@[0] != "["@[0]);
    assert("\n"@[0] != "\""@[0]);
    assert("\n"@[0] != ":"@[0]);
    assert("\n"@[0] != "+"@[0]);
    assert("\n"@[0] != "-"@[0]);
    assert("\n"@[0] != "*"@[0]);
    assert("\n"@[0] != "/"@[0]);
    assert("TO"@[0] != "IF"@[0]);
    assert("TO"@[0] != "EQ"@[0]);
    assert("TO"@[0] != "NE"@[0]);
    assert("TO"@[0] != "GT"@[0]);
    assert("TO"@[0] != "LT"@[0]);
    assert("TO"@[0] != "OR"@[0]);
    assert("END"@[0] != "AND"@[0]);
}

/// A statement of a well-formed program, whose blocks close what they open.
pub enum Stmt {
    /// `FORWARD "x` on a line of its own.
    Move(Seq<char>),
    /// An empty line.
    Blank,
    /// `WHILE PENUP [` on a line, the statements of the block, then `]` on a line.
    Loop(Seq<Stmt>),
    /// `TO name` on a line, the statements of the body, then `END` on a line.
    Define(Seq<char>, Seq<Stmt>),
}

/// The tokens of a statement.
pub open spec fn stmt_tokens(s: Stmt) -> Seq<Seq<char>>
    decreases s,
{
    match s {
        Stmt::Move(x) => seq!["FORWARD"@, "\""@, x, "\n"@],
        Stmt::Blank => seq!["\n"@],
        Stmt::Loop(b) => seq!["WHILE"@, "PENUP"@, "["@, "\n"@] + stmts_tokens(b) + seq!["]"@, "\n"@],
        Stmt::Define(n, b) => seq!["TO"@, n, "\n"@] + stmts_tokens(b) + seq!["END"@, "\n"@],
    }
}

/// The tokens of a list of statements, in order.
pub open spec fn stmts_tokens(ss: Seq<Stmt>) -> Seq<Seq<char>>
    decreases ss,
{
    if ss.len() == 0 {
        seq![]
    } else {
        stmt_tokens(ss[0]) + stmts_tokens(ss.subrange(1, ss.len() as int))
    }
}

/// The names of the procedures that a statement defines.
pub open spec fn stmt_names(s: Stmt) -> Set<Seq<char>>
    decreases s,
{
    match s {
        Stmt::Move(_) => Set::empty(),
        Stmt::Blank => Set::empty(),
        Stmt::Loop(b) => stmts_names(b),
        Stmt::Define(n, b) => stmts_names(b).insert(n),
    }
}

/// The names of the procedures that a list of statements defines.
pub open spec fn stmts_names(ss: Seq<Stmt>) -> Set<Seq<char>>
    decreases ss,
{
    if ss.len() == 0 {
        Set::empty()
    } else {
        stmt_names(ss[0]).union(stmts_names(ss.subrange(1, ss.len() as int)))
    }
}

proof fn lemma_stmt_parses(s: Stmt, t: Seq<Seq<char>>, acc: Seq<Ast>, c: Cursor) -> (r: (
    Seq<Ast>,
    Map<Seq<char>, Ast>,
))
    requires
        0 <= c.pos,
        0 <= c.depth,
        c.pos + stmt_tokens(s).len() <= t.len(),
        t.subrange(c.pos, c.pos + stmt_tokens(s).len()) == stmt_tokens(s),
    ensures
        program(t, acc, c) == program(
            t,
            r.0,
            Cursor { pos: c.pos + stmt_tokens(s).len(), depth: c.depth, procs: r.1 },
        ),
        r.1.dom() == c.procs.dom().union(stmt_names(s)),
    decreases s,
{
    lemma_block_words();
    let p = c.pos;
    let d = c.depth;
    let e = stmt_tokens(s);
    let len = e.len() as int;
    assert forall|k: int| 0 <= k < len implies t[p + k] == e[k] by {
        assert(t.subrange(p, p + len)[k] == t[p + k]);
    }
    match s {
        Stmt::Move(x) => {
            assert(t[p + 0] == e[0] && t[p + 1] == e[1] && t[p + 2] == e[2] && t[p + 3] == e[3]);
            assert(t[p] == "FORWARD"@ && t[p + 1] == "\""@ && t[p + 2] == x && t[p + 3] == "\n"@);
            let c1 = Cursor { pos: p + 1, depth: d, procs: c.procs };
            let c3 = Cursor { pos: p + 3, depth: d, procs: c.procs };
            let c4 = Cursor { pos: p + 4, depth: d, procs: c.procs };
            let a = Ast::UnaryExpr(UnaryOp::Forward, Box::new(Ast::Literal(x)));
            assert(command(t, c1) == Ok::<(Ast, Cursor), (ParseError, Cursor)>((Ast::Literal(x), c3)));
            assert(crate::grammar::operand(t, crate::ast::Operand::Child, c1)
                == Ok::<(Ast, Cursor), (ParseError, Cursor)>((Ast::Literal(x), c3)));
            assert(crate::grammar::unary(t, UnaryOp::Forward, c1)
                == Ok::<(Ast, Cursor), (ParseError, Cursor)>((a, c3)));
            assert(crate::grammar::dispatch(t, crate::grammar::Procedure::Unary(UnaryOp::Forward), c1)
                == Ok::<(Ast, Cursor), (ParseError, Cursor)>((a, c3)));
            assert(command(t, c) == Ok::<(Ast, Cursor), (ParseError, Cursor)>((a, c3)));
            assert(command(t, c3) == Ok::<(Ast, Cursor), (ParseError, Cursor)>((Ast::Newline, c4)));
            assert(program(t, acc.push(a), c3) == program(t, acc.push(a), c4));
            assert(c.procs.dom() =~= c.procs.dom().union(Set::empty()));
            (acc.push(a), c.procs)
        },
        Stmt::Blank => {
            assert(t[p + 0] == e[0]);
            assert(t[p] == "\n"@);
            let c1 = Cursor { pos: p + 1, depth: d, procs: c.procs };
            assert(command(t, c) == Ok::<(Ast, Cursor), (ParseError, Cursor)>((Ast::Newline, c1)));
            assert(c.procs.dom() =~= c.procs.dom().union(Set::empty()));
            (acc, c.procs)
        },
        Stmt::Loop(b) => {
            let lb = stmts_tokens(b).len() as int;
            assert(t[p + 0] == e[0] && t[p + 1] == e[1] && t[p + 2] == e[2] && t[p + 3] == e[3]);
            assert(t[p + 4 + lb] == e[4 + lb] && t[p + 5 + lb] == e[5 + lb]);
            assert(t[p] == "WHILE"@ && t[p + 1] == "PENUP"@ && t[p + 2] == "["@ && t[p + 3] == "\n"@);
            assert(t[p + 4 + lb] == "]"@ && t[p + 5 + lb] == "\n"@) by {
                assert(e[4 + lb] == "]"@);
                assert(e[5 + lb] == "\n"@);
            }
            assert(t.subrange(p + 4, p + 4 + lb) =~= stmts_tokens(b)) by {
                assert forall|k: int| 0 <= k < lb implies t[p + 4 + k] == stmts_tokens(b)[k] by {
                    assert(e[4 + k] == stmts_tokens(b)[k]);
                }
            }
            let cb = Cursor { pos: p + 4, depth: d + 1, procs: c.procs };
            let (acc_b, procs_b) = lemma_stmts_parse(b, t, seq![], cb);
            let ce = Cursor { pos: p + 4 + lb, depth: d + 1, procs: procs_b };
            let cout = Cursor { pos: p + 5 + lb, depth: d, procs: procs_b };
            let cend = Cursor { pos: p + 6 + lb, depth: d, procs: procs_b };
            assert(command(t, ce) == Ok::<(Ast, Cursor), (ParseError, Cursor)>((Ast::Empty, cout)));
            assert(program(t, acc_b, ce) == Ok::<(Seq<Ast>, Cursor), (ParseError, Cursor)>((acc_b, cout)));
            let c1 = Cursor { pos: p + 1, depth: d, procs: c.procs };
            let c2 = Cursor { pos: p + 2, depth: d, procs: c.procs };
            let c3 = Cursor { pos: p + 3, depth: d + 1, procs: c.procs };
            assert(command(t, c3) == Ok::<(Ast, Cursor), (ParseError, Cursor)>((Ast::Newline, cb)));
            assert(command(t, c2) == Ok::<(Ast, Cursor), (ParseError, Cursor)>((Ast::Newline, cb)));
            assert(program(t, seq![], c2) == program(t, seq![], cb));
            let c2n = Cursor { pos: p + 2, depth: d, procs: c.procs };
            assert(command(t, c1) == Ok::<(Ast, Cursor), (ParseError, Cursor)>((Ast::Penup, c2n)));
            let a = Ast::BinaryExpr(
                BinaryOp::While@,
                Box::new(Ast::Penup),
                Box::new(Ast::Body(acc_b)),
            );
            assert(crate::grammar::operand(t, crate::ast::Operand::Condition, c1)
                == Ok::<(Ast, Cursor), (ParseError, Cursor)>((Ast::Penup, c2n)));
            assert(crate::grammar::conditional(t, BinaryOp::While@, c1)
                == Ok::<(Ast, Cursor), (ParseError, Cursor)>((a, cout)));
            assert(crate::grammar::dispatch(
                t,
                crate::grammar::Procedure::Binary(BinaryOp::While),
                c1,
            ) == Ok::<(Ast, Cursor), (ParseError, Cursor)>((a, cout)));
            assert(command(t, c) == Ok::<(Ast, Cursor), (ParseError, Cursor)>((a, cout)));
            assert(command(t, cout) == Ok::<(Ast, Cursor), (ParseError, Cursor)>((Ast::Newline, cend)));
            assert(program(t, acc.push(a), cout) == program(t, acc.push(a), cend));
            (acc.push(a), procs_b)
        },
        Stmt::Define(n, b) => {
            let lb = stmts_tokens(b).len() as int;
            assert(t[p + 0] == e[0] && t[p + 1] == e[1] && t[p + 2] == e[2]);
            assert(t[p + 3 + lb] == e[3 + lb] && t[p + 4 + lb] == e[4 + lb]);
            assert(t[p] == "TO"@ && t[p + 1] == n && t[p + 2] == "\n"@);
            assert(t[p + 3 + lb] == "END"@ && t[p + 4 + lb] == "\n"@) by {
                assert(e[3 + lb] == "END"@);
                assert(e[4 + lb] == "\n"@);
            }
            assert(t.subrange(p + 3, p + 3 + lb) =~= stmts_tokens(b)) by {
                assert forall|k: int| 0 <= k < lb implies t[p + 3 + k] == stmts_tokens(b)[k] by {
                    assert(e[3 + k] == stmts_tokens(b)[k]);
                }
            }
            let cb = Cursor { pos: p + 3, depth: d + 1, procs: c.procs };
            let (acc_b, procs_b) = lemma_stmts_parse(b, t, seq![], cb);
            let ce = Cursor { pos: p + 3 + lb, depth: d + 1, procs: procs_b };
            let cout = Cursor { pos: p + 4 + lb, depth: d, procs: procs_b };
            assert(command(t, ce) == Ok::<(Ast, Cursor), (ParseError, Cursor)>((Ast::Empty, cout)));
            assert(program(t, acc_b, ce) == Ok::<(Seq<Ast>, Cursor), (ParseError, Cursor)>((acc_b, cout)));
            let c2 = Cursor { pos: p + 2, depth: d + 1, procs: c.procs };
            assert(command(t, c2) == Ok::<(Ast, Cursor), (ParseError, Cursor)>((Ast::Newline, cb)));
            assert(crate::grammar::arguments(t, crate::ast::Operand::Parameter, seq![], c2)
                == Ok::<(Seq<Ast>, Cursor), (ParseError, Cursor)>((seq![], cb)));
            let def = Ast::BinaryExpr(
                crate::ast::BinOp::Func(n),
                Box::new(Ast::Body(seq![])),
                Box::new(Ast::Body(acc_b)),
            );
            assert(crate::grammar::definition(t, n, c2)
                == Ok::<(Ast, Cursor), (ParseError, Cursor)>((def, cout)));
            let cdef = Cursor { pos: p + 4 + lb, depth: d, procs: procs_b.insert(n, def) };
            let cend = Cursor { pos: p + 5 + lb, depth: d, procs: procs_b.insert(n, def) };
            assert(command(t, c) == Ok::<(Ast, Cursor), (ParseError, Cursor)>((def, cdef)));
            assert(command(t, cdef) == Ok::<(Ast, Cursor), (ParseError, Cursor)>((Ast::Newline, cend)));
            assert(program(t, acc.push(def), cdef) == program(t, acc.push(def), cend));
            assert(procs_b.insert(n, def).dom() =~= c.procs.dom().union(stmts_names(b).insert(n)));
            (acc.push(def), procs_b.insert(n, def))
        },
    }
}

proof fn lemma_stmts_parse(ss: Seq<Stmt>, t: Seq<Seq<char>>, acc: Seq<Ast>, c: Cursor) -> (r: (
    Seq<Ast>,
    Map<Seq<char>, Ast>,
))
    requires
        0 <= c.pos,
        0 <= c.depth,
        c.pos + stmts_tokens(ss).len() <= t.len(),
        t.subrange(c.pos, c.pos + stmts_tokens(ss).len()) == stmts_tokens(ss),
    ensures
        program(t, acc, c) == program(
            t,
            r.0,
            Cursor { pos: c.pos + stmts_tokens(ss).len(), depth: c.depth, procs: r.1 },
        ),
        r.1.dom() == c.procs.dom().union(stmts_names(ss)),
    decreases ss,
{
    if ss.len() == 0 {
        assert(c.procs.dom() =~= c.procs.dom().union(Set::empty()));
        (acc, c.procs)
    } else {
        let p = c.pos;
        let rest = ss.subrange(1, ss.len() as int);
        let l0 = stmt_tokens(ss[0]).len() as int;
        let l1 = stmts_tokens(rest).len() as int;
        let e = stmts_tokens(ss);
        assert(e == stmt_tokens(ss[0]) + stmts_tokens(rest));
        assert(t.subrange(p, p + l0) =~= stmt_tokens(ss[0])) by {
            assert forall|k: int| 0 <= k < l0 implies t[p + k] == stmt_tokens(ss[0])[k] by {
                assert(t.subrange(p, p + l0 + l1)[k] == t[p + k]);
                assert(e[k] == stmt_tokens(ss[0])[k]);
            }
        }
        assert(t.subrange(p + l0, p + l0 + l1) =~= stmts_tokens(rest)) by {
            assert forall|k: int| 0 <= k < l1 implies t[p + l0 + k] == stmts_tokens(rest)[k] by {
                assert(t.subrange(p, p + l0 + l1)[l0 + k] == t[p + l0 + k]);
                assert(e[l0 + k] == stmts_tokens(rest)[k]);
            }
        }
        let (a1, m1) = lemma_stmt_parses(ss[0], t, acc, c);
        let c1 = Cursor { pos: p + l0, depth: c.depth, procs: m1 };
        let (a2, m2) = lemma_stmts_parse(rest, t, a1, c1);
        assert(m2.dom() =~= c.procs.dom().union(stmts_names(ss)));
        (a2, m2)
    }
}

/// A program built of statements whose `[ ... ]` and `TO ... END` blocks are
/// balanced parses with no error, reads all of its tokens, and ends with no
/// block open.
pub proof fn lemma_balanced_program_parses(ss: Seq<Stmt>)
    ensures
        program(stmts_tokens(ss), seq![], Cursor { pos: 0, depth: 0, procs: Map::empty() }) is Ok,
        program(stmts_tokens(ss), seq![], Cursor { pos: 0, depth: 0, procs: Map::empty() })->Ok_0.1.pos
            == stmts_tokens(ss).len(),
        program(stmts_tokens(ss), seq![], Cursor { pos: 0, depth: 0, procs: Map::empty() })->Ok_0.1.depth
            == 0,
        parse_result(stmts_tokens(ss)) is Ok,
{
    let t = stmts_tokens(ss);
    assert(t.subrange(0, t.len() as int) =~= t);
    let c0 = Cursor { pos: 0, depth: 0, procs: Map::empty() };
    let (a, m) = lemma_stmts_parse(ss, t, seq![], c0);
    let cn = Cursor { pos: t.len() as int, depth: 0, procs: m };
    assert(command(t, cn) == Ok::<(Ast, Cursor), (ParseError, Cursor)>((Ast::Empty, cn)));
}

/// A `]` or `END` that follows a balanced program as a statement closes no
/// block: whatever follows it, the program is rejected with `UnbalancedBlock`,
/// and the parser stops right after it.
pub proof fn lemma_close_after_balanced_fails(
    ss: Seq<Stmt>,
    closer: Seq<char>,
    rest: Seq<Seq<char>>,
)
    requires
        closer == "]"@ || closer == "END"@,
    ensures
        parse_result(stmts_tokens(ss) + seq![closer] + rest) == Err::<Seq<Ast>, ParseError>(
            ParseError::UnbalancedBlock,
        ),
        program(
            stmts_tokens(ss) + seq![closer] + rest,
            seq![],
            Cursor { pos: 0, depth: 0, procs: Map::empty() },
        ) is Err,
        program(
            stmts_tokens(ss) + seq![closer] + rest,
            seq![],
            Cursor { pos: 0, depth: 0, procs: Map::empty() },
        )->Err_0.1.pos == stmts_tokens(ss).len() + 1,
        program(
            stmts_tokens(ss) + seq![closer] + rest,
            seq![],
            Cursor { pos: 0, depth: 0, procs: Map::empty() },
        )->Err_0.1.depth == 0,
{
    let pre = stmts_tokens(ss);
    let t = pre + seq![closer] + rest;
    assert(t.subrange(0, pre.len() as int) =~= pre);
    let c0 = Cursor { pos: 0, depth: 0, procs: Map::empty() };
    let (a, m) = lemma_stmts_parse(ss, t, seq![], c0);
    let cn = Cursor { pos: pre.len() as int, depth: 0, procs: m };
    assert(t[pre.len() as int] == closer);
    lemma_unmatched_close_fails(t, a, cn);
}

/// A call of a procedure that a balanced program has not defined fails with
/// `UnknownCommand`, whatever follows it: a definition later in the program
/// does not make an earlier call valid.
pub proof fn lemma_call_before_definition_in_program_fails(
    ss: Seq<Stmt>,
    name: Seq<char>,
    rest: Seq<Seq<char>>,
)
    requires
        word_of(name) is Other,
        !stmts_names(ss).contains(name),
    ensures
        parse_result(stmts_tokens(ss) + seq![name] + rest) == Err::<Seq<Ast>, ParseError>(
            ParseError::UnknownCommand,
        ),
        program(
            stmts_tokens(ss) + seq![name] + rest,
            seq![],
            Cursor { pos: 0, depth: 0, procs: Map::empty() },
        ) is Err,
        program(
            stmts_tokens(ss) + seq![name] + rest,
            seq![],
            Cursor { pos: 0, depth: 0, procs: Map::empty() },
        )->Err_0.1.pos == stmts_tokens(ss).len() + 1,
        program(
            stmts_tokens(ss) + seq![name] + rest,
            seq![],
            Cursor { pos: 0, depth: 0, procs: Map::empty() },
        )->Err_0.1.depth == 0,
{
    let pre = stmts_tokens(ss);
    let t = pre + seq![name] + rest;
    assert(t.subrange(0, pre.len() as int) =~= pre);
    let c0 = Cursor { pos: 0, depth: 0, procs: Map::empty() };
    let (a, m) = lemma_stmts_parse(ss, t, seq![], c0);
    let cn = Cursor { pos: pre.len() as int, depth: 0, procs: m };
    assert(t[pre.len() as int] == name);
    lemma_undefined_call_fails(t, a, cn);
}

} // verus!
