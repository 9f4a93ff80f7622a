use logo_parser::ast::{Node, Operand, ParseError};
use logo_parser::lexer::{split_words, tokenise_logo};
use logo_parser::parser::{parse_logo, parse_program};
use logo_parser::procs::ProcTable;

fn lines(src: &[&str]) -> Vec<String> {
    src.iter().map(|s| s.to_string()).collect()
}

fn tokens(src: &[&str]) -> Vec<String> {
    tokenise_logo(&lines(src)).expect("tokenises")
}

fn parse(src: &[&str]) -> Result<Vec<Node>, ParseError> {
    parse_program(&tokens(src))
}

fn shape(nodes: &[Node]) -> String {
    format!("{:?}", nodes)
}

#[test]
fn forward_literal_tokens_and_tree() {
    let toks = tokens(&["FORWARD \"50 "]);
    assert_eq!(toks, vec!["FORWARD", "\"", "50", "\n"]);
    let ast = parse_program(&toks).unwrap();
    assert_eq!(shape(&ast), "[UnaryExpr { op: Forward, child: Literal(\"50\") }]");
}

#[test]
fn make_then_addassign() {
    let ast = parse(&["MAKE :X \"10 ", "ADDASSIGN :X \"5 "]).unwrap();
    assert_eq!(ast.len(), 2);
    assert_eq!(
        shape(&ast),
        "[BinaryExpr { op: Make, lhs: Variable(\"X\"), rhs: Literal(\"10\") }, \
         BinaryExpr { op: Addassign, lhs: Variable(\"X\"), rhs: Literal(\"5\") }]"
    );
}

#[test]
fn if_block_over_lines() {
    let ast = parse(&["IF EQ :X \"0 [", "FORWARD \"10", "]"]).unwrap();
    assert_eq!(
        shape(&ast),
        "[BinaryExpr { op: If, lhs: BinaryExpr { op: Eq, lhs: Variable(\"X\"), rhs: Literal(\"0\") }, \
         rhs: Body([UnaryExpr { op: Forward, child: Literal(\"10\") }]) }]"
    );
}

#[test]
fn if_block_on_one_line_has_trailing_token() {
    // A statement must end its line, and `]` follows `FORWARD "10` on the same line.
    assert_eq!(
        parse(&["IF EQ :X \"0 [ FORWARD \"10 ] "]).unwrap_err(),
        ParseError::TrailingToken
    );
}

#[test]
fn procedure_defined_then_called() {
    let toks = tokens(&["TO SQUARE ", " FORWARD \"10 ", " END ", " SQUARE "]);
    let mut pos: usize = 0;
    let mut brackets: usize = 0;
    let mut procs = ProcTable::new();
    let ast = parse_logo(&toks, &mut pos, &mut brackets, &mut procs).unwrap();
    assert_eq!(brackets, 0);
    assert!(procs.contains_key(&"SQUARE".to_string()));
    assert!(!procs.contains_key(&"CIRCLE".to_string()));
    assert_eq!(
        shape(&ast),
        "[BinaryExpr { op: Func(\"SQUARE\"), lhs: Body([]), \
         rhs: Body([UnaryExpr { op: Forward, child: Literal(\"10\") }]) }, \
         Caller { name: \"SQUARE\", args: Body([]) }]"
    );
}

#[test]
fn lone_close_bracket_is_unbalanced() {
    assert_eq!(parse(&["]"]).unwrap_err(), ParseError::UnbalancedBlock);
}

#[test]
fn lone_end_is_unbalanced() {
    assert_eq!(parse(&["FORWARD \"1", "END"]).unwrap_err(), ParseError::UnbalancedBlock);
}

#[test]
fn unterminated_block_is_unbalanced() {
    assert_eq!(parse(&["WHILE LT :X \"3 [", "FORWARD \"1"]).unwrap_err(), ParseError::UnbalancedBlock);
}

#[test]
fn balanced_nested_blocks_end_at_depth_zero() {
    let toks = tokens(&[
        "MAKE :X \"0",
        "WHILE LT :X \"3 [",
        "IF EQ :X \"1 [",
        "PENUP",
        "]",
        "ADDASSIGN :X \"1",
        "]",
        "TO BOX :S",
        "FORWARD :S",
        "END",
    ]);
    let mut pos: usize = 0;
    let mut brackets: usize = 0;
    let mut procs = ProcTable::new();
    let ast = parse_logo(&toks, &mut pos, &mut brackets, &mut procs).unwrap();
    assert_eq!(brackets, 0);
    assert_eq!(pos, toks.len());
    assert_eq!(ast.len(), 3);
    assert!(parse_program(&toks).is_ok());
}

#[test]
fn call_before_definition_is_unknown() {
    assert_eq!(
        parse(&["SQUARE", "TO SQUARE", "FORWARD \"10", "END"]).unwrap_err(),
        ParseError::UnknownCommand
    );
}

#[test]
fn procedure_cannot_call_itself() {
    assert_eq!(
        parse(&["TO LOOP", "LOOP", "END"]).unwrap_err(),
        ParseError::UnknownCommand
    );
}

#[test]
fn rerun_gives_same_tree() {
    let src = ["TO BOX :S", "FORWARD :S", "END", "BOX \"5", "SETX + XCOR \"2"];
    let a = parse(&src).unwrap();
    let b = parse(&src).unwrap();
    assert_eq!(shape(&a), shape(&b));
}

#[test]
fn call_with_arguments() {
    let ast = parse(&["TO BOX :S :T", "LEFT :T", "END", "BOX \"5 HEADING"]).unwrap();
    assert_eq!(
        format!("{:?}", ast[1]),
        "Caller { name: \"BOX\", args: Body([Literal(\"5\"), Heading]) }"
    );
}

#[test]
fn comment_line_is_skipped() {
    let ast = parse(&["// a note \"x", "PENDOWN"]).unwrap();
    assert_eq!(shape(&ast), "[Pendown]");
}

#[test]
fn bare_prefix_is_a_lex_error() {
    assert_eq!(tokenise_logo(&lines(&["FORWARD \""])).unwrap_err(), ParseError::LexError);
    assert_eq!(tokenise_logo(&lines(&["MAKE : \"1"])).unwrap_err(), ParseError::LexError);
}

#[test]
fn blank_lines_still_give_newlines() {
    assert_eq!(tokens(&["", "  PENUP\t:V"]), vec!["\n", "PENUP", ":", "V", "\n"]);
}

#[test]
fn words_split_on_whitespace() {
    assert_eq!(split_words("  a\tbc  d "), vec!["a", "bc", "d"]);
    assert!(split_words("   ").is_empty());
}

#[test]
fn unknown_word_is_unknown_command() {
    assert_eq!(parse(&["JUMP \"3"]).unwrap_err(), ParseError::UnknownCommand);
}

#[test]
fn missing_unary_operand() {
    assert_eq!(parse(&["FORWARD"]).unwrap_err(), ParseError::MalformedOperand(Operand::Child));
}

#[test]
fn missing_binary_operands() {
    assert_eq!(parse(&["MAKE"]).unwrap_err(), ParseError::MalformedOperand(Operand::First));
    assert_eq!(parse(&["MAKE :X"]).unwrap_err(), ParseError::MalformedOperand(Operand::Second));
}

#[test]
fn missing_condition() {
    assert_eq!(parse(&["IF"]).unwrap_err(), ParseError::MalformedOperand(Operand::Condition));
}

#[test]
fn missing_leaf_value() {
    let toks = vec!["\"".to_string()];
    assert_eq!(parse_program(&toks).unwrap_err(), ParseError::MalformedOperand(Operand::Value));
}

#[test]
fn missing_procedure_name() {
    let toks = vec!["TO".to_string()];
    assert_eq!(parse_program(&toks).unwrap_err(), ParseError::MalformedOperand(Operand::Name));
}

#[test]
fn unfinished_parameter_list() {
    let toks = vec!["TO".to_string(), "BOX".to_string(), ":".to_string(), "S".to_string()];
    assert_eq!(
        parse_program(&toks).unwrap_err(),
        ParseError::MalformedOperand(Operand::Parameter)
    );
}

#[test]
fn bad_call_argument() {
    assert_eq!(
        parse(&["TO BOX", "END", "BOX ]"]).unwrap_err(),
        ParseError::MalformedOperand(Operand::Argument)
    );
}

#[test]
fn second_statement_on_a_line() {
    assert_eq!(parse(&["PENUP PENDOWN"]).unwrap_err(), ParseError::TrailingToken);
}

#[test]
fn arithmetic_nests_left_to_right() {
    let ast = parse(&["SETHEADING * - \"90 YCOR / COLOR \"2"]).unwrap();
    assert_eq!(
        shape(&ast),
        "[UnaryExpr { op: Setheading, child: BinaryExpr { op: Mul, \
         lhs: BinaryExpr { op: Sub, lhs: Literal(\"90\"), rhs: Ycor }, \
         rhs: BinaryExpr { op: Div, lhs: Color, rhs: Literal(\"2\") } } }]"
    );
}

#[test]
fn redefinition_replaces_entry() {
    let toks = tokens(&["TO A", "END", "TO A :X", "END"]);
    let mut pos: usize = 0;
    let mut brackets: usize = 0;
    let mut procs = ProcTable::new();
    let ast = parse_logo(&toks, &mut pos, &mut brackets, &mut procs).unwrap();
    assert_eq!(ast.len(), 2);
    assert!(procs.contains_key(&"A".to_string()));
}

#[test]
fn unmatched_close_stops_right_after_it() {
    let toks = tokens(&["PENUP", "END", "FORWARD \"1"]);
    let mut pos: usize = 0;
    let mut brackets: usize = 0;
    let mut procs = ProcTable::new();
    let r = parse_logo(&toks, &mut pos, &mut brackets, &mut procs);
    assert_eq!(r.unwrap_err(), ParseError::UnbalancedBlock);
    assert_eq!(pos, 3);
    assert_eq!(brackets, 0);
}

#[test]
fn lone_close_leaves_depth_zero() {
    let toks = tokens(&["]"]);
    let mut pos: usize = 0;
    let mut brackets: usize = 0;
    let mut procs = ProcTable::new();
    assert_eq!(
        parse_logo(&toks, &mut pos, &mut brackets, &mut procs).unwrap_err(),
        ParseError::UnbalancedBlock
    );
    assert_eq!(pos, 1);
    assert_eq!(brackets, 0);
}

#[test]
fn failing_first_operand_stops_there() {
    let toks = tokens(&["MAKE ] \"1"]);
    let mut pos: usize = 0;
    let mut brackets: usize = 1;
    let mut procs = ProcTable::new();
    assert_eq!(
        parse_logo(&toks, &mut pos, &mut brackets, &mut procs).unwrap_err(),
        ParseError::MalformedOperand(Operand::First)
    );
    assert_eq!(pos, 2);
    assert_eq!(brackets, 0);
}

#[test]
fn table_keeps_entries_after_error() {
    let toks = tokens(&["TO A", "END", "JUMP"]);
    let mut pos: usize = 0;
    let mut brackets: usize = 0;
    let mut procs = ProcTable::new();
    assert_eq!(
        parse_logo(&toks, &mut pos, &mut brackets, &mut procs).unwrap_err(),
        ParseError::UnknownCommand
    );
    assert!(procs.contains_key(&"A".to_string()));
    assert_eq!(pos, 6);
}

#[test]
fn clone_copies_the_tree() {
    let ast = parse(&["IF EQ :X \"0 [", "FORWARD \"10", "]"]).unwrap();
    let copy = ast[0].clone();
    assert_eq!(format!("{:?}", copy), format!("{:?}", ast[0]));
}
