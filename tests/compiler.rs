use audio_graph::compiler::{classify, compile_tokens, Cause, CompileError, Kind, NodeSpec, Plan, Word};
use audio_graph::text::{decimal, parse_unsigned, same_text, tokenize};

fn numbers(tokens: &[&str]) -> Vec<bool> {
    tokens.iter().map(|t| t.parse::<f64>().is_ok()).collect()
}

fn compile(program: &str, channels: usize) -> Result<Plan, CompileError> {
    let tokens = tokenize(program);
    let numbers = numbers(&tokens);
    compile_tokens(&tokens, &numbers, channels)
}

fn refusal(program: &str) -> (usize, Cause, String) {
    match compile(program, 2) {
        Ok(_) => panic!("`{}` compiled", program),
        Err(e) => (e.index, e.cause, e.message()),
    }
}

#[test]
fn tokenize_splits_on_ascii_whitespace() {
    let tokens = tokenize("  440 s\t0.5\n*\r\n  ");
    assert_eq!(tokens, vec!["440", "s", "0.5", "*"]);
    assert!(tokenize("").is_empty());
    assert!(tokenize(" \t\n").is_empty());
}

#[test]
fn tokenize_keeps_non_ascii_text_inside_tokens() {
    let tokens = tokenize("é ü+ñ");
    assert_eq!(tokens, vec!["é", "ü+ñ"]);
}

#[test]
fn empty_program_gives_an_empty_plan() {
    let plan = compile("", 2).ok().unwrap();
    assert!(plan.nodes.is_empty());
    assert!(plan.stack.is_empty());
}

#[test]
fn one_two_add_pops_the_top_first() {
    let plan = compile("1 2 +", 2).ok().unwrap();
    assert_eq!(
        plan.nodes,
        vec![
            NodeSpec { kind: Kind::Constant, token: 0 },
            NodeSpec { kind: Kind::Constant, token: 1 },
            NodeSpec { kind: Kind::Add, token: 2 },
        ]
    );
    assert_eq!(plan.sources[0], Vec::<usize>::new());
    assert_eq!(plan.sources[1], Vec::<usize>::new());
    assert_eq!(plan.sources[2], vec![1, 0]);
    assert_eq!(plan.stack, vec![2]);
}

#[test]
fn lone_plus_is_refused_at_token_one() {
    let (index, cause, message) = refusal("+");
    assert_eq!(index, 1);
    assert_eq!(cause, Cause::NotEnoughInputs);
    assert_eq!(message, "Node #1 `+` has not enough inputs on the stack.");
}

#[test]
fn one_plus_is_refused_at_token_two() {
    let (index, cause, message) = refusal("1 +");
    assert_eq!(index, 2);
    assert_eq!(cause, Cause::NotEnoughInputs);
    assert_eq!(message, "Node #2 `+` has not enough inputs on the stack.");
}

#[test]
fn dup_on_an_empty_stack_is_refused() {
    let (index, cause, message) = refusal("dup");
    assert_eq!(index, 1);
    assert_eq!(cause, Cause::NothingToDup);
    assert_eq!(message, "Nothing to dup at #1!");
}

#[test]
fn stack_operators_report_underflow() {
    assert_eq!(refusal("pop").2, "Nothing to pop at #1!");
    assert_eq!(refusal("1 swap").2, "Nothing to swap at #2!");
    assert_eq!(refusal("1 2 rot").2, "Nothing to rot at #3!");
}

#[test]
fn unknown_tokens_are_refused() {
    let (index, cause, message) = refusal("1 2 frobnicate");
    assert_eq!(index, 3);
    assert_eq!(cause, Cause::UnknownModule);
    assert_eq!(message, "Node #3 `frobnicate` is unknown module.");
}

#[test]
fn the_first_refusal_wins() {
    let (index, cause, _) = refusal("1 bogus +");
    assert_eq!(index, 2);
    assert_eq!(cause, Cause::UnknownModule);
}

#[test]
fn message_counts_past_nine() {
    let (index, _, message) = refusal("1 1 1 1 1 1 1 1 1 1 1 pop pop pop pop pop pop pop pop pop pop pop pop");
    assert_eq!(index, 23);
    assert_eq!(message, "Nothing to pop at #23!");
}

#[test]
fn stack_operators_rearrange_the_stack() {
    assert_eq!(compile("1 2 swap", 2).ok().unwrap().stack, vec![1, 0]);
    assert_eq!(compile("1 2 3 rot", 2).ok().unwrap().stack, vec![1, 2, 0]);
    assert_eq!(compile("1 dup", 2).ok().unwrap().stack, vec![0, 0]);
    assert_eq!(compile("1 2 pop", 2).ok().unwrap().stack, vec![0]);
}

#[test]
fn dup_feeds_one_node_twice() {
    let plan = compile("2 dup *", 2).ok().unwrap();
    assert_eq!(plan.nodes.len(), 2);
    assert_eq!(plan.nodes[1].kind, Kind::Mul);
    assert_eq!(plan.sources[1], vec![0, 0]);
}

#[test]
fn aliases_name_the_same_node() {
    let pairs = [
        ("p", "pulse"),
        ("^", "pow"),
        ("r", "range"),
        ("n", "noise"),
        ("fb", "feedback"),
        ("l", "bqlpf"),
        ("h", "bqhpf"),
        ("m2f", "midi2freq"),
        ("in", "input"),
        ("sh", "sample&hold"),
        ("m", "metro"),
        ("dm", "dmetro"),
        ("mh", "metroHold"),
        ("dmh", "dmetroHold"),
        ("yin", "pitch"),
    ];
    for (a, b) in pairs.iter() {
        assert_eq!(classify(a, false), classify(b, false));
        assert!(matches!(classify(a, false), Word::Node(_)));
    }
}

#[test]
fn catalog_tokens_are_case_sensitive() {
    assert_eq!(classify("metroHold", false), Word::Node(Kind::MetroHold));
    assert_eq!(classify("MetroHold", false), Word::Unknown);
    assert_eq!(classify("\\", false), Word::Node(Kind::Recip));
}

#[test]
fn numbers_become_constants() {
    assert_eq!(classify("0.5", true), Word::Node(Kind::Constant));
    assert_eq!(classify("-3e2", true), Word::Node(Kind::Constant));
    assert_eq!(classify("s", true), Word::Node(Kind::Sine));
}

#[test]
fn parameter_tokens_carry_their_index() {
    assert_eq!(classify("param:3", false), Word::Node(Kind::Parameter(3)));
    assert_eq!(classify("param:+7", false), Word::Node(Kind::Parameter(7)));
    assert_eq!(classify("param:3:9", false), Word::Node(Kind::Parameter(3)));
    assert_eq!(classify("param:", false), Word::Unknown);
    assert_eq!(classify("param", false), Word::Unknown);
    assert_eq!(classify("param:x", false), Word::Unknown);
    assert_eq!(classify("param:-1", false), Word::Unknown);
    assert_eq!(classify("param:99999999999999999999999", false), Word::Unknown);
    assert_eq!(classify("pop", false), Word::Pop);
    assert_eq!(classify("rot", false), Word::Rot);
}

#[test]
fn zip_takes_one_source_per_channel() {
    let plan = compile("1 2 3 zip", 3).ok().unwrap();
    assert_eq!(plan.sources[3], vec![2, 1, 0]);
    assert_eq!(refusal("1 zip").1, Cause::NotEnoughInputs);
}

#[test]
fn text_helpers() {
    assert_eq!(decimal(0), "0");
    assert_eq!(decimal(1907), "1907");
    assert!(same_text("abc", "abc"));
    assert!(!same_text("abc", "abd"));
    assert!(!same_text("abc", "ab"));
    assert_eq!(parse_unsigned("x123y", 1, 4), Some(123));
    assert_eq!(parse_unsigned("+", 0, 1), None);
    assert_eq!(parse_unsigned("18446744073709551615", 0, 20), Some(18446744073709551615));
    assert_eq!(parse_unsigned("18446744073709551616", 0, 20), None);
}
