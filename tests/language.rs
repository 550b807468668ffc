use kaguya::lexer::{delimits, is_fullwidth_number, normalize_digits, tokenize};
use kaguya::memory::Memory;
use kaguya::words::{builtin_of, Builtin};
use kaguya::runtime::{Arith, Reply, Request, Runtime};
use kaguya::value::Value;

struct Outcome {
    printed: Vec<String>,
    halted: bool,
}

fn compute(op: Arith, x: u64, y: u64) -> Reply {
    let a = f64::from_bits(x);
    let b = f64::from_bits(y);
    match op {
        Arith::Add => Reply::Number((a + b).to_bits()),
        Arith::Sub => Reply::Number((a - b).to_bits()),
        Arith::Mul => Reply::Number((a * b).to_bits()),
        Arith::Div => Reply::Number((a / b).to_bits()),
        Arith::Rem => Reply::Number((a % b).to_bits()),
        Arith::Pow => Reply::Number(a.powf(b).to_bits()),
        Arith::Greater => Reply::Truth(a > b),
        Arith::Less => Reply::Truth(a < b),
    }
}

fn run(rt: &mut Runtime, source: &str) -> Outcome {
    let mut printed = Vec::new();
    rt.load(source);
    loop {
        let request = match rt.step() {
            None => continue,
            Some(r) => r,
        };
        let reply = match request {
            Request::Finished => return Outcome { printed, halted: false },
            Request::Halt => return Outcome { printed, halted: true },
            Request::Print(s) => {
                printed.push(s);
                Reply::Done
            }
            Request::ReadLine(_) => Reply::Text(String::new()),
            Request::ReadFile(_) => Reply::Text(String::new()),
            Request::WriteFile(_, _) => Reply::Done,
            Request::ParseNumeral(s) => Reply::Numeral(s.parse::<f64>().ok().map(f64::to_bits)),
            Request::NumberText(b) => Reply::Text(f64::from_bits(b).to_string()),
            Request::TextNumber(s) => {
                Reply::Number(s.parse::<f64>().unwrap_or_default().to_bits())
            }
            Request::Compute(op, x, y) => compute(op, x, y),
            Request::BackCount(b) => Reply::Count(f64::from_bits(b) as usize),
        };
        assert!(rt.accepts(&reply));
        rt.answer(reply);
    }
}

fn number(v: &Value) -> f64 {
    match v {
        Value::Number(b) => f64::from_bits(*b),
        other => panic!("not a number: {:?}", other),
    }
}

fn text(v: &Value) -> String {
    match v {
        Value::Text(s) => s.clone(),
        other => panic!("not text: {:?}", other),
    }
}

fn evaluate(source: &str) -> (Runtime, Outcome) {
    let mut rt = Runtime::new();
    let out = run(&mut rt, source);
    (rt, out)
}

#[test]
fn tokenize_splits_on_delimiters() {
    assert_eq!(tokenize("10 3 引"), vec!["10", "3", "引"]);
    assert_eq!(tokenize("足、引。掛"), vec!["足", "引", "掛"]);
    assert_eq!(tokenize("5x3"), vec!["5", "3"]);
    assert_eq!(tokenize("代入した"), vec!["代入"]);
}

#[test]
fn tokenize_keeps_literals_whole() {
    assert_eq!(tokenize("「こんにちは 世界」表示"), vec!["「こんにちは 世界」", "表示"]);
    assert_eq!(tokenize("「a「b」c」"), vec!["「a「b」c」"]);
}

#[test]
fn tokenize_drops_unterminated_literal() {
    assert_eq!(tokenize("足 「abc"), vec!["足"]);
    assert!(tokenize("「abc").is_empty());
}

#[test]
fn tokenize_ignores_stray_close_bracket() {
    assert_eq!(tokenize("足」引"), vec!["足引"]);
}

#[test]
fn tokenize_empty_source() {
    assert!(tokenize("").is_empty());
    assert!(tokenize("   ").is_empty());
}

#[test]
fn delimiter_class() {
    assert!(delimits('あ'));
    assert!(delimits('ン'));
    assert!(delimits('Z'));
    assert!(delimits('\u{3000}'));
    assert!(delimits('？'));
    assert!(!delimits('漢'));
    assert!(!delimits('7'));
    assert!(!delimits('「'));
}

#[test]
fn fullwidth_numeral_recognition() {
    assert!(is_fullwidth_number("１２３"));
    assert!(is_fullwidth_number("１.５"));
    assert!(!is_fullwidth_number("123"));
    assert!(!is_fullwidth_number("１２a"));
    assert!(!is_fullwidth_number("."));
    assert_eq!(normalize_digits("９０.１"), "90.1");
}

#[test]
fn bracket_literal_pushes_its_content() {
    let (rt, _) = evaluate("「こんにちは 世界」");
    assert_eq!(rt.stack.len(), 1);
    assert_eq!(text(&rt.stack[0]), "こんにちは 世界");
}

#[test]
fn fullwidth_digits_read_as_number() {
    let (rt, _) = evaluate("１２３");
    assert_eq!(number(&rt.stack[0]), 123.0);
}

#[test]
fn subtraction_respects_stack_order() {
    let (rt, _) = evaluate("10 3 引");
    assert_eq!(rt.stack.len(), 1);
    assert_eq!(number(&rt.stack[0]), 7.0);
}

#[test]
fn arithmetic_results() {
    let (rt, out) = evaluate("1 2 足 表示 2 10 乗 7 2 余 7 2 割 6 7 掛");
    assert_eq!(out.printed, vec!["3"]);
    let got: Vec<f64> = rt.stack.iter().map(number).collect();
    assert_eq!(got, vec![1024.0, 1.0, 3.5, 42.0]);
}

#[test]
fn division_by_zero_gives_infinity() {
    let (rt, _) = evaluate("1 0 割");
    assert_eq!(number(&rt.stack[0]), f64::INFINITY);
}

#[test]
fn assignment_then_lookup() {
    let (rt, _) = evaluate("5 「値」代入 値 其");
    assert_eq!(rt.stack.len(), 2);
    assert_eq!(number(&rt.stack[0]), 5.0);
    assert_eq!(number(&rt.stack[1]), 5.0);
    assert_eq!(number(&rt.cache), 5.0);
}

#[test]
fn assign_if_absent_keeps_binding() {
    let (rt, _) = evaluate("5 「値」代入 9 「値」初期化 値");
    assert_eq!(number(rt.stack.last().unwrap()), 5.0);
    assert_eq!(number(&rt.cache), 9.0);
}

#[test]
fn assign_if_absent_binds_new_name() {
    let (rt, _) = evaluate("9 「値」初期化 値");
    assert_eq!(number(rt.stack.last().unwrap()), 9.0);
}

#[test]
fn branch_runs_only_chosen_fragment() {
    let (rt, out) = evaluate("真 「「はい」表示」 「「いいえ」表示」 条件分岐");
    assert_eq!(out.printed, vec!["はい"]);
    assert!(rt.stack.is_empty());
    let (_, out) = evaluate("0 「「はい」表示」 「「いいえ」表示」 条件分岐");
    assert_eq!(out.printed, vec!["いいえ"]);
}

#[test]
fn loop_with_false_condition_runs_nothing() {
    let (rt, out) = evaluate("1 2 「偽」 「「中」表示」 反復");
    assert!(out.printed.is_empty());
    let got: Vec<f64> = rt.stack.iter().map(number).collect();
    assert_eq!(got, vec![1.0, 2.0]);
}

#[test]
fn loop_counts_down() {
    let (_, out) = evaluate("3 「数」代入 「数 0 大」 「数 表示 数 1 引 「数」代入」 反復");
    assert_eq!(out.printed, vec!["3", "2", "1"]);
}

#[test]
fn unknown_token_becomes_text() {
    let (rt, _) = evaluate("猫");
    assert_eq!(text(&rt.stack[0]), "猫");
    let (rt, _) = evaluate("12abc");
    assert_eq!(number(&rt.stack[0]), 12.0);
}

#[test]
fn skip_one_ends_loop_body_only() {
    let (_, out) = evaluate(
        "真 「続」代入 「続」 「「前」表示 偽 「続」代入 1 戻 「後」表示」 反復 「次」表示",
    );
    assert_eq!(out.printed, vec!["前", "次"]);
}

#[test]
fn skip_two_ends_loop_and_enclosing_frame() {
    let (rt, out) = evaluate("「真」 「「前」表示 2 戻 「後」表示」 反復 「次」表示");
    assert_eq!(out.printed, vec!["前"]);
    assert_eq!(rt.skip, 0);
}

#[test]
fn skip_carries_into_next_source() {
    let mut rt = Runtime::new();
    let out = run(&mut rt, "3 戻 「一」表示");
    assert!(out.printed.is_empty());
    assert_eq!(rt.skip, 2);
    let out = run(&mut rt, "「二」表示 「三」表示");
    assert!(out.printed.is_empty());
    assert_eq!(text(rt.stack.last().unwrap()), "二");
    assert_eq!(rt.skip, 1);
}

#[test]
fn function_definition_and_call() {
    let (rt, _) = evaluate("「2 掛」 「倍」 定義 5 倍 倍");
    assert_eq!(number(&rt.stack[0]), 20.0);
}

#[test]
fn evaluate_fragment() {
    let (rt, _) = evaluate("「1 2 足」 評価");
    assert_eq!(number(&rt.stack[0]), 3.0);
}

#[test]
fn concat_and_equality() {
    let (rt, _) = evaluate("「ab」 「cd」 結合 「abcd」 等");
    assert!(matches!(rt.stack[0], Value::Bool(true)));
    let (rt, _) = evaluate("1 「1」 等");
    assert!(matches!(rt.stack[0], Value::Bool(true)));
}

#[test]
fn comparisons_and_logic() {
    let (rt, _) = evaluate("3 2 大 3 2 小 真 偽 和 真 偽 積 偽 否");
    let got: Vec<bool> = rt
        .stack
        .iter()
        .map(|v| matches!(v, Value::Bool(true)))
        .collect();
    assert_eq!(got, vec![true, false, true, false, true]);
}

#[test]
fn swap_and_duplicate() {
    let (rt, _) = evaluate("1 2 返 3 写");
    let got: Vec<f64> = rt.stack.iter().map(number).collect();
    assert_eq!(got, vec![2.0, 1.0, 3.0, 3.0]);
}

#[test]
fn popping_empty_stack_gives_null() {
    let (rt, _) = evaluate("足");
    assert_eq!(number(&rt.stack[0]), 0.0);
    let (rt, out) = evaluate("表示 無");
    assert_eq!(out.printed, vec![""]);
    assert!(matches!(rt.stack[0], Value::Null));
}

#[test]
fn text_coerces_to_number() {
    let (rt, _) = evaluate("「 4 」 1 足 「abc」 1 足");
    let got: Vec<f64> = rt.stack.iter().map(number).collect();
    assert_eq!(got, vec![5.0, 1.0]);
}

#[test]
fn booleans_print_as_words() {
    let (_, out) = evaluate("真 表示 偽 表示");
    assert_eq!(out.printed, vec!["真", "偽"]);
}

#[test]
fn seeded_names() {
    let (rt, _) = evaluate("改行 空白");
    assert_eq!(text(&rt.stack[0]), "\n");
    assert_eq!(text(&rt.stack[1]), " ");
}

#[test]
fn exit_halts() {
    let (_, out) = evaluate("「前」表示 終了 「後」表示");
    assert_eq!(out.printed, vec!["前"]);
    assert!(out.halted);
}

#[test]
fn value_conversions() {
    assert!(!Value::Number(0.0f64.to_bits()).get_bool());
    assert!(!Value::Number((-0.0f64).to_bits()).get_bool());
    assert!(Value::Number(f64::NAN.to_bits()).get_bool());
    assert!(Value::Text("x".to_string()).get_bool());
    assert!(!Value::Text(String::new()).get_bool());
    assert!(!Value::Null.get_bool());
    assert_eq!(Value::Bool(true).get_plain_number(), 1.0f64.to_bits());
    assert_eq!(Value::Bool(false).get_plain_string(), "偽");
    assert_eq!(Value::Null.get_plain_symbol(), "無");
    assert_eq!(Value::Function("1 足".to_string()).get_plain_symbol(), "「1 足」");
}

#[test]
fn memory_table_binds_and_keeps() {
    let mut m = Memory::new();
    let key = "値".to_string();
    assert!(m.get(&key).is_none());
    m.assign(key.clone(), Value::Number(5.0f64.to_bits()));
    assert_eq!(number(m.get(&key).unwrap()), 5.0);
    m.assign_if_absent(key.clone(), Value::Number(9.0f64.to_bits()));
    assert_eq!(number(m.get(&key).unwrap()), 5.0);
    m.assign(key.clone(), Value::Number(7.0f64.to_bits()));
    assert_eq!(number(m.get(&key).unwrap()), 7.0);
}

#[test]
fn builtin_words() {
    assert_eq!(builtin_of("条件分岐"), Some(Builtin::Branch));
    assert_eq!(builtin_of("引"), Some(Builtin::Sub));
    assert_eq!(builtin_of("終了"), Some(Builtin::Exit));
    assert_eq!(builtin_of("条件"), None);
    assert_eq!(builtin_of(""), None);
}

#[test]
fn fullwidth_decimal_is_split_at_ascii_point() {
    assert_eq!(tokenize("１.５"), vec!["１", "５"]);
    let (rt, _) = evaluate("１.５");
    let got: Vec<f64> = rt.stack.iter().map(number).collect();
    assert_eq!(got, vec![1.0, 5.0]);
}

#[test]
fn bound_name_wins_over_literal() {
    let (rt, _) = evaluate("7 「「真」」代入 「真」");
    assert_eq!(number(rt.stack.last().unwrap()), 7.0);
}

#[test]
fn read_and_prompt_push_host_text() {
    let (rt, _) = evaluate("「どこ」読 「名前？」入力待");
    assert_eq!(text(&rt.stack[0]), "");
    assert_eq!(text(&rt.stack[1]), "");
}

#[test]
fn skip_one_in_counted_loop_skips_rest_of_body() {
    let (rt, _) = evaluate("0 「甲」代入 「甲 3 小」「甲 1 足 「甲」代入 1 戻 「乙」「乙」代入」反復 甲");
    let got: Vec<f64> = rt.stack.iter().map(number).collect();
    assert_eq!(got, vec![3.0]);
    assert!(rt.memory.get(&"乙".to_string()).is_none());
    assert_eq!(rt.skip, 0);
}

#[test]
fn skip_two_leaves_nothing_after_loop() {
    let (rt, _) = evaluate("「真」「2 戻 「乙」「乙」代入」反復 「丙」「丙」代入");
    assert!(rt.stack.is_empty());
    assert!(rt.memory.get(&"乙".to_string()).is_none());
    assert!(rt.memory.get(&"丙".to_string()).is_none());
    assert_eq!(rt.skip, 0);
}

#[test]
fn branch_binds_only_in_chosen_fragment() {
    let (rt, _) = evaluate("真 「「1」「甲」代入」「「2」「乙」代入」条件分岐");
    assert_eq!(text(rt.memory.get(&"甲".to_string()).unwrap()), "1");
    assert!(rt.memory.get(&"乙".to_string()).is_none());
    assert!(rt.stack.is_empty());
    assert_eq!(text(&rt.cache), "1");
}

#[test]
fn text_assignment_recalled_through_cache_word() {
    let (rt, _) = evaluate("「5」「甲」代入 其");
    assert_eq!(text(&rt.cache), "5");
    assert_eq!(rt.stack.len(), 1);
    assert_eq!(text(&rt.stack[0]), "5");
}

#[test]
fn defined_function_keeps_cache_null() {
    let (rt, _) = evaluate("「1 2 足」「三」定義 三");
    assert_eq!(number(&rt.stack[0]), 3.0);
    assert!(matches!(rt.cache, Value::Null));
}
