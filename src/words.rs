//! The reserved words of the language and how a token is classified.
use vstd::prelude::*;
use vstd::string::*;
use crate::value::{Val, true_word, false_word, null_word};
use crate::lexer::{is_fullwidth_numeral, ascii_digits};

verus! {

/// The built-in operations.
#[derive(PartialEq, Eq, Structural, Clone, Copy, Debug)]
pub enum Builtin {
    Print,
    Input,
    Concat,
    Add,
    Sub,
    Mul,
    Div,
    Rem,
    Pow,
    Equal,
    Greater,
    Less,
    Or,
    And,
    Not,
    Assign,
    Init,
    Define,
    Evaluate,
    Branch,
    Repeat,
    ReadFile,
    WriteFile,
    Back,
    Swap,
    Duplicate,
    Exit,
}

/// The word that names each built-in operation.
pub open spec fn builtin_word(b: Builtin) -> Seq<char> {
    match b {
        Builtin::Print => seq!['表', '示'],
        Builtin::Input => seq!['入', '力', '待'],
        Builtin::Concat => seq!['結', '合'],
        Builtin::Add => seq!['足'],
        Builtin::Sub => seq!['引'],
        Builtin::Mul => seq!['掛'],
        Builtin::Div => seq!['割'],
        Builtin::Rem => seq!['余'],
        Builtin::Pow => seq!['乗'],
        Builtin::Equal => seq!['等'],
        Builtin::Greater => seq!['大'],
        Builtin::Less => seq!['小'],
        Builtin::Or => seq!['和'],
        Builtin::And => seq!['積'],
        Builtin::Not => seq!['否'],
        Builtin::Assign => seq!['代', '入'],
        Builtin::Init => seq!['初', '期', '化'],
        Builtin::Define => seq!['定', '義'],
        Builtin::Evaluate => seq!['評', '価'],
        Builtin::Branch => seq!['条', '件', '分', '岐'],
        Builtin::Repeat => seq!['反', '復'],
        Builtin::ReadFile => seq!['読'],
        Builtin::WriteFile => seq!['書'],
        Builtin::Back => seq!['戻'],
        Builtin::Swap => seq!['返'],
        Builtin::Duplicate => seq!['写'],
        Builtin::Exit => seq!['終', '了'],
    }
}

/// The built-in operation a token names, if any.
pub open spec fn builtin_named(t: Seq<char>) -> Option<Builtin> {
    if exists|b: Builtin| builtin_word(b) == t {
        Some(choose|b: Builtin| builtin_word(b) == t)
    } else {
        None
    }
}

/// The word that recalls the last assigned value.
pub open spec fn cache_word() -> Seq<char> {
    seq!['其']
}

/// A token between literal brackets.
pub open spec fn bracketed(t: Seq<char>) -> bool {
    t.len() >= 2 && t[0] == '「' && t.last() == '」'
}

pub open spec fn all_ascii_text(t: Seq<char>) -> bool {
    forall|i: int| 0 <= i < t.len() ==> (#[trigger] t[i] as u32) < 0x80
}

/// What evaluating a token does.
pub enum TokenAction {
    /// Evaluates a stored function's source.
    Call(Seq<char>),
    /// Pushes a value.
    Push(Val),
    /// Asks for the text to be read as a number; if it is none, the token is
    /// settled by `settle`.
    Parse(Seq<char>),
    /// Runs a built-in operation.
    Run(Builtin),
    /// Does nothing (an empty token).
    Nothing,
}

/// What a token that is neither bound nor a numeral does: the fixed words,
/// then a bracketed literal, then a built-in, and otherwise the token itself
/// as text.
pub open spec fn settle(t: Seq<char>, cache: Val) -> TokenAction {
    if t == true_word() {
        TokenAction::Push(Val::Bool(true))
    } else if t == false_word() {
        TokenAction::Push(Val::Bool(false))
    } else if t == null_word() {
        TokenAction::Push(Val::Null)
    } else if t == cache_word() {
        TokenAction::Push(cache)
    } else if bracketed(t) {
        TokenAction::Push(Val::Text(t.subrange(1, t.len() - 1)))
    } else {
        match builtin_named(t) {
            Some(b) => TokenAction::Run(b),
            None => TokenAction::Push(Val::Text(t)),
        }
    }
}

/// What a token does: a bound name first, then a numeral, then `settle`.
pub open spec fn token_action(memory: Map<Seq<char>, Val>, cache: Val, t: Seq<char>) -> TokenAction {
    if t.len() == 0 {
        TokenAction::Nothing
    } else if memory.contains_key(t) {
        match memory[t] {
            Val::Function(code) => TokenAction::Call(code),
            v => TokenAction::Push(v),
        }
    } else if all_ascii_text(t) {
        TokenAction::Parse(t)
    } else if is_fullwidth_numeral(t) {
        TokenAction::Parse(ascii_digits(t))
    } else {
        settle(t, cache)
    }
}

/// Whether the token is exactly the word.
pub(crate) fn is_word(t: &str, w: &str) -> (r: bool)
    ensures
        r == (t@ == w@),
{
    let n = t.unicode_len();
    if n != w.unicode_len() {
        return false;
    }
    let mut i: usize = 0;
    while i < n
        invariant
            n == t@.len(),
            n == w@.len(),
            i <= n,
            t@.take(i as int) == w@.take(i as int),
        decreases n - i,
    {
        if t.get_char(i) != w.get_char(i) {
            assert(t@[i as int] != w@[i as int]);
            return false;
        }
        assert(t@.take(i + 1) == t@.take(i as int).push(t@[i as int]));
        assert(w@.take(i + 1) == w@.take(i as int).push(w@[i as int]));
        i = i + 1;
    }
    assert(t@.take(n as int) == t@);
    assert(w@.take(n as int) == w@);
    true
}

proof fn lemma_words_differ(a: Builtin, b: Builtin)
    requires
        a != b,
    ensures
        builtin_word(a) != builtin_word(b),
{
    if builtin_word(a) == builtin_word(b) {
        assert(builtin_word(a).len() == builtin_word(b).len());
        assert(builtin_word(a)[0] == builtin_word(b)[0]);
        assert(builtin_word(a).len() > 1 ==> builtin_word(a)[1] == builtin_word(b)[1]);
    }
}

proof fn lemma_named(t: Seq<char>, b: Builtin)
    requires
        builtin_word(b) == t,
    ensures
        builtin_named(t) == Some(b),
{
    let c = choose|c: Builtin| builtin_word(c) == t;
    if c != b {
        lemma_words_differ(c, b);
    }
}

proof fn lemma_no_word(t: Seq<char>)
    requires
        t != builtin_word(Builtin::Print),
        t != builtin_word(Builtin::Input),
        t != builtin_word(Builtin::Concat),
        t != builtin_word(Builtin::Add),
        t != builtin_word(Builtin::Sub),
        t != builtin_word(Builtin::Mul),
        t != builtin_word(Builtin::Div),
        t != builtin_word(Builtin::Rem),
        t != builtin_word(Builtin::Pow),
        t != builtin_word(Builtin::Equal),
        t != builtin_word(Builtin::Greater),
        t != builtin_word(Builtin::Less),
        t != builtin_word(Builtin::Or),
        t != builtin_word(Builtin::And),
        t != builtin_word(Builtin::Not),
        t != builtin_word(Builtin::Assign),
        t != builtin_word(Builtin::Init),
        t != builtin_word(Builtin::Define),
        t != builtin_word(Builtin::Evaluate),
        t != builtin_word(Builtin::Branch),
        t != builtin_word(Builtin::Repeat),
        t != builtin_word(Builtin::ReadFile),
        t != builtin_word(Builtin::WriteFile),
        t != builtin_word(Builtin::Back),
        t != builtin_word(Builtin::Swap),
        t != builtin_word(Builtin::Duplicate),
        t != builtin_word(Builtin::Exit),
    ensures
        builtin_named(t) is None,
{
    assert forall|b: Builtin| builtin_word(b) != t by {
        match b {
            Builtin::Print => {},
            Builtin::Input => {},
            Builtin::Concat => {},
            Builtin::Add => {},
            Builtin::Sub => {},
            Builtin::Mul => {},
            Builtin::Div => {},
            Builtin::Rem => {},
            Builtin::Pow => {},
            Builtin::Equal => {},
            Builtin::Greater => {},
            Builtin::Less => {},
            Builtin::Or => {},
            Builtin::And => {},
            Builtin::Not => {},
            Builtin::Assign => {},
            Builtin::Init => {},
            Builtin::Define => {},
            Builtin::Evaluate => {},
            Builtin::Branch => {},
            Builtin::Repeat => {},
            Builtin::ReadFile => {},
            Builtin::WriteFile => {},
            Builtin::Back => {},
            Builtin::Swap => {},
            Builtin::Duplicate => {},
            Builtin::Exit => {},
        }
    }
}

/// The built-in operation the token names, if any.
pub fn builtin_of(t: &str) -> (r: Option<Builtin>)
    ensures
        r == builtin_named(t@),
{
    proof {
        reveal_strlit("表示");
        assert("表示"@ =~= builtin_word(Builtin::Print));
        reveal_strlit("入力待");
        assert("入力待"@ =~= builtin_word(Builtin::Input));
        reveal_strlit("結合");
        assert("結合"@ =~= builtin_word(Builtin::Concat));
        reveal_strlit("足");
        assert("足"@ =~= builtin_word(Builtin::Add));
        reveal_strlit("引");
        assert("引"@ =~= builtin_word(Builtin::Sub));
        reveal_strlit("掛");
        assert("掛"@ =~= builtin_word(Builtin::Mul));
        reveal_strlit("割");
        assert("割"@ =~= builtin_word(Builtin::Div));
        reveal_strlit("余");
        assert("余"@ =~= builtin_word(Builtin::Rem));
        reveal_strlit("乗");
        assert("乗"@ =~= builtin_word(Builtin::Pow));
        reveal_strlit("等");
        assert("等"@ =~= builtin_word(Builtin::Equal));
        reveal_strlit("大");
        assert("大"@ =~= builtin_word(Builtin::Greater));
        reveal_strlit("小");
        assert("小"@ =~= builtin_word(Builtin::Less));
        reveal_strlit("和");
        assert("和"@ =~= builtin_word(Builtin::Or));
        reveal_strlit("積");
        assert("積"@ =~= builtin_word(Builtin::And));
        reveal_strlit("否");
        assert("否"@ =~= builtin_word(Builtin::Not));
        reveal_strlit("代入");
        assert("代入"@ =~= builtin_word(Builtin::Assign));
        reveal_strlit("初期化");
        assert("初期化"@ =~= builtin_word(Builtin::Init));
        reveal_strlit("定義");
        assert("定義"@ =~= builtin_word(Builtin::Define));
        reveal_strlit("評価");
        assert("評価"@ =~= builtin_word(Builtin::Evaluate));
        reveal_strlit("条件分岐");
        assert("条件分岐"@ =~= builtin_word(Builtin::Branch));
        reveal_strlit("反復");
        assert("反復"@ =~= builtin_word(Builtin::Repeat));
        reveal_strlit("読");
        assert("読"@ =~= builtin_word(Builtin::ReadFile));
        reveal_strlit("書");
        assert("書"@ =~= builtin_word(Builtin::WriteFile));
        reveal_strlit("戻");
        assert("戻"@ =~= builtin_word(Builtin::Back));
        reveal_strlit("返");
        assert("返"@ =~= builtin_word(Builtin::Swap));
        reveal_strlit("写");
        assert("写"@ =~= builtin_word(Builtin::Duplicate));
        reveal_strlit("終了");
        assert("終了"@ =~= builtin_word(Builtin::Exit));
    }
    if is_word(t, "表示") {
        proof {
            lemma_named(t@, Builtin::Print);
        }
        return Some(Builtin::Print);
    }
    if is_word(t, "入力待") {
        proof {
            lemma_named(t@, Builtin::Input);
        }
        return Some(Builtin::Input);
    }
    if is_word(t, "結合") {
        proof {
            lemma_named(t@, Builtin::Concat);
        }
        return Some(Builtin::Concat);
    }
    if is_word(t, "足") {
        proof {
            lemma_named(t@, Builtin::Add);
        }
        return Some(Builtin::Add);
    }
    if is_word(t, "引") {
        proof {
            lemma_named(t@, Builtin::Sub);
        }
        return Some(Builtin::Sub);
    }
    if is_word(t, "掛") {
        proof {
            lemma_named(t@, Builtin::Mul);
        }
        return Some(Builtin::Mul);
    }
    if is_word(t, "割") {
        proof {
            lemma_named(t@, Builtin::Div);
        }
        return Some(Builtin::Div);
    }
    if is_word(t, "余") {
        proof {
            lemma_named(t@, Builtin::Rem);
        }
        return Some(Builtin::Rem);
    }
    if is_word(t, "乗") {
        proof {
            lemma_named(t@, Builtin::Pow);
        }
        return Some(Builtin::Pow);
    }
    if is_word(t, "等") {
        proof {
            lemma_named(t@, Builtin::Equal);
        }
        return Some(Builtin::Equal);
    }
    if is_word(t, "大") {
        proof {
            lemma_named(t@, Builtin::Greater);
        }
        return Some(Builtin::Greater);
    }
    if is_word(t, "小") {
        proof {
            lemma_named(t@, Builtin::Less);
        }
        return Some(Builtin::Less);
    }
    if is_word(t, "和") {
        proof {
            lemma_named(t@, Builtin::Or);
        }
        return Some(Builtin::Or);
    }
    if is_word(t, "積") {
        proof {
            lemma_named(t@, Builtin::And);
        }
        return Some(Builtin::And);
    }
    if is_word(t, "否") {
        proof {
            lemma_named(t@, Builtin::Not);
        }
        return Some(Builtin::Not);
    }
    if is_word(t, "代入") {
        proof {
            lemma_named(t@, Builtin::Assign);
        }
        return Some(Builtin::Assign);
    }
    if is_word(t, "初期化") {
        proof {
            lemma_named(t@, Builtin::Init);
        }
        return Some(Builtin::Init);
    }
    if is_word(t, "定義") {
        proof {
            lemma_named(t@, Builtin::Define);
        }
        return Some(Builtin::Define);
    }
    if is_word(t, "評価") {
        proof {
            lemma_named(t@, Builtin::Evaluate);
        }
        return Some(Builtin::Evaluate);
    }
    if is_word(t, "条件分岐") {
        proof {
            lemma_named(t@, Builtin::Branch);
        }
        return Some(Builtin::Branch);
    }
    if is_word(t, "反復") {
        proof {
            lemma_named(t@, Builtin::Repeat);
        }
        return Some(Builtin::Repeat);
    }
    if is_word(t, "読") {
        proof {
            lemma_named(t@, Builtin::ReadFile);
        }
        return Some(Builtin::ReadFile);
    }
    if is_word(t, "書") {
        proof {
            lemma_named(t@, Builtin::WriteFile);
        }
        return Some(Builtin::WriteFile);
    }
    if is_word(t, "戻") {
        proof {
            lemma_named(t@, Builtin::Back);
        }
        return Some(Builtin::Back);
    }
    if is_word(t, "返") {
        proof {
            lemma_named(t@, Builtin::Swap);
        }
        return Some(Builtin::Swap);
    }
    if is_word(t, "写") {
        proof {
            lemma_named(t@, Builtin::Duplicate);
        }
        return Some(Builtin::Duplicate);
    }
    if is_word(t, "終了") {
        proof {
            lemma_named(t@, Builtin::Exit);
        }
        return Some(Builtin::Exit);
    }
    proof {
        lemma_no_word(t@);
    }
    None
}

} // verus!
