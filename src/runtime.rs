//! The evaluator, as a machine that the host drives one step at a time.
//!
//! Each evaluation of a fragment is a frame; a loop is a frame that sits on
//! the frame of the token that started it. The skip counter ends frames
//! early: after a token, a nonzero counter is decreased by one and the
//! frame ends.
use vstd::prelude::*;
use vstd::string::*;
use crate::value::{Value, Val, vals, copy_text, true_word, false_word, null_word, truth, plain_text, plain_number};
use crate::memory::Memory;
use crate::lexer::{tokenize, tokens_of, texts, trim_text, trimmed, normalize_digits, is_fullwidth_number, all_ascii};
use crate::words::{Builtin, TokenAction, token_action, settle, bracketed, builtin_of, is_word, cache_word};

verus! {

/// Arithmetic and comparisons, which the host computes on binary64 numbers.
#[derive(PartialEq, Eq, Structural, Clone, Copy, Debug)]
pub enum Arith {
    Add,
    Sub,
    Mul,
    Div,
    Rem,
    Pow,
    Greater,
    Less,
}

/// What the runtime needs from its host before it can go on.
#[derive(Debug)]
pub enum Request {
    /// The loaded source has been evaluated.
    Finished,
    /// The program ended the process.
    Halt,
    /// Print the text and a line break; answer `Done`.
    Print(String),
    /// Read a line after the prompt; answer `Text` (empty when nothing was read).
    ReadLine(String),
    /// Read the file at the path; answer `Text` (empty when it cannot be read).
    ReadFile(String),
    /// Write the content to the path; answer `Done`.
    WriteFile(String, String),
    /// Read the token as a binary64 numeral; answer `Numeral`.
    ParseNumeral(String),
    /// Render the number as text; answer `Text`.
    NumberText(u64),
    /// Read the text, already trimmed, as a number, 0 when it is none;
    /// answer `Number`.
    TextNumber(String),
    /// Compute `left op right`; answer `Number`, or `Truth` for comparisons.
    Compute(Arith, u64, u64),
    /// Convert the number to a count of frames to end; answer `Count`.
    BackCount(u64),
}

/// The host's answer to a request.
#[derive(Debug)]
pub enum Reply {
    Done,
    Text(String),
    Number(u64),
    Numeral(Option<u64>),
    Truth(bool),
    Count(usize),
}

/// The form a built-in needs an operand in.
#[derive(PartialEq, Eq, Structural, Clone, Copy, Debug)]
pub enum Want {
    Text,
    Number,
    Truth,
    Raw,
}

/// A fragment being evaluated, or a loop.
#[derive(Debug)]
pub enum Frame {
    Eval { tokens: Vec<String>, next: usize },
    Loop { cond: String, body: String, in_body: bool },
}

/// What the runtime is waiting for.
#[derive(Debug)]
pub enum Wait {
    Idle,
    /// The numeral reading of this token.
    Numeral(String),
    /// The converted form of this operand.
    Convert(usize),
    /// The result of the running built-in.
    Complete,
}

/// How many operands a built-in pops.
pub open spec fn arity(op: Builtin) -> nat {
    match op {
        Builtin::Print | Builtin::Input | Builtin::Not | Builtin::Evaluate | Builtin::ReadFile
        | Builtin::Back | Builtin::Duplicate => 1,
        Builtin::Branch => 3,
        Builtin::Exit => 0,
        _ => 2,
    }
}

/// The form of the operand popped `i`-th (from 0) by a built-in.
pub open spec fn want(op: Builtin, i: nat) -> Want {
    match op {
        Builtin::Add | Builtin::Sub | Builtin::Mul | Builtin::Div | Builtin::Rem | Builtin::Pow
        | Builtin::Greater | Builtin::Less | Builtin::Back => Want::Number,
        Builtin::Or | Builtin::And | Builtin::Not => Want::Truth,
        Builtin::Assign | Builtin::Init => if i == 0 { Want::Text } else { Want::Raw },
        Builtin::Branch => if i == 2 { Want::Truth } else { Want::Text },
        Builtin::Swap | Builtin::Duplicate | Builtin::Exit => Want::Raw,
        _ => Want::Text,
    }
}

/// The arithmetic a built-in asks of the host, if any.
pub open spec fn arith_of(op: Builtin) -> Option<Arith> {
    match op {
        Builtin::Add => Some(Arith::Add),
        Builtin::Sub => Some(Arith::Sub),
        Builtin::Mul => Some(Arith::Mul),
        Builtin::Div => Some(Arith::Div),
        Builtin::Rem => Some(Arith::Rem),
        Builtin::Pow => Some(Arith::Pow),
        Builtin::Greater => Some(Arith::Greater),
        Builtin::Less => Some(Arith::Less),
        _ => None,
    }
}

/// Popping one value: null from an empty stack.
pub open spec fn pop_val(s: Seq<Val>) -> (Seq<Val>, Val) {
    if s.len() == 0 {
        (s, Val::Null)
    } else {
        (s.drop_last(), s.last())
    }
}

/// Popping `n` values: the stack left and the values, first popped first.
pub open spec fn pop_vals(s: Seq<Val>, n: nat) -> (Seq<Val>, Seq<Val>)
    decreases n,
{
    if n == 0 {
        (s, Seq::empty())
    } else {
        let (s1, vs) = pop_vals(s, (n - 1) as nat);
        let (s2, v) = pop_val(s1);
        (s2, vs.push(v))
    }
}

/// The content of a text operand.
pub open spec fn text_of(v: Val) -> Seq<char> {
    match v {
        Val::Text(s) => s,
        _ => Seq::empty(),
    }
}

/// The bits of a number operand.
pub open spec fn num_of(v: Val) -> u64 {
    match v {
        Val::Number(b) => b,
        _ => 0,
    }
}

/// The truth of a truth operand.
pub open spec fn truth_of(v: Val) -> bool {
    match v {
        Val::Bool(b) => b,
        _ => false,
    }
}

/// A frame that starts evaluating the source text.
pub open spec fn fresh_eval(f: Frame, code: Seq<char>) -> bool {
    f matches Frame::Eval { tokens, next } && next == 0 && texts(tokens@) == tokens_of(code)
}

/// A loop frame about to evaluate its condition.
pub open spec fn loop_frame(f: Frame, cond: Seq<char>, body: Seq<char>, in_body: bool) -> bool {
    f matches Frame::Loop { cond: c, body: b, in_body: ib } && c@ == cond && b@ == body
        && ib == in_body
}

/// The state after a token has been dealt with: a nonzero skip counter is
/// decreased and ends the current frame.
pub open spec fn token_closed(skip: usize, frames: Seq<Frame>, returned: bool, r: &Runtime) -> bool {
    if skip == 0 {
        r.skip == 0 && r.frames@ == frames && r.returned == returned
    } else {
        r.skip == skip - 1 && r.frames@ == without_top(frames) && r.returned
    }
}

/// The interpreter's state.
pub struct Runtime {
    /// Operand stack; its top is the last element.
    pub stack: Vec<Value>,
    /// Names bound to values.
    pub memory: Memory,
    /// The value last assigned.
    pub cache: Value,
    /// Frames still to be ended early.
    pub skip: usize,
    /// Frames being evaluated; the innermost is the last.
    pub frames: Vec<Frame>,
    /// The innermost frame has just ended and its parent has not yet resumed.
    pub returned: bool,
    /// The built-in being run.
    pub op: Option<Builtin>,
    /// Its operands, first popped first.
    pub args: Vec<Value>,
    /// What the runtime is waiting for.
    pub wait: Wait,
}

fn arity_of(op: Builtin) -> (r: usize)
    ensures
        r == arity(op),
{
    match op {
        Builtin::Print | Builtin::Input | Builtin::Not | Builtin::Evaluate | Builtin::ReadFile
        | Builtin::Back | Builtin::Duplicate => 1,
        Builtin::Branch => 3,
        Builtin::Exit => 0,
        _ => 2,
    }
}

fn want_of(op: Builtin, i: usize) -> (r: Want)
    ensures
        r == want(op, i as nat),
{
    match op {
        Builtin::Add | Builtin::Sub | Builtin::Mul | Builtin::Div | Builtin::Rem | Builtin::Pow
        | Builtin::Greater | Builtin::Less | Builtin::Back => Want::Number,
        Builtin::Or | Builtin::And | Builtin::Not => Want::Truth,
        Builtin::Assign | Builtin::Init => if i == 0 { Want::Text } else { Want::Raw },
        Builtin::Branch => if i == 2 { Want::Truth } else { Want::Text },
        Builtin::Swap | Builtin::Duplicate | Builtin::Exit => Want::Raw,
        _ => Want::Text,
    }
}

fn arith_for(op: Builtin) -> (r: Option<Arith>)
    ensures
        r == arith_of(op),
{
    match op {
        Builtin::Add => Some(Arith::Add),
        Builtin::Sub => Some(Arith::Sub),
        Builtin::Mul => Some(Arith::Mul),
        Builtin::Div => Some(Arith::Div),
        Builtin::Rem => Some(Arith::Rem),
        Builtin::Pow => Some(Arith::Pow),
        Builtin::Greater => Some(Arith::Greater),
        Builtin::Less => Some(Arith::Less),
        _ => None,
    }
}

fn string_of(s: &str) -> (r: String)
    ensures
        r@ == s@,
{
    String::from_str(s)
}

/// A frame that evaluates the source text from its first token.
pub fn eval_frame(code: &str) -> (r: Frame)
    ensures
        fresh_eval(r, code@),
{
    Frame::Eval { tokens: tokenize(code), next: 0 }
}

/// The text between the brackets of a bracketed token.
fn inner_text(t: &str) -> (r: String)
    requires
        t@.len() >= 2,
    ensures
        r@ == t@.subrange(1, t@.len() - 1),
{
    let n = t.unicode_len();
    string_of(t.substring_char(1, n - 1))
}


/// The frames left when the innermost one ends.
pub open spec fn without_top(f: Seq<Frame>) -> Seq<Frame> {
    if f.len() == 0 {
        f
    } else {
        f.drop_last()
    }
}

/// The runtime asked the host for the built-in's result, and waits for it.
pub open spec fn asked(o: &Runtime, n: &Runtime) -> bool {
    &&& n.wait is Complete
    &&& n.op == o.op
    &&& n.stack == o.stack
    &&& n.frames == o.frames
    &&& n.memory == o.memory
    &&& n.cache == o.cache
    &&& n.skip == o.skip
    &&& n.returned == o.returned
}

/// The built-in is done and its token closed, with the stack and the memory
/// table as given.
pub open spec fn finished_with(o: &Runtime, n: &Runtime, r: Option<Request>, stack: Seq<Val>) -> bool {
    &&& r is None
    &&& n.op is None
    &&& n.wait is Idle
    &&& vals(n.stack@) == stack
    &&& token_closed(o.skip, o.frames@, o.returned, n)
}

/// The built-in is done and has started evaluating the fragment.
pub open spec fn called(o: &Runtime, n: &Runtime, r: Option<Request>, code: Seq<char>) -> bool {
    &&& r is None
    &&& n.op is None
    &&& n.wait is Idle
    &&& n.stack == o.stack
    &&& n.memory == o.memory
    &&& n.cache == o.cache
    &&& n.skip == o.skip
    &&& n.returned == o.returned
    &&& n.frames@.len() == o.frames@.len() + 1
    &&& n.frames@.drop_last() == o.frames@
    &&& fresh_eval(n.frames@.last(), code)
}

/// What a built-in does with operands `a` (first popped first) in the forms
/// it wants.
pub open spec fn completed(op: Builtin, a: Seq<Val>, o: &Runtime, n: &Runtime, r: Option<Request>) -> bool {
    let same = n.memory == o.memory && n.cache == o.cache;
    match op {
        Builtin::Print => asked(o, n) && (r matches Some(Request::Print(s)) && s@ == text_of(a[0])),
        Builtin::Input => asked(o, n) && (r matches Some(Request::ReadLine(s)) && s@ == text_of(a[0])),
        Builtin::ReadFile => asked(o, n) && (r matches Some(Request::ReadFile(s)) && s@ == text_of(
            a[0],
        )),
        Builtin::WriteFile => asked(o, n) && (r matches Some(Request::WriteFile(p, c)) && p@
            == text_of(a[0]) && c@ == text_of(a[1])),
        Builtin::Back => asked(o, n) && (r matches Some(Request::BackCount(b)) && b == num_of(a[0])),
        Builtin::Exit => (r matches Some(Request::Halt)) && n.is_idle() && n.stack == o.stack
            && same && n.skip == o.skip,
        Builtin::Concat => same && finished_with(
            o,
            n,
            r,
            vals(o.stack@).push(Val::Text(text_of(a[1]) + text_of(a[0]))),
        ),
        Builtin::Equal => same && finished_with(
            o,
            n,
            r,
            vals(o.stack@).push(Val::Bool(text_of(a[0]) == text_of(a[1]))),
        ),
        Builtin::Or => same && finished_with(
            o,
            n,
            r,
            vals(o.stack@).push(Val::Bool(truth_of(a[1]) || truth_of(a[0]))),
        ),
        Builtin::And => same && finished_with(
            o,
            n,
            r,
            vals(o.stack@).push(Val::Bool(truth_of(a[1]) && truth_of(a[0]))),
        ),
        Builtin::Not => same && finished_with(o, n, r, vals(o.stack@).push(Val::Bool(!truth_of(a[0])))),
        Builtin::Swap => same && finished_with(o, n, r, vals(o.stack@).push(a[0]).push(a[1])),
        Builtin::Duplicate => same && finished_with(o, n, r, vals(o.stack@).push(a[0]).push(a[0])),
        Builtin::Assign => finished_with(o, n, r, vals(o.stack@)) && n.cache@ == a[1] && n.memory@
            == o.memory@.insert(text_of(a[0]), a[1]),
        Builtin::Init => finished_with(o, n, r, vals(o.stack@)) && n.cache@ == a[1] && n.memory@
            == if o.memory@.contains_key(text_of(a[0])) {
            o.memory@
        } else {
            o.memory@.insert(text_of(a[0]), a[1])
        },
        Builtin::Define => finished_with(o, n, r, vals(o.stack@)) && n.cache == o.cache
            && n.memory@ == o.memory@.insert(text_of(a[0]), Val::Function(text_of(a[1]))),
        Builtin::Evaluate => called(o, n, r, text_of(a[0])),
        Builtin::Branch => called(
            o,
            n,
            r,
            if truth_of(a[2]) {
                text_of(a[1])
            } else {
                text_of(a[0])
            },
        ),
        Builtin::Repeat => {
            &&& r is None
            &&& n.op is None
            &&& n.wait is Idle
            &&& n.stack == o.stack
            &&& same
            &&& n.skip == o.skip
            &&& n.returned == o.returned
            &&& n.frames@.len() == o.frames@.len() + 2
            &&& n.frames@.subrange(0, o.frames@.len() as int) == o.frames@
            &&& loop_frame(n.frames@[o.frames@.len() as int], text_of(a[1]), text_of(a[0]), false)
            &&& fresh_eval(n.frames@.last(), text_of(a[1]))
        },
        _ => asked(o, n) && (r matches Some(Request::Compute(k, x, y)) && k == arith_of(op)->0 && x
            == num_of(a[1]) && y == num_of(a[0])),
    }
}

/// Whether turning the value into the wanted form takes the host.
pub open spec fn needs_host(v: Val, w: Want) -> bool {
    (w == Want::Text && v is Number) || (w == Want::Number && (v is Text || v is Function))
}

/// The value in the wanted form, where that does not take the host.
pub open spec fn normal(v: Val, w: Want) -> Val {
    match w {
        Want::Text => Val::Text(plain_text(v)),
        Want::Number => Val::Number(plain_number(v)),
        Want::Truth => Val::Bool(truth(v)),
        Want::Raw => v,
    }
}

/// The operands of a built-in, each in the form it wants.
pub open spec fn normalized(op: Builtin, a: Seq<Val>) -> Seq<Val> {
    Seq::new(a.len(), |i: int| normal(a[i], want(op, i as nat)))
}

/// The runtime asks the host to convert operand `i`, the first that needs
/// it, having brought the ones before it into their forms.
pub open spec fn converting(o: &Runtime, n: &Runtime, r: Option<Request>, i: usize) -> bool {
    let op = o.op->0;
    let a = vals(o.args@);
    &&& i < a.len()
    &&& needs_host(a[i as int], want(op, i as nat))
    &&& forall|j: int|
        0 <= j < i ==> !needs_host(#[trigger] a[j], want(op, j as nat)) && vals(n.args@)[j]
            == normal(a[j], want(op, j as nat))
    &&& forall|j: int| i <= j < a.len() ==> #[trigger] vals(n.args@)[j] == a[j]
    &&& n.args@.len() == a.len()
    &&& match a[i as int] {
        Val::Number(b) => r == Some(Request::NumberText(b)),
        Val::Text(s) => r matches Some(Request::TextNumber(u)) && trimmed(s, u@),
        Val::Function(s) => r matches Some(Request::TextNumber(u)) && trimmed(s, u@),
        _ => false,
    }
    &&& n.op == o.op
    &&& n.stack == o.stack
    &&& n.frames == o.frames
    &&& n.memory == o.memory
    &&& n.cache == o.cache
    &&& n.skip == o.skip
    &&& n.returned == o.returned
}

/// What a step of a running built-in does: it asks for the first operand
/// conversion that takes the host, or, when none does, completes.
pub open spec fn advanced(o: &Runtime, n: &Runtime, r: Option<Request>) -> bool {
    let op = o.op->0;
    let a = vals(o.args@);
    if forall|i: int| 0 <= i < a.len() ==> !needs_host(#[trigger] a[i], want(op, i as nat)) {
        completed(op, normalized(op, a), o, n, r)
    } else {
        n.wait matches Wait::Convert(i) && converting(o, n, r, i)
    }
}

/// Whether a reply is the kind of result a built-in asked for.
pub open spec fn reply_fits(op: Builtin, reply: &Reply) -> bool {
    match op {
        Builtin::Print | Builtin::WriteFile => reply is Done,
        Builtin::Input | Builtin::ReadFile => reply is Text,
        Builtin::Greater | Builtin::Less => reply is Truth,
        Builtin::Back => reply is Count,
        _ => arith_of(op) is Some && reply is Number,
    }
}

impl Runtime {
    /// The memory table's own invariant, and a wait that names an operand
    /// or a result of a running built-in.
    pub open spec fn wf(&self) -> bool {
        &&& self.memory.wf()
        &&& (self.wait matches Wait::Convert(i) ==> self.op is Some && i < self.args@.len())
        &&& (self.wait is Complete ==> self.op is Some)
        &&& (self.wait is Numeral ==> self.op is None)
        &&& (self.op matches Some(op) ==> self.args@.len() == arity(op))
    }

    /// Ready for new source: no frame, no running built-in, nothing awaited.
    pub open spec fn is_idle(&self) -> bool {
        &&& self.frames@.len() == 0
        &&& self.op is None
        &&& self.wait is Idle
        &&& !self.returned
    }

    /// Whether `reply` answers what the runtime waits for.
    pub open spec fn fits(&self, reply: &Reply) -> bool {
        match self.wait {
            Wait::Idle => false,
            Wait::Numeral(_) => reply is Numeral,
            Wait::Convert(i) => if self.args@[i as int]@ is Number {
                reply is Text
            } else {
                reply is Number
            },
            Wait::Complete => self.op matches Some(op) && reply_fits(op, reply),
        }
    }

    /// The operand popped `i`-th by the running built-in.
    pub open spec fn arg(&self, i: int) -> Val {
        self.args@[i]@
    }

    /// A fresh runtime: an empty stack, a null cache, and the memory table
    /// holding the line break and the space under their names.
    pub fn new() -> (r: Runtime)
        ensures
            r.wf(),
            r.is_idle(),
            r.stack@.len() == 0,
            r.skip == 0,
            r.cache@ == Val::Null,
            r.memory@ == Map::<Seq<char>, Val>::empty().insert(seq!['改', '行'], Val::Text(seq!['\n']))
                .insert(seq!['空', '白'], Val::Text(seq![' '])),
    {
        proof {
            reveal_strlit("改行");
            reveal_strlit("空白");
            reveal_strlit("\n");
            reveal_strlit(" ");
            assert("改行"@ =~= seq!['改', '行']);
            assert("空白"@ =~= seq!['空', '白']);
            assert("\n"@ =~= seq!['\n']);
            assert(" "@ =~= seq![' ']);
        }
        let mut memory = Memory::new();
        memory.assign(string_of("改行"), Value::Text(string_of("\n")));
        memory.assign(string_of("空白"), Value::Text(string_of(" ")));
        Runtime {
            stack: Vec::new(),
            memory,
            cache: Value::Null,
            skip: 0,
            frames: Vec::new(),
            returned: false,
            op: None,
            args: Vec::new(),
            wait: Wait::Idle,
        }
    }

    /// Starts evaluating source text: a frame for it becomes the innermost.
    pub fn load(&mut self, source: &str)
        requires
            old(self).wf(),
        ensures
            final(self).wf(),
            final(self).frames@.len() == old(self).frames@.len() + 1,
            final(self).frames@.drop_last() == old(self).frames@,
            fresh_eval(final(self).frames@.last(), source@),
            final(self).stack@ == old(self).stack@,
            final(self).memory == old(self).memory,
            final(self).cache == old(self).cache,
            final(self).skip == old(self).skip,
            final(self).op == old(self).op,
            final(self).args == old(self).args,
            final(self).wait == old(self).wait,
            final(self).returned == old(self).returned,
    {
        let f = eval_frame(source);
        self.frames.push(f);
        assert(self.frames@.drop_last() == old(self).frames@);
    }

    /// Pushes a value.
    pub fn push(&mut self, v: Value)
        ensures
            vals(final(self).stack@) == vals(old(self).stack@).push(v@),
            final(self).memory == old(self).memory,
            final(self).cache == old(self).cache,
            final(self).skip == old(self).skip,
            final(self).frames == old(self).frames,
            final(self).returned == old(self).returned,
            final(self).op == old(self).op,
            final(self).args == old(self).args,
            final(self).wait == old(self).wait,
    {
        self.stack.push(v);
        assert(vals(self.stack@) =~= vals(old(self).stack@).push(v@));
    }

    /// Pops the top value; null when the stack is empty.
    pub fn pop(&mut self) -> (r: Value)
        ensures
            (vals(final(self).stack@), r@) == pop_val(vals(old(self).stack@)),
            final(self).memory == old(self).memory,
            final(self).cache == old(self).cache,
            final(self).skip == old(self).skip,
            final(self).frames == old(self).frames,
            final(self).returned == old(self).returned,
            final(self).op == old(self).op,
            final(self).args == old(self).args,
            final(self).wait == old(self).wait,
    {
        match self.stack.pop() {
            Some(v) => {
                assert(vals(self.stack@) =~= vals(old(self).stack@).drop_last());
                v
            },
            None => Value::Null,
        }
    }

    /// After a token: a nonzero skip counter is decreased and ends the frame.
    fn close_token(&mut self)
        ensures
            token_closed(old(self).skip, old(self).frames@, old(self).returned, final(self)),
            final(self).stack == old(self).stack,
            final(self).memory == old(self).memory,
            final(self).cache == old(self).cache,
            final(self).op == old(self).op,
            final(self).args == old(self).args,
            final(self).wait == old(self).wait,
    {
        if self.skip != 0 {
            self.skip = self.skip - 1;
            let _ = self.frames.pop();
            self.returned = true;
        }
    }
}


impl Runtime {
    /// Starts a built-in: pops its operands, first popped first.
    fn begin(&mut self, op: Builtin)
        requires
            old(self).wf(),
            old(self).wait is Idle,
        ensures
            final(self).wf(),
            final(self).wait is Idle,
            final(self).op == Some(op),
            (vals(final(self).stack@), vals(final(self).args@)) == pop_vals(
                vals(old(self).stack@),
                arity(op),
            ),
            final(self).memory == old(self).memory,
            final(self).cache == old(self).cache,
            final(self).skip == old(self).skip,
            final(self).frames == old(self).frames,
            final(self).returned == old(self).returned,
    {
        let n = arity_of(op);
        let mut args: Vec<Value> = Vec::new();
        let mut i: usize = 0;
        while i < n
            invariant
                n == arity(op),
                i <= n,
                args@.len() == i,
                (vals(self.stack@), vals(args@)) == pop_vals(vals(old(self).stack@), i as nat),
                self.wf(),
                self.wait is Idle,
                self.memory == old(self).memory,
                self.cache == old(self).cache,
                self.skip == old(self).skip,
                self.frames == old(self).frames,
                self.returned == old(self).returned,
            decreases n - i,
        {
            let v = self.pop();
            let ghost before = vals(args@);
            args.push(v);
            assert(vals(args@) =~= before.push(v@));
            i = i + 1;
        }
        self.op = Some(op);
        self.args = args;
    }

    fn arg_text(&self, i: usize) -> (r: String)
        requires
            i < self.args@.len(),
        ensures
            r@ == text_of(self.arg(i as int)),
    {
        match &self.args[i] {
            Value::Text(s) => copy_text(s),
            _ => String::new(),
        }
    }

    fn arg_num(&self, i: usize) -> (r: u64)
        requires
            i < self.args@.len(),
        ensures
            r == num_of(self.arg(i as int)),
    {
        match &self.args[i] {
            Value::Number(b) => *b,
            _ => 0,
        }
    }

    fn arg_truth(&self, i: usize) -> (r: bool)
        requires
            i < self.args@.len(),
        ensures
            r == truth_of(self.arg(i as int)),
    {
        match &self.args[i] {
            Value::Bool(b) => *b,
            _ => false,
        }
    }

    fn arg_copy(&self, i: usize) -> (r: Value)
        requires
            i < self.args@.len(),
        ensures
            r@ == self.arg(i as int),
    {
        self.args[i].duplicate()
    }

    /// Brings the operands of the running built-in into the forms it wants,
    /// asking the host where that takes a number rendered or text read as a
    /// number, and then completes the built-in.
    fn advance(&mut self) -> (r: Option<Request>)
        requires
            old(self).wf(),
            old(self).wait is Idle,
            old(self).op is Some,
            old(self).args@.len() == arity(old(self).op->0),
        ensures
            final(self).wf(),
            (final(self).wait is Idle) <==> (r is None || r->0 is Halt),
            !(r matches Some(Request::Finished)),
            r matches Some(Request::Halt) ==> final(self).is_idle(),
            advanced(old(self), final(self), r),
    {
        let op = match self.op {
            Some(op) => op,
            None => Builtin::Exit,
        };
        let ghost a = vals(self.args@);
        let n = self.args.len();
        let mut i: usize = 0;
        while i < n
            invariant
                n == self.args@.len(),
                n == a.len(),
                n == arity(op),
                self.op == Some(op),
                old(self).op == Some(op),
                i <= n,
                self.wf(),
                self.wait is Idle,
                self.stack == old(self).stack,
                self.frames == old(self).frames,
                self.memory == old(self).memory,
                self.cache == old(self).cache,
                self.skip == old(self).skip,
                self.returned == old(self).returned,
                a == vals(old(self).args@),
                forall|j: int|
                    0 <= j < i ==> !needs_host(#[trigger] a[j], want(op, j as nat)) && vals(
                        self.args@,
                    )[j] == normal(a[j], want(op, j as nat)),
                forall|j: int| i <= j < n ==> #[trigger] vals(self.args@)[j] == a[j],
            decreases n - i,
        {
            let ghost before = vals(self.args@);
            match want_of(op, i) {
                Want::Text => {
                    if let Value::Number(b) = &self.args[i] {
                        let b = *b;
                        self.wait = Wait::Convert(i);
                        return Some(Request::NumberText(b));
                    }
                    let s = self.args[i].get_plain_string();
                    self.args.set(i, Value::Text(s));
                },
                Want::Number => {
                    if self.args[i].holds_text() {
                        let s = match &self.args[i] {
                            Value::Text(s) => trim_text(s.as_str()),
                            Value::Function(s) => trim_text(s.as_str()),
                            _ => String::new(),
                        };
                        self.wait = Wait::Convert(i);
                        return Some(Request::TextNumber(s));
                    }
                    let b = self.args[i].get_plain_number();
                    self.args.set(i, Value::Number(b));
                },
                Want::Truth => {
                    let b = self.args[i].get_bool();
                    self.args.set(i, Value::Bool(b));
                },
                Want::Raw => {},
            }
            assert(vals(self.args@) =~= before.update(i as int, normal(a[i as int], want(op, i as nat))));
            i = i + 1;
        }
        assert(vals(self.args@) =~= normalized(op, a));
        self.complete()
    }
}


impl Runtime {
    /// Runs the built-in on its operands: at once where the library can, or
    /// by a request to the host.
    pub fn complete(&mut self) -> (r: Option<Request>)
        requires
            old(self).wf(),
            old(self).wait is Idle,
            old(self).op is Some,
            old(self).args@.len() == arity(old(self).op->0),
        ensures
            final(self).wf(),
            (final(self).wait is Idle) <==> (r is None || r->0 is Halt),
            !(r matches Some(Request::Finished)),
            r matches Some(Request::Halt) ==> final(self).is_idle(),
            completed(old(self).op->0, vals(old(self).args@), old(self), final(self), r),
    {
        let op = match self.op {
            Some(op) => op,
            None => Builtin::Exit,
        };
        match op {
            Builtin::Print => {
                let s = self.arg_text(0);
                self.wait = Wait::Complete;
                return Some(Request::Print(s));
            },
            Builtin::Input => {
                let s = self.arg_text(0);
                self.wait = Wait::Complete;
                return Some(Request::ReadLine(s));
            },
            Builtin::ReadFile => {
                let s = self.arg_text(0);
                self.wait = Wait::Complete;
                return Some(Request::ReadFile(s));
            },
            Builtin::WriteFile => {
                let path = self.arg_text(0);
                let content = self.arg_text(1);
                self.wait = Wait::Complete;
                return Some(Request::WriteFile(path, content));
            },
            Builtin::Back => {
                let b = self.arg_num(0);
                self.wait = Wait::Complete;
                return Some(Request::BackCount(b));
            },
            Builtin::Exit => {
                self.op = None;
                self.args = Vec::new();
                self.frames = Vec::new();
                self.returned = false;
                return Some(Request::Halt);
            },
            _ => {},
        }
        if let Some(k) = arith_for(op) {
            let x = self.arg_num(1);
            let y = self.arg_num(0);
            self.wait = Wait::Complete;
            return Some(Request::Compute(k, x, y));
        }
        let ghost s0 = vals(self.stack@);
        let ghost f0 = self.frames@;
        let mut closes = true;
        match op {
            Builtin::Concat => {
                let a = self.arg_text(1);
                let b = self.arg_text(0);
                self.push(Value::Text(a.concat(b.as_str())));
            },
            Builtin::Equal => {
                let a = self.arg_text(0);
                let b = self.arg_text(1);
                self.push(Value::Bool(a == b));
            },
            Builtin::Or => {
                let v = self.arg_truth(1) || self.arg_truth(0);
                self.push(Value::Bool(v));
            },
            Builtin::And => {
                let v = self.arg_truth(1) && self.arg_truth(0);
                self.push(Value::Bool(v));
            },
            Builtin::Not => {
                let v = !self.arg_truth(0);
                self.push(Value::Bool(v));
            },
            Builtin::Assign => {
                let name = self.arg_text(0);
                let v = self.arg_copy(1);
                self.cache = self.arg_copy(1);
                self.memory.assign(name, v);
            },
            Builtin::Init => {
                let name = self.arg_text(0);
                let v = self.arg_copy(1);
                self.cache = self.arg_copy(1);
                self.memory.assign_if_absent(name, v);
            },
            Builtin::Define => {
                let name = self.arg_text(0);
                let code = self.arg_text(1);
                self.memory.assign(name, Value::Function(code));
            },
            Builtin::Evaluate => {
                let code = self.arg_text(0);
                let f = eval_frame(code.as_str());
                self.frames.push(f);
                assert(self.frames@.drop_last() == f0);
                closes = false;
            },
            Builtin::Branch => {
                let code = if self.arg_truth(2) {
                    self.arg_text(1)
                } else {
                    self.arg_text(0)
                };
                let f = eval_frame(code.as_str());
                self.frames.push(f);
                assert(self.frames@.drop_last() == f0);
                closes = false;
            },
            Builtin::Repeat => {
                let body = self.arg_text(0);
                let cond = self.arg_text(1);
                let f = eval_frame(cond.as_str());
                self.frames.push(Frame::Loop { cond, body, in_body: false });
                self.frames.push(f);
                assert(self.frames@.subrange(0, f0.len() as int) == f0);
                closes = false;
            },
            Builtin::Swap => {
                let a = self.arg_copy(0);
                let b = self.arg_copy(1);
                self.push(a);
                self.push(b);
            },
            Builtin::Duplicate => {
                let a = self.arg_copy(0);
                let b = self.arg_copy(0);
                self.push(a);
                self.push(b);
            },
            _ => {},
        }
        self.op = None;
        self.args = Vec::new();
        if closes {
            self.close_token();
        }
        None
    }
}


/// The runtime pushed the value and then closed the token read in `frames`.
pub open spec fn pushed_and_closed(o: &Runtime, frames: Seq<Frame>, n: &Runtime, v: Val) -> bool {
    &&& vals(n.stack@) == vals(o.stack@).push(v)
    &&& token_closed(o.skip, frames, o.returned, n)
    &&& n.memory == o.memory
    &&& n.cache == o.cache
    &&& n.op == o.op
    &&& n.wait is Idle
}

/// The runtime popped the operands of the built-in and now runs it.
pub open spec fn began(o: &Runtime, frames: Seq<Frame>, n: &Runtime, b: Builtin) -> bool {
    &&& n.op == Some(b)
    &&& (vals(n.stack@), vals(n.args@)) == pop_vals(vals(o.stack@), arity(b))
    &&& n.frames@ == frames
    &&& n.skip == o.skip
    &&& n.returned == o.returned
    &&& n.memory == o.memory
    &&& n.cache == o.cache
    &&& n.wait is Idle
}

/// The runtime did what a settled token does.
pub open spec fn settled(
    o: &Runtime,
    frames: Seq<Frame>,
    n: &Runtime,
    r: Option<Request>,
    a: TokenAction,
) -> bool {
    &&& r is None
    &&& match a {
        TokenAction::Push(v) => pushed_and_closed(o, frames, n, v),
        TokenAction::Run(b) => began(o, frames, n, b),
        _ => true,
    }
}

/// The runtime did what the token `t`, read in `frames`, does.
pub open spec fn handled(o: &Runtime, frames: Seq<Frame>, n: &Runtime, t: Seq<char>, r: Option<Request>) -> bool {
    let kept = n.memory == o.memory && n.cache == o.cache && n.skip == o.skip && n.returned
        == o.returned && n.op is None;
    match token_action(o.memory@, o.cache@, t) {
        TokenAction::Nothing => r is None && kept && n.frames@ == frames && n.stack == o.stack
            && n.wait is Idle,
        TokenAction::Call(code) => {
            &&& r is None
            &&& kept
            &&& n.wait is Idle
            &&& n.stack == o.stack
            &&& n.frames@.len() == frames.len() + 1
            &&& n.frames@.drop_last() == frames
            &&& fresh_eval(n.frames@.last(), code)
        },
        TokenAction::Parse(x) => {
            &&& r matches Some(Request::ParseNumeral(s)) && s@ == x
            &&& n.wait matches Wait::Numeral(u) && u@ == t
            &&& kept
            &&& n.stack == o.stack
            &&& n.frames@ == frames
        },
        a => settled(o, frames, n, r, a),
    }
}

impl Runtime {
    /// Deals with a token that is neither bound nor a numeral.
    fn settle_token(&mut self, t: String) -> (r: Option<Request>)
        requires
            old(self).wf(),
            old(self).wait is Idle,
            old(self).op is None,
        ensures
            final(self).wf(),
            settled(old(self), old(self).frames@, final(self), r, settle(t@, old(self).cache@)),
    {
        proof {
            reveal_strlit("真");
            reveal_strlit("偽");
            reveal_strlit("無");
            reveal_strlit("其");
            assert("真"@ =~= true_word());
            assert("偽"@ =~= false_word());
            assert("無"@ =~= null_word());
            assert("其"@ =~= cache_word());
        }
        let v = if is_word(t.as_str(), "真") {
            Value::Bool(true)
        } else if is_word(t.as_str(), "偽") {
            Value::Bool(false)
        } else if is_word(t.as_str(), "無") {
            Value::Null
        } else if is_word(t.as_str(), "其") {
            self.cache.duplicate()
        } else {
            let n = t.as_str().unicode_len();
            if n >= 2 && t.as_str().get_char(0) == '「' && t.as_str().get_char(n - 1) == '」' {
                Value::Text(inner_text(t.as_str()))
            } else {
                match builtin_of(t.as_str()) {
                    Some(b) => {
                        self.begin(b);
                        return None;
                    },
                    None => Value::Text(t),
                }
            }
        };
        self.push(v);
        self.close_token();
        None
    }

    /// Deals with the next token of the innermost frame.
    fn handle_token(&mut self, t: String) -> (r: Option<Request>)
        requires
            old(self).wf(),
            old(self).wait is Idle,
            old(self).op is None,
        ensures
            final(self).wf(),
            handled(old(self), old(self).frames@, final(self), t@, r),
    {
        if t.as_str().unicode_len() == 0 {
            return None;
        }
        let bound = match self.memory.get(&t) {
            Some(v) => Some(v.duplicate()),
            None => None,
        };
        match bound {
            Some(Value::Function(code)) => {
                let f = eval_frame(code.as_str());
                self.frames.push(f);
                assert(self.frames@.drop_last() == old(self).frames@);
                None
            },
            Some(v) => {
                self.push(v);
                self.close_token();
                None
            },
            None => {
                if all_ascii(t.as_str()) {
                    let s = copy_text(&t);
                    self.wait = Wait::Numeral(t);
                    Some(Request::ParseNumeral(s))
                } else if is_fullwidth_number(t.as_str()) {
                    let s = normalize_digits(t.as_str());
                    self.wait = Wait::Numeral(t);
                    Some(Request::ParseNumeral(s))
                } else {
                    self.settle_token(t)
                }
            },
        }
    }
}


/// What the host's answer does: a numeral is pushed, or the token settled
/// when it is none; a converted operand takes the place of the one it came from; a
/// built-in's result is pushed (a count becomes the skip counter) and its
/// token closed.
pub open spec fn answered(o: &Runtime, n: &Runtime, reply: Reply) -> bool {
    match o.wait {
        Wait::Numeral(t) => match reply {
            Reply::Numeral(Some(b)) => pushed_and_closed(o, o.frames@, n, Val::Number(b)),
            Reply::Numeral(None) => settled(o, o.frames@, n, None, settle(t@, o.cache@)),
            _ => true,
        },
        Wait::Convert(i) => {
            &&& n.op == o.op
            &&& n.stack == o.stack
            &&& n.frames == o.frames
            &&& n.memory == o.memory
            &&& n.cache == o.cache
            &&& n.skip == o.skip
            &&& n.returned == o.returned
            &&& match reply {
                Reply::Text(s) => vals(n.args@) == vals(o.args@).update(i as int, Val::Text(s@)),
                Reply::Number(b) => vals(n.args@) == vals(o.args@).update(i as int, Val::Number(b)),
                _ => true,
            }
        },
        Wait::Complete => {
            &&& n.op is None
            &&& n.memory == o.memory
            &&& n.cache == o.cache
            &&& match reply {
                Reply::Count(k) => n.stack == o.stack && token_closed(k, o.frames@, o.returned, n),
                Reply::Done => n.stack == o.stack && token_closed(o.skip, o.frames@, o.returned, n),
                Reply::Text(s) => vals(n.stack@) == vals(o.stack@).push(Val::Text(s@)) && token_closed(
                    o.skip,
                    o.frames@,
                    o.returned,
                    n,
                ),
                Reply::Number(b) => vals(n.stack@) == vals(o.stack@).push(Val::Number(b))
                    && token_closed(o.skip, o.frames@, o.returned, n),
                Reply::Truth(x) => vals(n.stack@) == vals(o.stack@).push(Val::Bool(x))
                    && token_closed(o.skip, o.frames@, o.returned, n),
                _ => true,
            }
        },
        Wait::Idle => true,
    }
}

/// What resuming the innermost frame does. With no frame left, evaluation
/// is finished. An evaluation frame closes the token whose fragment ended.
/// A loop whose fragment ended with the skip counter nonzero ends together
/// with the frame that started it, and the counter goes down by one.
/// Otherwise a loop that evaluated its condition pops the result: if it is
/// true, the body is evaluated next, and if not, the loop ends; a loop that
/// evaluated its body evaluates its condition again.
pub open spec fn resumed(o: &Runtime, n: &Runtime, r: Option<Request>) -> bool {
    &&& n.memory == o.memory
    &&& n.cache == o.cache
    &&& n.op is None
    &&& if o.frames@.len() == 0 {
        &&& r matches Some(Request::Finished)
        &&& n.stack == o.stack
        &&& n.skip == o.skip
        &&& n.frames@.len() == 0
        &&& !n.returned
    } else {
        &&& r is None
        &&& match o.frames@.last() {
            Frame::Eval { .. } => n.stack == o.stack && token_closed(o.skip, o.frames@, false, n),
            Frame::Loop { cond, body, in_body } => if o.skip != 0 {
                &&& n.skip == o.skip - 1
                &&& n.frames@ == without_top(o.frames@.drop_last())
                &&& n.returned
                &&& n.stack == o.stack
            } else if in_body {
                &&& n.skip == 0
                &&& n.stack == o.stack
                &&& !n.returned
                &&& n.frames@.len() == o.frames@.len() + 1
                &&& loop_frame(n.frames@[o.frames@.len() - 1], cond@, body@, false)
                &&& fresh_eval(n.frames@.last(), cond@)
                &&& n.frames@.subrange(0, o.frames@.len() - 1) == o.frames@.drop_last()
            } else {
                let (rest, v) = pop_val(vals(o.stack@));
                &&& vals(n.stack@) == rest
                &&& n.skip == 0
                &&& !n.returned
                &&& if truth(v) {
                    &&& n.frames@.len() == o.frames@.len() + 1
                    &&& loop_frame(n.frames@[o.frames@.len() - 1], cond@, body@, true)
                    &&& fresh_eval(n.frames@.last(), body@)
                    &&& n.frames@.subrange(0, o.frames@.len() - 1) == o.frames@.drop_last()
                } else {
                    n.frames@ == o.frames@.drop_last()
                }
            },
        }
    }
}

/// What one step does: a step of the running built-in; else the
/// resumption of the innermost frame after its child ended; else the next
/// token of the innermost frame, or the end of that frame when it has no
/// token left; and with no frame, evaluation is finished.
pub open spec fn stepped(o: &Runtime, n: &Runtime, r: Option<Request>) -> bool {
    if o.op is Some {
        advanced(o, n, r)
    } else if o.returned {
        resumed(o, n, r)
    } else if o.frames@.len() == 0 {
        &&& r matches Some(Request::Finished)
        &&& n.stack == o.stack
        &&& n.memory == o.memory
        &&& n.cache == o.cache
        &&& n.skip == o.skip
    } else {
        match o.frames@.last() {
            Frame::Eval { tokens, next } => if next < tokens@.len() {
                handled(
                    o,
                    o.frames@.drop_last().push(Frame::Eval { tokens, next: (next + 1) as usize }),
                    n,
                    tokens@[next as int]@,
                    r,
                )
            } else {
                &&& r is None
                &&& n.returned
                &&& n.frames@ == o.frames@.drop_last()
                &&& n.stack == o.stack
                &&& n.memory == o.memory
                &&& n.cache == o.cache
                &&& n.skip == o.skip
                &&& n.op is None
                &&& n.wait is Idle
            },
            Frame::Loop { .. } => {
                &&& r is None
                &&& n.returned
                &&& n.frames@ == o.frames@
                &&& n.op is None
                &&& n.wait is Idle
                &&& n.stack == o.stack
                &&& n.memory == o.memory
                &&& n.cache == o.cache
                &&& n.skip == o.skip
            },
        }
    }
}

impl Runtime {
    /// Resumes the innermost frame after the frame above it ended: an
    /// evaluation closes the token that started the ended frame; a loop
    /// tests its condition or starts it again, and ends together with the
    /// frame that started it when the skip counter is nonzero.
    fn resume(&mut self) -> (r: Option<Request>)
        requires
            old(self).wf(),
            old(self).wait is Idle,
            old(self).op is None,
        ensures
            final(self).wf(),
            final(self).wait is Idle,
            final(self).op is None,
            r is None || r->0 is Finished,
            r is Some ==> final(self).frames@.len() == 0 && !final(self).returned,
            resumed(old(self), final(self), r),
    {
        self.returned = false;
        let k = self.frames.len();
        if k == 0 {
            return Some(Request::Finished);
        }
        let is_eval = match &self.frames[k - 1] {
            Frame::Eval { .. } => true,
            _ => false,
        };
        if is_eval {
            self.close_token();
            return None;
        }
        let ghost below = self.frames@.drop_last();
        match self.frames.pop() {
            Some(Frame::Loop { cond, body, in_body }) => {
                assert(self.frames@ == below);
                if self.skip != 0 {
                    self.skip = self.skip - 1;
                    let _ = self.frames.pop();
                    self.returned = true;
                } else if in_body {
                    let f = eval_frame(cond.as_str());
                    self.frames.push(Frame::Loop { cond, body, in_body: false });
                    self.frames.push(f);
                    assert(self.frames@.subrange(0, below.len() as int) == below);
                } else {
                    let v = self.pop();
                    assert(self.frames@ == below);
                    if v.get_bool() {
                        let f = eval_frame(body.as_str());
                        self.frames.push(Frame::Loop { cond, body, in_body: true });
                        self.frames.push(f);
                        assert(self.frames@.subrange(0, below.len() as int) == below);
                    }
                }
                None
            },
            Some(f) => {
                self.frames.push(f);
                None
            },
            None => Some(Request::Finished),
        }
    }

    /// Does one step of evaluation: a step of the running built-in, the
    /// resumption of a frame whose child ended, or the next token of the
    /// innermost frame. `None` means that nothing is asked of the host.
    pub fn step(&mut self) -> (r: Option<Request>)
        requires
            old(self).wf(),
            old(self).wait is Idle,
        ensures
            final(self).wf(),
            (final(self).wait is Idle) <==> (r is None || r->0 is Finished || r->0 is Halt),
            r matches Some(Request::Finished) ==> final(self).is_idle(),
            r matches Some(Request::Halt) ==> final(self).is_idle(),
            stepped(old(self), final(self), r),
    {
        if self.op.is_some() {
            return self.advance();
        }
        if self.returned {
            return self.resume();
        }
        match self.frames.pop() {
            None => Some(Request::Finished),
            Some(Frame::Eval { tokens, next }) => {
                if next >= tokens.len() {
                    self.returned = true;
                    None
                } else {
                    let t = copy_text(&tokens[next]);
                    let ghost read_in = old(self).frames@.drop_last().push(
                        Frame::Eval { tokens, next: (next + 1) as usize },
                    );
                    self.frames.push(Frame::Eval { tokens, next: next + 1 });
                    assert(self.frames@ == read_in);
                    self.handle_token(t)
                }
            },
            Some(f) => {
                self.frames.push(f);
                assert(self.frames@ =~= old(self).frames@);
                self.returned = true;
                None
            },
        }
    }

    /// Whether the reply answers what the runtime waits for.
    pub fn accepts(&self, reply: &Reply) -> (r: bool)
        requires
            self.wf(),
        ensures
            r == self.fits(reply),
    {
        match &self.wait {
            Wait::Idle => false,
            Wait::Numeral(_) => match reply {
                Reply::Numeral(_) => true,
                _ => false,
            },
            Wait::Convert(i) => {
                if self.args[*i].is_number() {
                    match reply {
                        Reply::Text(_) => true,
                        _ => false,
                    }
                } else {
                    match reply {
                        Reply::Number(_) => true,
                        _ => false,
                    }
                }
            },
            Wait::Complete => match self.op {
                Some(op) => match op {
                    Builtin::Print | Builtin::WriteFile => match reply {
                        Reply::Done => true,
                        _ => false,
                    },
                    Builtin::Input | Builtin::ReadFile => match reply {
                        Reply::Text(_) => true,
                        _ => false,
                    },
                    Builtin::Greater | Builtin::Less => match reply {
                        Reply::Truth(_) => true,
                        _ => false,
                    },
                    Builtin::Back => match reply {
                        Reply::Count(_) => true,
                        _ => false,
                    },
                    _ => arith_for(op).is_some() && match reply {
                        Reply::Number(_) => true,
                        _ => false,
                    },
                },
                None => false,
            },
        }
    }

    /// Takes the host's answer to the last request.
    pub fn answer(&mut self, reply: Reply)
        requires
            old(self).wf(),
            old(self).fits(&reply),
        ensures
            final(self).wf(),
            final(self).wait is Idle,
            answered(old(self), final(self), reply),
    {
        let w = match &self.wait {
            Wait::Idle => 0usize,
            Wait::Numeral(_) => 1,
            Wait::Convert(_) => 2,
            Wait::Complete => 3,
        };
        if w == 1 {
            let t = match &self.wait {
                Wait::Numeral(t) => copy_text(t),
                _ => String::new(),
            };
            self.wait = Wait::Idle;
            match reply {
                Reply::Numeral(Some(b)) => {
                    self.push(Value::Number(b));
                    self.close_token();
                },
                _ => {
                    let _ = self.settle_token(t);
                },
            }
        } else if w == 2 {
            let i = match &self.wait {
                Wait::Convert(i) => *i,
                _ => 0,
            };
            self.wait = Wait::Idle;
            match reply {
                Reply::Text(s) => {
                    let ghost v = Val::Text(s@);
                    self.args.set(i, Value::Text(s));
                    assert(vals(self.args@) =~= vals(old(self).args@).update(i as int, v));
                },
                Reply::Number(b) => {
                    self.args.set(i, Value::Number(b));
                    assert(vals(self.args@) =~= vals(old(self).args@).update(
                        i as int,
                        Val::Number(b),
                    ));
                },
                _ => {},
            }
        } else {
            self.wait = Wait::Idle;
            match reply {
                Reply::Text(s) => self.push(Value::Text(s)),
                Reply::Number(b) => self.push(Value::Number(b)),
                Reply::Truth(b) => self.push(Value::Bool(b)),
                Reply::Count(n) => self.skip = n,
                _ => {},
            }
            self.op = None;
            self.args = Vec::new();
            self.close_token();
        }
    }
}

} // verus!
