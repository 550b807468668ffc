//! Properties of the language that relate the tokenizer, the classification
//! of tokens and the effects of the built-ins.
use vstd::prelude::*;
use crate::value::{Val, true_word, false_word, null_word};
use crate::lexer::{scan, scan_step, tokens_of, is_fullwidth_numeral, is_fullwidth_digit, fullwidth_digits, ascii_digits, ascii_digit};
use crate::words::{Builtin, TokenAction, token_action, settle, bracketed, builtin_named, cache_word, all_ascii_text};
use crate::runtime::{arity, pop_vals, pop_val, num_of, text_of, truth_of, completed, resumed, token_closed, without_top, fresh_eval, Frame, Runtime, Request};
use crate::value::{vals, truth};

verus! {

proof fn lemma_scan_open_literal(x: Seq<char>, k: int)
    requires
        0 <= k <= x.len(),
        forall|i: int| 0 <= i < x.len() ==> x[i] != '「' && x[i] != '」',
    ensures
        scan(seq!['「'] + x.take(k)) == (Seq::<Seq<char>>::empty(), seq!['「'] + x.take(k), 1nat),
    decreases k,
{
    let p = seq!['「'] + x.take(k);
    if k == 0 {
        assert(p.drop_last() =~= Seq::<char>::empty());
        assert(p =~= seq!['「']);
        assert(scan(p.drop_last()) == (Seq::<Seq<char>>::empty(), Seq::<char>::empty(), 0nat));
        assert(scan(p) == scan_step(scan(p.drop_last()), '「'));
        assert(Seq::<char>::empty().push('「') =~= p);
    } else {
        lemma_scan_open_literal(x, k - 1);
        let q = seq!['「'] + x.take(k - 1);
        assert(p.drop_last() =~= q);
        assert(p.last() == x[k - 1]);
        assert(p =~= q.push(x[k - 1]));
        assert(scan(p) == scan_step(scan(q), x[k - 1]));
    }
}

/// A bracketed literal whose content holds no bracket is one token, and
/// evaluating it, where it is not a bound name, pushes its content as text.
pub proof fn law_bracket_literal(memory: Map<Seq<char>, Val>, cache: Val, x: Seq<char>)
    requires
        forall|i: int| 0 <= i < x.len() ==> x[i] != '「' && x[i] != '」',
        !memory.contains_key(seq!['「'] + x + seq!['」']),
    ensures
        tokens_of(seq!['「'] + x + seq!['」']) == seq![seq!['「'] + x + seq!['」']],
        token_action(memory, cache, seq!['「'] + x + seq!['」']) == TokenAction::Push(Val::Text(x)),
{
    let t = seq!['「'] + x + seq!['」'];
    lemma_scan_open_literal(x, x.len() as int);
    assert(x.take(x.len() as int) == x);
    assert(t.drop_last() =~= seq!['「'] + x);
    assert(t.last() == '」');
    assert(scan(t) == scan_step(scan(t.drop_last()), '」'));
    assert((seq!['「'] + x).push('」') =~= t);
    assert(scan(t) == (seq![t], Seq::<char>::empty(), 0nat));
    assert(tokens_of(t) == seq![t]);
    assert(t[0] == '「');
    assert(!all_ascii_text(t)) by {
        assert((t[0] as u32) >= 0x80);
    }
    assert(!is_fullwidth_numeral(t)) by {
        assert(!is_fullwidth_digit(t[0]));
        if fullwidth_digits(t) {
            assert(is_fullwidth_digit(t[0]));
        }
        if exists|k: int|
            0 < k < t.len() && #[trigger] t[k] == '.' && fullwidth_digits(t.take(k))
                && fullwidth_digits(t.skip(k + 1)) {
            let k = choose|k: int|
                0 < k < t.len() && #[trigger] t[k] == '.' && fullwidth_digits(t.take(k))
                    && fullwidth_digits(t.skip(k + 1));
            assert(t.take(k)[0] == t[0]);
        }
    }
    assert(t != true_word() && t != false_word() && t != null_word() && t != cache_word()) by {
        assert(t.len() >= 2);
    }
    assert(bracketed(t));
    assert(t.subrange(1, t.len() - 1) =~= x);
}

/// A numeral in fullwidth digits that is not a bound name is read as the
/// number that its ASCII digits give: each fullwidth digit becomes the ASCII
/// digit of the same value, and the point stays.
pub proof fn law_fullwidth_numeral(memory: Map<Seq<char>, Val>, cache: Val, t: Seq<char>)
    requires
        is_fullwidth_numeral(t),
        !memory.contains_key(t),
    ensures
        token_action(memory, cache, t) == TokenAction::Parse(ascii_digits(t)),
        ascii_digits(t).len() == t.len(),
        forall|i: int| 0 <= i < t.len() ==> #[trigger] ascii_digits(t)[i] == ascii_digit(t[i]),
{
    assert(t.len() > 0 && is_fullwidth_digit(t[0])) by {
        if !fullwidth_digits(t) {
            let k = choose|k: int|
                0 < k < t.len() && #[trigger] t[k] == '.' && fullwidth_digits(t.take(k))
                    && fullwidth_digits(t.skip(k + 1));
            assert(t.take(k)[0] == t[0]);
        }
    }
    assert(!all_ascii_text(t)) by {
        assert((t[0] as u32) >= 0x80);
    }
}

/// Operands are popped last pushed first: pushing `a` and then `b` gives a
/// two-operand built-in `a` as its left operand and `b` as its right one.
pub proof fn law_operand_order(stack: Seq<Val>, op: Builtin, a: u64, b: u64)
    requires
        arity(op) == 2,
    ensures
        pop_vals(stack.push(Val::Number(a)).push(Val::Number(b)), arity(op)).0 == stack,
        num_of(pop_vals(stack.push(Val::Number(a)).push(Val::Number(b)), arity(op)).1[1]) == a,
        num_of(pop_vals(stack.push(Val::Number(a)).push(Val::Number(b)), arity(op)).1[0]) == b,
{
    let s = stack.push(Val::Number(a)).push(Val::Number(b));
    assert(s.drop_last() == stack.push(Val::Number(a)));
    assert(stack.push(Val::Number(a)).drop_last() == stack);
    assert(pop_vals(s, 0) == (s, Seq::<Val>::empty()));
    assert(pop_vals(s, 1).1 =~= seq![Val::Number(b)]);
}

/// After a value is assigned to a name, the name recalls the value, and so
/// does the word for the last assigned value.
pub proof fn law_assign_then_recall(memory: Map<Seq<char>, Val>, name: Seq<char>, v: Val)
    requires
        name.len() > 0,
        !(v is Function),
        !memory.insert(name, v).contains_key(cache_word()),
    ensures
        token_action(memory.insert(name, v), v, name) == TokenAction::Push(v),
        token_action(memory.insert(name, v), v, cache_word()) == TokenAction::Push(v),
{
    let c = cache_word();
    assert(!all_ascii_text(c)) by {
        assert((c[0] as u32) >= 0x80);
    }
    assert(!is_fullwidth_numeral(c)) by {
        assert(!is_fullwidth_digit(c[0]));
        if fullwidth_digits(c) {
            assert(is_fullwidth_digit(c[0]));
        }
    }
    assert(c != true_word() && c != false_word() && c != null_word());
}

/// Assigning only where a name is unbound keeps an existing binding: after
/// `name` is bound to `v`, binding it so to `w` leaves it recalling `v`.
pub proof fn law_init_keeps(memory: Map<Seq<char>, Val>, cache: Val, name: Seq<char>, v: Val, w: Val)
    requires
        name.len() > 0,
        !(v is Function),
    ensures
        ({
            let m1 = memory.insert(name, v);
            let m2 = if m1.contains_key(name) { m1 } else { m1.insert(name, w) };
            token_action(m2, cache, name) == TokenAction::Push(v)
        }),
{
}

/// A token that is not bound, not a numeral, not a fixed word, not a
/// bracketed literal and not a built-in is pushed as text equal to itself.
pub proof fn law_unknown_token(memory: Map<Seq<char>, Val>, cache: Val, t: Seq<char>)
    requires
        t.len() > 0,
        !memory.contains_key(t),
        t != true_word() && t != false_word() && t != null_word() && t != cache_word(),
        !bracketed(t),
        builtin_named(t) is None,
    ensures
        settle(t, cache) == TokenAction::Push(Val::Text(t)),
        !all_ascii_text(t) && !is_fullwidth_numeral(t) ==> token_action(memory, cache, t)
            == TokenAction::Push(Val::Text(t)),
{
}

/// A branch evaluates exactly one of its fragments: one frame is added, and
/// it evaluates the fragment for true when the condition holds and the one
/// for false otherwise. Nothing else is pushed or popped.
pub proof fn law_branch_one_fragment(a: Seq<Val>, o: &Runtime, n: &Runtime, r: Option<Request>)
    requires
        completed(Builtin::Branch, a, o, n, r),
    ensures
        n.frames@.len() == o.frames@.len() + 1,
        n.frames@.drop_last() == o.frames@,
        truth_of(a[2]) ==> fresh_eval(n.frames@.last(), text_of(a[1])),
        !truth_of(a[2]) ==> fresh_eval(n.frames@.last(), text_of(a[0])),
        n.stack == o.stack,
        r is None,
{
}

/// A loop whose condition left a false value ends at once: the value is
/// popped, the loop's frame goes, no body is evaluated, and the stack is as
/// it was under the condition's result.
pub proof fn law_false_condition_ends_loop(o: &Runtime, n: &Runtime, r: Option<Request>, v: Val)
    requires
        resumed(o, n, r),
        o.frames@.len() > 0,
        o.frames@.last() matches Frame::Loop { in_body, .. } && !in_body,
        o.skip == 0,
        vals(o.stack@).len() > 0,
        vals(o.stack@).last() == v,
        !truth(v),
    ensures
        vals(n.stack@) == vals(o.stack@).drop_last(),
        n.frames@ == o.frames@.drop_last(),
        n.skip == 0,
        r is None,
{
    assert(pop_val(vals(o.stack@)) == (vals(o.stack@).drop_last(), v));
}

/// A skip counter of one, met after a token, ends exactly the frame that
/// read the token and is then spent.
pub proof fn law_skip_one_ends_one_frame(frames: Seq<Frame>, returned: bool, n: &Runtime)
    requires
        token_closed(1, frames, returned, n),
    ensures
        n.skip == 0,
        n.frames@ == without_top(frames),
        n.returned,
{
}

/// A loop whose body or condition ended with the skip counter nonzero ends
/// together with the frame that started it, and the counter goes down by one.
pub proof fn law_skip_ends_loop_and_caller(o: &Runtime, n: &Runtime, r: Option<Request>)
    requires
        resumed(o, n, r),
        o.frames@.len() > 0,
        o.frames@.last() is Loop,
        o.skip > 0,
    ensures
        n.skip == o.skip - 1,
        n.frames@ == without_top(o.frames@.drop_last()),
        n.returned,
        n.stack == o.stack,
{
}

} // verus!
