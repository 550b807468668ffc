//! Splitting source text into tokens, and recognising numerals written
//! with fullwidth digits.
use vstd::prelude::*;
use vstd::string::*;
use crate::value::push_char;

verus! {

/// Characters that end a token outside brackets: hiragana, katakana, Latin
/// letters, white space, and the punctuation that separates words.
pub const DELIMITER_PATTERN: &'static str =
    "[あ-ん]|[ア-ン]|[a-z]|[A-Z]|\\s|、|,|。|\\.|ー|\\-|〜|\\~|！|!|＾|\\^|？|\\?";

/// Fullwidth digits, optionally followed by a point and more fullwidth digits.
pub const FULLWIDTH_NUMERAL_PATTERN: &'static str = "^[０-９]+(?:\\.[０-９]+)?$";

/// Unicode White_Space.
pub open spec fn is_white_space(c: char) -> bool {
    let u = c as u32;
    (0x09 <= u && u <= 0x0D) || u == 0x20 || u == 0x85 || u == 0xA0 || u == 0x1680
        || (0x2000 <= u && u <= 0x200A) || u == 0x2028 || u == 0x2029 || u == 0x202F
        || u == 0x205F || u == 0x3000
}

/// The characters that `DELIMITER_PATTERN` matches.
pub open spec fn is_delimiter(c: char) -> bool {
    let u = c as u32;
    (0x3042 <= u && u <= 0x3093) || (0x30A2 <= u && u <= 0x30F3) || ('a' <= c && c <= 'z')
        || ('A' <= c && c <= 'Z') || is_white_space(c) || c == '、' || c == ',' || c == '。'
        || c == '.' || c == 'ー' || c == '-' || c == '〜' || c == '~' || c == '！' || c == '!'
        || c == '＾' || c == '^' || c == '？' || c == '?'
}

pub open spec fn is_fullwidth_digit(c: char) -> bool {
    0xFF10 <= c as u32 && c as u32 <= 0xFF19
}

/// A nonempty run of fullwidth digits.
pub open spec fn fullwidth_digits(s: Seq<char>) -> bool {
    s.len() > 0 && forall|i: int| 0 <= i < s.len() ==> is_fullwidth_digit(#[trigger] s[i])
}

/// The texts that `FULLWIDTH_NUMERAL_PATTERN` matches.
pub open spec fn is_fullwidth_numeral(t: Seq<char>) -> bool {
    fullwidth_digits(t) || exists|k: int|
        0 < k < t.len() && #[trigger] t[k] == '.' && fullwidth_digits(t.take(k))
            && fullwidth_digits(t.skip(k + 1))
}

/// Relies on regex::Regex::new and Regex::is_match, on the two patterns
/// above: a one-character text matches the delimiter pattern exactly when the
/// character is a delimiter, and a text matches the numeral pattern exactly
/// when it is fullwidth digits with at most one point between them.
#[verifier::external_body]
fn regex_matches(pattern: &str, text: &str) -> (r: bool)
    ensures
        pattern@ == DELIMITER_PATTERN@ && text@.len() == 1 ==> r == is_delimiter(text@[0]),
        pattern@ == FULLWIDTH_NUMERAL_PATTERN@ ==> r == is_fullwidth_numeral(text@),
{
    match regex::Regex::new(pattern) {
        Ok(re) => re.is_match(text),
        Err(_) => false,
    }
}

/// `r` is `s` without its leading and trailing white space.
pub open spec fn trimmed(s: Seq<char>, r: Seq<char>) -> bool {
    exists|i: int, j: int|
        0 <= i <= j <= s.len() && r == s.subrange(i, j) && (forall|k: int|
            0 <= k < i ==> is_white_space(#[trigger] s[k])) && (forall|k: int|
            j <= k < s.len() ==> is_white_space(#[trigger] s[k])) && (i < j ==> !is_white_space(
            s[i],
        ) && !is_white_space(s[j - 1]))
}

/// Relies on str::trim: it removes leading and trailing characters with the
/// Unicode White_Space property, and nothing else.
#[verifier::external_body]
pub(crate) fn trim_text(s: &str) -> (r: String)
    ensures
        trimmed(s@, r@),
{
    s.trim().to_string()
}

/// Whether the character ends a token outside brackets.
pub fn delimits(c: char) -> (r: bool)
    ensures
        r == is_delimiter(c),
{
    let mut t = String::new();
    push_char(&mut t, c);
    regex_matches(DELIMITER_PATTERN, t.as_str())
}

/// Whether the token is a numeral in fullwidth digits.
pub fn is_fullwidth_number(token: &str) -> (r: bool)
    ensures
        r == is_fullwidth_numeral(token@),
{
    regex_matches(FULLWIDTH_NUMERAL_PATTERN, token)
}

/// Scanner state: the tokens so far, the token being read, and how deep
/// inside literal brackets the scan stands.
pub type ScanState = (Seq<Seq<char>>, Seq<char>, nat);

/// One character of the scan.
pub open spec fn scan_step(st: ScanState, c: char) -> ScanState {
    let (toks, buf, depth) = st;
    if c == '「' {
        (toks, buf.push(c), depth + 1)
    } else if c == '」' {
        if depth == 0 {
            st
        } else if depth == 1 {
            (toks.push(buf.push(c)), Seq::empty(), 0)
        } else {
            (toks, buf.push(c), (depth - 1) as nat)
        }
    } else if is_delimiter(c) {
        if depth != 0 {
            (toks, buf.push(c), depth)
        } else if buf.len() != 0 {
            (toks.push(buf), Seq::empty(), 0)
        } else {
            st
        }
    } else {
        (toks, buf.push(c), depth)
    }
}

/// The scan of a whole text, character by character from the start.
pub open spec fn scan(cs: Seq<char>) -> ScanState
    decreases cs.len(),
{
    if cs.len() == 0 {
        (Seq::empty(), Seq::empty(), 0)
    } else {
        scan_step(scan(cs.drop_last()), cs.last())
    }
}

/// The tokens of a text: those the scan closed, then the last one if it is
/// not empty and not inside an unterminated literal.
pub open spec fn tokens_of(cs: Seq<char>) -> Seq<Seq<char>> {
    let (toks, buf, depth) = scan(cs);
    if depth == 0 && buf.len() != 0 {
        toks.push(buf)
    } else {
        toks
    }
}

pub open spec fn texts(v: Seq<String>) -> Seq<Seq<char>> {
    v.map_values(|s: String| s@)
}

/// Splits source text into tokens, in source order.
pub fn tokenize(source: &str) -> (r: Vec<String>)
    ensures
        texts(r@) == tokens_of(source@),
{
    let n = source.unicode_len();
    let mut tokens: Vec<String> = Vec::new();
    let mut buf = String::new();
    let mut depth: usize = 0;
    let mut i: usize = 0;
    while i < n
        invariant
            n == source@.len(),
            i <= n,
            depth <= i,
            (texts(tokens@), buf@, depth as nat) == scan(source@.take(i as int)),
        decreases n - i,
    {
        let c = source.get_char(i);
        proof {
            let p = source@.take(i as int + 1);
            assert(p.drop_last() == source@.take(i as int));
            assert(p.last() == c);
        }
        let ghost before = texts(tokens@);
        if c == '「' {
            push_char(&mut buf, c);
            depth = depth + 1;
        } else if c == '」' {
            if depth != 0 {
                push_char(&mut buf, c);
                depth = depth - 1;
                if depth == 0 {
                    tokens.push(buf);
                    buf = String::new();
                    assert(texts(tokens@) == before.push(scan(source@.take(i as int)).1.push(c)));
                }
            }
        } else if delimits(c) {
            if depth != 0 {
                push_char(&mut buf, c);
            } else if buf.as_str().unicode_len() != 0 {
                let ghost b = buf@;
                tokens.push(buf);
                buf = String::new();
                assert(texts(tokens@) == before.push(b));
            }
        } else {
            push_char(&mut buf, c);
        }
        i = i + 1;
    }
    assert(source@.take(n as int) == source@);
    if depth == 0 && buf.as_str().unicode_len() != 0 {
        let ghost before = texts(tokens@);
        let ghost b = buf@;
        tokens.push(buf);
        assert(texts(tokens@) == before.push(b));
    }
    tokens
}

/// The ASCII digit for a fullwidth one; other characters stay.
pub open spec fn ascii_digit(c: char) -> char {
    if c == '０' { '0' }
    else if c == '１' { '1' }
    else if c == '２' { '2' }
    else if c == '３' { '3' }
    else if c == '４' { '4' }
    else if c == '５' { '5' }
    else if c == '６' { '6' }
    else if c == '７' { '7' }
    else if c == '８' { '8' }
    else if c == '９' { '9' }
    else { c }
}

/// A text with each fullwidth digit replaced by its ASCII digit.
pub open spec fn ascii_digits(t: Seq<char>) -> Seq<char> {
    t.map_values(|c: char| ascii_digit(c))
}

fn to_ascii_digit(c: char) -> (r: char)
    ensures
        r == ascii_digit(c),
{
    if c == '０' { '0' }
    else if c == '１' { '1' }
    else if c == '２' { '2' }
    else if c == '３' { '3' }
    else if c == '４' { '4' }
    else if c == '５' { '5' }
    else if c == '６' { '6' }
    else if c == '７' { '7' }
    else if c == '８' { '8' }
    else if c == '９' { '9' }
    else { c }
}

/// Replaces each fullwidth digit of the token by its ASCII digit.
pub fn normalize_digits(token: &str) -> (r: String)
    ensures
        r@ == ascii_digits(token@),
{
    let n = token.unicode_len();
    let mut r = String::new();
    let mut i: usize = 0;
    while i < n
        invariant
            n == token@.len(),
            i <= n,
            r@ == ascii_digits(token@.take(i as int)),
        decreases n - i,
    {
        let c = token.get_char(i);
        push_char(&mut r, to_ascii_digit(c));
        i = i + 1;
        assert(r@ =~= ascii_digits(token@.take(i as int)));
    }
    assert(token@.take(n as int) == token@);
    r
}

/// Whether every character of the token is ASCII. A binary64 numeral in
/// Rust's grammar is written in ASCII alone.
pub fn all_ascii(token: &str) -> (r: bool)
    ensures
        r == forall|i: int| 0 <= i < token@.len() ==> (#[trigger] token@[i] as u32) < 0x80,
{
    let n = token.unicode_len();
    let mut i: usize = 0;
    while i < n
        invariant
            n == token@.len(),
            i <= n,
            forall|j: int| 0 <= j < i ==> (#[trigger] token@[j] as u32) < 0x80,
        decreases n - i,
    {
        if token.get_char(i) as u32 >= 0x80 {
            return false;
        }
        i = i + 1;
    }
    true
}

} // verus!
