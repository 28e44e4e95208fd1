//! Splits a source text into tokens: parentheses, operator symbols,
//! backtick-quoted strings and bracketed arrays. Blanks and line breaks
//! separate tokens and are never yielded; any other character that starts
//! no token stops the lexer, and is reported with its byte offset.
use vstd::prelude::*;
use vstd::utf8::{encode_scalar, encode_utf8};

pub use crate::ast::Span;
use crate::parser::atom::push_char;
use crate::{chars_of, strings_view};

verus! {

/// A token of the source text.
#[derive(Debug, PartialEq, Eq)]
pub enum Token {
    Whitespace,
    Array(Vec<String>),
    Str(String),
    GroupStart,
    GroupEnd,
    And,
    Or,
    Not,
    Equal,
    EqualCI,
    Greater,
    Less,
    Wildcard,
    Regex,
    In,
    IsNone,
}

/// The value of a token.
pub enum Lexeme {
    Whitespace,
    Array(Seq<Seq<char>>),
    Str(Seq<char>),
    GroupStart,
    GroupEnd,
    And,
    Or,
    Not,
    Equal,
    EqualCI,
    Greater,
    Less,
    Wildcard,
    Regex,
    In,
    IsNone,
}

pub open spec fn token_view(t: Token) -> Lexeme {
    match t {
        Token::Whitespace => Lexeme::Whitespace,
        Token::Array(v) => Lexeme::Array(strings_view(v@)),
        Token::Str(s) => Lexeme::Str(s@),
        Token::GroupStart => Lexeme::GroupStart,
        Token::GroupEnd => Lexeme::GroupEnd,
        Token::And => Lexeme::And,
        Token::Or => Lexeme::Or,
        Token::Not => Lexeme::Not,
        Token::Equal => Lexeme::Equal,
        Token::EqualCI => Lexeme::EqualCI,
        Token::Greater => Lexeme::Greater,
        Token::Less => Lexeme::Less,
        Token::Wildcard => Lexeme::Wildcard,
        Token::Regex => Lexeme::Regex,
        Token::In => Lexeme::In,
        Token::IsNone => Lexeme::IsNone,
    }
}

impl View for Token {
    type V = Lexeme;

    open spec fn view(&self) -> Lexeme {
        token_view(*self)
    }
}

/// The token of a one-character symbol.
pub open spec fn symbol_of(c: char) -> Option<Lexeme> {
    if c == '(' {
        Some(Lexeme::GroupStart)
    } else if c == ')' {
        Some(Lexeme::GroupEnd)
    } else if c == '&' {
        Some(Lexeme::And)
    } else if c == '|' {
        Some(Lexeme::Or)
    } else if c == '!' {
        Some(Lexeme::Not)
    } else if c == '=' {
        Some(Lexeme::Equal)
    } else if c == '~' {
        Some(Lexeme::EqualCI)
    } else if c == '>' {
        Some(Lexeme::Greater)
    } else if c == '<' {
        Some(Lexeme::Less)
    } else if c == '*' {
        Some(Lexeme::Wildcard)
    } else if c == '$' {
        Some(Lexeme::Regex)
    } else if c == '?' {
        Some(Lexeme::In)
    } else if c == '-' {
        Some(Lexeme::IsNone)
    } else {
        None
    }
}

/// Unicode white space, as `char::is_whitespace` has it.
pub open spec fn is_white(c: char) -> bool {
    let v = c as u32;
    (0x09 <= v <= 0x0d) || v == 0x20 || v == 0x85 || v == 0xa0 || v == 0x1680 || (0x2000 <= v
        <= 0x200a) || v == 0x2028 || v == 0x2029 || v == 0x202f || v == 0x205f || v == 0x3000
}

pub open spec fn trim_start(s: Seq<char>) -> Seq<char>
    decreases s.len(),
{
    if s.len() > 0 && is_white(s[0]) {
        trim_start(s.drop_first())
    } else {
        s
    }
}

pub open spec fn trim_end(s: Seq<char>) -> Seq<char>
    decreases s.len(),
{
    if s.len() > 0 && is_white(s.last()) {
        trim_end(s.drop_last())
    } else {
        s
    }
}

/// A text without the white space at its ends.
pub open spec fn trim(s: Seq<char>) -> Seq<char> {
    trim_end(trim_start(s))
}

/// The pieces of a text between its commas (one piece where it has none).
pub open spec fn split_commas(s: Seq<char>) -> Seq<Seq<char>>
    decreases s.len(),
{
    if s.len() == 0 {
        seq![Seq::empty()]
    } else if s.last() == ',' {
        split_commas(s.drop_last()).push(Seq::empty())
    } else {
        let p = split_commas(s.drop_last());
        p.update(p.len() - 1, p.last().push(s.last()))
    }
}

/// The items of an array: the trimmed pieces of its body.
pub open spec fn array_items(s: Seq<char>) -> Seq<Seq<char>> {
    split_commas(s).map_values(|x: Seq<char>| trim(x))
}

/// The first `]` at or after `j` with no `[` before it.
pub open spec fn array_close(s: Seq<char>, j: int) -> Option<int>
    decreases s.len() - j,
{
    if j < 0 || j >= s.len() {
        None
    } else if s[j] == ']' {
        Some(j)
    } else if s[j] == '[' {
        None
    } else {
        array_close(s, j + 1)
    }
}

/// The first backtick at or after `j`.
pub open spec fn tick_close(s: Seq<char>, j: int) -> Option<int>
    decreases s.len() - j,
{
    if j < 0 || j >= s.len() {
        None
    } else if s[j] == '`' {
        Some(j)
    } else {
        tick_close(s, j + 1)
    }
}

/// The characters that separate tokens and are never yielded.
pub open spec fn is_ignorable(c: char) -> bool {
    c == ' ' || c == '\t' || c == '\r' || c == '\n'
}

/// The token at `i` and the position after it, if a token starts there.
/// An array runs from `[` to the first `]`, with no `[` inside; a string
/// from a backtick to the next. An ignorable character is read as
/// `Whitespace`.
pub open spec fn lex_at(s: Seq<char>, i: int) -> Option<(Lexeme, int)> {
    let c = s[i];
    if is_ignorable(c) {
        Some((Lexeme::Whitespace, i + 1))
    } else if c == '[' {
        match array_close(s, i + 1) {
            Some(j) => Some((Lexeme::Array(array_items(s.subrange(i + 1, j))), j + 1)),
            None => None,
        }
    } else if c == '`' {
        match tick_close(s, i + 1) {
            Some(j) => Some((Lexeme::Str(s.subrange(i + 1, j)), j + 1)),
            None => None,
        }
    } else {
        match symbol_of(c) {
            Some(t) => Some((t, i + 1)),
            None => None,
        }
    }
}

/// What reading on from a position gives.
pub enum Step {
    /// A token, with the positions of its first character and of the
    /// character after it.
    Found(Lexeme, int, int),
    /// Only ignorable characters are left.
    End,
    /// The character at this position starts no token.
    Unrecognized(int),
}

/// The next token that is not ignorable, from `pos` on.
pub open spec fn next_token(s: Seq<char>, pos: int) -> Step
    decreases s.len() - pos,
{
    if pos < 0 || pos >= s.len() {
        Step::End
    } else {
        match lex_at(s, pos) {
            None => Step::Unrecognized(pos),
            Some((t, e)) => if !(pos < e <= s.len()) {
                Step::End
            } else if t is Whitespace {
                next_token(s, e)
            } else {
                Step::Found(t, pos, e)
            },
        }
    }
}

/// All the tokens from `pos` on, or the position of the first character
/// that starts no token.
pub open spec fn all_tokens(s: Seq<char>, pos: int) -> Result<Seq<(Lexeme, int, int)>, int>
    decreases s.len() - pos,
{
    match next_token(s, pos) {
        Step::Found(t, lo, hi) => if pos < hi <= s.len() {
            match all_tokens(s, hi) {
                Ok(rest) => Ok(seq![(t, lo, hi)] + rest),
                Err(p) => Err(p),
            }
        } else {
            Ok(Seq::empty())
        },
        Step::End => Ok(Seq::empty()),
        Step::Unrecognized(p) => Err(p),
    }
}

/// The byte offset of the character at `i`.
pub open spec fn byte_offset(s: Seq<char>, i: int) -> int {
    encode_utf8(s.subrange(0, i)).len() as int
}

proof fn lemma_encode_concat(a: Seq<char>, b: Seq<char>)
    ensures
        encode_utf8(a + b) == encode_utf8(a) + encode_utf8(b),
    decreases a.len(),
{
    if a.len() == 0 {
        assert(a + b =~= b);
        assert(encode_utf8(a) + encode_utf8(b) =~= encode_utf8(b));
    } else {
        assert((a + b).drop_first() =~= a.drop_first() + b);
        lemma_encode_concat(a.drop_first(), b);
        assert(encode_utf8(a + b) =~= encode_utf8(a) + encode_utf8(b));
    }
}

proof fn lemma_byte_step(s: Seq<char>, i: int)
    requires
        0 <= i < s.len(),
    ensures
        byte_offset(s, i + 1) == byte_offset(s, i) + encode_scalar(s[i] as u32).len(),
        byte_offset(s, i + 1) <= encode_utf8(s).len(),
{
    assert(s.subrange(0, i + 1) =~= s.subrange(0, i) + seq![s[i]]);
    lemma_encode_concat(s.subrange(0, i), seq![s[i]]);
    let one = seq![s[i]];
    assert(one[0] == s[i]);
    assert(one.drop_first() =~= Seq::<char>::empty());
    assert(encode_utf8(Seq::<char>::empty()) =~= Seq::<u8>::empty());
    assert(encode_utf8(one) == encode_scalar(one[0] as u32) + encode_utf8(one.drop_first()));
    assert(encode_utf8(one) =~= encode_scalar(s[i] as u32));
    assert(s =~= s.subrange(0, i + 1) + s.subrange(i + 1, s.len() as int));
    lemma_encode_concat(s.subrange(0, i + 1), s.subrange(i + 1, s.len() as int));
}

fn utf8_width(c: char) -> (r: usize)
    ensures
        r == encode_scalar(c as u32).len(),
        1 <= r <= 4,
{
    let v = c as u32;
    if v <= 0x7f {
        1
    } else if v <= 0x7ff {
        2
    } else if v <= 0xffff {
        3
    } else {
        4
    }
}

fn white(c: char) -> (r: bool)
    ensures
        r == is_white(c),
{
    let v = c as u32;
    (0x09 <= v && v <= 0x0d) || v == 0x20 || v == 0x85 || v == 0xa0 || v == 0x1680 || (0x2000
        <= v && v <= 0x200a) || v == 0x2028 || v == 0x2029 || v == 0x202f || v == 0x205f || v
        == 0x3000
}

fn string_of(cs: &Vec<char>, lo: usize, hi: usize) -> (r: String)
    requires
        lo <= hi <= cs.len(),
    ensures
        r@ == cs@.subrange(lo as int, hi as int),
{
    let mut out = String::new();
    let mut k = lo;
    while k < hi
        invariant
            lo <= k <= hi <= cs.len(),
            out@ == cs@.subrange(lo as int, k as int),
        decreases hi - k,
    {
        push_char(&mut out, cs[k]);
        k += 1;
        assert(out@ =~= cs@.subrange(lo as int, k as int));
    }
    out
}

fn trimmed(cs: &Vec<char>, a: usize, b: usize) -> (r: String)
    requires
        a <= b <= cs.len(),
    ensures
        r@ == trim(cs@.subrange(a as int, b as int)),
{
    let mut lo = a;
    while lo < b && white(cs[lo])
        invariant
            a <= lo <= b <= cs.len(),
            trim_start(cs@.subrange(a as int, b as int)) == trim_start(
                cs@.subrange(lo as int, b as int),
            ),
        decreases b - lo,
    {
        assert(cs@.subrange(lo as int, b as int).drop_first() =~= cs@.subrange(
            lo + 1,
            b as int,
        ));
        lo += 1;
    }
    let mut hi = b;
    while hi > lo && white(cs[hi - 1])
        invariant
            a <= lo <= hi <= b <= cs.len(),
            trim_end(cs@.subrange(lo as int, b as int)) == trim_end(
                cs@.subrange(lo as int, hi as int),
            ),
        decreases hi - lo,
    {
        assert(cs@.subrange(lo as int, hi as int).drop_last() =~= cs@.subrange(
            lo as int,
            hi - 1,
        ));
        hi -= 1;
    }
    string_of(cs, lo, hi)
}

fn items(cs: &Vec<char>, a: usize, b: usize) -> (r: Vec<String>)
    requires
        a <= b <= cs.len(),
    ensures
        strings_view(r@) == array_items(cs@.subrange(a as int, b as int)),
{
    let mut out: Vec<String> = Vec::new();
    let ghost raw: Seq<Seq<char>> = Seq::empty();
    let mut start = a;
    let mut k = a;
    assert(cs@.subrange(a as int, a as int) =~= Seq::<char>::empty());
    assert(split_commas(Seq::<char>::empty()) =~= raw.push(cs@.subrange(a as int, a as int)));
    while k < b
        invariant
            a <= start <= k <= b <= cs.len(),
            split_commas(cs@.subrange(a as int, k as int)) == raw.push(
                cs@.subrange(start as int, k as int),
            ),
            strings_view(out@) == raw.map_values(|x: Seq<char>| trim(x)),
        decreases b - k,
    {
        let ghost whole = cs@.subrange(a as int, k + 1);
        assert(whole.drop_last() =~= cs@.subrange(a as int, k as int));
        if cs[k] == ',' {
            let piece = trimmed(cs, start, k);
            let ghost before = strings_view(out@);
            out.push(piece);
            proof {
                let old_raw = raw;
                raw = raw.push(cs@.subrange(start as int, k as int));
                assert(strings_view(out@) =~= before.push(trim(cs@.subrange(start as int, k as int))));
                assert(raw.map_values(|x: Seq<char>| trim(x)) =~= old_raw.map_values(
                    |x: Seq<char>| trim(x),
                ).push(trim(cs@.subrange(start as int, k as int))));
                assert(cs@.subrange(k + 1, k + 1) =~= Seq::<char>::empty());
                assert(split_commas(whole) =~= raw.push(cs@.subrange(k + 1, k + 1)));
            }
            start = k + 1;
        } else {
            proof {
                let p = raw.push(cs@.subrange(start as int, k as int));
                assert(whole.last() == cs@[k as int]);
                assert(cs@.subrange(start as int, k + 1) =~= cs@.subrange(start as int, k as int).push(
                    cs@[k as int],
                ));
                assert(split_commas(whole) =~= raw.push(cs@.subrange(start as int, k + 1)));
            }
        }
        k += 1;
    }
    let piece = trimmed(cs, start, b);
    let ghost before = strings_view(out@);
    out.push(piece);
    proof {
        assert(strings_view(out@) =~= before.push(trim(cs@.subrange(start as int, b as int))));
        let full = raw.push(cs@.subrange(start as int, b as int));
        assert(full.map_values(|x: Seq<char>| trim(x)) =~= raw.map_values(|x: Seq<char>| trim(x)).push(
            trim(cs@.subrange(start as int, b as int)),
        ));
    }
    out
}

fn symbol_token(c: char) -> (r: Option<Token>)
    ensures
        match symbol_of(c) {
            Some(t) => r is Some && r->Some_0@ == t,
            None => r is None,
        },
{
    if c == '(' {
        Some(Token::GroupStart)
    } else if c == ')' {
        Some(Token::GroupEnd)
    } else if c == '&' {
        Some(Token::And)
    } else if c == '|' {
        Some(Token::Or)
    } else if c == '!' {
        Some(Token::Not)
    } else if c == '=' {
        Some(Token::Equal)
    } else if c == '~' {
        Some(Token::EqualCI)
    } else if c == '>' {
        Some(Token::Greater)
    } else if c == '<' {
        Some(Token::Less)
    } else if c == '*' {
        Some(Token::Wildcard)
    } else if c == '$' {
        Some(Token::Regex)
    } else if c == '?' {
        Some(Token::In)
    } else if c == '-' {
        Some(Token::IsNone)
    } else {
        None
    }
}

/// Reads the token at `i`, if one starts there.
fn lex(cs: &Vec<char>, i: usize) -> (r: Option<(Token, usize)>)
    requires
        i < cs.len(),
    ensures
        match lex_at(cs@, i as int) {
            Some((t, e)) => r is Some && r->Some_0.0@ == t && r->Some_0.1 as int == e,
            None => r is None,
        },
        r is Some ==> i < r->Some_0.1 <= cs.len(),
{
    let c = cs[i];
    if c == ' ' || c == '\t' || c == '\r' || c == '\n' {
        Some((Token::Whitespace, i + 1))
    } else if c == '[' {
        let mut j = i + 1;
        while j < cs.len() && cs[j] != ']' && cs[j] != '['
            invariant
                i < j <= cs.len(),
                array_close(cs@, i + 1) == array_close(cs@, j as int),
            decreases cs.len() - j,
        {
            j += 1;
        }
        if j < cs.len() && cs[j] == ']' {
            Some((Token::Array(items(cs, i + 1, j)), j + 1))
        } else {
            None
        }
    } else if c == '`' {
        let mut j = i + 1;
        while j < cs.len() && cs[j] != '`'
            invariant
                i < j <= cs.len(),
                tick_close(cs@, i + 1) == tick_close(cs@, j as int),
            decreases cs.len() - j,
        {
            j += 1;
        }
        if j < cs.len() {
            Some((Token::Str(string_of(cs, i + 1, j)), j + 1))
        } else {
            None
        }
    } else {
        match symbol_token(c) {
            Some(t) => Some((t, i + 1)),
            None => None,
        }
    }
}

/// Reads tokens from a source text, one at a time.
pub struct Lexer {
    chars: Vec<char>,
    pos: usize,
    byte: usize,
}

impl Lexer {
    /// The characters being read.
    pub closed spec fn text(&self) -> Seq<char> {
        self.chars@
    }

    /// The position of the next character to read.
    pub closed spec fn position(&self) -> int {
        self.pos as int
    }

    pub closed spec fn wf(&self) -> bool {
        &&& self.pos <= self.chars.len()
        &&& self.byte == byte_offset(self.chars@, self.pos as int)
        &&& encode_utf8(self.chars@).len() <= usize::MAX
    }

    /// A lexer at the start of a text. A text too long for its byte
    /// offsets to fit in `usize` yields no token.
    pub fn new(s: &str) -> (r: Lexer)
        ensures
            r.wf(),
            r.position() == 0,
            encode_utf8(s@).len() <= usize::MAX ==> r.text() == s@,
            encode_utf8(s@).len() > usize::MAX ==> r.text().len() == 0,
    {
        let cs = chars_of(s);
        let mut total: u128 = 0;
        let mut i: usize = 0;
        assert(cs@.subrange(0, 0) =~= Seq::<char>::empty());
        while i < cs.len()
            invariant
                i <= cs.len(),
                total == byte_offset(cs@, i as int),
                total <= 4 * i,
            decreases cs.len() - i,
        {
            proof {
                lemma_byte_step(cs@, i as int);
            }
            total = total + utf8_width(cs[i]) as u128;
            i += 1;
        }
        assert(cs@.subrange(0, cs.len() as int) =~= cs@);
        if total > usize::MAX as u128 {
            let empty: Vec<char> = Vec::new();
            assert(encode_utf8(empty@) =~= Seq::<u8>::empty());
            Lexer { chars: empty, pos: 0, byte: 0 }
        } else {
            Lexer { chars: cs, pos: 0, byte: 0 }
        }
    }

    /// The next token that is not ignorable, with its span in bytes. At
    /// the end of the text, or at a character that starts no token, it
    /// gives `None` and stays there, so every later call gives `None` too.
    pub fn next(&mut self) -> (r: Option<(Token, Span)>)
        requires
            old(self).wf(),
        ensures
            final(self).wf(),
            final(self).text() == old(self).text(),
            match next_token(old(self).text(), old(self).position()) {
                Step::Found(t, lo, hi) => r is Some && r->Some_0.0@ == t && r->Some_0.1 == (Span {
                    lo: byte_offset(old(self).text(), lo) as usize,
                    hi: byte_offset(old(self).text(), hi) as usize,
                }) && final(self).position() == hi,
                Step::End => r is None && final(self).position() == old(self).text().len(),
                Step::Unrecognized(p) => r is None && final(self).position() == p,
            },
    {
        let ghost text = self.chars@;
        let ghost pos0 = self.pos as int;
        loop
            invariant
                self.wf(),
                self.chars@ == text,
                text == old(self).text(),
                pos0 == old(self).position(),
                next_token(text, pos0) == next_token(text, self.pos as int),
            decreases self.chars.len() - self.pos,
        {
            if self.pos >= self.chars.len() {
                return None;
            }
            let lo = self.byte;
            let (tok, end) = match lex(&self.chars, self.pos) {
                Some(p) => p,
                None => return None,
            };
            let ghost start = self.pos;
            let mut b = self.byte;
            let mut k = self.pos;
            while k < end
                invariant
                    self.chars@ == text,
                    start <= k <= end <= text.len(),
                    b == byte_offset(text, k as int),
                    encode_utf8(text).len() <= usize::MAX,
                    self.chars.len() == text.len(),
                decreases end - k,
            {
                proof {
                    lemma_byte_step(text, k as int);
                }
                b = b + utf8_width(self.chars[k]);
                k += 1;
            }
            self.pos = end;
            self.byte = b;
            match tok {
                Token::Whitespace => {},
                t => {
                    return Some((t, Span { lo, hi: b }));
                },
            }
        }
    }
}

proof fn lemma_next_token_bounds(s: Seq<char>, pos: int)
    ensures
        next_token(s, pos) matches Step::Found(t, lo, hi) ==> pos <= lo < hi <= s.len(),
        next_token(s, pos) matches Step::Unrecognized(p) ==> pos <= p < s.len(),
    decreases s.len() - pos,
{
    if 0 <= pos < s.len() {
        if let Some((t, e)) = lex_at(s, pos) {
            if pos < e <= s.len() && t is Whitespace {
                lemma_next_token_bounds(s, e);
            }
        }
    }
}

/// Whether a token read from a text is the token `x` of its value.
pub open spec fn read_as(p: (Token, Span), x: (Lexeme, int, int), s: Seq<char>) -> bool {
    p.0@ == x.0 && p.1 == (Span { lo: byte_offset(s, x.1) as usize, hi: byte_offset(s, x.2) as usize })
}

/// A character that starts no token, at this byte offset.
#[derive(Debug, Clone, Copy, PartialEq, Eq)]
pub struct LexError {
    pub position: usize,
}

/// All the tokens of a text, in order, with their spans in bytes; or the
/// byte offset of the first character that starts no token. A text too
/// long for its byte offsets to fit in `usize` has no tokens.
pub fn tokens(s: &str) -> (r: Result<Vec<(Token, Span)>, LexError>)
    ensures
        encode_utf8(s@).len() <= usize::MAX ==> match all_tokens(s@, 0) {
            Ok(ts) => r is Ok && r->Ok_0@.len() == ts.len() && forall|i: int|
                0 <= i < ts.len() ==> read_as(#[trigger] r->Ok_0@[i], ts[i], s@),
            Err(p) => r is Err && r->Err_0.position == byte_offset(s@, p),
        },
        encode_utf8(s@).len() > usize::MAX ==> r is Ok && r->Ok_0@.len() == 0,
{
    let mut lexer = Lexer::new(s);
    let ghost text = lexer.text();
    let mut out: Vec<(Token, Span)> = Vec::new();
    let ghost mut done: Seq<(Lexeme, int, int)> = Seq::empty();
    assert(done + Seq::<(Lexeme, int, int)>::empty() =~= done);
    loop
        invariant
            lexer.wf(),
            lexer.text() == text,
            encode_utf8(s@).len() <= usize::MAX ==> text == s@,
            encode_utf8(s@).len() > usize::MAX ==> text.len() == 0,
            0 <= lexer.position() <= text.len(),
            all_tokens(text, 0) == match all_tokens(text, lexer.position()) {
                Ok(rest) => Ok(done + rest),
                Err(p) => Err::<Seq<(Lexeme, int, int)>, int>(p),
            },
            done.len() == out@.len(),
            forall|i: int| 0 <= i < out@.len() ==> read_as(#[trigger] out@[i], done[i], text),
        decreases text.len() - lexer.position(),
    {
        let ghost before = lexer.position();
        let ghost step = next_token(text, before);
        proof {
            lemma_next_token_bounds(text, before);
        }
        match lexer.next() {
            None => {
                if lexer.pos < lexer.chars.len() {
                    return Err(LexError { position: lexer.byte });
                }
                assert(done + Seq::<(Lexeme, int, int)>::empty() =~= done);
                return Ok(out);
            },
            Some(p) => {
                let ghost old_done = done;
                let ghost old_out = out@;
                out.push(p);
                proof {
                    let (t, lo, hi) = (step->Found_0, step->Found_1, step->Found_2);
                    done = done.push((t, lo, hi));
                    match all_tokens(text, hi) {
                        Ok(rest) => {
                            assert(old_done + (seq![(t, lo, hi)] + rest) =~= done + rest);
                        },
                        Err(_) => {},
                    }
                    assert forall|i: int| 0 <= i < out@.len() implies read_as(
                        #[trigger] out@[i],
                        done[i],
                        text,
                    ) by {
                        if i < old_done.len() {
                            assert(out@[i] == old_out[i]);
                        }
                    }
                }
            },
        }
    }
}

} // verus!
