//! Atoms of the search grammar: blanks, quoted texts and arrays of texts.
use vstd::prelude::*;

use crate::strings_view;

verus! {

/// A quoted text, unescaped.
#[derive(Debug, Clone, PartialEq, Eq)]
pub struct Text(pub String);

/// A bracketed list of quoted texts, unescaped.
#[derive(Debug, Clone, PartialEq, Eq)]
pub struct Array(pub Vec<String>);

pub open spec fn is_blank(c: char) -> bool {
    c == ' ' || c == '\t'
}

/// The position of the first character at or after `i` that is not a
/// space or a tab.
pub open spec fn ws_end(s: Seq<char>, i: int) -> int
    decreases s.len() - i,
{
    if 0 <= i < s.len() && is_blank(s[i]) {
        ws_end(s, i + 1)
    } else {
        i
    }
}

/// The body of a quoted text from `i` on: characters other than a
/// backslash or a quote stand for themselves, a backslash followed by a
/// backslash or a quote stands for the second one, and a quote ends the
/// text. Gives the unescaped characters and the position after the quote.
pub open spec fn text_body(s: Seq<char>, i: int) -> Option<(Seq<char>, int)>
    decreases s.len() - i,
{
    if i < 0 || i >= s.len() {
        None
    } else if s[i] == '"' {
        Some((Seq::empty(), i + 1))
    } else if s[i] == '\\' {
        if i + 1 < s.len() && (s[i + 1] == '\\' || s[i + 1] == '"') {
            match text_body(s, i + 2) {
                Some((t, e)) => Some((seq![s[i + 1]] + t, e)),
                None => None,
            }
        } else {
            None
        }
    } else {
        match text_body(s, i + 1) {
            Some((t, e)) => Some((seq![s[i]] + t, e)),
            None => None,
        }
    }
}

/// A quoted text that starts at `i`.
pub open spec fn text_at(s: Seq<char>, i: int) -> Option<(Seq<char>, int)> {
    if 0 <= i < s.len() && s[i] == '"' {
        text_body(s, i + 1)
    } else {
        None
    }
}

/// The rest of an array after an item that ends at `i`: blanks, then
/// either the closing bracket or a comma, blanks and one more item.
pub open spec fn list_tail(s: Seq<char>, i: int) -> Option<(Seq<Seq<char>>, int)>
    decreases s.len() - i,
{
    let j = ws_end(s, i);
    if j < 0 || j >= s.len() {
        None
    } else if s[j] == ']' {
        Some((Seq::empty(), j + 1))
    } else if s[j] == ',' {
        match text_at(s, ws_end(s, j + 1)) {
            Some((t, m)) => if i < m <= s.len() {
                match list_tail(s, m) {
                    Some((ts, e)) => Some((seq![t] + ts, e)),
                    None => None,
                }
            } else {
                None
            },
            None => None,
        }
    } else {
        None
    }
}

/// An array that starts at `i`: `[`, blanks, then either `]` or items
/// separated by commas (with blanks around them) and `]`.
pub open spec fn array_at(s: Seq<char>, i: int) -> Option<(Seq<Seq<char>>, int)> {
    if 0 <= i < s.len() && s[i] == '[' {
        let j = ws_end(s, i + 1);
        if 0 <= j < s.len() && s[j] == ']' {
            Some((Seq::empty(), j + 1))
        } else {
            match text_at(s, j) {
                Some((t, m)) => match list_tail(s, m) {
                    Some((ts, e)) => Some((seq![t] + ts, e)),
                    None => None,
                },
                None => None,
            }
        }
    } else {
        None
    }
}

/// Relies on String::push: appends one character.
#[verifier::external_body]
pub(crate) fn push_char(s: &mut String, c: char)
    ensures
        final(s)@ == old(s)@.push(c),
{
    s.push(c)
}

/// Skips spaces and tabs.
pub fn skip_blanks(s: &Vec<char>, i: usize) -> (r: usize)
    requires
        i <= s.len(),
    ensures
        r as int == ws_end(s@, i as int),
        i <= r <= s.len(),
{
    let mut j = i;
    while j < s.len() && (s[j] == ' ' || s[j] == '\t')
        invariant
            i <= j <= s.len(),
            ws_end(s@, j as int) == ws_end(s@, i as int),
        decreases s.len() - j,
    {
        j += 1;
    }
    j
}

/// Reads a quoted text at `i`; gives it unescaped and the position after it.
pub fn text(s: &Vec<char>, i: usize) -> (r: Option<(Text, usize)>)
    requires
        i <= s.len(),
    ensures
        match text_at(s@, i as int) {
            Some((t, e)) => r is Some && r->Some_0.0.0@ == t && r->Some_0.1 as int == e,
            None => r is None,
        },
        r is Some ==> i < r->Some_0.1 <= s.len(),
{
    if i >= s.len() || s[i] != '"' {
        return None;
    }
    let mut out = String::new();
    let mut j = i + 1;
    while j < s.len() && s[j] != '"'
        invariant
            i < j <= s.len(),
            text_at(s@, i as int) == match text_body(s@, j as int) {
                Some((t, e)) => Some((out@ + t, e)),
                None => None,
            },
        decreases s.len() - j,
    {
        let ghost old_out = out@;
        if s[j] == '\\' {
            if j + 1 < s.len() && (s[j + 1] == '\\' || s[j + 1] == '"') {
                let c = s[j + 1];
                push_char(&mut out, c);
                proof {
                    match text_body(s@, j + 2) {
                        Some((t, e)) => {
                            assert(old_out + (seq![c] + t) =~= out@ + t);
                        },
                        None => {},
                    }
                }
                j += 2;
            } else {
                return None;
            }
        } else {
            let c = s[j];
            push_char(&mut out, c);
            proof {
                match text_body(s@, j + 1) {
                    Some((t, e)) => {
                        assert(old_out + (seq![c] + t) =~= out@ + t);
                    },
                    None => {},
                }
            }
            j += 1;
        }
    }
    if j < s.len() {
        assert(out@ + Seq::<char>::empty() =~= out@);
        Some((Text(out), j + 1))
    } else {
        None
    }
}

/// Reads an array of quoted texts at `i`.
pub fn array(s: &Vec<char>, i: usize) -> (r: Option<(Array, usize)>)
    requires
        i <= s.len(),
    ensures
        match array_at(s@, i as int) {
            Some((ts, e)) => r is Some && strings_view(r->Some_0.0.0@) == ts && r->Some_0.1 as int
                == e,
            None => r is None,
        },
        r is Some ==> i < r->Some_0.1 <= s.len(),
{
    if i >= s.len() || s[i] != '[' {
        return None;
    }
    let j = skip_blanks(s, i + 1);
    if j < s.len() && s[j] == ']' {
        let items: Vec<String> = Vec::new();
        assert(strings_view(items@) =~= Seq::<Seq<char>>::empty());
        return Some((Array(items), j + 1));
    }
    let first = text(s, j);
    let (t0, m0) = match first {
        Some(p) => p,
        None => return None,
    };
    let mut items: Vec<String> = Vec::new();
    items.push(t0.0);
    let mut pos = m0;
    assert(strings_view(items@) =~= seq![text_at(s@, j as int)->Some_0.0]);
    loop
        invariant
            i < pos <= s.len(),
            array_at(s@, i as int) == match list_tail(s@, pos as int) {
                Some((ts, e)) => Some((strings_view(items@) + ts, e)),
                None => None,
            },
        decreases s.len() - pos,
    {
        let k = skip_blanks(s, pos);
        if k >= s.len() {
            return None;
        }
        if s[k] == ']' {
            assert(strings_view(items@) + Seq::<Seq<char>>::empty() =~= strings_view(items@));
            return Some((Array(items), k + 1));
        }
        if s[k] != ',' {
            return None;
        }
        let l = skip_blanks(s, k + 1);
        match text(s, l) {
            Some((t, m)) => {
                let ghost before = strings_view(items@);
                let ghost tv = t.0@;
                items.push(t.0);
                proof {
                    assert(strings_view(items@) =~= before.push(tv));
                    match list_tail(s@, m as int) {
                        Some((ts, e)) => {
                            assert(before + (seq![tv] + ts) =~= before.push(tv) + ts);
                        },
                        None => {},
                    }
                }
                pos = m;
            },
            None => return None,
        }
    }
}

} // verus!
