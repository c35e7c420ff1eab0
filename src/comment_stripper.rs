//! Removes `#` comments from source text. A `#` inside a string or character
//! literal starts no comment; a comment runs to the end of its line, and the
//! line break stays.

use vstd::prelude::*;

verus! {

/// What is left of `s[i..]` after comments are removed, where `in_string`
/// and `in_char` say whether a string or character literal is open at `i`.
pub open spec fn strip_from(s: Seq<char>, i: int, in_string: bool, in_char: bool) -> Seq<char>
    decreases s.len() - i, 0nat,
{
    if i < 0 || i >= s.len() {
        seq![]
    } else if s[i] == '"' {
        seq![s[i]] + strip_from(s, i + 1, !in_string, in_char)
    } else if s[i] == '\'' {
        seq![s[i]] + strip_from(s, i + 1, in_string, !in_char)
    } else if s[i] == '#' && !in_string && !in_char {
        skip_comment(s, i + 1)
    } else {
        seq![s[i]] + strip_from(s, i + 1, in_string, in_char)
    }
}

/// What is left of `s[i..]` when `i` is inside a comment: nothing up to the
/// next line break; from there on, text with no literal open.
pub open spec fn skip_comment(s: Seq<char>, i: int) -> Seq<char>
    decreases s.len() - i, 1nat,
{
    if i < 0 || i >= s.len() {
        seq![]
    } else if s[i] == '\n' {
        strip_from(s, i, false, false)
    } else {
        skip_comment(s, i + 1)
    }
}

/// `s` without its comments.
pub open spec fn stripped(s: Seq<char>) -> Seq<char> {
    strip_from(s, 0, false, false)
}

/// Relies on `String::push`: appends one character.
#[verifier::external_body]
pub(crate) fn push_char(s: &mut String, c: char)
    ensures
        final(s)@ == old(s)@.push(c),
{
    s.push(c)
}

/// The characters of a string, in order.
pub(crate) fn chars_of(s: &str) -> (r: Vec<char>)
    ensures
        r@ == s@,
{
    let mut r: Vec<char> = Vec::new();
    for c in it: s.chars()
        invariant
            r@ == it.seq().take(it.index() as int),
            it.seq() == s@,
    {
        r.push(c);
    }
    r
}

proof fn lemma_push_concat(a: Seq<char>, c: char, t: Seq<char>)
    ensures
        a.push(c) + t == a + (seq![c] + t),
{
    assert(a.push(c) + t =~= a + (seq![c] + t));
}

/// Removes every comment from `input`.
pub fn strip_comments(input: &str) -> (r: String)
    ensures
        r@ == stripped(input@),
{
    let chars = chars_of(input);
    let ghost s = input@;
    let mut out = String::new();
    let mut in_comment = false;
    let mut in_string = false;
    let mut in_char = false;
    let mut i: usize = 0;
    while i < chars.len()
        invariant
            chars@ == s,
            i <= s.len(),
            stripped(s) == out@ + if in_comment {
                skip_comment(s, i as int)
            } else {
                strip_from(s, i as int, in_string, in_char)
            },
        decreases s.len() - i,
    {
        let c = chars[i];
        proof {
            lemma_push_concat(out@, c, strip_from(s, i + 1, false, false));
            lemma_push_concat(out@, c, strip_from(s, i + 1, !in_string, in_char));
            lemma_push_concat(out@, c, strip_from(s, i + 1, in_string, !in_char));
            lemma_push_concat(out@, c, strip_from(s, i + 1, in_string, in_char));
            if in_comment && c == '\n' {
                assert(skip_comment(s, i as int) == strip_from(s, i as int, false, false));
                assert(strip_from(s, i as int, false, false) == seq![c] + strip_from(
                    s,
                    i + 1,
                    false,
                    false,
                ));
            }
            if in_comment && c != '\n' {
                assert(skip_comment(s, i as int) == skip_comment(s, i + 1));
            }
        }
        if in_comment {
            if c == '\n' {
                in_comment = false;
                in_string = false;
                in_char = false;
                push_char(&mut out, c);
            }
        } else if c == '"' {
            push_char(&mut out, c);
            in_string = !in_string;
        } else if c == '\'' {
            push_char(&mut out, c);
            in_char = !in_char;
        } else if c == '#' && !in_string && !in_char {
            in_comment = true;
        } else {
            push_char(&mut out, c);
        }
        i = i + 1;
    }
    out
}

} // verus!
