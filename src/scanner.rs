//! Splits template text into literal runs and placeholders, one token at a time.
use vstd::prelude::*;

use crate::error::SyntaxError;

verus! {

/// An opening marker `{{` starts at `i`.
pub open spec fn is_open(s: Seq<char>, i: int) -> bool {
    0 <= i && i + 1 < s.len() && s[i] == '{' && s[i + 1] == '{'
}

/// A closing marker `}}` starts at `i`.
pub open spec fn is_close(s: Seq<char>, i: int) -> bool {
    0 <= i && i + 1 < s.len() && s[i] == '}' && s[i + 1] == '}'
}

/// How far from `j` the next opening marker starts, or the distance to the end
/// of `s` where none does.
pub open spec fn open_dist(s: Seq<char>, j: int) -> nat
    decreases s.len() - j,
{
    if j >= s.len() || is_open(s, j) {
        0
    } else {
        1 + open_dist(s, j + 1)
    }
}

/// How far from `j` the first closing marker starts, if any does.
pub open spec fn close_dist(s: Seq<char>, j: int) -> Option<nat>
    decreases s.len() - j,
{
    if j + 1 >= s.len() {
        None
    } else if is_close(s, j) {
        Some(0)
    } else {
        match close_dist(s, j + 1) {
            Some(d) => Some(d + 1),
            None => None,
        }
    }
}

pub proof fn lemma_open_dist(s: Seq<char>, j: int)
    requires
        0 <= j <= s.len(),
    ensures
        j + open_dist(s, j) <= s.len(),
        forall|k: int| j <= k < j + open_dist(s, j) ==> !is_open(s, k),
        j + open_dist(s, j) < s.len() ==> is_open(s, j + open_dist(s, j)),
    decreases s.len() - j,
{
    if j < s.len() && !is_open(s, j) {
        lemma_open_dist(s, j + 1);
    }
}

pub proof fn lemma_close_dist(s: Seq<char>, j: int)
    requires
        0 <= j,
    ensures
        close_dist(s, j) matches Some(d) ==> j + d + 2 <= s.len() && is_close(s, j + d)
            && forall|k: int| j <= k < j + d ==> !is_close(s, k),
        close_dist(s, j) is None ==> forall|k: int| j <= k ==> !is_close(s, k),
    decreases s.len() - j,
{
    if j + 1 < s.len() && !is_close(s, j) {
        lemma_close_dist(s, j + 1);
    }
}

/// One step of the scanner.
#[derive(Debug, Clone, Copy, PartialEq, Eq, Structural)]
pub enum Token {
    /// Literal text `[start, end)`.
    Text { start: usize, end: usize },
    /// A placeholder whose opening marker is at `open` and closing marker at
    /// `close`; its inner text is `[open + 2, close)`.
    Placeholder { open: usize, close: usize },
}

/// The token that starts at `i`, as the scanner must find it.
pub open spec fn token_at(s: Seq<char>, i: int) -> Result<Token, SyntaxError> {
    if is_open(s, i) {
        match close_dist(s, i + 2) {
            Some(d) => Ok(Token::Placeholder { open: i as usize, close: (i + 2 + d) as usize }),
            None => Err(SyntaxError::UnterminatedPlaceholder { offset: i as usize }),
        }
    } else {
        Ok(Token::Text { start: i as usize, end: (i + 1 + open_dist(s, i + 1)) as usize })
    }
}

/// Where the scan resumes after `t`.
pub open spec fn token_end(t: Token) -> int {
    match t {
        Token::Text { end, .. } => end as int,
        Token::Placeholder { close, .. } => close + 2,
    }
}

/// Facts about the token at `i` that the parser relies on.
pub proof fn lemma_token_at(s: Seq<char>, i: int)
    requires
        0 <= i < s.len() <= usize::MAX,
    ensures
        token_at(s, i) matches Ok(t) ==> i < token_end(t) <= s.len(),
        token_at(s, i) matches Ok(Token::Placeholder { open, close }) ==> open == i && i + 2
            <= close && is_close(s, close as int),
{
    lemma_open_dist(s, i + 1);
    lemma_close_dist(s, i + 2);
}

fn is_open_at(v: &Vec<char>, i: usize) -> (r: bool)
    ensures
        r == is_open(v@, i as int),
{
    i < v.len() && v.len() - i >= 2 && v[i] == '{' && v[i + 1] == '{'
}

fn is_close_at(v: &Vec<char>, i: usize) -> (r: bool)
    ensures
        r == is_close(v@, i as int),
{
    i < v.len() && v.len() - i >= 2 && v[i] == '}' && v[i + 1] == '}'
}

/// Reads the token that starts at `i`.
pub fn scan_token(v: &Vec<char>, i: usize) -> (r: Result<Token, SyntaxError>)
    requires
        i < v.len(),
    ensures
        r == token_at(v@, i as int),
{
    if is_open_at(v, i) {
        let mut k: usize = i + 2;
        while k < v.len() && !is_close_at(v, k)
            invariant
                i + 2 <= k <= v.len(),
                is_open(v@, i as int),
                close_dist(v@, i + 2) == match close_dist(v@, k as int) {
                    Some(d) => Some((d + (k - i - 2)) as nat),
                    None => None::<nat>,
                },
            decreases v.len() - k,
        {
            k = k + 1;
        }
        if k < v.len() {
            Ok(Token::Placeholder { open: i, close: k })
        } else {
            Err(SyntaxError::UnterminatedPlaceholder { offset: i })
        }
    } else {
        let mut k: usize = i + 1;
        while k < v.len() && !is_open_at(v, k)
            invariant
                i + 1 <= k <= v.len(),
                open_dist(v@, i + 1) == open_dist(v@, k as int) + (k - i - 1),
            decreases v.len() - k,
        {
            k = k + 1;
        }
        Ok(Token::Text { start: i, end: k })
    }
}

} // verus!
