//! The tokenizer of the template language.
//!
//! Source text becomes a sequence of tokens: bare words, sigil-prefixed
//! variable identifiers, numbers, quoted strings (kept raw, quotes and
//! escapes included), and single-character punctuation. Whitespace
//! separates tokens, `#` starts a comment running to the end of the line,
//! and every token carries the line and column (both 1-based, counted in
//! characters) where it starts. The reference is `spec_lex`: the exec
//! tokenizer returns exactly what it says, token for token.

use vstd::prelude::*;

verus! {

/// What a token is: a word, a variable identifier (with its `$`), a
/// number, a string literal (raw, quotes included), or punctuation.
pub enum TokKind {
    Word(String),
    Var(String),
    Num(String),
    Str(String),
    LBrace,
    RBrace,
    LParen,
    RParen,
    Pipe,
    Semi,
    Colon,
    At,
    Plus,
    Minus,
    Star,
    Slash,
}

/// The view of a token kind.
pub enum TokKindV {
    Word(Seq<char>),
    Var(Seq<char>),
    Num(Seq<char>),
    Str(Seq<char>),
    LBrace,
    RBrace,
    LParen,
    RParen,
    Pipe,
    Semi,
    Colon,
    At,
    Plus,
    Minus,
    Star,
    Slash,
}

impl View for TokKind {
    type V = TokKindV;

    open spec fn view(&self) -> TokKindV {
        match self {
            TokKind::Word(s) => TokKindV::Word(s@),
            TokKind::Var(s) => TokKindV::Var(s@),
            TokKind::Num(s) => TokKindV::Num(s@),
            TokKind::Str(s) => TokKindV::Str(s@),
            TokKind::LBrace => TokKindV::LBrace,
            TokKind::RBrace => TokKindV::RBrace,
            TokKind::LParen => TokKindV::LParen,
            TokKind::RParen => TokKindV::RParen,
            TokKind::Pipe => TokKindV::Pipe,
            TokKind::Semi => TokKindV::Semi,
            TokKind::Colon => TokKindV::Colon,
            TokKind::At => TokKindV::At,
            TokKind::Plus => TokKindV::Plus,
            TokKind::Minus => TokKindV::Minus,
            TokKind::Star => TokKindV::Star,
            TokKind::Slash => TokKindV::Slash,
        }
    }
}

/// One token, with the 1-based line and column where it starts.
pub struct Tok {
    pub kind: TokKind,
    pub line: usize,
    pub col: usize,
}

/// The view of a token.
pub struct TokV {
    pub kind: TokKindV,
    pub line: int,
    pub col: int,
}

impl View for Tok {
    type V = TokV;

    open spec fn view(&self) -> TokV {
        TokV { kind: self.kind@, line: self.line as int, col: self.col as int }
    }
}

/// Whether `c` begins a word: a letter or an underscore.
pub open spec fn is_word_start(c: char) -> bool {
    ('a' <= c && c <= 'z') || ('A' <= c && c <= 'Z') || c == '_'
}

/// Whether `c` may continue a word: a letter, a digit, or an underscore.
pub open spec fn is_word_char(c: char) -> bool {
    is_word_start(c) || ('0' <= c && c <= '9')
}

/// Whether `c` may continue a variable identifier: a word character or a
/// dot.
pub open spec fn is_var_char(c: char) -> bool {
    is_word_char(c) || c == '.'
}

/// Whether `c` is a decimal digit.
pub open spec fn is_digit(c: char) -> bool {
    '0' <= c && c <= '9'
}

/// The end of the run of word characters starting at `i`.
pub open spec fn word_end(s: Seq<char>, i: int) -> int
    decreases s.len() - i,
{
    if i < 0 || i >= s.len() {
        if s.len() < i {
            s.len() as int
        } else if i < 0 {
            0
        } else {
            i
        }
    } else if is_word_char(s[i]) {
        word_end(s, i + 1)
    } else {
        i
    }
}

/// The end of the run of variable-identifier characters from `i`.
pub open spec fn var_end(s: Seq<char>, i: int) -> int
    decreases s.len() - i,
{
    if i < 0 || i >= s.len() {
        if s.len() < i {
            s.len() as int
        } else if i < 0 {
            0
        } else {
            i
        }
    } else if is_var_char(s[i]) {
        var_end(s, i + 1)
    } else {
        i
    }
}

/// The end of the run of digits from `i`.
pub open spec fn digits_end(s: Seq<char>, i: int) -> int
    decreases s.len() - i,
{
    if i < 0 || i >= s.len() {
        if s.len() < i {
            s.len() as int
        } else if i < 0 {
            0
        } else {
            i
        }
    } else if is_digit(s[i]) {
        digits_end(s, i + 1)
    } else {
        i
    }
}

/// The first position at or after `i` holding a newline, or the end.
pub open spec fn line_end(s: Seq<char>, i: int) -> int
    decreases s.len() - i,
{
    if i < 0 || i >= s.len() {
        if s.len() < i {
            s.len() as int
        } else if i < 0 {
            0
        } else {
            i
        }
    } else if s[i] == '\n' {
        i
    } else {
        line_end(s, i + 1)
    }
}

/// The position just past the closing quote of a string literal whose
/// body starts at `i`, skipping backslash-escaped characters, or nothing
/// where the line or the text ends first.
pub open spec fn str_end(s: Seq<char>, i: int) -> Option<int>
    decreases s.len() - i,
{
    if i < 0 || i >= s.len() {
        None
    } else if s[i] == '\n' {
        None
    } else if s[i] == '"' {
        Some(i + 1)
    } else if s[i] == '\\' && i + 2 <= s.len() {
        str_end(s, i + 2)
    } else {
        str_end(s, i + 1)
    }
}

/// The end of the number token starting at `i` (a digit): digits, then
/// optionally a dot followed by digits, then optionally a lowercase
/// exponent with an optional sign — the dot and the exponent are taken
/// only where what follows them keeps the token a number.
pub open spec fn num_end(s: Seq<char>, i: int) -> int {
    let e1 = digits_end(s, i);
    let e2 = if e1 < s.len() && s[e1] == '.' && e1 + 1 < s.len() && is_digit(s[e1 + 1]) {
        digits_end(s, e1 + 1)
    } else {
        e1
    };
    if e2 < s.len() && s[e2] == 'e' {
        let j = if e2 + 1 < s.len() && (s[e2 + 1] == '+' || s[e2 + 1] == '-') {
            e2 + 2
        } else {
            e2 + 1
        };
        if j < s.len() && is_digit(s[j]) {
            digits_end(s, j)
        } else {
            e2
        }
    } else {
        e2
    }
}

/// A scan end lies between its start and the end of the text.
pub proof fn lemma_scan_bounds(s: Seq<char>, i: int)
    requires
        0 <= i <= s.len(),
    ensures
        i <= word_end(s, i) <= s.len(),
        i <= var_end(s, i) <= s.len(),
        i <= digits_end(s, i) <= s.len(),
        i <= line_end(s, i) <= s.len(),
        match str_end(s, i) {
            Some(e) => i < e <= s.len(),
            None => true,
        },
    decreases s.len() - i,
{
    if i < s.len() {
        lemma_scan_bounds(s, i + 1);
        if i + 2 <= s.len() {
            lemma_scan_bounds(s, i + 2);
        }
    }
}

/// The number token's end lies between its start and the end of the text,
/// at or past the end of its leading digits.
pub proof fn lemma_num_end_bounds(s: Seq<char>, i: int)
    requires
        0 <= i <= s.len(),
    ensures
        i <= num_end(s, i) <= s.len(),
        digits_end(s, i) <= num_end(s, i),
{
    lemma_scan_bounds(s, i);
    let e1 = digits_end(s, i);
    if e1 < s.len() && s[e1] == '.' && e1 + 1 < s.len() && is_digit(s[e1 + 1]) {
        lemma_scan_bounds(s, e1 + 1);
    }
    let e2 = num_end_frac(s, i);
    if e2 < s.len() && s[e2] == 'e' {
        let j = if e2 + 1 < s.len() && (s[e2 + 1] == '+' || s[e2 + 1] == '-') {
            e2 + 2
        } else {
            e2 + 1
        };
        if j < s.len() && is_digit(s[j]) {
            lemma_scan_bounds(s, j);
        }
    }
}

/// The end of the integer-and-fraction part of a number token.
pub open spec fn num_end_frac(s: Seq<char>, i: int) -> int {
    let e1 = digits_end(s, i);
    if e1 < s.len() && s[e1] == '.' && e1 + 1 < s.len() && is_digit(s[e1 + 1]) {
        digits_end(s, e1 + 1)
    } else {
        e1
    }
}

/// Tokenizing the text from position `i` on, at the given line and
/// column: the remaining tokens, or the position of the offending
/// character.
pub open spec fn spec_lex(s: Seq<char>, i: int, line: int, col: int) -> Result<
    Seq<TokV>,
    (int, int),
>
    decreases s.len() - i,
{
    if i < 0 || i >= s.len() {
        Ok(Seq::empty())
    } else {
        let c = s[i];
        if c == ' ' || c == '\t' || c == '\r' {
            spec_lex(s, i + 1, line, col + 1)
        } else if c == '\n' {
            spec_lex(s, i + 1, line + 1, 1)
        } else if c == '#' {
            let e = line_end(s, i);
            proof {
                lemma_scan_bounds(s, i);
            }
            if e > i {
                spec_lex(s, e, line, col + (e - i))
            } else {
                Err((line, col))
            }
        } else if is_word_start(c) {
            let e = word_end(s, i);
            proof {
                lemma_scan_bounds(s, i);
            }
            let t = TokV { kind: TokKindV::Word(s.subrange(i, e)), line: line, col: col };
            if e > i {
                lex_cons(t, spec_lex(s, e, line, col + (e - i)))
            } else {
                Err((line, col))
            }
        } else if c == '$' {
            let e = var_end(s, i + 1);
            proof {
                lemma_scan_bounds(s, i + 1);
            }
            let t = TokV { kind: TokKindV::Var(s.subrange(i, e)), line: line, col: col };
            lex_cons(t, spec_lex(s, e, line, col + (e - i)))
        } else if is_digit(c) {
            let e = num_end(s, i);
            proof {
                lemma_num_end_bounds(s, i);
            }
            let t = TokV { kind: TokKindV::Num(s.subrange(i, e)), line: line, col: col };
            if e > i {
                lex_cons(t, spec_lex(s, e, line, col + (e - i)))
            } else {
                Err((line, col))
            }
        } else if c == '"' {
            match str_end(s, i + 1) {
                Some(e) => {
                    proof {
                        lemma_scan_bounds(s, i + 1);
                    }
                    let t = TokV { kind: TokKindV::Str(s.subrange(i, e)), line: line, col: col };
                    lex_cons(t, spec_lex(s, e, line, col + (e - i)))
                },
                None => Err((line, col)),
            }
        } else {
            match punct_kind(c) {
                Some(k) => lex_cons(
                    TokV { kind: k, line: line, col: col },
                    spec_lex(s, i + 1, line, col + 1),
                ),
                None => Err((line, col)),
            }
        }
    }
}

/// Prepends a token to a tokenization outcome.
pub open spec fn lex_cons(t: TokV, rest: Result<Seq<TokV>, (int, int)>) -> Result<
    Seq<TokV>,
    (int, int),
> {
    match rest {
        Ok(ts) => Ok(seq![t] + ts),
        Err(p) => Err(p),
    }
}

/// Whether `c` begins a word.
fn word_start(c: char) -> (b: bool)
    ensures
        b == is_word_start(c),
{
    ('a' <= c && c <= 'z') || ('A' <= c && c <= 'Z') || c == '_'
}

/// Whether `c` may continue a word.
fn word_char(c: char) -> (b: bool)
    ensures
        b == is_word_char(c),
{
    word_start(c) || ('0' <= c && c <= '9')
}

/// Whether `c` may continue a variable identifier.
fn var_char(c: char) -> (b: bool)
    ensures
        b == is_var_char(c),
{
    word_char(c) || c == '.'
}

/// Whether `c` is a decimal digit.
fn digit_char_test(c: char) -> (b: bool)
    ensures
        b == is_digit(c),
{
    '0' <= c && c <= '9'
}

/// The end of the run of word characters from `i`.
fn scan_word_end(v: &Vec<char>, i: usize) -> (e: usize)
    requires
        i <= v@.len(),
    ensures
        e == word_end(v@, i as int),
        i <= e <= v@.len(),
{
    let mut e = i;
    while e < v.len() && word_char(v[e])
        invariant
            i <= e <= v@.len(),
            word_end(v@, i as int) == word_end(v@, e as int),
        decreases v@.len() - e,
    {
        e = e + 1;
    }
    e
}

/// The end of the run of variable-identifier characters from `i`.
fn scan_var_end(v: &Vec<char>, i: usize) -> (e: usize)
    requires
        i <= v@.len(),
    ensures
        e == var_end(v@, i as int),
        i <= e <= v@.len(),
{
    let mut e = i;
    while e < v.len() && var_char(v[e])
        invariant
            i <= e <= v@.len(),
            var_end(v@, i as int) == var_end(v@, e as int),
        decreases v@.len() - e,
    {
        e = e + 1;
    }
    e
}

/// The end of the run of digits from `i`.
fn scan_digits_end(v: &Vec<char>, i: usize) -> (e: usize)
    requires
        i <= v@.len(),
    ensures
        e == digits_end(v@, i as int),
        i <= e <= v@.len(),
{
    let mut e = i;
    while e < v.len() && digit_char_test(v[e])
        invariant
            i <= e <= v@.len(),
            digits_end(v@, i as int) == digits_end(v@, e as int),
        decreases v@.len() - e,
    {
        e = e + 1;
    }
    e
}

/// The first newline position at or after `i`, or the end.
fn scan_line_end(v: &Vec<char>, i: usize) -> (e: usize)
    requires
        i <= v@.len(),
    ensures
        e == line_end(v@, i as int),
        i <= e <= v@.len(),
{
    let mut e = i;
    while e < v.len() && v[e] != '\n'
        invariant
            i <= e <= v@.len(),
            line_end(v@, i as int) == line_end(v@, e as int),
        decreases v@.len() - e,
    {
        e = e + 1;
    }
    e
}

/// The position just past a string body's closing quote, if the string
/// is terminated on this line.
fn scan_str_end(v: &Vec<char>, i: usize) -> (r: Option<usize>)
    requires
        i <= v@.len(),
    ensures
        match r {
            Some(e) => str_end(v@, i as int) == Some(e as int) && i < e <= v@.len(),
            None => str_end(v@, i as int) is None,
        },
    decreases v@.len() - i,
{
    if i >= v.len() {
        None
    } else if v[i] == '\n' {
        None
    } else if v[i] == '"' {
        Some(i + 1)
    } else if v[i] == '\\' && v.len() - i >= 2 {
        scan_str_end(v, i + 2)
    } else {
        scan_str_end(v, i + 1)
    }
}

/// The end of the number token starting at `i`.
fn scan_num_end(v: &Vec<char>, i: usize) -> (e: usize)
    requires
        i <= v@.len(),
    ensures
        e == num_end(v@, i as int),
        i <= e <= v@.len(),
{
    let e1 = scan_digits_end(v, i);
    let e2 = if e1 < v.len() && v[e1] == '.' && e1 + 1 < v.len() && digit_char_test(v[e1 + 1]) {
        scan_digits_end(v, e1 + 1)
    } else {
        e1
    };
    if e2 < v.len() && v[e2] == 'e' {
        let j = if e2 + 1 < v.len() && (v[e2 + 1] == '+' || v[e2 + 1] == '-') {
            e2 + 2
        } else {
            e2 + 1
        };
        if j < v.len() && digit_char_test(v[j]) {
            scan_digits_end(v, j)
        } else {
            e2
        }
    } else {
        e2
    }
}

/// The punctuation token for `c`, if `c` is punctuation.
fn punct_token(c: char) -> (r: Option<TokKind>)
    ensures
        match r {
            Some(k) => punct_kind(c) == Some(k@),
            None => punct_kind(c) is None,
        },
{
    match c {
        '{' => Some(TokKind::LBrace),
        '}' => Some(TokKind::RBrace),
        '(' => Some(TokKind::LParen),
        ')' => Some(TokKind::RParen),
        '|' => Some(TokKind::Pipe),
        ';' => Some(TokKind::Semi),
        ':' => Some(TokKind::Colon),
        '@' => Some(TokKind::At),
        '+' => Some(TokKind::Plus),
        '-' => Some(TokKind::Minus),
        '*' => Some(TokKind::Star),
        '/' => Some(TokKind::Slash),
        _ => None,
    }
}

/// Tokenizes the whole text, by the rules of `spec_lex`: all the tokens,
/// or the line and column of the offending character.
#[verifier::loop_isolation(false)]
pub fn tokenize(v: &Vec<char>) -> (r: Result<Vec<Tok>, (usize, usize)>)
    requires
        v@.len() < usize::MAX,
    ensures
        ({
            let sp = spec_lex(v@, 0, 1, 1);
            match r {
                Ok(toks) => sp == Ok::<_, (int, int)>(toks@.map_values(|t: Tok| t@)) && toks@.len()
                    <= v@.len(),
                Err(p) => sp == Err::<Seq<TokV>, _>((p.0 as int, p.1 as int)),
            }
        }),
{
    let ghost s = v@;
    let mut out: Vec<Tok> = Vec::new();
    let mut pos: usize = 0;
    let mut line: usize = 1;
    let mut col: usize = 1;
    while pos < v.len()
        invariant
            pos <= s.len(),
            out@.len() <= pos,
            1 <= line <= pos + 1,
            1 <= col <= pos + 1,
            spec_lex(s, 0, 1, 1) == (match spec_lex(s, pos as int, line as int, col as int) {
                Ok(rest) => Ok::<_, (int, int)>(out@.map_values(|t: Tok| t@) + rest),
                Err(p) => Err(p),
            }),
        decreases s.len() - pos,
    {
        let c = v[pos];
        if c == ' ' || c == '\t' || c == '\r' {
            pos = pos + 1;
            col = col + 1;
        } else if c == '\n' {
            pos = pos + 1;
            line = line + 1;
            col = 1;
        } else if c == '#' {
            let e = scan_line_end(v, pos);
            proof {
                lemma_scan_bounds(s, pos as int + 1);
                assert(line_end(s, pos as int) == line_end(s, pos as int + 1));
                assert(e > pos);
            }
            col = col + (e - pos);
            pos = e;
        } else if word_start(c) {
            let e = scan_word_end(v, pos);
            proof {
                lemma_scan_bounds(s, pos as int + 1);
                assert(word_end(s, pos as int) == word_end(s, pos as int + 1));
                assert(e > pos);
            }
            let text = crate::text::chars_substring(v, pos, e);
            let t = Tok { kind: TokKind::Word(text), line, col };
            lex_push(Ghost(s), &mut out, t, Ghost((pos as int, line as int, col as int)), Ghost(
                (e as int, line as int, col as int + (e - pos)),
            ));
            col = col + (e - pos);
            pos = e;
        } else if c == '$' {
            let e = scan_var_end(v, pos + 1);
            let text = crate::text::chars_substring(v, pos, e);
            let t = Tok { kind: TokKind::Var(text), line, col };
            lex_push(Ghost(s), &mut out, t, Ghost((pos as int, line as int, col as int)), Ghost(
                (e as int, line as int, col as int + (e - pos)),
            ));
            col = col + (e - pos);
            pos = e;
        } else if digit_char_test(c) {
            let e = scan_num_end(v, pos);
            proof {
                lemma_scan_bounds(s, pos as int + 1);
                assert(digits_end(s, pos as int) == digits_end(s, pos as int + 1));
                lemma_num_end_bounds(s, pos as int);
                assert(num_end(s, pos as int) >= digits_end(s, pos as int));
                assert(e > pos);
            }
            let text = crate::text::chars_substring(v, pos, e);
            let t = Tok { kind: TokKind::Num(text), line, col };
            lex_push(Ghost(s), &mut out, t, Ghost((pos as int, line as int, col as int)), Ghost(
                (e as int, line as int, col as int + (e - pos)),
            ));
            col = col + (e - pos);
            pos = e;
        } else if c == '"' {
            match scan_str_end(v, pos + 1) {
                Some(e) => {
                    let text = crate::text::chars_substring(v, pos, e);
                    let t = Tok { kind: TokKind::Str(text), line, col };
                    lex_push(Ghost(s), &mut out, t, Ghost(
                        (pos as int, line as int, col as int),
                    ), Ghost((e as int, line as int, col as int + (e - pos))));
                    col = col + (e - pos);
                    pos = e;
                },
                None => {
                    return Err((line, col));
                },
            }
        } else {
            match punct_token(c) {
                Some(k) => {
                    let t = Tok { kind: k, line, col };
                    lex_push(Ghost(s), &mut out, t, Ghost(
                        (pos as int, line as int, col as int),
                    ), Ghost((pos as int + 1, line as int, col as int + 1)));
                    col = col + 1;
                    pos = pos + 1;
                },
                None => {
                    return Err((line, col));
                },
            }
        }
    }
    Ok(out)
}

/// Pushes one token whose view continues the tokenization: the
/// accumulated decomposition shifts past it.
fn lex_push(
    Ghost(s): Ghost<Seq<char>>,
    out: &mut Vec<Tok>,
    t: Tok,
    Ghost(at): Ghost<(int, int, int)>,
    Ghost(next): Ghost<(int, int, int)>,
)
    requires
        spec_lex(s, at.0, at.1, at.2) == lex_cons(t@, spec_lex(s, next.0, next.1, next.2)),
        spec_lex(s, 0, 1, 1) == (match spec_lex(s, at.0, at.1, at.2) {
            Ok(rest) => Ok::<_, (int, int)>(old(out)@.map_values(|x: Tok| x@) + rest),
            Err(p) => Err(p),
        }),
    ensures
        final(out)@ == old(out)@.push(t),
        spec_lex(s, 0, 1, 1) == (match spec_lex(s, next.0, next.1, next.2) {
            Ok(rest) => Ok::<_, (int, int)>(final(out)@.map_values(|x: Tok| x@) + rest),
            Err(p) => Err(p),
        }),
{
    let ghost out0 = out@;
    out.push(t);
    proof {
        assert(out@.map_values(|x: Tok| x@) =~= out0.map_values(|x: Tok| x@).push(t@));
        match spec_lex(s, next.0, next.1, next.2) {
            Ok(rest) => {
                assert(out0.map_values(|x: Tok| x@) + (seq![t@] + rest) =~= out@.map_values(
                    |x: Tok| x@) + rest);
            },
            Err(_) => {},
        }
    }
}

/// What every token of a tokenization satisfies: a position no earlier
/// than line 1, column 1, and a variable identifier that carries at
/// least its sigil.
pub open spec fn toks_wf(toks: Seq<TokV>) -> bool {
    forall|i: int|
        0 <= i < toks.len() ==> ((#[trigger] toks[i]).line >= 1 && toks[i].col >= 1 && (
        toks[i].kind matches TokKindV::Var(t) ==> t.len() >= 1))
}

/// Tokenization only produces well-formed tokens, and reports errors at
/// real positions.
pub proof fn lemma_lex_wf(s: Seq<char>, i: int, line: int, col: int)
    requires
        line >= 1,
        col >= 1,
    ensures
        match spec_lex(s, i, line, col) {
            Ok(toks) => toks_wf(toks),
            Err(p) => p.0 >= 1 && p.1 >= 1,
        },
    decreases s.len() - i,
{
    if i < 0 || i >= s.len() {
    } else {
        let c = s[i];
        if c == ' ' || c == '\t' || c == '\r' {
            lemma_lex_wf(s, i + 1, line, col + 1);
        } else if c == '\n' {
            lemma_lex_wf(s, i + 1, line + 1, 1);
        } else if c == '#' {
            let e = line_end(s, i);
            lemma_scan_bounds(s, i);
            if e > i {
                lemma_lex_wf(s, e, line, col + (e - i));
            }
        } else if is_word_start(c) {
            let e = word_end(s, i);
            lemma_scan_bounds(s, i);
            if e > i {
                lemma_lex_wf(s, e, line, col + (e - i));
                lemma_cons_wf(
                    TokV { kind: TokKindV::Word(s.subrange(i, e)), line: line, col: col },
                    spec_lex(s, e, line, col + (e - i)),
                );
            }
        } else if c == '$' {
            let e = var_end(s, i + 1);
            lemma_scan_bounds(s, i + 1);
            lemma_lex_wf(s, e, line, col + (e - i));
            assert(s.subrange(i, e).len() >= 1);
            lemma_cons_wf(
                TokV { kind: TokKindV::Var(s.subrange(i, e)), line: line, col: col },
                spec_lex(s, e, line, col + (e - i)),
            );
        } else if is_digit(c) {
            let e = num_end(s, i);
            lemma_num_end_bounds(s, i);
            if e > i {
                lemma_lex_wf(s, e, line, col + (e - i));
                lemma_cons_wf(
                    TokV { kind: TokKindV::Num(s.subrange(i, e)), line: line, col: col },
                    spec_lex(s, e, line, col + (e - i)),
                );
            }
        } else if c == '"' {
            match str_end(s, i + 1) {
                Some(e) => {
                    lemma_scan_bounds(s, i + 1);
                    lemma_lex_wf(s, e, line, col + (e - i));
                    lemma_cons_wf(
                        TokV { kind: TokKindV::Str(s.subrange(i, e)), line: line, col: col },
                        spec_lex(s, e, line, col + (e - i)),
                    );
                },
                None => {},
            }
        } else {
            match punct_kind(c) {
                Some(k) => {
                    lemma_lex_wf(s, i + 1, line, col + 1);
                    lemma_cons_wf(
                        TokV { kind: k, line: line, col: col },
                        spec_lex(s, i + 1, line, col + 1),
                    );
                },
                None => {},
            }
        }
    }
}

/// Prepending a well-formed token keeps a tokenization well formed.
proof fn lemma_cons_wf(t: TokV, rest: Result<Seq<TokV>, (int, int)>)
    requires
        t.line >= 1,
        t.col >= 1,
        t.kind matches TokKindV::Var(x) ==> x.len() >= 1,
        rest matches Ok(ts) ==> toks_wf(ts),
    ensures
        lex_cons(t, rest) matches Ok(ts2) ==> toks_wf(ts2),
{
    match rest {
        Ok(ts) => {
            let ts2 = seq![t] + ts;
            assert forall|i: int|
                0 <= i < ts2.len() implies ((#[trigger] ts2[i]).line >= 1 && ts2[i].col >= 1 && (
            ts2[i].kind matches TokKindV::Var(x) ==> x.len() >= 1)) by {
                if i > 0 {
                    assert(ts2[i] == ts[i - 1]);
                }
            }
        },
        Err(_) => {},
    }
}

/// The punctuation token for `c`, if `c` is punctuation.
pub open spec fn punct_kind(c: char) -> Option<TokKindV> {
    if c == '{' {
        Some(TokKindV::LBrace)
    } else if c == '}' {
        Some(TokKindV::RBrace)
    } else if c == '(' {
        Some(TokKindV::LParen)
    } else if c == ')' {
        Some(TokKindV::RParen)
    } else if c == '|' {
        Some(TokKindV::Pipe)
    } else if c == ';' {
        Some(TokKindV::Semi)
    } else if c == ':' {
        Some(TokKindV::Colon)
    } else if c == '@' {
        Some(TokKindV::At)
    } else if c == '+' {
        Some(TokKindV::Plus)
    } else if c == '-' {
        Some(TokKindV::Minus)
    } else if c == '*' {
        Some(TokKindV::Star)
    } else if c == '/' {
        Some(TokKindV::Slash)
    } else {
        None
    }
}

} // verus!
