use vstd::prelude::*;
use crate::errors::LexerError;
use crate::object::FloatArith;
use crate::text::{chars_of, string_of};
use crate::token::{pos_le, pos_lt, Position, Token, TokenLiteral, TokenType, Tokens};

verus! {

/// Unicode white space, as `char::is_whitespace` knows it.
pub open spec fn is_blank(c: char) -> bool {
    c == ' ' || ('\t' <= c && c <= '\r') || c == '\u{85}' || c == '\u{a0}' || c == '\u{1680}'
        || ('\u{2000}' <= c && c <= '\u{200a}') || c == '\u{2028}' || c == '\u{2029}'
        || c == '\u{202f}' || c == '\u{205f}' || c == '\u{3000}'
}

/// A character that starts an operator, a punctuation mark or a statement end.
pub open spec fn is_lead(c: char) -> bool {
    c == ',' || c == '(' || c == ')' || c == '{' || c == '}' || c == '[' || c == ']' || c == '+'
        || c == '-' || c == '*' || c == '/' || c == '%' || c == '^' || c == '=' || c == '<'
        || c == '>' || c == '!' || c == '&' || c == '|' || c == ';'
}

/// A character that can stand in an identifier or number word.
pub open spec fn is_word_char(c: char) -> bool {
    !is_blank(c) && !is_lead(c) && c != '#' && c != '\n'
}

pub fn is_whitespace(c: char) -> (r: bool)
    ensures
        r == is_blank(c),
{
    c == ' ' || ('\t' <= c && c <= '\r') || c == '\u{85}' || c == '\u{a0}' || c == '\u{1680}'
        || ('\u{2000}' <= c && c <= '\u{200a}') || c == '\u{2028}' || c == '\u{2029}'
        || c == '\u{202f}' || c == '\u{205f}' || c == '\u{3000}'
}

pub fn is_operator_lead(c: char) -> (r: bool)
    ensures
        r == is_lead(c),
{
    c == ',' || c == '(' || c == ')' || c == '{' || c == '}' || c == '[' || c == ']' || c == '+'
        || c == '-' || c == '*' || c == '/' || c == '%' || c == '^' || c == '=' || c == '<'
        || c == '>' || c == '!' || c == '&' || c == '|' || c == ';'
}

pub fn is_comment(c: char) -> (r: bool)
    ensures
        r == (c == '#'),
{
    c == '#'
}

/// The token stream so far is well formed up to the place `here`: each token
/// spans forward, tokens follow one another in the text, none is an end of
/// file, no two statement ends stand side by side, and none leads the stream.
pub open spec fn stream_ok(ts: Seq<Token>, here: Position) -> bool {
    &&& ordered_stream(ts, here)
    &&& ts.len() > 0 ==> ts[0].token_type != TokenType::EndOfLine
}

/// Each token spans forward, tokens follow one another and end by `here`,
/// none is an end of file, and no two statement ends stand side by side.
pub open spec fn ordered_stream(ts: Seq<Token>, here: Position) -> bool {
    &&& forall|i: int| 0 <= i < ts.len() ==> pos_le(#[trigger] ts[i].start, ts[i].end)
    &&& forall|i: int| #![trigger ts[i], ts[i + 1]] 0 <= i < ts.len() - 1 ==> pos_le(ts[i].end, ts[i + 1].start)
    &&& forall|i: int| 0 <= i < ts.len() ==> (#[trigger] ts[i]).token_type != TokenType::EndOfFile
    &&& forall|i: int|
        #![trigger ts[i], ts[i + 1]]
        0 <= i < ts.len() - 1 ==> !(ts[i].token_type == TokenType::EndOfLine
            && ts[i + 1].token_type == TokenType::EndOfLine)
    &&& ts.len() > 0 ==> pos_le(ts.last().end, here)
}

/// Appending a token that starts no earlier than the stream ends keeps each
/// token spanning forward, tokens following one another, no two statement
/// ends side by side, and no end of file before `t`.
proof fn lemma_push_ordered(ts: Seq<Token>, t: Token, here: Position)
    requires
        ordered_stream(ts, t.start),
        pos_le(t.start, t.end),
        pos_le(t.end, here),
        !(ts.len() > 0 && ts.last().token_type == TokenType::EndOfLine && t.token_type == TokenType::EndOfLine),
    ensures
        ({
            let s = ts.push(t);
            &&& forall|i: int| 0 <= i < s.len() ==> pos_le(#[trigger] s[i].start, s[i].end)
            &&& forall|i: int| #![trigger s[i], s[i + 1]] 0 <= i < s.len() - 1 ==> pos_le(s[i].end, s[i + 1].start)
            &&& forall|i: int| 0 <= i < s.len() - 1 ==> (#[trigger] s[i]).token_type != TokenType::EndOfFile
            &&& forall|i: int|
                #![trigger s[i], s[i + 1]]
                0 <= i < s.len() - 1 ==> !(s[i].token_type == TokenType::EndOfLine
                    && s[i + 1].token_type == TokenType::EndOfLine)
            &&& pos_le(s.last().end, here)
        }),
{
    let s = ts.push(t);
    assert forall|i: int| #![trigger s[i], s[i + 1]] 0 <= i < s.len() - 1 implies pos_le(s[i].end, s[i + 1].start)
        && !(s[i].token_type == TokenType::EndOfLine && s[i + 1].token_type == TokenType::EndOfLine) by {
        if i < ts.len() - 1 {
            assert(s[i] == ts[i] && s[i + 1] == ts[i + 1]);
        } else {
            assert(s[i] == ts.last() && s[i + 1] == t);
        }
    }
    assert forall|i: int| 0 <= i < s.len() implies pos_le(#[trigger] s[i].start, s[i].end) by {
        if i < ts.len() {
            assert(s[i] == ts[i]);
        }
    }
    assert forall|i: int| 0 <= i < s.len() - 1 implies (#[trigger] s[i]).token_type != TokenType::EndOfFile by {
        assert(s[i] == ts[i]);
    }
}

proof fn lemma_stream_push(ts: Seq<Token>, t: Token, here: Position)
    requires
        stream_ok(ts, t.start),
        pos_le(t.start, t.end),
        pos_le(t.end, here),
        t.token_type != TokenType::EndOfFile,
        t.token_type == TokenType::EndOfLine ==> ts.len() > 0 && ts.last().token_type != TokenType::EndOfLine,
    ensures
        stream_ok(ts.push(t), here),
{
    lemma_push_ordered(ts, t, here);
    let s = ts.push(t);
    assert(s[s.len() - 1] == t);
}

/// What `tokenize` hands back: every token spans forward and the tokens follow
/// one another in the text; the stream ends in one statement end followed by
/// the end of file, which stands nowhere else; no two statement ends stand
/// side by side.
pub open spec fn token_stream_ok(ts: Seq<Token>) -> bool {
    &&& ts.len() >= 2
    &&& ts.last().token_type == TokenType::EndOfFile
    &&& ts[ts.len() - 2].token_type == TokenType::EndOfLine
    &&& forall|i: int| 0 <= i < ts.len() ==> pos_le(#[trigger] ts[i].start, ts[i].end)
    &&& forall|i: int| #![trigger ts[i], ts[i + 1]] 0 <= i < ts.len() - 1 ==> pos_le(ts[i].end, ts[i + 1].start)
    &&& forall|i: int| 0 <= i < ts.len() - 1 ==> (#[trigger] ts[i]).token_type != TokenType::EndOfFile
    &&& forall|i: int|
        #![trigger ts[i], ts[i + 1]]
        0 <= i < ts.len() - 1 ==> !(ts[i].token_type == TokenType::EndOfLine
            && ts[i + 1].token_type == TokenType::EndOfLine)
}


proof fn lemma_stream_finish(ts: Seq<Token>, here: Position)
    requires
        ordered_stream(ts, here),
        ts.len() > 0,
        ts.last().token_type == TokenType::EndOfLine,
    ensures
        token_stream_ok(ts.push(Token { token_type: TokenType::EndOfFile, start: here, end: here, value: None })),
{
    let t = Token { token_type: TokenType::EndOfFile, start: here, end: here, value: None };
    lemma_push_ordered(ts, t, here);
    let s = ts.push(t);
    assert(s[s.len() - 2] == ts.last());
}

/// A statement end at `here`, appended where the stream does not already end in one.
proof fn lemma_stream_close(ts: Seq<Token>, here: Position)
    requires
        stream_ok(ts, here),
        ts.len() == 0 || ts.last().token_type != TokenType::EndOfLine,
    ensures
        ordered_stream(ts.push(Token { token_type: TokenType::EndOfLine, start: here, end: here, value: None }), here),
{
    let t = Token { token_type: TokenType::EndOfLine, start: here, end: here, value: None };
    lemma_push_ordered(ts, t, here);
    let s = ts.push(t);
    assert(s[s.len() - 1] == t);
}



/// A token's literal as the lexing spec sees it; a float by its kind alone,
/// since its bits come from the host.
pub enum LitView {
    Float,
    Integer(i32),
    Boolean(bool),
    Text(Seq<char>),
}

/// A token as the lexing spec sees it.
pub struct TokView {
    pub kind: TokenType,
    pub start: Position,
    pub end: Position,
    pub lit: Option<LitView>,
}

pub open spec fn lit_view(l: TokenLiteral) -> LitView {
    match l {
        TokenLiteral::Float(_) => LitView::Float,
        TokenLiteral::Integer(v) => LitView::Integer(v),
        TokenLiteral::Boolean(b) => LitView::Boolean(b),
        TokenLiteral::String(s) => LitView::Text(s@),
    }
}

pub open spec fn tok_view(t: Token) -> TokView {
    TokView {
        kind: t.token_type,
        start: t.start,
        end: t.end,
        lit: match t.value {
            Some(l) => Some(lit_view(l)),
            None => None,
        },
    }
}

pub open spec fn toks_view(ts: Seq<Token>) -> Seq<TokView> {
    ts.map_values(|t: Token| tok_view(t))
}

pub open spec fn tv(kind: TokenType, start: Position, end: Position, lit: Option<LitView>) -> TokView {
    TokView { kind, start, end, lit }
}

/// The place after reading `c` at `p`: a newline starts the next line.
pub open spec fn adv(p: Position, c: char) -> Position {
    if c == '\n' {
        Position { line: (p.line + 1) as usize, col: 0 }
    } else {
        Position { line: p.line, col: (p.col + 1) as usize }
    }
}

/// The place after reading `src[i..j]` from `p`.
pub open spec fn pos_after(src: Seq<char>, i: int, j: int, p: Position) -> Position
    decreases j - i,
{
    if i >= j || i < 0 || i >= src.len() {
        p
    } else {
        pos_after(src, i + 1, j, adv(p, src[i]))
    }
}

/// Where a comment that starts before `i` ends: just after the next newline,
/// or at the end of the text; with the place there.
pub open spec fn skip_comment(src: Seq<char>, i: int, p: Position) -> (int, Position)
    decreases src.len() - i,
{
    if i < 0 || i >= src.len() {
        (i, p)
    } else if src[i] == '\n' {
        (i + 1, adv(p, '\n'))
    } else {
        skip_comment(src, i + 1, adv(p, src[i]))
    }
}

/// The end of the word that continues at `i`.
pub open spec fn word_end(src: Seq<char>, i: int) -> int
    decreases src.len() - i,
{
    if i < 0 || i >= src.len() || !is_word_char(src[i]) {
        i
    } else {
        word_end(src, i + 1)
    }
}

proof fn lemma_word_end_bounds(src: Seq<char>, i: int)
    requires
        0 <= i <= src.len(),
    ensures
        i <= word_end(src, i) <= src.len(),
    decreases src.len() - i,
{
    if i < src.len() && is_word_char(src[i]) {
        lemma_word_end_bounds(src, i + 1);
    }
}

/// The operator or punctuation token that starts at `i`, and the index after
/// it; `None` for a `&` or `|` that is not doubled.
pub open spec fn lead_kind(src: Seq<char>, i: int) -> Option<(TokenType, int)> {
    let c = src[i];
    let eq = i + 1 < src.len() && src[i + 1] == '=';
    let pick = |one: TokenType, two: TokenType| if eq { Some((two, i + 2)) } else { Some((one, i + 1)) };
    if c == ',' { Some((TokenType::Comma, i + 1)) }
    else if c == '(' { Some((TokenType::LeftParen, i + 1)) }
    else if c == '{' { Some((TokenType::LeftBrace, i + 1)) }
    else if c == '[' { Some((TokenType::LeftBracket, i + 1)) }
    else if c == ')' { Some((TokenType::RightParen, i + 1)) }
    else if c == '}' { Some((TokenType::RightBrace, i + 1)) }
    else if c == ']' { Some((TokenType::RightBracket, i + 1)) }
    else if c == ';' { Some((TokenType::EndOfLine, i + 1)) }
    else if c == '+' { pick(TokenType::Plus, TokenType::PlusAssign) }
    else if c == '-' { pick(TokenType::Minus, TokenType::MinusAssign) }
    else if c == '*' { pick(TokenType::Multiply, TokenType::MultiplyAssign) }
    else if c == '/' { pick(TokenType::Divide, TokenType::DivideAssign) }
    else if c == '%' { pick(TokenType::Modulo, TokenType::ModuloAssign) }
    else if c == '^' { pick(TokenType::Power, TokenType::PowerAssign) }
    else if c == '=' { pick(TokenType::Assign, TokenType::Equal) }
    else if c == '<' { pick(TokenType::LesserThan, TokenType::LesserThanEqual) }
    else if c == '>' { pick(TokenType::GreaterThan, TokenType::GreaterThanEqual) }
    else if c == '!' { pick(TokenType::Not, TokenType::NotEqual) }
    else if c == '&' {
        if i + 1 < src.len() && src[i + 1] == '&' { Some((TokenType::And, i + 2)) } else { None }
    } else {
        if i + 1 < src.len() && src[i + 1] == '|' { Some((TokenType::Or, i + 2)) } else { None }
    }
}

/// The character with code point `v`, where there is one.
pub open spec fn char_of(v: u32) -> Option<char> {
    if v < 0xD800 || (0xE000 <= v && v <= 0x10FFFF) {
        Some(v as char)
    } else {
        None
    }
}

/// The four hex digits of a `\u` escape from `i` on, `k` of them read so far
/// into `code`.
pub open spec fn hex4(src: Seq<char>, i: int, p: Position, start: Position, k: nat, code: u32) -> Result<(u32, int, Position), LexerError>
    decreases 4 - k,
{
    if k >= 4 {
        Ok((code, i, p))
    } else if i < 0 || i >= src.len() {
        Err(LexerError::InvalidCharacter { character: '"', pos: start })
    } else {
        let p1 = adv(p, src[i]);
        match hex_value(src[i]) {
            None => Err(LexerError::InvalidCharacter { character: 'u', pos: p1 }),
            Some(v) => hex4(src, i + 1, p1, start, k + 1, (code * 16 + v) as u32),
        }
    }
}

/// The characters of a string literal from `i` on, after those in `acc`, up
/// to its closing quote: the text, the index after the quote and the place
/// there. A string that does not close is an error at its opening quote.
pub open spec fn scan_string(src: Seq<char>, i: int, p: Position, start: Position, acc: Seq<char>) -> Result<(Seq<char>, int, Position), LexerError>
    decreases src.len() - i,
{
    if i < 0 || i >= src.len() {
        Err(LexerError::InvalidCharacter { character: '"', pos: start })
    } else {
        let c = src[i];
        let p1 = adv(p, c);
        if c == '"' {
            Ok((acc, i + 1, p1))
        } else if c != '\\' {
            scan_string(src, i + 1, p1, start, acc.push(c))
        } else if i + 1 >= src.len() {
            Err(LexerError::InvalidCharacter { character: '"', pos: start })
        } else {
            let e = src[i + 1];
            let p2 = adv(p1, e);
            if e == 'b' {
                scan_string(src, i + 2, p2, start, acc.push('\u{8}'))
            } else if e == 'f' {
                scan_string(src, i + 2, p2, start, acc.push('\u{c}'))
            } else if e == 'n' {
                scan_string(src, i + 2, p2, start, acc.push('\n'))
            } else if e == 't' {
                scan_string(src, i + 2, p2, start, acc.push('\t'))
            } else if e == 'r' {
                scan_string(src, i + 2, p2, start, acc.push('\r'))
            } else if e == 'u' {
                match hex4(src, i + 2, p2, start, 0, 0) {
                    Err(x) => Err(x),
                    Ok((code, j, pj)) => match char_of(code) {
                        None => Err(LexerError::InvalidCharacter { character: 'u', pos: pj }),
                        Some(ch) => if i < j <= src.len() {
                            scan_string(src, j, pj, start, acc.push(ch))
                        } else {
                            Err(LexerError::InvalidCharacter { character: 'u', pos: pj })
                        },
                    },
                }
            } else {
                scan_string(src, i + 2, p2, start, acc.push(e))
            }
        }
    }
}

/// The token a word makes: an integer, a float, a literal word, a keyword or
/// an identifier.
pub open spec fn word_token(w: Seq<char>, start: Position, end: Position) -> TokView {
    match word_integer(w) {
        Some(v) => tv(TokenType::Integer, start, end, Some(LitView::Integer(v))),
        None => if float_text(without_underscores(w)) {
            tv(TokenType::Float, start, end, Some(LitView::Float))
        } else {
            let k = word_kind(w);
            tv(k, start, end, if k == TokenType::Boolean {
                Some(LitView::Boolean(w == "true"@))
            } else if k == TokenType::Symbol {
                Some(LitView::Text(w))
            } else {
                None
            })
        },
    }
}

/// Appends a token, except a statement end that would lead the stream or
/// follow another.
pub open spec fn push_tok(out: Seq<TokView>, t: TokView) -> Seq<TokView> {
    if t.kind == TokenType::EndOfLine && (out.len() == 0 || out.last().kind == TokenType::EndOfLine) {
        out
    } else {
        out.push(t)
    }
}

/// Closes the stream at `p`: a statement end where there is none, then the
/// end of file.
pub open spec fn finish(out: Seq<TokView>, p: Position) -> Seq<TokView> {
    let closed = if out.len() == 0 || out.last().kind != TokenType::EndOfLine {
        out.push(tv(TokenType::EndOfLine, p, p, None))
    } else {
        out
    };
    closed.push(tv(TokenType::EndOfFile, p, p, None))
}

/// The tokens of `src` from index `i` on, read from place `p`, after those
/// already in `out`; or the first error. (Each step reads at least one
/// character; the `i < j` tests only keep the definition well founded.)
pub open spec fn lex(src: Seq<char>, i: int, p: Position, out: Seq<TokView>) -> Result<Seq<TokView>, LexerError>
    decreases src.len() - i,
{
    if i < 0 || i >= src.len() {
        Ok(finish(out, p))
    } else {
        let c = src[i];
        let p1 = adv(p, c);
        if c == '\n' || c == ';' {
            lex(src, i + 1, p1, push_tok(out, tv(TokenType::EndOfLine, p, p1, None)))
        } else if is_blank(c) {
            lex(src, i + 1, p1, out)
        } else if c == '#' {
            let (j, pj) = skip_comment(src, i + 1, p1);
            if i < j <= src.len() {
                lex(src, j, pj, push_tok(out, tv(TokenType::EndOfLine, p, pj, None)))
            } else {
                Ok(out)
            }
        } else if c == '"' {
            match scan_string(src, i + 1, p1, p, Seq::empty()) {
                Err(e) => Err(e),
                Ok((text, j, pj)) => if i < j <= src.len() {
                    lex(src, j, pj, push_tok(out, tv(TokenType::String, p, pj, Some(LitView::Text(text)))))
                } else {
                    Ok(out)
                },
            }
        } else if is_lead(c) {
            match lead_kind(src, i) {
                None => Err(LexerError::InvalidCharacter { character: c, pos: p }),
                Some((k, j)) => {
                    let pj = if j == i + 2 { adv(p1, src[i + 1]) } else { p1 };
                    if i < j <= src.len() {
                        lex(src, j, pj, push_tok(out, tv(k, p, pj, None)))
                    } else {
                        Ok(out)
                    }
                },
            }
        } else {
            let j = word_end(src, i + 1);
            let pj = pos_after(src, i + 1, j, p1);
            if i < j <= src.len() {
                lex(src, j, pj, push_tok(out, word_token(src.subrange(i, j), p, pj)))
            } else {
                Ok(out)
            }
        }
    }
}

/// Appends `t`, except a statement end that would follow another one or lead
/// the stream.
fn emit(tokens: &mut Tokens, t: Token, Ghost(here): Ghost<Position>)
    requires
        stream_ok(old(tokens)@, t.start),
        pos_le(t.start, t.end),
        pos_le(t.end, here),
        t.token_type != TokenType::EndOfFile,
    ensures
        stream_ok(final(tokens)@, here),
        toks_view(final(tokens)@) == push_tok(toks_view(old(tokens)@), tok_view(t)),
{
    if t.token_type == TokenType::EndOfLine {
        let n = tokens.len();
        if n == 0 || tokens[n - 1].token_type == TokenType::EndOfLine {
            return;
        }
    }
    proof {
        lemma_stream_push(tokens@, t, here);
    }
    let ghost before = tokens@;
    tokens.push(t);
    assert(toks_view(tokens@) =~= toks_view(before).push(tok_view(t)));
}

/// Relies on `char::from_u32`: the character with code point `v`, where there
/// is one.
#[verifier::external_body]
fn char_from_code(v: u32) -> (r: Option<char>)
    ensures
        r == char_of(v),
{
    char::from_u32(v)
}

/// The value of a hexadecimal digit.
pub open spec fn hex_value(c: char) -> Option<u32> {
    if '0' <= c && c <= '9' {
        Some((c as u32 - '0' as u32) as u32)
    } else if 'a' <= c && c <= 'f' {
        Some((c as u32 - 'a' as u32 + 10) as u32)
    } else if 'A' <= c && c <= 'F' {
        Some((c as u32 - 'A' as u32 + 10) as u32)
    } else {
        None
    }
}

fn hex_digit(c: char) -> (r: Option<u32>)
    ensures
        r == hex_value(c),
{
    if '0' <= c && c <= '9' {
        Some(c as u32 - '0' as u32)
    } else if 'a' <= c && c <= 'f' {
        Some(c as u32 - 'a' as u32 + 10)
    } else if 'A' <= c && c <= 'F' {
        Some(c as u32 - 'A' as u32 + 10)
    } else {
        None
    }
}

/// The word with its underscores taken out.
pub open spec fn without_underscores(w: Seq<char>) -> Seq<char>
    decreases w.len(),
{
    if w.len() == 0 {
        w
    } else if w.last() == '_' {
        without_underscores(w.drop_last())
    } else {
        without_underscores(w.drop_last()).push(w.last())
    }
}

/// The characters are all ASCII digits.
pub open spec fn all_digits(w: Seq<char>) -> bool {
    forall|i: int| 0 <= i < w.len() ==> '0' <= #[trigger] w[i] && w[i] <= '9'
}

/// The number that a run of ASCII digits spells.
pub open spec fn digits_value(w: Seq<char>) -> int
    decreases w.len(),
{
    if w.len() == 0 {
        0
    } else {
        digits_value(w.drop_last()) * 10 + (w.last() as int - '0' as int)
    }
}

/// The 32-bit integer that a word spells, where it spells one: digits, with
/// underscores allowed anywhere, of a value that fits.
pub open spec fn word_integer(w: Seq<char>) -> Option<i32> {
    let d = without_underscores(w);
    if d.len() > 0 && all_digits(d) && digits_value(d) <= i32::MAX as int {
        Some(digits_value(d) as i32)
    } else {
        None
    }
}

proof fn lemma_digits_value_nonneg(w: Seq<char>)
    requires
        all_digits(w),
    ensures
        digits_value(w) >= 0,
    decreases w.len(),
{
    if w.len() > 0 {
        assert(all_digits(w.drop_last())) by {
            assert forall|i: int| 0 <= i < w.drop_last().len() implies '0' <= #[trigger] w.drop_last()[i]
                && w.drop_last()[i] <= '9' by {
                assert(w.drop_last()[i] == w[i]);
            }
        }
        lemma_digits_value_nonneg(w.drop_last());
    }
}

/// Takes the underscores out of a word.
fn strip_underscores(w: &Vec<char>) -> (r: Vec<char>)
    ensures
        r@ == without_underscores(w@),
{
    let mut out: Vec<char> = Vec::new();
    let mut i: usize = 0;
    while i < w.len()
        invariant
            i <= w@.len(),
            out@ == without_underscores(w@.subrange(0, i as int)),
        decreases w@.len() - i,
    {
        assert(w@.subrange(0, i + 1).drop_last() =~= w@.subrange(0, i as int));
        if w[i] != '_' {
            out.push(w[i]);
        }
        i = i + 1;
    }
    assert(w@.subrange(0, i as int) =~= w@);
    out
}

/// The 32-bit integer that a word spells.
pub fn parse_word_integer(w: &Vec<char>) -> (r: Option<i32>)
    ensures
        r == word_integer(w@),
{
    let d = strip_underscores(w);
    if d.len() == 0 {
        return None;
    }
    let mut value: u64 = 0;
    let mut i: usize = 0;
    while i < d.len()
        invariant
            i <= d@.len(),
            d@ == without_underscores(w@),
            d@.len() > 0,
            all_digits(d@.subrange(0, i as int)),
            value as int == digits_value(d@.subrange(0, i as int)),
            value <= i32::MAX,
        decreases d@.len() - i,
    {
        let c = d[i];
        assert(d@.subrange(0, i + 1).drop_last() =~= d@.subrange(0, i as int));
        if c < '0' || c > '9' {
            assert(!all_digits(d@)) by {
                assert(d@[i as int] == c);
            }
            return None;
        }
        let next = value * 10 + (c as u64 - '0' as u64);
        assert(all_digits(d@.subrange(0, i + 1))) by {
            assert forall|k: int| 0 <= k < i + 1 implies '0' <= #[trigger] d@.subrange(0, i + 1)[k]
                && d@.subrange(0, i + 1)[k] <= '9' by {
                if k < i {
                    assert(d@.subrange(0, i + 1)[k] == d@.subrange(0, i as int)[k]);
                }
            }
        }
        if next > i32::MAX as u64 {
            proof {
                if all_digits(d@) {
                    lemma_prefix_value_grows(d@, i as int + 1);
                }
            }
            return None;
        }
        value = next;
        i = i + 1;
    }
    assert(d@.subrange(0, i as int) =~= d@);
    Some(value as i32)
}

/// The value of a run of digits is at least that of any of its prefixes.
pub proof fn lemma_prefix_value_grows(d: Seq<char>, k: int)
    requires
        0 <= k <= d.len(),
        all_digits(d),
    ensures
        digits_value(d) >= digits_value(d.subrange(0, k)),
    decreases d.len(),
{
    if k < d.len() {
        assert(d.drop_last() =~= d.subrange(0, d.len() - 1));
        assert(all_digits(d.drop_last())) by {
            assert forall|i: int| 0 <= i < d.drop_last().len() implies '0' <= #[trigger] d.drop_last()[i]
                && d.drop_last()[i] <= '9' by {
                assert(d.drop_last()[i] == d[i]);
            }
        }
        lemma_prefix_value_grows(d.drop_last(), k);
        assert(d.drop_last().subrange(0, k) =~= d.subrange(0, k));
        lemma_digits_value_nonneg(d.drop_last());
    } else {
        assert(d.subrange(0, k) =~= d);
    }
}


pub open spec fn is_digit(c: char) -> bool {
    '0' <= c && c <= '9'
}

/// `c` is `l`, or its upper-case form where `l` is a lower-case ASCII letter.
pub open spec fn same_letter(c: char, l: char) -> bool {
    c == l || ('a' <= l && l <= 'z' && (c as u32) + 32 == l as u32)
}

/// The first index from `i` on that holds no ASCII digit.
pub open spec fn digits_end(t: Seq<char>, i: int) -> int
    decreases t.len() - i,
{
    if i < 0 || i >= t.len() || !is_digit(t[i]) {
        i
    } else {
        digits_end(t, i + 1)
    }
}

/// From index `i` on, `t` is empty or an exponent: `e` or `E`, an optional
/// sign, and at least one digit.
pub open spec fn exponent_ok(t: Seq<char>, i: int) -> bool {
    i == t.len() || (0 <= i < t.len() && same_letter(t[i], 'e') && {
        let j = if i + 1 < t.len() && (t[i + 1] == '+' || t[i + 1] == '-') { i + 2 } else { i + 1 };
        digits_end(t, j) > j && digits_end(t, j) == t.len()
    })
}

/// From index `i` on, `t` is a decimal number: digits with an optional
/// fraction (at least one digit on either side of the point), then an
/// optional exponent.
pub open spec fn number_ok(t: Seq<char>, i: int) -> bool {
    let a = digits_end(t, i);
    if a < t.len() && t[a] == '.' {
        let b = digits_end(t, a + 1);
        (a > i || b > a + 1) && exponent_ok(t, b)
    } else {
        a > i && exponent_ok(t, a)
    }
}

/// From index `i` on, `t` spells `w` with letters in either case.
pub open spec fn spells(t: Seq<char>, i: int, w: Seq<char>) -> bool {
    t.len() - i == w.len() && forall|k: int| 0 <= k < w.len() ==> same_letter(#[trigger] t[i + k], w[k])
}

/// The text reads as a float, by the grammar that `f32`'s parser documents:
/// an optional sign, then `inf`, `infinity` or `nan` in any case, or a
/// decimal number.
pub open spec fn float_text(t: Seq<char>) -> bool {
    let i = if t.len() > 0 && (t[0] == '+' || t[0] == '-') { 1int } else { 0int };
    spells(t, i, "inf"@) || spells(t, i, "infinity"@) || spells(t, i, "nan"@) || number_ok(t, i)
}

fn digits_from(t: &Vec<char>, i: usize) -> (r: usize)
    requires
        i <= t@.len(),
    ensures
        r == digits_end(t@, i as int),
        i <= r <= t@.len(),
{
    let mut j = i;
    while j < t.len() && '0' <= t[j] && t[j] <= '9'
        invariant
            i <= j <= t@.len(),
            digits_end(t@, i as int) == digits_end(t@, j as int),
        decreases t@.len() - j,
    {
        j = j + 1;
    }
    j
}

fn same_letter_exec(c: char, l: char) -> (r: bool)
    ensures
        r == same_letter(c, l),
{
    c == l || ('a' <= l && l <= 'z' && (c as u32) + 32 == l as u32)
}

fn exponent_from(t: &Vec<char>, i: usize) -> (r: bool)
    requires
        i <= t@.len(),
    ensures
        r == exponent_ok(t@, i as int),
{
    if i == t.len() {
        return true;
    }
    if !same_letter_exec(t[i], 'e') {
        return false;
    }
    let j = if i + 1 < t.len() && (t[i + 1] == '+' || t[i + 1] == '-') { i + 2 } else { i + 1 };
    let k = digits_from(t, j);
    k > j && k == t.len()
}

fn spells_exec(t: &Vec<char>, i: usize, w: &str) -> (r: bool)
    requires
        i <= t@.len(),
    ensures
        r == spells(t@, i as int, w@),
{
    let l = chars_of(w);
    let n = t.len();
    if n - i != l.len() {
        return false;
    }
    let mut k: usize = 0;
    while k < l.len()
        invariant
            n == t@.len(),
            l@ == w@,
            i <= t@.len(),
            t@.len() - i == l@.len(),
            k <= l@.len(),
            forall|m: int| 0 <= m < k ==> same_letter(#[trigger] t@[i + m], l@[m]),
        decreases l@.len() - k,
    {
        if !same_letter_exec(t[i + k], l[k]) {
            return false;
        }
        k = k + 1;
    }
    true
}

/// Whether the text reads as a float.
pub fn is_float_text(t: &Vec<char>) -> (r: bool)
    ensures
        r == float_text(t@),
{
    let i: usize = if t.len() > 0 && (t[0] == '+' || t[0] == '-') { 1 } else { 0 };
    if spells_exec(t, i, "inf") || spells_exec(t, i, "infinity") || spells_exec(t, i, "nan") {
        return true;
    }
    let a = digits_from(t, i);
    if a < t.len() && t[a] == '.' {
        let b = digits_from(t, a + 1);
        (a > i || b > a + 1) && exponent_from(t, b)
    } else {
        a > i && exponent_from(t, a)
    }
}

/// Whether the characters of `w` are those of `lit`.
fn word_is(w: &Vec<char>, lit: &str) -> (r: bool)
    ensures
        r == (w@ == lit@),
{
    let l = chars_of(lit);
    if w.len() != l.len() {
        return false;
    }
    let mut i: usize = 0;
    while i < w.len()
        invariant
            i <= w@.len(),
            w@.len() == l@.len(),
            l@ == lit@,
            w@.subrange(0, i as int) == l@.subrange(0, i as int),
        decreases w@.len() - i,
    {
        if w[i] != l[i] {
            assert(w@[i as int] != l@[i as int]);
            return false;
        }
        assert(w@.subrange(0, i + 1) =~= w@.subrange(0, i as int).push(w@[i as int]));
        assert(l@.subrange(0, i + 1) =~= l@.subrange(0, i as int).push(l@[i as int]));
        i = i + 1;
    }
    assert(w@ =~= w@.subrange(0, i as int));
    assert(l@ =~= l@.subrange(0, i as int));
    true
}

/// The kind of token that a word stands for, after numbers: a literal word,
/// a keyword, or an identifier.
pub open spec fn word_kind(w: Seq<char>) -> TokenType {
    if w == "true"@ || w == "false"@ {
        TokenType::Boolean
    } else if w == "null"@ {
        TokenType::Null
    } else if w == "if"@ {
        TokenType::If
    } else if w == "elif"@ {
        TokenType::ElIf
    } else if w == "else"@ {
        TokenType::Else
    } else if w == "while"@ {
        TokenType::While
    } else if w == "for"@ {
        TokenType::For
    } else if w == "return"@ {
        TokenType::Return
    } else if w == "break"@ {
        TokenType::Break
    } else if w == "continue"@ {
        TokenType::Continue
    } else {
        TokenType::Symbol
    }
}

/// Classifies a word that is not a number.
pub fn keyword_token(w: &Vec<char>) -> (r: (TokenType, Option<TokenLiteral>))
    ensures
        r.0 == word_kind(w@),
        r.0 == TokenType::Boolean ==> r.1 == Some(TokenLiteral::Boolean(w@ == "true"@)),
        r.0 == TokenType::Symbol ==> r.1 is Some && r.1->0 is String && r.1->0->String_0@ == w@,
        r.0 != TokenType::Boolean && r.0 != TokenType::Symbol ==> r.1 is None,
{
    if word_is(w, "true") {
        (TokenType::Boolean, Some(TokenLiteral::Boolean(true)))
    } else if word_is(w, "false") {
        (TokenType::Boolean, Some(TokenLiteral::Boolean(false)))
    } else if word_is(w, "null") {
        (TokenType::Null, None)
    } else if word_is(w, "if") {
        (TokenType::If, None)
    } else if word_is(w, "elif") {
        (TokenType::ElIf, None)
    } else if word_is(w, "else") {
        (TokenType::Else, None)
    } else if word_is(w, "while") {
        (TokenType::While, None)
    } else if word_is(w, "for") {
        (TokenType::For, None)
    } else if word_is(w, "return") {
        (TokenType::Return, None)
    } else if word_is(w, "break") {
        (TokenType::Break, None)
    } else if word_is(w, "continue") {
        (TokenType::Continue, None)
    } else {
        (TokenType::Symbol, Some(TokenLiteral::String(string_of(w))))
    }
}

/// Turns source text into tokens, keeping the line and column of each.
pub struct Lexer {
    chars: Vec<char>,
    index: usize,
    line: usize,
    col: usize,
}

impl Lexer {
    pub closed spec fn wf(&self) -> bool {
        &&& self.chars@.len() < usize::MAX
        &&& self.index <= self.chars@.len()
        &&& 1 <= self.line <= self.index + 1
        &&& self.col <= self.index
    }

    pub closed spec fn here(&self) -> Position {
        Position { line: self.line, col: self.col }
    }

    pub closed spec fn source(&self) -> Seq<char> {
        self.chars@
    }

    pub closed spec fn consumed(&self) -> int {
        self.index as int
    }

    pub fn from(input: &str) -> (r: Lexer)
        requires
            input@.len() < usize::MAX,
        ensures
            r.wf(),
            r.source() == input@,
            r.consumed() == 0,
            r.here() == (Position { line: 1, col: 0 }),
    {
        Lexer { chars: chars_of(input), index: 0, line: 1, col: 0 }
    }

    fn get_pos(&self) -> (r: Position)
        ensures
            r == self.here(),
    {
        Position::from(self.line, self.col)
    }

    fn peek(&self) -> (r: Option<char>)
        requires
            self.wf(),
        ensures
            self.index < self.chars@.len() ==> r == Some(self.chars@[self.index as int]),
            self.index >= self.chars@.len() ==> r is None,
    {
        if self.index < self.chars.len() {
            Some(self.chars[self.index])
        } else {
            None
        }
    }

    /// Consumes one character: a newline moves to the next line.
    fn advance(&mut self) -> (c: char)
        requires
            old(self).wf(),
            old(self).index < old(self).chars@.len(),
        ensures
            final(self).wf(),
            final(self).chars == old(self).chars,
            final(self).index == old(self).index + 1,
            c == old(self).chars@[old(self).index as int],
            pos_lt(old(self).here(), final(self).here()),
            final(self).here() == adv(old(self).here(), c),
    {
        let c = self.chars[self.index];
        self.index = self.index + 1;
        if c == '\n' {
            self.line = self.line + 1;
            self.col = 0;
        } else {
            self.col = self.col + 1;
        }
        c
    }

    /// Consumes the next character where it is `c`.
    fn accept(&mut self, c: char) -> (r: bool)
        requires
            old(self).wf(),
        ensures
            final(self).wf(),
            final(self).chars == old(self).chars,
            r == (old(self).index < old(self).chars@.len() && old(self).chars@[old(self).index as int] == c),
            r ==> final(self).index == old(self).index + 1 && pos_lt(old(self).here(), final(self).here())
                && final(self).here() == adv(old(self).here(), c),
            !r ==> *final(self) == *old(self),
    {
        match self.peek() {
            Some(n) => if n == c {
                self.advance();
                true
            } else {
                false
            },
            None => false,
        }
    }

    /// The operator or punctuation token that starts with `c`, which has just
    /// been consumed; a second `=` (or `&`, `|`) is taken where it follows.
    fn match_char(&mut self, c: char) -> (r: Option<TokenType>)
        requires
            old(self).wf(),
            is_lead(c),
            old(self).index >= 1,
            old(self).chars@[old(self).index - 1] == c,
        ensures
            final(self).wf(),
            final(self).chars == old(self).chars,
            final(self).index >= old(self).index,
            pos_le(old(self).here(), final(self).here()),
            r is None <==> ((c == '&' || c == '|') && final(self).index == old(self).index),
            r matches Some(t) ==> t != TokenType::EndOfFile,
            match lead_kind(old(self).chars@, old(self).index - 1) {
                None => r is None && *final(self) == *old(self),
                Some((k, j)) => r == Some(k) && final(self).index == j && final(self).here() == (
                    if j == old(self).index + 1 {
                        adv(old(self).here(), old(self).chars@[old(self).index as int])
                    } else {
                        old(self).here()
                    }),
            },
    {
        let t = match c {
            ',' => TokenType::Comma,
            '(' => TokenType::LeftParen,
            '{' => TokenType::LeftBrace,
            '[' => TokenType::LeftBracket,
            ')' => TokenType::RightParen,
            '}' => TokenType::RightBrace,
            ']' => TokenType::RightBracket,
            ';' => TokenType::EndOfLine,
            '+' => if self.accept('=') { TokenType::PlusAssign } else { TokenType::Plus },
            '-' => if self.accept('=') { TokenType::MinusAssign } else { TokenType::Minus },
            '*' => if self.accept('=') { TokenType::MultiplyAssign } else { TokenType::Multiply },
            '/' => if self.accept('=') { TokenType::DivideAssign } else { TokenType::Divide },
            '%' => if self.accept('=') { TokenType::ModuloAssign } else { TokenType::Modulo },
            '^' => if self.accept('=') { TokenType::PowerAssign } else { TokenType::Power },
            '=' => if self.accept('=') { TokenType::Equal } else { TokenType::Assign },
            '<' => if self.accept('=') { TokenType::LesserThanEqual } else { TokenType::LesserThan },
            '>' => if self.accept('=') { TokenType::GreaterThanEqual } else { TokenType::GreaterThan },
            '!' => if self.accept('=') { TokenType::NotEqual } else { TokenType::Not },
            '&' => if self.accept('&') { TokenType::And } else { return None },
            _ => if self.accept('|') { TokenType::Or } else { return None },
        };
        Some(t)
    }

    /// Turns the rest of the source into tokens. Where it succeeds, the tokens
    /// are those that `lex` gives from the current place (floats by their
    /// kind; their bits come from `F`), and the stream ends in one statement
    /// end and the end of file; newlines and `;` become statement ends, of
    /// which no two stand side by side and none leads the stream. Where it
    /// fails, the error is the one `lex` gives.
    pub fn tokenize<F: FloatArith>(&mut self) -> (r: Result<Tokens, LexerError>)
        requires
            old(self).wf(),
        ensures
            r matches Ok(ts) ==> token_stream_ok(ts@),
            match lex(old(self).source(), old(self).consumed(), old(self).here(), Seq::empty()) {
                Ok(vs) => r is Ok && toks_view(r->Ok_0@) == vs,
                Err(e) => r == Err::<Tokens, LexerError>(e),
            },
    {
        let mut tokens: Tokens = Vec::new();
        let ghost src = self.chars@;
        let ghost whole = lex(src, self.index as int, self.here(), Seq::empty());
        assert(toks_view(tokens@) =~= Seq::<TokView>::empty());
        while self.index < self.chars.len()
            invariant
                self.wf(),
                self.chars == old(self).chars,
                src == self.chars@,
                stream_ok(tokens@, self.here()),
                whole == lex(old(self).chars@, old(self).index as int, old(self).here(), Seq::empty()),
                whole == lex(src, self.index as int, self.here(), toks_view(tokens@)),
            decreases self.chars@.len() - self.index,
        {
            let start = self.get_pos();
            let ghost first = self.index;
            let c = self.advance();
            let ghost p1 = self.here();
            if c == '\n' || c == ';' {
                emit(&mut tokens, Token::from_pos(TokenType::EndOfLine, start, self.get_pos()), Ghost(self.here()));
            } else if is_whitespace(c) {
            } else if is_comment(c) {
                while self.index < self.chars.len() && self.chars[self.index] != '\n'
                    invariant
                        self.wf(),
                        self.chars == old(self).chars,
                        src == self.chars@,
                        stream_ok(tokens@, start),
                        pos_lt(start, self.here()),
                        self.index > first,
                        skip_comment(src, first + 1, p1) == skip_comment(src, self.index as int, self.here()),
                    decreases self.chars@.len() - self.index,
                {
                    self.advance();
                }
                if self.index < self.chars.len() {
                    self.advance();
                }
                emit(&mut tokens, Token::from_pos(TokenType::EndOfLine, start, self.get_pos()), Ghost(self.here()));
            } else if c == '"' {
                let text = self.parse_string(start)?;
                emit(
                    &mut tokens,
                    Token::from_value_pos(TokenType::String, start, self.get_pos(), Some(TokenLiteral::String(text))),
                    Ghost(self.here()),
                );
            } else if is_operator_lead(c) {
                match self.match_char(c) {
                    Some(t) => {
                        emit(&mut tokens, Token::from_pos(t, start, self.get_pos()), Ghost(self.here()));
                    },
                    None => {
                        return Err(LexerError::InvalidCharacter { character: c, pos: start });
                    },
                }
            } else {
                let mut word: Vec<char> = Vec::new();
                word.push(c);
                let ghost last = word_end(src, first + 1);
                proof {
                    lemma_word_end_bounds(src, first + 1);
                }
                assert(word@ =~= src.subrange(first as int, self.index as int));
                while self.index < self.chars.len() && !is_whitespace(self.chars[self.index])
                    && !is_operator_lead(self.chars[self.index]) && !is_comment(self.chars[self.index])
                    && self.chars[self.index] != '\n'
                    invariant
                        self.wf(),
                        self.chars == old(self).chars,
                        src == self.chars@,
                        stream_ok(tokens@, start),
                        pos_lt(start, self.here()),
                        self.index > first,
                        first + 1 <= self.index <= last,
                        last == word_end(src, self.index as int),
                        pos_after(src, first + 1, last, p1) == pos_after(src, self.index as int, last, self.here()),
                        word@ == src.subrange(first as int, self.index as int),
                    decreases self.chars@.len() - self.index,
                {
                    proof {
                        lemma_word_end_bounds(src, self.index + 1);
                    }
                    let n = self.advance();
                    word.push(n);
                    assert(word@ =~= src.subrange(first as int, self.index as int));
                }
                let end = self.get_pos();
                let token = match parse_word_integer(&word) {
                    Some(v) => Token::from_value_pos(TokenType::Integer, start, end, Some(TokenLiteral::Integer(v))),
                    None => {
                        let digits = strip_underscores(&word);
                        if is_float_text(&digits) {
                            let bits = F::parse(string_of(&digits).as_str());
                            Token::from_value_pos(TokenType::Float, start, end, Some(TokenLiteral::Float(bits)))
                        } else {
                            let (kind, value) = keyword_token(&word);
                            Token::from_value_pos(kind, start, end, value)
                        }
                    },
                };
                emit(&mut tokens, token, Ghost(self.here()));
            }
        }
        let here = self.get_pos();
        let n = tokens.len();
        let ghost before = tokens@;
        if n == 0 || tokens[n - 1].token_type != TokenType::EndOfLine {
            proof {
                lemma_stream_close(tokens@, here);
            }
            tokens.push(Token::from_pos(TokenType::EndOfLine, here, here));
        }
        proof {
            lemma_stream_finish(tokens@, here);
        }
        tokens.push(Token::from_pos(TokenType::EndOfFile, here, here));
        assert(toks_view(tokens@) =~= finish(toks_view(before), here));
        Ok(tokens)
    }

    /// Reads a string literal whose opening quote has just been consumed, up
    /// to its closing quote, resolving escapes.
    fn parse_string(&mut self, start: Position) -> (r: Result<String, LexerError>)
        requires
            old(self).wf(),
        ensures
            final(self).wf(),
            final(self).chars == old(self).chars,
            final(self).index >= old(self).index,
            pos_le(old(self).here(), final(self).here()),
            match scan_string(old(self).chars@, old(self).index as int, old(self).here(), start, Seq::empty()) {
                Ok((text, j, pj)) => r is Ok && r->Ok_0@ == text && final(self).index == j && final(self).here() == pj,
                Err(e) => r == Err::<String, LexerError>(e),
            },
    {
        let mut builder: Vec<char> = Vec::new();
        let ghost whole = scan_string(self.chars@, self.index as int, self.here(), start, builder@);
        assert(builder@ =~= Seq::<char>::empty());
        loop
            invariant
                self.chars@.len() < usize::MAX,
                self.wf(),
                self.chars == old(self).chars,
                self.index >= old(self).index,
                pos_le(old(self).here(), self.here()),
                whole == scan_string(old(self).chars@, old(self).index as int, old(self).here(), start, Seq::empty()),
                whole == scan_string(self.chars@, self.index as int, self.here(), start, builder@),
            decreases self.chars@.len() - self.index,
        {
            if self.index >= self.chars.len() {
                return Err(LexerError::InvalidCharacter { character: '"', pos: start });
            }
            let ghost i0 = self.index as int;
            let ghost p0 = self.here();
            let ghost acc0 = builder@;
            let c = self.advance();
            if c == '"' {
                return Ok(string_of(&builder));
            }
            if c != '\\' {
                builder.push(c);
                continue;
            }
            if self.index >= self.chars.len() {
                return Err(LexerError::InvalidCharacter { character: '"', pos: start });
            }
            let e = self.advance();
            if e == 'b' {
                builder.push('\u{8}');
            } else if e == 'f' {
                builder.push('\u{c}');
            } else if e == 'n' {
                builder.push('\n');
            } else if e == 't' {
                builder.push('\t');
            } else if e == 'r' {
                builder.push('\r');
            } else if e == 'u' {
                let mut code: u32 = 0;
                let mut k: usize = 0;
                let ghost mark = self.index;
                let ghost pmark = self.here();
                let ghost hex = hex4(self.chars@, self.index as int, self.here(), start, 0, 0);
                while k < 4
                    invariant
                        self.chars@.len() < usize::MAX,
                        self.wf(),
                        self.chars == old(self).chars,
                        self.index >= old(self).index,
                        pos_le(old(self).here(), self.here()),
                        self.index >= mark,
                        self.index == mark + k,
                        k <= 4,
                        k == 0 ==> code < 1,
                        k == 1 ==> code < 16,
                        k == 2 ==> code < 256,
                        k == 3 ==> code < 4096,
                        k == 4 ==> code < 65536,
                        hex == hex4(self.chars@, self.index as int, self.here(), start, k as nat, code),
                        hex == hex4(self.chars@, mark as int, pmark, start, 0, 0),
                        whole == scan_string(old(self).chars@, old(self).index as int, old(self).here(), start, Seq::empty()),
                        whole == scan_string(self.chars@, i0, p0, start, acc0),
                        0 <= i0 && i0 + 2 == mark,
                        self.chars@[i0] == '\\',
                        self.chars@[i0 + 1] == 'u',
                        pmark == adv(adv(p0, '\\'), 'u'),
                        builder@ == acc0,
                    decreases 4 - k,
                {
                    if self.index >= self.chars.len() {
                        return Err(LexerError::InvalidCharacter { character: '"', pos: start });
                    }
                    let h = self.advance();
                    match hex_digit(h) {
                        Some(v) => {
                            code = code * 16 + v;
                        },
                        None => {
                            return Err(LexerError::InvalidCharacter { character: 'u', pos: self.get_pos() });
                        },
                    }
                    k = k + 1;
                }
                match char_from_code(code) {
                    Some(ch) => builder.push(ch),
                    None => {
                        return Err(LexerError::InvalidCharacter { character: 'u', pos: self.get_pos() });
                    },
                }
            } else {
                builder.push(e);
            }
        }
    }
}

} // verus!
