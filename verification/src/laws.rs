//! What holds of the lexer and of the parser on every input.

use vstd::prelude::*;
use crate::grammar::{
    closing, comment_end, compound, ends_stream, kept, lemma_closing_bounds, lemma_closing_skip,
    lemma_comment_end_bounds, lemma_kept_plain, lemma_scan_bounds, number_at, number_end, plain,
    punctuation, quote, scan, single, stream, token_at, word_token,
};
use crate::result::ErrorView;
use crate::syntax::{
    after_statement, lemma_shift_weight, lemma_statement_weight, parse, start, step, weight,
    ParserView,
};
use crate::text::{
    blank, char_at, digit, digits, lemma_newlines_none, lemma_newlines_split, lemma_run_end,
    newlines, run_end, word_char, word_chars,
};
use crate::tokens::{reserved_table, reserved_word, LiteralView, TokenKind, TokenView};

verus! {

/// A text of punctuation marks and nothing else.
pub open spec fn punctuation_only(s: Seq<char>) -> bool {
    forall|k: int| 0 <= k < s.len() ==> punctuation(#[trigger] s[k]) is Some
}

/// The tokens of the punctuation marks of `s`, one for each and in their
/// order, all on line `line`, and behind them the token that ends the stream.
pub open spec fn punctuation_tokens(s: Seq<char>, line: nat) -> Seq<Result<TokenView, ErrorView>> {
    Seq::new(
        s.len() + 1,
        |k: int|
            if k < s.len() {
                Ok(plain(punctuation(s[k]).unwrap(), seq![s[k]], line))
            } else {
                Ok(plain(TokenKind::Eof, seq!['\0'], line))
            },
    )
}

proof fn lemma_punctuation_stream_from(s: Seq<char>, i: int, line: nat)
    requires
        punctuation_only(s),
        0 <= i <= s.len(),
    ensures
        stream(s, i, line) == punctuation_tokens(s, line).skip(i),
    decreases s.len() - i,
{
    if i < s.len() {
        assert(punctuation(s[i]) is Some);
        lemma_punctuation_stream_from(s, i + 1, line);
        assert(seq![scan(s, i, line).outcome] + punctuation_tokens(s, line).skip(i + 1)
            == punctuation_tokens(s, line).skip(i));
    } else {
        assert(seq![scan(s, i, line).outcome] == punctuation_tokens(s, line).skip(i));
    }
}

/// Of a text that holds punctuation marks and nothing else, the lexer hands
/// out the token of each mark, in their order and all on line 1, and then the
/// token that ends the stream.
pub proof fn lemma_punctuation_stream(s: Seq<char>)
    requires
        punctuation_only(s),
    ensures
        stream(s, 0, 1) == punctuation_tokens(s, 1),
{
    lemma_punctuation_stream_from(s, 0, 1);
    assert(punctuation_tokens(s, 1).skip(0) == punctuation_tokens(s, 1));
}

/// At a character that can start an operator, the lexer reads the operator of
/// two characters where the next character completes one, and the operator of
/// that one character where it does not.
pub proof fn lemma_compound_preferred(s: Seq<char>, i: int, line: nat)
    requires
        0 <= i < s.len(),
        single(s[i]) is Some,
    ensures
        match compound(s[i], char_at(s, i + 1)) {
            Some(kind) => scan(s, i, line) == (crate::grammar::Scan {
                end: i + 2,
                line,
                outcome: Ok(plain(kind, seq![s[i], s[i + 1]], line)),
            }),
            None => scan(s, i, line) == (crate::grammar::Scan {
                end: i + 1,
                line,
                outcome: Ok(plain(single(s[i]).unwrap(), seq![s[i]], line)),
            }),
        },
{
}

/// A text in the shape of an identifier: not empty, made of identifier
/// characters, and not starting with a digit.
pub open spec fn word_shaped(w: Seq<char>) -> bool {
    &&& w.len() > 0
    &&& !digit(w[0])
    &&& forall|k: int| 0 <= k < w.len() ==> word_char(#[trigger] w[k])
}

/// Of a text in the shape of an identifier the lexer makes one token, with the
/// text for its lexeme: of the kind that the reserved word it spells stands
/// for, and an identifier if it spells none. The token that ends the stream
/// follows.
pub proof fn lemma_word_lexes(w: Seq<char>, line: nat)
    requires
        word_shaped(w),
    ensures
        stream(w, 0, line) == seq![
            Ok::<TokenView, ErrorView>(word_token(w, line)),
            Ok::<TokenView, ErrorView>(plain(TokenKind::Eof, seq!['\0'], line)),
        ],
        word_token(w, line).lexeme == w,
        word_token(w, line).line == line,
        word_token(w, line).kind == match reserved_word(w) {
            Some(kind) => kind,
            None => TokenKind::Ident,
        },
{
    assert(word_char(w[0]));
    lemma_run_end(w, 1, word_chars());
    let end = run_end(w, 1, word_chars());
    if end < w.len() {
        assert(word_char(w[end]));
        assert(word_chars()(w[end]));
    }
    assert(w.subrange(0, w.len() as int) == w);
    assert(scan(w, 0, line).outcome == Ok::<TokenView, ErrorView>(word_token(w, line)));
    assert(scan(w, 0, line).end == w.len());
    assert(stream(w, w.len() as int, line) == seq![
        Ok::<TokenView, ErrorView>(plain(TokenKind::Eof, seq!['\0'], line)),
    ]);
    assert(seq![Ok::<TokenView, ErrorView>(word_token(w, line))] + seq![
        Ok::<TokenView, ErrorView>(plain(TokenKind::Eof, seq!['\0'], line)),
    ] == seq![
        Ok::<TokenView, ErrorView>(word_token(w, line)),
        Ok::<TokenView, ErrorView>(plain(TokenKind::Eof, seq!['\0'], line)),
    ]);
}

/// Every reserved word of the table is in the shape of an identifier, and
/// stands for the kind that the table gives it.
pub proof fn lemma_reserved_table()
    ensures
        reserved_table().len() == 25,
        forall|i: int|
            0 <= i < reserved_table().len() ==> reserved_word(
                (#[trigger] reserved_table()[i]).0,
            ) == Some(reserved_table()[i].1) && word_shaped(reserved_table()[i].0),
{
    reveal_strlit("set");
    reveal_strlit("const");
    reveal_strlit("use");
    reveal_strlit("from");
    reveal_strlit("true");
    reveal_strlit("false");
    reveal_strlit("if");
    reveal_strlit("else");
    reveal_strlit("elseif");
    reveal_strlit("and");
    reveal_strlit("or");
    reveal_strlit("not");
    reveal_strlit("is");
    reveal_strlit("in");
    reveal_strlit("do");
    reveal_strlit("while");
    reveal_strlit("break");
    reveal_strlit("for");
    reveal_strlit("each");
    reveal_strlit("func");
    reveal_strlit("return");
    reveal_strlit("match");
    reveal_strlit("class");
    reveal_strlit("inherit");
    reveal_strlit("null");
    assert("set"@ =~= seq!['s', 'e', 't']);
    assert("const"@ =~= seq!['c', 'o', 'n', 's', 't']);
    assert("use"@ =~= seq!['u', 's', 'e']);
    assert("from"@ =~= seq!['f', 'r', 'o', 'm']);
    assert("true"@ =~= seq!['t', 'r', 'u', 'e']);
    assert("false"@ =~= seq!['f', 'a', 'l', 's', 'e']);
    assert("if"@ =~= seq!['i', 'f']);
    assert("else"@ =~= seq!['e', 'l', 's', 'e']);
    assert("elseif"@ =~= seq!['e', 'l', 's', 'e', 'i', 'f']);
    assert("and"@ =~= seq!['a', 'n', 'd']);
    assert("or"@ =~= seq!['o', 'r']);
    assert("not"@ =~= seq!['n', 'o', 't']);
    assert("is"@ =~= seq!['i', 's']);
    assert("in"@ =~= seq!['i', 'n']);
    assert("do"@ =~= seq!['d', 'o']);
    assert("while"@ =~= seq!['w', 'h', 'i', 'l', 'e']);
    assert("break"@ =~= seq!['b', 'r', 'e', 'a', 'k']);
    assert("for"@ =~= seq!['f', 'o', 'r']);
    assert("each"@ =~= seq!['e', 'a', 'c', 'h']);
    assert("func"@ =~= seq!['f', 'u', 'n', 'c']);
    assert("return"@ =~= seq!['r', 'e', 't', 'u', 'r', 'n']);
    assert("match"@ =~= seq!['m', 'a', 't', 'c', 'h']);
    assert("class"@ =~= seq!['c', 'l', 'a', 's', 's']);
    assert("inherit"@ =~= seq!['i', 'n', 'h', 'e', 'r', 'i', 't']);
    assert("null"@ =~= seq!['n', 'u', 'l', 'l']);
}

/// Every reserved word of the table lexes to a token of the kind that the
/// table gives it, with the word for its lexeme.
pub proof fn lemma_reserved_words_lex(i: int, line: nat)
    requires
        0 <= i < reserved_table().len(),
    ensures
        stream(reserved_table()[i].0, 0, line)[0] == Ok::<TokenView, ErrorView>(
            word_token(reserved_table()[i].0, line),
        ),
        word_token(reserved_table()[i].0, line).kind == reserved_table()[i].1,
        word_token(reserved_table()[i].0, line).lexeme == reserved_table()[i].0,
{
    lemma_reserved_table();
    lemma_word_lexes(reserved_table()[i].0, line);
}

/// A text that spells no reserved word stands for none, whichever its shape.
pub proof fn lemma_reserved_only_in_table(w: Seq<char>)
    ensures
        reserved_word(w) is Some ==> exists|i: int|
            0 <= i < reserved_table().len() && #[trigger] reserved_table()[i] == (
                w,
                reserved_word(w).unwrap(),
            ),
{
    if reserved_word(w) is Some {
        lemma_reserved_table();
        if w == "set"@ {
            assert(reserved_table()[0].0 == w);
        } else if w == "const"@ {
            assert(reserved_table()[1].0 == w);
        } else if w == "use"@ {
            assert(reserved_table()[2].0 == w);
        } else if w == "from"@ {
            assert(reserved_table()[3].0 == w);
        } else if w == "true"@ {
            assert(reserved_table()[4].0 == w);
        } else if w == "false"@ {
            assert(reserved_table()[5].0 == w);
        } else if w == "if"@ {
            assert(reserved_table()[6].0 == w);
        } else if w == "else"@ {
            assert(reserved_table()[7].0 == w);
        } else if w == "elseif"@ {
            assert(reserved_table()[8].0 == w);
        } else if w == "and"@ {
            assert(reserved_table()[9].0 == w);
        } else if w == "or"@ {
            assert(reserved_table()[10].0 == w);
        } else if w == "not"@ {
            assert(reserved_table()[11].0 == w);
        } else if w == "is"@ {
            assert(reserved_table()[12].0 == w);
        } else if w == "in"@ {
            assert(reserved_table()[13].0 == w);
        } else if w == "do"@ {
            assert(reserved_table()[14].0 == w);
        } else if w == "while"@ {
            assert(reserved_table()[15].0 == w);
        } else if w == "break"@ {
            assert(reserved_table()[16].0 == w);
        } else if w == "for"@ {
            assert(reserved_table()[17].0 == w);
        } else if w == "each"@ {
            assert(reserved_table()[18].0 == w);
        } else if w == "func"@ {
            assert(reserved_table()[19].0 == w);
        } else if w == "return"@ {
            assert(reserved_table()[20].0 == w);
        } else if w == "match"@ {
            assert(reserved_table()[21].0 == w);
        } else if w == "class"@ {
            assert(reserved_table()[22].0 == w);
        } else if w == "inherit"@ {
            assert(reserved_table()[23].0 == w);
        } else if w == "null"@ {
            assert(reserved_table()[24].0 == w);
        }
    }
}

/// From any place in a text the lexer hands out something, the last of it is
/// the token that ends the stream, and nothing before the last is.
pub proof fn lemma_stream_ends_once(s: Seq<char>, i: int, line: nat)
    requires
        0 <= i <= s.len(),
    ensures
        stream(s, i, line).len() >= 1,
        ends_stream(stream(s, i, line).last()),
        forall|k: int|
            0 <= k < stream(s, i, line).len() - 1 ==> !ends_stream(#[trigger] stream(s, i, line)[k]),
    decreases s.len() - i,
{
    let step = scan(s, i, line);
    lemma_scan_bounds(s, i, line);
    if i >= s.len() || ends_stream(step.outcome) {
        if i >= s.len() {
            assert(char_at(s, i) == '\0');
        }
    } else {
        lemma_stream_ends_once(s, step.end, step.line);
        let rest = stream(s, step.end, step.line);
        let all = stream(s, i, line);
        assert(all == seq![step.outcome] + rest);
        assert(all.last() == rest.last());
        assert forall|k: int| 0 <= k < all.len() - 1 implies !ends_stream(#[trigger] all[k]) by {
            if k > 0 {
                assert(all[k] == rest[k - 1]);
            }
        }
    }
}

/// The source that a parser reads from its start: the parser that starts on
/// what the lexer hands out of `source`, from its first character and line 1.
pub open spec fn reading(source: Seq<char>) -> ParserView {
    start(stream(source, 0, 1))
}

/// Two parsers that read the same source from its start read the same program
/// and meet the same errors: as many statements, of the same kinds, with the
/// same names.
pub proof fn lemma_parse_deterministic(first: ParserView, second: ParserView, source: Seq<char>)
    requires
        first == reading(source),
        second == reading(source),
    ensures
        parse(first).statements == parse(second).statements,
        parse(first).statements.len() == parse(second).statements.len(),
        parse(first).end.errors == parse(second).end.errors,
{
}

/// A text that can stand between two quotes `q` as it is: it holds neither `q`
/// nor the NUL character.
pub open spec fn plain_body(body: Seq<char>, q: char) -> bool {
    forall|k: int| 0 <= k < body.len() ==> #[trigger] body[k] != q && body[k] != '\0'
}

/// A text between two quotes reads as a string whose literal is that text,
/// with the quotes stripped, and whose lexeme is the whole; the string is on
/// the line of its closing quote. A text that ends with a backslash is left
/// out: the backslash would take the closing quote into the string.
pub proof fn lemma_string_round_trip(body: Seq<char>, q: char, line: nat)
    requires
        quote(q),
        plain_body(body, q),
        body.len() > 0 ==> body.last() != '\\',
    ensures
        scan((seq![q] + body).push(q), 0, line) == (crate::grammar::Scan {
            end: body.len() as int + 2,
            line: line + newlines(body, 0, body.len() as int),
            outcome: Ok(
                TokenView {
                    kind: TokenKind::String,
                    lexeme: (seq![q] + body).push(q),
                    literal: Some(LiteralView::String(body)),
                    line: line + newlines(body, 0, body.len() as int),
                },
            ),
        }),
{
    let s = (seq![q] + body).push(q);
    let close: int = body.len() as int + 1;
    assert forall|m: int| 1 <= m < close implies s[m] != '\0' && s[m] != q by {
        assert(s[m] == body[m - 1]);
    }
    lemma_closing_skip(s, q, 1, 1, close);
    lemma_kept_plain(s, q, 1, 1, close);
    assert(kept(s, q, 1, 1) == Seq::<char>::empty());
    assert(s.subrange(1, close) == body);
    assert(kept(s, q, 1, close) == body);
    lemma_newlines_shifted(s, body, 1, close);
}

/// A text that opens with a quote `q` and holds no other reads as an error:
/// the string is not terminated. The error is on the last line of the text and
/// holds the whole text.
pub proof fn lemma_unterminated_string(body: Seq<char>, q: char, line: nat)
    requires
        quote(q),
        plain_body(body, q),
    ensures
        scan(seq![q] + body, 0, line) == (crate::grammar::Scan {
            end: body.len() as int + 1,
            line: line + newlines(body, 0, body.len() as int),
            outcome: Err(
                ErrorView::Lexical(
                    line + newlines(body, 0, body.len() as int),
                    "unterminated string"@,
                    seq![q] + body,
                ),
            ),
        }),
{
    let s = seq![q] + body;
    let close: int = body.len() as int + 1;
    assert forall|m: int| 1 <= m < close implies s[m] != '\0' && s[m] != q by {
        assert(s[m] == body[m - 1]);
    }
    lemma_closing_skip(s, q, 1, 1, close);
    lemma_kept_plain(s, q, 1, 1, close);
    assert(kept(s, q, 1, 1) == Seq::<char>::empty());
    assert(s.subrange(1, close) == body);
    assert(kept(s, q, 1, close) == body);
    lemma_newlines_shifted(s, body, 1, close);
}

proof fn lemma_newlines_shifted(s: Seq<char>, body: Seq<char>, from: int, to: int)
    requires
        0 <= from <= to <= s.len(),
        to - from <= body.len(),
        forall|k: int| from <= k < to ==> s[k] == body[k - from],
    ensures
        newlines(s, from, to) == newlines(body, 0, to - from),
    decreases to - from,
{
    if from < to {
        lemma_newlines_shifted(s, body, from, to - 1);
    }
}

/// Whether `t` is a numeral whose whole part has `w` digits: one digit or
/// more, and then either nothing or a dot and one digit or more.
pub open spec fn numeral_of(t: Seq<char>, w: int) -> bool {
    &&& 1 <= w <= t.len()
    &&& forall|k: int| 0 <= k < w ==> digit(#[trigger] t[k])
    &&& w == t.len() || {
        &&& t[w] == '.'
        &&& w + 1 < t.len()
        &&& forall|k: int| w < k < t.len() ==> digit(#[trigger] t[k])
    }
}

/// A numeral: one digit or more, and then either nothing or a dot and one
/// digit or more.
pub open spec fn numeral(t: Seq<char>) -> bool {
    exists|w: int| numeral_of(t, w)
}

/// At a digit the lexer reads a number: a token whose lexeme is a numeral, and
/// whose literal holds that numeral. It counts no line.
pub proof fn lemma_number_is_numeral(s: Seq<char>, i: int, line: nat)
    requires
        0 <= i < s.len(),
        digit(s[i]),
    ensures
        scan(s, i, line) == number_at(s, i, line),
        i < number_end(s, i) <= s.len(),
        numeral(s.subrange(i, number_end(s, i))),
        scan(s, i, line).outcome == Ok::<TokenView, ErrorView>(
            TokenView {
                kind: TokenKind::Number,
                lexeme: s.subrange(i, number_end(s, i)),
                literal: Some(LiteralView::Number(s.subrange(i, number_end(s, i)))),
                line,
            },
        ),
{
    let whole = run_end(s, i + 1, digits());
    lemma_run_end(s, i + 1, digits());
    let end = number_end(s, i);
    if char_at(s, whole) == '.' && digit(char_at(s, whole + 1)) {
        lemma_run_end(s, whole + 1, digits());
        assert(digits()(s[whole + 1]));
    }
    let t = s.subrange(i, end);
    let w = whole - i;
    assert forall|k: int| 0 <= k < w implies digit(#[trigger] t[k]) by {
        if k > 0 {
            assert(digits()(s[i + k]));
        }
    }
    if w != t.len() {
        assert(t[w] == '.');
        assert forall|k: int| w < k < t.len() implies digit(#[trigger] t[k]) by {
            assert(digits()(s[i + k]));
        }
    }
    assert(numeral_of(t, w));
}

/// No error that a parser has met is lost when it reads on: the errors it has
/// at the end start with those it had at the start, in their order.
pub proof fn lemma_errors_kept(p: ParserView)
    ensures
        p.errors.is_prefix_of(parse(p).end.errors),
    decreases weight(p.window),
{
    if p.window.current.kind != TokenKind::Eof {
        lemma_statement_weight(p);
        lemma_shift_weight(after_statement(p).window);
        let next = step(after_statement(p));
        lemma_errors_kept(next);
        assert(p.errors.is_prefix_of(next.errors));
    }
}

/// The line that an outcome of the lexer is on: that of the token, or that of
/// the error. An error of another kind is on no line.
pub open spec fn line_of(outcome: Result<TokenView, ErrorView>) -> nat {
    match outcome {
        Ok(token) => token.line,
        Err(ErrorView::Lexical(line, _, _)) => line,
        Err(_) => 0,
    }
}

proof fn lemma_token_at_counts_lines(s: Seq<char>, i: int, line: nat)
    requires
        0 <= i <= s.len(),
    ensures
        token_at(s, i, line).line == line + newlines(s, i, token_at(s, i, line).end),
        line_of(token_at(s, i, line).outcome) == token_at(s, i, line).line,
{
    let c = char_at(s, i);
    let end = token_at(s, i, line).end;
    if c == '\0' {
        lemma_newlines_none(s, i, end);
    } else if punctuation(c) is Some {
        lemma_newlines_none(s, i, end);
    } else if single(c) is Some {
        lemma_newlines_none(s, i, end);
    } else if quote(c) {
        let close = closing(s, c, i + 1, i + 1);
        lemma_closing_bounds(s, c, i + 1, i + 1);
        lemma_newlines_none(s, i, i + 1);
        lemma_newlines_split(s, i, i + 1, close);
        if char_at(s, close) == c {
            lemma_newlines_none(s, close, close + 1);
            lemma_newlines_split(s, i, close, close + 1);
        }
    } else if c == '\n' {
        lemma_newlines_none(s, i, i);
    } else if digit(c) {
        let whole = run_end(s, i + 1, digits());
        lemma_run_end(s, i + 1, digits());
        if char_at(s, whole) == '.' && digit(char_at(s, whole + 1)) {
            lemma_run_end(s, whole + 1, digits());
            assert forall|k: int| i <= k < end implies char_at(s, k) != '\n' by {
                if k > whole {
                    assert(digits()(s[k]));
                } else if i < k < whole {
                    assert(digits()(s[k]));
                }
            }
        } else {
            assert forall|k: int| i <= k < end implies char_at(s, k) != '\n' by {
                if i < k {
                    assert(digits()(s[k]));
                }
            }
        }
        lemma_newlines_none(s, i, end);
    } else if word_char(c) {
        lemma_run_end(s, i + 1, word_chars());
        assert forall|k: int| i <= k < end implies char_at(s, k) != '\n' by {
            if i < k {
                assert(word_chars()(s[k]));
            }
        }
        lemma_newlines_none(s, i, end);
    } else {
        lemma_newlines_none(s, i, end);
    }
}

/// The lexer counts lines as it reads: after a step its line count is the
/// count before the step and the newlines read in the step, and the token or
/// the error of the step is on the line so counted.
pub proof fn lemma_lines_counted(s: Seq<char>, i: int, line: nat)
    requires
        0 <= i <= s.len(),
    ensures
        scan(s, i, line).line == line + newlines(s, i, scan(s, i, line).end),
        line_of(scan(s, i, line).outcome) == scan(s, i, line).line,
    decreases s.len() - i,
{
    let c = char_at(s, i);
    if i >= s.len() {
        lemma_token_at_counts_lines(s, i, line);
    } else if c == '#' {
        lemma_comment_end_bounds(s, i);
        let end = comment_end(s, i);
        let counted = line + newlines(s, i, end);
        lemma_lines_counted(s, end, counted);
        lemma_scan_bounds(s, end, counted);
        lemma_newlines_split(s, i, end, scan(s, i, line).end);
    } else if blank(c) {
        lemma_lines_counted(s, i + 1, line);
        lemma_scan_bounds(s, i + 1, line);
        lemma_newlines_none(s, i, i + 1);
        lemma_newlines_split(s, i, i + 1, scan(s, i, line).end);
    } else {
        lemma_token_at_counts_lines(s, i, line);
    }
}

} // verus!
