use vstd::prelude::*;

use crate::text::{chars_of, push_char};

verus! {

/// The scanner's mode: outside quotes, inside '...', or inside "...".
#[derive(Clone, Copy, Debug, PartialEq, Eq, Structural)]
pub enum QuoteMode {
    Normal,
    Single,
    Double,
}

/// The characters that a backslash escapes inside double quotes.
pub open spec fn escapable_in_double(c: char) -> bool {
    c == '\\' || c == '$' || c == '"'
}

/// Scans `s` in mode `m` with the token `cur` in progress, and gives every
/// token that is emitted from here to the end of the input.
pub open spec fn lex(s: Seq<char>, m: QuoteMode, cur: Seq<char>) -> Seq<Seq<char>>
    decreases s.len(),
{
    if s.len() == 0 {
        if cur.len() > 0 {
            seq![cur]
        } else {
            seq![]
        }
    } else {
        let c = s[0];
        if c == '\\' && m == QuoteMode::Double {
            if s.len() >= 2 && escapable_in_double(s[1]) {
                lex(s.skip(2), m, cur.push(s[1]))
            } else if s.len() >= 2 {
                lex(s.skip(1), m, cur.push('\\'))
            } else {
                lex(s.skip(1), m, cur)
            }
        } else if c == '\\' && m == QuoteMode::Normal {
            if s.len() >= 2 {
                lex(s.skip(2), m, cur.push(s[1]))
            } else {
                lex(s.skip(1), m, cur)
            }
        } else if c == '\'' && m == QuoteMode::Normal {
            lex(s.skip(1), QuoteMode::Single, cur)
        } else if c == '\'' && m == QuoteMode::Single {
            lex(s.skip(1), QuoteMode::Normal, cur)
        } else if c == '"' && m == QuoteMode::Normal {
            lex(s.skip(1), QuoteMode::Double, cur)
        } else if c == '"' && m == QuoteMode::Double {
            lex(s.skip(1), QuoteMode::Normal, cur)
        } else if c == ' ' && m == QuoteMode::Normal {
            if cur.len() > 0 {
                seq![cur] + lex(s.skip(1), m, seq![])
            } else {
                lex(s.skip(1), m, cur)
            }
        } else if c == '\n' {
            lex(s.skip(1), m, cur)
        } else {
            lex(s.skip(1), m, cur.push(c))
        }
    }
}

/// The tokens of a whole input line.
pub open spec fn tokenize(s: Seq<char>) -> Seq<Seq<char>> {
    lex(s, QuoteMode::Normal, seq![])
}

/// A character that stands for itself outside quotes and separates nothing.
pub open spec fn is_plain(c: char) -> bool {
    c != ' ' && c != '\'' && c != '"' && c != '\\' && c != '\n'
}

/// A non-empty run of plain characters.
pub open spec fn is_word(w: Seq<char>) -> bool {
    w.len() > 0 && forall|i: int| 0 <= i < w.len() ==> is_plain(#[trigger] w[i])
}

/// A line with no quote and no backslash in it.
pub open spec fn unquoted(s: Seq<char>) -> bool {
    forall|i: int|
        0 <= i < s.len() ==> #[trigger] s[i] != '\'' && s[i] != '"' && s[i] != '\\'
}

/// The words joined with one space between neighbours.
pub open spec fn join_words(ws: Seq<Seq<char>>) -> Seq<char>
    decreases ws.len(),
{
    if ws.len() == 0 {
        seq![]
    } else if ws.len() == 1 {
        ws[0]
    } else {
        ws[0] + seq![' '] + join_words(ws.skip(1))
    }
}

/// Plain characters are appended to the token in progress.
proof fn lemma_lex_plain_run(w: Seq<char>, rest: Seq<char>, cur: Seq<char>)
    requires
        forall|i: int| 0 <= i < w.len() ==> is_plain(#[trigger] w[i]),
    ensures
        lex(w + rest, QuoteMode::Normal, cur) == lex(rest, QuoteMode::Normal, cur + w),
    decreases w.len(),
{
    if w.len() == 0 {
        assert(w + rest =~= rest);
        assert(cur + w =~= cur);
    } else {
        let s = w + rest;
        assert(s[0] == w[0]);
        assert(s.skip(1) =~= w.skip(1) + rest);
        lemma_lex_plain_run(w.skip(1), rest, cur.push(w[0]));
        assert(cur.push(w[0]) + w.skip(1) =~= cur + w);
    }
}

/// Scanning words joined by single spaces gives the words back.
proof fn lemma_lex_joined(ws: Seq<Seq<char>>)
    requires
        forall|i: int| 0 <= i < ws.len() ==> is_word(#[trigger] ws[i]),
    ensures
        tokenize(join_words(ws)) == ws,
    decreases ws.len(),
{
    let e = Seq::<char>::empty();
    if ws.len() == 0 {
        assert(tokenize(join_words(ws)) =~= ws);
    } else if ws.len() == 1 {
        assert(is_word(ws[0]));
        lemma_lex_plain_run(ws[0], e, e);
        assert(ws[0] + e =~= ws[0]);
        assert(e + ws[0] =~= ws[0]);
        assert(tokenize(join_words(ws)) =~= ws);
    } else {
        let tail = join_words(ws.skip(1));
        let after = seq![' '] + tail;
        assert(is_word(ws[0]));
        assert(ws[0] + seq![' '] + tail =~= ws[0] + after);
        lemma_lex_plain_run(ws[0], after, e);
        assert(e + ws[0] =~= ws[0]);
        assert(after[0] == ' ');
        assert(after.skip(1) =~= tail);
        assert forall|i: int| 0 <= i < ws.skip(1).len() implies is_word(#[trigger] ws.skip(1)[i]) by {
            assert(ws.skip(1)[i] == ws[i + 1]);
        }
        lemma_lex_joined(ws.skip(1));
        assert(seq![ws[0]] + ws.skip(1) =~= ws);
    }
}

/// Every token that an unquoted line yields is a word.
proof fn lemma_lex_unquoted(s: Seq<char>, cur: Seq<char>)
    requires
        unquoted(s),
        forall|i: int| 0 <= i < cur.len() ==> is_plain(#[trigger] cur[i]),
    ensures
        forall|i: int|
            0 <= i < lex(s, QuoteMode::Normal, cur).len() ==> is_word(
                #[trigger] lex(s, QuoteMode::Normal, cur)[i],
            ),
    decreases s.len(),
{
    let m = QuoteMode::Normal;
    if s.len() == 0 {
        if cur.len() > 0 {
            assert(lex(s, m, cur) =~= seq![cur]);
            assert(is_word(cur));
        }
    } else {
        let c = s[0];
        assert(c != '\'' && c != '"' && c != '\\');
        assert forall|i: int| 0 <= i < s.skip(1).len() implies #[trigger] s.skip(1)[i] != '\''
            && s.skip(1)[i] != '"' && s.skip(1)[i] != '\\' by {
            assert(s.skip(1)[i] == s[i + 1]);
        }
        if c == ' ' {
            if cur.len() > 0 {
                lemma_lex_unquoted(s.skip(1), seq![]);
                let later = lex(s.skip(1), m, seq![]);
                assert(lex(s, m, cur) == seq![cur] + later);
                assert(is_word(cur));
                assert forall|i: int| 0 <= i < (seq![cur] + later).len() implies is_word(
                    #[trigger] (seq![cur] + later)[i],
                ) by {
                    if i > 0 {
                        assert((seq![cur] + later)[i] == later[i - 1]);
                    }
                }
            } else {
                assert(lex(s, m, cur) == lex(s.skip(1), m, cur));
                lemma_lex_unquoted(s.skip(1), cur);
            }
        } else if c == '\n' {
            assert(lex(s, m, cur) == lex(s.skip(1), m, cur));
            lemma_lex_unquoted(s.skip(1), cur);
        } else {
            assert(lex(s, m, cur) == lex(s.skip(1), m, cur.push(c)));
            assert(is_plain(c));
            assert forall|i: int| 0 <= i < cur.push(c).len() implies is_plain(
                #[trigger] cur.push(c)[i],
            ) by {
                if i < cur.len() {
                    assert(cur.push(c)[i] == cur[i]);
                }
            }
            lemma_lex_unquoted(s.skip(1), cur.push(c));
        }
    }
}

/// Scanning a line without quotes or backslashes, joining its tokens with
/// single spaces and scanning the result again gives the same tokens.
pub proof fn lemma_retokenize(line: Seq<char>)
    requires
        unquoted(line),
    ensures
        tokenize(join_words(tokenize(line))) == tokenize(line),
{
    lemma_lex_unquoted(line, seq![]);
    lemma_lex_joined(tokenize(line));
}

/// The character sequences held by a vector of strings.
pub open spec fn strings_view(v: Seq<String>) -> Seq<Seq<char>> {
    v.map_values(|t: String| t@)
}

/// Splits a line into its words, honouring quotes and backslash escapes.
pub fn parse_command(command: &str) -> (r: Vec<String>)
    ensures
        strings_view(r@) == tokenize(command@),
{
    let cs = chars_of(command);
    let n = cs.len();
    let mut mode = QuoteMode::Normal;
    let mut current = String::new();
    let mut result: Vec<String> = Vec::new();
    let mut i: usize = 0;
    proof {
        assert(cs@.skip(0) =~= cs@);
        assert(current@ =~= Seq::<char>::empty());
        assert(strings_view(result@) + tokenize(command@) =~= tokenize(command@));
    }
    while i < n
        invariant
            n == cs@.len(),
            cs@ == command@,
            i <= n,
            strings_view(result@) + lex(cs@.skip(i as int), mode, current@) == tokenize(
                command@,
            ),
        decreases n - i,
    {
        let c = cs[i];
        let ghost rest = cs@.skip(i as int);
        let ghost before = strings_view(result@);
        assert(rest[0] == c);
        if c == '\\' && mode == QuoteMode::Double {
            if i + 1 < n && (cs[i + 1] == '\\' || cs[i + 1] == '$' || cs[i + 1] == '"') {
                assert(rest[1] == cs@[i + 1]);
                assert(rest.skip(2) =~= cs@.skip(i + 2));
                push_char(&mut current, cs[i + 1]);
                i = i + 2;
            } else {
                if i + 1 < n {
                    push_char(&mut current, '\\');
                }
                assert(rest.skip(1) =~= cs@.skip(i + 1));
                i = i + 1;
            }
        } else if c == '\\' && mode == QuoteMode::Normal {
            if i + 1 < n {
                assert(rest[1] == cs@[i + 1]);
                assert(rest.skip(2) =~= cs@.skip(i + 2));
                push_char(&mut current, cs[i + 1]);
                i = i + 2;
            } else {
                assert(rest.skip(1) =~= cs@.skip(i + 1));
                i = i + 1;
            }
        } else {
            if c == '\'' && mode == QuoteMode::Normal {
                mode = QuoteMode::Single;
            } else if c == '\'' && mode == QuoteMode::Single {
                mode = QuoteMode::Normal;
            } else if c == '"' && mode == QuoteMode::Normal {
                mode = QuoteMode::Double;
            } else if c == '"' && mode == QuoteMode::Double {
                mode = QuoteMode::Normal;
            } else if c == ' ' && mode == QuoteMode::Normal {
                if !current.as_str().is_empty() {
                    let ghost tok = current@;
                    result.push(current);
                    current = String::new();
                    assert(strings_view(result@) =~= before + seq![tok]);
                    assert(before + seq![tok] + lex(rest.skip(1), mode, seq![]) =~= before + (
                    seq![tok] + lex(rest.skip(1), mode, seq![])));
                }
            } else if c == '\n' {
            } else {
                push_char(&mut current, c);
            }
            assert(rest.skip(1) =~= cs@.skip(i + 1));
            i = i + 1;
        }
    }
    if !current.as_str().is_empty() {
        let ghost before = strings_view(result@);
        let ghost tok = current@;
        result.push(current);
        assert(strings_view(result@) =~= before + seq![tok]);
    }
    proof {
        assert(cs@.skip(n as int) =~= Seq::<char>::empty());
        assert(strings_view(result@) =~= strings_view(result@) + Seq::<Seq<char>>::empty());
    }
    result
}

} // verus!
