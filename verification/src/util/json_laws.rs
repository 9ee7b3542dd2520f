use crate::util::json::{
    closes_value, delimiter_lexeme, digit_run, is_digit, lemma_digit_run_bound,
    lemma_quote_free_run_bound, normalized, quote_free_run, quoted, strict_text,
    structural_char, structural_lexeme, tokenize, Lexeme,
};
use vstd::prelude::*;

verus! {

/// A number as the tokenizer reads one: a digit or a minus sign, then digits only.
pub open spec fn number_text(n: Seq<char>) -> bool {
    &&& n.len() >= 1
    &&& is_digit(n[0]) || n[0] == '-'
    &&& forall|i: int| 1 <= i < n.len() ==> is_digit(#[trigger] n[i])
}

/// Text without a double quote.
pub open spec fn quote_free(x: Seq<char>) -> bool {
    forall|i: int| 0 <= i < x.len() ==> #[trigger] x[i] != '"'
}

/// A token that the tokenizer can produce.
pub open spec fn lexable(l: Lexeme) -> bool {
    match l {
        Lexeme::Number(n) => number_text(n),
        Lexeme::StringValue(x) => quote_free(x),
        Lexeme::Null(_) => false,
        Lexeme::Boolean(_) => false,
        _ => true,
    }
}

pub open spec fn all_lexable(t: Seq<Lexeme>) -> bool {
    forall|i: int| 0 <= i < t.len() ==> lexable(#[trigger] t[i])
}

proof fn lemma_digit_run_prefix(d: Seq<char>, rest: Seq<char>)
    requires
        forall|i: int| 0 <= i < d.len() ==> is_digit(#[trigger] d[i]),
        rest.len() == 0 || !is_digit(rest[0]),
    ensures
        digit_run(d + rest) == d.len(),
    decreases d.len(),
{
    if d.len() == 0 {
        assert(d + rest =~= rest);
    } else {
        assert((d + rest).skip(1) =~= d.skip(1) + rest);
        assert forall|i: int| 0 <= i < d.skip(1).len() implies is_digit(
            #[trigger] d.skip(1)[i],
        ) by {
            assert(d.skip(1)[i] == d[i + 1]);
        }
        lemma_digit_run_prefix(d.skip(1), rest);
    }
}

proof fn lemma_quote_free_run_prefix(x: Seq<char>, rest: Seq<char>)
    requires
        quote_free(x),
        rest.len() == 0 || rest[0] == '"',
    ensures
        quote_free_run(x + rest) == x.len(),
    decreases x.len(),
{
    if x.len() == 0 {
        assert(x + rest =~= rest);
    } else {
        assert((x + rest).skip(1) =~= x.skip(1) + rest);
        assert forall|i: int| 0 <= i < x.skip(1).len() implies #[trigger] x.skip(1)[i] != '"' by {
            assert(x.skip(1)[i] == x[i + 1]);
        }
        lemma_quote_free_run_prefix(x.skip(1), rest);
    }
}

/// A structural character at the front of a text is read as its token.
proof fn lemma_tokenize_structural(l: Lexeme, rest: Seq<char>)
    requires
        structural_lexeme(structural_char(l)) == Some(l),
    ensures
        tokenize(seq![structural_char(l)] + rest) == seq![l] + tokenize(rest),
{
    let s = seq![structural_char(l)] + rest;
    assert(s.skip(1) =~= rest);
}

/// A quoted text without a quote inside is read as one string.
proof fn lemma_tokenize_quoted(x: Seq<char>, rest: Seq<char>)
    requires
        quote_free(x),
    ensures
        tokenize(quoted(x) + rest) == seq![Lexeme::StringValue(x)] + tokenize(rest),
{
    let s = quoted(x) + rest;
    let tail = seq!['"'] + rest;
    assert(s.skip(1) =~= x + tail);
    lemma_quote_free_run_prefix(x, tail);
    assert((x + tail).skip(x.len() as int) =~= tail);
    assert((x + tail).take(x.len() as int) =~= x);
    assert(tail.skip(1) =~= rest);
}

/// A number with one of the four delimiters after it is read as the number and
/// the delimiter's token.
proof fn lemma_tokenize_number(n: Seq<char>, l: Lexeme, rest: Seq<char>)
    requires
        number_text(n),
        l is SepColon || closes_value(l),
    ensures
        tokenize(n + seq![structural_char(l)] + rest) == seq![Lexeme::Number(n), l] + tokenize(
            rest,
        ),
{
    let c = structural_char(l);
    let s = n + seq![c] + rest;
    let tail = seq![c] + rest;
    assert(s[0] == n[0]);
    assert(s.skip(1) =~= n.skip(1) + tail);
    assert forall|i: int| 0 <= i < n.skip(1).len() implies is_digit(#[trigger] n.skip(1)[i]) by {
        assert(n.skip(1)[i] == n[i + 1]);
    }
    lemma_digit_run_prefix(n.skip(1), tail);
    assert((n.skip(1) + tail).skip(n.len() - 1) =~= tail);
    assert(s.take(1 + (n.len() - 1)) =~= n);
    assert(tail.skip(1) =~= rest);
    assert(delimiter_lexeme(c) == Some(l));
}

/// Integer key repair: a number in front of a colon becomes a quoted key, and
/// the text after the colon is repaired as it would be alone.
pub proof fn lemma_number_key_is_quoted(n: Seq<char>, rest: Seq<char>)
    requires
        number_text(n),
    ensures
        normalized(n + seq![':'] + rest) == quoted(n) + seq![':'] + normalized(rest),
{
    lemma_tokenize_number(n, Lexeme::SepColon, rest);
    let tokens = seq![Lexeme::Number(n), Lexeme::SepColon] + tokenize(rest);
    assert(tokens.skip(2) =~= tokenize(rest));
}

/// A quoted key stays as it is, and the text after its colon is repaired as it
/// would be alone.
pub proof fn lemma_quoted_key_is_kept(x: Seq<char>, rest: Seq<char>)
    requires
        quote_free(x),
    ensures
        normalized(quoted(x) + seq![':'] + rest) == quoted(x) + seq![':'] + normalized(rest),
{
    lemma_tokenize_quoted(x, seq![':'] + rest);
    lemma_tokenize_structural(Lexeme::SepColon, rest);
    assert(quoted(x) + seq![':'] + rest =~= quoted(x) + (seq![':'] + rest));
    let tokens = seq![Lexeme::StringValue(x)] + (seq![Lexeme::SepColon] + tokenize(rest));
    assert(tokens.skip(2) =~= tokenize(rest));
}

/// A character that begins no token is passed over: the text is repaired as it
/// would be without it. So is each letter of a word that stands bare.
pub proof fn lemma_other_character_is_skipped(c: char, rest: Seq<char>)
    requires
        structural_lexeme(c) is None,
        !is_digit(c),
        c != '-',
        c != '"',
    ensures
        normalized(seq![c] + rest) == normalized(rest),
{
    assert((seq![c] + rest).skip(1) =~= rest);
}

/// Every token that the tokenizer produces is one that it can produce from the
/// strict text of that token: numbers are made of a sign or digit and digits,
/// strings hold no quote, and there is no null or boolean token.
pub proof fn lemma_tokenize_lexable(s: Seq<char>)
    ensures
        all_lexable(tokenize(s)),
    decreases s.len(),
{
    if s.len() > 0 {
        let c = s[0];
        let rest = s.skip(1);
        lemma_digit_run_bound(rest);
        lemma_quote_free_run_bound(rest);
        if let Some(l) = structural_lexeme(c) {
            lemma_tokenize_lexable(rest);
        } else if is_digit(c) || c == '-' {
            let n = digit_run(rest);
            let after = rest.skip(n as int);
            let text = s.take(1 + n as int);
            assert forall|i: int| 1 <= i < text.len() implies is_digit(#[trigger] text[i]) by {
                assert(text[i] == rest[i - 1]);
            }
            assert(number_text(text));
            if after.len() == 0 || delimiter_lexeme(after[0]) is None {
                lemma_tokenize_lexable(after);
            } else {
                lemma_tokenize_lexable(after.skip(1));
            }
        } else if c == '"' {
            let n = quote_free_run(rest);
            let after = rest.skip(n as int);
            assert(quote_free(rest.take(n as int)));
            if after.len() == 0 {
                lemma_tokenize_lexable(after);
            } else {
                lemma_tokenize_lexable(after.skip(1));
            }
        } else {
            lemma_tokenize_lexable(rest);
        }
    }
}

/// Strict text is a fixed point of the repair: the strict JSON text of tokens that
/// the tokenizer can produce, that is quoted keys, quoted strings and bare numbers
/// between structural characters, is repaired to itself.
pub proof fn lemma_strict_text_unchanged(t: Seq<Lexeme>)
    requires
        all_lexable(t),
    ensures
        normalized(strict_text(t)) == strict_text(t),
    decreases t.len(),
{
    let empty = Seq::<char>::empty();
    if t.len() == 0 {
    } else {
        let rest1 = strict_text(t.skip(1));
        assert(all_lexable(t.skip(1))) by {
            assert forall|i: int| 0 <= i < t.skip(1).len() implies lexable(
                #[trigger] t.skip(1)[i],
            ) by {
                assert(t.skip(1)[i] == t[i + 1]);
            }
        }
        assert(lexable(t[0]));
        match t[0] {
            Lexeme::EndDocument => {},
            Lexeme::Null(_) => {},
            Lexeme::Boolean(_) => {},
            Lexeme::Number(n) => {
                if t.len() >= 2 && (t[1] is SepColon || closes_value(t[1])) {
                    let rest2 = strict_text(t.skip(2));
                    assert(all_lexable(t.skip(2))) by {
                        assert forall|i: int| 0 <= i < t.skip(2).len() implies lexable(
                            #[trigger] t.skip(2)[i],
                        ) by {
                            assert(t.skip(2)[i] == t[i + 2]);
                        }
                    }
                    lemma_strict_text_unchanged(t.skip(2));
                    let again = tokenize(rest2);
                    if t[1] is SepColon {
                        assert(quote_free(n));
                        lemma_tokenize_quoted(n, seq![':'] + rest2);
                        lemma_tokenize_structural(Lexeme::SepColon, rest2);
                        assert(quoted(n) + seq![':'] + rest2 =~= quoted(n) + (seq![':'] + rest2));
                        let tokens = seq![Lexeme::StringValue(n)] + (seq![Lexeme::SepColon]
                            + again);
                        assert(tokenize(strict_text(t)) == tokens);
                        assert(tokens.skip(2) =~= again);
                    } else {
                        lemma_tokenize_number(n, t[1], rest2);
                        let tokens = seq![Lexeme::Number(n), t[1]] + again;
                        assert(tokenize(strict_text(t)) == tokens);
                        assert(tokens.skip(2) =~= again);
                    }
                }
            },
            Lexeme::StringValue(x) => {
                if t.len() >= 2 && (t[1] is SepColon || closes_value(t[1])) {
                    let rest2 = strict_text(t.skip(2));
                    assert(all_lexable(t.skip(2))) by {
                        assert forall|i: int| 0 <= i < t.skip(2).len() implies lexable(
                            #[trigger] t.skip(2)[i],
                        ) by {
                            assert(t.skip(2)[i] == t[i + 2]);
                        }
                    }
                    lemma_strict_text_unchanged(t.skip(2));
                    let again = tokenize(rest2);
                    let c = structural_char(t[1]);
                    lemma_tokenize_quoted(x, seq![c] + rest2);
                    lemma_tokenize_structural(t[1], rest2);
                    assert(quoted(x) + seq![c] + rest2 =~= quoted(x) + (seq![c] + rest2));
                    let tokens = seq![Lexeme::StringValue(x)] + (seq![t[1]] + again);
                    assert(tokenize(strict_text(t)) == tokens);
                    assert(tokens.skip(2) =~= again);
                }
            },
            structural => {
                lemma_strict_text_unchanged(t.skip(1));
                lemma_tokenize_structural(structural, rest1);
                let tokens = seq![structural] + tokenize(rest1);
                assert(tokens.skip(1) =~= tokenize(rest1));
            },
        }
    }
}

/// Repairing is idempotent: text that has been repaired once is repaired to itself.
pub proof fn lemma_normalize_idempotent(s: Seq<char>)
    ensures
        normalized(normalized(s)) == normalized(s),
{
    lemma_tokenize_lexable(s);
    lemma_strict_text_unchanged(tokenize(s));
}

/// A character that begins no token, and is passed over. Whitespace is such.
pub open spec fn skippable(c: char) -> bool {
    structural_lexeme(c) is None && !is_digit(c) && c != '-' && c != '"'
}

/// Text that is passed over whole.
pub open spec fn all_skippable(gap: Seq<char>) -> bool {
    forall|i: int| 0 <= i < gap.len() ==> skippable(#[trigger] gap[i])
}

/// The text that a token is read from.
pub open spec fn source_text(l: Lexeme) -> Seq<char> {
    match l {
        Lexeme::Number(n) => n,
        Lexeme::StringValue(x) => quoted(x),
        Lexeme::Null(s) => s,
        Lexeme::Boolean(s) => s,
        Lexeme::EndDocument => Seq::empty(),
        structural => seq![structural_char(structural)],
    }
}

/// The texts of tokens one after another, with a gap before each and a gap at
/// the end.
pub open spec fn spaced_text(t: Seq<Lexeme>, gaps: Seq<Seq<char>>) -> Seq<char>
    decreases t.len(),
{
    if t.len() == 0 {
        gaps[0]
    } else {
        gaps[0] + source_text(t[0]) + spaced_text(t.skip(1), gaps.skip(1))
    }
}

/// Tokens and gaps that make a text from which the tokens can be read again:
/// there is a gap for each place, the gaps are passed over, the tokens are such
/// as the tokenizer produces, none of them the end of the document, and a number
/// has a gap after it or a token that is no number.
pub open spec fn well_spaced(t: Seq<Lexeme>, gaps: Seq<Seq<char>>) -> bool {
    &&& gaps.len() == t.len() + 1
    &&& forall|i: int| 0 <= i < gaps.len() ==> all_skippable(#[trigger] gaps[i])
    &&& forall|i: int| 0 <= i < t.len() ==> lexable(#[trigger] t[i]) && !(t[i] is EndDocument)
    &&& forall|i: int|
        0 <= i < t.len() && (#[trigger] t[i]) is Number ==> gaps[i + 1].len() > 0 || (i + 1
            < t.len() && !(t[i + 1] is Number))
}

/// Text that is passed over changes nothing of what is read after it.
pub proof fn lemma_tokenize_gap(gap: Seq<char>, rest: Seq<char>)
    requires
        all_skippable(gap),
    ensures
        tokenize(gap + rest) == tokenize(rest),
    decreases gap.len(),
{
    if gap.len() == 0 {
        assert(gap + rest =~= rest);
    } else {
        assert(skippable(gap[0]));
        assert((gap + rest).skip(1) =~= gap.skip(1) + rest);
        assert forall|i: int| 0 <= i < gap.skip(1).len() implies skippable(
            #[trigger] gap.skip(1)[i],
        ) by {
            assert(gap.skip(1)[i] == gap[i + 1]);
        }
        lemma_tokenize_gap(gap.skip(1), rest);
    }
}

/// A number is read alone where what follows it begins with no digit, and what
/// follows is read as it would be alone.
pub proof fn lemma_tokenize_number_then(n: Seq<char>, rest: Seq<char>)
    requires
        number_text(n),
        rest.len() > 0,
        !is_digit(rest[0]),
    ensures
        tokenize(n + rest) == seq![Lexeme::Number(n)] + tokenize(rest),
{
    let s = n + rest;
    assert(s[0] == n[0]);
    assert(s.skip(1) =~= n.skip(1) + rest);
    assert forall|i: int| 0 <= i < n.skip(1).len() implies is_digit(#[trigger] n.skip(1)[i]) by {
        assert(n.skip(1)[i] == n[i + 1]);
    }
    lemma_digit_run_prefix(n.skip(1), rest);
    assert((n.skip(1) + rest).skip(n.len() - 1) =~= rest);
    assert(s.take(1 + (n.len() - 1)) =~= n);
    match delimiter_lexeme(rest[0]) {
        Some(delimiter) => {
            assert(structural_lexeme(rest[0]) == Some(delimiter));
            assert(seq![Lexeme::Number(n), delimiter] + tokenize(rest.skip(1)) =~= seq![
                Lexeme::Number(n),
            ] + (seq![delimiter] + tokenize(rest.skip(1))));
        },
        None => {},
    }
}

/// The text of tokens that are well spaced begins with no digit where it begins
/// with a gap or with a token that is no number.
proof fn lemma_spaced_text_begins(t: Seq<Lexeme>, gaps: Seq<Seq<char>>)
    requires
        well_spaced(t, gaps),
        gaps[0].len() > 0 || (t.len() > 0 && !(t[0] is Number)),
    ensures
        spaced_text(t, gaps).len() > 0,
        !is_digit(spaced_text(t, gaps)[0]),
{
    if gaps[0].len() > 0 {
        assert(skippable(gaps[0][0]));
        if t.len() > 0 {
            assert(spaced_text(t, gaps)[0] == gaps[0][0]);
        }
    } else {
        assert(lexable(t[0]) && !(t[0] is EndDocument));
        let source = source_text(t[0]);
        assert(source.len() > 0 && !is_digit(source[0]));
        assert(spaced_text(t, gaps)[0] == source[0]);
    }
}

/// Spacing is immaterial: from the text of well spaced tokens the tokenizer
/// reads those tokens and the end of the document, whatever the gaps hold.
pub proof fn lemma_tokenize_spaced_text(t: Seq<Lexeme>, gaps: Seq<Seq<char>>)
    requires
        well_spaced(t, gaps),
    ensures
        tokenize(spaced_text(t, gaps)) == t + seq![Lexeme::EndDocument],
    decreases t.len(),
{
    assert(all_skippable(gaps[0]));
    if t.len() == 0 {
        lemma_tokenize_gap(gaps[0], Seq::empty());
        assert(gaps[0] + Seq::<char>::empty() =~= gaps[0]);
        assert(t + seq![Lexeme::EndDocument] =~= seq![Lexeme::EndDocument]);
    } else {
        let rest_tokens = t.skip(1);
        let rest_gaps = gaps.skip(1);
        let rest = spaced_text(rest_tokens, rest_gaps);
        assert(well_spaced(rest_tokens, rest_gaps)) by {
            assert forall|i: int| 0 <= i < rest_gaps.len() implies all_skippable(
                #[trigger] rest_gaps[i],
            ) by {
                assert(rest_gaps[i] == gaps[i + 1]);
            }
            assert forall|i: int| 0 <= i < rest_tokens.len() implies lexable(
                #[trigger] rest_tokens[i],
            ) && !(rest_tokens[i] is EndDocument) by {
                assert(rest_tokens[i] == t[i + 1]);
            }
            assert forall|i: int|
                0 <= i < rest_tokens.len() && (#[trigger] rest_tokens[i]) is Number implies {
                    ||| rest_gaps[i + 1].len() > 0
                    ||| i + 1 < rest_tokens.len() && !(rest_tokens[i + 1] is Number)
                } by {
                assert(rest_tokens[i] == t[i + 1]);
                assert(rest_gaps[i + 1] == gaps[i + 2]);
                if i + 1 < rest_tokens.len() {
                    assert(rest_tokens[i + 1] == t[i + 2]);
                }
            }
        }
        lemma_tokenize_spaced_text(rest_tokens, rest_gaps);
        let source = source_text(t[0]);
        assert(spaced_text(t, gaps) =~= gaps[0] + (source + rest));
        lemma_tokenize_gap(gaps[0], source + rest);
        assert(lexable(t[0]) && !(t[0] is EndDocument));
        match t[0] {
            Lexeme::Number(n) => {
                assert(rest_gaps[0] == gaps[1]);
                if rest_tokens.len() > 0 {
                    assert(rest_tokens[0] == t[1]);
                }
                lemma_spaced_text_begins(rest_tokens, rest_gaps);
                lemma_tokenize_number_then(n, rest);
            },
            Lexeme::StringValue(x) => {
                lemma_tokenize_quoted(x, rest);
            },
            structural => {
                lemma_tokenize_structural(structural, rest);
            },
        }
        assert(seq![t[0]] + (rest_tokens + seq![Lexeme::EndDocument]) =~= t + seq![
            Lexeme::EndDocument,
        ]);
    }
}

/// The end of the document after tokens of which none is one changes nothing of
/// the text that they are written as.
pub proof fn lemma_strict_text_end(t: Seq<Lexeme>)
    requires
        forall|i: int| 0 <= i < t.len() ==> !((#[trigger] t[i]) is EndDocument),
    ensures
        strict_text(t + seq![Lexeme::EndDocument]) == strict_text(t),
    decreases t.len(),
{
    let u = t + seq![Lexeme::EndDocument];
    if t.len() > 0 {
        assert(u[0] == t[0]);
        assert(!(t[0] is EndDocument));
        assert(u.skip(1) =~= t.skip(1) + seq![Lexeme::EndDocument]);
        assert forall|i: int| 0 <= i < t.skip(1).len() implies !((#[trigger] t.skip(1)[i])
            is EndDocument) by {
            assert(t.skip(1)[i] == t[i + 1]);
        }
        lemma_strict_text_end(t.skip(1));
        if t.len() >= 2 {
            assert(u[1] == t[1]);
            assert(u.skip(2) =~= t.skip(2) + seq![Lexeme::EndDocument]);
            assert forall|i: int| 0 <= i < t.skip(2).len() implies !((#[trigger] t.skip(2)[i])
                is EndDocument) by {
                assert(t.skip(2)[i] == t[i + 2]);
            }
            lemma_strict_text_end(t.skip(2));
        } else {
            assert(u[1] is EndDocument);
        }
    }
}

/// Strict JSON keeps what it says: text made of quoted keys, quoted strings,
/// integers and structural characters, with whatever is passed over between
/// them, is repaired to the compact text of the same tokens. What stands between
/// the tokens, and after a number too, changes nothing.
pub proof fn lemma_normalize_spaced_text(t: Seq<Lexeme>, gaps: Seq<Seq<char>>)
    requires
        well_spaced(t, gaps),
    ensures
        normalized(spaced_text(t, gaps)) == strict_text(t),
{
    lemma_tokenize_spaced_text(t, gaps);
    lemma_strict_text_end(t);
}

} // verus!
