use crate::util::text::{chars_of, push_char};
use vstd::prelude::*;
use vstd::string::StringExecFns;

verus! {

/// One lexical unit of relaxed JSON text.
#[derive(Debug)]
pub enum TokenType {
    BeginObject,
    EndObject,
    BeginArray,
    EndArray,
    Null(String),
    Number(String),
    Boolean(String),
    SepColon,
    SepComma,
    StringValue(String),
    EndDocument,
}

/// The mathematical value of a token: the same variants over character sequences.
pub enum Lexeme {
    BeginObject,
    EndObject,
    BeginArray,
    EndArray,
    Null(Seq<char>),
    Number(Seq<char>),
    Boolean(Seq<char>),
    SepColon,
    SepComma,
    StringValue(Seq<char>),
    EndDocument,
}

impl View for TokenType {
    type V = Lexeme;

    open spec fn view(&self) -> Lexeme {
        match self {
            TokenType::BeginObject => Lexeme::BeginObject,
            TokenType::EndObject => Lexeme::EndObject,
            TokenType::BeginArray => Lexeme::BeginArray,
            TokenType::EndArray => Lexeme::EndArray,
            TokenType::Null(s) => Lexeme::Null(s@),
            TokenType::Number(s) => Lexeme::Number(s@),
            TokenType::Boolean(s) => Lexeme::Boolean(s@),
            TokenType::SepColon => Lexeme::SepColon,
            TokenType::SepComma => Lexeme::SepComma,
            TokenType::StringValue(s) => Lexeme::StringValue(s@),
            TokenType::EndDocument => Lexeme::EndDocument,
        }
    }
}

impl Clone for TokenType {
    fn clone(&self) -> (token: TokenType)
        ensures
            token@ == self@,
    {
        match self {
            TokenType::BeginObject => TokenType::BeginObject,
            TokenType::EndObject => TokenType::EndObject,
            TokenType::BeginArray => TokenType::BeginArray,
            TokenType::EndArray => TokenType::EndArray,
            TokenType::Null(s) => TokenType::Null(s.clone()),
            TokenType::Number(s) => TokenType::Number(s.clone()),
            TokenType::Boolean(s) => TokenType::Boolean(s.clone()),
            TokenType::SepColon => TokenType::SepColon,
            TokenType::SepComma => TokenType::SepComma,
            TokenType::StringValue(s) => TokenType::StringValue(s.clone()),
            TokenType::EndDocument => TokenType::EndDocument,
        }
    }
}

/// The lexemes of a token vector, in order.
pub open spec fn lexemes(tokens: Seq<TokenType>) -> Seq<Lexeme> {
    Seq::new(tokens.len(), |i: int| tokens[i]@)
}

pub open spec fn is_digit(c: char) -> bool {
    '0' <= c <= '9'
}

/// The number of digits at the front of `s`.
pub open spec fn digit_run(s: Seq<char>) -> nat
    decreases s.len(),
{
    if s.len() > 0 && is_digit(s[0]) {
        1 + digit_run(s.skip(1))
    } else {
        0
    }
}

/// The number of characters at the front of `s` that come before its first double quote.
pub open spec fn quote_free_run(s: Seq<char>) -> nat
    decreases s.len(),
{
    if s.len() > 0 && s[0] != '"' {
        1 + quote_free_run(s.skip(1))
    } else {
        0
    }
}

pub proof fn lemma_digit_run_bound(s: Seq<char>)
    ensures
        digit_run(s) <= s.len(),
        forall|i: int| 0 <= i < digit_run(s) ==> is_digit(#[trigger] s[i]),
        digit_run(s) < s.len() ==> !is_digit(s[digit_run(s) as int]),
    decreases s.len(),
{
    if s.len() > 0 && is_digit(s[0]) {
        lemma_digit_run_bound(s.skip(1));
        assert forall|i: int| 0 <= i < digit_run(s) implies is_digit(#[trigger] s[i]) by {
            if i > 0 {
                assert(s[i] == s.skip(1)[i - 1]);
            }
        }
    }
}

pub proof fn lemma_quote_free_run_bound(s: Seq<char>)
    ensures
        quote_free_run(s) <= s.len(),
        forall|i: int| 0 <= i < quote_free_run(s) ==> #[trigger] s[i] != '"',
        quote_free_run(s) < s.len() ==> s[quote_free_run(s) as int] == '"',
    decreases s.len(),
{
    if s.len() > 0 && s[0] != '"' {
        lemma_quote_free_run_bound(s.skip(1));
        assert forall|i: int| 0 <= i < quote_free_run(s) implies #[trigger] s[i] != '"' by {
            if i > 0 {
                assert(s[i] == s.skip(1)[i - 1]);
            }
        }
    }
}

/// The token of a character that ends a number and is read with it: one of the
/// four delimiters. Any other character is no delimiter.
pub open spec fn delimiter_lexeme(c: char) -> Option<Lexeme> {
    if c == ':' {
        Some(Lexeme::SepColon)
    } else if c == ',' {
        Some(Lexeme::SepComma)
    } else if c == '}' {
        Some(Lexeme::EndObject)
    } else if c == ']' {
        Some(Lexeme::EndArray)
    } else {
        None
    }
}

/// The token that is read with a number, where `after` is what stands after its
/// digits: the end of the document where nothing does, and otherwise the token
/// of a delimiter.
pub open spec fn token_after_digits(after: Seq<char>) -> Option<Lexeme> {
    if after.len() == 0 {
        Some(Lexeme::EndDocument)
    } else {
        delimiter_lexeme(after[0])
    }
}

/// The token that a structural character stands for, if `c` is one.
pub open spec fn structural_lexeme(c: char) -> Option<Lexeme> {
    if c == '{' {
        Some(Lexeme::BeginObject)
    } else if c == '}' {
        Some(Lexeme::EndObject)
    } else if c == '[' {
        Some(Lexeme::BeginArray)
    } else if c == ']' {
        Some(Lexeme::EndArray)
    } else if c == ',' {
        Some(Lexeme::SepComma)
    } else if c == ':' {
        Some(Lexeme::SepColon)
    } else {
        None
    }
}

/// The tokens of relaxed JSON text, read from left to right. A structural
/// character is its token. A digit or a minus sign begins a number, which takes
/// the digits that follow: a delimiter right after them is read with the number,
/// any other character is left to be read next, and where the text ends there the
/// number is followed by the end of the document. A double quote begins a string,
/// which takes what stands before the next double quote. Any other character is
/// passed over. The end of the document stands where the text ends, and nowhere
/// else.
pub open spec fn tokenize(s: Seq<char>) -> Seq<Lexeme>
    decreases s.len(),
    via tokenize_terminates
{
    if s.len() == 0 {
        seq![Lexeme::EndDocument]
    } else {
        let c = s[0];
        let rest = s.skip(1);
        if let Some(l) = structural_lexeme(c) {
            seq![l] + tokenize(rest)
        } else if is_digit(c) || c == '-' {
            let n = digit_run(rest);
            let after = rest.skip(n as int);
            let number = Lexeme::Number(s.take(1 + n as int));
            if after.len() == 0 {
                seq![number, Lexeme::EndDocument] + tokenize(after)
            } else {
                match delimiter_lexeme(after[0]) {
                    Some(delimiter) => seq![number, delimiter] + tokenize(after.skip(1)),
                    None => seq![number] + tokenize(after),
                }
            }
        } else if c == '"' {
            let n = quote_free_run(rest);
            let after = rest.skip(n as int);
            let string = Lexeme::StringValue(rest.take(n as int));
            if after.len() == 0 {
                seq![string] + tokenize(after)
            } else {
                seq![string] + tokenize(after.skip(1))
            }
        } else {
            tokenize(rest)
        }
    }
}

#[via_fn]
proof fn tokenize_terminates(s: Seq<char>) {
    if s.len() > 0 {
        lemma_digit_run_bound(s.skip(1));
        lemma_quote_free_run_bound(s.skip(1));
    }
}

/// The character that a structural token is written as.
pub open spec fn structural_char(l: Lexeme) -> char {
    match l {
        Lexeme::BeginObject => '{',
        Lexeme::EndObject => '}',
        Lexeme::BeginArray => '[',
        Lexeme::EndArray => ']',
        Lexeme::SepColon => ':',
        _ => ',',
    }
}

/// Whether a token ends a value: a closing brace, a closing bracket or a comma.
pub open spec fn closes_value(l: Lexeme) -> bool {
    l is EndObject || l is EndArray || l is SepComma
}

/// `s` between two double quotes.
pub open spec fn quoted(s: Seq<char>) -> Seq<char> {
    seq!['"'] + s + seq!['"']
}

/// The strict JSON text that a token sequence is written as. A number or a string
/// that a colon follows is a key, and is quoted; one that a closing token follows is
/// a value, a number bare and a string quoted. The text ends at the first token
/// that fits neither, and at the end of the document.
pub open spec fn strict_text(t: Seq<Lexeme>) -> Seq<char>
    decreases t.len(),
{
    if t.len() == 0 {
        Seq::empty()
    } else {
        match t[0] {
            Lexeme::EndDocument => Seq::empty(),
            Lexeme::Null(s) | Lexeme::Boolean(s) => s + strict_text(t.skip(1)),
            Lexeme::Number(s) => {
                if t.len() >= 2 && t[1] is SepColon {
                    quoted(s) + seq![':'] + strict_text(t.skip(2))
                } else if t.len() >= 2 && closes_value(t[1]) {
                    s + seq![structural_char(t[1])] + strict_text(t.skip(2))
                } else {
                    Seq::empty()
                }
            },
            Lexeme::StringValue(s) => {
                if t.len() >= 2 && t[1] is SepColon {
                    quoted(s) + seq![':'] + strict_text(t.skip(2))
                } else if t.len() >= 2 && closes_value(t[1]) {
                    quoted(s) + seq![structural_char(t[1])] + strict_text(t.skip(2))
                } else {
                    Seq::empty()
                }
            },
            structural => seq![structural_char(structural)] + strict_text(t.skip(1)),
        }
    }
}

/// The strict JSON text that relaxed JSON text is repaired to.
pub open spec fn normalized(s: Seq<char>) -> Seq<char> {
    strict_text(tokenize(s))
}

/// Reads relaxed JSON text into tokens, and writes tokens as strict JSON text.
#[derive(Debug)]
pub struct Tokenizer {
    source: String,
    tokens: Vec<TokenType>,
}

impl Tokenizer {
    /// The text that this tokenizer reads.
    pub closed spec fn source(&self) -> Seq<char> {
        self.source@
    }

    /// The tokens produced so far.
    pub closed spec fn lexemes(&self) -> Seq<Lexeme> {
        lexemes(self.tokens@)
    }

    pub fn new(source: String) -> (t: Tokenizer)
        ensures
            t.source() == source@,
            t.lexemes() == Seq::<Lexeme>::empty(),
    {
        Tokenizer { source, tokens: Vec::new() }
    }

    pub fn tokens(&self) -> (tokens: &Vec<TokenType>)
        ensures
            lexemes(tokens@) == self.lexemes(),
    {
        &self.tokens
    }

    /// Reads the whole source and appends its tokens to those already held.
    pub fn parse(&mut self)
        ensures
            final(self).source() == old(self).source(),
            final(self).lexemes() == old(self).lexemes() + tokenize(old(self).source()),
    {
        let chars = chars_of(self.source.as_str());
        let mut i: usize = 0;
        assert(chars@.skip(0) =~= chars@);
        while i < chars.len()
            invariant
                i <= chars.len(),
                self.source@ == old(self).source@,
                lexemes(self.tokens@) + tokenize(chars@.skip(i as int)) == lexemes(
                    old(self).tokens@,
                ) + tokenize(chars@),
            decreases chars.len() - i,
        {
            i = Self::parse_one(&mut self.tokens, &chars, i);
        }
        self.tokens.push(TokenType::EndDocument);
        assert(lexemes(self.tokens@) =~= lexemes(old(self).tokens@) + tokenize(chars@));
    }

    /// The token of a structural character.
    fn structural_token(c: char) -> (token: Option<TokenType>)
        ensures
            match token {
                Some(t) => structural_lexeme(c) == Some(t@),
                None => structural_lexeme(c) is None,
            },
    {
        if c == '{' {
            Some(TokenType::BeginObject)
        } else if c == '}' {
            Some(TokenType::EndObject)
        } else if c == '[' {
            Some(TokenType::BeginArray)
        } else if c == ']' {
            Some(TokenType::EndArray)
        } else if c == ',' {
            Some(TokenType::SepComma)
        } else if c == ':' {
            Some(TokenType::SepColon)
        } else {
            None
        }
    }

    /// Reads what begins at `chars[i]`: one structural token, one number, with the
    /// token of its delimiter where one follows it, one string, or a character
    /// that is skipped. Returns the position where reading goes on.
    fn parse_one(tokens: &mut Vec<TokenType>, chars: &Vec<char>, i: usize) -> (next: usize)
        requires
            i < chars.len(),
        ensures
            i < next <= chars.len(),
            lexemes(final(tokens)@) + tokenize(chars@.skip(next as int)) == lexemes(old(tokens)@)
                + tokenize(chars@.skip(i as int)),
    {
        let ghost before = lexemes(tokens@);
        let ghost here = chars@.skip(i as int);
        let ghost rest = chars@.skip(i + 1);
        let c = chars[i];
        proof {
            assert(here.skip(1) =~= rest);
            lemma_digit_run_bound(rest);
            lemma_quote_free_run_bound(rest);
        }
        match Self::structural_token(c) {
            Some(token) => {
                tokens.push(token);
                proof {
                    let added = seq![token@];
                    assert(lexemes(tokens@) =~= before + added);
                    assert(added + tokenize(rest) == tokenize(here));
                }
                i + 1
            },
            None => {
                if (c >= '0' && c <= '9') || c == '-' {
                    let (first, second, next) = Self::parse_number(c, chars, i + 1);
                    let ghost n = digit_run(rest);
                    proof {
                        assert(here.take(1 + n as int) =~= seq![c] + rest.take(n as int));
                        assert(rest.skip(n as int) =~= chars@.skip(i + 1 + n));
                        if i + 1 + n < chars.len() {
                            assert(rest.skip(n as int).skip(1) =~= chars@.skip(i + 2 + n));
                        }
                    }
                    let ghost number = first@;
                    tokens.push(first);
                    match second {
                        Some(second) => {
                            let ghost added = seq![number, second@];
                            tokens.push(second);
                            proof {
                                assert(lexemes(tokens@) =~= before + added);
                                assert(added + tokenize(chars@.skip(next as int)) == tokenize(
                                    here,
                                ));
                            }
                        },
                        None => {
                            proof {
                                let added = seq![number];
                                assert(lexemes(tokens@) =~= before + added);
                                assert(added + tokenize(chars@.skip(next as int)) == tokenize(
                                    here,
                                ));
                            }
                        },
                    }
                    next
                } else if c == '"' {
                    let (token, next) = Self::parse_string(chars, i + 1);
                    let ghost n = quote_free_run(rest);
                    proof {
                        if i + 1 + n < chars.len() {
                            assert(rest.skip(n as int).skip(1) =~= chars@.skip(next as int));
                        } else {
                            assert(rest.skip(n as int) =~= chars@.skip(next as int));
                        }
                    }
                    tokens.push(token);
                    proof {
                        let added = seq![token@];
                        assert(lexemes(tokens@) =~= before + added);
                        assert(added + tokenize(chars@.skip(next as int)) == tokenize(here));
                    }
                    next
                } else {
                    proof {
                        let added = Seq::<Lexeme>::empty();
                        assert(lexemes(tokens@) =~= before + added);
                        assert(added + tokenize(rest) =~= tokenize(here));
                    }
                    i + 1
                }
            },
        }
    }

    /// Reads a string whose opening quote stands just before `start`: the
    /// characters up to the next double quote, which is passed over, or up to the
    /// end of the text.
    fn parse_string(chars: &Vec<char>, start: usize) -> (r: (TokenType, usize))
        requires
            start <= chars.len(),
        ensures
            r.0@ == Lexeme::StringValue(
                chars@.skip(start as int).take(quote_free_run(chars@.skip(start as int)) as int),
            ),
            start + quote_free_run(chars@.skip(start as int)) < chars.len() ==> r.1 == start
                + quote_free_run(chars@.skip(start as int)) + 1,
            start + quote_free_run(chars@.skip(start as int)) >= chars.len() ==> r.1
                == chars.len(),
    {
        let ghost rest = chars@.skip(start as int);
        let mut value = String::new();
        let mut i: usize = start;
        loop
            invariant
                start <= i <= chars.len(),
                rest == chars@.skip(start as int),
                value@ == rest.take(i - start),
                quote_free_run(rest) == (i - start) + quote_free_run(chars@.skip(i as int)),
            decreases chars.len() - i,
        {
            if i >= chars.len() {
                return (TokenType::StringValue(value), i);
            }
            let c = chars[i];
            proof {
                assert(chars@.skip(i as int).skip(1) =~= chars@.skip(i + 1));
            }
            if c == '"' {
                return (TokenType::StringValue(value), i + 1);
            }
            push_char(&mut value, c);
            proof {
                assert(rest.take(i + 1 - start) =~= rest.take(i - start).push(c));
            }
            i = i + 1;
        }
    }

    /// Reads a number whose first character, `first`, stands just before `start`:
    /// the digits that follow. A delimiter right after them is passed over and
    /// becomes the second token; where the text ends after them, the second token
    /// is the end of the document; any other character stays where it is, and
    /// there is no second token.
    fn parse_number(first: char, chars: &Vec<char>, start: usize) -> (r: (
        TokenType,
        Option<TokenType>,
        usize,
    ))
        requires
            start <= chars.len(),
        ensures
            r.0@ == Lexeme::Number(
                seq![first] + chars@.skip(start as int).take(
                    digit_run(chars@.skip(start as int)) as int,
                ),
            ),
            match r.1 {
                Some(second) => token_after_digits(
                    chars@.skip(start + digit_run(chars@.skip(start as int))),
                ) == Some(second@),
                None => token_after_digits(
                    chars@.skip(start + digit_run(chars@.skip(start as int))),
                ) is None,
            },
            r.2 == start + digit_run(chars@.skip(start as int)) + (if start + digit_run(
                chars@.skip(start as int),
            ) < chars.len() && r.1 is Some {
                1int
            } else {
                0int
            }),
    {
        let ghost rest = chars@.skip(start as int);
        let mut value = String::new();
        push_char(&mut value, first);
        let mut i: usize = start;
        loop
            invariant
                start <= i <= chars.len(),
                rest == chars@.skip(start as int),
                value@ == seq![first] + rest.take(i - start),
                digit_run(rest) == (i - start) + digit_run(chars@.skip(i as int)),
            decreases chars.len() - i,
        {
            if i >= chars.len() {
                return (TokenType::Number(value), Some(TokenType::EndDocument), i);
            }
            let c = chars[i];
            proof {
                assert(chars@.skip(i as int).skip(1) =~= chars@.skip(i + 1));
                assert(chars@.skip(i as int)[0] == c);
            }
            if c >= '0' && c <= '9' {
                push_char(&mut value, c);
                proof {
                    assert(rest.take(i + 1 - start) =~= rest.take(i - start).push(c));
                    assert(seq![first] + rest.take(i - start).push(c) =~= (seq![first] + rest.take(
                        i - start,
                    )).push(c));
                }
                i = i + 1;
            } else if c == ':' {
                return (TokenType::Number(value), Some(TokenType::SepColon), i + 1);
            } else if c == ',' {
                return (TokenType::Number(value), Some(TokenType::SepComma), i + 1);
            } else if c == '}' {
                return (TokenType::Number(value), Some(TokenType::EndObject), i + 1);
            } else if c == ']' {
                return (TokenType::Number(value), Some(TokenType::EndArray), i + 1);
            } else {
                return (TokenType::Number(value), None, i);
            }
        }
    }

    /// Tokenizes the source, then writes all the tokens held as strict JSON text.
    pub fn regular_json(&mut self) -> (json: String)
        ensures
            final(self).source() == old(self).source(),
            final(self).lexemes() == old(self).lexemes() + tokenize(old(self).source()),
            json@ == strict_text(final(self).lexemes()),
    {
        self.parse();
        Self::do_regular_json(&self.tokens)
    }

    /// The character of a token that ends a value.
    fn closing_char(token: &TokenType) -> (c: Option<char>)
        ensures
            c == (if closes_value(token@) {
                Some(structural_char(token@))
            } else {
                None
            }),
    {
        match token {
            TokenType::EndObject => Some('}'),
            TokenType::EndArray => Some(']'),
            TokenType::SepComma => Some(','),
            _ => None,
        }
    }

    fn is_colon(token: &TokenType) -> (b: bool)
        ensures
            b == (token@ is SepColon),
    {
        match token {
            TokenType::SepColon => true,
            _ => false,
        }
    }

    /// Appends `text` between two double quotes.
    fn push_quoted(json: &mut String, text: &str)
        ensures
            final(json)@ == old(json)@ + quoted(text@),
    {
        push_char(json, '"');
        json.append(text);
        push_char(json, '"');
        assert(json@ =~= old(json)@ + quoted(text@));
    }

    /// Writes a token sequence as strict JSON text, up to the first token that has
    /// no place in it.
    pub fn do_regular_json(tokens: &Vec<TokenType>) -> (json: String)
        ensures
            json@ == strict_text(lexemes(tokens@)),
    {
        let ghost all = lexemes(tokens@);
        let mut json = String::new();
        let mut i: usize = 0;
        assert(all.skip(0) =~= all);
        while i < tokens.len()
            invariant
                i <= tokens.len(),
                all == lexemes(tokens@),
                json@ + strict_text(all.skip(i as int)) == strict_text(all),
            decreases tokens.len() - i,
        {
            let ghost here = all.skip(i as int);
            let ghost done = json@;
            proof {
                assert(here.skip(1) =~= all.skip(i + 1));
                if i + 1 < tokens.len() {
                    assert(here.skip(2) =~= all.skip(i + 2));
                }
            }
            match &tokens[i] {
                TokenType::EndDocument => {
                    assert(json@ =~= strict_text(all));
                    return json;
                },
                TokenType::Null(s) => {
                    json.append(s.as_str());
                    i = i + 1;
                    assert(json@ + strict_text(all.skip(i as int)) =~= done + strict_text(here));
                },
                TokenType::Boolean(s) => {
                    json.append(s.as_str());
                    i = i + 1;
                    assert(json@ + strict_text(all.skip(i as int)) =~= done + strict_text(here));
                },
                TokenType::Number(s) => {
                    if i + 1 >= tokens.len() {
                        assert(json@ =~= strict_text(all));
                        return json;
                    }
                    let next = &tokens[i + 1];
                    if Self::is_colon(next) {
                        Self::push_quoted(&mut json, s.as_str());
                        push_char(&mut json, ':');
                    } else {
                        match Self::closing_char(next) {
                            Some(c) => {
                                json.append(s.as_str());
                                push_char(&mut json, c);
                            },
                            None => {
                                assert(json@ =~= strict_text(all));
                                return json;
                            },
                        }
                    }
                    i = i + 2;
                    assert(json@ + strict_text(all.skip(i as int)) =~= done + strict_text(here));
                },
                TokenType::StringValue(s) => {
                    if i + 1 >= tokens.len() {
                        assert(json@ =~= strict_text(all));
                        return json;
                    }
                    let next = &tokens[i + 1];
                    if Self::is_colon(next) {
                        Self::push_quoted(&mut json, s.as_str());
                        push_char(&mut json, ':');
                    } else {
                        match Self::closing_char(next) {
                            Some(c) => {
                                Self::push_quoted(&mut json, s.as_str());
                                push_char(&mut json, c);
                            },
                            None => {
                                assert(json@ =~= strict_text(all));
                                return json;
                            },
                        }
                    }
                    i = i + 2;
                    assert(json@ + strict_text(all.skip(i as int)) =~= done + strict_text(here));
                },
                TokenType::BeginObject => {
                    push_char(&mut json, '{');
                    i = i + 1;
                    assert(json@ + strict_text(all.skip(i as int)) =~= done + strict_text(here));
                },
                TokenType::EndObject => {
                    push_char(&mut json, '}');
                    i = i + 1;
                    assert(json@ + strict_text(all.skip(i as int)) =~= done + strict_text(here));
                },
                TokenType::BeginArray => {
                    push_char(&mut json, '[');
                    i = i + 1;
                    assert(json@ + strict_text(all.skip(i as int)) =~= done + strict_text(here));
                },
                TokenType::EndArray => {
                    push_char(&mut json, ']');
                    i = i + 1;
                    assert(json@ + strict_text(all.skip(i as int)) =~= done + strict_text(here));
                },
                TokenType::SepColon => {
                    push_char(&mut json, ':');
                    i = i + 1;
                    assert(json@ + strict_text(all.skip(i as int)) =~= done + strict_text(here));
                },
                TokenType::SepComma => {
                    push_char(&mut json, ',');
                    i = i + 1;
                    assert(json@ + strict_text(all.skip(i as int)) =~= done + strict_text(here));
                },
            }
        }
        assert(json@ =~= strict_text(all));
        json
    }
}

/// Repairs relaxed JSON text into strict JSON text.
pub fn normalize(text: &str) -> (json: String)
    ensures
        json@ == normalized(text@),
{
    let mut tokenizer = Tokenizer::new(String::from_str(text));
    let json = tokenizer.regular_json();
    assert(tokenizer.lexemes() =~= tokenize(text@));
    json
}

} // verus!
