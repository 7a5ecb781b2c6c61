//! The tokens of the pattern notation, and the scanner that finds them.
//!
//! A pattern is read as ASCII text. Blanks separate tokens and are otherwise
//! ignored. A word is a letter or `_` followed by letters, digits and `_`; the
//! words `min`, `max`, `sum`, `mean` and `prod` are reduction keywords, every
//! other word is an axis name. A number is a run of decimal digits that no
//! letter follows directly. The punctuation is `,`, `->`, `:`, `(`, `)` and
//! the ellipsis `..`.

use crate::error::PatternError;
use crate::operation::Operation;
use vstd::prelude::*;
use vstd::string::is_ascii_spec_bytes;
use vstd::string::StrSliceExecFns;
use vstd::utf8::is_ascii_chars;

verus! {

/// One token of a pattern.
#[derive(Clone, Debug, PartialEq, Eq)]
pub enum Token {
    /// An axis name.
    Ident(String),
    /// A decimal number.
    Size(usize),
    /// A reduction keyword.
    Reduce(Operation),
    /// `..`
    Ellipsis,
    /// `,`
    Comma,
    /// `->`
    Arrow,
    /// `:`
    Colon,
    /// `(`
    Open,
    /// `)`
    Close,
}

/// What a token is, with its name as a sequence of characters.
pub enum TokenView {
    Ident(Seq<char>),
    Size(usize),
    Reduce(Operation),
    Ellipsis,
    Comma,
    Arrow,
    Colon,
    Open,
    Close,
}

impl View for Token {
    type V = TokenView;

    open spec fn view(&self) -> TokenView {
        match self {
            Token::Ident(name) => TokenView::Ident(name@),
            Token::Size(size) => TokenView::Size(*size),
            Token::Reduce(operation) => TokenView::Reduce(*operation),
            Token::Ellipsis => TokenView::Ellipsis,
            Token::Comma => TokenView::Comma,
            Token::Arrow => TokenView::Arrow,
            Token::Colon => TokenView::Colon,
            Token::Open => TokenView::Open,
            Token::Close => TokenView::Close,
        }
    }
}

impl Token {
    /// A copy of the token.
    pub fn duplicate(&self) -> (r: Token)
        ensures
            r@ == self@,
    {
        match self {
            Token::Ident(name) => Token::Ident(name.clone()),
            Token::Size(size) => Token::Size(*size),
            Token::Reduce(operation) => Token::Reduce(*operation),
            Token::Ellipsis => Token::Ellipsis,
            Token::Comma => Token::Comma,
            Token::Arrow => Token::Arrow,
            Token::Colon => Token::Colon,
            Token::Open => Token::Open,
            Token::Close => Token::Close,
        }
    }
}

/// The views of a run of tokens, in order.
pub open spec fn views(tokens: Seq<Token>) -> Seq<TokenView> {
    tokens.map_values(|t: Token| t@)
}

/// A blank: space, tab, line feed or carriage return.
pub open spec fn is_space(c: char) -> bool {
    c == ' ' || c == '\t' || c == '\n' || c == '\r'
}

/// A decimal digit.
pub open spec fn is_digit(c: char) -> bool {
    '0' <= c && c <= '9'
}

/// A character that may start a word.
pub open spec fn is_letter(c: char) -> bool {
    ('a' <= c && c <= 'z') || ('A' <= c && c <= 'Z') || c == '_'
}

/// A character that may continue a word.
pub open spec fn is_word_char(c: char) -> bool {
    is_letter(c) || is_digit(c)
}

/// The number of word characters that start at `i`.
pub open spec fn word_len(s: Seq<char>, i: int) -> nat
    decreases s.len() - i,
{
    if 0 <= i < s.len() && is_word_char(s[i]) {
        1 + word_len(s, i + 1)
    } else {
        0
    }
}

/// The number of digits that start at `i`.
pub open spec fn digits_len(s: Seq<char>, i: int) -> nat
    decreases s.len() - i,
{
    if 0 <= i < s.len() && is_digit(s[i]) {
        1 + digits_len(s, i + 1)
    } else {
        0
    }
}

/// The value of one decimal digit.
pub open spec fn digit_value(c: char) -> nat {
    (c as int - 48) as nat
}

/// The number that a run of decimal digits denotes.
pub open spec fn digits_value(digits: Seq<char>) -> nat
    decreases digits.len(),
{
    if digits.len() == 0 {
        0
    } else {
        10 * digits_value(digits.drop_last()) + digit_value(digits.last())
    }
}

/// The token that a word stands for.
pub open spec fn word_token(word: Seq<char>) -> TokenView {
    match Operation::from_keyword(word) {
        Some(operation) => TokenView::Reduce(operation),
        None => TokenView::Ident(word),
    }
}

/// What starts at position `i` of the text: a blank (no token) or a token,
/// with the position behind it.
pub open spec fn spec_next_token(s: Seq<char>, i: int) -> Result<(Option<TokenView>, int), PatternError>
    recommends
        0 <= i < s.len(),
{
    let c = s[i];
    if is_space(c) {
        Ok((None, i + 1))
    } else if c == ',' {
        Ok((Some(TokenView::Comma), i + 1))
    } else if c == ':' {
        Ok((Some(TokenView::Colon), i + 1))
    } else if c == '(' {
        Ok((Some(TokenView::Open), i + 1))
    } else if c == ')' {
        Ok((Some(TokenView::Close), i + 1))
    } else if c == '-' {
        if i + 1 < s.len() && s[i + 1] == '>' {
            Ok((Some(TokenView::Arrow), i + 2))
        } else {
            Err(PatternError::UnexpectedCharacter)
        }
    } else if c == '.' {
        if i + 1 < s.len() && s[i + 1] == '.' {
            Ok((Some(TokenView::Ellipsis), i + 2))
        } else {
            Err(PatternError::UnexpectedCharacter)
        }
    } else if is_digit(c) {
        let end = i + digits_len(s, i);
        if end < s.len() && is_letter(s[end]) {
            Err(PatternError::UnexpectedCharacter)
        } else if digits_value(s.subrange(i, end)) > usize::MAX {
            Err(PatternError::SizeOverflow)
        } else {
            Ok((Some(TokenView::Size(digits_value(s.subrange(i, end)) as usize)), end))
        }
    } else if is_letter(c) {
        let end = i + word_len(s, i);
        Ok((Some(word_token(s.subrange(i, end))), end))
    } else {
        Err(PatternError::UnexpectedCharacter)
    }
}

/// The tokens of the text from position `i` on, appended to `acc`; or the
/// first error met.
pub open spec fn scan(s: Seq<char>, i: int, acc: Seq<TokenView>) -> Result<Seq<TokenView>, PatternError>
    decreases s.len() - i,
{
    if i < 0 || i >= s.len() {
        Ok(acc)
    } else {
        match spec_next_token(s, i) {
            Err(e) => Err(e),
            Ok((token, next)) => {
                proof {
                    lemma_next_token_advances(s, i);
                }
                scan(
                    s,
                    next,
                    match token {
                        Some(t) => acc.push(t),
                        None => acc,
                    },
                )
            },
        }
    }
}

/// The tokens of a pattern, or the first error met: text that is not ASCII
/// holds an unexpected character.
pub open spec fn spec_tokenize(s: Seq<char>) -> Result<Seq<TokenView>, PatternError> {
    if !is_ascii_chars(s) {
        Err(PatternError::UnexpectedCharacter)
    } else {
        scan(s, 0, Seq::empty())
    }
}

/// The outcome of the scanner, with each token replaced by its view.
pub open spec fn token_result(r: Result<Vec<Token>, PatternError>) -> Result<Seq<TokenView>, PatternError> {
    match r {
        Ok(tokens) => Ok(views(tokens@)),
        Err(e) => Err(e),
    }
}

/// A token always takes at least one character.
pub proof fn lemma_next_token_advances(s: Seq<char>, i: int)
    requires
        0 <= i < s.len(),
    ensures
        spec_next_token(s, i) matches Ok((_, next)) ==> i < next <= s.len(),
{
    lemma_word_len_bound(s, i);
    lemma_digits_len_bound(s, i);
}

/// The scanner fails only with `UnexpectedCharacter` or `SizeOverflow`.
pub proof fn lemma_scan_errors(s: Seq<char>, i: int, acc: Seq<TokenView>)
    ensures
        scan(s, i, acc) matches Err(e) ==> e == PatternError::UnexpectedCharacter || e
            == PatternError::SizeOverflow,
    decreases s.len() - i,
{
    if 0 <= i < s.len() {
        lemma_next_token_advances(s, i);
        match spec_next_token(s, i) {
            Err(e) => {},
            Ok((token, next)) => {
                lemma_scan_errors(
                    s,
                    next,
                    match token {
                        Some(t) => acc.push(t),
                        None => acc,
                    },
                );
            },
        }
    }
}

/// Splitting a pattern into tokens fails only with `UnexpectedCharacter` or
/// `SizeOverflow`.
pub proof fn lemma_tokenize_errors(s: Seq<char>)
    ensures
        spec_tokenize(s) matches Err(e) ==> e == PatternError::UnexpectedCharacter || e
            == PatternError::SizeOverflow,
{
    lemma_scan_errors(s, 0, Seq::empty());
}

/// A run of word characters ends inside the text.
pub proof fn lemma_word_len_bound(s: Seq<char>, i: int)
    requires
        0 <= i <= s.len(),
    ensures
        i + word_len(s, i) <= s.len(),
        forall|k: int| i <= k < i + word_len(s, i) ==> is_word_char(#[trigger] s[k]),
        i + word_len(s, i) < s.len() ==> !is_word_char(s[i + word_len(s, i)]),
    decreases s.len() - i,
{
    if i < s.len() && is_word_char(s[i]) {
        lemma_word_len_bound(s, i + 1);
    }
}

/// A run of digits ends inside the text.
pub proof fn lemma_digits_len_bound(s: Seq<char>, i: int)
    requires
        0 <= i <= s.len(),
    ensures
        i + digits_len(s, i) <= s.len(),
        forall|k: int| i <= k < i + digits_len(s, i) ==> is_digit(#[trigger] s[k]),
        i + digits_len(s, i) < s.len() ==> !is_digit(s[i + digits_len(s, i)]),
    decreases s.len() - i,
{
    if i < s.len() && is_digit(s[i]) {
        lemma_digits_len_bound(s, i + 1);
    }
}

/// A number is at least as large as the number that its first `k` digits denote.
pub proof fn lemma_digits_value_prefix(digits: Seq<char>, k: int)
    requires
        0 <= k <= digits.len(),
    ensures
        digits_value(digits.take(k)) <= digits_value(digits),
    decreases digits.len() - k,
{
    if k == digits.len() {
        assert(digits.take(k) =~= digits);
    } else {
        lemma_digits_value_prefix(digits.drop_last(), k);
        assert(digits.drop_last().take(k) =~= digits.take(k));
    }
}

fn space_at(s: &str, i: usize) -> (r: bool)
    requires
        s.is_ascii(),
        i < s@.len(),
    ensures
        r == is_space(s@[i as int]),
{
    let b: u8 = s.get_ascii(i);
    b == 32 || b == 9 || b == 10 || b == 13
}

fn digit_at(s: &str, i: usize) -> (r: bool)
    requires
        s.is_ascii(),
        i < s@.len(),
    ensures
        r == is_digit(s@[i as int]),
{
    let b: u8 = s.get_ascii(i);
    b >= 48 && b <= 57
}

fn letter_at(s: &str, i: usize) -> (r: bool)
    requires
        s.is_ascii(),
        i < s@.len(),
    ensures
        r == is_letter(s@[i as int]),
{
    let b: u8 = s.get_ascii(i);
    (b >= 97 && b <= 122) || (b >= 65 && b <= 90) || b == 95
}

/// The number written in the digits from `i` up to `j`, unless it overflows.
fn number_at(s: &str, i: usize, j: usize) -> (r: Option<usize>)
    requires
        s.is_ascii(),
        i <= j <= s@.len(),
        forall|k: int| i <= k < j ==> is_digit(#[trigger] s@[k]),
    ensures
        match r {
            Some(v) => v == digits_value(s@.subrange(i as int, j as int)),
            None => digits_value(s@.subrange(i as int, j as int)) > usize::MAX,
        },
{
    let ghost whole = s@.subrange(i as int, j as int);
    let mut acc: usize = 0;
    let mut k: usize = i;
    while k < j
        invariant
            s.is_ascii(),
            i <= k <= j <= s@.len(),
            whole == s@.subrange(i as int, j as int),
            forall|m: int| i <= m < j ==> is_digit(#[trigger] s@[m]),
            acc == digits_value(s@.subrange(i as int, k as int)),
        decreases j - k,
    {
        let b: u8 = s.get_ascii(k);
        assert(is_digit(s@[k as int]));
        let d: usize = (b - 48) as usize;
        proof {
            let longer = s@.subrange(i as int, k + 1);
            assert(longer.drop_last() =~= s@.subrange(i as int, k as int));
            assert(longer.last() == s@[k as int]);
            assert(digits_value(longer) == 10 * acc + d);
            assert(whole.take(k + 1 - i) =~= longer);
            lemma_digits_value_prefix(whole, k + 1 - i);
        }
        match acc.checked_mul(10) {
            None => {
                return None;
            },
            Some(tens) => {
                match tens.checked_add(d) {
                    None => {
                        return None;
                    },
                    Some(v) => {
                        acc = v;
                    },
                }
            },
        }
        k = k + 1;
    }
    Some(acc)
}

/// The reduction that the word from `i` up to `j` selects, if it is a keyword.
fn keyword_at(s: &str, i: usize, j: usize) -> (r: Option<Operation>)
    requires
        s.is_ascii(),
        i < j <= s@.len(),
    ensures
        r == Operation::from_keyword(s@.subrange(i as int, j as int)),
{
    let ghost word = s@.subrange(i as int, j as int);
    proof {
        assert(Operation::Min.keyword().len() == 3 && Operation::Max.keyword().len() == 3);
        assert(Operation::Sum.keyword().len() == 3 && Operation::Mean.keyword().len() == 4);
        assert(Operation::Prod.keyword().len() == 4);
    }
    if j - i == 3 {
        let a: u8 = s.get_ascii(i);
        let b: u8 = s.get_ascii(i + 1);
        let c: u8 = s.get_ascii(i + 2);
        proof {
            assert(word[0] == s@[i as int] && word[1] == s@[i + 1] && word[2] == s@[i + 2]);
            assert(Operation::Min.keyword()[0] == 'm' && Operation::Min.keyword()[1] == 'i'
                && Operation::Min.keyword()[2] == 'n');
            assert(Operation::Max.keyword()[0] == 'm' && Operation::Max.keyword()[1] == 'a'
                && Operation::Max.keyword()[2] == 'x');
            assert(Operation::Sum.keyword()[0] == 's' && Operation::Sum.keyword()[1] == 'u'
                && Operation::Sum.keyword()[2] == 'm');
        }
        if a == 109 && b == 105 && c == 110 {
            assert(word =~= Operation::Min.keyword());
            Some(Operation::Min)
        } else if a == 109 && b == 97 && c == 120 {
            assert(word =~= Operation::Max.keyword());
            Some(Operation::Max)
        } else if a == 115 && b == 117 && c == 109 {
            assert(word =~= Operation::Sum.keyword());
            Some(Operation::Sum)
        } else {
            None
        }
    } else if j - i == 4 {
        let a: u8 = s.get_ascii(i);
        let b: u8 = s.get_ascii(i + 1);
        let c: u8 = s.get_ascii(i + 2);
        let d: u8 = s.get_ascii(i + 3);
        proof {
            assert(word[0] == s@[i as int] && word[1] == s@[i + 1] && word[2] == s@[i + 2]
                && word[3] == s@[i + 3]);
            assert(Operation::Mean.keyword()[0] == 'm' && Operation::Mean.keyword()[1] == 'e'
                && Operation::Mean.keyword()[2] == 'a' && Operation::Mean.keyword()[3] == 'n');
            assert(Operation::Prod.keyword()[0] == 'p' && Operation::Prod.keyword()[1] == 'r'
                && Operation::Prod.keyword()[2] == 'o' && Operation::Prod.keyword()[3] == 'd');
        }
        if a == 109 && b == 101 && c == 97 && d == 110 {
            assert(word =~= Operation::Mean.keyword());
            Some(Operation::Mean)
        } else if a == 112 && b == 114 && c == 111 && d == 100 {
            assert(word =~= Operation::Prod.keyword());
            Some(Operation::Prod)
        } else {
            None
        }
    } else {
        None
    }
}

/// Reads what starts at position `i`: a blank or one token.
fn next_token(s: &str, n: usize, i: usize) -> (r: Result<(Option<Token>, usize), PatternError>)
    requires
        s.is_ascii(),
        n == s@.len(),
        i < n,
    ensures
        match r {
            Ok((token, next)) => spec_next_token(s@, i as int) == Ok::<_, PatternError>(
                (
                    match token {
                        Some(t) => Some(t@),
                        None => None,
                    },
                    next as int,
                ),
            ),
            Err(e) => spec_next_token(s@, i as int) == Err::<(Option<TokenView>, int), _>(e),
        },
{
    let b: u8 = s.get_ascii(i);
    if space_at(s, i) {
        Ok((None, i + 1))
    } else if b == 44 {
        Ok((Some(Token::Comma), i + 1))
    } else if b == 58 {
        Ok((Some(Token::Colon), i + 1))
    } else if b == 40 {
        Ok((Some(Token::Open), i + 1))
    } else if b == 41 {
        Ok((Some(Token::Close), i + 1))
    } else if b == 45 {
        if i + 1 < n && s.get_ascii(i + 1) == 62 {
            Ok((Some(Token::Arrow), i + 2))
        } else {
            Err(PatternError::UnexpectedCharacter)
        }
    } else if b == 46 {
        if i + 1 < n && s.get_ascii(i + 1) == 46 {
            Ok((Some(Token::Ellipsis), i + 2))
        } else {
            Err(PatternError::UnexpectedCharacter)
        }
    } else if digit_at(s, i) {
        let mut j: usize = i + 1;
        while j < n && digit_at(s, j)
            invariant
                s.is_ascii(),
                n == s@.len(),
                i < j <= n,
                digits_len(s@, i as int) == (j - i) + digits_len(s@, j as int),
                forall|k: int| i <= k < j ==> is_digit(#[trigger] s@[k]),
            decreases n - j,
        {
            j = j + 1;
        }
        if j < n && letter_at(s, j) {
            Err(PatternError::UnexpectedCharacter)
        } else {
            match number_at(s, i, j) {
                None => Err(PatternError::SizeOverflow),
                Some(v) => Ok((Some(Token::Size(v)), j)),
            }
        }
    } else if letter_at(s, i) {
        let mut j: usize = i + 1;
        while j < n && (letter_at(s, j) || digit_at(s, j))
            invariant
                s.is_ascii(),
                n == s@.len(),
                i < j <= n,
                word_len(s@, i as int) == (j - i) + word_len(s@, j as int),
            decreases n - j,
        {
            j = j + 1;
        }
        match keyword_at(s, i, j) {
            Some(operation) => Ok((Some(Token::Reduce(operation)), j)),
            None => {
                let name: String = s.substring_ascii(i, j).to_owned();
                Ok((Some(Token::Ident(name)), j))
            },
        }
    } else {
        Err(PatternError::UnexpectedCharacter)
    }
}

/// Splits a pattern into its tokens.
///
/// Returns the tokens in the order in which they stand in the text, or the
/// first error met from the left: `UnexpectedCharacter` for text that is not
/// ASCII, for a character that starts no token and for a letter directly
/// after a number; `SizeOverflow` for a number that does not fit `usize`.
pub fn tokenize(pattern: &str) -> (r: Result<Vec<Token>, PatternError>)
    ensures
        token_result(r) == spec_tokenize(pattern@),
{
    if !pattern.is_ascii() {
        return Err(PatternError::UnexpectedCharacter);
    }
    proof {
        is_ascii_spec_bytes(pattern);
    }
    let n: usize = pattern.as_bytes().len();
    let mut out: Vec<Token> = Vec::new();
    let mut i: usize = 0;
    assert(views(out@) =~= Seq::<TokenView>::empty());
    while i < n
        invariant
            pattern.is_ascii(),
            n == pattern@.len(),
            i <= n,
            scan(pattern@, 0, Seq::empty()) == scan(pattern@, i as int, views(out@)),
        decreases n - i,
    {
        proof {
            lemma_next_token_advances(pattern@, i as int);
        }
        match next_token(pattern, n, i) {
            Err(e) => {
                return Err(e);
            },
            Ok((token, next)) => {
                let ghost before = out@;
                match token {
                    Some(t) => {
                        out.push(t);
                        assert(views(out@) =~= views(before).push(t@));
                    },
                    None => {},
                }
                i = next;
            },
        }
    }
    Ok(out)
}

} // verus!
