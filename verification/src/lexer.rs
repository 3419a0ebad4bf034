//! Lexical grammar and two-section program grammar.
//!
//! Source text is a `.data` section of zero or more constant declarations
//! followed by a `.code` section of one or more instruction expressions.
//! Tokens are classified purely by a leading sigil or a trailing colon:
//! `@name`, `.name` and `name:` are identifiers, `'text'` is a string
//! literal, `#123` a signed integer, `$3` a register index.
//!
//! The grammar is deterministic: at every point the next rule is chosen by
//! the next character (committed choice), and the whole input must be
//! consumed. Every rule is written twice, as a specification function over
//! a sequence of characters and as an executable function proved to return
//! exactly what the specification prescribes. Parse failures carry the
//! character offset at which the committed rule stopped matching.
//!
//! Spans and failure offsets count characters. The grammar's whole
//! alphabet is ASCII, so on any input that parses — and on any prefix of
//! ASCII text — a character offset and a byte offset are the same number;
//! the two differ only for a failure offset past a non-ASCII character.

use vstd::prelude::*;
use vstd::string::StrSliceExecFns;

use crate::text::lit_at;
use crate::text::match_lit;

verus! {

/// A value paired with the source span `[start, end)` it was read from.
#[derive(Debug, PartialEq, Clone)]
pub struct Node<T> {
    pub start: usize,
    pub end: usize,
    pub expr: T,
}

/// The mathematical value of a [`Node`].
pub struct NodeV<T> {
    pub start: int,
    pub end: int,
    pub expr: T,
}

impl<T: View> View for Node<T> {
    type V = NodeV<T::V>;

    open spec fn view(&self) -> NodeV<T::V> {
        NodeV { start: self.start as int, end: self.end as int, expr: self.expr@ }
    }
}

/// One lexical token.
///
/// A float token holds its lexeme rather than a numeric value: no
/// instruction consumes floats, and in token position the integer rule is
/// tried first and matches every input whose mandatory digit run a float
/// would also need, so the ordered choice never reaches the float rule
/// there. The standalone float rule ([`lex_float`]) still recognizes the
/// full form.
#[derive(Debug, PartialEq)]
pub enum Token {
    Int(i32),
    Float(String),
    Ident(String),
    String(String),
    Register(usize),
}

impl Clone for Token {
    /// A clone denotes the same token.
    fn clone(&self) -> (r: Self)
        ensures
            r@ == self@,
    {
        match self {
            Token::Int(v) => Token::Int(*v),
            Token::Float(s) => Token::Float(s.clone()),
            Token::Ident(s) => Token::Ident(s.clone()),
            Token::String(s) => Token::String(s.clone()),
            Token::Register(r) => Token::Register(*r),
        }
    }
}

/// The mathematical value of a [`Token`].
pub enum TokenV {
    Int(i32),
    Float(Seq<char>),
    Ident(Seq<char>),
    String(Seq<char>),
    Register(usize),
}

impl View for Token {
    type V = TokenV;

    open spec fn view(&self) -> TokenV {
        match self {
            Token::Int(v) => TokenV::Int(*v),
            Token::Float(s) => TokenV::Float(s@),
            Token::Ident(s) => TokenV::Ident(s@),
            Token::String(s) => TokenV::String(s@),
            Token::Register(r) => TokenV::Register(*r),
        }
    }
}

/// A token together with its source span.
pub type TokenNode = Node<Token>;

/// One data-section declaration: a named compile-time constant.
#[derive(Debug, PartialEq, Clone)]
pub enum Declare {
    ConstI64(TokenNode, TokenNode),
    ConstString(TokenNode, TokenNode),
}

/// The mathematical value of a [`Declare`].
pub enum DeclareV {
    ConstI64(NodeV<TokenV>, NodeV<TokenV>),
    ConstString(NodeV<TokenV>, NodeV<TokenV>),
}

impl View for Declare {
    type V = DeclareV;

    open spec fn view(&self) -> DeclareV {
        match self {
            Declare::ConstI64(a, b) => DeclareV::ConstI64(a@, b@),
            Declare::ConstString(a, b) => DeclareV::ConstString(a@, b@),
        }
    }
}

/// One code-section expression: a textual instruction, optionally wrapped
/// in a label definition. A label and the instruction it labels occupy the
/// same source position; the label contributes no instruction of its own.
#[derive(Debug, PartialEq)]
pub enum Expression {
    Call(String, Vec<TokenNode>),
    Label(String, Box<Expression>),
}

/// The mathematical value of an [`Expression`].
pub enum ExpressionV {
    Call(Seq<char>, Seq<NodeV<TokenV>>),
    Label(Seq<char>, Box<ExpressionV>),
}

impl View for Expression {
    type V = ExpressionV;

    open spec fn view(&self) -> ExpressionV
        decreases self,
    {
        match self {
            Expression::Call(op, args) => ExpressionV::Call(
                op@,
                Seq::new(args@.len(), |i: int| args@[i]@),
            ),
            Expression::Label(name, inner) => ExpressionV::Label(name@, Box::new((**inner)@)),
        }
    }
}

/// A decimal digit.
#[verifier::allow_in_spec]
pub fn is_digit(c: char) -> bool
    returns
        ('0' as u32) <= (c as u32) && (c as u32) <= ('9' as u32),
{
    let u = c as u32;
    ('0' as u32) <= u && u <= ('9' as u32)
}

/// An ASCII letter or decimal digit: the identifier alphabet.
#[verifier::allow_in_spec]
pub fn is_alphanum(c: char) -> bool
    returns
        (('a' as u32) <= (c as u32) && (c as u32) <= ('z' as u32)) || (('A' as u32) <= (c as u32)
            && (c as u32) <= ('Z' as u32)) || (('0' as u32) <= (c as u32) && (c as u32) <= (
        '9' as u32)),
{
    let u = c as u32;
    (('a' as u32) <= u && u <= ('z' as u32)) || (('A' as u32) <= u && u <= ('Z' as u32)) || ((
    '0' as u32) <= u && u <= ('9' as u32))
}

/// A character allowed inside a string literal: letters, digits, space.
#[verifier::allow_in_spec]
pub fn is_printable(c: char) -> bool
    returns
        is_alphanum(c) || c == ' ',
{
    is_alphanum(c) || c == ' '
}

/// Horizontal whitespace: the token separator.
#[verifier::allow_in_spec]
pub fn is_hspace(c: char) -> bool
    returns
        c == ' ' || c == '\t',
{
    c == ' ' || c == '\t'
}

/// Whitespace, line breaks included.
#[verifier::allow_in_spec]
pub fn is_space(c: char) -> bool
    returns
        c == ' ' || c == '\t' || c == '\n',
{
    c == ' ' || c == '\t' || c == '\n'
}

/// The first position at or after `i` whose character fails `p` (or the
/// end of `s`).
pub open spec fn scan_end(s: Seq<char>, i: int, p: spec_fn(char) -> bool) -> int
    decreases s.len() - i,
{
    if 0 <= i && i < s.len() && p(s[i]) {
        scan_end(s, i + 1, p)
    } else {
        i
    }
}

/// What a scan yields: everything before the end satisfies `p`, the end
/// does not.
pub proof fn lemma_scan_end(s: Seq<char>, i: int, p: spec_fn(char) -> bool)
    requires
        0 <= i <= s.len(),
    ensures
        i <= scan_end(s, i, p) <= s.len(),
        forall|k: int| i <= k < scan_end(s, i, p) ==> p(s[k]),
        scan_end(s, i, p) < s.len() ==> !p(s[scan_end(s, i, p)]),
    decreases s.len() - i,
{
    if i < s.len() && p(s[i]) {
        lemma_scan_end(s, i + 1, p);
    }
}

/// The end of the digit run starting at `i`.
pub open spec fn digits_end(s: Seq<char>, i: int) -> int {
    scan_end(s, i, |c: char| is_digit(c))
}

/// The end of the identifier-character run starting at `i`.
pub open spec fn alphanum_end(s: Seq<char>, i: int) -> int {
    scan_end(s, i, |c: char| is_alphanum(c))
}

/// The end of the string-literal-character run starting at `i`.
pub open spec fn printable_end(s: Seq<char>, i: int) -> int {
    scan_end(s, i, |c: char| is_printable(c))
}

/// The end of the horizontal-whitespace run starting at `i`.
pub open spec fn hspace_end(s: Seq<char>, i: int) -> int {
    scan_end(s, i, |c: char| is_hspace(c))
}

/// The end of the whitespace run starting at `i`.
pub open spec fn space_end(s: Seq<char>, i: int) -> int {
    scan_end(s, i, |c: char| is_space(c))
}

fn scan_digits(s: &str, from: usize) -> (j: usize)
    requires
        from as int <= s@.len(),
    ensures
        from <= j,
        j as int == digits_end(s@, from as int),
        j as int <= s@.len(),
{
    let n = s.unicode_len();
    let mut j = from;
    while j < n && is_digit(s.get_char(j))
        invariant
            from <= j <= n,
            n as nat == s@.len(),
            digits_end(s@, from as int) == digits_end(s@, j as int),
        decreases n - j,
    {
        j = j + 1;
    }
    j
}

fn scan_alphanum(s: &str, from: usize) -> (j: usize)
    requires
        from as int <= s@.len(),
    ensures
        from <= j,
        j as int == alphanum_end(s@, from as int),
        j as int <= s@.len(),
{
    let n = s.unicode_len();
    let mut j = from;
    while j < n && is_alphanum(s.get_char(j))
        invariant
            from <= j <= n,
            n as nat == s@.len(),
            alphanum_end(s@, from as int) == alphanum_end(s@, j as int),
        decreases n - j,
    {
        j = j + 1;
    }
    j
}

fn scan_printable(s: &str, from: usize) -> (j: usize)
    requires
        from as int <= s@.len(),
    ensures
        from <= j,
        j as int == printable_end(s@, from as int),
        j as int <= s@.len(),
{
    let n = s.unicode_len();
    let mut j = from;
    while j < n && is_printable(s.get_char(j))
        invariant
            from <= j <= n,
            n as nat == s@.len(),
            printable_end(s@, from as int) == printable_end(s@, j as int),
        decreases n - j,
    {
        j = j + 1;
    }
    j
}

fn scan_hspace(s: &str, from: usize) -> (j: usize)
    requires
        from as int <= s@.len(),
    ensures
        from <= j,
        j as int == hspace_end(s@, from as int),
        j as int <= s@.len(),
{
    let n = s.unicode_len();
    let mut j = from;
    while j < n && is_hspace(s.get_char(j))
        invariant
            from <= j <= n,
            n as nat == s@.len(),
            hspace_end(s@, from as int) == hspace_end(s@, j as int),
        decreases n - j,
    {
        j = j + 1;
    }
    j
}

fn scan_space(s: &str, from: usize) -> (j: usize)
    requires
        from as int <= s@.len(),
    ensures
        from <= j,
        j as int == space_end(s@, from as int),
        j as int <= s@.len(),
{
    let n = s.unicode_len();
    let mut j = from;
    while j < n && is_space(s.get_char(j))
        invariant
            from <= j <= n,
            n as nat == s@.len(),
            space_end(s@, from as int) == space_end(s@, j as int),
        decreases n - j,
    {
        j = j + 1;
    }
    j
}

/// The numeric value of the digit character `c`.
pub open spec fn digit_val(c: char) -> int {
    (c as u32) - ('0' as u32)
}

/// The value of the digit run `s[i..j)` read in base ten.
pub open spec fn digits_val(s: Seq<char>, i: int, j: int) -> int
    decreases j - i,
{
    if i < j {
        digits_val(s, i, j - 1) * 10 + digit_val(s[j - 1])
    } else {
        0
    }
}

/// Powers of ten.
pub open spec fn pow10(n: nat) -> int
    decreases n,
{
    if n == 0 {
        1
    } else {
        10 * pow10((n - 1) as nat)
    }
}

proof fn lemma_pow10_mono(a: nat, b: nat)
    requires
        a <= b,
    ensures
        0 < pow10(a) <= pow10(b),
    decreases b,
{
    if b > 0 {
        if a == b {
            lemma_pow10_mono((a - 1) as nat, (b - 1) as nat);
        } else {
            lemma_pow10_mono(a, (b - 1) as nat);
        }
    }
}

/// A leading zero does not change the value of a digit run.
proof fn lemma_digits_val_skip_zero(s: Seq<char>, i: int, j: int)
    requires
        0 <= i < j,
        s[i] == '0',
    ensures
        digits_val(s, i, j) == digits_val(s, i + 1, j),
    decreases j - i,
{
    if j - 1 > i {
        lemma_digits_val_skip_zero(s, i, j - 1);
    } else {
        assert(digits_val(s, i, j) == digits_val(s, i, i) * 10 + digit_val(s[i]));
        assert(digits_val(s, i, i) == 0);
        assert(digits_val(s, i + 1, j) == 0);
        assert(digit_val(s[i]) == 0);
    }
}

/// A run of `n` digits is below the `n`-th power of ten.
proof fn lemma_digits_val_upper(s: Seq<char>, i: int, j: int)
    requires
        0 <= i <= j <= s.len(),
        forall|k: int| i <= k < j ==> is_digit(#[trigger] s[k]),
    ensures
        0 <= digits_val(s, i, j) < pow10((j - i) as nat),
    decreases j - i,
{
    if i < j {
        lemma_digits_val_upper(s, i, j - 1);
        assert(digits_val(s, i, j) == digits_val(s, i, j - 1) * 10 + digit_val(s[j - 1]));
        assert(is_digit(s[j - 1]));
        assert(0 <= digit_val(s[j - 1]) <= 9);
        assert(pow10((j - i) as nat) == 10 * pow10((j - i - 1) as nat));
    }
}

/// A run of `n` digits whose first digit is nonzero reaches the
/// `(n-1)`-th power of ten.
proof fn lemma_digits_val_lower(s: Seq<char>, i: int, j: int)
    requires
        0 <= i < j <= s.len(),
        forall|k: int| i <= k < j ==> is_digit(#[trigger] s[k]),
        s[i] != '0',
    ensures
        digits_val(s, i, j) >= pow10((j - i - 1) as nat),
    decreases j - i,
{
    if j - 1 > i {
        lemma_digits_val_lower(s, i, j - 1);
        assert(digits_val(s, i, j) == digits_val(s, i, j - 1) * 10 + digit_val(s[j - 1]));
        assert(0 <= digit_val(s[j - 1]));
        assert(pow10((j - i - 1) as nat) == 10 * pow10((j - i - 2) as nat));
    } else {
        assert(digits_val(s, i, j) == digits_val(s, i, i) * 10 + digit_val(s[i]));
        assert(digits_val(s, i, i) == 0);
        assert(is_digit(s[i]));
        assert(digit_val(s[i]) >= 1) by {
            if s[i] as u32 == '0' as u32 {
                vstd::utf8::char_u32_cast(s[i], s[i] as u32);
                vstd::utf8::char_u32_cast('0', '0' as u32);
            }
        };
        assert(pow10((j - i - 1) as nat) == 1);
    }
}

/// Read the digit run `s[k..j)` into a machine word. The run must be at
/// most ten digits, so the value fits comfortably.
fn digits_to_u64(s: &str, k: usize, j: usize) -> (m: u64)
    requires
        k <= j,
        j as int <= s@.len(),
        j - k <= 10,
        forall|t: int| k <= t < j ==> is_digit(s@[t]),
    ensures
        m as int == digits_val(s@, k as int, j as int),
{
    let mut idx = k;
    let mut acc: u64 = 0;
    while idx < j
        invariant
            k <= idx <= j,
            j as int <= s@.len(),
            j - k <= 10,
            forall|t: int| k <= t < j ==> is_digit(s@[t]),
            acc as int == digits_val(s@, k as int, idx as int),
            (acc as int) < pow10((idx - k) as nat),
        decreases j - idx,
    {
        let c = s.get_char(idx);
        proof {
            lemma_pow10_mono((idx - k) as nat, 9);
            assert(pow10(9) == 1000000000) by {
                reveal_with_fuel(pow10, 10);
            };
        }
        acc = acc * 10 + (c as u32 - '0' as u32) as u64;
        idx = idx + 1;
    }
    acc
}

/// The signed-integer rule at `i`: an optional sign followed by a digit
/// run, valued in base ten. A value outside the 32-bit signed range is a
/// lexical error, reported at the start of the literal.
pub open spec fn spec_int_at(s: Seq<char>, i: int) -> Result<(i32, int), int> {
    let neg = i < s.len() && s[i] == '-';
    let signed = i < s.len() && (s[i] == '+' || s[i] == '-');
    let i1 = if signed {
        i + 1
    } else {
        i
    };
    let j = digits_end(s, i1);
    if j == i1 {
        Err(i1)
    } else {
        let m = digits_val(s, i1, j);
        let v = if neg {
        -m
        } else {
        m
        };
        if i32::MIN <= v <= i32::MAX {
            Ok((v as i32, j))
        } else {
            Err(i)
        }
    }
}

/// The unsigned-integer rule at `i`: a digit run valued in base ten. A
/// value outside the 32-bit unsigned range is a lexical error, reported at
/// the start of the literal.
pub open spec fn spec_uint_at(s: Seq<char>, i: int) -> Result<(u32, int), int> {
    let j = digits_end(s, i);
    if j == i {
        Err(i)
    } else {
        let m = digits_val(s, i, j);
        if m <= u32::MAX {
            Ok((m as u32, j))
        } else {
            Err(i)
        }
    }
}

/// The float rule at `i`: an optional sign, a digit run, an optional dot,
/// an optional further digit run; the result is the lexeme.
pub open spec fn spec_float_at(s: Seq<char>, i: int) -> Result<(Seq<char>, int), int> {
    let signed = i < s.len() && (s[i] == '+' || s[i] == '-');
    let i1 = if signed {
        i + 1
    } else {
        i
    };
    let j = digits_end(s, i1);
    if j == i1 {
        Err(i1)
    } else {
        let j2 = if j < s.len() && s[j] == '.' {
            j + 1
        } else {
            j
        };
        let j3 = digits_end(s, j2);
        Ok((s.subrange(i, j3), j3))
    }
}

/// The identifier rule at `i`: a run of letters and digits.
pub open spec fn spec_ident_at(s: Seq<char>, i: int) -> Result<(Seq<char>, int), int> {
    let j = alphanum_end(s, i);
    if j == i {
        Err(i)
    } else {
        Ok((s.subrange(i, j), j))
    }
}

/// The string-literal rule at `i`: printable characters between single
/// quotes.
pub open spec fn spec_string_at(s: Seq<char>, i: int) -> Result<(Seq<char>, int), int> {
    if i < s.len() && s[i] == '\'' {
        let j = printable_end(s, i + 1);
        if j == i + 1 {
            Err(i + 1)
        } else if j < s.len() && s[j] == '\'' {
            Ok((s.subrange(i + 1, j), j + 1))
        } else {
            Err(j)
        }
    } else {
        Err(i)
    }
}

/// Read the signed-integer rule at `i`.
fn int_at(s: &str, i: usize) -> (r: Result<(i32, usize), usize>)
    requires
        i as int <= s@.len(),
    ensures
        (match r {
            Ok((v, j)) => spec_int_at(s@, i as int) == Ok::<(i32, int), int>((v, j as int)) && j
                as int <= s@.len(),
            Err(e) => spec_int_at(s@, i as int) == Err::<(i32, int), int>(e as int),
        }),
{
    let n = s.unicode_len();
    let mut neg = false;
    let mut i1 = i;
    if i < n {
        let c = s.get_char(i);
        if c == '+' || c == '-' {
            neg = c == '-';
            i1 = i + 1;
        }
    }
    let j = scan_digits(s, i1);
    if j == i1 {
        return Err(i1);
    }
    proof {
        lemma_scan_end(s@, i1 as int, |c: char| is_digit(c));
    }
    // Skip leading zeros so that the run that carries the value is short.
    let mut k = i1;
    while k < j && s.get_char(k) == '0'
        invariant
            i1 <= k <= j,
            j as int <= s@.len(),
            forall|t: int| i1 <= t < j ==> is_digit(s@[t]),
            digits_val(s@, i1 as int, j as int) == digits_val(s@, k as int, j as int),
        decreases j - k,
    {
        proof {
            lemma_digits_val_skip_zero(s@, k as int, j as int);
        }
        k = k + 1;
    }
    if j - k > 10 {
        // At least eleven significant digits: the value is at least the
        // tenth power of ten, far outside the 32-bit range.
        proof {
            lemma_digits_val_lower(s@, k as int, j as int);
            lemma_pow10_mono(10, (j - k - 1) as nat);
            assert(pow10(10) == 10000000000) by {
                reveal_with_fuel(pow10, 11);
            };
        }
        return Err(i);
    }
    let m = digits_to_u64(s, k, j);
    if neg {
        if m > 2147483648 {
            return Err(i);
        }
        let v = (-(m as i64)) as i32;
        Ok((v, j))
    } else {
        if m > 2147483647 {
            return Err(i);
        }
        Ok((m as i32, j))
    }
}

/// Read the unsigned-integer rule at `i`.
fn uint_at(s: &str, i: usize) -> (r: Result<(u32, usize), usize>)
    requires
        i as int <= s@.len(),
    ensures
        (match r {
            Ok((v, j)) => spec_uint_at(s@, i as int) == Ok::<(u32, int), int>((v, j as int)) && i
                <= j <= s@.len(),
            Err(e) => spec_uint_at(s@, i as int) == Err::<(u32, int), int>(e as int),
        }),
{
    let j = scan_digits(s, i);
    if j == i {
        return Err(i);
    }
    proof {
        lemma_scan_end(s@, i as int, |c: char| is_digit(c));
    }
    let mut k = i;
    while k < j && s.get_char(k) == '0'
        invariant
            i <= k <= j,
            j as int <= s@.len(),
            forall|t: int| i <= t < j ==> is_digit(s@[t]),
            digits_val(s@, i as int, j as int) == digits_val(s@, k as int, j as int),
        decreases j - k,
    {
        proof {
            lemma_digits_val_skip_zero(s@, k as int, j as int);
        }
        k = k + 1;
    }
    if j - k > 10 {
        proof {
            lemma_digits_val_lower(s@, k as int, j as int);
            lemma_pow10_mono(10, (j - k - 1) as nat);
            assert(pow10(10) == 10000000000) by {
                reveal_with_fuel(pow10, 11);
            };
        }
        return Err(i);
    }
    let m = digits_to_u64(s, k, j);
    if m > 4294967295 {
        return Err(i);
    }
    Ok((m as u32, j))
}

/// Read the float rule at `i`; the result is the lexeme.
fn float_at(s: &str, i: usize) -> (r: Result<(String, usize), usize>)
    requires
        i as int <= s@.len(),
    ensures
        (match r {
            Ok((v, j)) => spec_float_at(s@, i as int) == Ok::<(Seq<char>, int), int>((
                v@,
                j as int,
            )) && i <= j <= s@.len(),
            Err(e) => spec_float_at(s@, i as int) == Err::<(Seq<char>, int), int>(e as int),
        }),
{
    let n = s.unicode_len();
    let mut i1 = i;
    if i < n {
        let c = s.get_char(i);
        if c == '+' || c == '-' {
            i1 = i + 1;
        }
    }
    let j = scan_digits(s, i1);
    if j == i1 {
        return Err(i1);
    }
    let j2 = if j < n && s.get_char(j) == '.' {
        j + 1
    } else {
        j
    };
    let j3 = scan_digits(s, j2);
    Ok((s.substring_char(i, j3).to_owned(), j3))
}

/// Read the identifier rule at `i`.
fn ident_at(s: &str, i: usize) -> (r: Result<(String, usize), usize>)
    requires
        i as int <= s@.len(),
    ensures
        (match r {
            Ok((v, j)) => spec_ident_at(s@, i as int) == Ok::<(Seq<char>, int), int>((
                v@,
                j as int,
            )) && i < j <= s@.len(),
            Err(e) => spec_ident_at(s@, i as int) == Err::<(Seq<char>, int), int>(e as int),
        }),
{
    let j = scan_alphanum(s, i);
    if j == i {
        return Err(i);
    }
    Ok((s.substring_char(i, j).to_owned(), j))
}

/// Read the string-literal rule at `i`.
fn string_at(s: &str, i: usize) -> (r: Result<(String, usize), usize>)
    requires
        i as int <= s@.len(),
    ensures
        (match r {
            Ok((v, j)) => spec_string_at(s@, i as int) == Ok::<(Seq<char>, int), int>((
                v@,
                j as int,
            )) && i < j <= s@.len(),
            Err(e) => spec_string_at(s@, i as int) == Err::<(Seq<char>, int), int>(e as int),
        }),
{
    let n = s.unicode_len();
    if i < n && s.get_char(i) == '\'' {
        let j = scan_printable(s, i + 1);
        if j == i + 1 {
            return Err(i + 1);
        }
        if j < n && s.get_char(j) == '\'' {
            Ok((s.substring_char(i + 1, j).to_owned(), j + 1))
        } else {
            Err(j)
        }
    } else {
        Err(i)
    }
}

/// The token rule at `i`, dispatching on the leading character: `@` and
/// `.` start an identifier, a quote starts a string literal, `#` a signed
/// integer, `$` a register index, and a run of identifier characters
/// followed by a colon is a label-declaration identifier. The node records
/// the token's source span.
///
/// The grammar's float alternative stands after the integer alternative,
/// and every input whose mandatory digit run a float token would need also
/// matches the integer rule first, so the committed choice never produces
/// a float token here.
pub open spec fn spec_token_at(s: Seq<char>, i: int) -> Result<(NodeV<TokenV>, int), int> {
    if i < s.len() && s[i] == '@' {
        match spec_ident_at(s, i + 1) {
            Ok((name, j)) => Ok((NodeV { start: i, end: j, expr: TokenV::Ident(name) }, j)),
            Err(e) => Err(e),
        }
    } else if i < s.len() && s[i] == '.' {
        match spec_ident_at(s, i + 1) {
            Ok((name, j)) => Ok((NodeV { start: i, end: j, expr: TokenV::Ident(name) }, j)),
            Err(e) => Err(e),
        }
    } else if i < s.len() && s[i] == '\'' {
        match spec_string_at(s, i) {
            Ok((txt, j)) => Ok((NodeV { start: i, end: j, expr: TokenV::String(txt) }, j)),
            Err(e) => Err(e),
        }
    } else if i < s.len() && s[i] == '#' {
        match spec_int_at(s, i + 1) {
            Ok((v, j)) => Ok((NodeV { start: i, end: j, expr: TokenV::Int(v) }, j)),
            Err(e) => Err(e),
        }
    } else if i < s.len() && s[i] == '$' {
        match spec_uint_at(s, i + 1) {
            Ok((v, j)) => Ok((NodeV { start: i, end: j, expr: TokenV::Register(v as usize) }, j)),
            Err(e) => Err(e),
        }
    } else {
        match spec_ident_at(s, i) {
            Ok((name, j)) => if j < s.len() && s[j] == ':' {
                Ok((NodeV { start: i, end: j + 1, expr: TokenV::Ident(name) }, j + 1))
            } else {
                Err(j)
            },
            Err(e) => Err(e),
        }
    }
}

/// A token consumes at least one character and stays within the input.
pub proof fn lemma_token_progress(s: Seq<char>, i: int)
    requires
        0 <= i <= s.len(),
    ensures
        (spec_token_at(s, i) matches Ok((t, j)) ==> i < j <= s.len()),
{
    lemma_scan_end(s, i, |c: char| is_alphanum(c));
    if i < s.len() {
        lemma_scan_end(s, i + 1, |c: char| is_digit(c));
        lemma_scan_end(s, i + 1, |c: char| is_alphanum(c));
        lemma_scan_end(s, i + 1, |c: char| is_printable(c));
        if i + 2 <= s.len() {
            lemma_scan_end(s, i + 2, |c: char| is_digit(c));
        }
    }
}

/// Read the token rule at `i`.
pub fn token_at(s: &str, i: usize) -> (r: Result<(Node<Token>, usize), usize>)
    requires
        i as int <= s@.len(),
    ensures
        (match r {
            Ok((t, j)) => spec_token_at(s@, i as int) == Ok::<(NodeV<TokenV>, int), int>((
                t@,
                j as int,
            )) && i < j <= s@.len(),
            Err(e) => spec_token_at(s@, i as int) == Err::<(NodeV<TokenV>, int), int>(e as int),
        }),
{
    proof {
        lemma_token_progress(s@, i as int);
    }
    let n = s.unicode_len();
    if i < n && s.get_char(i) == '@' {
        match ident_at(s, i + 1) {
            Ok((name, j)) => Ok((Node { start: i, end: j, expr: Token::Ident(name) }, j)),
            Err(e) => Err(e),
        }
    } else if i < n && s.get_char(i) == '.' {
        match ident_at(s, i + 1) {
            Ok((name, j)) => Ok((Node { start: i, end: j, expr: Token::Ident(name) }, j)),
            Err(e) => Err(e),
        }
    } else if i < n && s.get_char(i) == '\'' {
        match string_at(s, i) {
            Ok((txt, j)) => Ok((Node { start: i, end: j, expr: Token::String(txt) }, j)),
            Err(e) => Err(e),
        }
    } else if i < n && s.get_char(i) == '#' {
        match int_at(s, i + 1) {
            Ok((v, j)) => Ok((Node { start: i, end: j, expr: Token::Int(v) }, j)),
            Err(e) => Err(e),
        }
    } else if i < n && s.get_char(i) == '$' {
        match uint_at(s, i + 1) {
            Ok((v, j)) => Ok((Node { start: i, end: j, expr: Token::Register(v as usize) }, j)),
            Err(e) => Err(e),
        }
    } else {
        match ident_at(s, i) {
            Ok((name, j)) => {
                if j < n && s.get_char(j) == ':' {
                    Ok((Node { start: i, end: j + 1, expr: Token::Ident(name) }, j + 1))
                } else {
                    Err(j)
                }
            },
            Err(e) => Err(e),
        }
    }
}

/// The values of a sequence of token nodes.
pub open spec fn nodes_view(v: Seq<Node<Token>>) -> Seq<NodeV<TokenV>> {
    Seq::new(v.len(), |k: int| v[k]@)
}

/// The values of a sequence of declaration nodes.
pub open spec fn decls_view(v: Seq<Node<Declare>>) -> Seq<NodeV<DeclareV>> {
    Seq::new(v.len(), |k: int| v[k]@)
}

/// The values of a sequence of expression nodes.
pub open spec fn exprs_view(v: Seq<Node<Expression>>) -> Seq<NodeV<ExpressionV>> {
    Seq::new(v.len(), |k: int| v[k]@)
}

/// The label-declaration rule at `i`: an identifier directly followed by
/// a colon; the result is the identifier alone.
pub open spec fn spec_label_decl_at(s: Seq<char>, i: int) -> Result<(Seq<char>, int), int> {
    match spec_ident_at(s, i) {
        Ok((name, j)) => if j < s.len() && s[j] == ':' {
            Ok((name, j + 1))
        } else {
            Err(j)
        },
        Err(e) => Err(e),
    }
}

/// The argument list at `i`: tokens separated by runs of horizontal
/// whitespace. The list never fails; it ends before the first separator
/// not followed by a token, or at the first position with no token at
/// all.
pub open spec fn spec_token_list(s: Seq<char>, i: int) -> (Seq<NodeV<TokenV>>, int)
    decreases s.len() - i,
{
    match spec_token_at(s, i) {
        Err(_) => (Seq::empty(), i),
        Ok((t, j)) => {
            let k = hspace_end(s, j);
            if !(0 <= i && i < j && j <= k && k <= s.len()) {
                (seq![t], j)
            } else if k == j {
                (seq![t], j)
            } else {
                let (rest, m) = spec_token_list(s, k);
                if rest.len() == 0 {
                    (seq![t], j)
                } else {
                    (seq![t] + rest, m)
                }
            }
        },
    }
}

/// A token list ends within the input, no earlier than it began.
pub proof fn lemma_token_list_bounds(s: Seq<char>, i: int)
    requires
        0 <= i <= s.len(),
    ensures
        i <= spec_token_list(s, i).1 <= s.len(),
    decreases s.len() - i,
{
    lemma_token_progress(s, i);
    match spec_token_at(s, i) {
        Err(_) => {},
        Ok((t, j)) => {
            lemma_scan_end(s, j, |c: char| is_hspace(c));
            let k = hspace_end(s, j);
            if 0 <= i && i < j && j <= k && k <= s.len() && k != j {
                lemma_token_list_bounds(s, k);
            }
        },
    }
}

/// The code-expression rule at `i`: an optional label declaration,
/// optional whitespace, a mnemonic identifier, an optional run of
/// horizontal whitespace, the argument tokens, and optional trailing
/// whitespace. The node's span covers the whole expression, trailing
/// whitespace included.
pub open spec fn spec_code_expr_at(s: Seq<char>, i: int) -> Result<(NodeV<ExpressionV>, int), int> {
    let (lbl, i1) = match spec_label_decl_at(s, i) {
        Ok((name, p)) => (Some(name), p),
        Err(_) => (None::<Seq<char>>, i),
    };
    let i2 = space_end(s, i1);
    match spec_ident_at(s, i2) {
        Err(e) => Err(e),
        Ok((op, i3)) => {
            let i4 = hspace_end(s, i3);
            let (args, i5) = spec_token_list(s, i4);
            let i6 = space_end(s, i5);
            let call = ExpressionV::Call(op, args);
            let e = match lbl {
                Some(l) => ExpressionV::Label(l, Box::new(call)),
                None => call,
            };
            Ok((NodeV { start: i, end: i6, expr: e }, i6))
        },
    }
}

/// A code expression consumes at least one character and stays within the
/// input.
pub proof fn lemma_code_expr_progress(s: Seq<char>, i: int)
    requires
        0 <= i <= s.len(),
    ensures
        (spec_code_expr_at(s, i) matches Ok((e, j)) ==> i < j <= s.len()),
{
    lemma_scan_end(s, i, |c: char| is_alphanum(c));
    let i1 = match spec_label_decl_at(s, i) {
        Ok((name, p)) => p,
        Err(_) => i,
    };
    lemma_scan_end(s, i1, |c: char| is_space(c));
    let i2 = space_end(s, i1);
    lemma_scan_end(s, i2, |c: char| is_alphanum(c));
    match spec_ident_at(s, i2) {
        Err(_) => {},
        Ok((op, i3)) => {
            lemma_scan_end(s, i3, |c: char| is_hspace(c));
            let i4 = hspace_end(s, i3);
            lemma_token_list_bounds(s, i4);
            let i5 = spec_token_list(s, i4).1;
            lemma_scan_end(s, i5, |c: char| is_space(c));
        },
    }
}

/// A run of code expressions starting at `i`: committed iterations that
/// stop at the first position where the expression rule fails.
pub open spec fn spec_code_exprs(s: Seq<char>, i: int) -> (Seq<NodeV<ExpressionV>>, int)
    decreases s.len() - i,
{
    match spec_code_expr_at(s, i) {
        Err(_) => (Seq::empty(), i),
        Ok((e, j)) => {
            if !(0 <= i && i < j && j <= s.len()) {
                (seq![e], j)
            } else {
                let (rest, m) = spec_code_exprs(s, j);
                (seq![e] + rest, m)
            }
        },
    }
}


/// The code section at `i`: one or more code expressions; the failure of
/// the first is the section's failure.
pub open spec fn spec_code_section_at(s: Seq<char>, i: int) -> Result<
    (Seq<NodeV<ExpressionV>>, int),
    int,
> {
    match spec_code_expr_at(s, i) {
        Err(e) => Err(e),
        Ok(_) => Ok(spec_code_exprs(s, i)),
    }
}

/// A data declaration with the given directive literal: a binding token,
/// mandatory horizontal whitespace, the directive, mandatory horizontal
/// whitespace, the value token, and mandatory trailing whitespace.
pub open spec fn spec_data_expr_with(s: Seq<char>, i: int, directive: Seq<char>) -> Result<
    ((NodeV<TokenV>, NodeV<TokenV>), int),
    int,
> {
    match spec_token_at(s, i) {
        Err(e) => Err(e),
        Ok((t1, j1)) => {
            let i2 = hspace_end(s, j1);
            if i2 == j1 {
                Err(j1)
            } else if !lit_at(s, i2, directive) {
                Err(i2)
            } else {
                let i3 = i2 + directive.len();
                let i4 = hspace_end(s, i3);
                if i4 == i3 {
                    Err(i3)
                } else {
                    match spec_token_at(s, i4) {
                        Err(e) => Err(e),
                        Ok((t2, j2)) => {
                            let i5 = space_end(s, j2);
                            if i5 == j2 {
                                Err(j2)
                            } else {
                                Ok(((t1, t2), i5))
                            }
                        },
                    }
                }
            }
        },
    }
}

/// The data-declaration rule at `i`: the `.integer` form, or else the
/// `.asciiz` form; a failure reports the deeper of the two attempts.
pub open spec fn spec_data_expr_at(s: Seq<char>, i: int) -> Result<(NodeV<DeclareV>, int), int> {
    match spec_data_expr_with(s, i, ".integer"@) {
        Ok(((t1, t2), j)) => Ok(
            (NodeV { start: i, end: j, expr: DeclareV::ConstI64(t1, t2) }, j),
        ),
        Err(e1) => match spec_data_expr_with(s, i, ".asciiz"@) {
            Ok(((t1, t2), j)) => Ok(
                (NodeV { start: i, end: j, expr: DeclareV::ConstString(t1, t2) }, j),
            ),
            Err(e2) => Err(
                if e1 >= e2 {
                    e1
                } else {
                    e2
                },
            ),
        },
    }
}


proof fn lemma_data_expr_with_progress(s: Seq<char>, i: int, directive: Seq<char>)
    requires
        0 <= i <= s.len(),
    ensures
        (spec_data_expr_with(s, i, directive) matches Ok((d, j)) ==> i < j <= s.len()),
{
    lemma_token_progress(s, i);
    match spec_token_at(s, i) {
        Err(_) => {},
        Ok((t1, j1)) => {
            lemma_scan_end(s, j1, |c: char| is_hspace(c));
            let i2 = hspace_end(s, j1);
            if i2 != j1 && lit_at(s, i2, directive) {
                let i3 = i2 + directive.len();
                lemma_scan_end(s, i3, |c: char| is_hspace(c));
                let i4 = hspace_end(s, i3);
                if i4 != i3 {
                    lemma_token_progress(s, i4);
                    match spec_token_at(s, i4) {
                        Err(_) => {},
                        Ok((t2, j2)) => {
                            lemma_scan_end(s, j2, |c: char| is_space(c));
                        },
                    }
                }
            }
        },
    }
}

/// A run of data declarations starting at `i`: committed iterations that
/// stop at the first position where the declaration rule fails.
pub open spec fn spec_data_exprs(s: Seq<char>, i: int) -> (Seq<NodeV<DeclareV>>, int)
    decreases s.len() - i,
{
    match spec_data_expr_at(s, i) {
        Err(_) => (Seq::empty(), i),
        Ok((d, j)) => {
            if !(0 <= i && i < j && j <= s.len()) {
                (seq![d], j)
            } else {
                let (rest, m) = spec_data_exprs(s, j);
                (seq![d] + rest, m)
            }
        },
    }
}


/// The whole program: optional leading whitespace, the literal `.data`,
/// the data declarations, the literal `.code`, one or more code
/// expressions, and nothing else before the end of the input.
pub open spec fn spec_parse(s: Seq<char>) -> Result<
    (Option<Seq<NodeV<DeclareV>>>, Seq<NodeV<ExpressionV>>),
    int,
> {
    let i1 = space_end(s, 0);
    if !lit_at(s, i1, ".data"@) {
        Err(i1)
    } else {
        let i2 = i1 + ".data"@.len();
        let i3 = space_end(s, i2);
        let (decls, i4) = spec_data_exprs(s, i3);
        if !lit_at(s, i4, ".code"@) {
            Err(i4)
        } else {
            let i5 = i4 + ".code"@.len();
            let i6 = space_end(s, i5);
            match spec_code_expr_at(s, i6) {
                Err(e) => Err(e),
                Ok(_) => {
                    let (exprs, i7) = spec_code_exprs(s, i6);
                    if i7 == s.len() {
                        Ok((Some(decls), exprs))
                    } else {
                        Err(i7)
                    }
                },
            }
        }
    }
}

/// Read the label-declaration rule at `i`.
fn label_decl_at(s: &str, i: usize) -> (r: Result<(String, usize), usize>)
    requires
        i as int <= s@.len(),
    ensures
        (match r {
            Ok((name, p)) => spec_label_decl_at(s@, i as int) == Ok::<(Seq<char>, int), int>((
                name@,
                p as int,
            )) && i < p <= s@.len(),
            Err(e) => spec_label_decl_at(s@, i as int) == Err::<(Seq<char>, int), int>(e as int),
        }),
{
    let n = s.unicode_len();
    match ident_at(s, i) {
        Ok((name, j)) => {
            if j < n && s.get_char(j) == ':' {
                Ok((name, j + 1))
            } else {
                Err(j)
            }
        },
        Err(e) => Err(e),
    }
}

/// Read the argument list at `i`.
fn token_list_at(s: &str, i: usize) -> (r: (Vec<Node<Token>>, usize))
    requires
        i as int <= s@.len(),
    ensures
        spec_token_list(s@, i as int) == (nodes_view(r.0@), r.1 as int),
        i <= r.1,
        r.1 as int <= s@.len(),
    decreases s@.len() - i,
{
    match token_at(s, i) {
        Err(_) => {
            let v: Vec<Node<Token>> = Vec::new();
            proof {
                assert(nodes_view(v@) =~= spec_token_list(s@, i as int).0);
            }
            (v, i)
        },
        Ok((t, j)) => {
            let ghost tv = t@;
            let k = scan_hspace(s, j);
            if k == j {
                let mut v: Vec<Node<Token>> = Vec::new();
                v.push(t);
                proof {
                    assert(nodes_view(v@) =~= seq![tv]);
                }
                (v, j)
            } else {
                let (mut rest, m) = token_list_at(s, k);
                if rest.len() == 0 {
                    let mut v: Vec<Node<Token>> = Vec::new();
                    v.push(t);
                    proof {
                        assert(nodes_view(v@) =~= seq![tv]);
                    }
                    (v, j)
                } else {
                    let ghost restv = nodes_view(rest@);
                    let mut v: Vec<Node<Token>> = Vec::new();
                    v.push(t);
                    v.append(&mut rest);
                    proof {
                        assert(nodes_view(v@) =~= seq![tv] + restv);
                    }
                    (v, m)
                }
            }
        },
    }
}

/// Read the code-expression rule at `i`.
pub fn code_expr_at(s: &str, i: usize) -> (r: Result<(Node<Expression>, usize), usize>)
    requires
        i as int <= s@.len(),
    ensures
        (match r {
            Ok((e, j)) => spec_code_expr_at(s@, i as int) == Ok::<(NodeV<ExpressionV>, int), int>(
                (e@, j as int),
            ) && i < j <= s@.len(),
            Err(er) => spec_code_expr_at(s@, i as int) == Err::<(NodeV<ExpressionV>, int), int>(
                er as int,
            ),
        }),
{
    proof {
        lemma_code_expr_progress(s@, i as int);
    }
    let (lbl, i1) = match label_decl_at(s, i) {
        Ok((name, p)) => (Some(name), p),
        Err(_) => (None, i),
    };
    let i2 = scan_space(s, i1);
    match ident_at(s, i2) {
        Err(e) => Err(e),
        Ok((op, i3)) => {
            let i4 = scan_hspace(s, i3);
            let (args, i5) = token_list_at(s, i4);
            let i6 = scan_space(s, i5);
            let ghost opv = op@;
            let ghost argsv = nodes_view(args@);
            let call = Expression::Call(op, args);
            proof {
                assert(call@ == ExpressionV::Call(opv, argsv));
            }
            let e = match lbl {
                Some(l) => Expression::Label(l, Box::new(call)),
                None => call,
            };
            Ok((Node { start: i, end: i6, expr: e }, i6))
        },
    }
}

/// Read the run of code expressions at `i`.
fn code_exprs_at(s: &str, i: usize) -> (r: (Vec<Node<Expression>>, usize))
    requires
        i as int <= s@.len(),
    ensures
        spec_code_exprs(s@, i as int) == (exprs_view(r.0@), r.1 as int),
        i <= r.1,
        r.1 as int <= s@.len(),
    decreases s@.len() - i,
{
    match code_expr_at(s, i) {
        Err(_) => {
            let v: Vec<Node<Expression>> = Vec::new();
            proof {
                assert(exprs_view(v@) =~= spec_code_exprs(s@, i as int).0);
            }
            (v, i)
        },
        Ok((e, j)) => {
            let ghost ev = e@;
            let (mut rest, m) = code_exprs_at(s, j);
            let ghost restv = exprs_view(rest@);
            let mut v: Vec<Node<Expression>> = Vec::new();
            v.push(e);
            v.append(&mut rest);
            proof {
                assert(exprs_view(v@) =~= seq![ev] + restv);
            }
            (v, m)
        },
    }
}

/// Read a data declaration with the given directive literal at `i`.
fn data_expr_with(s: &str, i: usize, directive: &str) -> (r: Result<
    ((Node<Token>, Node<Token>), usize),
    usize,
>)
    requires
        i as int <= s@.len(),
    ensures
        (match r {
            Ok(((t1, t2), j)) => spec_data_expr_with(s@, i as int, directive@) == Ok::<
                ((NodeV<TokenV>, NodeV<TokenV>), int),
                int,
            >(((t1@, t2@), j as int)) && i < j <= s@.len(),
            Err(e) => spec_data_expr_with(s@, i as int, directive@) == Err::<
                ((NodeV<TokenV>, NodeV<TokenV>), int),
                int,
            >(e as int),
        }),
{
    proof {
        lemma_data_expr_with_progress(s@, i as int, directive@);
    }
    let n = s.unicode_len();
    match token_at(s, i) {
        Err(e) => Err(e),
        Ok((t1, j1)) => {
            let i2 = scan_hspace(s, j1);
            if i2 == j1 {
                return Err(j1);
            }
            if !match_lit(s, i2, directive) {
                return Err(i2);
            }
            let dl = directive.unicode_len();
            let i3 = i2 + dl;
            let i4 = scan_hspace(s, i3);
            if i4 == i3 {
                return Err(i3);
            }
            match token_at(s, i4) {
                Err(e) => Err(e),
                Ok((t2, j2)) => {
                    let i5 = scan_space(s, j2);
                    if i5 == j2 {
                        Err(j2)
                    } else {
                        Ok(((t1, t2), i5))
                    }
                },
            }
        },
    }
}

/// Read the data-declaration rule at `i`.
pub fn data_expr_at(s: &str, i: usize) -> (r: Result<(Node<Declare>, usize), usize>)
    requires
        i as int <= s@.len(),
    ensures
        (match r {
            Ok((d, j)) => spec_data_expr_at(s@, i as int) == Ok::<(NodeV<DeclareV>, int), int>((
                d@,
                j as int,
            )) && i < j <= s@.len(),
            Err(e) => spec_data_expr_at(s@, i as int) == Err::<(NodeV<DeclareV>, int), int>(
                e as int,
            ),
        }),
{
    match data_expr_with(s, i, ".integer") {
        Ok(((t1, t2), j)) => Ok(
            (Node { start: i, end: j, expr: Declare::ConstI64(t1, t2) }, j),
        ),
        Err(e1) => match data_expr_with(s, i, ".asciiz") {
            Ok(((t1, t2), j)) => Ok(
                (Node { start: i, end: j, expr: Declare::ConstString(t1, t2) }, j),
            ),
            Err(e2) => Err(
                if e1 >= e2 {
                    e1
                } else {
                    e2
                },
            ),
        },
    }
}

/// Read the run of data declarations at `i`.
fn data_exprs_at(s: &str, i: usize) -> (r: (Vec<Node<Declare>>, usize))
    requires
        i as int <= s@.len(),
    ensures
        spec_data_exprs(s@, i as int) == (decls_view(r.0@), r.1 as int),
        i <= r.1,
        r.1 as int <= s@.len(),
    decreases s@.len() - i,
{
    match data_expr_at(s, i) {
        Err(_) => {
            let v: Vec<Node<Declare>> = Vec::new();
            proof {
                assert(decls_view(v@) =~= spec_data_exprs(s@, i as int).0);
            }
            (v, i)
        },
        Ok((d, j)) => {
            let ghost dv = d@;
            let (mut rest, m) = data_exprs_at(s, j);
            let ghost restv = decls_view(rest@);
            let mut v: Vec<Node<Declare>> = Vec::new();
            v.push(d);
            v.append(&mut rest);
            proof {
                assert(decls_view(v@) =~= seq![dv] + restv);
            }
            (v, m)
        },
    }
}

/// Parse a whole program: the two sections, consuming the entire input.
/// A failure carries the character offset at which the grammar stopped
/// matching.
pub fn parse(s: &str) -> (r: Result<(Option<Vec<Node<Declare>>>, Vec<Node<Expression>>), usize>)
    ensures
        (match r {
            Ok(p) => spec_parse(s@) == Ok::<
                (Option<Seq<NodeV<DeclareV>>>, Seq<NodeV<ExpressionV>>),
                int,
            >(
                (
                    match p.0 {
                        Some(d) => Some(decls_view(d@)),
                        None => None,
                    },
                    exprs_view(p.1@),
                ),
            ),
            Err(e) => spec_parse(s@) == Err::<
                (Option<Seq<NodeV<DeclareV>>>, Seq<NodeV<ExpressionV>>),
                int,
            >(e as int),
        }),
{
    let n = s.unicode_len();
    let i1 = scan_space(s, 0);
    if !match_lit(s, i1, ".data") {
        return Err(i1);
    }
    proof {
        reveal_strlit(".data");
    }
    let i2 = i1 + 5;
    let i3 = scan_space(s, i2);
    let (decls, i4) = data_exprs_at(s, i3);
    if !match_lit(s, i4, ".code") {
        return Err(i4);
    }
    proof {
        reveal_strlit(".code");
    }
    let i5 = i4 + 5;
    let i6 = scan_space(s, i5);
    match code_expr_at(s, i6) {
        Err(e) => Err(e),
        Ok(_) => {
            let (exprs, i7) = code_exprs_at(s, i6);
            if i7 == n {
                Ok((Some(decls), exprs))
            } else {
                Err(i7)
            }
        },
    }
}

/// The signed-integer rule applied to a whole input.
pub open spec fn spec_lex_int(s: Seq<char>) -> Result<i32, int> {
    match spec_int_at(s, 0) {
        Ok((v, j)) => if j == s.len() {
            Ok(v)
        } else {
            Err(j)
        },
        Err(e) => Err(e),
    }
}

/// Lex a whole input as a signed integer.
pub fn lex_int(s: &str) -> (r: Result<i32, usize>)
    ensures
        (match r {
            Ok(v) => spec_lex_int(s@) == Ok::<i32, int>(v),
            Err(e) => spec_lex_int(s@) == Err::<i32, int>(e as int),
        }),
{
    let n = s.unicode_len();
    match int_at(s, 0) {
        Ok((v, j)) => if j == n {
            Ok(v)
        } else {
            Err(j)
        },
        Err(e) => Err(e),
    }
}

/// The unsigned-integer rule applied to a whole input.
pub open spec fn spec_lex_uint(s: Seq<char>) -> Result<u32, int> {
    match spec_uint_at(s, 0) {
        Ok((v, j)) => if j == s.len() {
            Ok(v)
        } else {
            Err(j)
        },
        Err(e) => Err(e),
    }
}

/// Lex a whole input as an unsigned integer.
pub fn lex_uint(s: &str) -> (r: Result<u32, usize>)
    ensures
        (match r {
            Ok(v) => spec_lex_uint(s@) == Ok::<u32, int>(v),
            Err(e) => spec_lex_uint(s@) == Err::<u32, int>(e as int),
        }),
{
    let n = s.unicode_len();
    match uint_at(s, 0) {
        Ok((v, j)) => if j == n {
            Ok(v)
        } else {
            Err(j)
        },
        Err(e) => Err(e),
    }
}

/// The float rule applied to a whole input; the result is the lexeme.
pub open spec fn spec_lex_float(s: Seq<char>) -> Result<Seq<char>, int> {
    match spec_float_at(s, 0) {
        Ok((v, j)) => if j == s.len() {
            Ok(v)
        } else {
            Err(j)
        },
        Err(e) => Err(e),
    }
}

/// Lex a whole input as a float literal, returning the lexeme.
pub fn lex_float(s: &str) -> (r: Result<String, usize>)
    ensures
        (match r {
            Ok(v) => spec_lex_float(s@) == Ok::<Seq<char>, int>(v@),
            Err(e) => spec_lex_float(s@) == Err::<Seq<char>, int>(e as int),
        }),
{
    let n = s.unicode_len();
    match float_at(s, 0) {
        Ok((v, j)) => if j == n {
            Ok(v)
        } else {
            Err(j)
        },
        Err(e) => Err(e),
    }
}

/// The identifier rule applied to a whole input.
pub open spec fn spec_lex_ident(s: Seq<char>) -> Result<Seq<char>, int> {
    match spec_ident_at(s, 0) {
        Ok((v, j)) => if j == s.len() {
            Ok(v)
        } else {
            Err(j)
        },
        Err(e) => Err(e),
    }
}

/// Lex a whole input as an identifier.
pub fn lex_ident(s: &str) -> (r: Result<String, usize>)
    ensures
        (match r {
            Ok(v) => spec_lex_ident(s@) == Ok::<Seq<char>, int>(v@),
            Err(e) => spec_lex_ident(s@) == Err::<Seq<char>, int>(e as int),
        }),
{
    let n = s.unicode_len();
    match ident_at(s, 0) {
        Ok((v, j)) => if j == n {
            Ok(v)
        } else {
            Err(j)
        },
        Err(e) => Err(e),
    }
}

/// The string-literal rule applied to a whole input.
pub open spec fn spec_lex_string(s: Seq<char>) -> Result<Seq<char>, int> {
    match spec_string_at(s, 0) {
        Ok((v, j)) => if j == s.len() {
            Ok(v)
        } else {
            Err(j)
        },
        Err(e) => Err(e),
    }
}

/// Lex a whole input as a string literal.
pub fn lex_string(s: &str) -> (r: Result<String, usize>)
    ensures
        (match r {
            Ok(v) => spec_lex_string(s@) == Ok::<Seq<char>, int>(v@),
            Err(e) => spec_lex_string(s@) == Err::<Seq<char>, int>(e as int),
        }),
{
    let n = s.unicode_len();
    match string_at(s, 0) {
        Ok((v, j)) => if j == n {
            Ok(v)
        } else {
            Err(j)
        },
        Err(e) => Err(e),
    }
}

/// The token rule applied to a whole input.
pub open spec fn spec_lex_token(s: Seq<char>) -> Result<NodeV<TokenV>, int> {
    match spec_token_at(s, 0) {
        Ok((t, j)) => if j == s.len() {
            Ok(t)
        } else {
            Err(j)
        },
        Err(e) => Err(e),
    }
}

/// Lex a whole input as one token.
pub fn lex_token(s: &str) -> (r: Result<Node<Token>, usize>)
    ensures
        (match r {
            Ok(t) => spec_lex_token(s@) == Ok::<NodeV<TokenV>, int>(t@),
            Err(e) => spec_lex_token(s@) == Err::<NodeV<TokenV>, int>(e as int),
        }),
{
    let n = s.unicode_len();
    match token_at(s, 0) {
        Ok((t, j)) => if j == n {
            Ok(t)
        } else {
            Err(j)
        },
        Err(e) => Err(e),
    }
}

/// The code-expression rule applied to a whole input.
pub open spec fn spec_lex_code_expression(s: Seq<char>) -> Result<NodeV<ExpressionV>, int> {
    match spec_code_expr_at(s, 0) {
        Ok((e, j)) => if j == s.len() {
            Ok(e)
        } else {
            Err(j)
        },
        Err(e) => Err(e),
    }
}

/// Parse a whole input as one code expression.
pub fn code_expression(s: &str) -> (r: Result<Node<Expression>, usize>)
    ensures
        (match r {
            Ok(e) => spec_lex_code_expression(s@) == Ok::<NodeV<ExpressionV>, int>(e@),
            Err(er) => spec_lex_code_expression(s@) == Err::<NodeV<ExpressionV>, int>(er as int),
        }),
{
    let n = s.unicode_len();
    match code_expr_at(s, 0) {
        Ok((e, j)) => if j == n {
            Ok(e)
        } else {
            Err(j)
        },
        Err(e) => Err(e),
    }
}

/// The code-section rule applied to a whole input.
pub open spec fn spec_lex_code_section(s: Seq<char>) -> Result<Seq<NodeV<ExpressionV>>, int> {
    match spec_code_section_at(s, 0) {
        Ok((es, j)) => if j == s.len() {
            Ok(es)
        } else {
            Err(j)
        },
        Err(e) => Err(e),
    }
}

/// Parse a whole input as one or more code expressions.
pub fn code_section(s: &str) -> (r: Result<Vec<Node<Expression>>, usize>)
    ensures
        (match r {
            Ok(es) => spec_lex_code_section(s@) == Ok::<Seq<NodeV<ExpressionV>>, int>(
                exprs_view(es@),
            ),
            Err(e) => spec_lex_code_section(s@) == Err::<Seq<NodeV<ExpressionV>>, int>(e as int),
        }),
{
    let n = s.unicode_len();
    match code_expr_at(s, 0) {
        Err(e) => Err(e),
        Ok(_) => {
            let (es, j) = code_exprs_at(s, 0);
            if j == n {
                Ok(es)
            } else {
                Err(j)
            }
        },
    }
}

} // verus!
