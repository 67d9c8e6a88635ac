//! Character and string utilities shared by the parser, the executor and
//! the renderer: whitespace tokenization, string equality, decimal
//! formatting and parsing of point values.

use vstd::prelude::*;

verus! {

/// The whitespace characters that separate tokens of a command line.
pub open spec fn is_space(c: char) -> bool {
    c == ' ' || c == '\t' || c == '\n' || c == '\r'
}

/// Length of the leading run of non-space characters.
pub open spec fn token_len(s: Seq<char>) -> nat
    decreases s.len(),
{
    if s.len() == 0 || is_space(s[0]) {
        0
    } else {
        1 + token_len(s.drop_first())
    }
}

/// Splits a line into its whitespace-delimited tokens, in order, with no
/// empty tokens.
pub open spec fn tokenize(s: Seq<char>) -> Seq<Seq<char>>
    decreases s.len(),
    via tokenize_decreases
{
    if s.len() == 0 {
        Seq::empty()
    } else if is_space(s[0]) {
        tokenize(s.drop_first())
    } else {
        seq![s.take(token_len(s) as int)] + tokenize(s.skip(token_len(s) as int))
    }
}

#[via_fn]
proof fn tokenize_decreases(s: Seq<char>) {
    if s.len() > 0 && !is_space(s[0]) {
        lemma_token_len_bounds(s);
        assert(token_len(s) == 1 + token_len(s.drop_first()));
    }
}

pub proof fn lemma_token_len_bounds(s: Seq<char>)
    ensures
        token_len(s) <= s.len(),
        forall|k: int| 0 <= k < token_len(s) ==> !is_space(s[k]),
        token_len(s) < s.len() ==> is_space(s[token_len(s) as int]),
        s.len() > 0 && !is_space(s[0]) ==> token_len(s) >= 1,
    decreases s.len(),
{
    if s.len() == 0 || is_space(s[0]) {
    } else {
        lemma_token_len_bounds(s.drop_first());
        assert forall|k: int| 0 <= k < token_len(s) implies !is_space(s[k]) by {
            if k > 0 {
                assert(s.drop_first()[k - 1] == s[k]);
            }
        }
        if token_len(s) < s.len() {
            assert(s.drop_first()[token_len(s) as int - 1] == s[token_len(s) as int]);
        }
    }
}

/// Compares two strings character by character; equality of the views.
pub fn str_eq(a: &str, b: &str) -> (r: bool)
    ensures
        r == (a@ == b@),
{
    let alen: usize = a.unicode_len();
    let blen: usize = b.unicode_len();
    if alen != blen {
        return false;
    }
    let mut i: usize = 0;
    while i < alen
        invariant
            alen == a@.len(),
            blen == b@.len(),
            alen == blen,
            i <= alen,
            forall|k: int| 0 <= k < i ==> a@[k] == b@[k],
        decreases alen - i,
    {
        if a.get_char(i) != b.get_char(i) {
            return false;
        }
        i = i + 1;
    }
    proof {
        assert(a@ =~= b@);
    }
    true
}

/// Collects the characters of a string into a vector.
pub fn to_chars(s: &str) -> (r: Vec<char>)
    ensures
        r@ == s@,
{
    let len: usize = s.unicode_len();
    let mut r: Vec<char> = Vec::new();
    let mut i: usize = 0;
    while i < len
        invariant
            len == s@.len(),
            i <= len,
            r@ =~= s@.take(i as int),
        decreases len - i,
    {
        r.push(s.get_char(i));
        i = i + 1;
    }
    proof {
        assert(r@ =~= s@);
    }
    r
}

/// The decimal digits.
pub open spec fn is_digit(c: char) -> bool {
    48 <= c as u32 && c as u32 <= 57
}

/// Numeric value of one decimal digit.
pub open spec fn digit_val(c: char) -> nat {
    (c as u32 - 48) as nat
}

pub open spec fn all_digits(s: Seq<char>) -> bool {
    forall|i: int| 0 <= i < s.len() ==> is_digit(#[trigger] s[i])
}

/// Value of a digit string read in base ten.
pub open spec fn digits_val(s: Seq<char>) -> nat
    decreases s.len(),
{
    if s.len() == 0 {
        0
    } else {
        digits_val(s.drop_last()) * 10 + digit_val(s.last())
    }
}

/// The digits of a points token, with an optional leading plus sign
/// stripped.
pub open spec fn points_body(s: Seq<char>) -> Seq<char> {
    if s.len() > 0 && s[0] == '+' {
        s.drop_first()
    } else {
        s
    }
}

/// A token is a valid points value when, after an optional leading plus
/// sign, it consists of one or more decimal digits whose value is at most
/// 255.
pub open spec fn is_valid_points(s: Seq<char>) -> bool {
    let b = points_body(s);
    b.len() > 0 && all_digits(b) && digits_val(b) <= 255
}

pub open spec fn points_value(s: Seq<char>) -> nat {
    digits_val(points_body(s))
}

/// Parses a points token: optional leading plus sign, then decimal digits,
/// value at most 255.
pub fn parse_points(t: &str) -> (r: Option<u8>)
    ensures
        r is Some <==> is_valid_points(t@),
        r matches Some(v) ==> v as nat == points_value(t@),
{
    let chars: Vec<char> = to_chars(t);
    let len: usize = chars.len();
    let start: usize = if len > 0 && chars[0] == '+' {
        1
    } else {
        0
    };
    let ghost body: Seq<char> = points_body(t@);
    proof {
        assert(body =~= t@.skip(start as int));
    }
    if len == start {
        return None;
    }
    let mut i: usize = start;
    let mut acc: u32 = 0;
    while i < len
        invariant
            start <= i <= len,
            len == chars@.len(),
            chars@ == t@,
            body == t@.skip(start as int),
            body == points_body(t@),
            start <= 1,
            forall|k: int| 0 <= k < i - start ==> is_digit(#[trigger] body[k]),
            acc <= 256,
            digits_val(body.take(i - start)) <= 255 ==> acc == digits_val(body.take(i - start)),
            digits_val(body.take(i - start)) > 255 ==> acc == 256,
        decreases len - i,
    {
        let c: char = chars[i];
        let u: u32 = c as u32;
        if u < 48 || u > 57 {
            proof {
                assert(body[i - start] == t@[i as int]);
                assert(!is_digit(body[i - start]));
                assert(0 <= i - start < body.len());
                assert(!all_digits(points_body(t@)));
            }
            return None;
        }
        let d: u32 = u - 48;
        let ghost pre: Seq<char> = body.take(i - start);
        let ghost post: Seq<char> = body.take(i + 1 - start);
        proof {
            assert(post.drop_last() =~= pre);
            assert(post.last() == body[i - start]);
            assert(body[i - start] == t@[i as int]);
            assert(digits_val(post) == digits_val(pre) * 10 + d);
        }
        let next: u32 = acc * 10 + d;
        if next > 255 {
            acc = 256;
            proof {
                if digits_val(pre) > 255 {
                    assert(digits_val(post) >= digits_val(pre) * 10);
                }
            }
        } else {
            acc = next;
        }
        i = i + 1;
    }
    proof {
        assert(body.take(len - start) =~= body);
    }
    if acc <= 255 {
        Some(acc as u8)
    } else {
        None
    }
}

/// The character for one decimal digit.
pub open spec fn digit_char(d: int) -> char {
    if d == 0 {
        '0'
    } else if d == 1 {
        '1'
    } else if d == 2 {
        '2'
    } else if d == 3 {
        '3'
    } else if d == 4 {
        '4'
    } else if d == 5 {
        '5'
    } else if d == 6 {
        '6'
    } else if d == 7 {
        '7'
    } else if d == 8 {
        '8'
    } else {
        '9'
    }
}

/// Decimal rendering of a number, most significant digit first, no
/// leading zeros.
pub open spec fn dec_digits(n: nat) -> Seq<char>
    decreases n,
{
    if n < 10 {
        seq![digit_char(n as int)]
    } else {
        dec_digits(n / 10).push(digit_char((n % 10) as int))
    }
}

fn digit_char_exec(d: u8) -> (c: char)
    requires
        d < 10,
    ensures
        c == digit_char(d as int),
{
    match d {
        0 => '0',
        1 => '1',
        2 => '2',
        3 => '3',
        4 => '4',
        5 => '5',
        6 => '6',
        7 => '7',
        8 => '8',
        _ => '9',
    }
}

/// Renders a byte value in decimal.
pub fn u8_to_dec(n: u8) -> (r: String)
    ensures
        r@ == dec_digits(n as nat),
{
    let mut r: String = String::new();
    let q: u8 = n / 10;
    let last: u8 = n % 10;
    if n >= 100 {
        string_push(&mut r, digit_char_exec(q / 10));
        string_push(&mut r, digit_char_exec(q % 10));
        string_push(&mut r, digit_char_exec(last));
        proof {
            assert(q as nat == n as nat / 10);
            assert((q / 10) as nat == q as nat / 10);
            assert((q % 10) as nat == q as nat % 10);
            assert(q as nat / 10 < 10);
            assert(dec_digits(q as nat / 10) =~= seq![digit_char((q as nat / 10) as int)]);
            assert(dec_digits(q as nat) =~= dec_digits(q as nat / 10).push(
                digit_char((q as nat % 10) as int),
            ));
            assert(dec_digits(n as nat) =~= dec_digits(q as nat).push(
                digit_char((n as nat % 10) as int),
            ));
            assert(r@ =~= dec_digits(n as nat));
        }
    } else if n >= 10 {
        string_push(&mut r, digit_char_exec(q));
        string_push(&mut r, digit_char_exec(last));
        proof {
            assert(q as nat == n as nat / 10);
            assert((q as nat) < 10);
            assert(dec_digits(q as nat) =~= seq![digit_char(q as int)]);
            assert(dec_digits(n as nat) =~= dec_digits(q as nat).push(
                digit_char((n as nat % 10) as int),
            ));
            assert(r@ =~= dec_digits(n as nat));
        }
    } else {
        string_push(&mut r, digit_char_exec(n));
        proof {
            assert(r@ =~= dec_digits(n as nat));
        }
    }
    r
}

/// Tokens joined by single spaces.
pub open spec fn join_spec(ts: Seq<Seq<char>>) -> Seq<char>
    decreases ts.len(),
{
    if ts.len() == 0 {
        Seq::empty()
    } else if ts.len() == 1 {
        ts[0]
    } else {
        join_spec(ts.drop_last()) + seq![' '] + ts.last()
    }
}

pub proof fn lemma_token_len_is(s: Seq<char>, n: int)
    requires
        0 <= n <= s.len(),
        forall|k: int| 0 <= k < n ==> !is_space(#[trigger] s[k]),
        n < s.len() ==> is_space(s[n]),
    ensures
        token_len(s) == n,
    decreases s.len(),
{
    if n == 0 {
    } else {
        assert(!is_space(s[0]));
        assert forall|k: int| 0 <= k < n - 1 implies !is_space(#[trigger] s.drop_first()[k]) by {
            assert(s.drop_first()[k] == s[k + 1]);
        }
        if n - 1 < s.drop_first().len() {
            assert(s.drop_first()[n - 1] == s[n]);
        }
        lemma_token_len_is(s.drop_first(), n - 1);
    }
}

fn is_space_exec(c: char) -> (r: bool)
    ensures
        r == is_space(c),
{
    c == ' ' || c == '\t' || c == '\n' || c == '\r'
}

fn scan_token(chars: &Vec<char>, i: usize) -> (j: usize)
    requires
        i < chars@.len(),
        !is_space(chars@[i as int]),
    ensures
        i < j <= chars@.len(),
        forall|k: int| i <= k < j ==> !is_space(#[trigger] chars@[k]),
        j < chars@.len() ==> is_space(chars@[j as int]),
{
    let len: usize = chars.len();
    let mut j: usize = i + 1;
    while j < len
        invariant
            i < j <= len,
            len == chars@.len(),
            forall|k: int| i <= k < j ==> !is_space(#[trigger] chars@[k]),
        decreases len - j,
    {
        if is_space_exec(chars[j]) {
            return j;
        }
        j = j + 1;
    }
    len
}

/// Splits a line into its whitespace-delimited tokens.
pub fn tokenize_line(chars: &Vec<char>) -> (r: Vec<String>)
    ensures
        r.deep_view() == tokenize(chars@),
{
    let len: usize = chars.len();
    let mut toks: Vec<String> = Vec::new();
    let mut i: usize = 0;
    proof {
        assert(toks.deep_view() =~= Seq::<Seq<char>>::empty());
        assert(chars@.skip(0) =~= chars@);
        assert(toks.deep_view() + tokenize(chars@.skip(0)) =~= tokenize(chars@));
    }
    while i < len
        invariant
            i <= len,
            len == chars@.len(),
            toks.deep_view().len() == toks@.len(),
            forall|k: int| 0 <= k < toks@.len() ==> toks.deep_view()[k] == toks@[k]@,
            toks.deep_view() + tokenize(chars@.skip(i as int)) == tokenize(chars@),
        decreases len - i,
    {
        let ghost dv: Seq<Seq<char>> = toks.deep_view();
        let ghost rest: Seq<char> = chars@.skip(i as int);
        let c: char = chars[i];
        if is_space_exec(c) {
            proof {
                assert(rest[0] == chars@[i as int]);
                assert(is_space(rest[0]));
                assert(rest.drop_first() =~= chars@.skip(i + 1));
                assert(tokenize(rest) == tokenize(chars@.skip(i + 1)));
            }
            i = i + 1;
        } else {
            proof {
                assert(rest[0] == chars@[i as int]);
                assert(!is_space(rest[0]));
            }
            let j: usize = scan_token(chars, i);
            proof {
                assert forall|k: int| 0 <= k < j - i implies !is_space(#[trigger] rest[k]) by {
                    assert(rest[k] == chars@[i + k]);
                }
                if j - i < rest.len() {
                    assert(rest[j - i] == chars@[j as int]);
                }
                lemma_token_len_is(rest, j - i);
            }
            let mut tok: String = String::new();
            let mut k: usize = i;
            while k < j
                invariant
                    i <= k <= j <= len,
                    len == chars@.len(),
                    tok@ == chars@.subrange(i as int, k as int),
                decreases j - k,
            {
                string_push(&mut tok, chars[k]);
                proof {
                    assert(tok@ =~= chars@.subrange(i as int, k + 1));
                }
                k = k + 1;
            }
            proof {
                assert(rest.take(j - i) =~= chars@.subrange(i as int, j as int));
                assert(rest.skip(j - i) =~= chars@.skip(j as int));
                assert(tokenize(rest) == seq![tok@] + tokenize(chars@.skip(j as int)));
            }
            toks.push(tok);
            proof {
                assert(toks.deep_view() =~= dv.push(tok@));
                assert(dv.push(tok@) + tokenize(chars@.skip(j as int)) =~= dv + tokenize(rest));
            }
            i = j;
        }
    }
    proof {
        assert(chars@.skip(len as int) =~= Seq::<char>::empty());
        assert(tokenize(Seq::<char>::empty()) =~= Seq::<Seq<char>>::empty());
        assert(toks.deep_view() =~= toks.deep_view() + tokenize(chars@.skip(len as int)));
    }
    toks
}

/// Relies on String::push: appends exactly the given character.
#[verifier::external_body]
pub fn string_push(s: &mut String, c: char)
    ensures
        final(s)@ == old(s)@.push(c),
{
    s.push(c)
}

/// Relies on String::pop: removes and returns the last character, or
/// leaves an empty string unchanged and returns None.
#[verifier::external_body]
pub fn string_pop(s: &mut String) -> (r: Option<char>)
    ensures
        old(s)@.len() == 0 ==> final(s)@ == old(s)@ && r is None,
        old(s)@.len() > 0 ==> final(s)@ == old(s)@.drop_last() && r == Some(old(s)@.last()),
{
    s.pop()
}

} // verus!
