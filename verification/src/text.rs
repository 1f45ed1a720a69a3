//! Byte-level text primitives for the NFF reader: whitespace tokenization,
//! line splitting, and validation of the numeric literals that scene files
//! carry.  Scalars destined for the renderer's arithmetic are kept as text,
//! so the grammar checks here are exact.

use vstd::prelude::*;

verus! {

/// ASCII whitespace between tokens: the byte values below 128 that Rust's
/// `char::is_whitespace` accepts.
pub open spec fn is_space(b: u8) -> bool {
    b == 32 || b == 9 || b == 10 || b == 13 || b == 11 || b == 12
}

pub open spec fn is_digit(b: u8) -> bool {
    48 <= b && b <= 57
}

/// Tokenization of a line, accumulator form: `cur` is the word being built
/// and `acc` holds the completed words.
pub open spec fn spec_tokenize(s: Seq<u8>, cur: Seq<u8>, acc: Seq<Seq<u8>>) -> Seq<Seq<u8>>
    decreases s.len(),
{
    if s.len() == 0 {
        if cur.len() == 0 {
            acc
        } else {
            acc.push(cur)
        }
    } else if is_space(s[0]) {
        if cur.len() == 0 {
            spec_tokenize(s.skip(1), cur, acc)
        } else {
            spec_tokenize(s.skip(1), Seq::empty(), acc.push(cur))
        }
    } else {
        spec_tokenize(s.skip(1), cur.push(s[0]), acc)
    }
}

/// The whitespace-separated words of a line, in order.
pub open spec fn tokens_of(s: Seq<u8>) -> Seq<Seq<u8>> {
    spec_tokenize(s, Seq::empty(), Seq::empty())
}

/// Line splitting, accumulator form: lines are separated by the newline byte;
/// a trailing newline does not open a final empty line.
pub open spec fn spec_split_lines(s: Seq<u8>, cur: Seq<u8>, acc: Seq<Seq<u8>>) -> Seq<Seq<u8>>
    decreases s.len(),
{
    if s.len() == 0 {
        if cur.len() == 0 {
            acc
        } else {
            acc.push(cur)
        }
    } else if s[0] == 10 {
        spec_split_lines(s.skip(1), Seq::empty(), acc.push(cur))
    } else {
        spec_split_lines(s.skip(1), cur.push(s[0]), acc)
    }
}

/// The lines of the input, without their newline separators.
pub open spec fn lines_of(s: Seq<u8>) -> Seq<Seq<u8>> {
    spec_split_lines(s, Seq::empty(), Seq::empty())
}

/// The deep view of a byte vector is its ordinary view.
pub broadcast proof fn lemma_bytes_deep_view(v: Vec<u8>)
    ensures
        #[trigger] v.deep_view() == v@,
{
    assert(v.deep_view() =~= v@);
}

fn is_space_byte(b: u8) -> (r: bool)
    ensures
        r == is_space(b),
{
    b == 32 || b == 9 || b == 10 || b == 13 || b == 11 || b == 12
}

/// Split a line into its whitespace-separated words.
pub fn tokenize(line: &[u8]) -> (words: Vec<Vec<u8>>)
    ensures
        words.deep_view() == tokens_of(line@),
{
    let mut words: Vec<Vec<u8>> = Vec::new();
    let mut cur: Vec<u8> = Vec::new();
    let mut i: usize = 0;
    proof {
        assert(line@.skip(0) =~= line@);
        assert(words.deep_view() =~= Seq::<Seq<u8>>::empty());
    }
    while i < line.len()
        invariant
            i <= line.len(),
            spec_tokenize(line@.skip(i as int), cur@, words.deep_view()) == tokens_of(line@),
        decreases line.len() - i,
    {
        proof {
            assert(line@.skip(i as int)[0] == line@[i as int]);
            assert(line@.skip(i as int).skip(1) =~= line@.skip(i as int + 1));
        }
        let b = line[i];
        if is_space_byte(b) {
            if cur.len() > 0 {
                let ghost prev = words.deep_view();
                let ghost curv = cur@;
                words.push(cur);
                proof {
                    assert(words.deep_view() =~~= prev.push(curv));
                }
                cur = Vec::new();
            }
        } else {
            cur.push(b);
        }
        i += 1;
    }
    proof {
        assert(line@.skip(line@.len() as int) =~= Seq::<u8>::empty());
    }
    if cur.len() > 0 {
        let ghost prev = words.deep_view();
        let ghost curv = cur@;
        words.push(cur);
        proof {
            assert(words.deep_view() =~~= prev.push(curv));
        }
    }
    words
}

/// Split the input into lines at newline bytes.
pub fn split_lines(input: &[u8]) -> (lines: Vec<Vec<u8>>)
    ensures
        lines.deep_view() == lines_of(input@),
{
    let mut lines: Vec<Vec<u8>> = Vec::new();
    let mut cur: Vec<u8> = Vec::new();
    let mut i: usize = 0;
    proof {
        assert(input@.skip(0) =~= input@);
        assert(lines.deep_view() =~= Seq::<Seq<u8>>::empty());
    }
    while i < input.len()
        invariant
            i <= input.len(),
            spec_split_lines(input@.skip(i as int), cur@, lines.deep_view()) == lines_of(input@),
        decreases input.len() - i,
    {
        proof {
            assert(input@.skip(i as int)[0] == input@[i as int]);
            assert(input@.skip(i as int).skip(1) =~= input@.skip(i as int + 1));
        }
        let b = input[i];
        if b == 10 {
            let ghost prev = lines.deep_view();
            let ghost curv = cur@;
            lines.push(cur);
            proof {
                assert(lines.deep_view() =~~= prev.push(curv));
            }
            cur = Vec::new();
        } else {
            cur.push(b);
        }
        i += 1;
    }
    proof {
        assert(input@.skip(input@.len() as int) =~= Seq::<u8>::empty());
    }
    if cur.len() > 0 {
        let ghost prev = lines.deep_view();
        let ghost curv = cur@;
        lines.push(cur);
        proof {
            assert(lines.deep_view() =~~= prev.push(curv));
        }
    }
    lines
}

/// Whether `line` begins with the bytes of `prefix`.
pub open spec fn spec_starts_with(line: Seq<u8>, prefix: Seq<u8>) -> bool {
    prefix.len() <= line.len() && line.take(prefix.len() as int) == prefix
}

pub fn starts_with(line: &[u8], prefix: &[u8]) -> (r: bool)
    ensures
        r == spec_starts_with(line@, prefix@),
{
    if prefix.len() > line.len() {
        return false;
    }
    let mut i: usize = 0;
    while i < prefix.len()
        invariant
            i <= prefix.len(),
            prefix@.len() <= line@.len(),
            forall|k: int| 0 <= k < i ==> line@[k] == prefix@[k],
        decreases prefix.len() - i,
    {
        if line[i] != prefix[i] {
            proof {
                assert(line@.take(prefix@.len() as int)[i as int] != prefix@[i as int]);
            }
            return false;
        }
        i += 1;
    }
    proof {
        assert(line@.take(prefix@.len() as int) =~= prefix@);
    }
    true
}

/// Length of the run of decimal digits at the front of `s`.
pub open spec fn digit_run_len(s: Seq<u8>) -> int
    decreases s.len(),
{
    if s.len() > 0 && is_digit(s[0]) {
        1 + digit_run_len(s.skip(1))
    } else {
        0
    }
}

pub proof fn lemma_digit_run_len_bounds(s: Seq<u8>)
    ensures
        0 <= digit_run_len(s) <= s.len(),
    decreases s.len(),
{
    if s.len() > 0 && is_digit(s[0]) {
        lemma_digit_run_len_bounds(s.skip(1));
    }
}

proof fn lemma_digit_run_step(s: Seq<u8>, i: int)
    requires
        0 <= i <= s.len(),
    ensures
        i < s.len() && is_digit(s[i]) ==> digit_run_len(s.skip(i)) == 1 + digit_run_len(
            s.skip(i + 1),
        ),
        !(i < s.len() && is_digit(s[i])) ==> digit_run_len(s.skip(i)) == 0,
{
    if i < s.len() {
        assert(s.skip(i)[0] == s[i]);
        assert(s.skip(i).skip(1) =~= s.skip(i + 1));
    }
}

/// Index in `s` just past the run of digits that starts at `from`.
pub fn scan_digits(s: &[u8], from: usize) -> (end: usize)
    requires
        from <= s.len(),
    ensures
        from <= end <= s.len(),
        end - from == digit_run_len(s@.skip(from as int)),
{
    let mut j: usize = from;
    while j < s.len() && s[j] >= 48 && s[j] <= 57
        invariant
            from <= j <= s.len(),
            digit_run_len(s@.skip(from as int)) == j - from + digit_run_len(s@.skip(j as int)),
        decreases s.len() - j,
    {
        proof {
            lemma_digit_run_step(s@, j as int);
        }
        j += 1;
    }
    proof {
        lemma_digit_run_step(s@, j as int);
    }
    j
}

/// Value of a string of decimal digits.
pub open spec fn dec_value(s: Seq<u8>) -> nat
    decreases s.len(),
{
    if s.len() == 0 {
        0
    } else {
        dec_value(s.take(s.len() - 1)) * 10 + (s[s.len() - 1] - 48) as nat
    }
}

proof fn lemma_dec_value_extend(s: Seq<u8>, j: int)
    requires
        0 <= j < s.len(),
    ensures
        dec_value(s.take(j + 1)) == dec_value(s.take(j)) * 10 + (s[j] - 48) as nat,
{
    assert(s.take(j + 1).take(j) =~= s.take(j));
    assert(s.take(j + 1)[j] == s[j]);
}

proof fn lemma_dec_value_mono(s: Seq<u8>, j: int)
    requires
        0 <= j <= s.len(),
    ensures
        dec_value(s.take(j)) <= dec_value(s),
    decreases s.len() - j,
{
    if j == s.len() {
        assert(s.take(j) =~= s);
    } else {
        lemma_dec_value_extend(s, j);
        lemma_dec_value_mono(s, j + 1);
    }
}

/// The digits of an unsigned integer literal, after an optional plus sign.
pub open spec fn uint_digits(s: Seq<u8>) -> Seq<u8> {
    if s.len() > 0 && s[0] == 43 {
        s.skip(1)
    } else {
        s
    }
}

/// Whether `s` is an unsigned decimal integer as `u32::from_str` accepts it:
/// an optional plus sign followed by one or more digits.
pub open spec fn is_uint_text(s: Seq<u8>) -> bool {
    let d = uint_digits(s);
    d.len() > 0 && digit_run_len(d) == d.len()
}

/// What parsing `s` as a `u32` yields: the digits' value when the syntax is
/// accepted and the value fits, nothing otherwise.
pub open spec fn spec_parse_u32(s: Seq<u8>) -> Option<u32> {
    if is_uint_text(s) && dec_value(uint_digits(s)) <= u32::MAX {
        Some(dec_value(uint_digits(s)) as u32)
    } else {
        None
    }
}

/// Parse a `u32` from its decimal text.
#[verifier::loop_isolation(false)]
pub fn parse_u32(word: &[u8]) -> (r: Option<u32>)
    ensures
        r == spec_parse_u32(word@),
{
    let start: usize = if word.len() > 0 && word[0] == 43 {
        1
    } else {
        0
    };
    let ghost digits = uint_digits(word@);
    proof {
        assert(word@.skip(start as int) =~= digits);
    }
    if word.len() == start {
        return None;
    }
    let mut value: u64 = 0;
    let mut j: usize = start;
    proof {
        assert(digits.skip(0) =~= digits);
        assert(digits.take(0) =~= Seq::<u8>::empty());
    }
    while j < word.len()
        invariant
            start <= j <= word.len(),
            start < word@.len(),
            digits =~= word@.skip(start as int),
            digit_run_len(digits) == j - start + digit_run_len(digits.skip(j as int - start as int)),
            value == dec_value(digits.take(j as int - start as int)),
            value <= u32::MAX,
        decreases word.len() - j,
    {
        let b = word[j];
        proof {
            lemma_digit_run_step(digits, j as int - start as int);
            assert(digits[j as int - start as int] == word@[j as int]);
        }
        if b < 48 || b > 57 {
            proof {
                lemma_digit_run_len_bounds(digits);
                assert(digit_run_len(digits) == j - start);
                assert(digit_run_len(digits) < digits.len());
            }
            return None;
        }
        proof {
            lemma_dec_value_extend(digits, j as int - start as int);
        }
        value = value * 10 + (b - 48) as u64;
        if value > 0xffff_ffff {
            proof {
                lemma_dec_value_mono(digits, j + 1 - start as int);
            }
            return None;
        }
        j += 1;
    }
    proof {
        assert(digits.skip(digits.len() as int) =~= Seq::<u8>::empty());
        assert(digit_run_len(digits) == digits.len());
        assert(digits.take(digits.len() as int) =~= digits);
    }
    Some(value as u32)
}

/// Lowercase folding of an ASCII byte.
pub open spec fn lower(b: u8) -> u8 {
    if 65 <= b && b <= 90 {
        (b + 32) as u8
    } else {
        b
    }
}

pub open spec fn to_lower(s: Seq<u8>) -> Seq<u8> {
    s.map_values(|b: u8| lower(b))
}

/// The special float spellings `f32::from_str` accepts, case-insensitively.
pub open spec fn is_special_float_body(s: Seq<u8>) -> bool {
    let l = to_lower(s);
    l == seq![105u8, 110u8, 102u8] || l == seq![
        105u8,
        110u8,
        102u8,
        105u8,
        110u8,
        105u8,
        116u8,
        121u8,
    ] || l == seq![110u8, 97u8, 110u8]
}

/// Exponent suffix of a float literal, read from position `i`: either the end
/// of the word, or an `e` marker, an optional sign, and at least one digit
/// running to the end.
pub open spec fn exp_ok(s: Seq<u8>, i: int) -> bool
    recommends
        0 <= i <= s.len(),
{
    if i == s.len() {
        true
    } else if s[i] == 101 || s[i] == 69 {
        let j = if i + 1 < s.len() && (s[i + 1] == 43 || s[i + 1] == 45) {
            i + 2
        } else {
            i + 1
        };
        digit_run_len(s.skip(j)) > 0 && j + digit_run_len(s.skip(j)) == s.len()
    } else {
        false
    }
}

/// Mantissa-and-exponent form of a float literal: digits with an optional
/// fractional part (at least one digit on one side of the point), then an
/// exponent suffix.
pub open spec fn is_decimal_body(s: Seq<u8>) -> bool {
    let d1 = digit_run_len(s);
    if d1 < s.len() && s[d1] == 46 {
        let d2 = digit_run_len(s.skip(d1 + 1));
        d1 + d2 > 0 && exp_ok(s, d1 + 1 + d2)
    } else {
        d1 > 0 && exp_ok(s, d1)
    }
}

pub open spec fn strip_sign(s: Seq<u8>) -> Seq<u8> {
    if s.len() > 0 && (s[0] == 43 || s[0] == 45) {
        s.skip(1)
    } else {
        s
    }
}

/// Whether `s` is a float literal as `f32::from_str` accepts it.
pub open spec fn is_float_text(s: Seq<u8>) -> bool {
    let body = strip_sign(s);
    body.len() > 0 && (is_special_float_body(body) || is_decimal_body(body))
}

fn lower_byte(b: u8) -> (r: u8)
    ensures
        r == lower(b),
{
    if b >= 65 && b <= 90 {
        b + 32
    } else {
        b
    }
}

fn is_special_body(w: &[u8], start: usize) -> (r: bool)
    requires
        start <= w.len(),
    ensures
        r == is_special_float_body(w@.skip(start as int)),
{
    let ghost body = w@.skip(start as int);
    let ghost l = to_lower(body);
    proof {
        assert(l.len() == body.len());
        assert(forall|k: int| 0 <= k < body.len() ==> l[k] == lower(w@[start + k]));
    }
    let n = w.len() - start;
    if n == 3 {
        let b0 = lower_byte(w[start]);
        let b1 = lower_byte(w[start + 1]);
        let b2 = lower_byte(w[start + 2]);
        let inf = b0 == 105 && b1 == 110 && b2 == 102;
        let nan = b0 == 110 && b1 == 97 && b2 == 110;
        proof {
            if inf {
                assert(l =~= seq![105u8, 110u8, 102u8]);
            }
            if nan {
                assert(l =~= seq![110u8, 97u8, 110u8]);
            }
            if !inf && !nan {
                assert(l != seq![105u8, 110u8, 102u8] && l != seq![110u8, 97u8, 110u8]) by {
                    if l == seq![105u8, 110u8, 102u8] || l == seq![110u8, 97u8, 110u8] {
                        assert(l[0] == b0 && l[1] == b1 && l[2] == b2);
                    }
                }
                assert(l.len() != 8);
            }
        }
        inf || nan
    } else if n == 8 {
        let b0 = lower_byte(w[start]);
        let b1 = lower_byte(w[start + 1]);
        let b2 = lower_byte(w[start + 2]);
        let b3 = lower_byte(w[start + 3]);
        let b4 = lower_byte(w[start + 4]);
        let b5 = lower_byte(w[start + 5]);
        let b6 = lower_byte(w[start + 6]);
        let b7 = lower_byte(w[start + 7]);
        let infinity = b0 == 105 && b1 == 110 && b2 == 102 && b3 == 105 && b4 == 110 && b5 == 105
            && b6 == 116 && b7 == 121;
        proof {
            if infinity {
                assert(l =~= seq![105u8, 110u8, 102u8, 105u8, 110u8, 105u8, 116u8, 121u8]);
            } else {
                assert(l != seq![105u8, 110u8, 102u8, 105u8, 110u8, 105u8, 116u8, 121u8]) by {
                    if l == seq![105u8, 110u8, 102u8, 105u8, 110u8, 105u8, 116u8, 121u8] {
                        assert(l[0] == b0 && l[1] == b1 && l[2] == b2 && l[3] == b3 && l[4] == b4
                            && l[5] == b5 && l[6] == b6 && l[7] == b7);
                    }
                }
            }
            assert(l.len() != 3);
        }
        infinity
    } else {
        proof {
            assert(l.len() != 3 && l.len() != 8);
        }
        false
    }
}

/// Whether `word` is a float literal that `f32::from_str` accepts.
#[verifier::rlimit(100)]
pub fn is_float_word(word: &[u8]) -> (r: bool)
    ensures
        r == is_float_text(word@),
{
    let n = word.len();
    let start: usize = if n > 0 && (word[0] == 43 || word[0] == 45) {
        1
    } else {
        0
    };
    let ghost body = strip_sign(word@);
    proof {
        assert(word@.skip(start as int) =~= body);
    }
    if n == start {
        return false;
    }
    if is_special_body(word, start) {
        return true;
    }
    // Mantissa: digits, then optionally a point and more digits.
    let d1 = scan_digits(word, start);
    let m_end: usize;
    let has_mantissa: bool;
    if d1 < n && word[d1] == 46 {
        proof {
            assert(body[d1 - start as int] == word@[d1 as int]);
            lemma_digit_run_len_bounds(body);
        }
        let d2 = scan_digits(word, d1 + 1);
        proof {
            assert(word@.skip(d1 + 1 as int) =~= body.skip(d1 + 1 - start as int));
        }
        m_end = d2;
        has_mantissa = d2 > d1 + 1 || d1 > start;
    } else {
        proof {
            lemma_digit_run_len_bounds(body);
            if d1 - start < body.len() {
                assert(body[d1 - start as int] == word@[d1 as int]);
            }
        }
        m_end = d1;
        has_mantissa = d1 > start;
    }
    if !has_mantissa {
        return false;
    }
    // Exponent suffix.
    let ghost e_at = m_end - start as int;
    if m_end == n {
        return true;
    }
    proof {
        assert(body[e_at] == word@[m_end as int]);
    }
    let c = word[m_end];
    if c != 101 && c != 69 {
        return false;
    }
    let j: usize = if m_end + 1 < n && (word[m_end + 1] == 43 || word[m_end + 1] == 45) {
        proof {
            assert(body[e_at + 1] == word@[m_end + 1 as int]);
        }
        m_end + 2
    } else {
        proof {
            if m_end + 1 < n {
                assert(body[e_at + 1] == word@[m_end + 1 as int]);
            }
        }
        m_end + 1
    };
    let e_end = scan_digits(word, j);
    proof {
        assert(word@.skip(j as int) =~= body.skip(j - start as int));
    }
    e_end > j && e_end == n
}

} // verus!
