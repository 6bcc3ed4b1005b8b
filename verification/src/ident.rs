//! Semantic-versioning identifiers: the grammar of pre-release and build
//! segments, decimal numerals, and the parser that turns a dot-separated
//! override string into a sequence of identifiers.

use vstd::prelude::*;

use crate::text::copy_range;
use crate::text::push_char;
use crate::text::str_chars;

verus! {

/// One dot-separated segment of a pre-release or build-metadata field.
///
/// A segment of decimal digits that has no leading zero and fits in a
/// `u64` is held numerically; every other segment keeps its text.
#[derive(Debug, Clone, PartialEq, Eq)]
pub enum Identifier {
    Numeric(u64),
    AlphaNumeric(String),
}

/// True exactly when `c` is a decimal digit.
pub open spec fn is_digit(c: char) -> bool {
    c == '0' || c == '1' || c == '2' || c == '3' || c == '4' || c == '5' || c == '6' || c == '7'
        || c == '8' || c == '9'
}

/// The numeric value of a digit character.
pub open spec fn digit_val(c: char) -> int {
    if c == '0' {
        0
    } else if c == '1' {
        1
    } else if c == '2' {
        2
    } else if c == '3' {
        3
    } else if c == '4' {
        4
    } else if c == '5' {
        5
    } else if c == '6' {
        6
    } else if c == '7' {
        7
    } else if c == '8' {
        8
    } else {
        9
    }
}

/// The digit character for a value below ten.
pub open spec fn digit_char(d: int) -> char {
    if d == 0 {
        '0'
    } else if d == 1 {
        '1'
    } else if d == 2 {
        '2'
    } else if d == 3 {
        '3'
    } else if d == 4 {
        '4'
    } else if d == 5 {
        '5'
    } else if d == 6 {
        '6'
    } else if d == 7 {
        '7'
    } else if d == 8 {
        '8'
    } else {
        '9'
    }
}

/// True exactly when `c` may appear in an identifier: an ASCII letter, a
/// decimal digit, or a hyphen.
pub open spec fn is_ident_char(c: char) -> bool {
    is_digit(c) || (97 <= c as u32 && c as u32 <= 122) || (65 <= c as u32 && c as u32 <= 90) || c
        == '-'
}

pub open spec fn all_digits(s: Seq<char>) -> bool {
    forall|k: int| 0 <= k < s.len() ==> is_digit(#[trigger] s[k])
}

pub open spec fn all_ident_chars(s: Seq<char>) -> bool {
    forall|k: int| 0 <= k < s.len() ==> is_ident_char(#[trigger] s[k])
}

/// The text of a canonical decimal numeral: non-empty digits with no
/// leading zero.
pub open spec fn is_numeric_text(s: Seq<char>) -> bool {
    s.len() > 0 && all_digits(s) && (s.len() == 1 || s[0] != '0')
}

/// The value of a digit string read as a decimal numeral.
pub open spec fn dec_val(s: Seq<char>) -> int
    decreases s.len(),
{
    if s.len() == 0 {
        0
    } else {
        dec_val(s.drop_last()) * 10 + digit_val(s.last())
    }
}

/// The canonical decimal numeral of a non-negative value.
pub open spec fn dec_str(n: int) -> Seq<char>
    decreases n,
{
    if n < 10 {
        seq![digit_char(n)]
    } else {
        dec_str(n / 10).push(digit_char(n % 10))
    }
}

pub proof fn lemma_dec_val_nonneg(s: Seq<char>)
    requires
        all_digits(s),
    ensures
        dec_val(s) >= 0,
    decreases s.len(),
{
    if s.len() > 0 {
        assert(all_digits(s.drop_last()));
        lemma_dec_val_nonneg(s.drop_last());
    }
}

/// A digit string with a non-zero first digit has value at least one.
pub proof fn lemma_dec_val_lower(s: Seq<char>)
    requires
        all_digits(s),
        s.len() > 0,
        s[0] != '0',
    ensures
        dec_val(s) >= 1,
    decreases s.len(),
{
    if s.len() == 1 {
        assert(is_digit(s[0]));
    } else {
        assert(all_digits(s.drop_last()));
        assert(s.drop_last()[0] == s[0]);
        lemma_dec_val_lower(s.drop_last());
        assert(dec_val(s) == dec_val(s.drop_last()) * 10 + digit_val(s.last()));
        assert(digit_val(s.last()) >= 0);
    }
}

/// Extending a digit string can only grow its value.
pub proof fn lemma_dec_val_prefix(s: Seq<char>, i: int)
    requires
        all_digits(s),
        0 <= i <= s.len(),
    ensures
        dec_val(s) >= dec_val(s.take(i)),
    decreases s.len() - i,
{
    if i < s.len() {
        lemma_dec_val_prefix(s, i + 1);
        let t = s.take(i + 1);
        assert(all_digits(t));
        assert(t.drop_last() =~= s.take(i));
        assert(is_digit(t.last()));
        lemma_dec_val_nonneg(s.take(i));
    } else {
        assert(s.take(i) =~= s);
    }
}

/// Reading a canonical numeral back gives the same text.
pub proof fn lemma_dec_str_roundtrip(s: Seq<char>)
    requires
        is_numeric_text(s),
    ensures
        dec_str(dec_val(s)) == s,
    decreases s.len(),
{
    if s.len() == 1 {
        assert(is_digit(s[0]));
        assert(s.drop_last() =~= Seq::<char>::empty());
        assert(dec_val(Seq::<char>::empty()) == 0);
        assert(dec_val(s) == dec_val(s.drop_last()) * 10 + digit_val(s.last()));
        assert(s.last() == s[0]);
        assert(dec_val(s) == digit_val(s[0]));
        assert(dec_str(dec_val(s)) =~= s);
    } else {
        let t = s.drop_last();
        let d = digit_val(s.last());
        assert(all_digits(t));
        assert(t[0] == s[0]);
        assert(is_numeric_text(t));
        lemma_dec_val_lower(t);
        assert(is_digit(s.last()));
        assert(dec_val(s) == dec_val(t) * 10 + d);
        assert(dec_val(s) >= 10);
        vstd::arithmetic::div_mod::lemma_fundamental_div_mod_converse(
            dec_val(t) * 10 + d,
            10,
            dec_val(t),
            d,
        );
        assert(dec_val(s) / 10 == dec_val(t));
        assert(dec_val(s) % 10 == d);
        lemma_dec_str_roundtrip(t);
        assert(digit_char(digit_val(s.last())) == s.last());
        assert(dec_str(dec_val(s)) == t.push(s.last()));
        assert(t.push(s.last()) =~= s);
    }
}

/// The digit character of a value below ten.
pub(crate) fn digit_char_exec(d: u64) -> (c: char)
    requires
        d < 10,
    ensures
        c == digit_char(d as int),
{
    if d == 0 {
        '0'
    } else if d == 1 {
        '1'
    } else if d == 2 {
        '2'
    } else if d == 3 {
        '3'
    } else if d == 4 {
        '4'
    } else if d == 5 {
        '5'
    } else if d == 6 {
        '6'
    } else if d == 7 {
        '7'
    } else if d == 8 {
        '8'
    } else {
        '9'
    }
}

pub(crate) fn is_digit_exec(c: char) -> (r: bool)
    ensures
        r == is_digit(c),
{
    c == '0' || c == '1' || c == '2' || c == '3' || c == '4' || c == '5' || c == '6' || c == '7'
        || c == '8' || c == '9'
}

pub(crate) fn digit_val_exec(c: char) -> (d: u64)
    requires
        is_digit(c),
    ensures
        d as int == digit_val(c),
        d < 10,
{
    if c == '0' {
        0
    } else if c == '1' {
        1
    } else if c == '2' {
        2
    } else if c == '3' {
        3
    } else if c == '4' {
        4
    } else if c == '5' {
        5
    } else if c == '6' {
        6
    } else if c == '7' {
        7
    } else if c == '8' {
        8
    } else {
        9
    }
}

pub(crate) fn is_ident_char_exec(c: char) -> (r: bool)
    ensures
        r == is_ident_char(c),
{
    let u = c as u32;
    is_digit_exec(c) || (97 <= u && u <= 122) || (65 <= u && u <= 90) || c == '-'
}

/// Appends the canonical decimal numeral of `n` to `out`.
pub(crate) fn push_u64(out: &mut String, n: u64)
    ensures
        final(out)@ == old(out)@ + dec_str(n as int),
    decreases n,
{
    if n < 10 {
        push_char(out, digit_char_exec(n));
        proof {
            assert(out@ =~= old(out)@ + dec_str(n as int));
        }
    } else {
        push_u64(out, n / 10);
        push_char(out, digit_char_exec(n % 10));
        proof {
            assert(out@ =~= old(out)@ + dec_str(n as int));
        }
    }
}

/// Reads the digit segment `chars[start..end]` as a `u64`; `None` means
/// the value does not fit.
pub(crate) fn parse_u64_digits(chars: &Vec<char>, start: usize, end: usize) -> (r: Option<u64>)
    requires
        start <= end <= chars@.len(),
        start < end,
        all_digits(chars@.subrange(start as int, end as int)),
    ensures
        ({
            let seg = chars@.subrange(start as int, end as int);
            &&& (r matches Some(v) ==> v as int == dec_val(seg))
            &&& (r is None ==> dec_val(seg) > u64::MAX)
        }),
{
    let ghost seg = chars@.subrange(start as int, end as int);
    let mut acc: u64 = 0;
    let mut i: usize = start;
    while i < end
        invariant
            start <= i <= end <= chars@.len(),
            seg == chars@.subrange(start as int, end as int),
            all_digits(seg),
            acc as int == dec_val(seg.take(i - start)),
        decreases end - i,
    {
        proof {
            assert(is_digit(seg[i - start]));
        }
        let d = digit_val_exec(chars[i]);
        if acc > (u64::MAX - d) / 10 {
            proof {
                let pre = seg.take(i - start + 1);
                assert(pre.drop_last() =~= seg.take(i - start));
                assert(pre.last() == seg[i - start]);
                assert(acc as int >= (u64::MAX - d) as int / 10 + 1);
                assert(acc as int * 10 + d as int > u64::MAX) by (nonlinear_arith)
                    requires
                        acc as int >= (u64::MAX - d) as int / 10 + 1,
                        0 <= d < 10,
                ;
                assert(dec_val(pre) > u64::MAX);
                lemma_dec_val_prefix(seg, i - start + 1);
            }
            return None;
        }
        proof {
            assert(acc as int * 10 + d as int <= u64::MAX) by (nonlinear_arith)
                requires
                    acc as int <= (u64::MAX - d) as int / 10,
                    0 <= d < 10,
            ;
            let pre = seg.take(i - start + 1);
            assert(pre.drop_last() =~= seg.take(i - start));
            assert(pre.last() == seg[i - start]);
        }
        acc = acc * 10 + d;
        i = i + 1;
    }
    proof {
        assert(seg.take(end - start) =~= seg);
    }
    Some(acc)
}

/// A valid pre-release identifier: non-empty, identifier characters only,
/// and an all-digit identifier has no leading zero.
pub open spec fn valid_pre_ident_text(s: Seq<char>) -> bool {
    s.len() > 0 && all_ident_chars(s) && (all_digits(s) ==> (s.len() == 1 || s[0] != '0'))
}

/// A valid build-metadata identifier: non-empty, identifier characters
/// only; digits may carry leading zeros.
pub open spec fn valid_build_ident_text(s: Seq<char>) -> bool {
    s.len() > 0 && all_ident_chars(s)
}

pub open spec fn valid_ident_text(s: Seq<char>, build: bool) -> bool {
    if build {
        valid_build_ident_text(s)
    } else {
        valid_pre_ident_text(s)
    }
}

/// The text an identifier stands for.
pub open spec fn ident_text(id: Identifier) -> Seq<char> {
    match id {
        Identifier::Numeric(n) => dec_str(n as int),
        Identifier::AlphaNumeric(s) => s@,
    }
}

/// A well-formed identifier: its text is a valid identifier, and a
/// numeral is kept as text only when it cannot be held numerically.
pub open spec fn ident_wf(id: Identifier, build: bool) -> bool {
    match id {
        Identifier::Numeric(_) => true,
        Identifier::AlphaNumeric(s) => valid_ident_text(s@, build) && (all_digits(s@)
            ==> !(is_numeric_text(s@) && dec_val(s@) <= u64::MAX)),
    }
}

pub open spec fn idents_wf(ids: Seq<Identifier>, build: bool) -> bool {
    forall|k: int| 0 <= k < ids.len() ==> ident_wf(#[trigger] ids[k], build)
}

/// The identifiers' texts joined with dots.
pub open spec fn join_texts(ids: Seq<Identifier>) -> Seq<char>
    decreases ids.len(),
{
    if ids.len() == 0 {
        Seq::empty()
    } else if ids.len() == 1 {
        ident_text(ids[0])
    } else {
        join_texts(ids.drop_last()) + seq!['.'] + ident_text(ids.last())
    }
}

pub proof fn lemma_join_push(ids: Seq<Identifier>, id: Identifier)
    ensures
        ids.len() == 0 ==> join_texts(ids.push(id)) == ident_text(id),
        ids.len() > 0 ==> join_texts(ids.push(id)) == join_texts(ids) + seq!['.'] + ident_text(id),
{
    let p = ids.push(id);
    assert(p.drop_last() =~= ids);
    assert(p.last() == id);
    if ids.len() == 0 {
        assert(join_texts(p) == ident_text(p[0]));
    }
}

/// The position of the first `needle` at or after `i`, or the length of
/// `s` when there is none.
pub open spec fn first_char_from(s: Seq<char>, needle: char, i: int) -> int
    decreases s.len() - i,
{
    if i < 0 || i >= s.len() {
        s.len() as int
    } else if s[i] == needle {
        i
    } else {
        first_char_from(s, needle, i + 1)
    }
}

pub proof fn lemma_first_char_from_bounds(s: Seq<char>, needle: char, i: int)
    requires
        0 <= i <= s.len(),
    ensures
        i <= first_char_from(s, needle, i) <= s.len(),
        forall|k: int| i <= k < first_char_from(s, needle, i) ==> s[k] != needle,
        first_char_from(s, needle, i) < s.len() ==> s[first_char_from(s, needle, i)] == needle,
    decreases s.len() - i,
{
    if i < s.len() && s[i] != needle {
        lemma_first_char_from_bounds(s, needle, i + 1);
    }
}

/// Where a scan found no `needle` in `[i, j)` and `j` is the end or holds
/// one, `j` is the first position.
pub proof fn lemma_first_char_from_is(s: Seq<char>, needle: char, i: int, j: int)
    requires
        0 <= i <= j <= s.len(),
        forall|k: int| i <= k < j ==> s[k] != needle,
        j < s.len() ==> s[j] == needle,
    ensures
        first_char_from(s, needle, i) == j,
    decreases j - i,
{
    if i < j {
        lemma_first_char_from_is(s, needle, i + 1, j);
    }
}

/// The string from position `i` on is a non-empty dot-separated sequence
/// of valid identifiers.
pub open spec fn valid_dotted_from(s: Seq<char>, i: int, build: bool) -> bool
    decreases s.len() - i when 0 <= i <= s.len() via valid_dotted_from_decreases
{
    let j = first_char_from(s, '.', i);
    &&& valid_ident_text(s.subrange(i, j), build)
    &&& (j < s.len() ==> valid_dotted_from(s, j + 1, build))
}

#[via_fn]
proof fn valid_dotted_from_decreases(s: Seq<char>, i: int, build: bool) {
    lemma_first_char_from_bounds(s, '.', i);
}

/// Classifies the segment `chars[start..end]` as an identifier.
fn classify_segment(chars: &Vec<char>, start: usize, end: usize, build: bool) -> (r: Option<
    Identifier,
>)
    requires
        start <= end <= chars@.len(),
    ensures
        ({
            let seg = chars@.subrange(start as int, end as int);
            &&& (r is Some <==> valid_ident_text(seg, build))
            &&& (r matches Some(id) ==> ident_wf(id, build) && ident_text(id) == seg)
        }),
{
    let ghost seg = chars@.subrange(start as int, end as int);
    if end == start {
        return None;
    }
    let mut digits_only = true;
    let mut i: usize = start;
    while i < end
        invariant
            start <= i <= end <= chars@.len(),
            seg == chars@.subrange(start as int, end as int),
            forall|k: int| 0 <= k < i - start ==> is_ident_char(#[trigger] seg[k]),
            digits_only <==> all_digits(seg.take(i - start)),
        decreases end - i,
    {
        let c = chars[i];
        proof {
            assert(seg[i - start] == chars@[i as int]);
        }
        if !is_ident_char_exec(c) {
            proof {
                assert(!is_ident_char(seg[i - start]));
            }
            return None;
        }
        if !is_digit_exec(c) {
            digits_only = false;
        }
        proof {
            let t = seg.take(i - start + 1);
            assert(t.drop_last() =~= seg.take(i - start));
            assert(t.last() == seg[i - start]);
            assert(all_digits(t) <==> all_digits(seg.take(i - start)) && is_digit(seg[i - start]));
        }
        i = i + 1;
    }
    proof {
        assert(seg.take(end - start) =~= seg);
        assert(all_ident_chars(seg));
    }
    if !digits_only {
        let text = copy_range(chars, start, end);
        proof {
            assert(!all_digits(seg));
        }
        return Some(Identifier::AlphaNumeric(text));
    }
    // The segment is all digits.
    if end - start > 1 && chars[start] == '0' {
        proof {
            assert(seg[0] == chars@[start as int]);
        }
        if build {
            let text = copy_range(chars, start, end);
            proof {
                assert(!is_numeric_text(seg));
            }
            return Some(Identifier::AlphaNumeric(text));
        }
        return None;
    }
    proof {
        assert(is_numeric_text(seg));
    }
    match parse_u64_digits(chars, start, end) {
        Some(v) => {
            proof {
                lemma_dec_str_roundtrip(seg);
            }
            Some(Identifier::Numeric(v))
        },
        None => {
            let text = copy_range(chars, start, end);
            Some(Identifier::AlphaNumeric(text))
        },
    }
}

/// Parses a dot-separated identifier sequence, as it appears in a
/// pre-release or build-metadata field; `build` selects which of the two
/// grammars applies. `None` means the text breaks the grammar.
pub fn parse_identifiers(value: &str, build: bool) -> (r: Option<Vec<Identifier>>)
    ensures
        r is Some <==> valid_dotted_from(value@, 0, build),
        r matches Some(ids) ==> ids@.len() >= 1 && idents_wf(ids@, build) && join_texts(ids@)
            == value@,
{
    let chars = str_chars(value);
    let ghost s = value@;
    let mut ids: Vec<Identifier> = Vec::new();
    let mut pos: usize = 0;
    loop
        invariant
            s == value@,
            chars@ == s,
            pos <= s.len(),
            ids@.len() == 0 ==> pos == 0,
            ids@.len() > 0 ==> 1 <= pos && join_texts(ids@) == s.take(pos - 1) && s[pos - 1] == '.',
            idents_wf(ids@, build),
            valid_dotted_from(s, 0, build) <==> valid_dotted_from(s, pos as int, build),
        decreases s.len() - pos,
    {
        let mut j: usize = pos;
        while j < chars.len() && chars[j] != '.'
            invariant
                chars@ == s,
                pos <= j <= s.len(),
                forall|k: int| pos <= k < j ==> s[k] != '.',
            decreases s.len() - j,
        {
            j = j + 1;
        }
        proof {
            lemma_first_char_from_is(s, '.', pos as int, j as int);
        }
        match classify_segment(&chars, pos, j, build) {
            None => {
                proof {
                    assert(!valid_dotted_from(s, pos as int, build));
                }
                return None;
            },
            Some(id) => {
                proof {
                    lemma_join_push(ids@, id);
                    if ids@.len() == 0 {
                        assert(join_texts(ids@.push(id)) =~= s.take(j as int));
                    } else {
                        assert(join_texts(ids@.push(id)) =~= s.take(j as int));
                    }
                }
                ids.push(id);
            },
        }
        if j == chars.len() {
            proof {
                assert(s.take(j as int) =~= s);
                assert(valid_dotted_from(s, pos as int, build));
            }
            return Some(ids);
        }
        pos = j + 1;
    }
}

} // verus!
