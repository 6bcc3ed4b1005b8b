//! The manifest's version line: recognizing the assignment and
//! rewriting the quoted value while keeping every other character.

use vstd::prelude::*;

use crate::ident::first_char_from;
use crate::ident::lemma_first_char_from_is;
use crate::text::copy_range;
use crate::text::str_chars;

verus! {

pub open spec fn is_blank(c: char) -> bool {
    c == ' ' || c == '\t'
}

/// The position of the first non-blank character at or after `i`, or
/// the length of `s` when all the rest is blank.
pub open spec fn first_non_blank_from(s: Seq<char>, i: int) -> int
    decreases s.len() - i,
{
    if i < 0 || i >= s.len() {
        s.len() as int
    } else if !is_blank(s[i]) {
        i
    } else {
        first_non_blank_from(s, i + 1)
    }
}

pub proof fn lemma_first_non_blank_from_is(s: Seq<char>, i: int, j: int)
    requires
        0 <= i <= j <= s.len(),
        forall|k: int| i <= k < j ==> is_blank(s[k]),
        j < s.len() ==> !is_blank(s[j]),
    ensures
        first_non_blank_from(s, i) == j,
    decreases j - i,
{
    if i < j {
        lemma_first_non_blank_from_is(s, i + 1, j);
    }
}

/// The line assigns the manifest's version field: optional blanks, the
/// word `version`, then optional blanks and `=`.
pub open spec fn spec_version_assignment(s: Seq<char>) -> bool {
    let i = first_non_blank_from(s, 0);
    &&& i + 7 <= s.len()
    &&& s.subrange(i, i + 7) == "version"@
    &&& first_non_blank_from(s, i + 7) < s.len()
    &&& s[first_non_blank_from(s, i + 7)] == '='
}

/// Recognizes the manifest line that assigns the version field.
pub fn is_version_assignment(line: &str) -> (r: bool)
    ensures
        r == spec_version_assignment(line@),
{
    let ghost s = line@;
    let chars = str_chars(line);
    let mut i: usize = 0;
    while i < chars.len() && (chars[i] == ' ' || chars[i] == '\t')
        invariant
            chars@ == s,
            i <= s.len(),
            forall|k: int| 0 <= k < i ==> is_blank(s[k]),
        decreases s.len() - i,
    {
        i = i + 1;
    }
    proof {
        lemma_first_non_blank_from_is(s, 0, i as int);
    }
    if chars.len() - i < 7 {
        return false;
    }
    proof {
        reveal_strlit("version");
    }
    if !(chars[i] == 'v' && chars[i + 1] == 'e' && chars[i + 2] == 'r' && chars[i + 3] == 's'
        && chars[i + 4] == 'i' && chars[i + 5] == 'o' && chars[i + 6] == 'n') {
        proof {
            let sub = s.subrange(i as int, i as int + 7);
            assert(s.subrange(i as int, i as int + 7) != "version"@) by {
                if sub == "version"@ {
                    assert(sub[0] == 'v' && sub[1] == 'e' && sub[2] == 'r' && sub[3] == 's'
                        && sub[4] == 'i' && sub[5] == 'o' && sub[6] == 'n');
                    assert(false);
                }
            }
        }
        return false;
    }
    proof {
        assert(s.subrange(i as int, i as int + 7) =~= "version"@);
    }
    let mut k: usize = i + 7;
    while k < chars.len() && (chars[k] == ' ' || chars[k] == '\t')
        invariant
            chars@ == s,
            i + 7 <= k <= s.len(),
            forall|t: int| i + 7 <= t < k ==> is_blank(s[t]),
        decreases s.len() - k,
    {
        k = k + 1;
    }
    proof {
        lemma_first_non_blank_from_is(s, i as int + 7, k as int);
    }
    k < chars.len() && chars[k] == '='
}

/// The text between the first two double quotes of the line.
pub fn quoted_value(line: &str) -> (r: Option<String>)
    ensures
        ({
            let i = first_char_from(line@, '"', 0);
            let j = first_char_from(line@, '"', i + 1);
            &&& (r is Some <==> j < line@.len())
            &&& (r matches Some(t) ==> t@ == line@.subrange(i + 1, j))
        }),
{
    let ghost s = line@;
    let chars = str_chars(line);
    let mut i: usize = 0;
    while i < chars.len() && chars[i] != '"'
        invariant
            chars@ == s,
            i <= s.len(),
            forall|k: int| 0 <= k < i ==> s[k] != '"',
        decreases s.len() - i,
    {
        i = i + 1;
    }
    proof {
        lemma_first_char_from_is(s, '"', 0, i as int);
    }
    if i == chars.len() {
        return None;
    }
    let mut j: usize = i + 1;
    while j < chars.len() && chars[j] != '"'
        invariant
            chars@ == s,
            i + 1 <= j <= s.len(),
            forall|k: int| i + 1 <= k < j ==> s[k] != '"',
        decreases s.len() - j,
    {
        j = j + 1;
    }
    proof {
        lemma_first_char_from_is(s, '"', i as int + 1, j as int);
    }
    if j == chars.len() {
        return None;
    }
    Some(copy_range(&chars, i + 1, j))
}

/// The line with the content of its first quoted span replaced; every
/// character outside the quotes is kept.
pub fn replace_quoted(line: &str, replacement: &str) -> (r: Option<String>)
    ensures
        ({
            let i = first_char_from(line@, '"', 0);
            let j = first_char_from(line@, '"', i + 1);
            &&& (r is Some <==> j < line@.len())
            &&& (r matches Some(t) ==> t@ == line@.take(i + 1) + replacement@ + line@.skip(j))
        }),
{
    let ghost s = line@;
    let chars = str_chars(line);
    let mut i: usize = 0;
    while i < chars.len() && chars[i] != '"'
        invariant
            chars@ == s,
            i <= s.len(),
            forall|k: int| 0 <= k < i ==> s[k] != '"',
        decreases s.len() - i,
    {
        i = i + 1;
    }
    proof {
        lemma_first_char_from_is(s, '"', 0, i as int);
    }
    if i == chars.len() {
        return None;
    }
    let mut j: usize = i + 1;
    while j < chars.len() && chars[j] != '"'
        invariant
            chars@ == s,
            i + 1 <= j <= s.len(),
            forall|k: int| i + 1 <= k < j ==> s[k] != '"',
        decreases s.len() - j,
    {
        j = j + 1;
    }
    proof {
        lemma_first_char_from_is(s, '"', i as int + 1, j as int);
    }
    if j == chars.len() {
        return None;
    }
    let mut out = copy_range(&chars, 0, i + 1);
    out.append(replacement);
    let tail = copy_range(&chars, j, chars.len());
    out.append(tail.as_str());
    proof {
        assert(out@ =~= s.take(i as int + 1) + replacement@ + s.skip(j as int));
    }
    Some(out)
}

} // verus!
