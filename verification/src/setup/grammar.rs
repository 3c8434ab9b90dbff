//! The grammar of the manifest. Each line names one participant:
//!
//! ```text
//! <hostname>:<role><stage>[,<role><stage>]*
//! ```
//!
//! where `<role>` is `proposer`, `acceptor` or `learner` and `<stage>` is a
//! decimal number that fits 32 bits. The hostname ends at the first colon.

use std::collections::VecDeque;
use vstd::prelude::*;
use vstd::slice::slice_subrange;
use vstd::string::StrSliceExecFns;

use crate::setup::hostsfile::Role;

verus! {

/// Whether `i` is the position of the first `c` in `s`.
pub open spec fn is_first(s: Seq<char>, c: char, i: int) -> bool {
    &&& 0 <= i < s.len()
    &&& s[i] == c
    &&& forall|j: int| 0 <= j < i ==> s[j] != c
}

/// The position of the first `c` in `s`; the length of `s` where it holds
/// none.
pub open spec fn find(s: Seq<char>, c: char) -> int {
    if exists|i: int| is_first(s, c, i) {
        choose|i: int| is_first(s, c, i)
    } else {
        s.len() as int
    }
}

/// Whether `c` is a decimal digit.
pub open spec fn is_digit(c: char) -> bool {
    48 <= c as u32 <= 57
}

/// The number that the decimal digits `digits` write.
pub open spec fn digits_value(digits: Seq<char>) -> nat
    decreases digits.len(),
{
    if digits.len() == 0 {
        0
    } else {
        (digits_value(digits.drop_last()) * 10 + (digits.last() as u32 - 48)) as nat
    }
}

/// The stage that `digits` writes: one digit or more, leading zeros
/// allowed, the number within 32 bits.
pub open spec fn stage_of(digits: Seq<char>) -> Option<u32> {
    if digits.len() > 0 && (forall|i: int| 0 <= i < digits.len() ==> is_digit(#[trigger] digits[i]))
        && digits_value(digits) <= u32::MAX {
        Some(digits_value(digits) as u32)
    } else {
        None
    }
}

/// Whether `c` is a letter of the Latin alphabet, small or capital.
pub open spec fn is_letter(c: char) -> bool {
    65 <= c as u32 <= 90 || 97 <= c as u32 <= 122
}

/// The number of letters at the front of `s`, up to the first character
/// that is none.
pub open spec fn word_len(s: Seq<char>) -> nat
    decreases s.len(),
{
    if s.len() == 0 || !is_letter(s[0]) {
        0
    } else {
        1 + word_len(s.skip(1))
    }
}

/// The number of digits at the front of `s`, up to the first character
/// that is none.
pub open spec fn digits_len(s: Seq<char>) -> nat
    decreases s.len(),
{
    if s.len() == 0 || !is_digit(s[0]) {
        0
    } else {
        1 + digits_len(s.skip(1))
    }
}

/// The role that the front of `input` writes, and the number of
/// characters that write it: all the letters at the front, which spell a
/// role's name, and all the digits right behind them, which write a stage.
pub open spec fn front_role(input: Seq<char>) -> Option<(Role, nat)> {
    let word = input.take(word_len(input) as int);
    let behind = input.skip(word_len(input) as int);
    let digits = behind.take(digits_len(behind) as int);
    let taken = word_len(input) + digits_len(behind);
    match stage_of(digits) {
        Some(stage) => if word == "proposer"@ {
            Some((Role::Proposer(stage), taken))
        } else if word == "acceptor"@ {
            Some((Role::Acceptor(stage), taken))
        } else if word == "learner"@ {
            Some((Role::Learner(stage), taken))
        } else {
            None
        },
        None => None,
    }
}

/// The roles that `list` writes: one role or more, with a comma between
/// two of them and nothing else.
pub open spec fn roles_of(list: Seq<char>) -> Option<Seq<Role>>
    decreases list.len(),
{
    match front_role(list) {
        None => None,
        Some((role, taken)) => if taken >= list.len() {
            Some(seq![role])
        } else if list[taken as int] == ',' {
            match roles_of(list.skip(taken as int + 1)) {
                Some(rest) => Some(seq![role] + rest),
                None => None,
            }
        } else {
            None
        },
    }
}

/// The hostname and the roles that `line` writes.
pub open spec fn line_entry(line: Seq<char>) -> Option<(Seq<char>, Seq<Role>)> {
    let colon = find(line, ':');
    if colon >= line.len() {
        None
    } else {
        match roles_of(line.skip(colon + 1)) {
            Some(roles) => Some((line.take(colon), roles)),
            None => None,
        }
    }
}

/// `line` without the carriage return at its end, if it has one.
pub open spec fn strip_cr(line: Seq<char>) -> Seq<char> {
    if line.len() > 0 && line.last() == '\r' {
        line.drop_last()
    } else {
        line
    }
}

/// The lines of `text`. A line ends at a line feed, or at a carriage
/// return right before one; neither belongs to the line. The last line
/// need not be ended, and behind the last line feed no empty line follows.
pub open spec fn manifest_lines(text: Seq<char>) -> Seq<Seq<char>>
    decreases text.len(),
{
    let end = find(text, '\n');
    if text.len() == 0 {
        Seq::empty()
    } else if end < 0 || end >= text.len() {
        seq![text]
    } else {
        seq![strip_cr(text.take(end))] + manifest_lines(text.skip(end + 1))
    }
}

/// The position of the first `c` in `s`; the length of `s` where it holds
/// none.
pub fn find_char(s: &[char], c: char) -> (at: usize)
    ensures
        at == find(s@, c),
        at <= s@.len(),
        at < s@.len() ==> is_first(s@, c, at as int),
{
    let mut at: usize = 0;
    while at < s.len() && s[at] != c
        invariant
            at <= s@.len(),
            forall|j: int| 0 <= j < at ==> s@[j] != c,
        decreases s@.len() - at,
    {
        at = at + 1;
    }
    proof {
        if at < s@.len() {
            assert(is_first(s@, c, at as int));
        }
    }
    at
}

fn starts_with(s: &[char], word: &str) -> (yes: bool)
    ensures
        yes == word@.is_prefix_of(s@),
{
    let n: usize = word.unicode_len();
    if n > s.len() {
        return false;
    }
    let mut i: usize = 0;
    while i < n
        invariant
            i <= n == word@.len() <= s@.len(),
            forall|j: int| 0 <= j < i ==> s@[j] == word@[j],
        decreases n - i,
    {
        if s[i] != word.get_char(i) {
            assert(s@.subrange(0, n as int)[i as int] != word@[i as int]);
            return false;
        }
        i = i + 1;
    }
    assert(word@ =~= s@.subrange(0, n as int));
    true
}

proof fn lemma_digits_grow(digits: Seq<char>, k: int)
    requires
        0 <= k <= digits.len(),
        forall|i: int| 0 <= i < digits.len() ==> is_digit(#[trigger] digits[i]),
    ensures
        digits_value(digits.take(k)) <= digits_value(digits),
    decreases digits.len() - k,
{
    if k < digits.len() {
        lemma_digits_grow(digits, k + 1);
        assert(digits.take(k + 1).drop_last() =~= digits.take(k));
        assert(is_digit(digits[k]));
    } else {
        assert(digits.take(k) =~= digits);
    }
}

fn parse_stage(digits: &[char]) -> (stage: Option<u32>)
    ensures
        stage == stage_of(digits@),
{
    if digits.len() == 0 {
        return None;
    }
    let mut value: u64 = 0;
    let mut i: usize = 0;
    while i < digits.len()
        invariant
            i <= digits@.len(),
            forall|j: int| 0 <= j < i ==> is_digit(#[trigger] digits@[j]),
            value == digits_value(digits@.take(i as int)),
            value <= u32::MAX,
        decreases digits@.len() - i,
    {
        let c: u32 = digits[i] as u32;
        if c < 48 || c > 57 {
            assert(!is_digit(digits@[i as int]));
            return None;
        }
        let next: u64 = value * 10 + (c - 48) as u64;
        assert(digits@.take(i + 1).drop_last() =~= digits@.take(i as int));
        if next > u32::MAX as u64 {
            proof {
                if forall|j: int| 0 <= j < digits@.len() ==> is_digit(#[trigger] digits@[j]) {
                    lemma_digits_grow(digits@, i + 1);
                }
            }
            return None;
        }
        value = next;
        i = i + 1;
    }
    assert(digits@.take(i as int) =~= digits@);
    Some(value as u32)
}

fn count_letters(s: &[char]) -> (count: usize)
    ensures
        count == word_len(s@),
        count <= s@.len(),
{
    let mut count: usize = 0;
    proof {
        assert(s@.skip(0) =~= s@);
    }
    loop
        invariant
            count <= s@.len(),
            word_len(s@) == count + word_len(s@.skip(count as int)),
        ensures
            count <= s@.len(),
            word_len(s@) == count,
        decreases s@.len() - count,
    {
        if count >= s.len() {
            break ;
        }
        let c: u32 = s[count] as u32;
        assert(s@.skip(count as int)[0] == s@[count as int]);
        if !((65 <= c && c <= 90) || (97 <= c && c <= 122)) {
            break ;
        }
        assert(s@.skip(count as int).skip(1) =~= s@.skip(count + 1));
        count = count + 1;
    }
    count
}

fn count_digits(s: &[char]) -> (count: usize)
    ensures
        count == digits_len(s@),
        count <= s@.len(),
{
    let mut count: usize = 0;
    proof {
        assert(s@.skip(0) =~= s@);
    }
    loop
        invariant
            count <= s@.len(),
            digits_len(s@) == count + digits_len(s@.skip(count as int)),
        ensures
            count <= s@.len(),
            digits_len(s@) == count,
        decreases s@.len() - count,
    {
        if count >= s.len() {
            break ;
        }
        let c: u32 = s[count] as u32;
        assert(s@.skip(count as int)[0] == s@[count as int]);
        if c < 48 || c > 57 {
            break ;
        }
        assert(s@.skip(count as int).skip(1) =~= s@.skip(count + 1));
        count = count + 1;
    }
    count
}

/// Reads the role at the front of `input`: the letters of a role's name
/// and the digits of its stage. Returns the role and the number of
/// characters read; what follows them is left to the caller.
pub fn parse_roleid(input: &[char]) -> (found: Option<(Role, usize)>)
    ensures
        match front_role(input@) {
            Some((role, taken)) => found == Some((role, taken as usize)) && taken <= input@.len(),
            None => found is None,
        },
{
    proof {
        reveal_strlit("proposer");
        reveal_strlit("acceptor");
        reveal_strlit("learner");
    }
    let letters: usize = count_letters(input);
    let word = slice_subrange(input, 0, letters);
    let behind = slice_subrange(input, letters, input.len());
    assert(behind@ =~= input@.skip(letters as int));
    let digits: usize = count_digits(behind);
    let Some(stage) = parse_stage(slice_subrange(behind, 0, digits)) else {
        return None;
    };
    let taken: usize = letters + digits;
    if letters == 8 && starts_with(word, "proposer") {
        assert(word@ =~= "proposer"@);
        Some((Role::Proposer(stage), taken))
    } else if letters == 8 && starts_with(word, "acceptor") {
        assert(word@ =~= "acceptor"@);
        Some((Role::Acceptor(stage), taken))
    } else if letters == 7 && starts_with(word, "learner") {
        assert(word@ =~= "learner"@);
        Some((Role::Learner(stage), taken))
    } else {
        proof {
            if word@ == "proposer"@ || word@ == "acceptor"@ || word@ == "learner"@ {
                assert(word@.subrange(0, word@.len() as int) =~= word@);
            }
        }
        None
    }
}

/// Reads a list of roles: role by role, each but the last with a comma
/// behind it. Anything else behind a role is refused.
pub fn parse_roles(list: &[char]) -> (roles: Option<VecDeque<Role>>)
    ensures
        match roles_of(list@) {
            Some(expected) => roles matches Some(r) && r@ == expected,
            None => roles is None,
        },
{
    let mut roles: VecDeque<Role> = VecDeque::new();
    let mut start: usize = 0;
    proof {
        assert(list@.skip(0) =~= list@);
        if let Some(rest) = roles_of(list@) {
            assert(roles@ + rest =~= rest);
        }
    }
    loop
        invariant
            start <= list@.len(),
            match roles_of(list@.skip(start as int)) {
                Some(rest) => roles_of(list@) == Some(roles@ + rest),
                None => roles_of(list@) is None,
            },
        decreases list@.len() - start,
    {
        let rest = slice_subrange(list, start, list.len());
        assert(rest@ =~= list@.skip(start as int));
        let Some((role, taken)) = parse_roleid(rest) else {
            return None;
        };
        let ghost before = roles@;
        roles.push_back(role);
        if taken >= rest.len() {
            assert(before + seq![role] =~= roles@);
            return Some(roles);
        }
        if rest[taken] != ',' {
            return None;
        }
        proof {
            assert(rest@.skip(taken + 1) =~= list@.skip(start + taken + 1));
            match roles_of(rest@.skip(taken + 1)) {
                Some(tail) => {
                    assert(before + (seq![role] + tail) =~= roles@ + tail);
                },
                None => {},
            }
        }
        start = start + taken + 1;
    }
}

/// Reads one line: the hostname before the first colon, the roles behind it.
pub fn parse_line(line: &[char]) -> (entry: Option<(Vec<char>, VecDeque<Role>)>)
    ensures
        match line_entry(line@) {
            Some((name, roles)) => entry matches Some(e) && e.0@ == name && e.1@ == roles,
            None => entry is None,
        },
{
    let colon: usize = find_char(line, ':');
    if colon >= line.len() {
        return None;
    }
    let rest = slice_subrange(line, colon + 1, line.len());
    assert(rest@ =~= line@.skip(colon + 1));
    match parse_roles(rest) {
        Some(roles) => {
            let name = vstd::slice::slice_to_vec(slice_subrange(line, 0, colon));
            Some((name, roles))
        },
        None => None,
    }
}

} // verus!
