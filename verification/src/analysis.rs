//! Reading the lines that an analysis engine prints about a position.
use vstd::prelude::*;
use crate::moves::{lan_move, Move};
use crate::text::push_text;

verus! {

/// What the `regex` crate finds for a pattern in a text: nothing where the
/// pattern does not compile; else, for the leftmost match, the text of the
/// first capture group, if there is a match and the group took part in it.
pub uninterp spec fn first_group(pattern: Seq<char>, text: Seq<char>) -> Option<Option<Seq<char>>>;

/// `regex::Regex::new` followed by `Regex::captures` and `Captures::get(1)`:
/// compiles `pattern`, searches `text` for its leftmost match and hands out
/// the text of the first capture group. The contract only gives the outcome
/// its name; it is the same for the same pattern and text.
#[verifier::external_body]
fn capture_first_group(pattern: &str, text: &str) -> (r: Option<Option<String>>)
    ensures
        match r {
            None => first_group(pattern@, text@) is None,
            Some(None) => first_group(pattern@, text@) == Some(None::<Seq<char>>),
            Some(Some(s)) => first_group(pattern@, text@) == Some(Some(s@)),
        },
{
    let re = match regex::Regex::new(pattern) {
        Ok(re) => re,
        Err(_) => return None,
    };
    match re.captures(text) {
        Some(found) => match found.get(1) {
            Some(group) => Some(Some(group.as_str().to_string())),
            None => Some(None),
        },
        None => Some(None),
    }
}

/// The pattern that finds the word after `key`: the key, a space, and a group
/// of one or more characters that are not white space.
pub open spec fn info_pattern(key: Seq<char>) -> Seq<char> {
    key + " (\\S+)"@
}

/// The word that follows `key` in `output`, as a search with the pattern of
/// `key` finds it; nothing where the search finds none or the key does not
/// make a pattern.
pub open spec fn info_found(output: Seq<char>, key: Seq<char>) -> Option<Seq<char>> {
    match first_group(info_pattern(key), output) {
        Some(Some(word)) => Some(word),
        _ => None,
    }
}

/// Looks up the word that follows `key` in a line of engine output.
pub fn get_info(output: &str, key: &str) -> (r: Option<String>)
    ensures
        match r {
            Some(word) => info_found(output@, key@) == Some(word@),
            None => info_found(output@, key@) is None,
        },
{
    let mut pattern = String::new();
    push_text(&mut pattern, key);
    push_text(&mut pattern, " (\\S+)");
    assert(pattern@ =~= info_pattern(key@));
    match capture_first_group(pattern.as_str(), output) {
        Some(Some(word)) => Some(word),
        _ => None,
    }
}

/// Whether `c` is a decimal digit.
pub open spec fn is_digit(c: char) -> bool {
    '0' <= c <= '9'
}

/// The number that a sequence of decimal digits writes.
pub open spec fn digits_value(s: Seq<char>) -> int
    decreases s.len(),
{
    if s.len() == 0 {
        0
    } else {
        digits_value(s.drop_last()) * 10 + (s.last() as u32 - '0' as u32)
    }
}

/// The index that `s` writes: `s` is one or more decimal digits and nothing
/// else, and the number fits the machine.
pub open spec fn index_written(s: Seq<char>) -> Option<usize> {
    if s.len() > 0 && (forall|i: int| 0 <= i < s.len() ==> is_digit(#[trigger] s[i]))
        && digits_value(s) <= usize::MAX {
        Some(digits_value(s) as usize)
    } else {
        None
    }
}

/// Digits written after a number never make it smaller.
proof fn lemma_digits_grow(s: Seq<char>, n: int)
    requires
        0 <= n <= s.len(),
        forall|i: int| 0 <= i < s.len() ==> is_digit(#[trigger] s[i]),
    ensures
        0 <= digits_value(s.subrange(0, n)) <= digits_value(s),
    decreases s.len() - n,
{
    if n == s.len() {
        assert(s.subrange(0, n) =~= s);
        lemma_digits_nonnegative(s);
    } else {
        lemma_digits_grow(s, n + 1);
        let longer = s.subrange(0, n + 1);
        assert(longer.drop_last() =~= s.subrange(0, n));
        assert(is_digit(s[n]));
        assert(longer.last() == s[n]);
        lemma_digits_nonnegative(s.subrange(0, n));
    }
}

/// A sequence of digits writes no negative number.
proof fn lemma_digits_nonnegative(s: Seq<char>)
    requires
        forall|i: int| 0 <= i < s.len() ==> is_digit(#[trigger] s[i]),
    ensures
        0 <= digits_value(s),
    decreases s.len(),
{
    if s.len() > 0 {
        lemma_digits_nonnegative(s.drop_last());
        assert(is_digit(s[s.len() - 1]));
    }
}

/// Reads a decimal index.
pub fn parse_index(text: &str) -> (r: Option<usize>)
    ensures
        r == index_written(text@),
{
    let n = text.unicode_len();
    if n == 0 {
        return None;
    }
    let mut value: usize = 0;
    let mut i: usize = 0;
    while i < n
        invariant
            i <= n,
            n == text@.len(),
            forall|j: int| 0 <= j < i ==> is_digit(#[trigger] text@[j]),
            value == digits_value(text@.subrange(0, i as int)),
        decreases n - i,
    {
        let c = text.get_char(i);
        if c < '0' || c > '9' {
            assert(!is_digit(text@[i as int]));
            return None;
        }
        let digit: usize = (c as u32 - '0' as u32) as usize;
        proof {
            let longer = text@.subrange(0, i + 1);
            assert(longer.drop_last() =~= text@.subrange(0, i as int));
            assert(longer.last() == c);
        }
        if value > (usize::MAX - digit) / 10 {
            proof {
                if forall|j: int| 0 <= j < text@.len() ==> is_digit(#[trigger] text@[j]) {
                    lemma_digits_grow(text@, i + 1);
                }
            }
            return None;
        }
        value = value * 10 + digit;
        i += 1;
    }
    assert(text@.subrange(0, n as int) =~= text@);
    Some(value)
}

/// What a line of analysis says, given the words found after `multipv` and
/// ` pv`: the rank of a variation, counted from zero, and its first move.
/// Both words must be there, the first a decimal index of at least one, the
/// second a move in coordinate text.
pub open spec fn analysis_of(multipv: Option<Seq<char>>, pv: Option<Seq<char>>) -> Option<(usize,
    Move)> {
    match (multipv, pv) {
        (Some(rank), Some(first)) => match (index_written(rank), lan_move(first)) {
            (Some(n), Some(mv)) => if n >= 1 {
                Some(((n - 1) as usize, mv))
            } else {
                None
            },
            _ => None,
        },
        _ => None,
    }
}

/// Interprets the words found after `multipv` and ` pv` in a line of analysis.
pub fn analysis_entry(multipv: Option<&str>, pv: Option<&str>) -> (r: Option<(usize, Move)>)
    ensures
        r == analysis_of(
            match multipv {
                Some(s) => Some(s@),
                None => None,
            },
            match pv {
                Some(s) => Some(s@),
                None => None,
            },
        ),
{
    match (multipv, pv) {
        (Some(rank), Some(first)) => match (parse_index(rank), Move::from_lan(first)) {
            (Some(n), Some(mv)) => if n >= 1 {
                Some((n - 1, mv))
            } else {
                None
            },
            _ => None,
        },
        _ => None,
    }
}

/// Reads a line of analysis: the rank of the variation it reports, counted
/// from zero, and the first move of that variation.
pub fn analysis_line(output: &str) -> (r: Option<(usize, Move)>)
    ensures
        r == analysis_of(info_found(output@, "multipv"@), info_found(output@, " pv"@)),
{
    let multipv = get_info(output, "multipv");
    let pv = get_info(output, " pv");
    let rank: Option<&str> = match &multipv {
        Some(s) => Some(s.as_str()),
        None => None,
    };
    let first: Option<&str> = match &pv {
        Some(s) => Some(s.as_str()),
        None => None,
    };
    analysis_entry(rank, first)
}

} // verus!
