//! The clean-up of the text typed into one editable cell.
//!
//! The whole current text of the cell is cleaned on every keystroke, then read
//! as a number. Of the two possible policies this library takes the one that
//! lets the user type the sign after the digits: a trailing `-` flips the sign
//! of what stands before it, a trailing `+` is dropped. Text that still is no
//! number afterwards counts as zero.

use vstd::prelude::*;

verus! {

/// What `raw` is read as once a sign typed at its end has been applied.
///
/// A trailing `-` is removed, and a leading `-` is removed where there is one
/// and put in front where there is none. A trailing `+` is removed. Any other
/// text stays as it is.
pub open spec fn sanitized(raw: Seq<char>) -> Seq<char> {
    if raw.len() > 0 && raw.last() == '-' {
        if raw[0] == '-' {
            let rest = raw.drop_first();
            if rest.len() > 0 {
                rest.drop_last()
            } else {
                rest
            }
        } else {
            seq!['-'] + raw.drop_last()
        }
    } else if raw.len() > 0 && raw.last() == '+' {
        raw.drop_last()
    } else {
        raw
    }
}

/// Applies a sign typed at the end of `raw` and returns the text to read as a
/// number.
pub fn sanitize_text(raw: &str) -> (text: String)
    ensures
        text@ == sanitized(raw@),
{
    let len: usize = raw.unicode_len();
    if len == 0 {
        return String::from_str(raw);
    }
    let last: char = raw.get_char(len - 1);
    if last == '-' {
        if raw.get_char(0) == '-' {
            let text = if len >= 2 {
                String::from_str(raw.substring_char(1, len - 1))
            } else {
                String::new()
            };
            assert(text@ =~= sanitized(raw@));
            text
        } else {
            proof {
                reveal_strlit("-");
            }
            let text = String::from_str("-").concat(raw.substring_char(0, len - 1));
            assert(text@ =~= sanitized(raw@));
            text
        }
    } else if last == '+' {
        let text = String::from_str(raw.substring_char(0, len - 1));
        assert(text@ =~= sanitized(raw@));
        text
    } else {
        String::from_str(raw)
    }
}

/// The value that a cell receives from its cleaned text: the number that the
/// text was read as, or `zero` where it could not be read as one.
pub fn cell_value<T>(parsed: Option<T>, zero: T) -> (value: T)
    ensures
        value == match parsed {
            Some(number) => number,
            None => zero,
        },
{
    match parsed {
        Some(number) => number,
        None => zero,
    }
}

/// A sign typed twice after text without a leading minus gives that text
/// back: the first `-` puts a minus in front, the second removes it.
pub proof fn lemma_minus_twice_restores(digits: Seq<char>)
    requires
        digits.len() == 0 || digits[0] != '-',
    ensures
        sanitized(sanitized(digits.push('-')).push('-')) == digits,
{
    let once = sanitized(digits.push('-'));
    assert(digits.push('-').drop_last() =~= digits);
    if digits.len() == 0 {
        assert(digits.push('-').drop_first() =~= Seq::<char>::empty());
        assert(once =~= Seq::<char>::empty());
        assert(once.push('-').drop_first() =~= Seq::<char>::empty());
        assert(sanitized(once.push('-')) =~= digits);
    } else {
        assert(once =~= seq!['-'] + digits);
        let twice = once.push('-');
        assert(twice.drop_first() =~= digits.push('-'));
        assert(sanitized(twice) =~= digits);
    }
}

} // verus!
