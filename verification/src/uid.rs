//! Reading a package's numeric id out of the device's package listing.
//!
//! The device lists one package per line: `package:<name>`, then a space or
//! a tab, then `uid:<number>`. It lists every package whose name contains
//! the name that was asked for, so the line of the package itself has to be
//! told apart from the lines of packages that only share a part of its name.

use crate::error::{result_view, NdkError, NdkErrorView};
use crate::text::{begins_with, chain, starts_with, text_of, to_chars};
use vstd::prelude::*;

verus! {

/// The index of the first `a` or `b` in `s` at or behind `from`, or the
/// length of `s` if there is none.
pub open spec fn first_of(s: Seq<char>, from: int, a: char, b: char) -> int
    decreases s.len() - from,
{
    if from < 0 || from >= s.len() {
        s.len() as int
    } else if s[from] == a || s[from] == b {
        from
    } else {
        first_of(s, from + 1, a, b)
    }
}

/// Where the line that begins at `from` ends: at the next line feed, or at
/// the end of the text.
pub open spec fn line_end(s: Seq<char>, from: int) -> int {
    first_of(s, from, '\n', '\n')
}

/// The line of `s` that begins at `from`, without its line ending. A line
/// ends with a line feed, or with a carriage return and a line feed; the
/// last line may go without either.
pub open spec fn line_at(s: Seq<char>, from: int) -> Seq<char> {
    let end = line_end(s, from);
    if from < end < s.len() && s[end - 1] == '\r' {
        s.subrange(from, end - 1)
    } else {
        s.subrange(from, end)
    }
}

/// Where the first field of a line ends: at its first space or tab.
pub open spec fn field_end(line: Seq<char>) -> int {
    first_of(line, 0, ' ', '\t')
}

/// Whether the line lists the package called `package`: whether its first
/// field is `package:` and then exactly that name.
pub open spec fn names_package(line: Seq<char>, package: Seq<char>) -> bool {
    line.take(field_end(line)) == "package:"@ + package
}

/// What follows the first field of a line and the space or tab behind it.
/// Nothing, where the line has one field only.
pub open spec fn after_first_field(line: Seq<char>) -> Seq<char> {
    if field_end(line) < line.len() {
        line.skip(field_end(line) + 1)
    } else {
        Seq::empty()
    }
}

/// The first line of `listing`, among those that begin at or behind `from`,
/// that lists the package called `package`. `from` is the beginning of a
/// line.
pub open spec fn package_line(listing: Seq<char>, package: Seq<char>, from: int) -> Option<
    Seq<char>,
>
    decreases listing.len() - from,
{
    if from < 0 || from >= listing.len() {
        None
    } else if names_package(line_at(listing, from), package) {
        Some(line_at(listing, from))
    } else if line_end(listing, from) >= listing.len() {
        None
    } else {
        proof {
            lemma_first_of_bounds(listing, from, '\n', '\n');
        }
        package_line(listing, package, line_end(listing, from) + 1)
    }
}

/// Whether `c` is one of the digits `0` to `9`.
pub open spec fn is_digit(c: char) -> bool {
    '0' as u32 <= c as u32 <= '9' as u32
}

/// The number that a sequence of digits stands for in base ten.
pub open spec fn decimal(digits: Seq<char>) -> nat
    decreases digits.len(),
{
    if digits.len() == 0 {
        0
    } else {
        (decimal(digits.drop_last()) * 10 + (digits.last() as u32 - '0' as u32)) as nat
    }
}

/// Whether every character of `s` is a digit.
pub open spec fn all_digits(s: Seq<char>) -> bool {
    forall|i: int| 0 <= i < s.len() ==> is_digit(#[trigger] s[i])
}

/// The unsigned number that `text` stands for: one or more digits, with
/// nothing before them but at most one `+` and nothing behind them, whose
/// value fits in 32 bits.
pub open spec fn parse_u32(text: Seq<char>) -> Option<u32> {
    let digits = if text.len() > 0 && text[0] == '+' {
        text.skip(1)
    } else {
        text
    };
    if digits.len() > 0 && all_digits(digits) && decimal(digits) <= u32::MAX {
        Some(decimal(digits) as u32)
    } else {
        None
    }
}

/// The numeric id of the package called `package` according to `listing`.
///
/// The line that counts is the first one that lists exactly this package.
/// Without such a line the package is not in the output. What follows the
/// name on that line must begin with `uid:`, or the id is not in the
/// output. What follows `uid:`, up to the end of the line, must be an
/// unsigned number, or it is no id.
pub open spec fn uid_in_listing(package: Seq<char>, listing: Seq<char>) -> Result<
    u32,
    NdkErrorView,
> {
    match package_line(listing, package, 0) {
        None => Err(NdkErrorView::PackageNotInOutput { package, output: listing }),
        Some(line) => {
            let rest = after_first_field(line);
            if !starts_with(rest, "uid:"@) {
                Err(NdkErrorView::UidNotInOutput(listing))
            } else {
                let text = rest.skip("uid:"@.len() as int);
                match parse_u32(text) {
                    Some(uid) => Ok(uid),
                    None => Err(NdkErrorView::NotAUid(text)),
                }
            }
        },
    }
}

pub proof fn lemma_first_of_bounds(s: Seq<char>, from: int, a: char, b: char)
    requires
        0 <= from,
    ensures
        from <= first_of(s, from, a, b) || first_of(s, from, a, b) == s.len(),
        first_of(s, from, a, b) <= s.len(),
        first_of(s, from, a, b) < s.len() ==> s[first_of(s, from, a, b)] == a || s[first_of(
            s,
            from,
            a,
            b,
        )] == b,
    decreases s.len() - from,
{
    if from < s.len() && !(s[from] == a || s[from] == b) {
        lemma_first_of_bounds(s, from + 1, a, b);
    }
}

/// The value of a sequence of digits is at least the value of each of its
/// beginnings.
proof fn lemma_decimal_grows(digits: Seq<char>, k: int)
    requires
        0 <= k <= digits.len(),
        all_digits(digits),
    ensures
        decimal(digits.take(k)) <= decimal(digits),
    decreases digits.len() - k,
{
    if k == digits.len() {
        assert(digits.take(k) =~= digits);
    } else {
        let front = digits.drop_last();
        assert(is_digit(digits[digits.len() - 1]));
        assert forall|i: int| 0 <= i < front.len() implies is_digit(#[trigger] front[i]) by {
            assert(front[i] == digits[i]);
        }
        lemma_decimal_grows(front, k);
        assert(front.take(k) =~= digits.take(k));
    }
}

/// The index of the first `a` or `b` in `chars` at or behind `from`, or the
/// length of `chars` if there is none.
fn find_either(chars: &Vec<char>, from: usize, a: char, b: char) -> (at: usize)
    requires
        from <= chars.len(),
    ensures
        at == first_of(chars@, from as int, a, b),
        from <= at <= chars.len(),
{
    let mut at: usize = from;
    while at < chars.len() && !(chars[at] == a || chars[at] == b)
        invariant
            from <= at <= chars.len(),
            first_of(chars@, from as int, a, b) == first_of(chars@, at as int, a, b),
        decreases chars.len() - at,
    {
        at = at + 1;
    }
    at
}

/// A copy of `chars[from..to]`.
fn copy_of(chars: &Vec<char>, from: usize, to: usize) -> (copy: Vec<char>)
    requires
        from <= to <= chars.len(),
    ensures
        copy@ == chars@.subrange(from as int, to as int),
{
    let mut copy: Vec<char> = Vec::new();
    let mut i: usize = from;
    while i < to
        invariant
            from <= i <= to <= chars.len(),
            copy@ == chars@.subrange(from as int, i as int),
        decreases to - i,
    {
        copy.push(chars[i]);
        i = i + 1;
        assert(copy@ =~= chars@.subrange(from as int, i as int));
    }
    copy
}

/// The unsigned number that `chars[from..]` stands for.
fn parse_number(chars: &Vec<char>, from: usize) -> (number: Option<u32>)
    requires
        from <= chars.len(),
    ensures
        number == parse_u32(chars@.skip(from as int)),
{
    let ghost text = chars@.skip(from as int);
    let start: usize = if from < chars.len() && chars[from] == '+' {
        from + 1
    } else {
        from
    };
    let ghost digits = chars@.skip(start as int);
    assert(digits =~= if text.len() > 0 && text[0] == '+' {
        text.skip(1)
    } else {
        text
    });
    if start == chars.len() {
        return None;
    }
    let mut value: u64 = 0;
    let mut i: usize = start;
    while i < chars.len()
        invariant
            start <= i <= chars.len(),
            text == chars@.skip(from as int),
            digits == chars@.skip(start as int),
            digits == if text.len() > 0 && text[0] == '+' {
                text.skip(1)
            } else {
                text
            },
            all_digits(digits.take(i - start)),
            value == decimal(digits.take(i - start)),
            value <= u32::MAX,
        decreases chars.len() - i,
    {
        let c = chars[i];
        let code = c as u32;
        if code < 48 || code > 57 {
            assert(!is_digit(digits[i - start]));
            return None;
        }
        let ghost seen = digits.take(i - start + 1);
        assert(seen.drop_last() =~= digits.take(i - start));
        assert(seen.last() == c);
        assert forall|j: int| 0 <= j < seen.len() implies is_digit(#[trigger] seen[j]) by {
            if j < seen.len() - 1 {
                assert(seen[j] == digits.take(i - start)[j]);
            }
        }
        value = value * 10 + (code - 48) as u64;
        assert(value == decimal(seen));
        if value > 0xffff_ffff {
            proof {
                if all_digits(digits) {
                    lemma_decimal_grows(digits, i - start + 1);
                }
            }
            return None;
        }
        i = i + 1;
    }
    assert(digits.take(i - start) =~= digits);
    Some(value as u32)
}

/// The numeric id of the package called `package` according to `listing`,
/// the output of the device's package listing.
pub fn uid_of_package(package: &str, listing: &str) -> (uid: Result<u32, NdkError>)
    ensures
        result_view(uid) == uid_in_listing(package@, listing@),
{
    let chars = to_chars(listing);
    let wanted = to_chars(chain("package:", package).as_str());
    let uid_prefix = to_chars("uid:");
    let mut from: usize = 0;
    while from < chars.len()
        invariant
            chars@ == listing@,
            wanted@ == "package:"@ + package@,
            uid_prefix@ == "uid:"@,
            package_line(listing@, package@, 0) == package_line(listing@, package@, from as int),
        decreases chars.len() - from,
    {
        let end = find_either(&chars, from, '\n', '\n');
        let stop = if from < end && end < chars.len() && chars[end - 1] == '\r' {
            end - 1
        } else {
            end
        };
        let line = copy_of(&chars, from, stop);
        assert(line@ == line_at(listing@, from as int));
        let sep = find_either(&line, 0, ' ', '\t');
        if sep == wanted.len() && begins_with(&line, 0, &wanted) {
            assert(line@.skip(0) =~= line@);
            assert(names_package(line@, package@));
            let rest = if sep < line.len() {
                sep + 1
            } else {
                sep
            };
            assert(line@.skip(rest as int) =~= after_first_field(line@));
            if !begins_with(&line, rest, &uid_prefix) {
                return Err(NdkError::UidNotInOutput(String::from_str(listing)));
            }
            let digits = rest + uid_prefix.len();
            assert(line@.skip(digits as int) =~= after_first_field(line@).skip(
                "uid:"@.len() as int,
            ));
            return match parse_number(&line, digits) {
                Some(id) => Ok(id),
                None => Err(NdkError::NotAUid(text_of(&line, digits, line.len()))),
            };
        }
        proof {
            assert(line@.skip(0) =~= line@);
            assert(!names_package(line@, package@));
        }
        if end == chars.len() {
            return Err(
                NdkError::PackageNotInOutput {
                    package: String::from_str(package),
                    output: String::from_str(listing),
                },
            );
        }
        from = end + 1;
    }
    Err(
        NdkError::PackageNotInOutput {
            package: String::from_str(package),
            output: String::from_str(listing),
        },
    )
}

} // verus!
