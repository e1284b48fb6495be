//! Searching and rewriting text.

use vstd::prelude::*;
use vstd::string::*;

verus! {

/// Whether `pattern` occurs in `text`.
pub open spec fn has_substring(text: Seq<char>, pattern: Seq<char>) -> bool {
    exists|i: int|
        0 <= i && i + pattern.len() <= text.len() && #[trigger] text.subrange(
            i,
            i + pattern.len(),
        ) == pattern
}

/// `with`, then each character of `text` followed by `with`.
pub open spec fn interleaved(text: Seq<char>, with: Seq<char>) -> Seq<char>
    decreases text.len(),
{
    if text.len() == 0 {
        with
    } else {
        with + seq![text[0]] + interleaved(text.subrange(1, text.len() as int), with)
    }
}

/// `text` with every occurrence of `pattern` replaced by `with`, the
/// occurrences taken from the left and not overlapping. The empty pattern
/// occurs before every character and at the end.
pub open spec fn replaced(text: Seq<char>, pattern: Seq<char>, with: Seq<char>) -> Seq<char>
    decreases text.len(),
{
    if pattern.len() == 0 {
        interleaved(text, with)
    } else if text.len() < pattern.len() {
        text
    } else if text.subrange(0, pattern.len() as int) == pattern {
        with + replaced(text.subrange(pattern.len() as int, text.len() as int), pattern, with)
    } else {
        seq![text[0]] + replaced(text.subrange(1, text.len() as int), pattern, with)
    }
}

/// Whether two string slices hold the same characters.
pub fn same_text(a: &str, b: &str) -> (r: bool)
    ensures
        r == (a@ == b@),
{
    let x = String::from_str(a);
    let y = String::from_str(b);
    x == y
}

/// Whether `pattern` occurs in `text`.
pub fn text_contains(text: &str, pattern: &str) -> (r: bool)
    ensures
        r == has_substring(text@, pattern@),
{
    let n = text.unicode_len();
    let m = pattern.unicode_len();
    if m > n {
        return false;
    }
    let last = n - m;
    let mut i: usize = 0;
    loop
        invariant
            m <= n,
            last == n - m,
            n == text@.len(),
            m == pattern@.len(),
            i <= last,
            forall|j: int| 0 <= j < i ==> #[trigger] text@.subrange(j, j + m) != pattern@,
        decreases last - i,
    {
        if same_text(text.substring_char(i, i + m), pattern) {
            return true;
        }
        if i == last {
            return false;
        }
        i += 1;
    }
}

/// Unfolds `interleaved` at the front of a part of a text.
proof fn lemma_interleaved_step(text: Seq<char>, i: int, with: Seq<char>)
    requires
        0 <= i < text.len(),
    ensures
        interleaved(text.subrange(i, text.len() as int), with) == with + seq![text[i]]
            + interleaved(text.subrange(i + 1, text.len() as int), with),
{
    let rest = text.subrange(i, text.len() as int);
    assert(rest.subrange(1, rest.len() as int) =~= text.subrange(i + 1, text.len() as int));
}

/// Unfolds `replaced` at the front of a part of a text, for a pattern that is not empty.
proof fn lemma_replaced_step(text: Seq<char>, i: int, pattern: Seq<char>, with: Seq<char>)
    requires
        0 <= i <= text.len(),
        pattern.len() > 0,
    ensures
        replaced(text.subrange(i, text.len() as int), pattern, with) == if text.len() - i
            < pattern.len() {
            text.subrange(i, text.len() as int)
        } else if text.subrange(i, i + pattern.len()) == pattern {
            with + replaced(text.subrange(i + pattern.len(), text.len() as int), pattern, with)
        } else {
            seq![text[i]] + replaced(text.subrange(i + 1, text.len() as int), pattern, with)
        },
{
    let rest = text.subrange(i, text.len() as int);
    if rest.len() >= pattern.len() {
        assert(rest.subrange(0, pattern.len() as int) =~= text.subrange(i, i + pattern.len()));
        assert(rest.subrange(pattern.len() as int, rest.len() as int) =~= text.subrange(
            i + pattern.len(),
            text.len() as int,
        ));
        assert(rest.subrange(1, rest.len() as int) =~= text.subrange(i + 1, text.len() as int));
    }
}

/// A new string in which every occurrence of `pattern` in `text`, found from
/// the left, is replaced by `with`.
pub fn text_replace(text: &str, pattern: &str, with: &str) -> (r: String)
    ensures
        r@ == replaced(text@, pattern@, with@),
{
    let n = text.unicode_len();
    let m = pattern.unicode_len();
    let ghost whole = replaced(text@, pattern@, with@);
    let mut out = String::new();
    let mut i: usize = 0;
    assert(text@.subrange(0, n as int) =~= text@);
    if m == 0 {
        while i < n
            invariant
                i <= n,
                n == text@.len(),
                pattern@.len() == 0,
                whole == replaced(text@, pattern@, with@),
                out@ + interleaved(text@.subrange(i as int, n as int), with@) == whole,
            decreases n - i,
        {
            proof {
                lemma_interleaved_step(text@, i as int, with@);
            }
            let ghost before = out@;
            out.append(with);
            out.append(text.substring_char(i, i + 1));
            assert(text@.subrange(i as int, i + 1) =~= seq![text@[i as int]]);
            assert(out@ + interleaved(text@.subrange(i + 1, n as int), with@) =~= before
                + interleaved(text@.subrange(i as int, n as int), with@));
            i += 1;
        }
        let ghost before = out@;
        out.append(with);
        assert(out@ =~= before + interleaved(text@.subrange(n as int, n as int), with@));
        return out;
    }
    while i < n
        invariant
            i <= n,
            n == text@.len(),
            m == pattern@.len(),
            m > 0,
            whole == replaced(text@, pattern@, with@),
            out@ + replaced(text@.subrange(i as int, n as int), pattern@, with@) == whole,
        decreases n - i,
    {
        proof {
            lemma_replaced_step(text@, i as int, pattern@, with@);
        }
        let ghost before = out@;
        let ghost rest = replaced(text@.subrange(i as int, n as int), pattern@, with@);
        if n - i < m {
            out.append(text.substring_char(i, n));
            assert(out@ =~= before + rest);
            return out;
        }
        if same_text(text.substring_char(i, i + m), pattern) {
            out.append(with);
            assert(out@ + replaced(text@.subrange(i + m, n as int), pattern@, with@) =~= before
                + rest);
            i += m;
        } else {
            out.append(text.substring_char(i, i + 1));
            assert(text@.subrange(i as int, i + 1) =~= seq![text@[i as int]]);
            assert(out@ + replaced(text@.subrange(i + 1, n as int), pattern@, with@) =~= before
                + rest);
            i += 1;
        }
    }
    proof {
        lemma_replaced_step(text@, n as int, pattern@, with@);
        assert(text@.subrange(n as int, n as int) =~= Seq::<char>::empty());
        assert(out@ =~= out@ + Seq::<char>::empty());
    }
    out
}

/// The text without one leading and without one trailing double quote.
pub open spec fn unquoted(text: Seq<char>) -> Seq<char> {
    let tail = if text.len() > 0 && text[0] == '"' {
        text.subrange(1, text.len() as int)
    } else {
        text
    };
    if tail.len() > 0 && tail[tail.len() - 1] == '"' {
        tail.subrange(0, tail.len() - 1)
    } else {
        tail
    }
}

/// Strips one leading and one trailing double quote.
pub fn strip_quotes(text: &str) -> (r: String)
    ensures
        r@ == unquoted(text@),
{
    let n = text.unicode_len();
    let start: usize = if n > 0 && text.get_char(0) == '"' {
        1
    } else {
        0
    };
    let tail = text.substring_char(start, n);
    let m = n - start;
    let end: usize = if m > 0 && tail.get_char(m - 1) == '"' {
        m - 1
    } else {
        m
    };
    String::from_str(tail.substring_char(0, end))
}

/// Whether the character is a decimal digit.
pub open spec fn is_digit(c: char) -> bool {
    '0' <= c && c <= '9'
}

/// The number that the first `n` characters spell in decimal digits, where
/// all of them are digits.
pub open spec fn digits_value(text: Seq<char>, n: nat) -> Option<int>
    decreases n,
{
    if n == 0 || n > text.len() {
        Some(0)
    } else {
        match digits_value(text, (n - 1) as nat) {
            Some(v) => if is_digit(text[n - 1]) {
                Some(v * 10 + (text[n - 1] as int - '0' as int))
            } else {
                None
            },
            None => None,
        }
    }
}

/// The number that a text spells: decimal digits, at least one, behind an
/// optional plus sign, with a value that a `usize` can hold.
pub open spec fn parsed_usize(text: Seq<char>) -> Option<usize> {
    let digits = if text.len() > 0 && text[0] == '+' {
        text.subrange(1, text.len() as int)
    } else {
        text
    };
    if digits.len() == 0 {
        None
    } else {
        match digits_value(digits, digits.len()) {
            Some(v) => if v <= usize::MAX {
                Some(v as usize)
            } else {
                None
            },
            None => None,
        }
    }
}

/// The value of digits never shrinks when more digits follow.
pub proof fn lemma_digits_value_grows(text: Seq<char>, n: nat, m: nat)
    requires
        n <= m <= text.len(),
    ensures
        digits_value(text, n) is None ==> digits_value(text, m) is None,
        digits_value(text, m) matches Some(big) ==> digits_value(text, n) matches Some(small)
            && 0 <= small <= big,
    decreases m,
{
    lemma_digits_value_positive(text, n);
    lemma_digits_value_positive(text, m);
    if n < m {
        lemma_digits_value_grows(text, n, (m - 1) as nat);
        lemma_digits_value_positive(text, (m - 1) as nat);
    }
}

/// The value of digits is not negative.
pub proof fn lemma_digits_value_positive(text: Seq<char>, n: nat)
    ensures
        digits_value(text, n) matches Some(v) ==> v >= 0,
    decreases n,
{
    if n > 0 {
        lemma_digits_value_positive(text, (n - 1) as nat);
    }
}

/// Reads a number as `usize::from_str` does.
#[verifier::loop_isolation(false)]
pub fn parse_usize(text: &str) -> (r: Option<usize>)
    ensures
        r == parsed_usize(text@),
{
    let n = text.unicode_len();
    let start: usize = if n > 0 && text.get_char(0) == '+' {
        1
    } else {
        0
    };
    let digits = text.substring_char(start, n);
    let m = n - start;
    assert(digits@ =~= if text@.len() > 0 && text@[0] == '+' {
        text@.subrange(1, text@.len() as int)
    } else {
        text@
    });
    if m == 0 {
        return None;
    }
    let mut value: usize = 0;
    let mut i: usize = 0;
    while i < m
        invariant
            i <= m,
            m == digits@.len(),
            digits_value(digits@, i as nat) == Some(value as int),
        decreases m - i,
    {
        let c = digits.get_char(i);
        if !('0' <= c && c <= '9') {
            proof {
                assert(!is_digit(digits@[i as int]));
                assert(digits_value(digits@, (i + 1) as nat) is None);
                lemma_digits_value_grows(digits@, (i + 1) as nat, m as nat);
            }
            return None;
        }
        let d: usize = (c as u32 - '0' as u32) as usize;
        if value > (usize::MAX - d) / 10 {
            proof {
                assert(value * 10 + d > usize::MAX) by (nonlinear_arith)
                    requires
                        value > (usize::MAX - d) / 10,
                        d <= usize::MAX,
                ;
                lemma_digits_value_grows(digits@, (i + 1) as nat, m as nat);
            }
            return None;
        }
        assert(value * 10 + d <= usize::MAX) by (nonlinear_arith)
            requires
                value <= (usize::MAX - d) / 10,
                d <= usize::MAX,
        ;
        value = value * 10 + d;
        i += 1;
    }
    Some(value)
}

} // verus!
