//! Text: searching, trimming, ordering and numbers.

use vstd::prelude::*;

verus! {

/// `String::push` appends the given character to the end of the string.
pub assume_specification[ String::push ](s: &mut String, c: char)
    ensures
        final(s)@ == old(s)@.push(c),
;

/// Returns the characters of `text`.
pub fn chars_of(text: &str) -> (chars: Vec<char>)
    ensures
        chars@ == text@,
{
    let mut chars: Vec<char> = Vec::new();
    for c in it: text.chars()
        invariant
            it.seq() == text@,
            chars@ == it.seq().take(it.index()),
    {
        chars.push(c);
    }
    assert(text@.take(text@.len() as int) =~= text@);
    chars
}

/// Whether `pattern` stands in `text` at position `at`.
pub open spec fn occurs_at(text: Seq<char>, pattern: Seq<char>, at: int) -> bool {
    &&& 0 <= at
    &&& at + pattern.len() <= text.len()
    &&& text.subrange(at, at + pattern.len()) == pattern
}

/// Whether `pattern` stands anywhere in `text`.
pub open spec fn occurs_in(text: Seq<char>, pattern: Seq<char>) -> bool {
    exists|at: int| occurs_at(text, pattern, at)
}

/// Returns whether `pattern` stands in `text` at position `at`.
fn matches_at(text: &Vec<char>, pattern: &Vec<char>, at: usize) -> (found: bool)
    requires
        at + pattern@.len() <= text@.len(),
    ensures
        found == occurs_at(text@, pattern@, at as int),
{
    let mut i: usize = 0;
    while i < pattern.len()
        invariant
            i <= pattern@.len(),
            at + pattern@.len() <= text@.len(),
            forall|k: int| 0 <= k < i ==> text@[at + k] == #[trigger] pattern@[k],
        decreases pattern@.len() - i,
    {
        assert(at + i < text.len());
        if text[at + i] != pattern[i] {
            assert(text@.subrange(at as int, at + pattern@.len())[i as int] != pattern@[i as int]);
            return false;
        }
        i += 1;
    }
    assert(text@.subrange(at as int, at + pattern@.len()) =~= pattern@);
    true
}

/// Returns whether `pattern` stands anywhere in `text`.
pub fn contains(text: &str, pattern: &str) -> (found: bool)
    ensures
        found == occurs_in(text@, pattern@),
{
    let text_chars: Vec<char> = chars_of(text);
    let pattern_chars: Vec<char> = chars_of(pattern);
    if pattern_chars.len() > text_chars.len() {
        return false;
    }
    let last: usize = text_chars.len() - pattern_chars.len();
    let mut at: usize = 0;
    loop
        invariant
            text_chars@ == text@,
            pattern_chars@ == pattern@,
            at <= last,
            last == text@.len() - pattern@.len(),
            forall|k: int| k < at ==> !occurs_at(text@, pattern@, k),
        decreases last - at,
    {
        if matches_at(&text_chars, &pattern_chars, at) {
            return true;
        }
        if at == last {
            return false;
        }
        at += 1;
    }
}

/// Returns whether `text` begins with `prefix`.
pub fn starts_with(text: &str, prefix: &str) -> (found: bool)
    ensures
        found == occurs_at(text@, prefix@, 0),
{
    let text_chars: Vec<char> = chars_of(text);
    let prefix_chars: Vec<char> = chars_of(prefix);
    prefix_chars.len() <= text_chars.len() && matches_at(&text_chars, &prefix_chars, 0)
}

/// `text` without the slashes at its beginning.
pub open spec fn without_leading_slashes(text: Seq<char>) -> Seq<char>
    decreases text.len(),
{
    if text.len() > 0 && text[0] == '/' {
        without_leading_slashes(text.drop_first())
    } else {
        text
    }
}

/// Returns `text` without the slashes at its beginning.
pub fn trim_leading_slashes(text: &str) -> (trimmed: String)
    ensures
        trimmed@ == without_leading_slashes(text@),
{
    let chars: Vec<char> = chars_of(text);
    let mut start: usize = 0;
    assert(text@.skip(0) =~= text@);
    while start < chars.len() && chars[start] == '/'
        invariant
            chars@ == text@,
            start <= text@.len(),
            without_leading_slashes(text@.skip(start as int)) == without_leading_slashes(text@),
        decreases text@.len() - start,
    {
        assert(text@.skip(start as int).drop_first() =~= text@.skip(start + 1));
        start += 1;
    }
    let mut trimmed: String = String::new();
    let mut i: usize = start;
    while i < chars.len()
        invariant
            chars@ == text@,
            start <= i <= text@.len(),
            trimmed@ == text@.subrange(start as int, i as int),
        decreases text@.len() - i,
    {
        trimmed.push(chars[i]);
        assert(text@.subrange(start as int, i + 1) =~= text@.subrange(start as int, i as int).push(
            text@[i as int],
        ));
        i += 1;
    }
    assert(text@.subrange(start as int, i as int) =~= text@.skip(start as int));
    trimmed
}

/// Whether `a` comes before `b` in lexicographic order: the texts agree up to some position, at
/// which `a` ends or has the smaller character.
pub open spec fn precedes(a: Seq<char>, b: Seq<char>) -> bool
    decreases a.len(),
{
    if b.len() == 0 {
        false
    } else if a.len() == 0 {
        true
    } else if a[0] == b[0] {
        precedes(a.drop_first(), b.drop_first())
    } else {
        (a[0] as int) < (b[0] as int)
    }
}

/// No text comes before itself.
pub proof fn lemma_precedes_irreflexive(a: Seq<char>)
    ensures
        !precedes(a, a),
    decreases a.len(),
{
    if a.len() > 0 {
        lemma_precedes_irreflexive(a.drop_first());
    }
}

/// The order is transitive.
pub proof fn lemma_precedes_transitive(a: Seq<char>, b: Seq<char>, c: Seq<char>)
    requires
        precedes(a, b),
        precedes(b, c),
    ensures
        precedes(a, c),
    decreases a.len(),
{
    if a.len() > 0 && a[0] == b[0] && b[0] == c[0] {
        lemma_precedes_transitive(a.drop_first(), b.drop_first(), c.drop_first());
    }
}

/// Of two different texts one comes before the other.
pub proof fn lemma_precedes_total(a: Seq<char>, b: Seq<char>)
    ensures
        a == b || precedes(a, b) || precedes(b, a),
    decreases a.len(),
{
    if a.len() == 0 || b.len() == 0 {
        if a.len() == b.len() {
            assert(a =~= b);
        }
    } else if a[0] == b[0] {
        lemma_precedes_total(a.drop_first(), b.drop_first());
        if a.drop_first() == b.drop_first() {
            assert(a =~= seq![a[0]] + a.drop_first());
            assert(b =~= seq![b[0]] + b.drop_first());
        }
    }
}

/// Returns whether `a` comes before `b` in lexicographic order.
pub fn comes_before(a: &str, b: &str) -> (before: bool)
    ensures
        before == precedes(a@, b@),
{
    let a_chars: Vec<char> = chars_of(a);
    let b_chars: Vec<char> = chars_of(b);
    let mut i: usize = 0;
    assert(a@.skip(0) =~= a@ && b@.skip(0) =~= b@);
    while i < a_chars.len() && i < b_chars.len()
        invariant
            a_chars@ == a@,
            b_chars@ == b@,
            i <= a@.len(),
            i <= b@.len(),
            precedes(a@.skip(i as int), b@.skip(i as int)) == precedes(a@, b@),
        decreases a@.len() - i,
    {
        assert(a@.skip(i as int).drop_first() =~= a@.skip(i + 1));
        assert(b@.skip(i as int).drop_first() =~= b@.skip(i + 1));
        if a_chars[i] != b_chars[i] {
            return a_chars[i] < b_chars[i];
        }
        i += 1;
    }
    i < b_chars.len()
}

/// Whether `c` is a decimal digit.
pub open spec fn is_digit(c: char) -> bool {
    '0' <= c <= '9'
}

/// Whether `text` is one decimal digit or more, and nothing else.
pub open spec fn is_decimal(text: Seq<char>) -> bool {
    text.len() > 0 && forall|i: int| 0 <= i < text.len() ==> is_digit(#[trigger] text[i])
}

/// The number that a row of decimal digits stands for.
pub open spec fn decimal_value(digits: Seq<char>) -> nat
    decreases digits.len(),
{
    if digits.len() == 0 {
        0
    } else {
        10 * decimal_value(digits.drop_last()) + (digits.last() as nat - '0' as nat) as nat
    }
}

/// `text` without the plus sign that it may begin with.
pub open spec fn without_plus(text: Seq<char>) -> Seq<char> {
    if text.len() > 0 && text[0] == '+' {
        text.drop_first()
    } else {
        text
    }
}

/// The number that `text` stands for: decimal digits, of which there is at least one, behind an
/// optional plus sign.
pub open spec fn number_in(text: Seq<char>) -> Option<nat> {
    if is_decimal(without_plus(text)) {
        Some(decimal_value(without_plus(text)))
    } else {
        None
    }
}

/// Parses a number in decimal; `None` where `text` is not one or is too large for a `usize`.
pub fn parse_usize(text: &str) -> (number: Option<usize>)
    ensures
        number == match number_in(text@) {
            Some(value) if value <= usize::MAX => Some(value as usize),
            _ => None,
        },
{
    let chars: Vec<char> = chars_of(text);
    let start: usize = if chars.len() > 0 && chars[0] == '+' {
        1
    } else {
        0
    };
    let ghost digits = without_plus(text@);
    assert(digits =~= text@.skip(start as int));
    if start == chars.len() {
        return None;
    }
    let mut number: usize = 0;
    let mut fits: bool = true;
    let mut i: usize = start;
    while i < chars.len()
        invariant
            chars@ == text@,
            start <= i <= text@.len(),
            digits == without_plus(text@),
            digits == text@.skip(start as int),
            forall|k: int| 0 <= k < i - start ==> is_digit(#[trigger] digits[k]),
            fits <==> decimal_value(digits.take(i - start)) <= usize::MAX,
            fits ==> number == decimal_value(digits.take(i - start)),
        decreases text@.len() - i,
    {
        let c: char = chars[i];
        assert(digits[i - start] == c);
        if c < '0' || c > '9' {
            return None;
        }
        assert(digits.take(i - start + 1).drop_last() =~= digits.take(i - start));
        let digit: usize = (c as u32 - '0' as u32) as usize;
        if fits {
            match number.checked_mul(10) {
                Some(tenfold) => match tenfold.checked_add(digit) {
                    Some(sum) => {
                        number = sum;
                    },
                    None => {
                        fits = false;
                    },
                },
                None => {
                    fits = false;
                },
            }
        }
        i += 1;
    }
    assert(digits.take(i - start) =~= digits);
    if fits {
        Some(number)
    } else {
        None
    }
}

/// Whether `text` has `part` somewhere: it is `part` with something, or nothing, on both sides.
pub open spec fn has_part(text: Seq<char>, part: Seq<char>) -> bool {
    exists|before: Seq<char>, after: Seq<char>| text == #[trigger] (before + part + after)
}

/// Whether `text` is `start` with something, or nothing, behind it.
pub open spec fn has_start(text: Seq<char>, start: Seq<char>) -> bool {
    exists|after: Seq<char>| text == #[trigger] (start + after)
}

/// A pattern is found in a text exactly if the text is something, the pattern, and something more,
/// and at its beginning exactly if the text is the pattern and something more.
pub proof fn law_patterns_are_found(text: Seq<char>, pattern: Seq<char>)
    ensures
        occurs_in(text, pattern) <==> has_part(text, pattern),
        occurs_at(text, pattern, 0) <==> has_start(text, pattern),
{
    if occurs_in(text, pattern) {
        let at = choose|at: int| occurs_at(text, pattern, at);
        let before = text.take(at);
        let after = text.skip(at + pattern.len());
        assert(text =~= before + pattern + after);
    }
    if has_part(text, pattern) {
        let (before, after) = choose|before: Seq<char>, after: Seq<char>|
            text == #[trigger] (before + pattern + after);
        let at = before.len() as int;
        assert(text.subrange(at, at + pattern.len()) =~= pattern);
        assert(occurs_at(text, pattern, at));
    }
    if occurs_at(text, pattern, 0) {
        assert(text =~= pattern + text.skip(pattern.len() as int));
    }
    if has_start(text, pattern) {
        let after = choose|after: Seq<char>| text == #[trigger] (pattern + after);
        assert(text.subrange(0, pattern.len() as int) =~= pattern);
    }
}

/// Trimming takes slashes from the beginning and nothing else: the text is some slashes and what
/// is left, which does not begin with a slash.
pub proof fn law_only_leading_slashes_are_trimmed(text: Seq<char>) -> (slashes: Seq<char>)
    ensures
        text == slashes + without_leading_slashes(text),
        forall|i: int| 0 <= i < slashes.len() ==> #[trigger] slashes[i] == '/',
        without_leading_slashes(text).len() > 0 ==> without_leading_slashes(text)[0] != '/',
    decreases text.len(),
{
    if text.len() > 0 && text[0] == '/' {
        let rest = law_only_leading_slashes_are_trimmed(text.drop_first());
        let slashes = seq!['/'] + rest;
        assert(text =~= seq!['/'] + text.drop_first());
        assert(text =~= slashes + without_leading_slashes(text));
        slashes
    } else {
        assert(text =~= Seq::<char>::empty() + text);
        Seq::empty()
    }
}

/// Whether the texts agree up to position `n`, at which `a` ends, and `b` does not, or has the
/// smaller character.
pub open spec fn is_smaller_from(a: Seq<char>, b: Seq<char>, n: int) -> bool {
    &&& 0 <= n <= a.len() && n < b.len()
    &&& forall|i: int| 0 <= i < n ==> #[trigger] a[i] == b[i]
    &&& n == a.len() || (n < a.len() && (a[n] as int) < (b[n] as int))
}

/// The order of texts is lexicographic: one text comes before another exactly if they agree up to
/// some position at which the one ends, and the other does not, or has the smaller character.
pub proof fn law_order_is_lexicographic(a: Seq<char>, b: Seq<char>)
    ensures
        precedes(a, b) <==> exists|n: int| is_smaller_from(a, b, n),
    decreases a.len(),
{
    if a.len() > 0 && b.len() > 0 && a[0] == b[0] {
        let x = a.drop_first();
        let y = b.drop_first();
        law_order_is_lexicographic(x, y);
        if precedes(x, y) {
            let n = choose|n: int| is_smaller_from(x, y, n);
            assert forall|i: int| 0 <= i < n + 1 implies #[trigger] a[i] == b[i] by {
                if i > 0 {
                    assert(x[i - 1] == y[i - 1]);
                }
            }
            assert(is_smaller_from(a, b, n + 1));
        }
        if exists|n: int| is_smaller_from(a, b, n) {
            let n = choose|n: int| is_smaller_from(a, b, n);
            assert forall|i: int| 0 <= i < n - 1 implies #[trigger] x[i] == y[i] by {
                assert(a[i + 1] == b[i + 1]);
            }
            assert(is_smaller_from(x, y, n - 1));
        }
    } else {
        if precedes(a, b) {
            assert(is_smaller_from(a, b, 0));
        }
        if exists|n: int| is_smaller_from(a, b, n) {
            let n = choose|n: int| is_smaller_from(a, b, n);
            assert(n > 0 ==> a[0] == b[0]);
        }
    }
}

/// A number is read digit by digit: a digit behind a number makes it ten times as large and adds
/// itself, any other character behind it leaves no number, and a plus sign before the digits
/// changes nothing.
pub proof fn law_numbers_are_decimal(text: Seq<char>, c: char)
    ensures
        number_in(seq![c]) == if '0' <= c <= '9' {
            Some((c as nat - '0' as nat) as nat)
        } else {
            None
        },
        number_in(text) is Some && '0' <= c <= '9' ==> number_in(text.push(c)) == Some(
            (10 * number_in(text)->0 + c as nat - '0' as nat) as nat,
        ),
        !('0' <= c <= '9') && text.len() > 0 ==> number_in(text.push(c)) is None,
        number_in(text) is Some && text[0] != '+' ==> number_in(seq!['+'] + text) == number_in(
            text,
        ),
        number_in(Seq::<char>::empty()) is None,
{
    let one = seq![c];
    let more = text.push(c);
    if c == '+' {
        assert(without_plus(one) =~= Seq::empty());
    } else {
        assert(one.drop_last() =~= Seq::empty());
        assert(decimal_value(one.drop_last()) == 0);
        assert(one[0] == c);
    }
    if text.len() > 0 {
        let digits = without_plus(text);
        assert(without_plus(more) =~= digits.push(c));
        assert(digits.push(c).drop_last() =~= digits);
        assert(digits.push(c)[digits.len() as int] == c);
        if is_decimal(digits) && '0' <= c <= '9' {
            assert(is_decimal(digits.push(c))) by {
                assert forall|i: int| 0 <= i < digits.push(c).len() implies is_digit(
                    #[trigger] digits.push(c)[i],
                ) by {
                    if i < digits.len() {
                        assert(digits.push(c)[i] == digits[i]);
                    }
                }
            }
        }
        if text[0] != '+' {
            assert(without_plus(seq!['+'] + text) =~= text);
        }
    }
}

} // verus!
