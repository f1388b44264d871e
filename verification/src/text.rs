//! Text as sequences of characters: numbers, fields, and the parts of a request.

use vstd::prelude::*;

verus! {

/// `String::push`: the character is appended.
pub assume_specification[ String::push ](text: &mut String, c: char)
    ensures
        final(text)@ == old(text)@.push(c),
;

/// The characters of a text.
pub fn chars_of(text: &str) -> (chars: Vec<char>)
    ensures
        chars@ == text@,
{
    let mut chars: Vec<char> = Vec::new();
    for c in it: text.chars()
        invariant
            chars@ == it.seq().take(it.index() as int),
            it.seq() == text@,
    {
        chars.push(c);
    }
    assert(text@.take(text@.len() as int) =~= text@);
    chars
}

/// The text made of the given characters.
pub fn string_of(chars: &[char]) -> (text: String)
    ensures
        text@ == chars@,
{
    let mut text = String::new();
    let mut i: usize = 0;
    while i < chars.len()
        invariant
            i <= chars@.len(),
            text@ == chars@.take(i as int),
        decreases chars@.len() - i,
    {
        text.push(chars[i]);
        i = i + 1;
        assert(chars@.take(i as int) =~= chars@.take(i - 1).push(chars@[i - 1]));
    }
    assert(chars@.take(i as int) =~= chars@);
    text
}

/// Whether two texts are the same.
pub fn same_text(a: &str, b: &str) -> (same: bool)
    ensures
        same == (a@ == b@),
{
    same_chars(&chars_of(a), &chars_of(b))
}

/// Whether two sequences of characters are the same.
pub fn same_chars(a: &[char], b: &[char]) -> (same: bool)
    ensures
        same == (a@ == b@),
{
    if a.len() != b.len() {
        return false;
    }
    let mut i: usize = 0;
    while i < a.len()
        invariant
            i <= a@.len(),
            a@.len() == b@.len(),
            forall|j: int| 0 <= j < i ==> a@[j] == b@[j],
        decreases a@.len() - i,
    {
        if a[i] != b[i] {
            return false;
        }
        i = i + 1;
    }
    assert(a@ =~= b@);
    true
}

/// The decimal digit with value `n`.
pub open spec fn digit(n: nat) -> char {
    ('0' as u32 + n) as char
}

/// A number in decimal notation.
pub open spec fn decimal(n: nat) -> Seq<char>
    decreases n,
{
    if n < 10 {
        seq![digit(n)]
    } else {
        decimal(n / 10).push(digit(n % 10))
    }
}

/// An integer in decimal notation.
pub open spec fn signed_decimal(n: int) -> Seq<char> {
    if n < 0 {
        seq!['-'] + decimal((-n) as nat)
    } else {
        decimal(n as nat)
    }
}

/// A number below ten is written as one digit, counted from `0` on.
pub proof fn lemma_single_digit(n: nat)
    requires
        n < 10,
    ensures
        decimal(n) == seq![digit(n)],
        digit(0) == '0',
        digit(1) == '1',
        digit(2) == '2',
        digit(3) == '3',
{
}

fn digit_char(n: u64) -> (c: char)
    requires
        n < 10,
    ensures
        c == digit(n as nat),
{
    match n {
        0 => '0',
        1 => '1',
        2 => '2',
        3 => '3',
        4 => '4',
        5 => '5',
        6 => '6',
        7 => '7',
        8 => '8',
        _ => '9',
    }
}

/// Appends a number in decimal notation.
pub fn push_decimal(text: &mut String, n: u64)
    ensures
        final(text)@ == old(text)@ + decimal(n as nat),
    decreases n,
{
    if n >= 10 {
        push_decimal(text, n / 10);
    }
    text.push(digit_char(n % 10));
    assert(text@ =~= old(text)@ + decimal(n as nat));
}

/// Appends an integer in decimal notation.
pub fn push_signed_decimal(text: &mut String, n: i16)
    ensures
        final(text)@ == old(text)@ + signed_decimal(n as int),
{
    if n < 0 {
        text.push('-');
        push_decimal(text, (-(n as i64)) as u64);
        assert(text@ =~= old(text)@ + signed_decimal(n as int));
    } else {
        push_decimal(text, n as u64);
    }
}

/// Whether a character is a decimal digit.
pub open spec fn is_digit(c: char) -> bool {
    '0' <= c <= '9'
}

/// The value of a sequence of decimal digits.
pub open spec fn digits_value(digits: Seq<char>) -> nat
    decreases digits.len(),
{
    if digits.len() == 0 {
        0
    } else {
        digits_value(digits.drop_last()) * 10 + (digits.last() as u32 - '0' as u32) as nat
    }
}

/// The digits of an unsigned number, which a plus sign may precede.
pub open spec fn unsigned_digits(text: Seq<char>) -> Seq<char> {
    if text.len() > 1 && text[0] == '+' {
        text.drop_first()
    } else {
        text
    }
}

/// The unsigned number of at most `max` that a text stands for: digits only, at least one of
/// them, with or without a plus sign.
pub open spec fn parsed_unsigned(text: Seq<char>, max: nat) -> Option<nat> {
    let digits = unsigned_digits(text);
    if digits.len() > 0 && (forall|i: int| 0 <= i < digits.len() ==> is_digit(#[trigger] digits[i]))
        && digits_value(digits) <= max {
        Some(digits_value(digits))
    } else {
        None
    }
}

fn digit_value_of(c: char) -> (value: Option<u64>)
    ensures
        value is Some == is_digit(c),
        value matches Some(v) ==> v == c as u32 - '0' as u32 && v < 10,
{
    match c {
        '0' => Some(0),
        '1' => Some(1),
        '2' => Some(2),
        '3' => Some(3),
        '4' => Some(4),
        '5' => Some(5),
        '6' => Some(6),
        '7' => Some(7),
        '8' => Some(8),
        '9' => Some(9),
        _ => None,
    }
}

/// Reads an unsigned number of at most `max`.
pub fn parse_unsigned(text: &[char], max: u64) -> (value: Option<u64>)
    ensures
        value is Some == parsed_unsigned(text@, max as nat) is Some,
        value matches Some(v) ==> parsed_unsigned(text@, max as nat) == Some(v as nat),
{
    let first: usize = if text.len() > 1 && text[0] == '+' {
        1
    } else {
        0
    };
    if text.len() == 0 {
        return None;
    }
    let ghost digits = unsigned_digits(text@);
    let mut value: u64 = 0;
    let mut i: usize = first;
    while i < text.len()
        invariant
            first <= i <= text@.len(),
            first <= 1,
            digits == unsigned_digits(text@),
            digits.len() == text@.len() - first,
            digits.len() > 0,
            forall|j: int| 0 <= j < digits.len() ==> digits[j] == text@[j + first],
            value == digits_value(digits.take(i - first)),
            value <= max,
            forall|j: int| 0 <= j < i - first ==> is_digit(#[trigger] digits[j]),
        decreases text@.len() - i,
    {
        let ghost shown = digits.take(i - first + 1);
        proof {
            assert(shown.drop_last() =~= digits.take(i - first));
            assert(shown.last() == digits[i - first]);
            assert(digits[i - first] == text@[i as int]);
        }
        match digit_value_of(text[i]) {
            None => {
                return None;
            },
            Some(d) => {
                if value > (max / 10) || (value == max / 10 && d > max % 10) {
                    proof {
                        lemma_digits_grow(digits, i - first + 1);
                    }
                    return None;
                }
                value = value * 10 + d;
            },
        }
        i = i + 1;
    }
    assert(digits.take(i - first) =~= digits);
    Some(value)
}

/// More digits never make a number smaller.
proof fn lemma_digits_grow(digits: Seq<char>, n: int)
    requires
        0 <= n <= digits.len(),
    ensures
        (forall|i: int| 0 <= i < digits.len() ==> is_digit(#[trigger] digits[i])) ==> digits_value(
            digits.take(n),
        ) <= digits_value(digits),
    decreases digits.len(),
{
    if n == digits.len() {
        assert(digits.take(n) =~= digits);
    } else if forall|i: int| 0 <= i < digits.len() ==> is_digit(#[trigger] digits[i]) {
        let shorter = digits.drop_last();
        lemma_digits_grow(shorter, n);
        assert(shorter.take(n) =~= digits.take(n));
        assert(is_digit(digits[digits.len() - 1]));
        assert forall|i: int| 0 <= i < shorter.len() implies is_digit(#[trigger] shorter[i]) by {
            assert(is_digit(digits[i]));
        }
    }
}

/// Decimal notation is made of digits that give back the number.
proof fn lemma_decimal_digits(n: nat)
    ensures
        decimal(n).len() > 0,
        forall|i: int| 0 <= i < decimal(n).len() ==> is_digit(#[trigger] decimal(n)[i]),
        digits_value(decimal(n)) == n,
    decreases n,
{
    if n < 10 {
        assert(decimal(n).drop_last() =~= Seq::<char>::empty());
        assert(digits_value(decimal(n).drop_last()) == 0);
    } else {
        lemma_decimal_digits(n / 10);
        assert(decimal(n).drop_last() =~= decimal(n / 10));
        assert forall|i: int| 0 <= i < decimal(n).len() implies is_digit(
            #[trigger] decimal(n)[i],
        ) by {
            if i < decimal(n / 10).len() {
                assert(is_digit(decimal(n / 10)[i]));
            }
        }
    }
}

/// A number in decimal notation is read back as that number.
pub proof fn law_decimal_is_read_back(n: nat, max: nat)
    requires
        n <= max,
    ensures
        parsed_unsigned(decimal(n), max) == Some(n),
{
    lemma_decimal_digits(n);
    assert(is_digit(decimal(n)[0]));
}

/// The fields of a text that are separated by `separator`. There is always at least one.
pub open spec fn split(text: Seq<char>, separator: char) -> Seq<Seq<char>>
    decreases text.len(),
{
    if text.len() == 0 {
        seq![Seq::empty()]
    } else {
        let fields = split(text.drop_last(), separator);
        if text.last() == separator {
            fields.push(Seq::empty())
        } else {
            fields.update(fields.len() - 1, fields.last().push(text.last()))
        }
    }
}

/// Splits a text into the fields that `separator` separates.
pub fn split_chars(text: &[char], separator: char) -> (fields: Vec<Vec<char>>)
    ensures
        fields@.len() == split(text@, separator).len(),
        fields@.len() > 0,
        forall|i: int| 0 <= i < fields@.len() ==> (#[trigger] fields@[i])@ == split(text@, separator)[i],
{
    let mut fields: Vec<Vec<char>> = Vec::new();
    let mut current: Vec<char> = Vec::new();
    let mut i: usize = 0;
    while i < text.len()
        invariant
            i <= text@.len(),
            fields@.len() + 1 == split(text@.take(i as int), separator).len(),
            current@ == split(text@.take(i as int), separator).last(),
            forall|j: int|
                0 <= j < fields@.len() ==> (#[trigger] fields@[j])@ == split(
                    text@.take(i as int),
                    separator,
                )[j],
        decreases text@.len() - i,
    {
        let c = text[i];
        i = i + 1;
        assert(text@.take(i as int).drop_last() =~= text@.take(i - 1));
        if c == separator {
            fields.push(current);
            current = Vec::new();
        } else {
            current.push(c);
        }
    }
    assert(text@.take(i as int) =~= text@);
    fields.push(current);
    fields
}

/// Whether a text begins with `prefix`.
pub open spec fn starts_with(text: Seq<char>, prefix: Seq<char>) -> bool {
    prefix.len() <= text.len() && text.take(prefix.len() as int) == prefix
}

/// Whether a text begins with `prefix`.
pub fn has_prefix(text: &[char], prefix: &[char]) -> (yes: bool)
    ensures
        yes == starts_with(text@, prefix@),
{
    if text.len() < prefix.len() {
        return false;
    }
    let mut i: usize = 0;
    while i < prefix.len()
        invariant
            i <= prefix@.len() <= text@.len(),
            forall|j: int| 0 <= j < i ==> text@[j] == prefix@[j],
        decreases prefix@.len() - i,
    {
        if text[i] != prefix[i] {
            assert(text@.take(prefix@.len() as int)[i as int] == text@[i as int]);
            return false;
        }
        i = i + 1;
    }
    assert(text@.take(prefix@.len() as int) =~= prefix@);
    true
}

/// The characters of a text from position `from` on.
pub fn tail_of(text: &[char], from: usize) -> (tail: Vec<char>)
    requires
        from <= text@.len(),
    ensures
        tail@ == text@.skip(from as int),
{
    let mut tail: Vec<char> = Vec::new();
    let mut i: usize = from;
    while i < text.len()
        invariant
            from <= i <= text@.len(),
            tail@ == text@.subrange(from as int, i as int),
        decreases text@.len() - i,
    {
        tail.push(text[i]);
        i = i + 1;
        assert(text@.subrange(from as int, i as int) =~= text@.subrange(from as int, i - 1).push(
            text@[i - 1],
        ));
    }
    assert(text@.subrange(from as int, i as int) =~= text@.skip(from as int));
    tail
}

/// A text without a given character.
pub open spec fn without(text: Seq<char>, unwanted: char) -> Seq<char> {
    text.filter(|c: char| c != unwanted)
}

/// Removes every occurrence of a character.
pub fn remove_char(text: &[char], unwanted: char) -> (rest: Vec<char>)
    ensures
        rest@ == without(text@, unwanted),
{
    let mut rest: Vec<char> = Vec::new();
    let mut i: usize = 0;
    while i < text.len()
        invariant
            i <= text@.len(),
            rest@ == without(text@.take(i as int), unwanted),
        decreases text@.len() - i,
    {
        let c = text[i];
        i = i + 1;
        proof {
            reveal(Seq::filter);
            assert(text@.take(i as int).drop_last() =~= text@.take(i - 1));
        }
        if c != unwanted {
            rest.push(c);
        }
    }
    assert(text@.take(i as int) =~= text@);
    rest
}

/// White space as Unicode defines it.
pub open spec fn is_white(c: char) -> bool {
    let u = c as u32;
    ||| 0x9 <= u <= 0xd
    ||| u == 0x20
    ||| u == 0x85
    ||| u == 0xa0
    ||| u == 0x1680
    ||| 0x2000 <= u <= 0x200a
    ||| u == 0x2028
    ||| u == 0x2029
    ||| u == 0x202f
    ||| u == 0x205f
    ||| u == 0x3000
}

fn is_white_space(c: char) -> (yes: bool)
    ensures
        yes == is_white(c),
{
    let u: u32 = c as u32;
    (0x9 <= u && u <= 0xd) || u == 0x20 || u == 0x85 || u == 0xa0 || u == 0x1680 || (0x2000 <= u && u
        <= 0x200a) || u == 0x2028 || u == 0x2029 || u == 0x202f || u == 0x205f || u == 0x3000
}

/// `inner` is `text` without the white space at both ends: it has none at either end, and what
/// was cut off is nothing else.
pub open spec fn is_trimmed(inner: Seq<char>, text: Seq<char>) -> bool {
    exists|from: int, to: int| #[trigger]
        trims(text, from, to) && inner == text.subrange(from, to)
}

/// Cutting a text off before `from` and from `to` on removes the white space at both ends.
pub open spec fn trims(text: Seq<char>, from: int, to: int) -> bool {
    &&& 0 <= from <= to <= text.len()
    &&& forall|i: int| 0 <= i < from ==> is_white(#[trigger] text[i])
    &&& forall|i: int| to <= i < text.len() ==> is_white(#[trigger] text[i])
    &&& from < to ==> !is_white(text[from]) && !is_white(text[to - 1])
}

/// Removes the white space at both ends.
pub fn trim_chars(text: &[char]) -> (inner: Vec<char>)
    ensures
        is_trimmed(inner@, text@),
{
    let mut to: usize = text.len();
    while to > 0 && is_white_space(text[to - 1])
        invariant
            to <= text@.len(),
            forall|i: int| to <= i < text@.len() ==> is_white(#[trigger] text@[i]),
        decreases to,
    {
        to = to - 1;
    }
    let mut from: usize = 0;
    while from < to && is_white_space(text[from])
        invariant
            from <= to <= text@.len(),
            forall|i: int| 0 <= i < from ==> is_white(#[trigger] text@[i]),
        decreases to - from,
    {
        from = from + 1;
    }
    let mut inner: Vec<char> = Vec::new();
    let mut i: usize = from;
    while i < to
        invariant
            from <= i <= to <= text@.len(),
            inner@ == text@.subrange(from as int, i as int),
        decreases to - i,
    {
        inner.push(text[i]);
        i = i + 1;
        assert(text@.subrange(from as int, i as int) =~= text@.subrange(from as int, i - 1).push(
            text@[i - 1],
        ));
    }
    assert(trims(text@, from as int, to as int));
    inner
}

/// There is only one way to trim a text.
pub proof fn law_trimming_is_unique(text: Seq<char>, a: Seq<char>, b: Seq<char>)
    requires
        is_trimmed(a, text),
        is_trimmed(b, text),
    ensures
        a == b,
{
    let (f1, t1) = choose|from: int, to: int| #[trigger]
        trims(text, from, to) && a == text.subrange(from, to);
    let (f2, t2) = choose|from: int, to: int| #[trigger]
        trims(text, from, to) && b == text.subrange(from, to);
    if f1 < t1 && f2 < t2 {
        assert(f1 == f2) by {
            if f1 < f2 {
                assert(is_white(text[f1]));
            } else if f2 < f1 {
                assert(is_white(text[f2]));
            }
        }
        assert(t1 == t2) by {
            if t1 < t2 {
                assert(is_white(text[t2 - 1]));
            } else if t2 < t1 {
                assert(is_white(text[t1 - 1]));
            }
        }
    } else if f1 < t1 {
        if f2 <= f1 {
            assert(is_white(text[f1]));
        } else {
            assert(is_white(text[f1]));
        }
    } else if f2 < t2 {
        assert(is_white(text[f2]));
    }
    assert(a =~= b);
}

/// Trimming twice is trimming once.
pub proof fn law_trimming_is_idempotent(text: Seq<char>, inner: Seq<char>)
    requires
        is_trimmed(inner, text),
    ensures
        is_trimmed(inner, inner),
{
    let (from, to) = choose|from: int, to: int| #[trigger]
        trims(text, from, to) && inner == text.subrange(from, to);
    assert(trims(inner, 0, inner.len() as int));
    assert(inner.subrange(0, inner.len() as int) =~= inner);
}

/// Removing a character twice is removing it once.
pub proof fn lemma_without_is_idempotent(text: Seq<char>, unwanted: char)
    ensures
        without(without(text, unwanted), unwanted) == without(text, unwanted),
    decreases text.len(),
{
    reveal(Seq::filter);
    if text.len() > 0 {
        lemma_without_is_idempotent(text.drop_last(), unwanted);
        let rest = without(text.drop_last(), unwanted);
        if text.last() != unwanted {
            assert(rest.push(text.last()).drop_last() =~= rest);
        }
    }
}

/// A text that does not hold a character stays as it is when that character is removed.
pub proof fn lemma_without_absent(text: Seq<char>, unwanted: char)
    requires
        !text.contains(unwanted),
    ensures
        without(text, unwanted) == text,
    decreases text.len(),
{
    reveal(Seq::filter);
    if text.len() > 0 {
        assert(text.contains(text.last()));
        assert forall|i: int| 0 <= i < text.drop_last().len() implies text.drop_last()[i]
            != unwanted by {
            assert(text.contains(text[i]));
        }
        lemma_without_absent(text.drop_last(), unwanted);
        assert(text.drop_last().push(text.last()) =~= text);
    } else {
        assert(text =~= Seq::<char>::empty());
    }
}

/// The default server name holds no semicolon.
pub proof fn lemma_default_name_is_kept()
    ensures
        without("Unnamed server"@, ';') == "Unnamed server"@,
        "Unnamed server"@.len() > 0,
{
    reveal_strlit("Unnamed server");
    assert forall|i: int| 0 <= i < "Unnamed server"@.len() implies "Unnamed server"@[i] != ';' by {}
    lemma_without_absent("Unnamed server"@, ';');
}

/// Decimal notation puts the digits of a number in order, the last one being the remainder by ten:
/// it has no sign, no separator and no leading zero, and a tenfold number has one zero more.
pub proof fn law_decimal_notation(n: nat)
    ensures
        decimal(n).len() >= 1,
        forall|i: int| 0 <= i < decimal(n).len() ==> '0' <= #[trigger] decimal(n)[i] <= '9',
        decimal(n)[decimal(n).len() - 1] as u32 == '0' as u32 + n % 10,
        n > 0 ==> decimal(n)[0] != '0' && decimal(10 * n) == decimal(n).push('0'),
        n < 10 ==> decimal(n).len() == 1,
        n >= 10 ==> decimal(n).drop_last() == decimal(n / 10),
    decreases n,
{
    lemma_decimal_digits(n);
    assert forall|i: int| 0 <= i < decimal(n).len() implies '0' <= #[trigger] decimal(n)[i]
        <= '9' by {
        assert(is_digit(decimal(n)[i]));
    }
    if n >= 10 {
        law_decimal_notation(n / 10);
        assert(decimal(n).drop_last() =~= decimal(n / 10));
        assert(decimal(n)[0] == decimal(n / 10)[0]);
    }
    if n > 0 {
        assert(10 * n / 10 == n && (10 * n) % 10 == 0);
        assert(decimal(10 * n) =~= decimal(n).push('0'));
    }
}

/// Different numbers are written differently.
pub proof fn law_decimal_is_injective(a: nat, b: nat)
    requires
        decimal(a) == decimal(b),
    ensures
        a == b,
{
    lemma_decimal_digits(a);
    lemma_decimal_digits(b);
}

/// A negative number is written as a minus sign and its amount, and any other one without a sign.
/// So different numbers are written differently.
pub proof fn law_signed_decimal(n: int, other: int)
    ensures
        n < 0 ==> signed_decimal(n)[0] == '-' && signed_decimal(n).drop_first() == decimal(
            (0 - n) as nat,
        ),
        n >= 0 ==> signed_decimal(n) == decimal(n as nat),
        signed_decimal(n) == signed_decimal(other) ==> n == other,
        !signed_decimal(n).contains(','),
{
    let amount = if n < 0 {
        (0 - n) as nat
    } else {
        n as nat
    };
    let other_amount = if other < 0 {
        (0 - other) as nat
    } else {
        other as nat
    };
    lemma_decimal_digits(amount);
    lemma_decimal_digits(other_amount);
    assert(is_digit(decimal(amount)[0]));
    assert(is_digit(decimal(other_amount)[0]));
    if n < 0 {
        assert(signed_decimal(n).drop_first() =~= decimal(amount));
    }
    if other < 0 {
        assert(signed_decimal(other).drop_first() =~= decimal(other_amount));
    }
    assert forall|i: int| 0 <= i < signed_decimal(n).len() implies signed_decimal(n)[i] != ',' by {
        if n < 0 && i > 0 {
            assert(signed_decimal(n)[i] == decimal(amount)[i - 1]);
            assert(is_digit(decimal(amount)[i - 1]));
        } else if n >= 0 {
            assert(is_digit(decimal(amount)[i]));
        }
    }
}

/// Reading a number is reading its digits from left to right, each one counting ten times less
/// than the one before. A plus sign may stand in front, nothing else may stand anywhere, and what
/// is too large or has no digit is no number.
pub proof fn law_numbers_are_read(text: Seq<char>, c: char, max: nat)
    ensures
        parsed_unsigned(Seq::empty(), max) is None,
        parsed_unsigned(seq!['+'], max) is None,
        text.len() > 0 && text[0] != '+' ==> parsed_unsigned(seq!['+'] + text, max)
            == parsed_unsigned(text, max),
        text.contains('-') || text.contains(' ') || text.contains('.') ==> parsed_unsigned(
            text,
            max,
        ) is None,
        parsed_unsigned(text, max) matches Some(n) ==> n <= max && parsed_unsigned(
            text.push(c),
            max,
        ) == if '0' <= c <= '9' && 10 * n + (c as u32 - '0' as u32) <= max {
            Some((10 * n + (c as u32 - '0' as u32)) as nat)
        } else {
            None
        },
        '0' <= c <= '9' ==> parsed_unsigned(seq![c], max) == if c as u32 - '0' as u32 <= max {
            Some((c as u32 - '0' as u32) as nat)
        } else {
            None
        },
{
    assert(unsigned_digits(Seq::<char>::empty()).len() == 0);
    assert(!is_digit('+') && !is_digit('-') && !is_digit(' ') && !is_digit('.'));
    assert(!is_digit(unsigned_digits(seq!['+'])[0]));
    if text.len() > 0 && text[0] != '+' {
        assert((seq!['+'] + text).drop_first() =~= text);
    }
    let digits = unsigned_digits(text);
    assert forall|bad: char| text.contains(bad) && bad != '+' && !is_digit(bad) implies parsed_unsigned(
        text,
        max,
    ) is None by {
        let i = choose|i: int| 0 <= i < text.len() && text[i] == bad;
        if text.len() > 1 && text[0] == '+' {
            assert(digits[i - 1] == bad);
        } else {
            assert(digits[i] == bad);
        }
    }
    if let Some(n) = parsed_unsigned(text, max) {
        let longer = unsigned_digits(text.push(c));
        if text.len() == 1 && text[0] == '+' {
            assert(!is_digit(digits[0]));
        } else {
            assert(longer =~= digits.push(c));
            assert(longer.drop_last() =~= digits);
            if is_digit(c) {
                assert forall|i: int| 0 <= i < longer.len() implies is_digit(
                    #[trigger] longer[i],
                ) by {
                    if i < digits.len() {
                        assert(is_digit(digits[i]));
                    }
                }
            } else {
                assert(!is_digit(longer[longer.len() - 1]));
            }
        }
    }
    if is_digit(c) {
        let one = seq![c];
        assert(unsigned_digits(one) == one);
        assert(one.drop_last() =~= Seq::<char>::empty());
        assert(digits_value(one.drop_last()) == 0);
    }
}

/// A text without the separator is one field.
pub proof fn law_text_without_separator_is_one_field(text: Seq<char>, separator: char)
    requires
        !text.contains(separator),
    ensures
        split(text, separator) == seq![text],
    decreases text.len(),
{
    if text.len() > 0 {
        let shorter = text.drop_last();
        assert forall|i: int| 0 <= i < shorter.len() implies shorter[i] != separator by {
            assert(text.contains(text[i]));
        }
        law_text_without_separator_is_one_field(shorter, separator);
        assert(text.contains(text[text.len() - 1]));
        assert(shorter.push(text.last()) =~= text);
        assert(split(text, separator) =~= seq![text]);
    } else {
        assert(text =~= Seq::<char>::empty());
    }
}

/// The fields of two texts with a separator between them are those of the one and then those of
/// the other.
pub proof fn law_fields_are_concatenated(a: Seq<char>, separator: char, b: Seq<char>)
    ensures
        split(a + seq![separator] + b, separator) == split(a, separator) + split(b, separator),
    decreases b.len(),
{
    let text = a + seq![separator] + b;
    lemma_split_is_not_empty(a, separator);
    lemma_split_is_not_empty(b, separator);
    if b.len() == 0 {
        assert(text.drop_last() =~= a);
        assert(b =~= Seq::<char>::empty());
        assert(split(text, separator) =~= split(a, separator) + split(b, separator));
    } else {
        let shorter = b.drop_last();
        law_fields_are_concatenated(a, separator, shorter);
        lemma_split_is_not_empty(shorter, separator);
        assert(text.drop_last() =~= a + seq![separator] + shorter);
        assert(split(text, separator) =~= split(a, separator) + split(b, separator));
    }
}

proof fn lemma_split_is_not_empty(text: Seq<char>, separator: char)
    ensures
        split(text, separator).len() > 0,
    decreases text.len(),
{
    if text.len() > 0 {
        lemma_split_is_not_empty(text.drop_last(), separator);
    }
}

/// A text begins with a prefix exactly if something can be put behind the prefix to make it.
pub proof fn law_prefixes(text: Seq<char>, prefix: Seq<char>, rest: Seq<char>)
    ensures
        starts_with(prefix + rest, prefix),
        starts_with(text, prefix) ==> text == prefix + text.skip(prefix.len() as int),
{
    assert((prefix + rest).take(prefix.len() as int) =~= prefix);
    if starts_with(text, prefix) {
        assert(text =~= text.take(prefix.len() as int) + text.skip(prefix.len() as int));
    }
}

/// Removing a character leaves the others, in their order: it takes the character out wherever it
/// stands and keeps what stands before and behind.
pub proof fn law_removal_keeps_the_others(a: Seq<char>, c: char, unwanted: char)
    ensures
        without(Seq::empty(), unwanted) == Seq::<char>::empty(),
        without(a.push(c), unwanted) == if c == unwanted {
            without(a, unwanted)
        } else {
            without(a, unwanted).push(c)
        },
        !without(a, unwanted).contains(unwanted),
    decreases a.len(),
{
    reveal(Seq::filter);
    assert(a.push(c).drop_last() =~= a);
    assert(without(Seq::empty(), unwanted) =~= Seq::<char>::empty());
    if a.len() > 0 {
        law_removal_keeps_the_others(a.drop_last(), a.last(), unwanted);
        assert(a.drop_last().push(a.last()) =~= a);
        let rest = without(a.drop_last(), unwanted);
        assert forall|i: int| 0 <= i < without(a, unwanted).len() implies without(a, unwanted)[i]
            != unwanted by {
            if i < rest.len() {
                assert(rest.contains(rest[i]));
            }
        }
    }
}

/// Trimming cuts nothing off a text without white space at its ends, and takes spaces, tabs and
/// line ends away from both ends of it.
pub proof fn law_trimming_cuts_white_space(text: Seq<char>, inner: Seq<char>, white: char)
    requires
        white == ' ' || white == '\t' || white == '\n' || white == '\r',
    ensures
        text.len() > 0 && '!' <= text[0] <= '~' && '!' <= text[text.len() - 1] <= '~' ==> is_trimmed(
            text,
            text,
        ),
        is_trimmed(inner, text) ==> is_trimmed(inner, text.push(white)) && is_trimmed(
            inner,
            seq![white] + text,
        ),
        is_trimmed(Seq::empty(), Seq::empty()),
{
    let none = Seq::<char>::empty();
    assert(trims(none, 0, 0) && none =~= none.subrange(0, 0));
    if text.len() > 0 && '!' <= text[0] <= '~' && '!' <= text[text.len() - 1] <= '~' {
        assert(trims(text, 0, text.len() as int));
        assert(text =~= text.subrange(0, text.len() as int));
    }
    if is_trimmed(inner, text) {
        let (from, to) = choose|from: int, to: int| #[trigger]
            trims(text, from, to) && inner == text.subrange(from, to);
        assert(is_white(white));
        let behind = text.push(white);
        assert forall|i: int| to <= i < behind.len() implies is_white(#[trigger] behind[i]) by {
            if i < text.len() {
                assert(is_white(text[i]));
            }
        }
        assert forall|i: int| 0 <= i < from implies is_white(#[trigger] behind[i]) by {
            assert(is_white(text[i]));
        }
        assert(trims(behind, from, to));
        assert(behind.subrange(from, to) =~= inner);
        let ahead = seq![white] + text;
        assert forall|i: int| 0 <= i < from + 1 implies is_white(#[trigger] ahead[i]) by {
            if i > 0 {
                assert(is_white(text[i - 1]));
            }
        }
        assert forall|i: int| to + 1 <= i < ahead.len() implies is_white(#[trigger] ahead[i]) by {
            assert(is_white(text[i - 1]));
        }
        assert(trims(ahead, from + 1, to + 1));
        assert(ahead.subrange(from + 1, to + 1) =~= inner);
    }
}

} // verus!
