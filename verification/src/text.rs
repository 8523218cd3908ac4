//! Text primitives.

use vstd::prelude::*;
use vstd::string::*;

verus! {

/// Whether two string slices hold the same characters.
pub fn str_eq(a: &str, b: &str) -> (r: bool)
    ensures
        r == (a@ == b@),
{
    a.to_owned() == b.to_owned()
}

/// Whether an optional string slice holds the same characters as another one.
pub fn opt_str_eq(a: Option<&str>, b: &str) -> (r: bool)
    ensures
        r == match a {
            Some(s) => s@ == b@,
            None => false,
        },
{
    match a {
        Some(s) => str_eq(s, b),
        None => false,
    }
}

/// Two texts, one behind the other.
pub fn concat2(a: &str, b: &str) -> (r: String)
    ensures
        r@ == a@ + b@,
{
    let mut r = a.to_owned();
    r.append(b);
    r
}

/// Three texts, one behind the other.
pub fn concat3(a: &str, b: &str, c: &str) -> (r: String)
    ensures
        r@ == a@ + b@ + c@,
{
    let mut r = a.to_owned();
    r.append(b);
    r.append(c);
    r
}

/// The characters of a text.
pub fn chars_of(text: &str) -> (r: Vec<char>)
    ensures
        r@ == text@,
{
    let mut r: Vec<char> = Vec::new();
    for c in it: text.chars()
        invariant
            it.seq() == text@,
            r@ == text@.take(it.index()),
    {
        r.push(c);
    }
    r
}

// ---------------------------------------------------------------------------
// White space
// ---------------------------------------------------------------------------

/// Whether a character has the Unicode property `White_Space`.
pub open spec fn white_space(c: char) -> bool {
    let u = c as u32;
    ||| 0x9 <= u <= 0xd
    ||| u == 0x20
    ||| u == 0x85
    ||| u == 0xa0
    ||| u == 0x1680
    ||| 0x2000 <= u <= 0x200a
    ||| 0x2028 <= u <= 0x2029
    ||| u == 0x202f
    ||| u == 0x205f
    ||| u == 0x3000
}

/// Whether a character has the Unicode property `White_Space`.
pub fn is_white_space(c: char) -> (r: bool)
    ensures
        r == white_space(c),
{
    let u: u32 = c as u32;
    (0x9 <= u && u <= 0xd) || u == 0x20 || u == 0x85 || u == 0xa0 || u == 0x1680 || (0x2000 <= u && u
        <= 0x200a) || (0x2028 <= u && u <= 0x2029) || u == 0x202f || u == 0x205f || u == 0x3000
}

/// The characters without the white space in front.
pub open spec fn trimmed_start(s: Seq<char>) -> Seq<char>
    decreases s.len(),
{
    if s.len() > 0 && white_space(s[0]) {
        trimmed_start(s.drop_first())
    } else {
        s
    }
}

/// The characters without the white space at the end.
pub open spec fn trimmed_end(s: Seq<char>) -> Seq<char>
    decreases s.len(),
{
    if s.len() > 0 && white_space(s.last()) {
        trimmed_end(s.drop_last())
    } else {
        s
    }
}

/// The characters without the white space in front and at the end.
pub open spec fn trimmed(s: Seq<char>) -> Seq<char> {
    trimmed_end(trimmed_start(s))
}

/// A text without the white space in front and at the end.
pub fn trim(text: &str) -> (r: &str)
    ensures
        r@ == trimmed(text@),
{
    let chars = chars_of(text);
    let n = chars.len();
    let mut start: usize = 0;
    proof {
        assert(text@.subrange(0, n as int) =~= text@);
    }
    while start < n && is_white_space(chars[start])
        invariant
            chars@ == text@,
            n == chars@.len(),
            start <= n,
            trimmed_start(text@) == trimmed_start(text@.subrange(start as int, n as int)),
        decreases n - start,
    {
        proof {
            assert(text@.subrange(start as int, n as int).drop_first() =~= text@.subrange(
                start + 1,
                n as int,
            ));
        }
        start += 1;
    }
    let mut end: usize = n;
    let ghost front = text@.subrange(start as int, n as int);
    while end > start && is_white_space(chars[end - 1])
        invariant
            chars@ == text@,
            n == chars@.len(),
            start <= end <= n,
            front == text@.subrange(start as int, n as int),
            trimmed_end(front) == trimmed_end(text@.subrange(start as int, end as int)),
        decreases end - start,
    {
        proof {
            assert(text@.subrange(start as int, end as int).drop_last() =~= text@.subrange(
                start as int,
                end - 1,
            ));
        }
        end -= 1;
    }
    text.substring_char(start, end)
}

/// Trimming leaves no white space in front or at the end.
pub proof fn law_trimmed_has_no_outer_space(s: Seq<char>)
    ensures
        trimmed(s).len() > 0 ==> !white_space(trimmed(s)[0]) && !white_space(trimmed(s).last()),
{
    lemma_trimmed_start_head(s);
    lemma_trimmed_end_tail(trimmed_start(s));
}

proof fn lemma_trimmed_start_head(s: Seq<char>)
    ensures
        trimmed_start(s).len() > 0 ==> !white_space(trimmed_start(s)[0]),
    decreases s.len(),
{
    if s.len() > 0 && white_space(s[0]) {
        lemma_trimmed_start_head(s.drop_first());
    }
}

proof fn lemma_trimmed_end_tail(s: Seq<char>)
    ensures
        trimmed_end(s).len() > 0 ==> {
            &&& trimmed_end(s)[0] == s[0]
            &&& s.len() > 0
            &&& !white_space(trimmed_end(s).last())
        },
    decreases s.len(),
{
    if s.len() > 0 && white_space(s.last()) {
        lemma_trimmed_end_tail(s.drop_last());
    }
}

// ---------------------------------------------------------------------------
// Prefixes, order, joining
// ---------------------------------------------------------------------------

/// What follows a prefix of a text.
pub fn strip_prefix<'a>(text: &'a str, prefix: &str) -> (r: Option<&'a str>)
    ensures
        match r {
            Some(rest) => text@ == prefix@ + rest@,
            None => !prefix@.is_prefix_of(text@),
        },
{
    let chars = chars_of(text);
    let wanted = chars_of(prefix);
    if wanted.len() > chars.len() {
        return None;
    }
    let mut i: usize = 0;
    while i < wanted.len()
        invariant
            chars@ == text@,
            wanted@ == prefix@,
            i <= wanted@.len() <= chars@.len(),
            forall|j: int| 0 <= j < i ==> chars@[j] == wanted@[j],
        decreases wanted@.len() - i,
    {
        if chars[i] != wanted[i] {
            proof {
                assert(text@.subrange(0, prefix@.len() as int)[i as int] != prefix@[i as int]);
            }
            return None;
        }
        i += 1;
    }
    let rest = text.substring_char(wanted.len(), chars.len());
    proof {
        assert(text@ =~= prefix@ + rest@);
    }
    Some(rest)
}

/// Whether one text comes before another in the order of their characters.
pub open spec fn precedes(a: Seq<char>, b: Seq<char>) -> bool
    decreases a.len(),
{
    if b.len() == 0 {
        false
    } else if a.len() == 0 {
        true
    } else {
        ||| a[0] < b[0]
        ||| a[0] == b[0] && precedes(a.drop_first(), b.drop_first())
    }
}

/// Whether one text comes before another in the order of their characters.
pub fn str_precedes(a: &str, b: &str) -> (r: bool)
    ensures
        r == precedes(a@, b@),
{
    let xs = chars_of(a);
    let ys = chars_of(b);
    let mut i: usize = 0;
    proof {
        assert(xs@.skip(0) =~= xs@);
        assert(ys@.skip(0) =~= ys@);
    }
    while i < xs.len() && i < ys.len()
        invariant
            xs@ == a@,
            ys@ == b@,
            i <= xs@.len(),
            i <= ys@.len(),
            precedes(a@, b@) == precedes(xs@.skip(i as int), ys@.skip(i as int)),
        decreases xs@.len() - i,
    {
        let x: char = xs[i];
        let y: char = ys[i];
        if x != y {
            return x < y;
        }
        proof {
            assert(xs@.skip(i as int).drop_first() =~= xs@.skip(i + 1));
            assert(ys@.skip(i as int).drop_first() =~= ys@.skip(i + 1));
        }
        i += 1;
    }
    i < ys.len()
}

/// Of two texts at most one comes before the other.
pub proof fn lemma_precedes_asymmetric(a: Seq<char>, b: Seq<char>)
    requires
        precedes(a, b),
    ensures
        !precedes(b, a),
    decreases a.len(),
{
    if a.len() > 0 && b.len() > 0 && a[0] == b[0] {
        lemma_precedes_asymmetric(a.drop_first(), b.drop_first());
    }
}

/// Texts of which none comes before the next one are in order.
pub proof fn lemma_precedes_negatively_transitive(a: Seq<char>, b: Seq<char>, c: Seq<char>)
    requires
        !precedes(a, b),
        !precedes(b, c),
    ensures
        !precedes(a, c),
    decreases a.len(),
{
    if a.len() > 0 && b.len() > 0 && c.len() > 0 && a[0] == b[0] && b[0] == c[0] {
        lemma_precedes_negatively_transitive(a.drop_first(), b.drop_first(), c.drop_first());
    }
}

/// The characters of an optional text.
pub open spec fn string_chars(value: Option<String>) -> Option<Seq<char>> {
    match value {
        Some(s) => Some(s@),
        None => None,
    }
}

/// The characters of a list of texts.
pub open spec fn texts(parts: Seq<String>) -> Seq<Seq<char>> {
    parts.map_values(|s: String| s@)
}

/// A copy of a list of texts.
pub fn copy_texts(parts: &Vec<String>) -> (r: Vec<String>)
    ensures
        texts(r@) == texts(parts@),
{
    let mut r: Vec<String> = Vec::new();
    let mut i: usize = 0;
    while i < parts.len()
        invariant
            i <= parts@.len(),
            r@.len() == i,
            forall|j: int| 0 <= j < i ==> (#[trigger] r@[j])@ == parts@[j]@,
        decreases parts@.len() - i,
    {
        r.push(parts[i].clone());
        i += 1;
    }
    proof {
        assert(texts(r@) =~= texts(parts@));
    }
    r
}

/// Whether a text is in a list.
pub fn contains_text(parts: &Vec<String>, text: &str) -> (r: bool)
    ensures
        r == texts(parts@).contains(text@),
{
    let ghost all = texts(parts@);
    let mut i: usize = 0;
    while i < parts.len()
        invariant
            all == texts(parts@),
            i <= parts@.len(),
            forall|j: int| 0 <= j < i ==> #[trigger] all[j] != text@,
        decreases parts@.len() - i,
    {
        if str_eq(parts[i].as_str(), text) {
            assert(all[i as int] == text@);
            return true;
        }
        i += 1;
    }
    false
}

/// A list of texts with a separator between each two of them.
pub open spec fn joined(parts: Seq<Seq<char>>, separator: Seq<char>) -> Seq<char>
    decreases parts.len(),
{
    if parts.len() == 0 {
        Seq::empty()
    } else if parts.len() == 1 {
        parts[0]
    } else {
        joined(parts.drop_last(), separator) + separator + parts.last()
    }
}

/// A list of texts with a separator between each two of them.
pub fn join(parts: &Vec<String>, separator: &str) -> (r: String)
    ensures
        r@ == joined(texts(parts@), separator@),
{
    let mut r = String::new();
    let mut i: usize = 0;
    while i < parts.len()
        invariant
            i <= parts@.len(),
            r@ == joined(texts(parts@).take(i as int), separator@),
        decreases parts@.len() - i,
    {
        if i > 0 {
            r.append(separator);
        }
        r.append(parts[i].as_str());
        proof {
            let upto = texts(parts@).take(i + 1);
            assert(upto.drop_last() =~= texts(parts@).take(i as int));
            assert(upto.last() == parts@[i as int]@);
        }
        i += 1;
    }
    proof {
        assert(texts(parts@).take(parts@.len() as int) =~= texts(parts@));
    }
    r
}

// ---------------------------------------------------------------------------
// Decimal numbers
// ---------------------------------------------------------------------------

/// The character of a decimal digit.
pub open spec fn digit(d: nat) -> char {
    (('0' as u32) + d) as char
}

/// A number in decimal notation.
pub open spec fn decimal(n: nat) -> Seq<char>
    decreases n,
{
    if n < 10 {
        seq![digit(n)]
    } else {
        decimal(n / 10).push(digit(n % 10))
    }
}

fn digit_text(d: u64) -> (r: &'static str)
    requires
        d < 10,
    ensures
        r@ == seq![digit(d as nat)],
{
    proof {
        reveal_strlit("0");
        reveal_strlit("1");
        reveal_strlit("2");
        reveal_strlit("3");
        reveal_strlit("4");
        reveal_strlit("5");
        reveal_strlit("6");
        reveal_strlit("7");
        reveal_strlit("8");
        reveal_strlit("9");
    }
    let r = if d == 0 {
        "0"
    } else if d == 1 {
        "1"
    } else if d == 2 {
        "2"
    } else if d == 3 {
        "3"
    } else if d == 4 {
        "4"
    } else if d == 5 {
        "5"
    } else if d == 6 {
        "6"
    } else if d == 7 {
        "7"
    } else if d == 8 {
        "8"
    } else {
        "9"
    };
    proof {
        assert(r@ =~= seq![digit(d as nat)]);
    }
    r
}

/// A number in decimal notation.
pub fn number_text(n: u64) -> (r: String)
    ensures
        r@ == decimal(n as nat),
    decreases n,
{
    if n < 10 {
        digit_text(n).to_owned()
    } else {
        let mut r = number_text(n / 10);
        r.append(digit_text(n % 10));
        proof {
            assert(r@ =~= decimal(n as nat / 10).push(digit(n as nat % 10)));
        }
        r
    }
}

/// Why a text is no number.
#[derive(Debug, Clone, Copy, PartialEq, Eq, Structural)]
pub enum NumberFault {
    /// The text is empty.
    Empty,
    /// A character is no decimal digit.
    InvalidDigit,
    /// The number does not fit.
    TooLarge,
}

/// The number that digits spell, read from the left.
pub open spec fn digits_value(s: Seq<char>) -> Result<nat, NumberFault>
    decreases s.len(),
{
    if s.len() == 0 {
        Ok(0)
    } else {
        match digits_value(s.drop_last()) {
            Err(fault) => Err(fault),
            Ok(front) => {
                let u = s.last() as u32;
                if !('0' as u32 <= u <= '9' as u32) {
                    Err(NumberFault::InvalidDigit)
                } else {
                    let value = (front * 10 + (u - '0' as u32)) as nat;
                    if value > usize::MAX {
                        Err(NumberFault::TooLarge)
                    } else {
                        Ok(value)
                    }
                }
            },
        }
    }
}

/// The size that a text spells: decimal digits, with or without a plus sign in front.
pub open spec fn size_value(s: Seq<char>) -> Result<nat, NumberFault> {
    if s.len() == 0 {
        Err(NumberFault::Empty)
    } else if s[0] == '+' {
        if s.len() == 1 {
            Err(NumberFault::InvalidDigit)
        } else {
            digits_value(s.drop_first())
        }
    } else {
        digits_value(s)
    }
}

/// The size that a text spells: decimal digits, with or without a plus sign in front.
pub fn parse_size(text: &str) -> (r: Result<usize, NumberFault>)
    ensures
        match r {
            Ok(n) => size_value(text@) == Ok::<nat, NumberFault>(n as nat),
            Err(fault) => size_value(text@) == Err::<nat, NumberFault>(fault),
        },
{
    let chars = chars_of(text);
    if chars.len() == 0 {
        return Err(NumberFault::Empty);
    }
    let start: usize = if chars[0] == '+' {
        1
    } else {
        0
    };
    if start == 1 && chars.len() == 1 {
        return Err(NumberFault::InvalidDigit);
    }
    let ghost digits = text@.skip(start as int);
    proof {
        assert(text@.skip(0) =~= text@);
        assert(text@.skip(1) =~= text@.drop_first());
        assert(size_value(text@) == digits_value(digits));
    }
    let mut value: usize = 0;
    let mut i: usize = start;
    while i < chars.len()
        invariant
            chars@ == text@,
            start <= i <= chars@.len(),
            digits == text@.skip(start as int),
            size_value(text@) == digits_value(digits),
            digits_value(digits.take(i - start)) == Ok::<nat, NumberFault>(value as nat),
        decreases chars@.len() - i,
    {
        let u: u32 = chars[i] as u32;
        proof {
            assert(digits.take(i + 1 - start).drop_last() =~= digits.take(i - start));
            assert(digits.take(i + 1 - start).last() == chars@[i as int]);
        }
        if u < 48 || u > 57 {
            proof {
                lemma_digits_fault(digits, i + 1 - start);
            }
            return Err(NumberFault::InvalidDigit);
        }
        let d: usize = (u - 48) as usize;
        let next = match value.checked_mul(10) {
            Some(tens) => tens.checked_add(d),
            None => None,
        };
        match next {
            Some(n) => {
                value = n;
            },
            None => {
                proof {
                    lemma_digits_fault(digits, i + 1 - start);
                }
                return Err(NumberFault::TooLarge);
            },
        }
        i += 1;
    }
    proof {
        assert(digits.take(chars@.len() - start) =~= digits);
    }
    Ok(value)
}

/// A fault in the first characters is the fault of the whole.
proof fn lemma_digits_fault(s: Seq<char>, n: int)
    requires
        0 <= n <= s.len(),
        digits_value(s.take(n)) is Err,
    ensures
        digits_value(s) == digits_value(s.take(n)),
    decreases s.len() - n,
{
    if n == s.len() {
        assert(s.take(n) =~= s);
    } else {
        assert(s.take(n + 1).drop_last() =~= s.take(n));
        lemma_digits_fault(s, n + 1);
    }
}

/// A decimal notation consists of digits, and of one at least.
pub proof fn lemma_decimal_digits(n: nat)
    ensures
        decimal(n).len() > 0,
        forall|i: int|
            0 <= i < decimal(n).len() ==> '0' <= #[trigger] decimal(n)[i] <= '9' && '0' as u32
                <= decimal(n)[i] as u32 <= '9' as u32,
    decreases n,
{
    if n >= 10 {
        lemma_decimal_digits(n / 10);
    }
}

/// A size is read back from its decimal notation.
pub proof fn law_size_is_read_back(n: nat)
    requires
        n <= usize::MAX,
    ensures
        size_value(decimal(n)) == Ok::<nat, NumberFault>(n),
{
    lemma_decimal_digits(n);
    lemma_digits_read_back(n);
    assert('0' as u32 <= decimal(n)[0] as u32);
}

proof fn lemma_digits_read_back(n: nat)
    requires
        n <= usize::MAX,
    ensures
        digits_value(decimal(n)) == Ok::<nat, NumberFault>(n),
    decreases n,
{
    if n < 10 {
        assert(decimal(n).drop_last() =~= Seq::<char>::empty());
        assert(digits_value(Seq::<char>::empty()) == Ok::<nat, NumberFault>(0));
        assert(decimal(n).last() == digit(n));
    } else {
        lemma_digits_read_back(n / 10);
        assert(decimal(n).drop_last() =~= decimal(n / 10));
        assert(decimal(n).last() == digit(n % 10));
    }
}

proof fn lemma_trimmed_start_is_a_rest(s: Seq<char>) -> (front: int)
    ensures
        0 <= front <= s.len(),
        trimmed_start(s) == s.skip(front),
        forall|k: int| 0 <= k < front ==> white_space(#[trigger] s[k]),
    decreases s.len(),
{
    if s.len() > 0 && white_space(s[0]) {
        let rest = s.drop_first();
        let inner = lemma_trimmed_start_is_a_rest(rest);
        assert(rest.skip(inner) =~= s.skip(inner + 1));
        assert forall|k: int| 0 <= k < inner + 1 implies white_space(#[trigger] s[k]) by {
            if k > 0 {
                assert(rest[k - 1] == s[k]);
            }
        }
        inner + 1
    } else {
        assert(s.skip(0) =~= s);
        0
    }
}

proof fn lemma_trimmed_end_is_a_front(s: Seq<char>) -> (back: int)
    ensures
        0 <= back <= s.len(),
        trimmed_end(s) == s.take(back),
        forall|k: int| back <= k < s.len() ==> white_space(#[trigger] s[k]),
    decreases s.len(),
{
    if s.len() > 0 && white_space(s.last()) {
        let rest = s.drop_last();
        let back = lemma_trimmed_end_is_a_front(rest);
        assert(rest.take(back) =~= s.take(back));
        assert forall|k: int| back <= k < s.len() implies white_space(#[trigger] s[k]) by {
            if k < rest.len() {
                assert(rest[k] == s[k]);
            }
        }
        back
    } else {
        assert(s.take(s.len() as int) =~= s);
        s.len() as int
    }
}

/// What trimming takes off is white space only: the rest stands in the text in one piece.
pub proof fn law_trimming_takes_white_space_only(s: Seq<char>)
    ensures
        exists|front: int, back: int|
            #![trigger s.subrange(front, back)]
            0 <= front <= back <= s.len() && trimmed(s) == s.subrange(front, back) && (forall|
                k: int,
            |
                0 <= k < front ==> white_space(#[trigger] s[k])) && (forall|k: int|
                back <= k < s.len() ==> white_space(#[trigger] s[k])),
{
    let front = lemma_trimmed_start_is_a_rest(s);
    let rest = s.skip(front);
    let kept = lemma_trimmed_end_is_a_front(rest);
    let back = front + kept;
    assert(trimmed(s) =~= s.subrange(front, back));
    assert forall|k: int| back <= k < s.len() implies white_space(#[trigger] s[k]) by {
        assert(rest[k - front] == s[k]);
    }
}

/// The white space among the characters is the tabulator, the ends of lines and pages, and the
/// spaces.
pub proof fn law_white_space_is_known(c: char)
    ensures
        white_space(c) <==> c == '\t' || c == '\n' || c == '\u{b}' || c == '\u{c}' || c == '\r' || c
            == ' ' || c == '\u{85}' || c == '\u{a0}' || c == '\u{1680}' || ('\u{2000}' <= c
            && c <= '\u{200a}') || c == '\u{2028}' || c == '\u{2029}' || c == '\u{202f}' || c
            == '\u{205f}' || c == '\u{3000}',
{
}

/// Two texts are in the order of what is behind their common beginning: that of the first
/// characters there, or the shorter text first.
pub proof fn law_order_is_that_of_the_first_difference(
    common: Seq<char>,
    a: Seq<char>,
    b: Seq<char>,
)
    ensures
        precedes(common + a, common + b) == precedes(a, b),
        a.len() > 0 && b.len() > 0 && a[0] != b[0] ==> (precedes(a, b) <==> a[0] < b[0]),
        a.len() == 0 ==> (precedes(a, b) <==> b.len() > 0),
        b.len() == 0 ==> !precedes(a, b),
    decreases common.len(),
{
    if common.len() == 0 {
        assert(common + a =~= a);
        assert(common + b =~= b);
    } else {
        law_order_is_that_of_the_first_difference(common.drop_first(), a, b);
        assert((common + a).drop_first() =~= common.drop_first() + a);
        assert((common + b).drop_first() =~= common.drop_first() + b);
    }
}

/// A text that is joined to others stands behind them, with the separator in between.
pub proof fn law_parts_are_joined_in_order(
    parts: Seq<Seq<char>>,
    part: Seq<char>,
    separator: Seq<char>,
)
    ensures
        joined(Seq::empty(), separator).len() == 0,
        parts.len() == 0 ==> joined(parts.push(part), separator) == part,
        parts.len() > 0 ==> joined(parts.push(part), separator) == joined(parts, separator)
            + separator + part,
{
    assert(parts.push(part).drop_last() =~= parts);
}

/// The characters of a list of texts are those of each text in its place.
pub proof fn law_texts_keep_their_places(parts: Seq<String>, i: int, value: String)
    ensures
        texts(parts).len() == parts.len(),
        0 <= i < parts.len() ==> texts(parts)[i] == parts[i]@,
        string_chars(Some(value)) == Some(value@),
        string_chars(None) is None,
{
}

/// A number in decimal notation ends in its last digit, behind the number without that digit.
pub proof fn law_decimal_ends_in_the_last_digit(n: nat, d: nat)
    requires
        d < 10,
    ensures
        digit(d) == "0123456789"@[d as int],
        decimal(d) == seq!["0123456789"@[d as int]],
        n > 0 ==> decimal(n * 10 + d) == decimal(n).push("0123456789"@[d as int]),
{
    reveal_strlit("0123456789");
    assert(digit(d) == "0123456789"@[d as int]);
    assert((n * 10 + d) / 10 == n);
    assert((n * 10 + d) % 10 == d);
}

/// A size is read digit by digit from the left, and the first fault decides. A plus sign in front
/// of it does not count.
pub proof fn law_size_is_read_from_the_left(s: Seq<char>, c: char)
    ensures
        size_value(Seq::empty()) == Err::<nat, NumberFault>(NumberFault::Empty),
        '0' <= c && c <= '9' ==> size_value(seq![c]) == Ok::<nat, NumberFault>(
            (c as u32 - '0' as u32) as nat,
        ),
        !('0' <= c && c <= '9') ==> size_value(seq![c]) == Err::<nat, NumberFault>(
            NumberFault::InvalidDigit,
        ),
        s.len() > 0 && s[0] != '+' ==> size_value(seq!['+'] + s) == size_value(s),
        size_value(seq!['+', '+']) == Err::<nat, NumberFault>(NumberFault::InvalidDigit),
        s.len() > 0 && s != seq!['+'] ==> match size_value(s) {
            Err(fault) => size_value(s.push(c)) == Err::<nat, NumberFault>(fault),
            Ok(n) => {
                let more = (n * 10 + (c as u32 - '0' as u32)) as nat;
                size_value(s.push(c)) == if !('0' <= c && c <= '9') {
                    Err::<nat, NumberFault>(NumberFault::InvalidDigit)
                } else if more > usize::MAX {
                    Err(NumberFault::TooLarge)
                } else {
                    Ok(more)
                }
            },
        },
{
    let one = seq![c];
    let plus = seq!['+'];
    assert(seq!['+', '+'].drop_first() =~= plus);
    assert(plus.drop_last() =~= Seq::empty());
    assert(digits_value(plus.drop_last()) == Ok::<nat, NumberFault>(0));
    assert(one.drop_last() =~= Seq::empty());
    assert(digits_value(one.drop_last()) == Ok::<nat, NumberFault>(0));
    if s.len() > 0 {
        assert((seq!['+'] + s).drop_first() =~= s);
        assert(s.push(c).drop_last() =~= s);
        if s[0] == '+' && s != seq!['+'] {
            assert(s.len() > 1) by {
                if s.len() == 1 {
                    assert(s =~= seq!['+']);
                }
            }
            let rest = s.drop_first();
            assert(s.push(c).drop_first() =~= rest.push(c));
            assert(rest.push(c).drop_last() =~= rest);
        }
    }
}

} // verus!
