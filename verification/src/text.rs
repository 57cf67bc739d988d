//! Text as sequences of characters: trimming, splitting, numbers and order.

use vstd::prelude::*;
use vstd::slice::slice_subrange;

verus! {

/// Appends one character, as `String::push` documents it.
pub assume_specification[ String::push ](text: &mut String, c: char)
    ensures
        final(text)@ == old(text)@.push(c),
;

/// The lower-case form of a text under Unicode's full case mapping.
pub uninterp spec fn lowercase(text: Seq<char>) -> Seq<char>;

/// Calls `str::to_lowercase`, whose result depends on the text alone.
#[verifier::external_body]
pub(crate) fn to_lowercase(text: &str) -> (lower: String)
    ensures
        lower@ == lowercase(text@),
{
    text.to_lowercase()
}

/// The characters with Unicode's `White_Space` property.
pub open spec fn is_space(c: char) -> bool {
    let n = c as u32;
    ||| 0x09 <= n <= 0x0d
    ||| n == 0x20
    ||| n == 0x85
    ||| n == 0xa0
    ||| n == 0x1680
    ||| 0x2000 <= n <= 0x200a
    ||| n == 0x2028
    ||| n == 0x2029
    ||| n == 0x202f
    ||| n == 0x205f
    ||| n == 0x3000
}

/// A set of characters that can be stripped off the ends of a text.
#[derive(Clone, Copy)]
pub enum CharClass {
    /// White space.
    Space,
    /// One given character.
    Only(char),
}

impl CharClass {
    pub open spec fn contains(self, c: char) -> bool {
        match self {
            CharClass::Space => is_space(c),
            CharClass::Only(only) => c == only,
        }
    }

    pub fn has(self, c: char) -> (found: bool)
        ensures
            found == self.contains(c),
    {
        match self {
            CharClass::Space => {
                let n: u32 = c as u32;
                (0x09 <= n && n <= 0x0d) || n == 0x20 || n == 0x85 || n == 0xa0 || n == 0x1680 || (
                0x2000 <= n && n <= 0x200a) || n == 0x2028 || n == 0x2029 || n == 0x202f || n
                    == 0x205f || n == 0x3000
            },
            CharClass::Only(only) => c == only,
        }
    }
}

/// `text` without its leading characters of `class`.
pub open spec fn strip_start(text: Seq<char>, class: CharClass) -> Seq<char>
    decreases text.len(),
{
    if text.len() > 0 && class.contains(text[0]) {
        strip_start(text.drop_first(), class)
    } else {
        text
    }
}

/// `text` without its trailing characters of `class`.
pub open spec fn strip_end(text: Seq<char>, class: CharClass) -> Seq<char>
    decreases text.len(),
{
    if text.len() > 0 && class.contains(text.last()) {
        strip_end(text.drop_last(), class)
    } else {
        text
    }
}

/// `text` without the characters of `class` at either end.
pub open spec fn strip(text: Seq<char>, class: CharClass) -> Seq<char> {
    strip_end(strip_start(text, class), class)
}

/// `text` without white space at either end.
pub open spec fn trim(text: Seq<char>) -> Seq<char> {
    strip(text, CharClass::Space)
}

pub fn stripped_start(text: &[char], class: CharClass) -> (rest: &[char])
    ensures
        rest@ == strip_start(text@, class),
{
    let mut i: usize = 0;
    assert(text@.skip(0) =~= text@);
    while i < text.len() && class.has(text[i])
        invariant
            i <= text@.len(),
            strip_start(text@, class) == strip_start(text@.skip(i as int), class),
        decreases text@.len() - i,
    {
        assert(text@.skip(i as int).drop_first() =~= text@.skip(i + 1));
        i = i + 1;
    }
    assert(text@.skip(i as int) =~= text@.subrange(i as int, text@.len() as int));
    slice_subrange(text, i, text.len())
}

pub fn stripped_end(text: &[char], class: CharClass) -> (rest: &[char])
    ensures
        rest@ == strip_end(text@, class),
{
    let mut n: usize = text.len();
    assert(text@.take(n as int) =~= text@);
    while n > 0 && class.has(text[n - 1])
        invariant
            n <= text@.len(),
            strip_end(text@, class) == strip_end(text@.take(n as int), class),
        decreases n,
    {
        assert(text@.take(n as int).drop_last() =~= text@.take(n - 1));
        n = n - 1;
    }
    assert(text@.take(n as int) =~= text@.subrange(0, n as int));
    slice_subrange(text, 0, n)
}

pub fn stripped(text: &[char], class: CharClass) -> (rest: &[char])
    ensures
        rest@ == strip(text@, class),
{
    stripped_end(stripped_start(text, class), class)
}

pub fn trimmed(text: &[char]) -> (rest: &[char])
    ensures
        rest@ == trim(text@),
{
    stripped(text, CharClass::Space)
}

/// How many characters stand before the first `sep`; all of them if there is none.
pub open spec fn prefix_len(text: Seq<char>, sep: char) -> nat
    decreases text.len(),
{
    if text.len() == 0 || text[0] == sep {
        0
    } else {
        1 + prefix_len(text.drop_first(), sep)
    }
}

/// Whether and where a text is cut in two at its first `sep`.
pub open spec fn cut(text: Seq<char>, sep: char) -> Option<(Seq<char>, Seq<char>)> {
    let n = prefix_len(text, sep) as int;
    if n < text.len() {
        Some((text.take(n), text.skip(n + 1)))
    } else {
        None
    }
}

pub fn first_position(text: &[char], sep: char) -> (n: usize)
    ensures
        n == prefix_len(text@, sep),
        n <= text@.len(),
{
    let mut i: usize = 0;
    assert(text@.skip(0) =~= text@);
    while i < text.len() && text[i] != sep
        invariant
            i <= text@.len(),
            prefix_len(text@, sep) == i + prefix_len(text@.skip(i as int), sep),
        decreases text@.len() - i,
    {
        assert(text@.skip(i as int).drop_first() =~= text@.skip(i + 1));
        i = i + 1;
    }
    i
}

/// The pieces of a text between the separators: always one more than there are separators.
pub open spec fn split(text: Seq<char>, sep: char) -> Seq<Seq<char>>
    decreases text.len(),
{
    let n = prefix_len(text, sep) as int;
    if n < text.len() {
        seq![text.take(n)] + split(text.skip(n + 1), sep)
    } else {
        seq![text]
    }
}

/// The character sequences that a list of slices holds.
pub open spec fn texts(pieces: Seq<&[char]>) -> Seq<Seq<char>> {
    Seq::new(pieces.len(), |i: int| pieces[i]@)
}

pub fn pieces<'a>(text: &'a [char], sep: char) -> (parts: Vec<&'a [char]>)
    ensures
        texts(parts@) == split(text@, sep),
{
    let mut parts: Vec<&'a [char]> = Vec::new();
    let mut rest: &'a [char] = text;
    assert(texts(parts@) =~= Seq::<Seq<char>>::empty());
    assert(texts(parts@) + split(rest@, sep) =~= split(text@, sep));
    loop
        invariant_except_break
            texts(parts@) + split(rest@, sep) == split(text@, sep),
        ensures
            texts(parts@) == split(text@, sep),
        decreases rest@.len(),
    {
        let n: usize = first_position(rest, sep);
        let ghost before = parts@;
        if n < rest.len() {
            let ghost whole = rest@;
            let head: &'a [char] = slice_subrange(rest, 0, n);
            parts.push(head);
            rest = slice_subrange(rest, n + 1, rest.len());
            assert(whole.take(n as int) =~= head@);
            assert(whole.skip(n + 1) =~= rest@);
            assert(texts(parts@) =~= texts(before).push(head@));
            assert(texts(before) + (seq![head@] + split(rest@, sep)) =~= texts(parts@) + split(
                rest@,
                sep,
            ));
        } else {
            parts.push(rest);
            assert(texts(parts@) =~= texts(before) + seq![rest@]);
            break ;
        }
    }
    parts
}

/// The characters of a text.
pub fn characters(text: &str) -> (chars: Vec<char>)
    ensures
        chars@ == text@,
{
    let mut chars: Vec<char> = Vec::new();
    for c in iter: text.chars()
        invariant
            iter.seq() == text@,
            chars@ == text@.take(iter.index() as int),
    {
        assert(text@.take(iter.index() as int).push(c) =~= text@.take(iter.index() + 1));
        chars.push(c);
    }
    assert(text@.take(text@.len() as int) =~= text@);
    chars
}

/// The text that the characters spell.
pub fn spelled(chars: &[char]) -> (text: String)
    ensures
        text@ == chars@,
{
    let mut text: String = String::new();
    let mut i: usize = 0;
    while i < chars.len()
        invariant
            i <= chars@.len(),
            text@ == chars@.take(i as int),
        decreases chars@.len() - i,
    {
        assert(chars@.take(i as int).push(chars@[i as int]) =~= chars@.take(i + 1));
        text.push(chars[i]);
        i = i + 1;
    }
    assert(chars@.take(i as int) =~= chars@);
    text
}

/// Whether the characters are those of `other`.
pub fn is_text(chars: &[char], other: &str) -> (same: bool)
    ensures
        same == (chars@ == other@),
{
    let wanted: Vec<char> = characters(other);
    if chars.len() != wanted.len() {
        return false;
    }
    let mut i: usize = 0;
    while i < chars.len()
        invariant
            i <= chars@.len(),
            wanted@ == other@,
            chars@.len() == wanted@.len(),
            forall|j: int| 0 <= j < i ==> chars@[j] == other@[j],
        decreases chars@.len() - i,
    {
        if chars[i] != wanted[i] {
            return false;
        }
        i = i + 1;
    }
    assert(chars@ =~= other@);
    true
}

/// `needle` stands in `text` at position `at`.
pub open spec fn stands_at(text: Seq<char>, needle: Seq<char>, at: int) -> bool {
    0 <= at <= text.len() - needle.len() && text.subrange(at, at + needle.len()) == needle
}

/// `needle` stands somewhere in `text`.
pub open spec fn holds(text: Seq<char>, needle: Seq<char>) -> bool {
    exists|at: int| stands_at(text, needle, at)
}

pub fn holds_text(chars: &[char], needle: &str) -> (found: bool)
    ensures
        found == holds(chars@, needle@),
{
    let n: usize = characters(needle).len();
    if n > chars.len() {
        assert forall|at: int| !stands_at(chars@, needle@, at) by {}
        return false;
    }
    let mut at: usize = 0;
    while at <= chars.len() - n
        invariant
            n == needle@.len(),
            n <= chars@.len(),
            at <= chars@.len() - n + 1,
            forall|i: int| 0 <= i < at ==> !stands_at(chars@, needle@, i),
        decreases chars@.len() - at,
    {
        if is_text(slice_subrange(chars, at, at + n), needle) {
            assert(stands_at(chars@, needle@, at as int));
            return true;
        }
        if at == chars.len() - n {
            assert forall|i: int| !stands_at(chars@, needle@, i) by {}
            return false;
        }
        at = at + 1;
    }
    assert forall|i: int| !stands_at(chars@, needle@, i) by {}
    false
}

/// The character for a decimal digit.
pub open spec fn digit_char(digit: nat) -> char {
    (48 + digit) as char
}

/// A number in decimal notation, without leading zeros.
pub open spec fn decimal(n: nat) -> Seq<char>
    decreases n,
{
    if n < 10 {
        seq![digit_char(n)]
    } else {
        decimal(n / 10).push(digit_char(n % 10))
    }
}

/// Writes a number in decimal notation behind `out`.
pub fn push_decimal(out: &mut String, n: u64)
    ensures
        final(out)@ == old(out)@ + decimal(n as nat),
    decreases n,
{
    if n >= 10 {
        push_decimal(out, n / 10);
    }
    let digit: u8 = (n % 10) as u8;
    out.push((48 + digit) as char);
    assert(old(out)@ + decimal(n as nat) =~= out@);
}

/// The value of a decimal digit.
pub open spec fn digit_value(c: char) -> Option<nat> {
    if '0' <= c && c <= '9' {
        Some((c as u32 - 48) as nat)
    } else {
        None
    }
}

/// Every character is a decimal digit.
pub open spec fn all_digits(text: Seq<char>) -> bool {
    forall|i: int| 0 <= i < text.len() ==> digit_value(#[trigger] text[i]) is Some
}

/// The number that a row of decimal digits stands for.
pub open spec fn digits_value(text: Seq<char>) -> nat
    decreases text.len(),
{
    if text.len() == 0 {
        0
    } else {
        10 * digits_value(text.drop_last()) + digit_value(text.last())->0
    }
}

/// The `u64` that a text stands for: digits, with at most one `+` before them.
pub open spec fn number(text: Seq<char>) -> Option<u64> {
    let digits = if text.len() > 0 && text[0] == '+' {
        text.drop_first()
    } else {
        text
    };
    if digits.len() > 0 && all_digits(digits) && digits_value(digits) <= u64::MAX {
        Some(digits_value(digits) as u64)
    } else {
        None
    }
}

/// More digits stand for a number that is no smaller.
proof fn lemma_digits_value_grows(text: Seq<char>, n: int)
    requires
        0 <= n <= text.len(),
    ensures
        digits_value(text.take(n)) <= digits_value(text),
    decreases text.len(),
{
    if n < text.len() {
        lemma_digits_value_grows(text.drop_last(), n);
        assert(text.drop_last().take(n) =~= text.take(n));
    } else {
        assert(text.take(n) =~= text);
    }
}

pub fn parsed_number(text: &[char]) -> (value: Option<u64>)
    ensures
        value == number(text@),
{
    let digits: &[char] = if text.len() > 0 && text[0] == '+' {
        assert(text@.drop_first() =~= text@.subrange(1, text@.len() as int));
        slice_subrange(text, 1, text.len())
    } else {
        text
    };
    if digits.len() == 0 {
        return None;
    }
    let mut value: u64 = 0;
    let mut i: usize = 0;
    while i < digits.len()
        invariant
            i <= digits@.len(),
            all_digits(digits@.take(i as int)),
            value == digits_value(digits@.take(i as int)),
            digits@.len() > 0,
            digits@ == (if text@.len() > 0 && text@[0] == '+' {
                text@.drop_first()
            } else {
                text@
            }),
        decreases digits@.len() - i,
    {
        let c: char = digits[i];
        let ghost more = digits@.take(i + 1);
        assert(more.drop_last() =~= digits@.take(i as int));
        if c < '0' || c > '9' {
            assert(digit_value(digits@[i as int]) is None);
            return None;
        }
        let digit: u64 = (c as u32 - 48) as u64;
        proof {
            lemma_digits_value_grows(digits@, i + 1);
            assert forall|j: int| 0 <= j < more.len() implies digit_value(
                #[trigger] more[j],
            ) is Some by {
                if j < i {
                    assert(more[j] == digits@.take(i as int)[j]);
                }
            }
        }
        if value > (u64::MAX - digit) / 10 {
            return None;
        }
        value = value * 10 + digit;
        i = i + 1;
    }
    assert(digits@.take(i as int) =~= digits@);
    Some(value)
}

/// How many bytes a character takes in UTF-8.
pub open spec fn char_bytes(c: char) -> nat {
    let n = c as u32;
    if n < 0x80 {
        1
    } else if n < 0x800 {
        2
    } else if n < 0x10000 {
        3
    } else {
        4
    }
}

/// How many bytes a text takes in UTF-8.
pub open spec fn text_bytes(text: Seq<char>) -> nat
    decreases text.len(),
{
    if text.len() == 0 {
        0
    } else {
        char_bytes(text[0]) + text_bytes(text.drop_first())
    }
}

pub fn byte_width(c: char) -> (bytes: u8)
    ensures
        bytes == char_bytes(c),
{
    let n: u32 = c as u32;
    if n < 0x80 {
        1
    } else if n < 0x800 {
        2
    } else if n < 0x10000 {
        3
    } else {
        4
    }
}

/// Whether a text takes exactly `wanted` bytes in UTF-8.
pub fn takes_bytes(text: &[char], wanted: usize) -> (exact: bool)
    ensures
        exact == (text_bytes(text@) == wanted),
{
    let mut left: usize = wanted;
    let mut i: usize = 0;
    assert(text@.skip(0) =~= text@);
    while i < text.len()
        invariant
            i <= text@.len(),
            left <= wanted,
            text_bytes(text@) == wanted - left + text_bytes(text@.skip(i as int)),
        decreases text@.len() - i,
    {
        let bytes: usize = byte_width(text[i]) as usize;
        assert(text@.skip(i as int).drop_first() =~= text@.skip(i + 1));
        if bytes > left {
            return false;
        }
        left = left - bytes;
        i = i + 1;
    }
    left == 0
}

/// The order of texts, character by character; a text comes behind its own prefixes.
pub open spec fn comes_before(a: Seq<char>, b: Seq<char>) -> bool
    decreases a.len(),
{
    if b.len() == 0 {
        false
    } else if a.len() == 0 {
        true
    } else if a[0] != b[0] {
        a[0] < b[0]
    } else {
        comes_before(a.drop_first(), b.drop_first())
    }
}

/// No text comes before itself.
pub proof fn order_is_irreflexive(a: Seq<char>)
    ensures
        !comes_before(a, a),
    decreases a.len(),
{
    if a.len() > 0 {
        order_is_irreflexive(a.drop_first());
    }
}

/// What comes before a text also comes before every text behind it.
pub proof fn order_is_transitive(a: Seq<char>, b: Seq<char>, c: Seq<char>)
    requires
        comes_before(a, b),
        comes_before(b, c),
    ensures
        comes_before(a, c),
    decreases a.len(),
{
    if a.len() > 0 && a[0] == b[0] && b[0] == c[0] {
        order_is_transitive(a.drop_first(), b.drop_first(), c.drop_first());
    }
}

/// Of two different texts one comes before the other.
pub proof fn order_is_total(a: Seq<char>, b: Seq<char>)
    ensures
        a == b || comes_before(a, b) || comes_before(b, a),
    decreases a.len(),
{
    if a.len() > 0 && b.len() > 0 && a[0] == b[0] {
        order_is_total(a.drop_first(), b.drop_first());
        if a.drop_first() == b.drop_first() {
            assert(a =~= seq![a[0]] + a.drop_first());
            assert(b =~= seq![b[0]] + b.drop_first());
        }
    } else if a.len() == 0 && b.len() == 0 {
        assert(a =~= b);
    }
}

/// How one text stands to another in the order of texts.
#[derive(Clone, Copy, PartialEq, Eq, Structural)]
pub enum Standing {
    Before,
    Same,
    Behind,
}

/// How `a` stands to `b`.
pub open spec fn standing_of(a: Seq<char>, b: Seq<char>) -> Standing {
    if a == b {
        Standing::Same
    } else if comes_before(a, b) {
        Standing::Before
    } else {
        Standing::Behind
    }
}

pub fn standing(a: &[char], b: &[char]) -> (s: Standing)
    ensures
        s == standing_of(a@, b@),
{
    let mut i: usize = 0;
    assert(a@.skip(0) =~= a@);
    assert(b@.skip(0) =~= b@);
    while i < a.len() && i < b.len()
        invariant
            i <= a@.len(),
            i <= b@.len(),
            forall|j: int| 0 <= j < i ==> a@[j] == b@[j],
            comes_before(a@, b@) == comes_before(a@.skip(i as int), b@.skip(i as int)),
        decreases a@.len() - i,
    {
        assert(a@.skip(i as int).drop_first() =~= a@.skip(i + 1));
        assert(b@.skip(i as int).drop_first() =~= b@.skip(i + 1));
        if a[i] != b[i] {
            if a[i] < b[i] {
                return Standing::Before;
            }
            return Standing::Behind;
        }
        i = i + 1;
    }
    if i < b.len() {
        Standing::Before
    } else if i < a.len() {
        Standing::Behind
    } else {
        assert(a@ =~= b@);
        Standing::Same
    }
}

/// An ASCII capital letter's small letter; any other character is its own.
pub open spec fn ascii_lower(c: char) -> char {
    if 'A' <= c && c <= 'Z' {
        (c as u32 + 32) as char
    } else {
        c
    }
}

/// Two texts that differ at most in the case of ASCII letters.
pub open spec fn same_ignoring_ascii_case(a: Seq<char>, b: Seq<char>) -> bool {
    a.len() == b.len() && forall|i: int|
        0 <= i < a.len() ==> ascii_lower(#[trigger] a[i]) == ascii_lower(b[i])
}

pub fn lower_ascii(c: char) -> (lower: char)
    ensures
        lower == ascii_lower(c),
{
    if 'A' <= c && c <= 'Z' {
        ((c as u8) + 32) as char
    } else {
        c
    }
}

pub fn equal_ignoring_ascii_case(a: &str, b: &str) -> (same: bool)
    ensures
        same == same_ignoring_ascii_case(a@, b@),
{
    let left: Vec<char> = characters(a);
    let right: Vec<char> = characters(b);
    if left.len() != right.len() {
        return false;
    }
    let mut i: usize = 0;
    while i < left.len()
        invariant
            i <= left@.len(),
            left@ == a@,
            right@ == b@,
            left@.len() == right@.len(),
            forall|j: int| 0 <= j < i ==> ascii_lower(#[trigger] a@[j]) == ascii_lower(b@[j]),
        decreases left@.len() - i,
    {
        if lower_ascii(left[i]) != lower_ascii(right[i]) {
            assert(ascii_lower(a@[i as int]) != ascii_lower(b@[i as int]));
            return false;
        }
        i = i + 1;
    }
    true
}

/// Reading a number back from its decimal notation gives the number.
pub proof fn decimal_reads_back(n: u64)
    ensures
        number(decimal(n as nat)) == Some(n),
{
    lemma_decimal(n as nat);
    assert(decimal(n as nat)[0] != '+');
}

/// What decimal notation consists of and stands for.
pub proof fn lemma_decimal(n: nat)
    ensures
        decimal(n).len() > 0,
        all_digits(decimal(n)),
        digits_value(decimal(n)) == n,
        decimal(n)[0] != '+',
    decreases n,
{
    let last = digit_char(n % 10);
    assert(digit_value(last) == Some(n % 10));
    if n < 10 {
        assert(decimal(n).drop_last() =~= Seq::<char>::empty());
        assert(digits_value(decimal(n)) == 10 * digits_value(decimal(n).drop_last()) + n);
    } else {
        lemma_decimal(n / 10);
        assert(decimal(n).drop_last() =~= decimal(n / 10));
        assert forall|i: int| 0 <= i < decimal(n).len() implies digit_value(
            #[trigger] decimal(n)[i],
        ) is Some by {
            if i < decimal(n / 10).len() {
                assert(decimal(n)[i] == decimal(n / 10)[i]);
            }
        }
    }
}

/// Stripping one end of a text and then the other gives the same in either order.
proof fn lemma_strip_order(text: Seq<char>, class: CharClass)
    ensures
        strip_start(strip_end(text, class), class) == strip_end(strip_start(text, class), class),
    decreases text.len(),
{
    if text.len() > 0 {
        let front = class.contains(text[0]);
        let back = class.contains(text.last());
        if back {
            lemma_strip_order(text.drop_last(), class);
            if front {
                if text.len() == 1 {
                    assert(text.drop_last() =~= text.drop_first());
                } else {
                    lemma_strip_start_of_shorter(text, class);
                }
            }
        } else if front {
            let rest = text.drop_first();
            if rest.len() > 0 {
                assert(rest.last() == text.last());
                lemma_strip_order(rest, class);
                assert(strip_end(rest, class) == rest);
            }
            lemma_strip_start_keeps_the_end(text, class);
        }
    }
}

/// What is left of a text that ends in something else still ends in it.
proof fn lemma_strip_start_keeps_the_end(text: Seq<char>, class: CharClass)
    requires
        text.len() > 0,
        !class.contains(text.last()),
    ensures
        strip_start(text, class).len() > 0,
        strip_start(text, class).last() == text.last(),
    decreases text.len(),
{
    if class.contains(text[0]) {
        assert(text.len() > 1);
        assert(text.drop_first().last() == text.last());
        lemma_strip_start_keeps_the_end(text.drop_first(), class);
    }
}

/// Stripping the end of what is left of a text is stripping what is left of a shorter one.
proof fn lemma_strip_start_of_shorter(text: Seq<char>, class: CharClass)
    requires
        text.len() > 0,
        class.contains(text.last()),
    ensures
        strip_end(strip_start(text, class), class) == strip_end(
            strip_start(text.drop_last(), class),
            class,
        ),
    decreases text.len(),
{
    let shorter = text.drop_last();
    if class.contains(text[0]) {
        if text.len() == 1 {
            assert(text.drop_first() =~= shorter);
        } else {
            assert(text.drop_first().last() == text.last());
            lemma_strip_start_of_shorter(text.drop_first(), class);
            assert(text.drop_first().drop_last() =~= shorter.drop_first());
        }
    } else {
        assert(text.len() > 1);
        assert(shorter[0] == text[0]);
    }
}

/// White space at the end of a text makes no difference to what is left when it is trimmed.
pub proof fn trim_ignores_space_at_the_end(text: Seq<char>)
    ensures
        trim(strip_end(text, CharClass::Space)) == trim(text),
{
    lemma_strip_order(text, CharClass::Space);
    lemma_strip_end_twice(strip_start(text, CharClass::Space), CharClass::Space);
}

proof fn lemma_strip_end_twice(text: Seq<char>, class: CharClass)
    ensures
        strip_end(strip_end(text, class), class) == strip_end(text, class),
    decreases text.len(),
{
    if text.len() > 0 && class.contains(text.last()) {
        lemma_strip_end_twice(text.drop_last(), class);
    }
}

/// The characters before something that is not stripped are not stripped either.
pub proof fn lemma_strip_end_behind(head: Seq<char>, tail: Seq<char>, class: CharClass)
    requires
        head.len() > 0,
        !class.contains(head.last()),
    ensures
        strip_end(head + tail, class) == head + strip_end(tail, class),
    decreases tail.len(),
{
    let whole = head + tail;
    if tail.len() == 0 {
        assert(whole =~= head);
        assert(head + tail =~= head + strip_end(tail, class));
    } else {
        assert(whole.last() == tail.last());
        if class.contains(tail.last()) {
            assert(whole.drop_last() =~= head + tail.drop_last());
            lemma_strip_end_behind(head, tail.drop_last(), class);
        }
    }
}

/// The first separator of a text stands behind characters that are none.
pub proof fn lemma_prefix_of_joined(head: Seq<char>, sep: char, tail: Seq<char>)
    requires
        !head.contains(sep),
    ensures
        prefix_len(head + seq![sep] + tail, sep) == head.len(),
    decreases head.len(),
{
    let whole = head + seq![sep] + tail;
    if head.len() > 0 {
        assert(head[0] == whole[0]);
        assert(head.contains(head[0]));
        let rest = head.drop_first();
        assert forall|i: int| 0 <= i < rest.len() implies rest[i] != sep by {
            assert(head[i + 1] == rest[i]);
            assert(head.contains(head[i + 1]));
        }
        lemma_prefix_of_joined(rest, sep, tail);
        assert(whole.drop_first() =~= rest + seq![sep] + tail);
    } else {
        assert(whole[0] == sep);
    }
}

/// What stands before something that is not stripped is stripped, if all of it is of the class.
pub proof fn lemma_strip_start_before(head: Seq<char>, tail: Seq<char>, class: CharClass)
    requires
        forall|i: int| 0 <= i < head.len() ==> class.contains(#[trigger] head[i]),
        tail.len() == 0 || !class.contains(tail[0]),
    ensures
        strip_start(head + tail, class) == tail,
    decreases head.len(),
{
    let whole = head + tail;
    if head.len() > 0 {
        assert(whole[0] == head[0]);
        let rest = head.drop_first();
        assert forall|i: int| 0 <= i < rest.len() implies class.contains(#[trigger] rest[i]) by {
            assert(rest[i] == head[i + 1]);
        }
        assert(whole.drop_first() =~= rest + tail);
        lemma_strip_start_before(rest, tail, class);
    } else {
        assert(whole =~= tail);
    }
}

/// What stands behind something that is not stripped is stripped, if all of it is of the class.
pub proof fn lemma_strip_end_after(head: Seq<char>, tail: Seq<char>, class: CharClass)
    requires
        forall|i: int| 0 <= i < tail.len() ==> class.contains(#[trigger] tail[i]),
        head.len() == 0 || !class.contains(head.last()),
    ensures
        strip_end(head + tail, class) == head,
    decreases tail.len(),
{
    let whole = head + tail;
    if tail.len() > 0 {
        assert(whole.last() == tail.last());
        assert(class.contains(tail[tail.len() - 1]));
        let rest = tail.drop_last();
        assert forall|i: int| 0 <= i < rest.len() implies class.contains(#[trigger] rest[i]) by {
            assert(rest[i] == tail[i]);
        }
        assert(whole.drop_last() =~= head + rest);
        lemma_strip_end_after(head, rest, class);
    } else {
        assert(whole =~= head);
    }
}

/// Stripping takes off all characters of a class around a text, and nothing of the text itself,
/// be they before it, behind it or on both sides.
pub proof fn stripping_leaves_the_text(
    before: Seq<char>,
    text: Seq<char>,
    behind: Seq<char>,
    class: CharClass,
)
    requires
        forall|i: int| 0 <= i < before.len() ==> class.contains(#[trigger] before[i]),
        forall|i: int| 0 <= i < behind.len() ==> class.contains(#[trigger] behind[i]),
        text.len() == 0 || !class.contains(text[0]) && !class.contains(text.last()),
    ensures
        text.len() > 0 ==> strip_start(before + text + behind, class) == text + behind,
        text.len() > 0 ==> strip_end(before + text + behind, class) == before + text,
        strip(before + text + behind, class) == text,
{
    let whole = before + text + behind;
    assert(whole =~= before + (text + behind));
    if text.len() > 0 {
        assert((text + behind)[0] == text[0]);
        assert((before + text).last() == text.last());
        lemma_strip_start_before(before, text + behind, class);
        lemma_strip_end_after(before + text, behind, class);
    } else {
        assert forall|i: int| 0 <= i < whole.len() implies class.contains(#[trigger] whole[i]) by {
            if i < before.len() {
                assert(whole[i] == before[i]);
            } else {
                assert(whole[i] == behind[i - before.len()]);
            }
        }
        lemma_strip_start_before(whole, text, class);
        assert(whole + text =~= whole);
    }
    lemma_strip_end_after(text, behind, class);
    if text.len() == 0 {
        assert(strip_start(whole, class) == text);
        assert(text + Seq::<char>::empty() =~= text);
        lemma_strip_end_after(text, Seq::empty(), class);
    }
}

/// Trimming takes off the white space around a text, and nothing of the text itself.
pub proof fn trimming_leaves_the_text(before: Seq<char>, text: Seq<char>, behind: Seq<char>)
    requires
        forall|i: int| 0 <= i < before.len() ==> is_space(#[trigger] before[i]),
        forall|i: int| 0 <= i < behind.len() ==> is_space(#[trigger] behind[i]),
        text.len() == 0 || !is_space(text[0]) && !is_space(text.last()),
    ensures
        trim(before + text + behind) == text,
{
    assert forall|i: int| 0 <= i < before.len() implies CharClass::Space.contains(
        #[trigger] before[i],
    ) by {}
    assert forall|i: int| 0 <= i < behind.len() implies CharClass::Space.contains(
        #[trigger] behind[i],
    ) by {}
    stripping_leaves_the_text(before, text, behind, CharClass::Space);
}

proof fn lemma_no_separator(text: Seq<char>, sep: char)
    requires
        !text.contains(sep),
    ensures
        prefix_len(text, sep) == text.len(),
    decreases text.len(),
{
    if text.len() > 0 {
        assert(text.contains(text[0]));
        let rest = text.drop_first();
        assert forall|i: int| 0 <= i < rest.len() implies rest[i] != sep by {
            assert(text[i + 1] == rest[i]);
            assert(text.contains(text[i + 1]));
        }
        lemma_no_separator(rest, sep);
    }
}

/// Splitting undoes joining: the first piece of a text is what stands before its first
/// separator, and the others are the pieces of what stands behind it. A text without separators
/// is its only piece.
pub proof fn splitting_undoes_joining(head: Seq<char>, sep: char, tail: Seq<char>)
    requires
        !head.contains(sep),
    ensures
        split(head + seq![sep] + tail, sep) == seq![head] + split(tail, sep),
        split(head, sep) == seq![head],
{
    lemma_prefix_of_joined(head, sep, tail);
    let whole = head + seq![sep] + tail;
    assert(whole.take(head.len() as int) =~= head);
    assert(whole.skip(head.len() as int + 1) =~= tail);
    lemma_no_separator(head, sep);
}

/// The pieces of two texts with a separator between them are those of the first and then those of
/// the second.
pub proof fn splitting_goes_text_by_text(head: Seq<char>, sep: char, tail: Seq<char>)
    ensures
        split(head + seq![sep] + tail, sep) == split(head, sep) + split(tail, sep),
    decreases head.len(),
{
    let whole = head + seq![sep] + tail;
    if head.contains(sep) {
        let n = prefix_len(head, sep) as int;
        lemma_first_separator(head, sep);
        let first = head.take(n);
        let rest = head.skip(n + 1);
        assert(head =~= first + seq![sep] + rest);
        splitting_undoes_joining(first, sep, rest);
        let longer = rest + seq![sep] + tail;
        assert(whole =~= first + seq![sep] + longer);
        splitting_undoes_joining(first, sep, longer);
        splitting_goes_text_by_text(rest, sep, tail);
        assert(split(whole, sep) =~= split(head, sep) + split(tail, sep));
    } else {
        splitting_undoes_joining(head, sep, tail);
    }
}

proof fn lemma_first_separator(text: Seq<char>, sep: char)
    requires
        text.contains(sep),
    ensures
        prefix_len(text, sep) < text.len(),
        text[prefix_len(text, sep) as int] == sep,
        !text.take(prefix_len(text, sep) as int).contains(sep),
    decreases text.len(),
{
    let n = prefix_len(text, sep) as int;
    if text[0] != sep {
        let rest = text.drop_first();
        let at = choose|at: int| 0 <= at < text.len() && text[at] == sep;
        assert(rest[at - 1] == sep);
        lemma_first_separator(rest, sep);
        assert forall|i: int| 0 <= i < n implies text.take(n)[i] != sep by {
            if i > 0 {
                assert(rest.take(n - 1)[i - 1] == text[i]);
                assert(rest.take(n - 1).contains(rest.take(n - 1)[i - 1]));
            }
        }
    }
}

/// A text is cut in two at its first separator; one without separators is not cut.
pub proof fn cutting_undoes_joining(head: Seq<char>, sep: char, tail: Seq<char>)
    requires
        !head.contains(sep),
    ensures
        cut(head + seq![sep] + tail, sep) == Some((head, tail)),
        cut(head, sep) is None,
{
    lemma_prefix_of_joined(head, sep, tail);
    let whole = head + seq![sep] + tail;
    assert(whole.take(head.len() as int) =~= head);
    assert(whole.skip(head.len() as int + 1) =~= tail);
    lemma_no_separator(head, sep);
}

/// A text holds just those texts that it can be put together from with something before and
/// behind.
pub proof fn texts_hold_their_parts(before: Seq<char>, needle: Seq<char>, behind: Seq<char>)
    ensures
        holds(before + needle + behind, needle),
        forall|text: Seq<char>| #[trigger]
            holds(text, needle) ==> exists|head: Seq<char>, tail: Seq<char>|
                #[trigger] (head + needle + tail) == text,
{
    let whole = before + needle + behind;
    let at = before.len() as int;
    assert(whole.subrange(at, at + needle.len()) =~= needle);
    assert(stands_at(whole, needle, at));
    assert forall|text: Seq<char>| #[trigger] holds(text, needle) implies exists|
        head: Seq<char>,
        tail: Seq<char>,
    | #[trigger] (head + needle + tail) == text by {
        let k = choose|k: int| stands_at(text, needle, k);
        let head = text.take(k);
        let tail = text.skip(k + needle.len());
        assert forall|i: int| 0 <= i < needle.len() implies text[k + i] == needle[i] by {
            assert(text.subrange(k, k + needle.len())[i] == needle[i]);
        }
        assert(head + needle + tail =~= text);
    }
}

/// Every digit behind a number counts it ten times and adds its own value, where the result can be
/// held; a digit alone is its value, a `+` before digits makes no difference, and nothing else than
/// digits behind at most one `+` is a number.
pub proof fn digits_count_by_tens(text: Seq<char>, value: u64, digit: u64)
    requires
        digit < 10,
    ensures
        number(seq![(48 + digit) as char]) == Some(digit),
        number(text) == Some(value) && 10 * value + digit <= u64::MAX ==> number(
            text.push((48 + digit) as char),
        ) == Some((10 * value + digit) as u64),
        number(text) == Some(value) && 10 * value + digit > u64::MAX ==> number(
            text.push((48 + digit) as char),
        ) is None,
        number(text) is Some && text[0] != '+' ==> number(seq!['+'] + text) == number(text),
        number(text) is Some ==> text.len() > 0 && forall|i: int|
            0 <= i < text.len() ==> '0' <= #[trigger] text[i] <= '9' || i == 0 && text[i] == '+',
{
    let c = (48 + digit) as char;
    let one = seq![c];
    assert(digit_value(c) == Some(digit as nat));
    assert(one.drop_last() =~= Seq::<char>::empty());
    assert(digits_value(one) == 10 * digits_value(one.drop_last()) + digit);
    assert(all_digits(one));
    if number(text) is Some {
        let signed = text[0] == '+';
        let digits = if signed {
            text.drop_first()
        } else {
            text
        };
        let more = text.push(c);
        let longer = digits.push(c);
        assert(more[0] == text[0]);
        assert(signed ==> more.drop_first() =~= longer);
        assert(longer.drop_last() =~= digits);
        assert forall|i: int| 0 <= i < longer.len() implies digit_value(
            #[trigger] longer[i],
        ) is Some by {
            if i < digits.len() {
                assert(longer[i] == digits[i]);
            }
        }
        assert(all_digits(longer));
        assert(digits_value(longer) == 10 * digits_value(digits) + digit);
        assert((seq!['+'] + text).drop_first() =~= text);
        assert forall|i: int| 0 <= i < text.len() implies '0' <= #[trigger] text[i] <= '9' || i == 0
            && text[i] == '+' by {
            if !signed {
                assert(digit_value(digits[i]) is Some);
            } else if i > 0 {
                assert(digit_value(digits[i - 1]) is Some);
            }
        }
    }
}

/// Decimal notation is digits only, without zeros before them, and reads back as the number.
pub proof fn decimal_is_plain(n: u64)
    ensures
        decimal(n as nat).len() > 0,
        forall|i: int|
            0 <= i < decimal(n as nat).len() ==> '0' <= #[trigger] decimal(n as nat)[i] <= '9',
        decimal(n as nat)[0] == '0' ==> n == 0 && decimal(n as nat).len() == 1,
        number(decimal(n as nat)) == Some(n),
{
    decimal_reads_back(n);
    lemma_decimal(n as nat);
    lemma_no_zero_before(n as nat);
    assert forall|i: int| 0 <= i < decimal(n as nat).len() implies '0' <= #[trigger] decimal(
        n as nat,
    )[i] <= '9' by {
        assert(digit_value(decimal(n as nat)[i]) is Some);
    }
}

proof fn lemma_no_zero_before(n: nat)
    ensures
        decimal(n).len() > 0,
        decimal(n)[0] == '0' ==> n == 0 && decimal(n).len() == 1,
    decreases n,
{
    if n >= 10 {
        lemma_no_zero_before(n / 10);
        assert(decimal(n)[0] == decimal(n / 10)[0]);
    }
}

/// The first character in which two texts differ puts them in order, and a text comes before
/// whatever it is the beginning of.
pub proof fn the_first_difference_decides(
    common: Seq<char>,
    a: char,
    rest_a: Seq<char>,
    b: char,
    rest_b: Seq<char>,
)
    ensures
        a < b ==> comes_before(common + seq![a] + rest_a, common + seq![b] + rest_b),
        a > b ==> !comes_before(common + seq![a] + rest_a, common + seq![b] + rest_b),
        comes_before(common, common + seq![a] + rest_a),
        !comes_before(common + seq![a] + rest_a, common),
    decreases common.len(),
{
    let x = common + seq![a] + rest_a;
    let y = common + seq![b] + rest_b;
    if common.len() > 0 {
        let rest = common.drop_first();
        the_first_difference_decides(rest, a, rest_a, b, rest_b);
        assert(x.drop_first() =~= rest + seq![a] + rest_a);
        assert(y.drop_first() =~= rest + seq![b] + rest_b);
        assert(x[0] == common[0] && y[0] == common[0]);
    } else {
        assert(x[0] == a && y[0] == b);
    }
}

/// Texts that differ at most in the case of ASCII letters are equally long, and wherever they
/// differ, one has a capital ASCII letter and the other its small form.
pub proof fn only_ascii_case_is_ignored(a: Seq<char>, b: Seq<char>)
    ensures
        same_ignoring_ascii_case(a, b) <==> a.len() == b.len() && forall|i: int|
            0 <= i < a.len() ==> (#[trigger] a[i]) == b[i] || ('A' <= a[i] <= 'Z' && b[i] as int
                == a[i] as int + 32) || ('A' <= b[i] <= 'Z' && a[i] as int == b[i] as int + 32),
{
    if a.len() == b.len() {
        assert forall|i: int| 0 <= i < a.len() implies (ascii_lower(#[trigger] a[i]) == ascii_lower(
            b[i],
        ) <==> (a[i] == b[i] || ('A' <= a[i] <= 'Z' && b[i] as int == a[i] as int + 32) || ('A'
            <= b[i] <= 'Z' && a[i] as int == b[i] as int + 32))) by {}
    }
}

/// The bytes of a text are those of its parts together, and of a character one to four, by how large
/// its number is.
pub proof fn bytes_add_up(a: Seq<char>, c: char, b: Seq<char>)
    ensures
        text_bytes(a + b) == text_bytes(a) + text_bytes(b),
        text_bytes(seq![c]) == 1 <==> (c as u32) < 0x80,
        text_bytes(seq![c]) == 2 <==> 0x80 <= c as u32 && (c as u32) < 0x800,
        text_bytes(seq![c]) == 3 <==> 0x800 <= c as u32 && (c as u32) < 0x10000,
        text_bytes(seq![c]) == 4 <==> 0x10000 <= c as u32,
    decreases a.len(),
{
    reveal_with_fuel(text_bytes, 2);
    assert(seq![c].drop_first() =~= Seq::<char>::empty());
    if a.len() == 0 {
        assert(a + b =~= b);
    } else {
        assert((a + b).drop_first() =~= a.drop_first() + b);
        assert((a + b)[0] == a[0]);
        bytes_add_up(a.drop_first(), c, b);
    }
}

/// A list of slices as a mathematical value has every slice's characters in their place.
pub proof fn pieces_are_seen_as_they_are(pieces: Seq<&[char]>, i: int)
    requires
        0 <= i < pieces.len(),
    ensures
        texts(pieces).len() == pieces.len(),
        texts(pieces)[i] == pieces[i]@,
{
}

/// A text stands before another just where it comes before it, and is the same just where it has the
/// same characters.
pub proof fn standings_go_by_the_order(a: Seq<char>, b: Seq<char>)
    ensures
        standing_of(a, b) == Standing::Same <==> a == b,
        standing_of(a, b) == Standing::Before <==> comes_before(a, b),
        standing_of(a, b) == Standing::Behind <==> comes_before(b, a),
{
    order_is_total(a, b);
    order_is_irreflexive(a);
    if comes_before(a, b) && comes_before(b, a) {
        order_is_transitive(a, b, a);
    }
}

} // verus!
