//! Text that the supervisor writes and reads: decimal and hexadecimal numbers,
//! joined strings, and the order of two strings.

use vstd::prelude::*;
use vstd::string::*;

verus! {

/// The character for one hexadecimal digit, in lower case.
pub open spec fn hex_char(digit: int) -> char {
    if digit < 10 {
        (48 + digit) as char
    } else {
        (87 + digit) as char
    }
}

/// The decimal text of a number, without leading zeros.
pub open spec fn decimal_text(n: nat) -> Seq<char>
    decreases n,
{
    if n < 10 {
        seq![hex_char(n as int)]
    } else {
        decimal_text(n / 10).push(hex_char((n % 10) as int))
    }
}

/// A run of zeros.
pub open spec fn zeros(count: nat) -> Seq<char> {
    Seq::new(count, |i: int| '0')
}

/// The decimal text of a number, filled with zeros on the left to a width.
pub open spec fn padded_decimal(n: nat, width: nat) -> Seq<char> {
    let digits = decimal_text(n);
    if digits.len() < width {
        zeros((width - digits.len()) as nat) + digits
    } else {
        digits
    }
}

/// Ten to a power.
pub open spec fn pow10(exponent: nat) -> nat
    decreases exponent,
{
    if exponent == 0 {
        1
    } else {
        10 * pow10((exponent - 1) as nat)
    }
}

/// The last digits of a number, as many as the width says.
pub open spec fn fixed_digits(n: nat, width: nat) -> Seq<char>
    decreases width,
{
    if width == 0 {
        Seq::empty()
    } else {
        fixed_digits(n / 10, (width - 1) as nat).push(hex_char((n % 10) as int))
    }
}

/// Whether a character is one of `0` to `9`.
pub open spec fn is_digit(c: char) -> bool {
    '0' <= c <= '9'
}

/// Whether a text holds decimal digits only.
pub open spec fn all_digits(text: Seq<char>) -> bool {
    forall|i: int| 0 <= i < text.len() ==> is_digit(#[trigger] text[i])
}

/// The number that a text of decimal digits stands for.
pub open spec fn digits_value(text: Seq<char>) -> nat
    decreases text.len(),
{
    if text.len() == 0 {
        0
    } else {
        (10 * digits_value(text.drop_last()) + (text.last() as int - 48)) as nat
    }
}

/// The lower-case hexadecimal text of a byte string, two digits a byte.
pub open spec fn lower_hex(bytes: Seq<u8>) -> Seq<char> {
    Seq::new(
        2 * bytes.len(),
        |i: int|
            if i % 2 == 0 {
                hex_char(bytes[i / 2] as int / 16)
            } else {
                hex_char(bytes[i / 2] as int % 16)
            },
    )
}

/// Two byte strings agree up to a place, and at that place the first one ends
/// or holds the smaller byte.
pub open spec fn less_at(a: Seq<u8>, b: Seq<u8>, i: int) -> bool {
    &&& 0 <= i <= a.len()
    &&& i < b.len()
    &&& a.subrange(0, i) == b.subrange(0, i)
    &&& i < a.len() ==> a[i] < b[i]
}

/// The order in which std compares strings: by their UTF-8 bytes.
pub open spec fn bytes_less(a: Seq<u8>, b: Seq<u8>) -> bool {
    exists|i: int| less_at(a, b, i)
}

/// The order in which std compares strings, over their characters.
pub open spec fn text_before(a: Seq<char>, b: Seq<char>) -> bool {
    bytes_less(vstd::utf8::encode_utf8(a), vstd::utf8::encode_utf8(b))
}

/// One hexadecimal digit as text.
pub fn hex_digit(digit: u8) -> (text: &'static str)
    requires
        digit < 16,
    ensures
        text@ == seq![hex_char(digit as int)],
{
    proof {
        reveal_strlit("0");
        reveal_strlit("1");
        reveal_strlit("2");
        reveal_strlit("3");
        reveal_strlit("4");
        reveal_strlit("5");
        reveal_strlit("6");
        reveal_strlit("7");
        reveal_strlit("8");
        reveal_strlit("9");
        reveal_strlit("a");
        reveal_strlit("b");
        reveal_strlit("c");
        reveal_strlit("d");
        reveal_strlit("e");
        reveal_strlit("f");
    }
    match digit {
        0 => "0",
        1 => "1",
        2 => "2",
        3 => "3",
        4 => "4",
        5 => "5",
        6 => "6",
        7 => "7",
        8 => "8",
        9 => "9",
        10 => "a",
        11 => "b",
        12 => "c",
        13 => "d",
        14 => "e",
        _ => "f",
    }
}

/// Two strings, one behind the other.
pub fn join(first: &str, second: &str) -> (joined: String)
    ensures
        joined@ == first@ + second@,
{
    let mut joined = first.to_owned();
    joined.append(second);
    joined
}

/// Whether two strings hold the same characters.
pub fn same_text(first: &str, second: &str) -> (same: bool)
    ensures
        same == (first@ == second@),
{
    first.to_owned() == second.to_owned()
}

/// A copy of an optional string.
pub fn copy_optional(value: &Option<String>) -> (copy: Option<String>)
    ensures
        copy == *value,
{
    match value {
        Some(text) => Some(text.clone()),
        None => None,
    }
}

/// The decimal text of a number.
pub fn decimal(n: u64) -> (text: String)
    ensures
        text@ == decimal_text(n as nat),
    decreases n,
{
    if n < 10 {
        hex_digit(n as u8).to_owned()
    } else {
        let mut text = decimal(n / 10);
        text.append(hex_digit((n % 10) as u8));
        proof {
            assert(decimal_text((n / 10) as nat) + seq![hex_char(n as int % 10)] =~= decimal_text(
                (n / 10) as nat,
            ).push(hex_char(n as int % 10)));
        }
        text
    }
}

/// The decimal text of a number, filled with zeros on the left to a width.
pub fn padded(n: u64, width: usize) -> (text: String)
    ensures
        text@ == padded_decimal(n as nat, width as nat),
{
    let digits = decimal(n);
    let length: usize = digits.as_str().unicode_len();
    if length >= width {
        return digits;
    }
    let count: usize = width - length;
    let mut text = String::new();
    let mut i: usize = 0;
    while i < count
        invariant
            i <= count,
            text@ == zeros(i as nat),
        decreases count - i,
    {
        proof {
            reveal_strlit("0");
            assert(zeros(i as nat) + "0"@ =~= zeros((i + 1) as nat));
        }
        text.append("0");
        i += 1;
    }
    text.append(digits.as_str());
    text
}

/// The lower-case hexadecimal text of a byte string.
pub fn encode_lower_hex(bytes: &[u8]) -> (text: String)
    requires
        bytes@.len() <= usize::MAX / 2,
    ensures
        text@ == lower_hex(bytes@),
{
    let mut text = String::new();
    let mut i: usize = 0;
    while i < bytes.len()
        invariant
            i <= bytes@.len(),
            text@ == lower_hex(bytes@.subrange(0, i as int)),
        decreases bytes@.len() - i,
    {
        let byte: u8 = bytes[i];
        text.append(hex_digit(byte / 16));
        text.append(hex_digit(byte % 16));
        proof {
            let before = bytes@.subrange(0, i as int);
            let after = bytes@.subrange(0, i + 1);
            assert(lower_hex(after) =~= lower_hex(before) + seq![hex_char(byte as int / 16)]
                + seq![hex_char(byte as int % 16)]) by {
                assert forall|k: int| 0 <= k < 2 * i implies #[trigger] before[k / 2] == after[k
                    / 2] by {}
            }
        }
        i += 1;
    }
    assert(bytes@.subrange(0, bytes@.len() as int) =~= bytes@);
    text
}

/// Whether one string stands before another in the order of their bytes.
pub fn text_less(first: &str, second: &str) -> (less: bool)
    ensures
        less == text_before(first@, second@),
{
    let a = first.as_bytes();
    let b = second.as_bytes();
    let mut i: usize = 0;
    while i < a.len() && i < b.len() && a[i] == b[i]
        invariant
            i <= a@.len(),
            i <= b@.len(),
            a@.subrange(0, i as int) == b@.subrange(0, i as int),
        decreases a@.len() - i,
    {
        assert(a@.subrange(0, i + 1) =~= a@.subrange(0, i as int).push(a@[i as int]));
        assert(b@.subrange(0, i + 1) =~= b@.subrange(0, i as int).push(b@[i as int]));
        i += 1;
    }
    proof {
        lemma_first_difference(a@, b@, i as int);
    }
    if i < a.len() {
        i < b.len() && a[i] < b[i]
    } else {
        i < b.len()
    }
}

/// The first place at which two byte strings part decides their order.
proof fn lemma_first_difference(a: Seq<u8>, b: Seq<u8>, i: int)
    requires
        0 <= i <= a.len(),
        i <= b.len(),
        a.subrange(0, i) == b.subrange(0, i),
        i == a.len() || i == b.len() || a[i] != b[i],
    ensures
        bytes_less(a, b) == (if i < a.len() {
            i < b.len() && a[i] < b[i]
        } else {
            i < b.len()
        }),
{
    if bytes_less(a, b) {
        let j = choose|j: int| less_at(a, b, j);
        if j < i {
            assert(a.subrange(0, i)[j] == a[j] && b.subrange(0, i)[j] == b[j]);
        }
        if i < j {
            assert(a.subrange(0, j)[i] == a[i] && b.subrange(0, j)[i] == b[i]);
        }
    } else {
        assert(!less_at(a, b, i));
    }
}

/// A number below ten to the width, filled up to that width, shows exactly its
/// last digits.
pub proof fn lemma_padded_is_fixed(n: nat, width: nat)
    requires
        0 < width,
        n < pow10(width),
    ensures
        padded_decimal(n, width) == fixed_digits(n, width),
        decimal_text(n).len() <= width,
    decreases width,
{
    reveal_with_fuel(pow10, 2);
    reveal_with_fuel(fixed_digits, 2);
    if n < 10 {
        lemma_zero_digits((width - 1) as nat);
        assert(n / 10 == 0);
        assert(padded_decimal(n, width) =~= fixed_digits(n, width));
    } else {
        assert(width > 1);
        assert(n / 10 < pow10((width - 1) as nat));
        lemma_padded_is_fixed(n / 10, (width - 1) as nat);
        assert(padded_decimal(n, width) =~= padded_decimal(n / 10, (width - 1) as nat).push(
            hex_char((n % 10) as int),
        ));
    }
}

proof fn lemma_zero_digits(width: nat)
    ensures
        fixed_digits(0, width) =~= zeros(width),
    decreases width,
{
    if width > 0 {
        lemma_zero_digits((width - 1) as nat);
    }
}

/// The last digits of a number are digits, and stand for the number where it
/// has no more of them.
pub proof fn lemma_fixed_digits(n: nat, width: nat)
    ensures
        fixed_digits(n, width).len() == width,
        all_digits(fixed_digits(n, width)),
        n < pow10(width) ==> digits_value(fixed_digits(n, width)) == n,
    decreases width,
{
    if width > 0 {
        lemma_fixed_digits(n / 10, (width - 1) as nat);
        let rest = fixed_digits(n / 10, (width - 1) as nat);
        assert(fixed_digits(n, width).drop_last() =~= rest);
        if n < pow10(width) {
            assert(n / 10 < pow10((width - 1) as nat));
        }
    }
}

/// A text of digits is what its number shows at that width.
pub proof fn lemma_digits_value(text: Seq<char>)
    requires
        all_digits(text),
    ensures
        digits_value(text) < pow10(text.len()),
        fixed_digits(digits_value(text), text.len()) == text,
    decreases text.len(),
{
    if text.len() > 0 {
        let rest = text.drop_last();
        assert forall|i: int| 0 <= i < rest.len() implies is_digit(#[trigger] rest[i]) by {
            assert(is_digit(text[i]));
        }
        lemma_digits_value(rest);
        assert(is_digit(text[text.len() - 1]));
        let digit = text.last() as int - 48;
        assert(digits_value(text) == 10 * digits_value(rest) + digit);
        assert(digits_value(text) / 10 == digits_value(rest));
        assert(digits_value(text) % 10 == digit as nat);
        assert(hex_char(digit) == text.last());
        assert(fixed_digits(digits_value(text), text.len()) =~= rest.push(text.last()));
        assert(rest.push(text.last()) =~= text);
    }
}

/// The first place at which two byte strings part.
proof fn lemma_parting_place(a: Seq<u8>, b: Seq<u8>, from: int) -> (place: int)
    requires
        0 <= from <= a.len(),
        from <= b.len(),
        a.subrange(0, from) == b.subrange(0, from),
    ensures
        from <= place <= a.len(),
        place <= b.len(),
        a.subrange(0, place) == b.subrange(0, place),
        place == a.len() || place == b.len() || a[place] != b[place],
    decreases a.len() - from,
{
    if from == a.len() || from == b.len() || a[from] != b[from] {
        from
    } else {
        assert(a.subrange(0, from + 1) =~= a.subrange(0, from).push(a[from]));
        assert(b.subrange(0, from + 1) =~= b.subrange(0, from).push(b[from]));
        lemma_parting_place(a, b, from + 1)
    }
}

/// The order of strings is total and strict: of two strings exactly one of
/// these holds, that they are the same, or that one stands before the other.
pub proof fn lemma_text_order_is_total(a: Seq<char>, b: Seq<char>)
    ensures
        a == b <==> !text_before(a, b) && !text_before(b, a),
        !(text_before(a, b) && text_before(b, a)),
{
    let x = vstd::utf8::encode_utf8(a);
    let y = vstd::utf8::encode_utf8(b);
    assert(x.subrange(0, 0) =~= y.subrange(0, 0));
    let place = lemma_parting_place(x, y, 0);
    lemma_first_difference(x, y, place);
    lemma_first_difference(y, x, place);
    if place == x.len() && place == y.len() {
        assert(x.subrange(0, place) =~= x);
        assert(y.subrange(0, place) =~= y);
        vstd::utf8::encode_utf8_decode_utf8(a);
        vstd::utf8::encode_utf8_decode_utf8(b);
    }
}

/// The order of strings carries over from one to the next.
pub proof fn lemma_text_order_is_transitive(a: Seq<char>, b: Seq<char>, c: Seq<char>)
    requires
        text_before(a, b),
        text_before(b, c),
    ensures
        text_before(a, c),
{
    let x = vstd::utf8::encode_utf8(a);
    let y = vstd::utf8::encode_utf8(b);
    let z = vstd::utf8::encode_utf8(c);
    let i = choose|i: int| less_at(x, y, i);
    let j = choose|j: int| less_at(y, z, j);
    let k = if i < j { i } else { j };
    assert(x.subrange(0, k) =~= z.subrange(0, k)) by {
        assert forall|n: int| 0 <= n < k implies x[n] == z[n] by {
            assert(x.subrange(0, i)[n] == x[n] && y.subrange(0, i)[n] == y[n]);
            assert(y.subrange(0, j)[n] == y[n] && z.subrange(0, j)[n] == z[n]);
        }
    }
    if i < j {
        assert(y.subrange(0, j)[i] == y[i] && z.subrange(0, j)[i] == z[i]);
    } else if j < i {
        assert(x.subrange(0, i)[j] == x[j] && y.subrange(0, i)[j] == y[j]);
    }
    assert(less_at(x, z, k));
}

/// Whether a text stands in a list.
pub open spec fn is_listed(texts: Seq<String>, text: Seq<char>) -> bool {
    exists|i: int| 0 <= i < texts.len() && (#[trigger] texts[i])@ == text
}

/// A list of strings in their order, none twice.
pub open spec fn sorted_texts(texts: Seq<String>) -> bool {
    forall|i: int, j: int|
        0 <= i < j < texts.len() ==> text_before((#[trigger] texts[i])@, (#[trigger] texts[j])@)
}

/// Whether a text stands in a list.
pub fn lists(texts: &Vec<String>, text: &str) -> (found: bool)
    ensures
        found == is_listed(texts@, text@),
{
    let mut i: usize = 0;
    while i < texts.len()
        invariant
            i <= texts@.len(),
            forall|k: int| 0 <= k < i ==> (#[trigger] texts@[k])@ != text@,
        decreases texts@.len() - i,
    {
        if same_text(texts[i].as_str(), text) {
            assert(texts@[i as int]@ == text@);
            return true;
        }
        i += 1;
    }
    false
}

/// Adds a text to a sorted list, unless it stands there already.
pub fn insert_sorted(texts: &mut Vec<String>, text: &str)
    requires
        sorted_texts(old(texts)@),
        old(texts)@.len() < usize::MAX,
    ensures
        sorted_texts(final(texts)@),
        forall|other: Seq<char>| #[trigger]
            is_listed(final(texts)@, other) <==> is_listed(old(texts)@, other) || other == text@,
        final(texts)@.len() == old(texts)@.len() + (if is_listed(old(texts)@, text@) {
            0int
        } else {
            1int
        }),
{
    let mut i: usize = 0;
    while i < texts.len() && text_less(texts[i].as_str(), text)
        invariant
            texts@ == old(texts)@,
            sorted_texts(texts@),
            i <= texts@.len(),
            forall|k: int| 0 <= k < i ==> text_before((#[trigger] texts@[k])@, text@),
        decreases texts@.len() - i,
    {
        i += 1;
    }
    if i < texts.len() && same_text(texts[i].as_str(), text) {
        assert(texts@[i as int]@ == text@);
        return;
    }
    let ghost before = texts@;
    texts.insert(i, text.to_owned());
    proof {
        let after = texts@;
        let n = i as int;
        if n < before.len() {
            lemma_text_order_is_total(before[n]@, text@);
        }
        assert forall|k: int| n <= k < before.len() implies text_before(
            text@,
            (#[trigger] before[k])@,
        ) by {
            if k > n {
                lemma_text_order_is_transitive(text@, before[n]@, before[k]@);
            }
        }
        assert forall|a: int, b: int| 0 <= a < b < after.len() implies text_before(
            (#[trigger] after[a])@,
            (#[trigger] after[b])@,
        ) by {
            if b < n {
                assert(after[a] == before[a] && after[b] == before[b]);
            } else if b == n {
                assert(after[a] == before[a]);
            } else if a < n {
                assert(after[a] == before[a] && after[b] == before[b - 1]);
            } else if a == n {
                assert(after[b] == before[b - 1]);
            } else {
                assert(after[a] == before[a - 1] && after[b] == before[b - 1]);
            }
        }
        assert forall|other: Seq<char>| #[trigger]
            is_listed(after, other) == (is_listed(before, other) || other == text@) by {
            if is_listed(after, other) && other != text@ {
                let k = choose|k: int| 0 <= k < after.len() && (#[trigger] after[k])@ == other;
                let m = if k < n { k } else { k - 1 };
                assert(before[m] == after[k]);
            }
            if is_listed(before, other) {
                let k = choose|k: int| 0 <= k < before.len() && (#[trigger] before[k])@ == other;
                let m = if k < n { k } else { k + 1 };
                assert(after[m] == before[k]);
            }
            assert(after[n]@ == text@);
        }
        if is_listed(before, text@) {
            let k = choose|k: int| 0 <= k < before.len() && (#[trigger] before[k])@ == text@;
            lemma_text_order_is_total(text@, text@);
            if k < n {
                assert(text_before(before[k]@, text@));
            } else {
                assert(text_before(text@, before[k]@));
            }
        }
    }
}

/// The characters of each string of a list.
pub open spec fn texts_of(list: Seq<String>) -> Seq<Seq<char>> {
    Seq::new(list.len(), |i: int| list[i]@)
}

/// A list in the order of strings, in which one may stand several times.
pub open spec fn in_order(texts: Seq<Seq<char>>) -> bool {
    forall|i: int, j: int|
        0 <= i < j < texts.len() ==> !text_before(#[trigger] texts[j], #[trigger] texts[i])
}

/// The strings of a list, in their order.
pub fn sorted_copy(texts: &Vec<String>) -> (sorted: Vec<String>)
    ensures
        in_order(texts_of(sorted@)),
        texts_of(sorted@).to_multiset() == texts_of(texts@).to_multiset(),
        sorted@.len() == texts@.len(),
{
    let mut sorted: Vec<String> = Vec::new();
    let mut i: usize = 0;
    assert(texts_of(sorted@) =~= texts_of(texts@.subrange(0, 0)));
    while i < texts.len()
        invariant
            i <= texts@.len(),
            sorted@.len() == i,
            in_order(texts_of(sorted@)),
            texts_of(sorted@).to_multiset() == texts_of(
                texts@.subrange(0, i as int),
            ).to_multiset(),
        decreases texts@.len() - i,
    {
        let mut place: usize = 0;
        while place < sorted.len() && !text_less(texts[i].as_str(), sorted[place].as_str())
            invariant
                i < texts@.len(),
                place <= sorted@.len(),
                in_order(texts_of(sorted@)),
                forall|k: int|
                    0 <= k < place ==> !text_before(texts@[i as int]@, #[trigger] texts_of(
                        sorted@,
                    )[k]),
            decreases sorted@.len() - place,
        {
            place += 1;
        }
        let ghost before = texts_of(sorted@);
        let ghost text = texts@[i as int]@;
        sorted.insert(place, texts[i].clone());
        proof {
            let after = texts_of(sorted@);
            let n = place as int;
            assert(after =~= before.insert(n, text));
            assert forall|a: int, b: int| 0 <= a < b < after.len() implies !text_before(
                #[trigger] after[b],
                #[trigger] after[a],
            ) by {
                let x = if a < n { a } else { a - 1 };
                let y = if b < n { b } else { b - 1 };
                if a == n {
                    // The text goes before the first one that is behind it.
                    if y == n {
                        lemma_text_order_is_total(text, before[n]);
                    } else if text_before(before[y], text) {
                        lemma_text_order_is_transitive(before[y], text, before[n]);
                        assert(!text_before(before[y], before[n]));
                    }
                } else if b == n {
                    assert(!text_before(text, before[a]));
                } else {
                    assert(!text_before(before[y], before[x]));
                }
            }
            broadcast use vstd::seq_lib::group_to_multiset_ensures;

            vstd::seq_lib::to_multiset_insert(before, n, text);
            let shorter = texts@.subrange(0, i as int);
            let longer = texts@.subrange(0, i + 1);
            assert(texts_of(longer) =~= texts_of(shorter).push(text));
        }
        i += 1;
    }
    assert(texts@.subrange(0, texts@.len() as int) =~= texts@);
    sorted
}

/// The UTF-16 units of one character.
pub open spec fn utf16_units(c: char) -> Seq<u16> {
    let code = c as int;
    if code < 0x10000 {
        seq![code as u16]
    } else {
        seq![
            (0xD800 + (code - 0x10000) / 0x400) as u16,
            (0xDC00 + (code - 0x10000) % 0x400) as u16,
        ]
    }
}

/// A text in UTF-16.
pub open spec fn utf16(text: Seq<char>) -> Seq<u16>
    decreases text.len(),
{
    if text.len() == 0 {
        Seq::empty()
    } else {
        utf16(text.drop_last()) + utf16_units(text.last())
    }
}

/// A text in UTF-16.
pub fn encode_utf16(text: &str) -> (units: Vec<u16>)
    ensures
        units@ == utf16(text@),
{
    let length: usize = text.unicode_len();
    let mut units: Vec<u16> = Vec::new();
    let mut i: usize = 0;
    while i < length
        invariant
            i <= length,
            length == text@.len(),
            units@ == utf16(text@.subrange(0, i as int)),
        decreases length - i,
    {
        let code: u32 = text.get_char(i) as u32;
        if code < 0x10000 {
            units.push(code as u16);
        } else {
            units.push((0xD800 + (code - 0x10000) / 0x400) as u16);
            units.push((0xDC00 + (code - 0x10000) % 0x400) as u16);
        }
        proof {
            let shorter = text@.subrange(0, i as int);
            let longer = text@.subrange(0, i + 1);
            assert(longer.drop_last() =~= shorter);
            assert(units@ =~= utf16(shorter) + utf16_units(text@[i as int]));
        }
        i += 1;
    }
    assert(text@.subrange(0, length as int) =~= text@);
    units
}

} // verus!
