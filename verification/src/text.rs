//! Text and byte helpers: comparison, decimal and hexadecimal notation.
use vstd::prelude::*;

verus! {

/// Decimal notation of `n`, most significant digit first.
pub open spec fn decimal(n: nat) -> Seq<char>
    decreases n,
{
    if n < 10 {
        seq![digit(n)]
    } else {
        decimal(n / 10).push(digit(n % 10))
    }
}

/// The decimal digit `d`.
pub open spec fn digit(d: nat) -> char {
    (('0' as u32) + d) as char
}

/// Decimal notation of a signed number.
pub open spec fn signed_decimal(n: int) -> Seq<char> {
    if n < 0 {
        seq!['-'] + decimal((-n) as nat)
    } else {
        decimal(n as nat)
    }
}

/// Whether `c` is one of `0` to `9`.
pub open spec fn is_digit(c: char) -> bool {
    '0' <= c && c <= '9'
}

/// The number that a run of decimal digits denotes.
pub open spec fn number(s: Seq<char>) -> nat
    decreases s.len(),
{
    if s.len() == 0 {
        0
    } else {
        number(s.drop_last()) * 10 + ((s.last() as u32) - ('0' as u32)) as nat
    }
}

/// Whether `s` is one or more decimal digits and nothing else.
pub open spec fn is_number(s: Seq<char>) -> bool {
    &&& s.len() > 0
    &&& forall|i: int| 0 <= i < s.len() ==> is_digit(#[trigger] s[i])
}

/// Decimal notation is digits, and denotes the number that it was made from.
pub proof fn decimal_round_trip(n: nat)
    ensures
        is_number(decimal(n)),
        number(decimal(n)) == n,
    decreases n,
{
    if n < 10 {
        let one = decimal(n);
        assert(one.drop_last() =~= Seq::<char>::empty());
        assert(one.last() == digit(n));
        reveal_with_fuel(number, 2);
    } else {
        decimal_round_trip(n / 10);
        let all = decimal(n);
        assert(all.drop_last() =~= decimal(n / 10));
        assert forall|i: int| 0 <= i < all.len() implies is_digit(#[trigger] all[i]) by {
            if i < all.len() - 1 {
                assert(all[i] == decimal(n / 10)[i]);
            }
        }
    }
}

/// Whether `needle` occurs in `hay` as a contiguous run.
pub open spec fn occurs<T>(hay: Seq<T>, needle: Seq<T>) -> bool {
    exists|i: int|
        0 <= i <= hay.len() - needle.len() && #[trigger] hay.subrange(i, i + needle.len()) == needle
}

/// Whether two byte strings are equal.
pub fn bytes_equal(a: &[u8], b: &[u8]) -> (r: bool)
    ensures
        r == (a@ == b@),
{
    if a.len() != b.len() {
        return false;
    }
    let mut i: usize = 0;
    while i < a.len()
        invariant
            a@.len() == b@.len(),
            i <= a@.len(),
            forall|j: int| 0 <= j < i ==> a@[j] == b@[j],
        decreases a@.len() - i,
    {
        if a[i] != b[i] {
            return false;
        }
        i += 1;
    }
    assert(a@ =~= b@);
    true
}

/// Whether two pieces of text are equal.
pub fn str_equal(a: &str, b: &str) -> (r: bool)
    ensures
        r == (a@ == b@),
{
    let r = bytes_equal(a.as_bytes(), b.as_bytes());
    proof {
        vstd::utf8::encode_utf8_decode_utf8(a@);
        vstd::utf8::encode_utf8_decode_utf8(b@);
    }
    r
}

/// A copy of a byte string.
pub fn bytes_copy(a: &[u8]) -> (r: Vec<u8>)
    ensures
        r@ == a@,
{
    let mut r: Vec<u8> = Vec::new();
    r.extend_from_slice(a);
    assert(r@ =~= a@);
    r
}

/// A copy of the part of a byte string from `from` up to `to`.
pub fn bytes_range(a: &[u8], from: usize, to: usize) -> (r: Vec<u8>)
    requires
        from <= to <= a@.len(),
    ensures
        r@ == a@.subrange(from as int, to as int),
{
    bytes_copy(vstd::slice::slice_subrange(a, from, to))
}

fn decimal_digit(d: u64) -> (r: &'static str)
    requires
        d < 10,
    ensures
        r@ == seq![digit(d as nat)],
{
    proof {
        reveal_strlit("0");
        reveal_strlit("1");
        reveal_strlit("2");
        reveal_strlit("3");
        reveal_strlit("4");
        reveal_strlit("5");
        reveal_strlit("6");
        reveal_strlit("7");
        reveal_strlit("8");
        reveal_strlit("9");
    }
    let r = match d {
        0 => "0",
        1 => "1",
        2 => "2",
        3 => "3",
        4 => "4",
        5 => "5",
        6 => "6",
        7 => "7",
        8 => "8",
        _ => "9",
    };
    assert(r@ =~= seq![digit(d as nat)]);
    r
}

/// `n` in decimal notation.
pub fn decimal_text(n: u64) -> (r: String)
    ensures
        r@ == decimal(n as nat),
    decreases n,
{
    if n < 10 {
        decimal_digit(n).to_owned()
    } else {
        let mut r = decimal_text(n / 10);
        r.append(decimal_digit(n % 10));
        assert(r@ =~= decimal(n as nat));
        r
    }
}

/// `n` in decimal notation, with a minus sign when it is negative.
pub fn signed_decimal_text(n: i64) -> (r: String)
    ensures
        r@ == signed_decimal(n as int),
{
    if n < 0 {
        let magnitude: u64 = if n == i64::MIN {
            9_223_372_036_854_775_808
        } else {
            (-n) as u64
        };
        let mut r = "-".to_owned();
        r.append(decimal_text(magnitude).as_str());
        proof {
            reveal_strlit("-");
        }
        assert(r@ =~= signed_decimal(n as int));
        r
    } else {
        decimal_text(n as u64)
    }
}

/// Reads a decimal number: `None` unless `s` is one or more digits whose value
/// fits in 64 bits.
pub fn parse_number(s: &str) -> (r: Option<u64>)
    ensures
        match r {
            Some(n) => is_number(s@) && number(s@) == n,
            None => !is_number(s@) || number(s@) > u64::MAX,
        },
{
    let count: usize = s.unicode_len();
    if count == 0 {
        return None;
    }
    let mut value: u64 = 0;
    let mut big: bool = false;
    let mut i: usize = 0;
    while i < count
        invariant
            count == s@.len(),
            i <= count,
            forall|j: int| 0 <= j < i ==> is_digit(#[trigger] s@[j]),
            !big ==> number(s@.take(i as int)) == value,
            big ==> number(s@.take(i as int)) > u64::MAX,
        decreases count - i,
    {
        let c = s.get_char(i);
        if !('0' <= c && c <= '9') {
            return None;
        }
        let d: u64 = (c as u32 - '0' as u32) as u64;
        proof {
            assert(s@.take(i + 1).drop_last() =~= s@.take(i as int));
            assert(s@.take(i + 1).last() == s@[i as int]);
        }
        if !big {
            match value.checked_mul(10) {
                Some(scaled) => {
                    match scaled.checked_add(d) {
                        Some(next) => {
                            value = next;
                        },
                        None => {
                            big = true;
                        },
                    }
                },
                None => {
                    big = true;
                },
            }
        }
        i += 1;
    }
    assert(s@.take(count as int) =~= s@);
    if big {
        None
    } else {
        Some(value)
    }
}

/// The digits of an unsigned number as it may be written: with or without a
/// leading plus sign.
pub open spec fn unsigned_digits(s: Seq<char>) -> Seq<char> {
    if s.len() > 0 && s[0] == '+' {
        s.skip(1)
    } else {
        s
    }
}

/// Reads an unsigned number that may have a leading plus sign.
pub fn parse_unsigned(s: &str) -> (r: Option<u64>)
    ensures
        match r {
            Some(n) => is_number(unsigned_digits(s@)) && number(unsigned_digits(s@)) == n,
            None => !is_number(unsigned_digits(s@)) || number(unsigned_digits(s@)) > u64::MAX,
        },
{
    let count: usize = s.unicode_len();
    if count > 0 && s.get_char(0) == '+' {
        let digits = s.substring_char(1, count);
        assert(digits@ =~= s@.skip(1));
        parse_number(digits)
    } else {
        parse_number(s)
    }
}

/// The value of a signed number as it may be written: digits, with or without a
/// leading sign. Nothing means that it is no number.
pub open spec fn signed_value(s: Seq<char>) -> Option<int> {
    if s.len() > 0 && s[0] == '-' {
        if is_number(s.skip(1)) {
            Some(-(number(s.skip(1)) as int))
        } else {
            None
        }
    } else if is_number(unsigned_digits(s)) {
        Some(number(unsigned_digits(s)) as int)
    } else {
        None
    }
}

/// Reads a signed 32-bit number that may have a leading sign.
pub fn parse_signed(s: &str) -> (r: Option<i32>)
    ensures
        match r {
            Some(n) => signed_value(s@) == Some(n as int),
            None => match signed_value(s@) {
                None => true,
                Some(value) => value < i32::MIN || value > i32::MAX,
            },
        },
{
    let count: usize = s.unicode_len();
    if count > 0 && s.get_char(0) == '-' {
        let digits = s.substring_char(1, count);
        assert(digits@ =~= s@.skip(1));
        match parse_number(digits) {
            Some(magnitude) => {
                if magnitude <= 2_147_483_648 {
                    Some((0 - magnitude as i64) as i32)
                } else {
                    None
                }
            },
            None => None,
        }
    } else {
        match parse_unsigned(s) {
            Some(value) => {
                if value <= 2_147_483_647 {
                    Some(value as i32)
                } else {
                    None
                }
            },
            None => None,
        }
    }
}

/// Whether `c` is white space, by its code point.
pub open spec fn is_space(c: char) -> bool {
    ||| '\u{9}' <= c <= '\u{d}'
    ||| c == ' '
    ||| c == '\u{85}'
    ||| c == '\u{a0}'
    ||| c == '\u{1680}'
    ||| '\u{2000}' <= c <= '\u{200a}'
    ||| c == '\u{2028}'
    ||| c == '\u{2029}'
    ||| c == '\u{202f}'
    ||| c == '\u{205f}'
    ||| c == '\u{3000}'
}

fn char_is_space(c: char) -> (r: bool)
    ensures
        r == is_space(c),
{
    ('\u{9}' <= c && c <= '\u{d}') || c == ' ' || c == '\u{85}' || c == '\u{a0}' || c == '\u{1680}'
        || ('\u{2000}' <= c && c <= '\u{200a}') || c == '\u{2028}' || c == '\u{2029}' || c
        == '\u{202f}' || c == '\u{205f}' || c == '\u{3000}'
}

/// Text without the white space before it.
pub open spec fn trim_start(s: Seq<char>) -> Seq<char>
    decreases s.len(),
{
    if s.len() > 0 && is_space(s[0]) {
        trim_start(s.skip(1))
    } else {
        s
    }
}

/// Text without the white space behind it.
pub open spec fn trim_end(s: Seq<char>) -> Seq<char>
    decreases s.len(),
{
    if s.len() > 0 && is_space(s.last()) {
        trim_end(s.drop_last())
    } else {
        s
    }
}

/// Text without the white space around it.
pub open spec fn trim(s: Seq<char>) -> Seq<char> {
    trim_end(trim_start(s))
}

/// Removes the white space around text.
pub fn trimmed(s: &str) -> (r: &str)
    ensures
        r@ == trim(s@),
{
    let count: usize = s.unicode_len();
    let mut from: usize = 0;
    assert(s@.skip(0) =~= s@);
    while from < count && char_is_space(s.get_char(from))
        invariant
            from <= count == s@.len(),
            trim_start(s@.skip(from as int)) == trim_start(s@),
        decreases count - from,
    {
        assert(s@.skip(from as int).skip(1) =~= s@.skip(from + 1));
        from += 1;
    }
    let ghost middle = trim_start(s@);
    assert(middle == s@.skip(from as int));
    let mut to: usize = count;
    assert(s@.subrange(from as int, to as int) =~= middle);
    while to > from && char_is_space(s.get_char(to - 1))
        invariant
            from <= to <= count == s@.len(),
            trim_end(s@.subrange(from as int, to as int)) == trim_end(middle),
        decreases to - from,
    {
        assert(s@.subrange(from as int, to as int).drop_last() =~= s@.subrange(
            from as int,
            to - 1,
        ));
        to -= 1;
    }
    s.substring_char(from, to)
}

/// A number that stands on a line of its own is what is left without the white
/// space around it.
pub proof fn trimmed_number(digits: Seq<char>)
    requires
        is_number(digits),
    ensures
        trim(digits.push('\n')) == digits,
{
    let line = digits.push('\n');
    assert(is_digit(line[0]) && !is_space(line[0]));
    assert(line.drop_last() =~= digits);
    assert(is_digit(digits[digits.len() - 1]) && !is_space(digits.last()));
    reveal_with_fuel(trim_end, 2);
}

/// The text of two parts, one after the other.
pub fn join(a: &str, b: &str) -> (r: String)
    ensures
        r@ == a@ + b@,
{
    let mut r = a.to_owned();
    r.append(b);
    r
}

/// The text of three parts, one after the other.
pub fn join3(a: &str, b: &str, c: &str) -> (r: String)
    ensures
        r@ == a@ + b@ + c@,
{
    let mut r = a.to_owned();
    r.append(b);
    r.append(c);
    r
}

/// Whether `needle` occurs in `hay`.
pub fn str_contains(hay: &str, needle: &str) -> (r: bool)
    ensures
        r == occurs(hay@, needle@),
{
    let n: usize = hay.unicode_len();
    let m: usize = needle.unicode_len();
    if m > n {
        return false;
    }
    if m == 0 {
        assert(hay@.subrange(0, 0int + needle@.len()) =~= needle@);
        return true;
    }
    let mut i: usize = 0;
    while i <= n - m
        invariant
            n == hay@.len(),
            m == needle@.len(),
            0 < m <= n,
            i <= n - m + 1,
            forall|j: int| 0 <= j < i ==> #[trigger] hay@.subrange(j, j + m) != needle@,
        decreases n - m + 1 - i,
    {
        if str_equal(hay.substring_char(i, i + m), needle) {
            assert(hay@.subrange(i as int, i + needle@.len()) == needle@);
            return true;
        }
        i += 1;
    }
    false
}

/// One hexadecimal digit, lower case.
pub open spec fn hex_digit(d: nat) -> char {
    if d < 10 {
        digit(d)
    } else {
        (('a' as u32) + (d - 10)) as char
    }
}

/// Two lower-case hexadecimal digits for each byte.
pub open spec fn hex(bytes: Seq<u8>) -> Seq<char>
    decreases bytes.len(),
{
    if bytes.len() == 0 {
        Seq::empty()
    } else {
        hex(bytes.drop_last()) + seq![
            hex_digit(bytes.last() as nat / 16),
            hex_digit(bytes.last() as nat % 16),
        ]
    }
}

fn hex_digit_text(d: u64) -> (r: &'static str)
    requires
        d < 16,
    ensures
        r@ == seq![hex_digit(d as nat)],
{
    if d < 10 {
        decimal_digit(d)
    } else {
        proof {
            reveal_strlit("a");
            reveal_strlit("b");
            reveal_strlit("c");
            reveal_strlit("d");
            reveal_strlit("e");
            reveal_strlit("f");
        }
        let r = match d {
            10 => "a",
            11 => "b",
            12 => "c",
            13 => "d",
            14 => "e",
            _ => "f",
        };
        assert(r@ =~= seq![hex_digit(d as nat)]);
        r
    }
}

/// Bytes in lower-case hexadecimal notation.
pub fn hex_text(bytes: &[u8]) -> (r: String)
    ensures
        r@ == hex(bytes@),
{
    let mut r = String::new();
    let mut i: usize = 0;
    while i < bytes.len()
        invariant
            i <= bytes@.len(),
            r@ == hex(bytes@.take(i as int)),
        decreases bytes@.len() - i,
    {
        let b: u64 = bytes[i] as u64;
        r.append(hex_digit_text(b / 16));
        r.append(hex_digit_text(b % 16));
        proof {
            let next = bytes@.take(i + 1);
            assert(next.drop_last() =~= bytes@.take(i as int));
            assert(r@ =~= hex(next));
        }
        i += 1;
    }
    assert(bytes@.take(bytes@.len() as int) =~= bytes@);
    r
}

/// Whether `c` is one of `0` to `9` and `a` to `f`.
pub open spec fn is_hex_digit(c: char) -> bool {
    is_digit(c) || 'a' <= c && c <= 'f'
}

/// Hexadecimal notation has two characters for each byte, all of them
/// hexadecimal digits.
pub proof fn hex_length(bytes: Seq<u8>)
    ensures
        hex(bytes).len() == 2 * bytes.len(),
        forall|i: int| 0 <= i < hex(bytes).len() ==> is_hex_digit(#[trigger] hex(bytes)[i]),
    decreases bytes.len(),
{
    if bytes.len() > 0 {
        hex_length(bytes.drop_last());
        assert forall|i: int| 0 <= i < hex(bytes).len() implies is_hex_digit(
            #[trigger] hex(bytes)[i],
        ) by {
            if i < hex(bytes).len() - 2 {
                assert(hex(bytes)[i] == hex(bytes.drop_last())[i]);
            }
        }
    }
}

/// The texts of a list of strings.
pub open spec fn texts(list: Seq<String>) -> Seq<Seq<char>> {
    list.map_values(|text: String| text@)
}

/// The text of an optional string.
pub open spec fn option_text(value: Option<String>) -> Option<Seq<char>> {
    match value {
        Some(text) => Some(text@),
        None => None,
    }
}

/// A copy of the strings from `from` on.
pub fn strings_from(list: &[String], from: usize) -> (r: Vec<String>)
    requires
        from <= list@.len(),
    ensures
        texts(r@) == texts(list@).skip(from as int),
{
    let mut r: Vec<String> = Vec::new();
    let mut i: usize = from;
    while i < list.len()
        invariant
            from <= i <= list@.len(),
            r@.len() == i - from,
            forall|j: int| 0 <= j < r@.len() ==> #[trigger] r@[j]@ == list@[from + j]@,
        decreases list@.len() - i,
    {
        r.push(list[i].clone());
        i += 1;
    }
    assert(texts(r@) =~= texts(list@).skip(from as int));
    r
}

/// A list without every occurrence of `word`.
pub open spec fn without(list: Seq<Seq<char>>, word: Seq<char>) -> Seq<Seq<char>>
    decreases list.len(),
{
    if list.len() == 0 {
        list
    } else if list.last() == word {
        without(list.drop_last(), word)
    } else {
        without(list.drop_last(), word).push(list.last())
    }
}

/// A copy of a list without every occurrence of `word`, and whether there was
/// one.
pub fn strings_without(list: &[String], word: &str) -> (r: (Vec<String>, bool))
    ensures
        texts(r.0@) == without(texts(list@), word@),
        r.1 == texts(list@).contains(word@),
{
    let mut kept: Vec<String> = Vec::new();
    let mut found = false;
    let mut i: usize = 0;
    proof {
        assert(texts(list@).take(0) =~= Seq::<Seq<char>>::empty());
        assert(texts(kept@) =~= Seq::<Seq<char>>::empty());
    }
    while i < list.len()
        invariant
            i <= list@.len(),
            texts(kept@) == without(texts(list@).take(i as int), word@),
            found == texts(list@).take(i as int).contains(word@),
        decreases list@.len() - i,
    {
        let ghost before = texts(list@).take(i as int);
        let ghost after = texts(list@).take(i + 1);
        proof {
            assert(after.drop_last() =~= before);
            assert(after.last() == list@[i as int]@);
            assert(after =~= before.push(list@[i as int]@));
            assert(forall|w: Seq<char>| before.contains(w) ==> #[trigger] after.contains(w)) by {
                assert forall|w: Seq<char>| before.contains(w) implies #[trigger] after.contains(
                    w,
                ) by {
                    let j = choose|j: int| 0 <= j < before.len() && before[j] == w;
                    assert(after[j] == w);
                }
            }
        }
        if str_equal(list[i].as_str(), word) {
            found = true;
            assert(after[i as int] == word@);
        } else {
            let ghost kept_before = kept@;
            kept.push(list[i].clone());
            assert(texts(kept@) =~= texts(kept_before).push(list@[i as int]@));
            proof {
                if after.contains(word@) {
                    let j = choose|j: int| 0 <= j < after.len() && after[j] == word@;
                    assert(before[j] == word@);
                }
            }
        }
        i += 1;
    }
    assert(texts(list@).take(list@.len() as int) =~= texts(list@));
    (kept, found)
}

/// The text between quotation marks that shows `s` in a diagnostic, with
/// special characters escaped.
pub uninterp spec fn debug_text(s: Seq<char>) -> Seq<char>;

/// Shows text between quotation marks. Calls the standard library's debug
/// formatting of `str`; nothing is claimed of the result but that it is
/// determined by the text.
#[verifier::external_body]
pub(crate) fn quoted(s: &str) -> (r: String)
    ensures
        r@ == debug_text(s@),
{
    format!("{:?}", s)
}

/// A number is written digit by digit, and is read back as it was written; one
/// that does not fit, or anything but digits, is not read.
pub proof fn numbers_are_read_back(
    n: u64,
    written: String,
    tens: String,
    line: &str,
    read: Option<u64>,
)
    requires
        call_ensures(decimal_text, (n,), written),
        call_ensures(decimal_text, ((n / 10) as u64,), tens),
        line@ == written@,
        call_ensures(parse_number, (line,), read),
    ensures
        read == Some(n),
        n < 10 ==> written@ == seq![(48 + n) as char],
        n >= 10 ==> written@ == tens@ + seq![(48 + n % 10) as char],
{
    decimal_round_trip(n as nat);
    if n >= 10 {
        assert(written@ =~= tens@ + seq![(48 + n % 10) as char]);
    }
}

/// Reading takes exactly runs of digits, each counting ten times the next.
pub proof fn digits_count_by_tens(s: &str, r: Option<u64>)
    requires
        call_ensures(parse_number, (s,), r),
    ensures
        r is Some ==> s@.len() > 0 && forall|i: int|
            0 <= i < s@.len() ==> '0' <= #[trigger] s@[i] && s@[i] <= '9',
        s@.len() == 0 ==> r is None,
        r is Some && s@.len() == 1 ==> r->0 == s@[0] as u32 - 48,
        r is Some && s@.len() == 2 ==> r->0 == (s@[0] as u32 - 48) * 10 + (s@[1] as u32 - 48),
        s@.len() == 1 && '0' <= s@[0] && s@[0] <= '9' ==> r is Some,
{
    reveal_with_fuel(number, 3);
    if r is Some {
        assert forall|i: int| 0 <= i < s@.len() implies '0' <= #[trigger] s@[i] && s@[i]
            <= '9' by {
            assert(is_digit(s@[i]));
        }
    }
}

/// A longer number is ten times the shorter one and its last digit.
pub proof fn numbers_grow_by_their_last_digit(
    longer: &str,
    shorter: &str,
    r: Option<u64>,
    s: Option<u64>,
)
    requires
        shorter@.len() > 0,
        longer@.len() == shorter@.len() + 1,
        longer@.drop_last() == shorter@,
        call_ensures(parse_number, (longer,), r),
        call_ensures(parse_number, (shorter,), s),
    ensures
        r is Some ==> s is Some && r->0 == s->0 * 10 + (longer@.last() as u32 - 48),
        s is Some && '0' <= longer@.last() && longer@.last() <= '9' && s->0 * 10 + (
        longer@.last() as u32 - 48) <= u64::MAX ==> r is Some,
{
    if is_number(longer@) {
        assert forall|i: int| 0 <= i < shorter@.len() implies is_digit(#[trigger] shorter@[i]) by {
            assert(shorter@[i] == longer@[i]);
        }
        assert(is_digit(longer@[longer@.len() - 1]));
    }
    if is_number(shorter@) && is_digit(longer@.last()) {
        assert forall|i: int| 0 <= i < longer@.len() implies is_digit(#[trigger] longer@[i]) by {
            if i < shorter@.len() {
                assert(longer@[i] == shorter@[i]);
            }
        }
    }
}

/// A plus sign before an unsigned number changes nothing.
pub proof fn plus_signs_change_nothing(plain: &str, signed: &str, r: Option<u64>, s: Option<u64>)
    requires
        plain@.len() == 0 || plain@[0] != '+',
        signed@ == seq!['+'] + plain@,
        call_ensures(parse_unsigned, (plain,), r),
        call_ensures(parse_unsigned, (signed,), s),
    ensures
        r == s,
{
    assert(signed@.skip(1) =~= plain@);
}

/// A minus sign before a number makes it negative; a signed number is read exactly
/// if it fits in 32 bits.
pub proof fn minus_signs_negate(digits: &str, signed: &str, value: Option<u64>, r: Option<i32>)
    requires
        signed@ == seq!['-'] + digits@,
        call_ensures(parse_number, (digits,), value),
        call_ensures(parse_signed, (signed,), r),
    ensures
        value matches Some(n) && n <= 2_147_483_648 ==> r is Some && r->0 == -(value->0 as int),
        value is None || value->0 > 2_147_483_648 ==> r is None,
{
    assert(signed@.skip(1) =~= digits@);
}

/// A number without a minus sign is read as the same signed number, exactly if it
/// fits in 32 bits.
pub proof fn plain_numbers_are_positive(digits: &str, value: Option<u64>, r: Option<i32>)
    requires
        digits@.len() == 0 || digits@[0] != '-',
        call_ensures(parse_unsigned, (digits,), value),
        call_ensures(parse_signed, (digits,), r),
    ensures
        value matches Some(n) && n <= 2_147_483_647 ==> r is Some && r->0 == value->0,
        value is None || value->0 > 2_147_483_647 ==> r is None,
{
}

/// A signed number is written as its magnitude, with a minus sign exactly if it is
/// negative.
pub proof fn signs_are_written_before_magnitudes(
    n: i64,
    magnitude: u64,
    r: String,
    s: String,
)
    requires
        magnitude == (if n < 0 {
            -(n as int)
        } else {
            n as int
        }),
        call_ensures(signed_decimal_text, (n,), r),
        call_ensures(decimal_text, (magnitude,), s),
    ensures
        n < 0 ==> r@ == seq!['-'] + s@,
        n >= 0 ==> r@ == s@,
{
}

proof fn trimming_takes_a_part(s: Seq<char>)
    ensures
        trim_start(s).len() <= s.len(),
        trim_start(s) == s.skip(s.len() - trim_start(s).len()),
        forall|i: int| 0 <= i < s.len() - trim_start(s).len() ==> is_space(#[trigger] s[i]),
        trim_start(s).len() > 0 ==> !is_space(trim_start(s)[0]),
    decreases s.len(),
{
    if s.len() > 0 && is_space(s[0]) {
        let rest = s.skip(1);
        trimming_takes_a_part(rest);
        let left = trim_start(s);
        assert(left =~= s.skip(s.len() - left.len()));
        assert forall|i: int| 0 <= i < s.len() - left.len() implies is_space(#[trigger] s[i]) by {
            if i > 0 {
                assert(s[i] == rest[i - 1]);
            }
        }
    } else {
        assert(s.skip(0) =~= s);
    }
}

proof fn trimming_the_end_takes_a_part(s: Seq<char>)
    ensures
        trim_end(s).len() <= s.len(),
        trim_end(s) == s.take(trim_end(s).len() as int),
        forall|i: int| trim_end(s).len() <= i < s.len() ==> is_space(#[trigger] s[i]),
        trim_end(s).len() > 0 ==> !is_space(trim_end(s).last()),
    decreases s.len(),
{
    if s.len() > 0 && is_space(s.last()) {
        let rest = s.drop_last();
        trimming_the_end_takes_a_part(rest);
        let left = trim_end(s);
        assert(left =~= s.take(left.len() as int));
        assert forall|i: int| left.len() <= i < s.len() implies is_space(#[trigger] s[i]) by {
            if i < s.len() - 1 {
                assert(s[i] == rest[i]);
            }
        }
    } else {
        assert(s.take(s.len() as int) =~= s);
    }
}

/// What is left of text is one part of it. All that was cut off before and behind
/// it is white space, and it neither begins nor ends with any.
pub proof fn trimming_cuts_only_white_space(s: &str, r: &str) -> (from: int)
    requires
        call_ensures(trimmed, (s,), r),
    ensures
        0 <= from,
        from + r@.len() <= s@.len(),
        r@ == s@.subrange(from, from + r@.len()),
        forall|i: int| 0 <= i < from ==> is_space(#[trigger] s@[i]),
        forall|i: int| from + r@.len() <= i < s@.len() ==> is_space(#[trigger] s@[i]),
        r@.len() > 0 ==> !is_space(r@[0]) && !is_space(r@.last()),
        is_space(' ') && is_space('\t') && is_space('\n') && is_space('\r'),
        forall|c: char| '!' <= c && c <= '~' ==> !#[trigger] is_space(c),
{
    let middle = trim_start(s@);
    trimming_takes_a_part(s@);
    trimming_the_end_takes_a_part(middle);
    let from = s@.len() - middle.len();
    assert(r@ =~= s@.subrange(from, from + r@.len()));
    assert forall|i: int| from + r@.len() <= i < s@.len() implies is_space(#[trigger] s@[i]) by {
        assert(s@[i] == middle[i - from]);
    }
    if r@.len() > 0 {
        assert(r@[0] == middle[0]);
    }
    from
}

/// Text is found in every text that is made of it and something before and behind
/// it.
pub proof fn parts_are_found(hay: &str, before: Seq<char>, needle: &str, behind: Seq<char>, r: bool)
    requires
        hay@ == before + needle@ + behind,
        call_ensures(str_contains, (hay, needle), r),
    ensures
        r,
{
    let i = before.len() as int;
    assert(hay@.subrange(i, i + needle@.len()) =~= needle@);
}

/// Text that is found has something before it and something behind it that
/// together with it make up the whole.
pub proof fn found_text_is_a_part(hay: &str, needle: &str, r: bool) -> (parts: (
    Seq<char>,
    Seq<char>,
))
    requires
        call_ensures(str_contains, (hay, needle), r),
        r,
    ensures
        hay@ == parts.0 + needle@ + parts.1,
{
    let i = choose|i: int|
        0 <= i <= hay@.len() - needle@.len() && #[trigger] hay@.subrange(i, i + needle@.len())
            == needle@;
    let before = hay@.take(i);
    let behind = hay@.skip(i + needle@.len());
    let middle = hay@.subrange(i, i + needle@.len());
    assert(hay@ =~= before + middle + behind);
    (before, behind)
}

/// Two texts, or two byte strings, are equal exactly if they agree in length and in
/// every place.
pub proof fn equal_texts_agree_everywhere(a: &str, b: &str, r: bool, x: &[u8], y: &[u8], s: bool)
    requires
        call_ensures(str_equal, (a, b), r),
        call_ensures(bytes_equal, (x, y), s),
    ensures
        r <==> a@.len() == b@.len() && forall|i: int| 0 <= i < a@.len() ==> #[trigger] a@[i] == b@[i],
        s <==> x@.len() == y@.len() && forall|i: int| 0 <= i < x@.len() ==> #[trigger] x@[i] == y@[i],
{
    if a@.len() == b@.len() && forall|i: int| 0 <= i < a@.len() ==> #[trigger] a@[i] == b@[i] {
        assert(a@ =~= b@);
    }
    if x@.len() == y@.len() && forall|i: int| 0 <= i < x@.len() ==> #[trigger] x@[i] == y@[i] {
        assert(x@ =~= y@);
    }
}

/// Different bytes have different hexadecimal notations.
pub proof fn hexadecimal_notation_is_unique(one: Seq<u8>, other: Seq<u8>)
    requires
        hex(one) == hex(other),
    ensures
        one == other,
    decreases one.len(),
{
    hex_length(one);
    hex_length(other);
    if one.len() > 0 {
        let a = hex(one);
        let b = hex(other);
        assert(a.take(a.len() - 2) =~= hex(one.drop_last()));
        assert(b.take(b.len() - 2) =~= hex(other.drop_last()));
        assert(a[a.len() - 2] == hex_digit(one.last() as nat / 16));
        assert(a[a.len() - 1] == hex_digit(one.last() as nat % 16));
        assert(b[b.len() - 2] == hex_digit(other.last() as nat / 16));
        assert(b[b.len() - 1] == hex_digit(other.last() as nat % 16));
        hexadecimal_notation_is_unique(one.drop_last(), other.drop_last());
        assert(one =~= one.drop_last().push(one.last()));
        assert(other =~= other.drop_last().push(other.last()));
    } else {
        assert(one =~= other);
    }
}

/// Bytes are written with two digits each, the higher one first.
pub proof fn bytes_are_written_with_two_digits(byte: u8, bytes: &[u8], r: String)
    requires
        bytes@ == seq![byte],
        call_ensures(hex_text, (bytes,), r),
    ensures
        r@.len() == 2,
        byte / 16 < 10 ==> r@[0] == (48 + byte / 16) as char,
        byte / 16 >= 10 ==> r@[0] == (87 + byte / 16) as char,
        byte % 16 < 10 ==> r@[1] == (48 + byte % 16) as char,
        byte % 16 >= 10 ==> r@[1] == (87 + byte % 16) as char,
{
    hex_length(bytes@);
    assert(bytes@.drop_last() =~= Seq::<u8>::empty());
    reveal_with_fuel(hex, 2);
}

/// A word is taken out of two lists, one behind the other, as out of each of them.
pub proof fn without_of_concat(a: Seq<Seq<char>>, b: Seq<Seq<char>>, word: Seq<char>)
    ensures
        without(a + b, word) == without(a, word) + without(b, word),
    decreases b.len(),
{
    if b.len() == 0 {
        assert(a + b =~= a);
        assert(without(a, word) + without(b, word) =~= without(a, word));
    } else {
        without_of_concat(a, b.drop_last(), word);
        assert((a + b).drop_last() =~= a + b.drop_last());
        assert((a + b).last() == b.last());
        assert(without(a + b, word) =~= without(a, word) + without(b, word));
    }
}

/// Taking a word out of a list takes out every occurrence of it and nothing else:
/// what is before and behind an occurrence stays, in order, and a list without the
/// word stays as it is.
pub proof fn words_are_taken_out_one_by_one(
    before: Seq<Seq<char>>,
    word: Seq<char>,
    behind: Seq<Seq<char>>,
)
    ensures
        without(before + seq![word] + behind, word) == without(before, word) + without(
            behind,
            word,
        ),
        !before.contains(word) ==> without(before, word) == before,
        !without(before, word).contains(word),
    decreases before.len(),
{
    without_of_concat(before + seq![word], behind, word);
    without_of_concat(before, seq![word], word);
    assert(seq![word].drop_last() =~= Seq::<Seq<char>>::empty());
    reveal_with_fuel(without, 2);
    assert(without(before, word) + Seq::<Seq<char>>::empty() =~= without(before, word));
    if before.len() > 0 {
        let rest = before.drop_last();
        words_are_taken_out_one_by_one(rest, word, behind);
        let kept = without(before, word);
        if before.last() != word {
            assert forall|i: int| 0 <= i < kept.len() implies #[trigger] kept[i] != word by {
                if i < kept.len() - 1 {
                    assert(kept[i] == without(rest, word)[i]);
                }
            }
        }
        if !before.contains(word) {
            assert forall|i: int| 0 <= i < rest.len() implies #[trigger] rest[i] != word by {
                assert(rest[i] == before[i]);
            }
            assert(before[before.len() - 1] != word);
            assert(kept =~= before);
        }
    }
}

/// A list without a word is what is left of the list, and whether the word was
/// there is said.
pub proof fn lists_say_whether_a_word_was_there(
    list: &[String],
    word: &str,
    r: (Vec<String>, bool),
)
    requires
        call_ensures(strings_without, (list, word), r),
    ensures
        r.1 <==> exists|i: int| 0 <= i < list@.len() && (#[trigger] list@[i])@ == word@,
        texts(r.0@) == without(texts(list@), word@),
        forall|i: int| 0 <= i < r.0@.len() ==> (#[trigger] r.0@[i])@ != word@,
{
    words_are_taken_out_one_by_one(texts(list@), word@, Seq::empty());
    if r.1 {
        let i = choose|i: int| 0 <= i < texts(list@).len() && texts(list@)[i] == word@;
        assert(list@[i]@ == word@);
    }
    if exists|i: int| 0 <= i < list@.len() && (#[trigger] list@[i])@ == word@ {
        let i = choose|i: int| 0 <= i < list@.len() && (#[trigger] list@[i])@ == word@;
        assert(texts(list@)[i] == word@);
    }
    assert forall|i: int| 0 <= i < r.0@.len() implies (#[trigger] r.0@[i])@ != word@ by {
        assert(texts(r.0@)[i] == r.0@[i]@);
    }
}

/// Parts of a byte string are what stands there, and parts that meet join to the
/// part from the first to the last.
pub proof fn parts_of_bytes_join(
    bytes: &[u8],
    from: usize,
    middle: usize,
    to: usize,
    one: Vec<u8>,
    other: Vec<u8>,
    whole: Vec<u8>,
    copy: Vec<u8>,
)
    requires
        from <= middle <= to <= bytes@.len(),
        call_ensures(bytes_range, (bytes, from, middle), one),
        call_ensures(bytes_range, (bytes, middle, to), other),
        call_ensures(bytes_range, (bytes, from, to), whole),
        call_ensures(bytes_copy, (bytes,), copy),
    ensures
        whole@ == one@ + other@,
        one@.len() == middle - from,
        forall|i: int| 0 <= i < one@.len() ==> #[trigger] one@[i] == bytes@[from + i],
        copy@ == bytes@,
{
    assert(whole@ =~= one@ + other@);
}

/// Joined texts keep every part, one after the other.
pub proof fn joined_texts_keep_their_parts(a: &str, b: &str, c: &str, r: String, s: String)
    requires
        call_ensures(join, (a, b), r),
        call_ensures(join3, (a, b, c), s),
    ensures
        r@.len() == a@.len() + b@.len(),
        r@.take(a@.len() as int) == a@,
        r@.skip(a@.len() as int) == b@,
        s@ == r@ + c@,
{
    assert(r@.take(a@.len() as int) =~= a@);
    assert(r@.skip(a@.len() as int) =~= b@);
}

/// The strings from a place on are the same strings, in the same order.
pub proof fn later_strings_are_kept(list: &[String], from: usize, r: Vec<String>)
    requires
        from <= list@.len(),
        call_ensures(strings_from, (list, from), r),
    ensures
        r@.len() == list@.len() - from,
        forall|i: int| 0 <= i < r@.len() ==> (#[trigger] r@[i])@ == list@[from + i]@,
{
    assert(texts(r@).len() == r@.len());
    assert forall|i: int| 0 <= i < r@.len() implies (#[trigger] r@[i])@ == list@[from + i]@ by {
        assert(texts(r@)[i] == r@[i]@);
        assert(texts(list@).skip(from as int)[i] == list@[from + i]@);
    }
}

} // verus!
