//! Rendering of numbers and comparison of strings.

use vstd::prelude::*;

verus! {

/// The lower-case digit for `n`, a value below 16.
pub open spec fn digit(n: int) -> char {
    if n < 10 {
        ('0' as int + n) as char
    } else {
        ('a' as int + (n - 10)) as char
    }
}

/// `n` as two lower-case hexadecimal digits.
pub open spec fn hex2_text(n: u8) -> Seq<char> {
    seq![digit(n as int / 16), digit(n as int % 16)]
}

/// `n` as four lower-case hexadecimal digits.
pub open spec fn hex4_text(n: u16) -> Seq<char> {
    seq![
        digit(n as int / 4096),
        digit(n as int / 256 % 16),
        digit(n as int / 16 % 16),
        digit(n as int % 16),
    ]
}

/// A sector number as it is shown to users: `0x` and four digits.
pub open spec fn sector_text(sector: u16) -> Seq<char> {
    "0x"@ + hex4_text(sector)
}

/// `n` in decimal, without leading zeros.
pub open spec fn decimal_text(n: nat) -> Seq<char>
    decreases n,
{
    if n < 10 {
        seq![digit(n as int)]
    } else {
        decimal_text(n / 10).push(digit(n as int % 10))
    }
}

/// The view of an optional string.
pub open spec fn text_view(text: Option<String>) -> Option<Seq<char>> {
    match text {
        Some(text) => Some(text@),
        None => None,
    }
}

/// The views of a list of strings.
pub open spec fn texts(list: Seq<String>) -> Seq<Seq<char>> {
    Seq::new(list.len(), |i: int| list[i]@)
}

/// The one-character string for a digit below 16.
fn digit_str(n: u8) -> (s: &'static str)
    requires
        n < 16,
    ensures
        s@ == seq![digit(n as int)],
{
    proof {
        reveal_strlit("0");
        reveal_strlit("1");
        reveal_strlit("2");
        reveal_strlit("3");
        reveal_strlit("4");
        reveal_strlit("5");
        reveal_strlit("6");
        reveal_strlit("7");
        reveal_strlit("8");
        reveal_strlit("9");
        reveal_strlit("a");
        reveal_strlit("b");
        reveal_strlit("c");
        reveal_strlit("d");
        reveal_strlit("e");
        reveal_strlit("f");
    }
    let s: &'static str = match n {
        0 => "0",
        1 => "1",
        2 => "2",
        3 => "3",
        4 => "4",
        5 => "5",
        6 => "6",
        7 => "7",
        8 => "8",
        9 => "9",
        10 => "a",
        11 => "b",
        12 => "c",
        13 => "d",
        14 => "e",
        _ => "f",
    };
    assert(s@ =~= seq![digit(n as int)]);
    s
}

/// Renders `n` as two lower-case hexadecimal digits.
pub fn hex2(n: u8) -> (s: String)
    ensures
        s@ == hex2_text(n),
{
    let mut s = String::new();
    s.append(digit_str(n / 16));
    s.append(digit_str(n % 16));
    assert(s@ =~= hex2_text(n));
    s
}

/// Renders `n` as four lower-case hexadecimal digits.
pub fn hex4(n: u16) -> (s: String)
    ensures
        s@ == hex4_text(n),
{
    let mut s = String::new();
    s.append(digit_str((n / 4096) as u8));
    s.append(digit_str((n / 256 % 16) as u8));
    s.append(digit_str((n / 16 % 16) as u8));
    s.append(digit_str((n % 16) as u8));
    assert(s@ =~= hex4_text(n));
    s
}

/// Renders a sector number as `0x` and four hexadecimal digits.
pub fn sector(n: u16) -> (s: String)
    ensures
        s@ == sector_text(n),
{
    let mut s = "0x".to_owned();
    s.append(hex4(n).as_str());
    s
}

/// Renders `n` in decimal.
pub fn decimal(n: u64) -> (s: String)
    ensures
        s@ == decimal_text(n as nat),
    decreases n,
{
    if n < 10 {
        digit_str(n as u8).to_owned()
    } else {
        let mut s = decimal(n / 10);
        s.append(digit_str((n % 10) as u8));
        assert(s@ =~= decimal_text(n as nat));
        s
    }
}

/// Joins three strings.
pub fn join3(a: &str, b: &str, c: &str) -> (s: String)
    ensures
        s@ == a@ + b@ + c@,
{
    let mut s = a.to_owned();
    s.append(b);
    s.append(c);
    s
}

/// Joins two strings.
pub fn join2(a: &str, b: &str) -> (s: String)
    ensures
        s@ == a@ + b@,
{
    let mut s = a.to_owned();
    s.append(b);
    s
}

/// Appends a line to a list of lines.
pub fn push_line(lines: &mut Vec<String>, line: String)
    ensures
        texts(final(lines)@) == texts(old(lines)@).push(line@),
{
    let ghost before = texts(lines@);
    lines.push(line);
    assert(texts(lines@) =~= before.push(line@));
}

/// Whether two strings hold the same characters.
pub fn same(a: &str, b: &str) -> (equal: bool)
    ensures
        equal == (a@ == b@),
{
    a.to_owned() == b.to_owned()
}

/// Whether `a` sorts before `b`: character by character, a proper prefix first.
pub open spec fn sorts_before(a: Seq<char>, b: Seq<char>) -> bool
    decreases a.len(),
{
    if b.len() == 0 {
        false
    } else if a.len() == 0 {
        true
    } else if a[0] == b[0] {
        sorts_before(a.drop_first(), b.drop_first())
    } else {
        (a[0] as int) < (b[0] as int)
    }
}

/// No string sorts before itself.
pub proof fn sorts_before_irreflexive(a: Seq<char>)
    ensures
        !sorts_before(a, a),
    decreases a.len(),
{
    if a.len() > 0 {
        sorts_before_irreflexive(a.drop_first());
    }
}

/// The order of strings is transitive.
pub proof fn sorts_before_transitive(a: Seq<char>, b: Seq<char>, c: Seq<char>)
    requires
        sorts_before(a, b),
        sorts_before(b, c),
    ensures
        sorts_before(a, c),
    decreases a.len(),
{
    if a.len() > 0 && a[0] == b[0] && b[0] == c[0] {
        sorts_before_transitive(a.drop_first(), b.drop_first(), c.drop_first());
    }
}

/// Of two different strings one sorts before the other.
pub proof fn sorts_before_total(a: Seq<char>, b: Seq<char>)
    requires
        a != b,
    ensures
        sorts_before(a, b) || sorts_before(b, a),
    decreases a.len(),
{
    if a.len() > 0 && b.len() > 0 {
        if a[0] == b[0] {
            if a.drop_first() == b.drop_first() {
                assert(a =~= seq![a[0]] + a.drop_first());
                assert(b =~= seq![b[0]] + b.drop_first());
            }
            sorts_before_total(a.drop_first(), b.drop_first());
        }
    } else {
        assert(a.len() == 0 && b.len() == 0 ==> a =~= b);
    }
}

/// Compares two strings character by character.
pub fn before(a: &str, b: &str) -> (less: bool)
    ensures
        less == sorts_before(a@, b@),
{
    let a_len: usize = a.unicode_len();
    let b_len: usize = b.unicode_len();
    let mut i: usize = 0;
    assert(a@.skip(0) =~= a@);
    assert(b@.skip(0) =~= b@);
    while i < a_len && i < b_len
        invariant
            a_len == a@.len(),
            b_len == b@.len(),
            i <= a_len,
            i <= b_len,
            sorts_before(a@, b@) == sorts_before(a@.skip(i as int), b@.skip(i as int)),
        decreases a_len - i,
    {
        let x = a.get_char(i);
        let y = b.get_char(i);
        if x != y {
            return x < y;
        }
        assert(a@.skip(i as int).drop_first() =~= a@.skip(i + 1));
        assert(b@.skip(i as int).drop_first() =~= b@.skip(i + 1));
        i += 1;
    }
    i < b_len
}

/// The value of one digit character, in any base up to sixteen.
pub open spec fn digit_value(c: char) -> int {
    if '0' <= c <= '9' {
        c as int - '0' as int
    } else {
        c as int - 'a' as int + 10
    }
}

/// The number that a row of digits stands for in `base`.
pub open spec fn number_of(digits: Seq<char>, base: int) -> int
    decreases digits.len(),
{
    if digits.len() == 0 {
        0
    } else {
        number_of(digits.drop_last(), base) * base + digit_value(digits.last())
    }
}

/// Whether `c` is a lower-case hexadecimal digit.
pub open spec fn is_hex_digit(c: char) -> bool {
    '0' <= c <= '9' || 'a' <= c <= 'f'
}

proof fn lemma_digit(n: int)
    requires
        0 <= n < 16,
    ensures
        digit_value(digit(n)) == n,
        is_hex_digit(digit(n)),
        n < 10 ==> '0' <= digit(n) <= '9',
        digit(n) == '0' <==> n == 0,
{
}

/// A hexadecimal rendering has its fixed number of lower-case digits and reads back
/// as the number it was made of. A sector number is shown as `0x` and such digits.
pub proof fn hexadecimal_reads_back(byte: u8, word: u16)
    ensures
        hex2_text(byte).len() == 2,
        number_of(hex2_text(byte), 16) == byte,
        forall|i: int| 0 <= i < 2 ==> is_hex_digit(#[trigger] hex2_text(byte)[i]),
        hex4_text(word).len() == 4,
        number_of(hex4_text(word), 16) == word,
        forall|i: int| 0 <= i < 4 ==> is_hex_digit(#[trigger] hex4_text(word)[i]),
        sector_text(word).len() == 6,
        sector_text(word)[0] == '0',
        sector_text(word)[1] == 'x',
        sector_text(word).skip(2) == hex4_text(word),
{
    reveal_strlit("0x");
    let two = hex2_text(byte);
    let four = hex4_text(word);
    lemma_digit(byte as int / 16);
    lemma_digit(byte as int % 16);
    lemma_digit(word as int / 4096);
    lemma_digit(word as int / 256 % 16);
    lemma_digit(word as int / 16 % 16);
    lemma_digit(word as int % 16);
    reveal_with_fuel(number_of, 6);
    assert(two.drop_last().drop_last() =~= Seq::empty());
    assert(four.drop_last().drop_last().drop_last().drop_last() =~= Seq::empty());
    assert(sector_text(word).skip(2) =~= four);
}

/// A decimal rendering has digits only and no leading zero, and reads back as the
/// number it was made of.
pub proof fn decimal_reads_back(n: nat)
    ensures
        decimal_text(n).len() > 0,
        number_of(decimal_text(n), 10) == n,
        forall|i: int|
            0 <= i < decimal_text(n).len() ==> '0' <= #[trigger] decimal_text(n)[i] <= '9',
        decimal_text(n)[0] == '0' ==> n == 0 && decimal_text(n).len() == 1,
    decreases n,
{
    reveal_with_fuel(number_of, 2);
    if n < 10 {
        lemma_digit(n as int);
        assert(decimal_text(n).drop_last() =~= Seq::empty());
    } else {
        decimal_reads_back(n / 10);
        lemma_digit(n as int % 10);
        assert(decimal_text(n).drop_last() =~= decimal_text(n / 10));
    }
}

/// Strings are ordered by the first character in which they differ.
pub proof fn first_difference_decides(a: Seq<char>, b: Seq<char>, i: int)
    requires
        0 <= i < a.len(),
        i < b.len(),
        forall|j: int| 0 <= j < i ==> a[j] == b[j],
        a[i] < b[i],
    ensures
        sorts_before(a, b),
        !sorts_before(b, a),
    decreases i,
{
    if i > 0 {
        assert(a[0] == b[0]);
        assert forall|j: int| 0 <= j < i - 1 implies a.drop_first()[j] == b.drop_first()[j] by {
            assert(a[j + 1] == b[j + 1]);
        }
        first_difference_decides(a.drop_first(), b.drop_first(), i - 1);
    }
}

/// A string sorts before every longer one that begins with it.
pub proof fn prefix_sorts_first(a: Seq<char>, b: Seq<char>)
    requires
        a.len() < b.len(),
        forall|j: int| 0 <= j < a.len() ==> a[j] == b[j],
    ensures
        sorts_before(a, b),
        !sorts_before(b, a),
    decreases a.len(),
{
    if a.len() > 0 {
        assert(a[0] == b[0]);
        assert forall|j: int| 0 <= j < a.len() - 1 implies a.drop_first()[j]
            == b.drop_first()[j] by {
            assert(a[j + 1] == b[j + 1]);
        }
        prefix_sorts_first(a.drop_first(), b.drop_first());
    }
}

/// The texts of a list are those of its strings, in their order, and the text of an
/// optional string is that of the string.
pub proof fn texts_are_those_of_the_strings(list: Seq<String>, i: int, text: Option<String>)
    ensures
        texts(list).len() == list.len(),
        0 <= i < list.len() ==> texts(list)[i] == list[i]@,
        text_view(text) is Some <==> text is Some,
        text matches Some(shown) ==> text_view(text) == Some(shown@),
{
}

/// A sector is printed as `0x` and the four hexadecimal digits of its number.
pub proof fn sectors_are_printed_in_hexadecimal(sector: u16)
    ensures
        sector_text(sector).len() == 6,
        sector_text(sector)[0] == '0',
        sector_text(sector)[1] == 'x',
        number_of(sector_text(sector).skip(2), 16) == sector,
{
    reveal_strlit("0x");
    hexadecimal_reads_back(0, sector);
    assert(sector_text(sector).skip(2) =~= hex4_text(sector));
}

} // verus!
