//! Decimal and hexadecimal renderings used to build canonical records.
use vstd::prelude::*;
use vstd::string::*;

verus! {

/// The character of a decimal digit.
pub open spec fn digit_char(d: nat) -> char {
    seq!['0', '1', '2', '3', '4', '5', '6', '7', '8', '9'][d as int]
}

/// The character of a lowercase hexadecimal digit.
pub open spec fn hex_char(d: nat) -> char {
    seq!['0', '1', '2', '3', '4', '5', '6', '7', '8', '9', 'a', 'b', 'c', 'd', 'e', 'f'][d as int]
}

/// The decimal rendering of a natural number, without leading zeros.
pub open spec fn decimal(n: nat) -> Seq<char>
    decreases n,
{
    if n < 10 {
        seq![digit_char(n)]
    } else {
        decimal(n / 10).push(digit_char(n % 10))
    }
}

/// The decimal rendering of an integer, with a leading `-` when negative.
pub open spec fn signed_decimal(v: int) -> Seq<char> {
    if v < 0 {
        seq!['-'] + decimal((-v) as nat)
    } else {
        decimal(v as nat)
    }
}

/// Lowercase hexadecimal rendering of bytes, two digits per byte, high nibble first.
pub open spec fn hex_lower(bytes: Seq<u8>) -> Seq<char>
    decreases bytes.len(),
{
    if bytes.len() == 0 {
        seq![]
    } else {
        hex_lower(bytes.drop_last()) + seq![
            hex_char((bytes.last() / 16) as nat),
            hex_char((bytes.last() % 16) as nat),
        ]
    }
}

fn digit_str(d: u64) -> (s: &'static str)
    requires
        d < 10,
    ensures
        s@ == seq![digit_char(d as nat)],
{
    match d {
        0 => { proof { reveal_strlit("0"); } assert("0"@ =~= seq![digit_char(0)]); "0" },
        1 => { proof { reveal_strlit("1"); } assert("1"@ =~= seq![digit_char(1)]); "1" },
        2 => { proof { reveal_strlit("2"); } assert("2"@ =~= seq![digit_char(2)]); "2" },
        3 => { proof { reveal_strlit("3"); } assert("3"@ =~= seq![digit_char(3)]); "3" },
        4 => { proof { reveal_strlit("4"); } assert("4"@ =~= seq![digit_char(4)]); "4" },
        5 => { proof { reveal_strlit("5"); } assert("5"@ =~= seq![digit_char(5)]); "5" },
        6 => { proof { reveal_strlit("6"); } assert("6"@ =~= seq![digit_char(6)]); "6" },
        7 => { proof { reveal_strlit("7"); } assert("7"@ =~= seq![digit_char(7)]); "7" },
        8 => { proof { reveal_strlit("8"); } assert("8"@ =~= seq![digit_char(8)]); "8" },
        _ => { proof { reveal_strlit("9"); } assert("9"@ =~= seq![digit_char(9)]); "9" },
    }
}

/// Renders `n` in decimal.
pub fn decimal_string(n: u64) -> (s: String)
    ensures
        s@ == decimal(n as nat),
    decreases n,
{
    if n < 10 {
        String::from_str(digit_str(n))
    } else {
        let mut s = decimal_string(n / 10);
        s.append(digit_str(n % 10));
        s
    }
}

/// Renders `v` in decimal, as `Display` does for signed integers.
pub fn signed_decimal_string(v: i64) -> (s: String)
    ensures
        s@ == signed_decimal(v as int),
{
    if v < 0 {
        let magnitude: u64 = (-(v as i128)) as u64;
        let digits = decimal_string(magnitude);
        let mut s = String::from_str("-");
        proof { reveal_strlit("-"); }
        s.append(digits.as_str());
        s
    } else {
        decimal_string(v as u64)
    }
}

} // verus!

verus! {

fn hex_digit_str(d: u8) -> (s: &'static str)
    requires
        d < 16,
    ensures
        s@ == seq![hex_char(d as nat)],
{
    match d {
        0 => { proof { reveal_strlit("0"); } assert("0"@ =~= seq![hex_char(0)]); "0" },
        1 => { proof { reveal_strlit("1"); } assert("1"@ =~= seq![hex_char(1)]); "1" },
        2 => { proof { reveal_strlit("2"); } assert("2"@ =~= seq![hex_char(2)]); "2" },
        3 => { proof { reveal_strlit("3"); } assert("3"@ =~= seq![hex_char(3)]); "3" },
        4 => { proof { reveal_strlit("4"); } assert("4"@ =~= seq![hex_char(4)]); "4" },
        5 => { proof { reveal_strlit("5"); } assert("5"@ =~= seq![hex_char(5)]); "5" },
        6 => { proof { reveal_strlit("6"); } assert("6"@ =~= seq![hex_char(6)]); "6" },
        7 => { proof { reveal_strlit("7"); } assert("7"@ =~= seq![hex_char(7)]); "7" },
        8 => { proof { reveal_strlit("8"); } assert("8"@ =~= seq![hex_char(8)]); "8" },
        9 => { proof { reveal_strlit("9"); } assert("9"@ =~= seq![hex_char(9)]); "9" },
        10 => { proof { reveal_strlit("a"); } assert("a"@ =~= seq![hex_char(10)]); "a" },
        11 => { proof { reveal_strlit("b"); } assert("b"@ =~= seq![hex_char(11)]); "b" },
        12 => { proof { reveal_strlit("c"); } assert("c"@ =~= seq![hex_char(12)]); "c" },
        13 => { proof { reveal_strlit("d"); } assert("d"@ =~= seq![hex_char(13)]); "d" },
        14 => { proof { reveal_strlit("e"); } assert("e"@ =~= seq![hex_char(14)]); "e" },
        _ => { proof { reveal_strlit("f"); } assert("f"@ =~= seq![hex_char(15)]); "f" },
    }
}

/// Lowercase hexadecimal of `bytes`, two digits per byte.
pub fn hex_string(bytes: &[u8]) -> (s: String)
    ensures
        s@ == hex_lower(bytes@),
{
    let mut s = String::new();
    let n = bytes.len();
    for i in 0..n
        invariant
            n == bytes@.len(),
            s@ == hex_lower(bytes@.take(i as int)),
    {
        let b = bytes[i];
        s.append(hex_digit_str(b / 16));
        s.append(hex_digit_str(b % 16));
        assert(bytes@.take(i + 1).drop_last() =~= bytes@.take(i as int));
    }
    assert(bytes@.take(n as int) =~= bytes@);
    s
}

} // verus!

verus! {

/// How `Debug` renders a string slice: in double quotes, with quotes,
/// backslashes and non-printable characters escaped.
pub uninterp spec fn debug_quoted_of(s: Seq<char>) -> Seq<char>;

/// Calls `<str as Debug>::fmt` through `format!("{:?}")`. The result is
/// named, a function of the text alone; its escaping rules are not stated.
#[verifier::external_body]
pub(crate) fn debug_quoted(s: &str) -> (quoted: String)
    ensures
        quoted@ == debug_quoted_of(s@),
{
    format!("{:?}", s)
}

} // verus!

verus! {

proof fn lemma_digit_char_injective(x: nat, y: nat)
    requires
        x < 10,
        y < 10,
        digit_char(x) == digit_char(y),
    ensures
        x == y,
{
    let s = seq!['0', '1', '2', '3', '4', '5', '6', '7', '8', '9'];
    assert(s[0] == '0' && s[1] == '1' && s[2] == '2' && s[3] == '3' && s[4] == '4');
    assert(s[5] == '5' && s[6] == '6' && s[7] == '7' && s[8] == '8' && s[9] == '9');
}

proof fn lemma_decimal_len(n: nat)
    ensures
        decimal(n).len() >= 1,
        n >= 10 ==> decimal(n).len() >= 2,
    decreases n,
{
    if n >= 10 {
        lemma_decimal_len(n / 10);
    }
}

/// Different numbers have different decimal renderings.
pub proof fn lemma_decimal_injective(a: nat, b: nat)
    requires
        decimal(a) == decimal(b),
    ensures
        a == b,
    decreases a,
{
    lemma_decimal_len(a);
    lemma_decimal_len(b);
    if a < 10 && b < 10 {
        assert(decimal(a)[0] == digit_char(a));
        assert(decimal(b)[0] == digit_char(b));
        lemma_digit_char_injective(a, b);
    } else if a >= 10 && b >= 10 {
        let da = decimal(a / 10);
        let db = decimal(b / 10);
        assert(decimal(a) == da.push(digit_char(a % 10)));
        assert(decimal(b) == db.push(digit_char(b % 10)));
        assert(decimal(a).last() == digit_char(a % 10));
        lemma_digit_char_injective(a % 10, b % 10);
        assert(da =~= decimal(a).drop_last());
        assert(db =~= decimal(b).drop_last());
        lemma_decimal_injective(a / 10, b / 10);
    } else if a < 10 {
        lemma_decimal_len(b / 10);
        assert(decimal(a).len() == 1);
    } else {
        lemma_decimal_len(a / 10);
        assert(decimal(b).len() == 1);
    }
}

} // verus!
