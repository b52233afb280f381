//! The files of a shared credential directory and their names.

use vstd::prelude::*;
use vstd::string::*;

verus! {

/// A file in the shared credential directory.
#[derive(Clone, Copy, Debug, PartialEq, Eq, Structural)]
pub enum FileName {
    /// The credentials themselves.
    Credentials,
    /// The file that writers lock.
    Lock,
    /// A replacement for the credentials while it is being written.
    Temporary(u64),
}

/// The lower-case hexadecimal digit of a value below sixteen.
pub open spec fn hex_digit(value: nat) -> char {
    if value < 10 {
        ('0' as u32 + value) as char
    } else {
        ('a' as u32 + (value - 10)) as char
    }
}

/// The last `width` hexadecimal digits of `value`, with leading zeros.
pub open spec fn hex(value: nat, width: nat) -> Seq<char>
    decreases width,
{
    if width == 0 {
        Seq::empty()
    } else {
        hex(value / 16, (width - 1) as nat).push(hex_digit(value % 16))
    }
}

/// The name of a file, as it stands in the directory.
pub open spec fn name_text(name: FileName) -> Seq<char> {
    match name {
        FileName::Credentials => "auth.json"@,
        FileName::Lock => "auth.lock"@,
        FileName::Temporary(suffix) => ".auth-"@ + hex(suffix as nat, 16) + ".tmp"@,
    }
}

/// The text of a hexadecimal digit.
fn digit_text(value: u64) -> (text: &'static str)
    requires
        value < 16,
    ensures
        text@ == seq![hex_digit(value as nat)],
{
    proof {
        reveal_strlit("0");
        reveal_strlit("1");
        reveal_strlit("2");
        reveal_strlit("3");
        reveal_strlit("4");
        reveal_strlit("5");
        reveal_strlit("6");
        reveal_strlit("7");
        reveal_strlit("8");
        reveal_strlit("9");
        reveal_strlit("a");
        reveal_strlit("b");
        reveal_strlit("c");
        reveal_strlit("d");
        reveal_strlit("e");
        reveal_strlit("f");
    }
    if value == 0 {
        "0"
    } else if value == 1 {
        "1"
    } else if value == 2 {
        "2"
    } else if value == 3 {
        "3"
    } else if value == 4 {
        "4"
    } else if value == 5 {
        "5"
    } else if value == 6 {
        "6"
    } else if value == 7 {
        "7"
    } else if value == 8 {
        "8"
    } else if value == 9 {
        "9"
    } else if value == 10 {
        "a"
    } else if value == 11 {
        "b"
    } else if value == 12 {
        "c"
    } else if value == 13 {
        "d"
    } else if value == 14 {
        "e"
    } else {
        "f"
    }
}

/// The text of digits that are listed from the last to the first.
spec fn listed_text(digits: Seq<u64>) -> Seq<char> {
    Seq::new(digits.len(), |i: int| hex_digit(digits[digits.len() - 1 - i] as nat))
}

/// The last `width` hexadecimal digits of `value`, with leading zeros.
pub fn hex_text(value: u64, width: u32) -> (text: String)
    ensures
        text@ == hex(value as nat, width as nat),
{
    let mut digits: Vec<u64> = Vec::new();
    let mut rest: u64 = value;
    let mut left: u32 = width;
    assert(hex(value as nat, width as nat) + listed_text(digits@) =~= hex(
        value as nat,
        width as nat,
    ));
    while left > 0
        invariant
            hex(value as nat, width as nat) == hex(rest as nat, left as nat) + listed_text(digits@),
            forall|j: int| 0 <= j < digits.len() ==> #[trigger] digits@[j] < 16,
        decreases left,
    {
        let ghost listed = digits@;
        let digit: u64 = rest % 16;
        proof {
            let fewer = hex((rest / 16) as nat, (left - 1) as nat);
            assert(listed_text(listed.push(digit)) =~= seq![hex_digit(digit as nat)] + listed_text(
                listed,
            ));
            assert(fewer.push(hex_digit(digit as nat)) + listed_text(listed) =~= fewer
                + listed_text(listed.push(digit)));
        }
        digits.push(digit);
        rest = rest / 16;
        left = left - 1;
    }
    assert(hex(value as nat, width as nat) =~= listed_text(digits@));
    let mut text: String = String::new();
    let mut i: usize = digits.len();
    assert(text@ =~= listed_text(digits@).take(0));
    while i > 0
        invariant
            i <= digits.len(),
            text@ == listed_text(digits@).take(digits.len() - i),
            forall|j: int| 0 <= j < digits.len() ==> #[trigger] digits@[j] < 16,
        decreases i,
    {
        i = i - 1;
        text.append(digit_text(digits[i]));
        assert(text@ =~= listed_text(digits@).take(digits.len() - i));
    }
    assert(text@ =~= listed_text(digits@));
    text
}

impl FileName {
    /// The name of the file, as it stands in the directory.
    pub fn text(&self) -> (text: String)
        ensures
            text@ == name_text(*self),
    {
        match self {
            FileName::Credentials => "auth.json".to_owned(),
            FileName::Lock => "auth.lock".to_owned(),
            FileName::Temporary(suffix) => {
                let mut text: String = ".auth-".to_owned();
                let digits: String = hex_text(*suffix, 16);
                text.append(digits.as_str());
                text.append(".tmp");
                text
            },
        }
    }
}

/// Calls `rand::random::<u64>()`, which draws a `u64` from the thread's random
/// generator. Nothing is claimed of the number: a draw may give any value.
#[verifier::external_body]
pub(crate) fn random_suffix() -> (suffix: u64) {
    rand::random::<u64>()
}

/// The value of a hexadecimal digit decides the digit.
proof fn hex_digit_injective(a: nat, b: nat)
    requires
        a < 16,
        b < 16,
        hex_digit(a) == hex_digit(b),
    ensures
        a == b,
{
    assert(forall|v: nat| v < 16 ==> #[trigger] hex_digit(v) as u32 == (if v < 10 {
        48 + v
    } else {
        87 + v
    }));
}

/// Sixteen to the power of `width`.
pub open spec fn span(width: nat) -> nat
    decreases width,
{
    if width == 0 {
        1
    } else {
        16 * span((width - 1) as nat)
    }
}

proof fn hex_injective(a: nat, b: nat, width: nat)
    requires
        a < span(width),
        b < span(width),
        hex(a, width) == hex(b, width),
    ensures
        a == b,
    decreases width,
{
    if width > 0 {
        let left = hex(a / 16, (width - 1) as nat);
        let right = hex(b / 16, (width - 1) as nat);
        assert(hex(a, width).drop_last() =~= left);
        assert(hex(b, width).drop_last() =~= right);
        assert(hex(a, width).last() == hex_digit(a % 16));
        assert(hex(b, width).last() == hex_digit(b % 16));
        hex_digit_injective(a % 16, b % 16);
        hex_injective(a / 16, b / 16, (width - 1) as nat);
    }
}

proof fn hex_shape(value: nat, width: nat)
    ensures
        hex(value, width).len() == width,
        forall|i: int|
            0 <= i < width ==> {
                let c = #[trigger] hex(value, width)[i];
                '0' <= c <= '9' || 'a' <= c <= 'f'
            },
    decreases width,
{
    if width > 0 {
        hex_shape(value / 16, (width - 1) as nat);
    }
}

/// Different files have different names: no two suffixes share a temporary
/// file, and no temporary file is the credentials or the lock.
pub proof fn names_are_distinct(a: FileName, b: FileName)
    requires
        name_text(a) == name_text(b),
    ensures
        a == b,
{
    reveal_strlit("auth.json");
    reveal_strlit("auth.lock");
    reveal_strlit(".auth-");
    reveal_strlit(".tmp");
    assert("auth.json"@[5] != "auth.lock"@[5]);
    match (a, b) {
        (FileName::Temporary(m), FileName::Temporary(n)) => {
            hex_shape(m as nat, 16);
            hex_shape(n as nat, 16);
            assert(name_text(a).subrange(6, 22) =~= hex(m as nat, 16));
            assert(name_text(b).subrange(6, 22) =~= hex(n as nat, 16));
            reveal_with_fuel(span, 17);
            assert(span(16) == 0x1_0000_0000_0000_0000);
            hex_injective(m as nat, n as nat, 16);
        },
        (FileName::Temporary(m), _) => {
            assert(name_text(a)[0] == '.');
            assert(name_text(b)[0] == 'a');
        },
        (_, FileName::Temporary(n)) => {
            assert(name_text(b)[0] == '.');
            assert(name_text(a)[0] == 'a');
        },
        _ => {},
    }
}

/// Every name is one component: it is not empty, not `.` or `..`, and holds no
/// slash, so that no file outside the directory is ever named.
pub proof fn names_stay_inside(name: FileName)
    ensures
        name_text(name).len() > 2,
        forall|i: int| 0 <= i < name_text(name).len() ==> #[trigger] name_text(name)[i] != '/',
{
    reveal_strlit("auth.json");
    reveal_strlit("auth.lock");
    reveal_strlit(".auth-");
    reveal_strlit(".tmp");
    if let FileName::Temporary(suffix) = name {
        hex_shape(suffix as nat, 16);
        let text = name_text(name);
        assert forall|i: int| 0 <= i < text.len() implies #[trigger] text[i] != '/' by {
            if 6 <= i < 22 {
                assert(text[i] == hex(suffix as nat, 16)[i - 6]);
            }
        }
    }
}

/// The value of a lower-case hexadecimal digit.
pub open spec fn digit_value(c: char) -> nat {
    if '0' <= c <= '9' {
        (c as u32 - 48) as nat
    } else {
        (c as u32 - 87) as nat
    }
}

/// The number that a text of hexadecimal digits spells.
pub open spec fn spelt(text: Seq<char>) -> nat
    decreases text.len(),
{
    if text.len() == 0 {
        0
    } else {
        16 * spelt(text.drop_last()) + digit_value(text.last())
    }
}

/// A number in `width` hexadecimal digits is spelt in lower case, with leading zeros,
/// and up to sixteen to the power of `width` the digits spell the number itself.
pub proof fn digits_spell_their_number(value: nat, width: nat)
    ensures
        hex(value, width).len() == width,
        forall|i: int|
            0 <= i < width ==> {
                let c = #[trigger] hex(value, width)[i];
                '0' <= c <= '9' || 'a' <= c <= 'f'
            },
        spelt(hex(value, width)) == value % span(width),
        value < span(width) ==> spelt(hex(value, width)) == value,
    decreases width,
{
    hex_shape(value, width);
    if width > 0 {
        let fewer = (width - 1) as nat;
        digits_spell_their_number(value / 16, fewer);
        spans_are_positive(fewer);
        assert(hex(value, width).drop_last() =~= hex(value / 16, fewer));
        assert(hex(value, width).last() == hex_digit(value % 16));
        assert(digit_value(hex_digit(value % 16)) == value % 16);
        vstd::arithmetic::div_mod::lemma_mod_breakdown(value as int, 16, span(fewer) as int);
    }
    if value < span(width) {
        vstd::arithmetic::div_mod::lemma_small_mod(value, span(width));
    }
}

proof fn spans_are_positive(width: nat)
    ensures
        span(width) > 0,
    decreases width,
{
    if width > 0 {
        spans_are_positive((width - 1) as nat);
    }
}

/// The credentials are in `auth.json`, and the lock is `auth.lock`. The name of a
/// temporary file is `.auth-`, sixteen hexadecimal digits that spell its suffix, and
/// `.tmp`.
pub proof fn names_are_fixed(suffix: u64)
    ensures
        name_text(FileName::Credentials) == seq!['a', 'u', 't', 'h', '.', 'j', 's', 'o', 'n'],
        name_text(FileName::Lock) == seq!['a', 'u', 't', 'h', '.', 'l', 'o', 'c', 'k'],
        ({
            let text = name_text(FileName::Temporary(suffix));
            &&& text.len() == 26
            &&& text.take(6) == seq!['.', 'a', 'u', 't', 'h', '-']
            &&& text.skip(22) == seq!['.', 't', 'm', 'p']
            &&& spelt(text.subrange(6, 22)) == suffix
            &&& forall|i: int|
                6 <= i < 22 ==> '0' <= #[trigger] text[i] <= '9' || 'a' <= text[i] <= 'f'
        }),
{
    reveal_strlit("auth.json");
    reveal_strlit("auth.lock");
    reveal_strlit(".auth-");
    reveal_strlit(".tmp");
    assert(name_text(FileName::Credentials) =~= seq!['a', 'u', 't', 'h', '.', 'j', 's', 'o', 'n']);
    assert(name_text(FileName::Lock) =~= seq!['a', 'u', 't', 'h', '.', 'l', 'o', 'c', 'k']);
    let text = name_text(FileName::Temporary(suffix));
    let digits = hex(suffix as nat, 16);
    digits_spell_their_number(suffix as nat, 16);
    reveal_with_fuel(span, 17);
    assert(span(16) == 0x1_0000_0000_0000_0000);
    assert(text.take(6) =~= seq!['.', 'a', 'u', 't', 'h', '-']);
    assert(text.skip(22) =~= seq!['.', 't', 'm', 'p']);
    assert(text.subrange(6, 22) =~= digits);
    assert forall|i: int| 6 <= i < 22 implies '0' <= #[trigger] text[i] <= '9' || 'a' <= text[i]
        <= 'f' by {
        assert(text[i] == digits[i - 6]);
    }
}

/// What `text` and `hex_text` return: the name of the file, and the last digits of the
/// number.
pub proof fn texts_are_the_names(
    name: FileName,
    text: String,
    value: u64,
    width: u32,
    digits: String,
)
    requires
        call_ensures(FileName::text, (&name,), text),
        call_ensures(hex_text, (value, width), digits),
    ensures
        text@ == name_text(name),
        digits@.len() == width,
        spelt(digits@) == value as nat % span(width as nat),
{
    digits_spell_their_number(value as nat, width as nat);
}

} // verus!
