//! Small text utilities shared by the parsers and formatters of the library.
use vstd::prelude::*;

verus! {

/// The Unicode lowercase mapping of a text, as computed by `str::to_lowercase`.
pub uninterp spec fn unicode_lowercase(s: Seq<char>) -> Seq<char>;

/// Every character of `s` is ASCII.
pub open spec fn all_ascii(s: Seq<char>) -> bool {
    forall|i: int| 0 <= i < s.len() ==> (#[trigger] s[i] as u32) < 128
}

/// ASCII lowercase of one character: `A`..`Z` become `a`..`z`, every other
/// character is unchanged.
pub open spec fn ascii_lower_char(c: char) -> char {
    if 'A' <= c && c <= 'Z' {
        ((c as u32) + 32) as char
    } else {
        c
    }
}

/// ASCII lowercase of a text, character by character.
pub open spec fn ascii_lowercase(s: Seq<char>) -> Seq<char> {
    s.map_values(|c: char| ascii_lower_char(c))
}

/// `str::to_lowercase` from std. Its result is named [`unicode_lowercase`] of
/// the input; for text made only of ASCII characters the contract also states
/// what std documents for that range: each `A`..`Z` becomes its lowercase
/// letter and every other character stays as it is. The mapping of other
/// characters is left unstated.
#[verifier::external_body]
pub(crate) fn to_lowercase(s: &str) -> (lower: String)
    ensures
        lower@ == unicode_lowercase(s@),
        all_ascii(s@) ==> lower@ == ascii_lowercase(s@),
{
    s.to_lowercase()
}

/// Whether two texts are equal, character by character.
pub fn str_equal(a: &str, b: &str) -> (same: bool)
    ensures
        same == (a@ == b@),
{
    let n = a.unicode_len();
    if n != b.unicode_len() {
        return false;
    }
    let mut i: usize = 0;
    while i < n
        invariant
            n == a@.len(),
            n == b@.len(),
            i <= n,
            forall|j: int| 0 <= j < i ==> a@[j] == b@[j],
        decreases n - i,
    {
        if a.get_char(i) != b.get_char(i) {
            return false;
        }
        i = i + 1;
    }
    assert(a@ =~= b@);
    true
}

/// Decimal digits of a natural number, most significant first; zero is "0".
pub open spec fn decimal(n: nat) -> Seq<char>
    decreases n,
{
    if n < 10 {
        seq![digit_char(n)]
    } else {
        decimal(n / 10).push(digit_char(n % 10))
    }
}

/// The character of a single decimal digit.
pub open spec fn digit_char(d: nat) -> char {
    ((d + 48) as u32) as char
}

/// The digit character of `d` as a text of one character.
fn digit_str(d: usize) -> (s: &'static str)
    requires
        d < 10,
    ensures
        s@ == seq![digit_char(d as nat)],
{
    proof {
        reveal_strlit("0");
        reveal_strlit("1");
        reveal_strlit("2");
        reveal_strlit("3");
        reveal_strlit("4");
        reveal_strlit("5");
        reveal_strlit("6");
        reveal_strlit("7");
        reveal_strlit("8");
        reveal_strlit("9");
    }
    let s = if d == 0 {
        "0"
    } else if d == 1 {
        "1"
    } else if d == 2 {
        "2"
    } else if d == 3 {
        "3"
    } else if d == 4 {
        "4"
    } else if d == 5 {
        "5"
    } else if d == 6 {
        "6"
    } else if d == 7 {
        "7"
    } else if d == 8 {
        "8"
    } else {
        "9"
    };
    assert(s@ =~= seq![digit_char(d as nat)]);
    s
}

/// Appends the decimal digits of `n` to `out`.
pub fn push_decimal(out: &mut String, n: usize)
    ensures
        final(out)@ == old(out)@ + decimal(n as nat),
    decreases n,
{
    if n < 10 {
        out.append(digit_str(n));
    } else {
        push_decimal(out, n / 10);
        out.append(digit_str(n % 10));
        assert(old(out)@ + decimal(n as nat) =~= old(out)@ + decimal((n / 10) as nat) + seq![
            digit_char((n % 10) as nat),
        ]);
    }
}

/// The number that a text of decimal digits spells, most significant first.
pub open spec fn digits_value(s: Seq<char>) -> nat
    decreases s.len(),
{
    if s.len() == 0 {
        0
    } else {
        digits_value(s.drop_last()) * 10 + ((s.last() as u32) - 48) as nat
    }
}

/// The decimal text of `n` is made of the digits `0`-`9`, has no leading zero
/// unless it is `0` itself, and spells `n`.
pub proof fn law_decimal_spells_its_number(n: nat)
    ensures
        decimal(n).len() >= 1,
        forall|i: int| 0 <= i < decimal(n).len() ==> '0' <= #[trigger] decimal(n)[i] <= '9',
        decimal(n).len() > 1 ==> decimal(n)[0] != '0',
        digits_value(decimal(n)) == n,
    decreases n,
{
    let d = n % 10;
    assert(((d + 48) as u32) as char as u32 == d + 48);
    if n < 10 {
        assert(decimal(n) == seq![digit_char(n)]);
        assert(decimal(n).drop_last() =~= Seq::<char>::empty());
        assert(digits_value(decimal(n)) == digits_value(Seq::<char>::empty()) * 10 + ((digit_char(n) as u32) - 48) as nat);
    } else {
        let q = n / 10;
        law_decimal_spells_its_number(q);
        let s = decimal(n);
        let front = decimal(q);
        assert(s == front.push(digit_char(d)));
        assert(s.drop_last() =~= front);
        assert(s.last() == digit_char(d));
        assert forall|i: int| 0 <= i < s.len() implies '0' <= #[trigger] s[i] <= '9' by {
            if i < front.len() {
                assert(s[i] == front[i]);
            }
        }
        assert(s[0] == front[0]);
        if q < 10 {
            assert(((q + 48) as u32) as char as u32 == q + 48);
            assert(front == seq![digit_char(q)]);
            assert(front[0] as u32 == q + 48);
            assert(('0' as u32) == 48);
            assert(front[0] != '0');
        } else {
            assert(front == decimal(q / 10).push(digit_char(q % 10)));
            assert(decimal(q / 10).len() >= 1);
            assert(front.len() > 1);
        }
        assert(digits_value(s) == digits_value(front) * 10 + ((digit_char(d) as u32) - 48) as nat);
        assert(q * 10 + d == n);
    }
}

} // verus!
