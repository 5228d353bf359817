//! Types a configuration field can be parsed into.
use vstd::prelude::*;

verus! {

/// A type whose values can be read from text.
///
/// `parse_spec` says what text denotes which value, and which message a
/// malformed text is reported with; `parse_value` computes it.
pub trait ConfValue: Sized + View {
    spec fn parse_spec(s: Seq<char>) -> Result<Self::V, Seq<char>>;

    fn parse_value(s: &str) -> (r: Result<Self, String>)
        ensures
            match r {
                Ok(v) => Self::parse_spec(s@) == Ok::<Self::V, Seq<char>>(v@),
                Err(m) => Self::parse_spec(s@) == Err::<Self::V, Seq<char>>(m@),
            };

    /// The value an ignored field takes.
    spec fn default_spec() -> Self::V;

    fn default_value() -> (r: Self)
        ensures
            r@ == Self::default_spec(),
    ;
}

/// Text is taken as it stands: every text is a valid value.
impl ConfValue for String {
    open spec fn parse_spec(s: Seq<char>) -> Result<Seq<char>, Seq<char>> {
        Ok(s)
    }

    fn parse_value(s: &str) -> (r: Result<String, String>) {
        Ok(String::from_str(s))
    }

    open spec fn default_spec() -> Seq<char> {
        Seq::empty()
    }

    fn default_value() -> (r: String) {
        String::new()
    }
}

/// Whether `s` is a non-empty run of ASCII decimal digits.
pub open spec fn is_decimal(s: Seq<char>) -> bool {
    s.len() > 0 && forall|i: int| 0 <= i < s.len() ==> '0' <= #[trigger] s[i] <= '9'
}

/// The number a run of decimal digits denotes.
pub open spec fn decimal_value(s: Seq<char>) -> nat
    decreases s.len(),
{
    if s.len() == 0 {
        0
    } else {
        decimal_value(s.drop_last()) * 10 + ((s.last() as u32) - ('0' as u32)) as nat
    }
}

/// The digits of an unsigned number: its optional leading `+` removed.
pub open spec fn unsigned_digits(s: Seq<char>) -> Seq<char> {
    if s.len() > 0 && s[0] == '+' {
        s.drop_first()
    } else {
        s
    }
}

/// The message std's integer parser reports for a malformed text.
pub uninterp spec fn int_error_message(s: Seq<char>) -> Seq<char>;

/// What a `u16` is read from: an optional `+`, then decimal digits whose value
/// fits in 16 bits.
pub open spec fn u16_parse_spec(s: Seq<char>) -> Result<u16, Seq<char>> {
    let d = unsigned_digits(s);
    if is_decimal(d) && decimal_value(d) <= u16::MAX {
        Ok(decimal_value(d) as u16)
    } else {
        Err(int_error_message(s))
    }
}

/// Relies on `<u16 as FromStr>::from_str`: it accepts an optional `+`
/// followed by decimal digits whose value fits, and rejects anything else;
/// the rejection is rendered with `ToString`.
#[verifier::external_body]
fn parse_u16(s: &str) -> (r: Result<u16, String>)
    ensures
        match r {
            Ok(v) => u16_parse_spec(s@) == Ok::<u16, Seq<char>>(v),
            Err(m) => u16_parse_spec(s@) == Err::<u16, Seq<char>>(m@)
                && m@ == int_error_message(s@),
        },
{
    s.parse::<u16>().map_err(|e| e.to_string())
}

impl ConfValue for u16 {
    open spec fn parse_spec(s: Seq<char>) -> Result<u16, Seq<char>> {
        u16_parse_spec(s)
    }

    fn parse_value(s: &str) -> (r: Result<u16, String>) {
        parse_u16(s)
    }

    open spec fn default_spec() -> u16 {
        0
    }

    fn default_value() -> (r: u16) {
        0
    }
}

/// The digit character of a number below ten.
pub open spec fn digit_char(d: nat) -> char {
    if d == 0 {
        '0'
    } else if d == 1 {
        '1'
    } else if d == 2 {
        '2'
    } else if d == 3 {
        '3'
    } else if d == 4 {
        '4'
    } else if d == 5 {
        '5'
    } else if d == 6 {
        '6'
    } else if d == 7 {
        '7'
    } else if d == 8 {
        '8'
    } else {
        '9'
    }
}

/// The decimal digits of a number, most significant first.
pub open spec fn decimal_of(n: nat) -> Seq<char>
    decreases n,
{
    if n < 10 {
        seq![digit_char(n)]
    } else {
        decimal_of(n / 10).push(digit_char(n % 10))
    }
}

proof fn lemma_digit_char(d: nat)
    requires
        d < 10,
    ensures
        '0' <= digit_char(d) <= '9',
        digit_char(d) != '+',
        ((digit_char(d) as u32) - ('0' as u32)) as nat == d,
{
}

proof fn lemma_decimal_of(n: nat)
    ensures
        is_decimal(decimal_of(n)),
        decimal_of(n)[0] != '+',
        decimal_value(decimal_of(n)) == n,
    decreases n,
{
    if n < 10 {
        lemma_digit_char(n);
        let s = decimal_of(n);
        assert(s.drop_last() =~= Seq::<char>::empty());
        assert(decimal_value(s.drop_last()) == 0);
        assert(s.last() == digit_char(n));
    } else {
        lemma_decimal_of(n / 10);
        lemma_digit_char(n % 10);
        let s = decimal_of(n);
        assert(s.drop_last() =~= decimal_of(n / 10));
        assert(n == (n / 10) * 10 + n % 10);
        assert(s.last() == digit_char(n % 10));
        assert(decimal_value(s) == decimal_value(decimal_of(n / 10)) * 10 + n % 10);
        assert forall|i: int| 0 <= i < s.len() implies '0' <= #[trigger] s[i] <= '9' by {
            if i < s.len() - 1 {
                assert(s[i] == decimal_of(n / 10)[i]);
            }
        }
    }
}

/// Round trip for numbers: the decimal text of any `u16` parses back to
/// exactly that number.
pub proof fn lemma_u16_round_trip(v: u16)
    ensures
        <u16 as ConfValue>::parse_spec(decimal_of(v as nat)) == Ok::<u16, Seq<char>>(v),
{
    lemma_decimal_of(v as nat);
}

/// Round trip for text: any text is read back as itself.
pub proof fn lemma_string_round_trip(s: Seq<char>)
    ensures
        <String as ConfValue>::parse_spec(s) == Ok::<Seq<char>, Seq<char>>(s),
{
}

} // verus!
