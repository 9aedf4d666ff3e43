//! Supported currencies and their codes.
use vstd::prelude::*;

verus! {

/// Supported currencies.
#[derive(Debug, Clone, Copy, PartialEq, Eq, Hash, Structural)]
pub enum Currency {
    USD,
    EUR,
    GBP,
    JPY,
}

/// A currency code that names no supported currency.
#[derive(Debug, Clone, Copy, PartialEq, Eq, Structural)]
pub struct ParseCurrencyError;

impl ParseCurrencyError {
    /// The error's message.
    pub fn message(&self) -> (m: &'static str)
        ensures
            m@ == "invalid currency code"@,
    {
        "invalid currency code"
    }
}

/// What `str::to_uppercase` gives for a text (Unicode upper-casing).
pub uninterp spec fn spec_to_uppercase(s: Seq<char>) -> Seq<char>;

/// Every character of the text is ASCII.
pub open spec fn is_ascii_text(s: Seq<char>) -> bool {
    forall|i: int| 0 <= i < s.len() ==> (#[trigger] s[i] as int) < 128
}

/// The ASCII upper case of a character: `a` to `z` become `A` to `Z`, every
/// other character stays.
pub open spec fn ascii_upper(c: char) -> char {
    if 97 <= (c as int) <= 122 {
        ((c as int) - 32) as char
    } else {
        c
    }
}

/// The text with its ASCII lower-case letters upper-cased.
pub open spec fn ascii_uppercase(s: Seq<char>) -> Seq<char> {
    s.map_values(|c: char| ascii_upper(c))
}

/// `str::to_uppercase`: the text with every character upper-cased (Unicode
/// upper-casing, which on ASCII text turns `a` to `z` into `A` to `Z` and keeps
/// every other character).
#[verifier::external_body]
fn to_uppercase(s: &str) -> (u: String)
    ensures
        u@ == spec_to_uppercase(s@),
        is_ascii_text(s@) ==> u@ == ascii_uppercase(s@),
{
    s.to_uppercase()
}

/// The currency an upper-case code names.
pub open spec fn currency_for_code(code: Seq<char>) -> Option<Currency> {
    if code == "USD"@ {
        Some(Currency::USD)
    } else if code == "EUR"@ {
        Some(Currency::EUR)
    } else if code == "GBP"@ {
        Some(Currency::GBP)
    } else if code == "JPY"@ {
        Some(Currency::JPY)
    } else {
        None
    }
}

/// The ISO 4217 code of a currency.
pub open spec fn currency_code(c: Currency) -> Seq<char> {
    match c {
        Currency::USD => "USD"@,
        Currency::EUR => "EUR"@,
        Currency::GBP => "GBP"@,
        Currency::JPY => "JPY"@,
    }
}

/// Each currency reads from and is written as its ISO 4217 code, and no
/// other text names a currency.
pub proof fn lemma_currency_codes()
    ensures
        currency_code(Currency::USD) == "USD"@,
        currency_code(Currency::EUR) == "EUR"@,
        currency_code(Currency::GBP) == "GBP"@,
        currency_code(Currency::JPY) == "JPY"@,
        currency_for_code("USD"@) == Some(Currency::USD),
        currency_for_code("EUR"@) == Some(Currency::EUR),
        currency_for_code("GBP"@) == Some(Currency::GBP),
        currency_for_code("JPY"@) == Some(Currency::JPY),
        forall|t: Seq<char>|
            t != "USD"@ && t != "EUR"@ && t != "GBP"@ && t != "JPY"@ ==> #[trigger] currency_for_code(t) is None,
{
    lemma_code_roundtrip(Currency::USD);
    lemma_code_roundtrip(Currency::EUR);
    lemma_code_roundtrip(Currency::GBP);
    lemma_code_roundtrip(Currency::JPY);
}

/// Codes name currencies one to one: a currency's code reads back as that currency.
pub proof fn lemma_code_roundtrip(c: Currency)
    ensures
        currency_for_code(currency_code(c)) == Some(c),
{
    reveal_strlit("USD");
    reveal_strlit("EUR");
    reveal_strlit("GBP");
    reveal_strlit("JPY");
    assert("USD"@ != "EUR"@ && "USD"@ != "GBP"@ && "USD"@ != "JPY"@) by {
        assert("USD"@[0] != "EUR"@[0] && "USD"@[0] != "GBP"@[0] && "USD"@[0] != "JPY"@[0]);
    }
    assert("EUR"@ != "GBP"@ && "EUR"@ != "JPY"@) by {
        assert("EUR"@[0] != "GBP"@[0] && "EUR"@[0] != "JPY"@[0]);
    }
    assert("GBP"@ != "JPY"@) by {
        assert("GBP"@[0] != "JPY"@[0]);
    }
}

impl Currency {
    /// The ISO 4217 code.
    pub fn as_str(&self) -> (s: &'static str)
        ensures
            s@ == currency_code(*self),
            *self == Currency::USD ==> s@ == "USD"@,
            *self == Currency::EUR ==> s@ == "EUR"@,
            *self == Currency::GBP ==> s@ == "GBP"@,
            *self == Currency::JPY ==> s@ == "JPY"@,
    {
        match self {
            Currency::USD => "USD",
            Currency::EUR => "EUR",
            Currency::GBP => "GBP",
            Currency::JPY => "JPY",
        }
    }

    /// The currency named by an exact upper-case code.
    pub fn from_code(code: &str) -> (r: Result<Currency, ParseCurrencyError>)
        ensures
            match currency_for_code(code@) {
                Some(c) => r == Ok::<Currency, ParseCurrencyError>(c),
                None => r == Err::<Currency, ParseCurrencyError>(ParseCurrencyError),
            },
            code@ == "USD"@ ==> r == Ok::<Currency, ParseCurrencyError>(Currency::USD),
            code@ == "EUR"@ ==> r == Ok::<Currency, ParseCurrencyError>(Currency::EUR),
            code@ == "GBP"@ ==> r == Ok::<Currency, ParseCurrencyError>(Currency::GBP),
            code@ == "JPY"@ ==> r == Ok::<Currency, ParseCurrencyError>(Currency::JPY),
            code@ != "USD"@ && code@ != "EUR"@ && code@ != "GBP"@ && code@ != "JPY"@ ==> r == Err::<
                Currency,
                ParseCurrencyError,
            >(ParseCurrencyError),
    {
        proof {
            lemma_currency_codes();
        }
        let code = String::from_str(code);
        if code == String::from_str("USD") {
            Ok(Currency::USD)
        } else if code == String::from_str("EUR") {
            Ok(Currency::EUR)
        } else if code == String::from_str("GBP") {
            Ok(Currency::GBP)
        } else if code == String::from_str("JPY") {
            Ok(Currency::JPY)
        } else {
            Err(ParseCurrencyError)
        }
    }

    /// Parses a code in any case: the text is upper-cased, then matched.
    pub fn parse(s: &str) -> (r: Result<Currency, ParseCurrencyError>)
        ensures
            match currency_for_code(spec_to_uppercase(s@)) {
                Some(c) => r == Ok::<Currency, ParseCurrencyError>(c),
                None => r == Err::<Currency, ParseCurrencyError>(ParseCurrencyError),
            },
            is_ascii_text(s@) ==> match currency_for_code(ascii_uppercase(s@)) {
                Some(c) => r == Ok::<Currency, ParseCurrencyError>(c),
                None => r == Err::<Currency, ParseCurrencyError>(ParseCurrencyError),
            },
    {
        let upper = to_uppercase(s);
        Self::from_code(upper.as_str())
    }
}

/// The currency service's fixed part: the currencies it supports.
pub struct CurrencyService;

impl CurrencyService {
    /// All supported currencies.
    pub fn get_supported_currencies() -> (v: Vec<Currency>)
        ensures
            v@ == seq![Currency::USD, Currency::EUR, Currency::GBP, Currency::JPY],
    {
        let mut v = Vec::new();
        v.push(Currency::USD);
        v.push(Currency::EUR);
        v.push(Currency::GBP);
        v.push(Currency::JPY);
        assert(v@ =~= seq![Currency::USD, Currency::EUR, Currency::GBP, Currency::JPY]);
        v
    }
}

impl std::str::FromStr for Currency {
    type Err = ParseCurrencyError;

    fn from_str(s: &str) -> (r: Result<Self, Self::Err>)
        ensures
            match currency_for_code(spec_to_uppercase(s@)) {
                Some(c) => r == Ok::<Currency, ParseCurrencyError>(c),
                None => r == Err::<Currency, ParseCurrencyError>(ParseCurrencyError),
            },
            is_ascii_text(s@) ==> match currency_for_code(ascii_uppercase(s@)) {
                Some(c) => r == Ok::<Currency, ParseCurrencyError>(c),
                None => r == Err::<Currency, ParseCurrencyError>(ParseCurrencyError),
            },
    {
        Currency::parse(s)
    }
}

} // verus!
