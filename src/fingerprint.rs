use crate::item::{currency_code, state_name, Currency, Item, ItemState};
use vstd::prelude::*;

verus! {

/// The character of a decimal digit.
pub open spec fn digit_char(d: nat) -> char {
    if d == 0 {
        '0'
    } else if d == 1 {
        '1'
    } else if d == 2 {
        '2'
    } else if d == 3 {
        '3'
    } else if d == 4 {
        '4'
    } else if d == 5 {
        '5'
    } else if d == 6 {
        '6'
    } else if d == 7 {
        '7'
    } else if d == 8 {
        '8'
    } else {
        '9'
    }
}

/// The decimal notation of a natural number, without leading zeros.
pub open spec fn decimal(n: nat) -> Seq<char>
    decreases n,
{
    if n < 10 {
        seq![digit_char(n)]
    } else {
        decimal(n / 10) + seq![digit_char(n % 10)]
    }
}

/// Marker for an absent field in a fingerprint.
pub open spec fn absent() -> Seq<char> {
    seq!['-']
}

pub open spec fn state_part(s: Option<ItemState>) -> Seq<char> {
    match s {
        Some(s) => state_name(s),
        None => absent(),
    }
}

pub open spec fn currency_part(c: Option<Currency>) -> Seq<char> {
    match c {
        Some(c) => currency_code(c),
        None => absent(),
    }
}

pub open spec fn price_part(p: Option<u64>) -> Seq<char> {
    match p {
        Some(p) => decimal(p as nat),
        None => absent(),
    }
}

pub open spec fn url_part(u: Option<Seq<char>>) -> Seq<char> {
    match u {
        Some(u) => u,
        None => absent(),
    }
}

/// The fingerprint of a listing's change-relevant fields: state, currency,
/// price bounds and URL, each rendered and joined by `|`.
pub open spec fn fingerprint_spec(
    state: Option<ItemState>,
    currency: Option<Currency>,
    lower_price: Option<u64>,
    upper_price: Option<u64>,
    url: Option<Seq<char>>,
) -> Seq<char> {
    state_part(state) + seq!['|'] + currency_part(currency) + seq!['|'] + price_part(lower_price)
        + seq!['|'] + price_part(upper_price) + seq!['|'] + url_part(url)
}

/// The fingerprint of an item record.
pub open spec fn item_fingerprint(item: Item) -> Seq<char> {
    fingerprint_spec(
        Some(item.item_state),
        item.currency,
        item.lower_price,
        item.upper_price,
        Some(item.url@),
    )
}

fn digit_str(d: u64) -> (r: &'static str)
    requires
        d < 10,
    ensures
        r@ == seq![digit_char(d as nat)],
{
    proof {
        reveal_strlit("0");
        reveal_strlit("1");
        reveal_strlit("2");
        reveal_strlit("3");
        reveal_strlit("4");
        reveal_strlit("5");
        reveal_strlit("6");
        reveal_strlit("7");
        reveal_strlit("8");
        reveal_strlit("9");
    }
    if d == 0 {
        "0"
    } else if d == 1 {
        "1"
    } else if d == 2 {
        "2"
    } else if d == 3 {
        "3"
    } else if d == 4 {
        "4"
    } else if d == 5 {
        "5"
    } else if d == 6 {
        "6"
    } else if d == 7 {
        "7"
    } else if d == 8 {
        "8"
    } else {
        "9"
    }
}

/// Appends the decimal notation of `n` to `s`.
pub fn push_decimal(s: &mut String, n: u64)
    ensures
        final(s)@ == old(s)@ + decimal(n as nat),
    decreases n,
{
    if n >= 10 {
        push_decimal(s, n / 10);
    }
    s.append(digit_str(n % 10));
    proof {
        assert(decimal(n as nat) == if n < 10 {
            seq![digit_char(n as nat)]
        } else {
            decimal((n / 10) as nat) + seq![digit_char((n % 10) as nat)]
        });
    }
}

fn push_separator(s: &mut String)
    ensures
        final(s)@ == old(s)@ + seq!['|'],
{
    proof {
        reveal_strlit("|");
    }
    s.append("|");
}

fn push_absent(s: &mut String)
    ensures
        final(s)@ == old(s)@ + absent(),
{
    proof {
        reveal_strlit("-");
    }
    s.append("-");
}

fn push_price(s: &mut String, p: Option<u64>)
    ensures
        final(s)@ == old(s)@ + price_part(p),
{
    match p {
        Some(p) => push_decimal(s, p),
        None => push_absent(s),
    }
}

/// Computes the fingerprint of a listing's change-relevant fields. Total and
/// deterministic: equal fields give equal fingerprints.
pub fn fingerprint(
    state: Option<ItemState>,
    currency: Option<Currency>,
    lower_price: Option<u64>,
    upper_price: Option<u64>,
    url: Option<&str>,
) -> (r: String)
    ensures
        r@ == fingerprint_spec(
            state,
            currency,
            lower_price,
            upper_price,
            match url {
                Some(u) => Some(u@),
                None => None,
            },
        ),
{
    let mut s = String::new();
    match state {
        Some(st) => s.append(st.name()),
        None => push_absent(&mut s),
    }
    push_separator(&mut s);
    match currency {
        Some(c) => s.append(c.code()),
        None => push_absent(&mut s),
    }
    push_separator(&mut s);
    push_price(&mut s, lower_price);
    push_separator(&mut s);
    push_price(&mut s, upper_price);
    push_separator(&mut s);
    match url {
        Some(u) => s.append(u),
        None => push_absent(&mut s),
    }
    let ghost url_view = match url {
        Some(u) => Some(u@),
        None => None,
    };
    assert(s@ =~= fingerprint_spec(state, currency, lower_price, upper_price, url_view));
    s
}

impl Item {
    /// The fingerprint of this record's change-relevant fields.
    pub fn fingerprint(&self) -> (r: String)
        ensures
            r@ == item_fingerprint(*self),
    {
        fingerprint(
            Some(self.item_state),
            self.currency,
            self.lower_price,
            self.upper_price,
            Some(self.url.as_str()),
        )
    }
}

} // verus!
