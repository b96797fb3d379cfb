use vstd::prelude::*;

verus! {

/// Currency in which a listing is priced.
#[derive(Clone, Copy, Debug, PartialEq, Eq, Structural)]
pub enum Currency {
    EUR,
    GBP,
    USD,
}

/// Lifecycle state of a listing.
#[derive(Clone, Copy, Debug, PartialEq, Eq, Structural)]
pub enum ItemState {
    LISTED,
    AVAILABLE,
    RESERVED,
    SOLD,
    REMOVED,
}

/// Whether a listed object is an original or a replica.
#[derive(Clone, Copy, Debug, PartialEq, Eq, Structural)]
pub enum ItemType {
    ORIGINAL,
    REPLICA,
}

/// Language of a listing's descriptive text.
#[derive(Clone, Copy, Debug, PartialEq, Eq, Structural)]
pub enum Language {
    DE,
    EN,
}

/// The three-letter code of a currency.
pub open spec fn currency_code(c: Currency) -> Seq<char> {
    match c {
        Currency::EUR => seq!['E', 'U', 'R'],
        Currency::GBP => seq!['G', 'B', 'P'],
        Currency::USD => seq!['U', 'S', 'D'],
    }
}

impl Currency {
    /// The three-letter code of this currency.
    pub fn code(&self) -> (r: &'static str)
        ensures
            r@ == currency_code(*self),
    {
        proof {
            reveal_strlit("EUR");
            reveal_strlit("GBP");
            reveal_strlit("USD");
        }
        match self {
            Currency::EUR => "EUR",
            Currency::GBP => "GBP",
            Currency::USD => "USD",
        }
    }
}

/// The name of a lifecycle state.
pub open spec fn state_name(s: ItemState) -> Seq<char> {
    match s {
        ItemState::LISTED => seq!['L', 'I', 'S', 'T', 'E', 'D'],
        ItemState::AVAILABLE => seq!['A', 'V', 'A', 'I', 'L', 'A', 'B', 'L', 'E'],
        ItemState::RESERVED => seq!['R', 'E', 'S', 'E', 'R', 'V', 'E', 'D'],
        ItemState::SOLD => seq!['S', 'O', 'L', 'D'],
        ItemState::REMOVED => seq!['R', 'E', 'M', 'O', 'V', 'E', 'D'],
    }
}

impl ItemState {
    /// The name of this lifecycle state.
    pub fn name(&self) -> (r: &'static str)
        ensures
            r@ == state_name(*self),
    {
        proof {
            reveal_strlit("LISTED");
            reveal_strlit("AVAILABLE");
            reveal_strlit("RESERVED");
            reveal_strlit("SOLD");
            reveal_strlit("REMOVED");
        }
        match self {
            ItemState::LISTED => "LISTED",
            ItemState::AVAILABLE => "AVAILABLE",
            ItemState::RESERVED => "RESERVED",
            ItemState::SOLD => "SOLD",
            ItemState::REMOVED => "REMOVED",
        }
    }
}

/// One observed listing. Prices are in minor units of `currency` (cents).
#[derive(Clone, Debug, PartialEq)]
pub struct Item {
    pub item_id: String,
    pub name: String,
    pub description: Option<String>,
    pub category: Option<String>,
    pub lower_year: Option<i8>,
    pub upper_year: Option<i8>,
    pub lower_price: Option<u64>,
    pub upper_price: Option<u64>,
    pub currency: Option<Currency>,
    pub item_type: Option<ItemType>,
    pub item_state: ItemState,
    pub url: String,
    pub image_url: Option<String>,
}

impl Item {
    pub fn new(
        item_id: String,
        name: String,
        description: Option<String>,
        category: Option<String>,
        lower_year: Option<i8>,
        upper_year: Option<i8>,
        lower_price: Option<u64>,
        upper_price: Option<u64>,
        currency: Option<Currency>,
        item_type: Option<ItemType>,
        item_state: ItemState,
        url: String,
        image_url: Option<String>,
    ) -> (r: Self)
        ensures
            r.item_id == item_id,
            r.name == name,
            r.description == description,
            r.category == category,
            r.lower_year == lower_year,
            r.upper_year == upper_year,
            r.lower_price == lower_price,
            r.upper_price == upper_price,
            r.currency == currency,
            r.item_type == item_type,
            r.item_state == item_state,
            r.url == url,
            r.image_url == image_url,
    {
        Item {
            item_id,
            name,
            description,
            category,
            lower_year,
            upper_year,
            lower_price,
            upper_price,
            currency,
            item_type,
            item_state,
            url,
            image_url,
        }
    }
}

} // verus!
