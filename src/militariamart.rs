use crate::fingerprint::{decimal, push_decimal};
use crate::item::{Currency, Item, ItemState};
use scraper::{ElementRef, Selector};
use vstd::prelude::*;

verus! {

#[verifier::external_type_specification]
#[verifier::external_body]
pub struct ExElementRef<'a>(ElementRef<'a>);

/// Relies on scraper's `Selector::parse` and `ElementRef::select`: the first
/// element below `elem` that matches the CSS selector; `None` where none does
/// or the selector does not parse.
#[verifier::external_body]
fn select_first<'a>(elem: ElementRef<'a>, selector: &str) -> Option<ElementRef<'a>> {
    let selector = Selector::parse(selector).ok()?;
    elem.select(&selector).next()
}

/// Relies on scraper's `ElementRef::attr`: the value of attribute `name`.
#[verifier::external_body]
fn attr_of<'a>(elem: ElementRef<'a>, name: &str) -> Option<String> {
    elem.attr(name).map(String::from)
}

/// Relies on scraper's `ElementRef::text`: the first text node below `elem`.
#[verifier::external_body]
fn first_text<'a>(elem: ElementRef<'a>) -> Option<String> {
    elem.text().next().map(String::from)
}

/// `part` is a contiguous part of `whole`.
pub open spec fn is_infix(part: Seq<char>, whole: Seq<char>) -> bool {
    exists|i: int, j: int| 0 <= i <= j <= whole.len() && part == whole.subrange(i, j)
}

/// Relies on `str::trim`, which removes leading and trailing whitespace and
/// so returns a contiguous part of `s`.
#[verifier::external_body]
fn trimmed(s: &str) -> (r: String)
    ensures
        is_infix(r@, s@),
{
    s.trim().to_string()
}

/// Text that prefixes an item code in a listing's link.
pub open spec fn code_prefix() -> Seq<char> {
    seq!['?', 'c', 'o', 'd', 'e', '=']
}

/// The item code that a listing's link carries after `?code=`, if it has
/// that prefix.
pub open spec fn item_id_of_href(href: Seq<char>) -> Option<Seq<char>> {
    if href.len() >= 6 && href.subrange(0, 6) == code_prefix() {
        Some(href.subrange(6, href.len() as int))
    } else {
        None
    }
}

/// Strips the `?code=` prefix from a listing's link.
pub fn item_id_from_href(href: &str) -> (r: Option<String>)
    ensures
        match r {
            Some(id) => item_id_of_href(href@) == Some(id@),
            None => item_id_of_href(href@) is None,
        },
{
    proof {
        reveal_strlit("?code=");
        assert("?code="@ =~= code_prefix());
    }
    let n = href.unicode_len();
    if n < 6 {
        return None;
    }
    let head = String::from_str(href.substring_char(0, 6));
    let prefix = String::from_str("?code=");
    if head == prefix {
        Some(String::from_str(href.substring_char(6, n)))
    } else {
        None
    }
}

/// The lifecycle state that a listing's action label shows.
pub open spec fn state_of_label(label: Seq<char>) -> ItemState {
    if label == seq!['S', 'O', 'L', 'D'] {
        ItemState::SOLD
    } else if label == seq!['R', 'e', 's', 'e', 'r', 'v', 'e', 'd'] {
        ItemState::RESERVED
    } else if label == seq!['A', 'd', 'd', ' ', 't', 'o', ' ', 'b', 'a', 's', 'k', 'e', 't'] {
        ItemState::AVAILABLE
    } else {
        ItemState::LISTED
    }
}

/// Reads a listing's action label as a lifecycle state: `SOLD`, `Reserved`
/// and `Add to basket` name theirs; any other label means listed.
pub fn state_from_label(label: &str) -> (r: ItemState)
    ensures
        r == state_of_label(label@),
{
    proof {
        reveal_strlit("SOLD");
        reveal_strlit("Reserved");
        reveal_strlit("Add to basket");
        assert("SOLD"@ =~= seq!['S', 'O', 'L', 'D']);
        assert("Reserved"@ =~= seq!['R', 'e', 's', 'e', 'r', 'v', 'e', 'd']);
        assert("Add to basket"@ =~= seq!['A', 'd', 'd', ' ', 't', 'o', ' ', 'b', 'a', 's', 'k', 'e', 't']);
    }
    let l = String::from_str(label);
    if l == String::from_str("SOLD") {
        ItemState::SOLD
    } else if l == String::from_str("Reserved") {
        ItemState::RESERVED
    } else if l == String::from_str("Add to basket") {
        ItemState::AVAILABLE
    } else {
        ItemState::LISTED
    }
}

/// The item code of a listing, read from its code link.
pub fn extract_item_id(shop_item: ElementRef) -> (r: Option<String>)
    ensures
        r matches Some(id) ==> exists|href: Seq<char>| item_id_of_href(href) == Some(id@),
{
    let link = select_first(shop_item, "div.block-text > p.itemCode > a")?;
    let href = attr_of(link, "href")?;
    item_id_from_href(href.as_str())
}

/// The title of a listing.
pub fn extract_name(shop_item: ElementRef) -> Option<String> {
    let title = select_first(shop_item, "div.block-text > a.shopitemTitle")?;
    attr_of(title, "title")
}

/// The catalog description of a listing, without surrounding whitespace.
pub fn extract_description(shop_item: ElementRef) -> Option<String> {
    let desc = select_first(shop_item, "div.block-text > p.itemDescription")?;
    let text = first_text(desc)?;
    Some(trimmed(text.as_str()))
}

/// The lifecycle state of a listing, read from the label of its basket
/// button or, failing that, of its status line; listed when neither has one.
pub fn extract_state(shop_item: ElementRef) -> (r: Option<ItemState>)
    ensures
        r is Some,
{
    let selectors = [
        "div.block-text > div.actioncontainer > form > button",
        "div.block-text > div.actioncontainer > form > p",
    ];
    let mut i: usize = 0;
    while i < 2
        invariant
            0 <= i <= 2,
        decreases 2 - i,
    {
        if let Some(elem) = select_first(shop_item, selectors[i]) {
            if let Some(label) = first_text(elem) {
                return Some(state_from_label(label.as_str()));
            }
        }
        i += 1;
    }
    Some(ItemState::LISTED)
}

/// The image address of a listing, relative to the shop's base address.
pub fn extract_image_url(shop_item: ElementRef) -> Option<String> {
    let img = select_first(shop_item, "div.block-image > a > img")?;
    attr_of(img, "src")
}

/// A shop on the Militariamart platform: its base address and currency.
pub struct Militariamart {
    pub base_url: String,
    pub currency: Currency,
}

pub open spec fn page_path() -> Seq<char> {
    seq!['s', 'h', 'o', 'p', '.', 'p', 'h', 'p', '?', 'p', 'g', '=']
}

pub open spec fn item_path() -> Seq<char> {
    seq!['s', 'h', 'o', 'p', '.', 'p', 'h', 'p', '?', 'c', 'o', 'd', 'e', '=']
}

impl Militariamart {
    pub fn new(base_url: String, currency: Currency) -> (r: Self)
        ensures
            r.base_url == base_url,
            r.currency == currency,
    {
        Self { base_url, currency }
    }

    /// Address of catalog page `page_num`.
    pub fn page_url(&self, page_num: i16) -> (r: String)
        requires
            page_num >= 1,
        ensures
            r@ == self.base_url@ + page_path() + decimal(page_num as nat),
    {
        proof {
            reveal_strlit("shop.php?pg=");
        }
        let mut url = self.base_url.clone();
        url.append("shop.php?pg=");
        push_decimal(&mut url, page_num as u64);
        url
    }

    /// Address of the page of the item with code `item_id`.
    pub fn item_url(&self, item_id: &str) -> (r: String)
        ensures
            r@ == self.base_url@ + item_path() + item_id@,
    {
        proof {
            reveal_strlit("shop.php?code=");
        }
        let mut url = self.base_url.clone();
        url.append("shop.php?code=");
        url.append(item_id);
        url
    }

    /// Absolute address of an image whose address is relative to the shop.
    pub fn image_url(&self, relative: &str) -> (r: String)
        ensures
            r@ == self.base_url@ + relative@,
    {
        let mut url = self.base_url.clone();
        url.append(relative);
        url
    }

    /// The record of one listing element of a catalog page, with its price
    /// (in minor units) read by the caller; `None` where the listing lacks
    /// its code or title.
    pub fn build_item(&self, shop_item: ElementRef, price: Option<u64>) -> (r: Option<Item>)
        ensures
            r matches Some(item) ==> {
                &&& item.url@ == self.base_url@ + item_path() + item.item_id@
                &&& item.currency == Some(self.currency)
                &&& item.lower_price == price
                &&& item.upper_price == price
                &&& item.category is None
                &&& item.lower_year is None
                &&& item.upper_year is None
                &&& item.item_type is None
                &&& (item.image_url matches Some(u) ==> exists|rel: Seq<char>| u@ == self.base_url@ + rel)
            },
    {
        let item_id = extract_item_id(shop_item)?;
        let name = extract_name(shop_item)?;
        let state = match extract_state(shop_item) {
            Some(s) => s,
            None => ItemState::LISTED,
        };
        let url = self.item_url(item_id.as_str());
        let image_url = match extract_image_url(shop_item) {
            Some(rel) => Some(self.image_url(rel.as_str())),
            None => None,
        };
        Some(
            Item::new(
                item_id,
                name,
                extract_description(shop_item),
                None,
                None,
                None,
                price,
                price,
                Some(self.currency),
                None,
                state,
                url,
                image_url,
            ),
        )
    }
}

} // verus!
