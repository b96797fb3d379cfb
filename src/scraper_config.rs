use crate::item::{Currency, Language};
use vstd::prelude::*;

verus! {

/// Configuration of one source: its base address, optional hints, and an
/// optional pause between pages in milliseconds.
#[derive(Clone, Debug, PartialEq)]
pub struct ScraperConfig {
    pub base_url: String,
    pub currency: Option<Currency>,
    pub language: Option<Language>,
    pub shop_dimension: Option<u64>,
    pub sleep_between_pages_millis: Option<u64>,
}

/// The key under which the fingerprint history of a source is stored.
pub open spec fn source_key(base_url: Seq<char>) -> Seq<char> {
    seq!['s', 'o', 'u', 'r', 'c', 'e', '#'] + base_url
}

impl ScraperConfig {
    /// A configuration with the given base address and no hints.
    pub fn new(base_url: String) -> (r: Self)
        ensures
            r.base_url == base_url,
            r.currency is None,
            r.language is None,
            r.shop_dimension is None,
            r.sleep_between_pages_millis is None,
    {
        ScraperConfig {
            base_url,
            currency: None,
            language: None,
            shop_dimension: None,
            sleep_between_pages_millis: None,
        }
    }

    pub fn base_url(&mut self, base_url: String) -> (r: &mut Self)
        ensures
            *r == (ScraperConfig { base_url, ..*old(self) }),
            *final(self) == *final(r),
    {
        self.base_url = base_url;
        self
    }

    pub fn currency(&mut self, currency: Currency) -> (r: &mut Self)
        ensures
            *r == (ScraperConfig { currency: Some(currency), ..*old(self) }),
            *final(self) == *final(r),
    {
        self.currency = Some(currency);
        self
    }

    pub fn language(&mut self, language: Language) -> (r: &mut Self)
        ensures
            *r == (ScraperConfig { language: Some(language), ..*old(self) }),
            *final(self) == *final(r),
    {
        self.language = Some(language);
        self
    }

    pub fn shop_dimension(&mut self, shop_dimension: u64) -> (r: &mut Self)
        ensures
            *r == (ScraperConfig { shop_dimension: Some(shop_dimension), ..*old(self) }),
            *final(self) == *final(r),
    {
        self.shop_dimension = Some(shop_dimension);
        self
    }

    pub fn sleep_between_pages_millis(&mut self, sleep_between_pages_millis: u64) -> (r: &mut Self)
        ensures
            *r == (ScraperConfig {
                sleep_between_pages_millis: Some(sleep_between_pages_millis),
                ..*old(self)
            }),
            *final(self) == *final(r),
    {
        self.sleep_between_pages_millis = Some(sleep_between_pages_millis);
        self
    }

    /// The key of this source's fingerprint history: `source#` followed by
    /// the base address.
    pub fn source_id(&self) -> (r: String)
        ensures
            r@ == source_key(self.base_url@),
    {
        proof {
            reveal_strlit("source#");
        }
        let mut key = String::from_str("source#");
        key.append(self.base_url.as_str());
        key
    }
}

} // verus!
