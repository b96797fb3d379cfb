use scrape::item::{Currency, ItemState};
use scrape::militariamart::{
    extract_description, extract_image_url, extract_item_id, extract_name, extract_state, item_id_from_href,
    state_from_label, Militariamart,
};
use scraper::{Html, Selector};

const SHOP_ITEM: &str = r#"<div class="shopitem"><div class="inner-wrapper">
<div class="block-image"><a href="?code=AB12"><img src="images/ab12.jpg"></a></div>
<div class="block-text">
<a class="shopitemTitle" title="Helmet M35" href="?code=AB12">Helmet M35</a>
<p class="itemCode"><a href="?code=AB12">AB12</a></p>
<p class="itemDescription">  A fine helmet.  </p>
<div class="actioncontainer"><p class="price">EUR 120.00</p><form><button>Reserved</button></form></div>
</div></div></div>"#;

const BARE_ITEM: &str = r#"<div class="shopitem"><div class="inner-wrapper">
<div class="block-text"><p class="itemCode"><a href="/other">x</a></p></div>
</div></div>"#;

fn with_shop_item<R>(html: &str, f: impl FnOnce(scraper::ElementRef) -> R) -> R {
    let document = Html::parse_document(html);
    let selector = Selector::parse("div.shopitem > div.inner-wrapper").unwrap();
    let item = document.select(&selector).next().unwrap();
    f(item)
}

#[test]
fn item_id_is_stripped_of_code_prefix() {
    assert_eq!(item_id_from_href("?code=AB12"), Some("AB12".to_string()));
    assert_eq!(item_id_from_href("?code="), Some(String::new()));
    assert_eq!(item_id_from_href("/shop?code=AB12"), None);
    assert_eq!(item_id_from_href("?co"), None);
}

#[test]
fn labels_map_to_states() {
    assert_eq!(state_from_label("SOLD"), ItemState::SOLD);
    assert_eq!(state_from_label("Reserved"), ItemState::RESERVED);
    assert_eq!(state_from_label("Add to basket"), ItemState::AVAILABLE);
    assert_eq!(state_from_label("Enquire"), ItemState::LISTED);
    assert_eq!(state_from_label("sold"), ItemState::LISTED);
}

#[test]
fn shop_addresses() {
    let shop = Militariamart::new("https://hollandpatch.com/".to_string(), Currency::EUR);
    assert_eq!(shop.currency, Currency::EUR);
    assert_eq!(shop.page_url(3), "https://hollandpatch.com/shop.php?pg=3");
    assert_eq!(shop.page_url(120), "https://hollandpatch.com/shop.php?pg=120");
    assert_eq!(shop.item_url("AB12"), "https://hollandpatch.com/shop.php?code=AB12");
    assert_eq!(shop.image_url("images/x.jpg"), "https://hollandpatch.com/images/x.jpg");
}

#[test]
fn extracts_fields_of_a_listing() {
    with_shop_item(SHOP_ITEM, |item| {
        assert_eq!(extract_item_id(item), Some("AB12".to_string()));
        assert_eq!(extract_name(item), Some("Helmet M35".to_string()));
        assert_eq!(extract_description(item), Some("A fine helmet.".to_string()));
        assert_eq!(extract_state(item), Some(ItemState::RESERVED));
        assert_eq!(extract_image_url(item), Some("images/ab12.jpg".to_string()));
    });
}

#[test]
fn missing_fields_give_none() {
    with_shop_item(BARE_ITEM, |item| {
        assert_eq!(extract_item_id(item), None);
        assert_eq!(extract_name(item), None);
        assert_eq!(extract_description(item), None);
        assert_eq!(extract_state(item), Some(ItemState::LISTED));
        assert_eq!(extract_image_url(item), None);
    });
}

#[test]
fn builds_a_record_from_a_listing() {
    let shop = Militariamart::new("https://shop.example/".to_string(), Currency::GBP);
    with_shop_item(SHOP_ITEM, |item| {
        let record = shop.build_item(item, Some(12000)).unwrap();
        assert_eq!(record.item_id, "AB12");
        assert_eq!(record.name, "Helmet M35");
        assert_eq!(record.url, "https://shop.example/shop.php?code=AB12");
        assert_eq!(record.image_url, Some("https://shop.example/images/ab12.jpg".to_string()));
        assert_eq!(record.lower_price, Some(12000));
        assert_eq!(record.upper_price, Some(12000));
        assert_eq!(record.currency, Some(Currency::GBP));
        assert_eq!(record.item_state, ItemState::RESERVED);
    });
    with_shop_item(BARE_ITEM, |item| assert!(shop.build_item(item, None).is_none()));
}
