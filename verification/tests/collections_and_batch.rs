use ff14_avatar::aggregate::order_by_index;
use ff14_avatar::extract::{extract_minions, extract_mounts};
use ff14_avatar::hashing::compute_content_hash;
use ff14_avatar::model::FetchError;

fn minions_markup(counter: &str, srcs: &[&str]) -> String {
    let mut page = String::new();
    page.push_str("<html><body>");
    for src in srcs {
        page.push_str(&format!(
            "<div class=\"minion__list_icon\"><img src=\"{}\"></div>",
            src
        ));
    }
    page.push_str(&format!(
        "<div class=\"minion__sort__total\"><span>{}</span></div>",
        counter
    ));
    page.push_str("</body></html>");
    page
}

fn mounts_markup(counter: &str, srcs: &[&str]) -> String {
    let mut page = String::new();
    page.push_str("<html><body>");
    for src in srcs {
        page.push_str(&format!(
            "<div class=\"character__item_icon\"><img src=\"{}\"></div>",
            src
        ));
    }
    page.push_str(&format!(
        "<div class=\"minion__sort__total\"><span>{}</span></div>",
        counter
    ));
    page.push_str("</body></html>");
    page
}

#[test]
fn minions_have_empty_names_and_the_reported_count() {
    let page = minions_markup("277", &["m1.png", "m2.png"]);
    let m = extract_minions(&page).expect("should extract");
    assert_eq!(m.count, 277);
    assert_eq!(m.items.len(), 2);
    assert_eq!(m.items[0].name, "");
    assert_eq!(m.items[0].image_url, "m1.png");
    assert_eq!(m.items[1].image_url, "m2.png");
}

#[test]
fn count_is_independent_of_the_item_tally() {
    let page = minions_markup("480", &["only-one.png"]);
    let m = extract_minions(&page).expect("should extract");
    assert_eq!(m.count, 480);
    assert_eq!(m.items.len(), 1);
}

#[test]
fn non_numeric_minion_counter_is_a_numeric_failure() {
    let page = minions_markup("many", &["m1.png"]);
    let err = extract_minions(&page).expect_err("must fail");
    assert_eq!(err, FetchError::NumericParse);
}

#[test]
fn minion_counter_with_trailing_text_is_a_numeric_failure() {
    let page = minions_markup("12 minions", &["m1.png"]);
    let err = extract_minions(&page).expect_err("must fail");
    assert_eq!(err, FetchError::NumericParse);
}

#[test]
fn mounts_extract_like_minions() {
    let page = mounts_markup("44", &["chocobo.png"]);
    let m = extract_mounts(&page).expect("should extract");
    assert_eq!(m.count, 44);
    assert_eq!(m.items.len(), 1);
    assert_eq!(m.items[0].name, "");
    assert_eq!(m.items[0].image_url, "chocobo.png");
}

#[test]
fn mount_entry_without_image_aborts_the_extraction() {
    let page = "<html><body>\
        <div class=\"character__item_icon\">bare</div>\
        <div class=\"minion__sort__total\"><span>1</span></div>\
        </body></html>";
    let err = extract_mounts(page).expect_err("must fail");
    assert_eq!(err, FetchError::Parse);
}

#[test]
fn content_hash_is_deterministic() {
    let bytes: Vec<u8> = vec![7, 12, 0, 255, 41];
    let again = bytes.clone();
    assert_eq!(compute_content_hash(&bytes), compute_content_hash(&again));
}

#[test]
fn content_hash_distinguishes_a_one_byte_change() {
    let a: Vec<u8> = vec![7, 12, 0, 255, 41];
    let b: Vec<u8> = vec![7, 12, 0, 255, 40];
    assert_ne!(compute_content_hash(&a), compute_content_hash(&b));
}

#[test]
fn content_hash_matches_the_known_digest_of_abc() {
    let bytes: Vec<u8> = vec![b'a', b'b', b'c'];
    assert_eq!(
        compute_content_hash(&bytes),
        "ba7816bf8f01cfea414140de5dae2223b00361a396177a9cb410ff61f20015ad"
    );
}

#[test]
fn results_come_back_in_input_order_when_the_second_finished_first() {
    let pairs: Vec<(usize, &str)> = vec![(1, "avatar-B"), (0, "avatar-A")];
    let ordered = order_by_index(pairs);
    assert_eq!(ordered, vec!["avatar-A", "avatar-B"]);
}

#[test]
fn ordering_handles_a_fully_reversed_batch() {
    let pairs: Vec<(usize, u32)> = vec![(3, 30), (2, 20), (1, 10), (0, 0)];
    let ordered = order_by_index(pairs);
    assert_eq!(ordered, vec![0, 10, 20, 30]);
}

#[test]
fn hash_of_empty_bytes_is_the_known_empty_digest() {
    let bytes: Vec<u8> = Vec::new();
    assert_eq!(
        compute_content_hash(&bytes),
        "e3b0c44298fc1c149afbf4c8996fb92427ae41e4649b934ca495991b7852b855"
    );
}

#[test]
fn an_empty_batch_orders_to_an_empty_result() {
    let pairs: Vec<(usize, u8)> = Vec::new();
    let ordered = order_by_index(pairs);
    assert!(ordered.is_empty());
}
