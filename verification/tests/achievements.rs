use chrono::{TimeZone, Utc};
use ff14_avatar::extract::extract_achievements;
use ff14_avatar::model::FetchError;
use ff14_avatar::timestamp::decode_script_timestamp;

fn achievements_markup(totals: &str, entries: &[(&str, i64, &str)]) -> String {
    let mut page = String::new();
    page.push_str("<html><body>");
    for (title, stamp, img) in entries {
        page.push_str(&format!(
            "<div class=\"entry__achievement\">\
             <img src=\"{}\">\
             <div class=\"entry__activity__time\">\
             <script>document.write(ldst_strftime({}, 'YMD'));</script></div>\
             <p class=\"entry__activity__txt\">{}</p>\
             </div>",
            img, stamp, title
        ));
    }
    page.push_str(&format!("<p class=\"parts__total\">{}</p>", totals));
    page.push_str("</body></html>");
    page
}

#[test]
fn count_is_the_leading_digit_run_of_the_totals_text() {
    let page = achievements_markup("42 achievements total", &[]);
    let a = extract_achievements(&page).expect("should extract");
    assert_eq!(a.count, 42);
    assert_eq!(a.items.len(), 0);
}

#[test]
fn count_ignores_any_trailing_caption() {
    let with_caption = achievements_markup("1077 achievements earned so far", &[]);
    let bare = achievements_markup("1077", &[]);
    let a = extract_achievements(&with_caption).expect("should extract");
    let b = extract_achievements(&bare).expect("should extract");
    assert_eq!(a.count, b.count);
    assert_eq!(a.count, 1077);
}

#[test]
fn totals_without_a_leading_digit_is_a_numeric_failure() {
    let page = achievements_markup("about fifty", &[]);
    let err = extract_achievements(&page).expect_err("must fail");
    assert_eq!(err, FetchError::NumericParse);
}

#[test]
fn entries_carry_title_date_and_image() {
    let page = achievements_markup(
        "2 achievements",
        &[
            ("Leaving Limsa", 1609459200, "https://img.example/a1.png"),
            ("Mapping the Realm", 1612137600, "https://img.example/a2.png"),
        ],
    );
    let a = extract_achievements(&page).expect("should extract");
    assert_eq!(a.count, 2);
    assert_eq!(a.items.len(), 2);
    assert_eq!(a.items[0].title, "Leaving Limsa");
    assert_eq!(a.items[0].date, 1609459200);
    assert_eq!(a.items[0].image_url, "https://img.example/a1.png");
    assert_eq!(a.items[1].title, "Mapping the Realm");
    assert_eq!(a.items[1].date, 1612137600);
}

#[test]
fn entry_without_inline_script_aborts_the_extraction() {
    let page = "<html><body>\
        <div class=\"entry__achievement\">\
        <img src=\"a.png\">\
        <p class=\"entry__activity__txt\">No date here</p>\
        </div>\
        <p class=\"parts__total\">1</p>\
        </body></html>";
    let err = extract_achievements(page).expect_err("must fail");
    assert_eq!(err, FetchError::Parse);
}

#[test]
fn decoded_timestamp_is_the_utc_instant() {
    let script = "document.write(ldst_strftime(1609459200, 'YMD'));";
    let decoded = decode_script_timestamp(script).expect("should decode");
    assert_eq!(decoded, 1609459200);
    let instant = Utc.timestamp_opt(decoded, 0).unwrap();
    let expected = Utc.with_ymd_and_hms(2021, 1, 1, 0, 0, 0).unwrap();
    assert_eq!(instant, expected);
}

#[test]
fn decoder_takes_the_first_call_of_the_script() {
    let script = "x(); ldst_strftime(5, 'YMD'); ldst_strftime(7, 'YMD');";
    assert_eq!(decode_script_timestamp(script), Ok(5));
}

#[test]
fn script_without_the_call_is_a_timestamp_failure() {
    let script = "document.write('nothing to see');";
    assert_eq!(
        decode_script_timestamp(script),
        Err(FetchError::TimestampParse)
    );
}

#[test]
fn call_without_digits_is_a_timestamp_failure() {
    let script = "ldst_strftime(, 'YMD')";
    assert_eq!(
        decode_script_timestamp(script),
        Err(FetchError::TimestampParse)
    );
}

#[test]
fn unrepresentable_timestamp_is_a_timestamp_failure() {
    let script = "ldst_strftime(99999999999999999999, 'YMD')";
    assert_eq!(
        decode_script_timestamp(script),
        Err(FetchError::TimestampParse)
    );
}

#[test]
fn leading_zeroes_keep_a_small_value_decodable() {
    let script = "ldst_strftime(00000000000000000000042, 'YMD')";
    assert_eq!(decode_script_timestamp(script), Ok(42));
}

#[test]
fn largest_representable_timestamp_decodes() {
    let script = "ldst_strftime(9223372036854775807, 'YMD')";
    assert_eq!(decode_script_timestamp(script), Ok(i64::MAX));
}

#[test]
fn smallest_unrepresentable_timestamp_fails() {
    let script = "ldst_strftime(9223372036854775808, 'YMD')";
    assert_eq!(
        decode_script_timestamp(script),
        Err(FetchError::TimestampParse)
    );
}

#[test]
fn totals_text_is_trimmed_before_the_digit_run_is_taken() {
    let page = achievements_markup("\n   42 achievements  \n", &[]);
    let a = extract_achievements(&page).expect("should extract");
    assert_eq!(a.count, 42);
}
