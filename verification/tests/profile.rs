use ff14_avatar::extract::extract_profile;
use ff14_avatar::model::FetchError;

fn profile_markup(jobs: &[(&str, &str, &str)]) -> String {
    let mut page = String::new();
    page.push_str("<html><body>");
    page.push_str("<p class=\"frame__chara__name\">  Luna Nova  </p>");
    page.push_str(
        "<div class=\"character__detail__image\">\
         <a href=\"https://img.example/portrait-full.png\">\
         <img src=\"https://img.example/portrait.png\"></a></div>",
    );
    page.push_str("<ul class=\"character__level__list\">");
    for (name, src, level) in jobs {
        page.push_str(&format!(
            "<li><img data-tooltip=\"{}\" src=\"{}\">{}</li>",
            name, src, level
        ));
    }
    page.push_str("</ul></body></html>");
    page
}

#[test]
fn jobs_keep_length_and_document_order() {
    let page = profile_markup(&[
        ("Paladin", "https://img.example/pld.png", "90"),
        ("Warrior", "https://img.example/war.png", "82"),
        ("White Mage", "https://img.example/whm.png", "70"),
    ]);
    let profile = extract_profile(&page).expect("profile should extract");
    assert_eq!(profile.jobs.len(), 3);
    assert_eq!(profile.jobs[0].name, "Paladin");
    assert_eq!(profile.jobs[1].name, "Warrior");
    assert_eq!(profile.jobs[2].name, "White Mage");
    assert_eq!(profile.jobs[0].level, "90");
    assert_eq!(profile.jobs[1].level, "82");
    assert_eq!(profile.jobs[2].level, "70");
    assert_eq!(profile.jobs[2].image_url, "https://img.example/whm.png");
}

#[test]
fn profile_name_is_trimmed_and_portrait_link_is_taken() {
    let page = profile_markup(&[("Paladin", "https://img.example/pld.png", "90")]);
    let profile = extract_profile(&page).expect("profile should extract");
    assert_eq!(profile.name, "Luna Nova");
    assert_eq!(profile.image_url, "https://img.example/portrait-full.png");
}

#[test]
fn profile_with_no_jobs_is_complete_with_empty_list() {
    let page = profile_markup(&[]);
    let profile = extract_profile(&page).expect("profile should extract");
    assert_eq!(profile.jobs.len(), 0);
}

#[test]
fn missing_name_element_is_a_missing_field() {
    let page = "<html><body>\
        <div class=\"character__detail__image\">\
        <a href=\"https://img.example/p.png\"></a></div>\
        </body></html>";
    let err = extract_profile(page).expect_err("must fail");
    assert_eq!(err, FetchError::MissingField);
}

#[test]
fn missing_portrait_link_is_a_missing_field() {
    let page = "<html><body>\
        <p class=\"frame__chara__name\">Luna Nova</p>\
        </body></html>";
    let err = extract_profile(page).expect_err("must fail");
    assert_eq!(err, FetchError::MissingField);
}

#[test]
fn portrait_link_without_reference_is_a_missing_field() {
    let page = "<html><body>\
        <p class=\"frame__chara__name\">Luna Nova</p>\
        <div class=\"character__detail__image\"><a>no target</a></div>\
        </body></html>";
    let err = extract_profile(page).expect_err("must fail");
    assert_eq!(err, FetchError::MissingField);
}

#[test]
fn job_entry_without_image_aborts_the_extraction() {
    let page = "<html><body>\
        <p class=\"frame__chara__name\">Luna Nova</p>\
        <div class=\"character__detail__image\">\
        <a href=\"https://img.example/p.png\"></a></div>\
        <ul class=\"character__level__list\">\
        <li><img data-tooltip=\"Paladin\" src=\"pld.png\">90</li>\
        <li>82</li>\
        </ul></body></html>";
    let err = extract_profile(page).expect_err("must fail");
    assert_eq!(err, FetchError::Parse);
}

#[test]
fn job_image_without_tooltip_is_a_missing_field() {
    let page = "<html><body>\
        <p class=\"frame__chara__name\">Luna Nova</p>\
        <div class=\"character__detail__image\">\
        <a href=\"https://img.example/p.png\"></a></div>\
        <ul class=\"character__level__list\">\
        <li><img src=\"pld.png\">90</li>\
        </ul></body></html>";
    let err = extract_profile(page).expect_err("must fail");
    assert_eq!(err, FetchError::MissingField);
}

#[test]
fn empty_markup_is_a_missing_field() {
    let err = extract_profile("").expect_err("must fail");
    assert_eq!(err, FetchError::MissingField);
}
