//! Field extraction, one page type at a time, against a parsed document.
//!
//! Every required node or attribute that is absent aborts the whole
//! extraction with a typed failure: entries are never skipped and records
//! are never partially filled. The contracts state, selector by selector,
//! exactly which fields come back and exactly which failure comes first.

use vstd::prelude::*;
use crate::dom::{attr_of, doc_query, find_attr, nodes_view, parse_document, parse_fragment,
    parsed_doc, parsed_fragment, select_nodes, NodeData, NodeView};
use crate::model::{Achievement, AchievementV, Achievements, AchievementsV, FetchError, IconV,
    IconsV, Job, JobV, Minion, Minions, Mount, Mounts, Profile, ProfileV};
use crate::text::{leading_count, parse_leading_count, parse_plain_count, plain_count, trim,
    trim_spec};
use crate::timestamp::{decode_script_timestamp, spec_decode};

verus! {

/// What one job list entry yields: its single nested image node supplies
/// the name (tooltip attribute) and the image URL (source attribute); the
/// entry's own text is the level. An entry without an image node, or whose
/// image lacks either attribute, aborts the extraction.
pub open spec fn spec_job(li: NodeView) -> Result<JobV, FetchError> {
    let imgs = doc_query(parsed_fragment(li.html), "img"@);
    if imgs.len() == 0 {
        Err(FetchError::Parse)
    } else {
        match (attr_of(imgs[0].attrs, "data-tooltip"@), attr_of(imgs[0].attrs, "src"@)) {
            (Some(name), Some(src)) => Ok(
                JobV { name, level: trim_spec(li.text), image_url: src },
            ),
            _ => Err(FetchError::MissingField),
        }
    }
}

/// The job entries in document order, or the first entry's failure.
pub open spec fn spec_jobs(lis: Seq<NodeView>) -> Result<Seq<JobV>, FetchError>
    decreases lis.len(),
{
    if lis.len() == 0 {
        Ok(Seq::empty())
    } else {
        match spec_job(lis[0]) {
            Err(e) => Err(e),
            Ok(j) => match spec_jobs(lis.drop_first()) {
                Err(e) => Err(e),
                Ok(rest) => Ok(seq![j] + rest),
            },
        }
    }
}

/// Extraction keeps every job entry: a successful job list is exactly as
/// long as the list of matching entries, in document order.
pub proof fn lemma_jobs_length(lis: Seq<NodeView>)
    ensures
        spec_jobs(lis) matches Ok(js) ==> js.len() == lis.len(),
    decreases lis.len(),
{
    if lis.len() > 0 {
        lemma_jobs_length(lis.drop_first());
    }
}

/// Extraction keeps document order: in a successful job list, the entry
/// at each position yields exactly the job at that position.
pub proof fn lemma_jobs_document_order(lis: Seq<NodeView>, i: int)
    requires
        0 <= i < lis.len(),
        spec_jobs(lis) is Ok,
    ensures
        spec_job(lis[i]) == Ok::<JobV, FetchError>(spec_jobs(lis)->Ok_0[i]),
    decreases i,
{
    let tail = lis.drop_first();
    if i == 0 {
        assert(spec_jobs(lis)->Ok_0[0] == spec_job(lis[0])->Ok_0);
    } else {
        assert(spec_jobs(tail) is Ok);
        lemma_jobs_length(tail);
        lemma_jobs_document_order(tail, i - 1);
        assert(tail[i - 1] == lis[i]);
        assert(spec_jobs(lis)->Ok_0 == seq![spec_job(lis[0])->Ok_0] + spec_jobs(tail)->Ok_0);
        assert(spec_jobs(lis)->Ok_0[i] == spec_jobs(tail)->Ok_0[i - 1]);
    }
}

fn extract_job(entry: &NodeData) -> (r: Result<Job, FetchError>)
    ensures
        match r {
            Ok(j) => spec_job(entry@) == Ok::<_, FetchError>(j@),
            Err(e) => spec_job(entry@) == Err::<JobV, FetchError>(e),
        },
{
    let frag = parse_fragment(entry.html.as_str());
    let imgs = select_nodes(&frag, "img");
    proof {
        assert(nodes_view(imgs@).len() == imgs@.len());
    }
    if imgs.len() == 0 {
        return Err(FetchError::Parse);
    }
    proof {
        assert(doc_query(parsed_fragment(entry@.html), "img"@)[0] == imgs@[0]@);
    }
    let img = &imgs[0];
    let name = find_attr(&img.attrs, "data-tooltip");
    let src = find_attr(&img.attrs, "src");
    match (name, src) {
        (Some(name), Some(src)) => {
            let level = trim(entry.text.as_str());
            Ok(Job { name, level, image_url: src })
        },
        _ => Err(FetchError::MissingField),
    }
}

fn extract_jobs_from(entries: &Vec<NodeData>, i: usize) -> (r: Result<Vec<Job>, FetchError>)
    requires
        i <= entries@.len(),
    ensures
        match r {
            Ok(js) => spec_jobs(nodes_view(entries@).skip(i as int)) == Ok::<_, FetchError>(
                js@.map_values(|j: Job| j@),
            ),
            Err(e) => spec_jobs(nodes_view(entries@).skip(i as int)) == Err::<
                Seq<JobV>,
                FetchError,
            >(e),
        },
    decreases entries@.len() - i,
{
    let ghost s = nodes_view(entries@).skip(i as int);
    if i == entries.len() {
        let empty: Vec<Job> = Vec::new();
        proof {
            assert(s =~= Seq::<NodeView>::empty());
            assert(empty@.map_values(|j: Job| j@) =~= Seq::<JobV>::empty());
        }
        Ok(empty)
    } else {
        proof {
            assert(s[0] == entries@[i as int]@);
            assert(s.drop_first() =~= nodes_view(entries@).skip(i as int + 1));
        }
        match extract_job(&entries[i]) {
            Err(e) => Err(e),
            Ok(j) => match extract_jobs_from(entries, i + 1) {
                Err(e) => Err(e),
                Ok(mut js) => {
                    let ghost rest = js@.map_values(|x: Job| x@);
                    js.insert(0, j);
                    proof {
                        assert(js@.map_values(|x: Job| x@) =~= seq![j@] + rest);
                    }
                    Ok(js)
                },
            },
        }
    }
}

/// What the profile page yields. The character name and the portrait link
/// are each required: a query with no match, or a link without its
/// reference attribute, is a missing field. The jobs follow [`spec_jobs`].
pub open spec fn spec_profile(markup: Seq<char>) -> Result<ProfileV, FetchError> {
    let d = parsed_doc(markup);
    let names = doc_query(d, ".frame__chara__name"@);
    if names.len() == 0 {
        Err(FetchError::MissingField)
    } else {
        let links = doc_query(d, ".character__detail__image a"@);
        if links.len() == 0 {
            Err(FetchError::MissingField)
        } else {
            match attr_of(links[0].attrs, "href"@) {
                None => Err(FetchError::MissingField),
                Some(href) => match spec_jobs(doc_query(d, ".character__level__list li"@)) {
                    Err(e) => Err(e),
                    Ok(jobs) => Ok(
                        ProfileV { name: trim_spec(names[0].text), image_url: href, jobs },
                    ),
                },
            }
        }
    }
}

/// Extract name, portrait URL and jobs from the profile page's markup.
pub fn extract_profile(markup: &str) -> (r: Result<Profile, FetchError>)
    ensures
        match r {
            Ok(p) => spec_profile(markup@) == Ok::<_, FetchError>(p@),
            Err(e) => spec_profile(markup@) == Err::<ProfileV, FetchError>(e),
        },
{
    let doc = parse_document(markup);
    let names = select_nodes(&doc, ".frame__chara__name");
    proof {
        assert(nodes_view(names@).len() == names@.len());
    }
    if names.len() == 0 {
        return Err(FetchError::MissingField);
    }
    let links = select_nodes(&doc, ".character__detail__image a");
    proof {
        assert(nodes_view(links@).len() == links@.len());
    }
    if links.len() == 0 {
        return Err(FetchError::MissingField);
    }
    proof {
        assert(doc_query(parsed_doc(markup@), ".character__detail__image a"@)[0] == links@[0]@);
        assert(doc_query(parsed_doc(markup@), ".frame__chara__name"@)[0] == names@[0]@);
    }
    let href = match find_attr(&links[0].attrs, "href") {
        None => {
            return Err(FetchError::MissingField);
        },
        Some(h) => h,
    };
    let entries = select_nodes(&doc, ".character__level__list li");
    proof {
        assert(nodes_view(entries@).skip(0) =~= nodes_view(entries@));
    }
    match extract_jobs_from(&entries, 0) {
        Err(e) => Err(e),
        Ok(jobs) => {
            let name = trim(names[0].text.as_str());
            Ok(Profile { name, image_url: href, jobs })
        },
    }
}

/// What one achievement entry yields: its image node's source attribute,
/// the timestamp decoded from its inline script, and its text node's
/// trimmed text as the title. A missing sub-node aborts the extraction.
pub open spec fn spec_achievement(entry: NodeView) -> Result<AchievementV, FetchError> {
    let frag = parsed_fragment(entry.html);
    let imgs = doc_query(frag, "img"@);
    if imgs.len() == 0 {
        Err(FetchError::Parse)
    } else {
        match attr_of(imgs[0].attrs, "src"@) {
            None => Err(FetchError::MissingField),
            Some(src) => {
                let scripts = doc_query(frag, ".entry__activity__time script"@);
                if scripts.len() == 0 {
                    Err(FetchError::Parse)
                } else {
                    match spec_decode(scripts[0].text) {
                        Err(e) => Err(e),
                        Ok(ts) => {
                            let titles = doc_query(frag, ".entry__activity__txt"@);
                            if titles.len() == 0 {
                                Err(FetchError::Parse)
                            } else {
                                Ok(
                                    AchievementV {
                                        title: trim_spec(titles[0].text),
                                        date: ts as int,
                                        image_url: src,
                                    },
                                )
                            }
                        },
                    }
                }
            },
        }
    }
}

/// The achievement entries in document order, or the first entry's failure.
pub open spec fn spec_achievement_items(entries: Seq<NodeView>) -> Result<
    Seq<AchievementV>,
    FetchError,
>
    decreases entries.len(),
{
    if entries.len() == 0 {
        Ok(Seq::empty())
    } else {
        match spec_achievement(entries[0]) {
            Err(e) => Err(e),
            Ok(a) => match spec_achievement_items(entries.drop_first()) {
                Err(e) => Err(e),
                Ok(rest) => Ok(seq![a] + rest),
            },
        }
    }
}

fn extract_achievement(entry: &NodeData) -> (r: Result<Achievement, FetchError>)
    ensures
        match r {
            Ok(a) => spec_achievement(entry@) == Ok::<_, FetchError>(a@),
            Err(e) => spec_achievement(entry@) == Err::<AchievementV, FetchError>(e),
        },
{
    let frag = parse_fragment(entry.html.as_str());
    let imgs = select_nodes(&frag, "img");
    proof {
        assert(nodes_view(imgs@).len() == imgs@.len());
    }
    if imgs.len() == 0 {
        return Err(FetchError::Parse);
    }
    proof {
        assert(doc_query(parsed_fragment(entry@.html), "img"@)[0] == imgs@[0]@);
    }
    let src = match find_attr(&imgs[0].attrs, "src") {
        None => {
            return Err(FetchError::MissingField);
        },
        Some(s) => s,
    };
    let scripts = select_nodes(&frag, ".entry__activity__time script");
    proof {
        assert(nodes_view(scripts@).len() == scripts@.len());
    }
    if scripts.len() == 0 {
        return Err(FetchError::Parse);
    }
    proof {
        assert(doc_query(parsed_fragment(entry@.html), ".entry__activity__time script"@)[0]
            == scripts@[0]@);
    }
    let date = match decode_script_timestamp(scripts[0].text.as_str()) {
        Err(e) => {
            return Err(e);
        },
        Ok(ts) => ts,
    };
    let titles = select_nodes(&frag, ".entry__activity__txt");
    proof {
        assert(nodes_view(titles@).len() == titles@.len());
    }
    if titles.len() == 0 {
        return Err(FetchError::Parse);
    }
    proof {
        assert(doc_query(parsed_fragment(entry@.html), ".entry__activity__txt"@)[0] == titles@[0]@);
    }
    let title = trim(titles[0].text.as_str());
    Ok(Achievement { title, date, image_url: src })
}

fn extract_achievements_from(entries: &Vec<NodeData>, i: usize) -> (r: Result<
    Vec<Achievement>,
    FetchError,
>)
    requires
        i <= entries@.len(),
    ensures
        match r {
            Ok(items) => spec_achievement_items(nodes_view(entries@).skip(i as int)) == Ok::<_, FetchError>(
                items@.map_values(|a: Achievement| a@),
            ),
            Err(e) => spec_achievement_items(nodes_view(entries@).skip(i as int)) == Err::<
                Seq<AchievementV>,
                FetchError,
            >(e),
        },
    decreases entries@.len() - i,
{
    let ghost s = nodes_view(entries@).skip(i as int);
    if i == entries.len() {
        let empty: Vec<Achievement> = Vec::new();
        proof {
            assert(s =~= Seq::<NodeView>::empty());
            assert(empty@.map_values(|a: Achievement| a@) =~= Seq::<AchievementV>::empty());
        }
        Ok(empty)
    } else {
        proof {
            assert(s[0] == entries@[i as int]@);
            assert(s.drop_first() =~= nodes_view(entries@).skip(i as int + 1));
        }
        match extract_achievement(&entries[i]) {
            Err(e) => Err(e),
            Ok(a) => match extract_achievements_from(entries, i + 1) {
                Err(e) => Err(e),
                Ok(mut items) => {
                    let ghost rest = items@.map_values(|x: Achievement| x@);
                    items.insert(0, a);
                    proof {
                        assert(items@.map_values(|x: Achievement| x@) =~= seq![a@] + rest);
                    }
                    Ok(items)
                },
            },
        }
    }
}

/// What the achievements page yields: the first page of entries, and the
/// server-reported total read as the leading digit run of the totals text,
/// any trailing caption discarded. A totals element that never matches is a
/// parse failure; a totals text without a leading digit, or whose number is
/// unrepresentable, is a numeric failure.
pub open spec fn spec_achievements(markup: Seq<char>) -> Result<AchievementsV, FetchError> {
    let d = parsed_doc(markup);
    match spec_achievement_items(doc_query(d, ".entry__achievement"@)) {
        Err(e) => Err(e),
        Ok(items) => {
            let totals = doc_query(d, ".parts__total"@);
            if totals.len() == 0 {
                Err(FetchError::Parse)
            } else {
                match leading_count(trim_spec(totals[0].text)) {
                    None => Err(FetchError::NumericParse),
                    Some(c) => Ok(AchievementsV { items, count: c }),
                }
            }
        },
    }
}

/// Extract the achievement items and the reported total from the
/// achievements page's markup.
pub fn extract_achievements(markup: &str) -> (r: Result<Achievements, FetchError>)
    ensures
        match r {
            Ok(a) => spec_achievements(markup@) == Ok::<_, FetchError>(a@),
            Err(e) => spec_achievements(markup@) == Err::<AchievementsV, FetchError>(e),
        },
{
    let doc = parse_document(markup);
    let entries = select_nodes(&doc, ".entry__achievement");
    proof {
        assert(nodes_view(entries@).skip(0) =~= nodes_view(entries@));
    }
    let items = match extract_achievements_from(&entries, 0) {
        Err(e) => {
            return Err(e);
        },
        Ok(items) => items,
    };
    let totals = select_nodes(&doc, ".parts__total");
    proof {
        assert(nodes_view(totals@).len() == totals@.len());
    }
    if totals.len() == 0 {
        return Err(FetchError::Parse);
    }
    proof {
        assert(doc_query(parsed_doc(markup@), ".parts__total"@)[0] == totals@[0]@);
    }
    let totals_text = trim(totals[0].text.as_str());
    match parse_leading_count(totals_text.as_str()) {
        None => Err(FetchError::NumericParse),
        Some(count) => Ok(Achievements { items, count }),
    }
}

/// What one minion or mount icon entry yields: its image node's source
/// attribute. The scraped markup location carries no name text, so the
/// name is always empty.
pub open spec fn spec_icon(entry: NodeView) -> Result<IconV, FetchError> {
    let imgs = doc_query(parsed_fragment(entry.html), "img"@);
    if imgs.len() == 0 {
        Err(FetchError::Parse)
    } else {
        match attr_of(imgs[0].attrs, "src"@) {
            None => Err(FetchError::MissingField),
            Some(src) => Ok(IconV { name: Seq::empty(), image_url: src }),
        }
    }
}

/// The icon entries in document order, or the first entry's failure.
pub open spec fn spec_icons(entries: Seq<NodeView>) -> Result<Seq<IconV>, FetchError>
    decreases entries.len(),
{
    if entries.len() == 0 {
        Ok(Seq::empty())
    } else {
        match spec_icon(entries[0]) {
            Err(e) => Err(e),
            Ok(x) => match spec_icons(entries.drop_first()) {
                Err(e) => Err(e),
                Ok(rest) => Ok(seq![x] + rest),
            },
        }
    }
}

fn extract_icon_url(entry: &NodeData) -> (r: Result<String, FetchError>)
    ensures
        match r {
            Ok(u) => spec_icon(entry@) == Ok::<_, FetchError>(IconV { name: Seq::empty(), image_url: u@ }),
            Err(e) => spec_icon(entry@) == Err::<IconV, FetchError>(e),
        },
{
    let frag = parse_fragment(entry.html.as_str());
    let imgs = select_nodes(&frag, "img");
    proof {
        assert(nodes_view(imgs@).len() == imgs@.len());
    }
    if imgs.len() == 0 {
        return Err(FetchError::Parse);
    }
    proof {
        assert(doc_query(parsed_fragment(entry@.html), "img"@)[0] == imgs@[0]@);
    }
    match find_attr(&imgs[0].attrs, "src") {
        None => Err(FetchError::MissingField),
        Some(src) => Ok(src),
    }
}

fn extract_minions_from(entries: &Vec<NodeData>, i: usize) -> (r: Result<Vec<Minion>, FetchError>)
    requires
        i <= entries@.len(),
    ensures
        match r {
            Ok(items) => spec_icons(nodes_view(entries@).skip(i as int)) == Ok::<_, FetchError>(
                items@.map_values(|m: Minion| m@),
            ),
            Err(e) => spec_icons(nodes_view(entries@).skip(i as int)) == Err::<
                Seq<IconV>,
                FetchError,
            >(e),
        },
    decreases entries@.len() - i,
{
    let ghost s = nodes_view(entries@).skip(i as int);
    if i == entries.len() {
        let empty: Vec<Minion> = Vec::new();
        proof {
            assert(s =~= Seq::<NodeView>::empty());
            assert(empty@.map_values(|m: Minion| m@) =~= Seq::<IconV>::empty());
        }
        Ok(empty)
    } else {
        proof {
            assert(s[0] == entries@[i as int]@);
            assert(s.drop_first() =~= nodes_view(entries@).skip(i as int + 1));
        }
        match extract_icon_url(&entries[i]) {
            Err(e) => Err(e),
            Ok(url) => match extract_minions_from(entries, i + 1) {
                Err(e) => Err(e),
                Ok(mut items) => {
                    let ghost rest = items@.map_values(|x: Minion| x@);
                    let m = Minion { name: String::new(), image_url: url };
                    items.insert(0, m);
                    proof {
                        assert(items@.map_values(|x: Minion| x@) =~= seq![m@] + rest);
                    }
                    Ok(items)
                },
            },
        }
    }
}

fn extract_mounts_from(entries: &Vec<NodeData>, i: usize) -> (r: Result<Vec<Mount>, FetchError>)
    requires
        i <= entries@.len(),
    ensures
        match r {
            Ok(items) => spec_icons(nodes_view(entries@).skip(i as int)) == Ok::<_, FetchError>(
                items@.map_values(|m: Mount| m@),
            ),
            Err(e) => spec_icons(nodes_view(entries@).skip(i as int)) == Err::<
                Seq<IconV>,
                FetchError,
            >(e),
        },
    decreases entries@.len() - i,
{
    let ghost s = nodes_view(entries@).skip(i as int);
    if i == entries.len() {
        let empty: Vec<Mount> = Vec::new();
        proof {
            assert(s =~= Seq::<NodeView>::empty());
            assert(empty@.map_values(|m: Mount| m@) =~= Seq::<IconV>::empty());
        }
        Ok(empty)
    } else {
        proof {
            assert(s[0] == entries@[i as int]@);
            assert(s.drop_first() =~= nodes_view(entries@).skip(i as int + 1));
        }
        match extract_icon_url(&entries[i]) {
            Err(e) => Err(e),
            Ok(url) => match extract_mounts_from(entries, i + 1) {
                Err(e) => Err(e),
                Ok(mut items) => {
                    let ghost rest = items@.map_values(|x: Mount| x@);
                    let m = Mount { name: String::new(), image_url: url };
                    items.insert(0, m);
                    proof {
                        assert(items@.map_values(|x: Mount| x@) =~= seq![m@] + rest);
                    }
                    Ok(items)
                },
            },
        }
    }
}

/// What the minions page yields: one icon entry per match, and the
/// server-reported total read as a plain integer from the counter text.
pub open spec fn spec_minions(markup: Seq<char>) -> Result<IconsV, FetchError> {
    let d = parsed_doc(markup);
    match spec_icons(doc_query(d, ".minion__list_icon"@)) {
        Err(e) => Err(e),
        Ok(items) => {
            let counters = doc_query(d, ".minion__sort__total span"@);
            if counters.len() == 0 {
                Err(FetchError::Parse)
            } else {
                match plain_count(trim_spec(counters[0].text)) {
                    None => Err(FetchError::NumericParse),
                    Some(c) => Ok(IconsV { items, count: c }),
                }
            }
        },
    }
}

/// Extract the minion icons and the reported total from the minions page's
/// markup.
pub fn extract_minions(markup: &str) -> (r: Result<Minions, FetchError>)
    ensures
        match r {
            Ok(m) => spec_minions(markup@) == Ok::<_, FetchError>(m@),
            Err(e) => spec_minions(markup@) == Err::<IconsV, FetchError>(e),
        },
{
    let doc = parse_document(markup);
    let entries = select_nodes(&doc, ".minion__list_icon");
    proof {
        assert(nodes_view(entries@).skip(0) =~= nodes_view(entries@));
    }
    let items = match extract_minions_from(&entries, 0) {
        Err(e) => {
            return Err(e);
        },
        Ok(items) => items,
    };
    let counters = select_nodes(&doc, ".minion__sort__total span");
    proof {
        assert(nodes_view(counters@).len() == counters@.len());
    }
    if counters.len() == 0 {
        return Err(FetchError::Parse);
    }
    proof {
        assert(doc_query(parsed_doc(markup@), ".minion__sort__total span"@)[0] == counters@[0]@);
    }
    let counter_text = trim(counters[0].text.as_str());
    match parse_plain_count(counter_text.as_str()) {
        None => Err(FetchError::NumericParse),
        Some(count) => Ok(Minions { items, count }),
    }
}

/// What the mounts page yields: as [`spec_minions`], with the mounts page's
/// icon selector and the same counter element.
pub open spec fn spec_mounts(markup: Seq<char>) -> Result<IconsV, FetchError> {
    let d = parsed_doc(markup);
    match spec_icons(doc_query(d, ".character__item_icon"@)) {
        Err(e) => Err(e),
        Ok(items) => {
            let counters = doc_query(d, ".minion__sort__total span"@);
            if counters.len() == 0 {
                Err(FetchError::Parse)
            } else {
                match plain_count(trim_spec(counters[0].text)) {
                    None => Err(FetchError::NumericParse),
                    Some(c) => Ok(IconsV { items, count: c }),
                }
            }
        },
    }
}

/// Extract the mount icons and the reported total from the mounts page's
/// markup.
pub fn extract_mounts(markup: &str) -> (r: Result<Mounts, FetchError>)
    ensures
        match r {
            Ok(m) => spec_mounts(markup@) == Ok::<_, FetchError>(m@),
            Err(e) => spec_mounts(markup@) == Err::<IconsV, FetchError>(e),
        },
{
    let doc = parse_document(markup);
    let entries = select_nodes(&doc, ".character__item_icon");
    proof {
        assert(nodes_view(entries@).skip(0) =~= nodes_view(entries@));
    }
    let items = match extract_mounts_from(&entries, 0) {
        Err(e) => {
            return Err(e);
        },
        Ok(items) => items,
    };
    let counters = select_nodes(&doc, ".minion__sort__total span");
    proof {
        assert(nodes_view(counters@).len() == counters@.len());
    }
    if counters.len() == 0 {
        return Err(FetchError::Parse);
    }
    proof {
        assert(doc_query(parsed_doc(markup@), ".minion__sort__total span"@)[0] == counters@[0]@);
    }
    let counter_text = trim(counters[0].text.as_str());
    match parse_plain_count(counter_text.as_str()) {
        None => Err(FetchError::NumericParse),
        Some(count) => Ok(Mounts { items, count }),
    }
}

} // verus!
