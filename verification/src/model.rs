//! The typed record a fetch produces, and the failure taxonomy.
//!
//! Dates and the completion instant are held as epoch seconds in UTC; the
//! portrait fingerprint is the lowercase hex form of a content digest.

use vstd::prelude::*;

verus! {

/// Why a fetch or an extraction failed. Any of these aborts the whole call:
/// no partial record is ever returned.
#[derive(Clone, Debug, PartialEq, Eq)]
pub enum FetchError {
    /// The request failed: connection failure, timeout, or a non-success
    /// status.
    Network(String),
    /// A required selector matched no node.
    Parse,
    /// A required single field was absent.
    MissingField,
    /// No embedded timestamp call was found in the script text, or its
    /// digits name no representable instant.
    TimestampParse,
    /// A totals or counter text held no usable number.
    NumericParse,
}

/// One entry of the job level list, in document order.
#[derive(Clone, Debug, PartialEq, Eq)]
pub struct Job {
    pub name: String,
    /// The entry's own text; raw, not guaranteed numeric.
    pub level: String,
    pub image_url: String,
}

/// The model of a [`Job`].
pub struct JobV {
    pub name: Seq<char>,
    pub level: Seq<char>,
    pub image_url: Seq<char>,
}

impl View for Job {
    type V = JobV;

    open spec fn view(&self) -> JobV {
        JobV { name: self.name@, level: self.level@, image_url: self.image_url@ }
    }
}

/// One achievement visible on the first page.
#[derive(Clone, Debug, PartialEq, Eq)]
pub struct Achievement {
    pub title: String,
    /// Epoch seconds, UTC, decoded from the embedded script.
    pub date: i64,
    pub image_url: String,
}

/// The model of an [`Achievement`].
pub struct AchievementV {
    pub title: Seq<char>,
    pub date: int,
    pub image_url: Seq<char>,
}

impl View for Achievement {
    type V = AchievementV;

    open spec fn view(&self) -> AchievementV {
        AchievementV { title: self.title@, date: self.date as int, image_url: self.image_url@ }
    }
}

/// The achievements of one character: the first page of items, and the
/// server-reported total, which is independent of `items.len()`.
#[derive(Clone, Debug, PartialEq, Eq)]
pub struct Achievements {
    pub items: Vec<Achievement>,
    pub count: i32,
}

/// The model of [`Achievements`].
pub struct AchievementsV {
    pub items: Seq<AchievementV>,
    pub count: int,
}

impl View for Achievements {
    type V = AchievementsV;

    open spec fn view(&self) -> AchievementsV {
        AchievementsV {
            items: self.items@.map_values(|a: Achievement| a@),
            count: self.count as int,
        }
    }
}

/// One minion icon. The scraped markup location carries no name text, so
/// `name` is always the empty string: a documented limitation.
#[derive(Clone, Debug, PartialEq, Eq)]
pub struct Minion {
    pub name: String,
    pub image_url: String,
}

/// The model of a [`Minion`] or a [`Mount`].
pub struct IconV {
    pub name: Seq<char>,
    pub image_url: Seq<char>,
}

impl View for Minion {
    type V = IconV;

    open spec fn view(&self) -> IconV {
        IconV { name: self.name@, image_url: self.image_url@ }
    }
}

/// The minions of one character, with the server-reported total.
#[derive(Clone, Debug, PartialEq, Eq)]
pub struct Minions {
    pub items: Vec<Minion>,
    pub count: i32,
}

/// The model of [`Minions`] or [`Mounts`].
pub struct IconsV {
    pub items: Seq<IconV>,
    pub count: int,
}

impl View for Minions {
    type V = IconsV;

    open spec fn view(&self) -> IconsV {
        IconsV { items: self.items@.map_values(|m: Minion| m@), count: self.count as int }
    }
}

/// One mount icon; `name` is always empty, as for [`Minion`].
#[derive(Clone, Debug, PartialEq, Eq)]
pub struct Mount {
    pub name: String,
    pub image_url: String,
}

impl View for Mount {
    type V = IconV;

    open spec fn view(&self) -> IconV {
        IconV { name: self.name@, image_url: self.image_url@ }
    }
}

/// The mounts of one character, with the server-reported total.
#[derive(Clone, Debug, PartialEq, Eq)]
pub struct Mounts {
    pub items: Vec<Mount>,
    pub count: i32,
}

impl View for Mounts {
    type V = IconsV;

    open spec fn view(&self) -> IconsV {
        IconsV { items: self.items@.map_values(|m: Mount| m@), count: self.count as int }
    }
}

/// What the profile page yields: the character's name, the portrait URL,
/// and the job list in document order.
#[derive(Clone, Debug, PartialEq, Eq)]
pub struct Profile {
    pub name: String,
    pub image_url: String,
    pub jobs: Vec<Job>,
}

/// The model of a [`Profile`].
pub struct ProfileV {
    pub name: Seq<char>,
    pub image_url: Seq<char>,
    pub jobs: Seq<JobV>,
}

impl View for Profile {
    type V = ProfileV;

    open spec fn view(&self) -> ProfileV {
        ProfileV {
            name: self.name@,
            image_url: self.image_url@,
            jobs: self.jobs@.map_values(|j: Job| j@),
        }
    }
}

/// One character's record, fully populated once constructed.
#[derive(Clone, Debug, PartialEq, Eq)]
pub struct FF14Avatar {
    /// Caller-supplied opaque identifier, unvalidated.
    pub id: String,
    pub name: String,
    pub image_url: String,
    pub jobs: Vec<Job>,
    pub achievements: Achievements,
    pub minions: Minions,
    pub mounts: Mounts,
    /// The instant of completion, epoch seconds, UTC.
    pub fetched_at: i64,
    /// Lowercase hex digest of the portrait bytes at fetch time.
    pub image_hash: String,
}

/// The model of an [`FF14Avatar`].
pub struct AvatarV {
    pub id: Seq<char>,
    pub name: Seq<char>,
    pub image_url: Seq<char>,
    pub jobs: Seq<JobV>,
    pub achievements: AchievementsV,
    pub minions: IconsV,
    pub mounts: IconsV,
    pub fetched_at: int,
    pub image_hash: Seq<char>,
}

impl View for FF14Avatar {
    type V = AvatarV;

    open spec fn view(&self) -> AvatarV {
        AvatarV {
            id: self.id@,
            name: self.name@,
            image_url: self.image_url@,
            jobs: self.jobs@.map_values(|j: Job| j@),
            achievements: self.achievements@,
            minions: self.minions@,
            mounts: self.mounts@,
            fetched_at: self.fetched_at as int,
            image_hash: self.image_hash@,
        }
    }
}

} // verus!
