//! Records of the showtime job and the rules that turn fetched data into them.
//!
//! A run fetches cinemas, cities and shows, then a rating for every show and
//! the showtimes of every show at every cinema. The fetching is the caller's;
//! what is decided here is what each answer means, when a run has failed, and
//! which records it writes, in which order. Nothing is written unless every
//! fetch has come back.

use crate::job::matching::best_rt_hit;
use crate::job::matching::is_best_match;
use crate::job::matching::Score;
use crate::job::util::Client;
use crate::job::util::JsonDecodeError;
use chrono::Datelike;
use chrono::NaiveDate;
use vstd::prelude::*;
use vstd::string::*;

verus! {

/// A cinema, as the cinema chain lists it.
#[derive(Debug)]
pub struct Cinema {
    pub slug: String,
    pub city_slug: String,
    pub name: String,
}

/// A city that has cinemas.
#[derive(Debug)]
pub struct City {
    pub slug: String,
    pub name: String,
}

/// The two sizes of a poster.
#[derive(Debug)]
pub struct Image {
    pub lg: String,
    pub md: String,
}

/// A show, as the cinema chain lists it.
#[derive(Debug)]
pub struct Show {
    pub slug: String,
    pub title: String,
    pub release_at: Vec<String>,
    pub poster_path: Option<Image>,
    pub movie_type: String,
    pub duration: i32,
    pub genres: Vec<String>,
}

/// A calendar date.
#[derive(Clone, Copy, Debug, PartialEq, Eq, Structural)]
pub struct ReleaseDate {
    pub year: i32,
    pub month: u32,
    pub day: u32,
}

/// The record of a show.
#[derive(Debug)]
pub struct FlatShow {
    pub slug: String,
    pub title: String,
    pub release_at: Option<ReleaseDate>,
    pub movie_type: String,
    pub duration: i32,
}

/// The record of a show's poster.
#[derive(Debug)]
pub struct Poster {
    pub show_slug: String,
    pub lg: Option<String>,
    pub md: Option<String>,
}

/// The record of one genre of a show.
#[derive(Debug)]
pub struct Genre {
    pub show_slug: String,
    pub genre: String,
}

/// The record of one screening.
#[derive(Debug)]
pub struct Showtime {
    pub show_slug: Option<String>,
    pub cinema_slug: Option<String>,
    pub time: String,
    pub reservation_url: String,
    pub auditorium_name: String,
    pub auditorium_capacity: String,
    pub end_time: String,
}

/// The answer of the rating search.
#[derive(Debug)]
pub struct RTResponse {
    pub results: Vec<RTResult>,
}

/// One result set of the rating search.
#[derive(Debug)]
pub struct RTResult {
    pub hits: Vec<RTHit>,
}

/// One hit of the rating search.
#[derive(Debug)]
pub struct RTHit {
    pub title: String,
    pub vanity: String,
    pub description: Option<String>,
    pub release_year: Option<i32>,
    pub rotten_tomatoes: Option<RTRating>,
}

/// The rating payload that a hit may carry.
#[derive(Debug)]
#[allow(non_snake_case)]
pub struct RTRating {
    pub audience_score: Option<i32>,
    pub score_sentiment: Option<String>,
    pub want_to_see_count: Option<i32>,
    pub critics_score: Option<i32>,
    pub certified_fresh: Option<bool>,
    pub new_adjusted_TM_score: Option<i32>,
}

/// The record of a rating.
#[derive(Debug)]
pub struct Rating {
    pub slug: String,
    pub title: String,
    pub description: Option<String>,
    pub release_year: Option<i32>,
    pub audience_score: Option<i32>,
    pub score_sentiment: Option<String>,
    pub want_to_see_count: Option<i32>,
    pub critics_score: Option<i32>,
    pub certified_fresh: Option<bool>,
    pub new_adjusted_tm_score: Option<i32>,
}

/// The record that ties a show to its rating, with the score of the match.
#[derive(Debug)]
pub struct RatingShow {
    pub show_slug: String,
    pub rating_slug: String,
    pub match_score: Score,
}

/// What identifies a record within its table.
pub trait Record: Sized {
    /// The key of a record of this kind.
    type Key;

    /// The key of this record.
    spec fn key(&self) -> Self::Key;

    /// Whether the two records have the same key.
    fn same_key(&self, other: &Self) -> (same: bool)
        ensures
            same == (self.key() == other.key()),
    ;
}

/// No two records have the same key.
pub open spec fn distinct_keys<T: Record>(records: Seq<T>) -> bool {
    forall|i: int, j: int|
        0 <= i < j < records.len() ==> (#[trigger] records[i]).key() != (#[trigger] records[j]).key()
}

/// Whether a record with this key is among `records`.
pub open spec fn has_key<T: Record>(records: Seq<T>, key: T::Key) -> bool {
    exists|i: int| 0 <= i < records.len() && (#[trigger] records[i]).key() == key
}

/// The first place in `records` of a record with this key.
pub open spec fn place_of<T: Record>(records: Seq<T>, key: T::Key) -> int
    decreases records.len(),
{
    if records.len() == 0 {
        0
    } else if records[0].key() == key {
        0
    } else {
        1 + place_of(records.drop_first(), key)
    }
}

/// `records` with `record` written to it: in the place of the record that
/// has its key, or behind all of them where none has.
pub open spec fn upsert<T: Record>(records: Seq<T>, record: T) -> Seq<T> {
    if has_key(records, record.key()) {
        records.update(place_of(records, record.key()), record)
    } else {
        records.push(record)
    }
}

/// `records` with `record` behind them, unless one of them has its key.
pub open spec fn keep_first<T: Record>(records: Seq<T>, record: T) -> Seq<T> {
    if has_key(records, record.key()) {
        records
    } else {
        records.push(record)
    }
}

/// `items` without those whose key an earlier item has.
pub open spec fn first_of_each<T: Record>(items: Seq<T>) -> Seq<T>
    decreases items.len(),
{
    if items.len() == 0 {
        Seq::empty()
    } else {
        keep_first(first_of_each(items.drop_last()), items.last())
    }
}

/// `items` written one after the other to an empty set.
pub open spec fn collected<T: Record>(items: Seq<T>) -> Seq<T>
    decreases items.len(),
{
    if items.len() == 0 {
        Seq::empty()
    } else {
        upsert(collected(items.drop_last()), items.last())
    }
}

/// The first place of a key that occurs is in range, holds that key, and no
/// earlier place does; a key that does not occur has the length as its place.
pub proof fn lemma_place_of<T: Record>(records: Seq<T>, key: T::Key)
    ensures
        0 <= place_of(records, key) <= records.len(),
        has_key(records, key) <==> place_of(records, key) < records.len(),
        has_key(records, key) ==> records[place_of(records, key)].key() == key,
        forall|i: int| 0 <= i < place_of(records, key) ==> (#[trigger] records[i]).key() != key,
    decreases records.len(),
{
    if records.len() > 0 {
        let rest = records.drop_first();
        lemma_place_of(rest, key);
        if records[0].key() != key {
            // The key is among all records just when it is among the rest.
            if has_key(records, key) {
                let i = choose|i: int| 0 <= i < records.len() && (#[trigger] records[i]).key() == key;
                assert(rest[i - 1].key() == key);
            }
            if has_key(rest, key) {
                let i = choose|i: int| 0 <= i < rest.len() && (#[trigger] rest[i]).key() == key;
                assert(records[i + 1].key() == key);
            }
            assert forall|i: int| 0 <= i < place_of(records, key) implies (#[trigger] records[i]).key()
                != key by {
                if i > 0 {
                    assert(rest[i - 1] == records[i]);
                }
            }
        }
    }
}

/// Writing a record to a set with distinct keys leaves the keys distinct.
pub proof fn lemma_upsert_keeps_keys_distinct<T: Record>(records: Seq<T>, record: T)
    requires
        distinct_keys(records),
    ensures
        distinct_keys(upsert(records, record)),
        has_key(upsert(records, record), record.key()),
{
    lemma_place_of(records, record.key());
    let after = upsert(records, record);
    if has_key(records, record.key()) {
        let at = place_of(records, record.key());
        // The record takes the place of the one with its key: the keys stay
        // as they were.
        assert(after[at].key() == record.key());
        assert forall|i: int, j: int| 0 <= i < j < after.len() implies
            (#[trigger] after[i]).key() != (#[trigger] after[j]).key() by {
            assert(after[i].key() == records[i].key() && after[j].key() == records[j].key());
        }
    } else {
        // The record goes behind the others, none of which has its key.
        assert(after[records.len() as int].key() == record.key());
        assert forall|i: int, j: int| 0 <= i < j < after.len() implies
            (#[trigger] after[i]).key() != (#[trigger] after[j]).key() by {
            assert(after[i] == records[i]);
        }
    }
}

/// The records of one table, at most one for each key, in the order in which
/// their keys were first written.
pub struct RecordSet<T: Record> {
    records: Vec<T>,
}

impl<T: Record> View for RecordSet<T> {
    type V = Seq<T>;

    closed spec fn view(&self) -> Seq<T> {
        self.records@
    }
}

impl<T: Record> RecordSet<T> {
    #[verifier::type_invariant]
    spec fn keys_are_distinct(self) -> bool {
        distinct_keys(self.records@)
    }

    /// A set without records.
    pub fn new() -> (set: RecordSet<T>)
        ensures
            set@ == Seq::<T>::empty(),
    {
        RecordSet { records: Vec::new() }
    }

    /// Writes `record`: over the record that has its key, or behind all
    /// records where none has.
    pub fn add(&mut self, record: T)
        ensures
            final(self)@ == upsert(old(self)@, record),
    {
        proof {
            use_type_invariant(&*self);
            lemma_place_of(self.records@, record.key());
            lemma_upsert_keeps_keys_distinct(self.records@, record);
        }
        let mut records: Vec<T> = Vec::new();
        std::mem::swap(&mut records, &mut self.records);
        let ghost before = records@;
        let mut at: usize = 0;
        while at < records.len() && !records[at].same_key(&record)
            invariant
                records@ == before,
                at <= records.len(),
                forall|i: int| 0 <= i < at ==> (#[trigger] before[i]).key() != record.key(),
            decreases records.len() - at,
        {
            at = at + 1;
        }
        if at < records.len() {
            records.set(at, record);
        } else {
            records.push(record);
        }
        self.records = records;
    }

    /// Whether the set has a record with the key of `record`.
    pub fn holds(&self, record: &T) -> (held: bool)
        ensures
            held == has_key(self@, record.key()),
    {
        let mut at: usize = 0;
        while at < self.records.len()
            invariant
                at <= self.records@.len(),
                forall|i: int| 0 <= i < at ==> (#[trigger] self.records@[i]).key() != record.key(),
            decreases self.records.len() - at,
        {
            if self.records[at].same_key(record) {
                return true;
            }
            at = at + 1;
        }
        false
    }

    /// Writes `record` unless the set has a record with its key already.
    pub fn add_new(&mut self, record: T)
        ensures
            final(self)@ == keep_first(old(self)@, record),
    {
        if !self.holds(&record) {
            self.add(record);
        }
    }

    /// The set that holds `items`, written one after the other.
    pub fn from_vec(items: Vec<T>) -> (set: RecordSet<T>)
        ensures
            set@ == collected(items@),
    {
        let ghost all = items@;
        let mut set = RecordSet::new();
        for item in it: items
            invariant
                it.seq() == all,
                set@ == collected(all.take(it.index() as int)),
        {
            proof {
                let upto = all.take(it.index() + 1);
                assert(upto.drop_last() == all.take(it.index() as int));
            }
            set.add(item);
        }
        proof {
            assert(all.take(all.len() as int) == all);
        }
        set
    }

    /// Number of records.
    pub fn len(&self) -> (n: usize)
        ensures
            n == self@.len(),
    {
        self.records.len()
    }

    /// The records, for the sink to write; no two of them share a key.
    pub fn build(self) -> (records: Vec<T>)
        ensures
            records@ == self@,
            distinct_keys(records@),
    {
        proof {
            use_type_invariant(&self);
        }
        self.records
    }
}

/// The text of an optional string.
pub open spec fn text_of(text: Option<String>) -> Option<Seq<char>> {
    match text {
        Some(text) => Some(text@),
        None => None,
    }
}

/// Whether two optional strings hold the same text, or both none.
fn same_text(a: &Option<String>, b: &Option<String>) -> (same: bool)
    ensures
        same == (text_of(*a) == text_of(*b)),
{
    match a {
        Some(x) => match b {
            Some(y) => *x == *y,
            None => false,
        },
        None => b.is_none(),
    }
}

impl Record for City {
    type Key = Seq<char>;

    open spec fn key(&self) -> Seq<char> {
        self.slug@
    }

    fn same_key(&self, other: &Self) -> (same: bool) {
        self.slug == other.slug
    }
}

impl Record for Cinema {
    type Key = Seq<char>;

    open spec fn key(&self) -> Seq<char> {
        self.slug@
    }

    fn same_key(&self, other: &Self) -> (same: bool) {
        self.slug == other.slug
    }
}

impl Record for FlatShow {
    type Key = Seq<char>;

    open spec fn key(&self) -> Seq<char> {
        self.slug@
    }

    fn same_key(&self, other: &Self) -> (same: bool) {
        self.slug == other.slug
    }
}

impl Record for Poster {
    type Key = Seq<char>;

    open spec fn key(&self) -> Seq<char> {
        self.show_slug@
    }

    fn same_key(&self, other: &Self) -> (same: bool) {
        self.show_slug == other.show_slug
    }
}

impl Record for Genre {
    type Key = (Seq<char>, Seq<char>);

    open spec fn key(&self) -> (Seq<char>, Seq<char>) {
        (self.show_slug@, self.genre@)
    }

    fn same_key(&self, other: &Self) -> (same: bool) {
        self.show_slug == other.show_slug && self.genre == other.genre
    }
}

impl Record for Showtime {
    type Key = (Option<Seq<char>>, Option<Seq<char>>, Seq<char>, Seq<char>);

    open spec fn key(&self) -> (Option<Seq<char>>, Option<Seq<char>>, Seq<char>, Seq<char>) {
        (text_of(self.show_slug), text_of(self.cinema_slug), self.time@, self.auditorium_name@)
    }

    fn same_key(&self, other: &Self) -> (same: bool) {
        same_text(&self.show_slug, &other.show_slug) && same_text(
            &self.cinema_slug,
            &other.cinema_slug,
        ) && self.time == other.time && self.auditorium_name == other.auditorium_name
    }
}

impl Record for Rating {
    type Key = Seq<char>;

    open spec fn key(&self) -> Seq<char> {
        self.slug@
    }

    fn same_key(&self, other: &Self) -> (same: bool) {
        self.slug == other.slug
    }
}

impl Record for RatingShow {
    type Key = (Seq<char>, Seq<char>);

    open spec fn key(&self) -> (Seq<char>, Seq<char>) {
        (self.show_slug@, self.rating_slug@)
    }

    fn same_key(&self, other: &Self) -> (same: bool) {
        self.show_slug == other.show_slug && self.rating_slug == other.rating_slug
    }
}

/// Where the cinema chain lists its cinemas.
pub const CINEMAS_URL: &'static str = "https://www.pathe.nl/api/cinemas?language=nl";

/// Where the cinema chain lists the cities that have cinemas.
pub const CITIES_URL: &'static str = "https://www.pathe.nl/api/cities?language=nl";

/// Where the cinema chain lists its shows.
pub const SHOWS_URL: &'static str = "https://www.pathe.nl/api/shows?language=nl";

/// Where the cinema chain lists the shows that are on at a cinema.
pub fn cinema_shows_url(cinema_slug: &str) -> (url: String)
    ensures
        url@ == "https://www.pathe.nl/api/cinema/"@ + cinema_slug@ + "/shows?language=nl"@,
{
    let mut url = "https://www.pathe.nl/api/cinema/".to_owned();
    url.append(cinema_slug);
    url.append("/shows?language=nl");
    url
}

/// Where the cinema chain lists the screenings of a show at a cinema.
pub fn showtimes_url(show_slug: &str, cinema_slug: &str) -> (url: String)
    ensures
        url@ == "https://www.pathe.nl/api/show/"@ + show_slug@ + "/showtimes/"@ + cinema_slug@
            + "?language=nl"@,
{
    let mut url = "https://www.pathe.nl/api/show/".to_owned();
    url.append(show_slug);
    url.append("/showtimes/");
    url.append(cinema_slug);
    url.append("?language=nl");
    url
}

/// The format in which the cinema chain writes release dates.
pub const PATHE_DATE_FORMAT: &'static str = "%Y-%m-%d";

/// Year, month and day of the date that `text` holds when read by `format`,
/// as `chrono` reads it; none where `chrono` finds no date in it.
pub uninterp spec fn parsed_date(text: Seq<char>, format: Seq<char>) -> Option<(i32, u32, u32)>;

/// Year, month and day of a date.
pub open spec fn date_parts(date: Option<ReleaseDate>) -> Option<(i32, u32, u32)> {
    match date {
        Some(date) => Some((date.year, date.month, date.day)),
        None => None,
    }
}

/// Calls `chrono::NaiveDate::parse_from_str` and, on the date it returns,
/// `year`, `month` and `day`. The parser reads `text` by `format` and returns
/// an error, never panics, where the text does not fit, the date does not
/// exist, or the format is malformed. What it accepts is not stated here:
/// the contract only names the result, as a function of the two texts.
#[verifier::external_body]
fn parse_date(text: &str, format: &str) -> (date: Option<ReleaseDate>)
    ensures
        date_parts(date) == parsed_date(text@, format@),
{
    match NaiveDate::parse_from_str(text, format) {
        Ok(date) => Some(ReleaseDate { year: date.year(), month: date.month(), day: date.day() }),
        Err(_) => None,
    }
}

impl Show {
    /// Whether the show's release date can be read: it has none, or the
    /// first one listed is a date in [`PATHE_DATE_FORMAT`].
    pub open spec fn dated(self) -> bool {
        self.release_at@.len() > 0 ==> parsed_date(self.release_at@[0]@, PATHE_DATE_FORMAT@) is Some
    }

    /// The first release date listed, if any is.
    pub open spec fn release_date(self) -> Option<ReleaseDate> {
        if self.release_at@.len() == 0 {
            None
        } else {
            match parsed_date(self.release_at@[0]@, PATHE_DATE_FORMAT@) {
                Some((year, month, day)) => Some(ReleaseDate { year, month, day }),
                None => None,
            }
        }
    }

    /// The record of the show itself.
    pub open spec fn flat_show(self) -> FlatShow {
        FlatShow {
            slug: self.slug,
            title: self.title,
            release_at: self.release_date(),
            movie_type: self.movie_type,
            duration: self.duration,
        }
    }

    /// The record of the show's poster.
    pub open spec fn poster(self) -> Poster {
        Poster {
            show_slug: self.slug,
            lg: match self.poster_path {
                Some(image) => Some(image.lg),
                None => None,
            },
            md: match self.poster_path {
                Some(image) => Some(image.md),
                None => None,
            },
        }
    }

    /// The records of the show's genres, in the order listed.
    pub open spec fn genre_records(self) -> Seq<Genre> {
        Seq::new(
            self.genres@.len(),
            |i: int| Genre { show_slug: self.slug, genre: self.genres@[i] },
        )
    }

    /// Splits the show into its records: the show itself with the first of
    /// its release dates, its poster, and one record for each genre.
    pub fn flatten(self) -> (records: (FlatShow, Poster, Vec<Genre>))
        requires
            self.dated(),
        ensures
            records.0 == self.flat_show(),
            records.1 == self.poster(),
            records.2@ == self.genre_records(),
    {
        let release_at = if self.release_at.len() > 0 {
            let date = parse_date(self.release_at[0].as_str(), PATHE_DATE_FORMAT);
            Some(date.unwrap())
        } else {
            None
        };
        let (lg, md) = match self.poster_path {
            Some(image) => (Some(image.lg), Some(image.md)),
            None => (None, None),
        };
        let mut genres: Vec<Genre> = Vec::new();
        let ghost listed = self.genres@;
        let ghost wanted = self.genre_records();
        for genre in it: self.genres
            invariant
                it.seq() == listed,
                wanted.len() == listed.len(),
                forall|i: int|
                    0 <= i < listed.len() ==> #[trigger] wanted[i] == (Genre {
                        show_slug: self.slug,
                        genre: listed[i],
                    }),
                genres@ == wanted.take(it.index() as int),
        {
            genres.push(Genre { show_slug: self.slug.clone(), genre });
        }
        (
            FlatShow {
                slug: self.slug.clone(),
                title: self.title,
                release_at,
                movie_type: self.movie_type,
                duration: self.duration,
            },
            Poster { show_slug: self.slug, lg, md },
            genres,
        )
    }

    /// Splits the show into its records where its release date can be read,
    /// and says so where it cannot.
    pub fn try_flatten(self) -> (records: Option<(FlatShow, Poster, Vec<Genre>)>)
        ensures
            records is Some <==> self.dated(),
            records matches Some(parts) ==> {
                &&& parts.0 == self.flat_show()
                &&& parts.1 == self.poster()
                &&& parts.2@ == self.genre_records()
            },
    {
        if self.release_at.len() > 0 && parse_date(
            self.release_at[0].as_str(),
            PATHE_DATE_FORMAT,
        ).is_none() {
            None
        } else {
            Some(self.flatten())
        }
    }
}

/// `tokio::task::JoinError`: a task that ended without a result, because it
/// panicked or was cancelled.
#[verifier::external_type_specification]
#[verifier::external_body]
pub struct ExJoinError(tokio::task::JoinError);

/// Why a run failed. Any of these ends the run without a record written.
#[derive(Debug)]
pub enum RunError {
    /// A fetch gave up, or what it brought could not be decoded where data
    /// is required.
    Fetch(JsonDecodeError),
    /// The rating search answered without any result set.
    NoResults,
    /// A show's release date cannot be read; the show's slug comes with it.
    ReleaseDate(String),
    /// A task ended without a result.
    Join(tokio::task::JoinError),
    /// Not every task that was started has been waited for: the results
    /// handed in are not one for each.
    Incomplete,
}

/// The rating record made from a hit.
pub open spec fn rating_of(hit: RTHit) -> Rating {
    Rating {
        slug: hit.vanity,
        title: hit.title,
        description: hit.description,
        release_year: hit.release_year,
        audience_score: match hit.rotten_tomatoes {
            Some(rating) => rating.audience_score,
            None => None,
        },
        score_sentiment: match hit.rotten_tomatoes {
            Some(rating) => rating.score_sentiment,
            None => None,
        },
        want_to_see_count: match hit.rotten_tomatoes {
            Some(rating) => rating.want_to_see_count,
            None => None,
        },
        critics_score: match hit.rotten_tomatoes {
            Some(rating) => rating.critics_score,
            None => None,
        },
        certified_fresh: match hit.rotten_tomatoes {
            Some(rating) => rating.certified_fresh,
            None => None,
        },
        new_adjusted_tm_score: match hit.rotten_tomatoes {
            Some(rating) => rating.new_adjusted_TM_score,
            None => None,
        },
    }
}

/// The records that a match gives for the show with slug `show_slug`: the
/// rating, and the tie between show and rating with the score of the match.
pub open spec fn rated(best: Option<(RTHit, Score)>, show_slug: String) -> Option<
    (Rating, RatingShow),
> {
    match best {
        Some((hit, score)) => Some(
            (
                rating_of(hit),
                RatingShow { show_slug, rating_slug: hit.vanity, match_score: score },
            ),
        ),
        None => None,
    }
}

/// The rating of a show, from what the rating search answered when asked
/// for the show's title: the hit of the first result set that matches title
/// and year best, none where that set has no hit. An answer without any
/// result set fails the run.
pub fn fetch_show_rating(
    response: RTResponse,
    show_slug: String,
    title: String,
    year: Option<i32>,
) -> (rating: Result<Option<(Rating, RatingShow)>, RunError>)
    ensures
        response.results@.len() == 0 ==> rating == Err::<Option<(Rating, RatingShow)>, RunError>(
            RunError::NoResults,
        ),
        response.results@.len() > 0 ==> exists|best: Option<(RTHit, Score)>|
            {
                &&& #[trigger] is_best_match(response.results@[0].hits@, title@, year, best)
                &&& rating == Ok::<Option<(Rating, RatingShow)>, RunError>(rated(best, show_slug))
            },
{
    let mut results = response.results;
    if results.len() == 0 {
        return Err(RunError::NoResults);
    }
    let first = results.remove(0);
    let best = best_rt_hit(first.hits, title, year);
    match best {
        None => Ok(None),
        Some((hit, match_score)) => {
            let rating_slug = hit.vanity.clone();
            let (
                audience_score,
                score_sentiment,
                want_to_see_count,
                critics_score,
                certified_fresh,
                new_adjusted_tm_score,
            ) = match hit.rotten_tomatoes {
                Some(rating) => (
                    rating.audience_score,
                    rating.score_sentiment,
                    rating.want_to_see_count,
                    rating.critics_score,
                    rating.certified_fresh,
                    rating.new_adjusted_TM_score,
                ),
                None => (None, None, None, None, None, None),
            };
            Ok(
                Some(
                    (
                        Rating {
                            slug: hit.vanity,
                            title: hit.title,
                            description: hit.description,
                            release_year: hit.release_year,
                            audience_score,
                            score_sentiment,
                            want_to_see_count,
                            critics_score,
                            certified_fresh,
                            new_adjusted_tm_score,
                        },
                        RatingShow { show_slug, rating_slug, match_score },
                    ),
                ),
            )
        },
    }
}

/// All items of all groups, group after group.
pub open spec fn flattened<T>(groups: Seq<Vec<T>>) -> Seq<T>
    decreases groups.len(),
{
    if groups.len() == 0 {
        Seq::empty()
    } else {
        flattened(groups.drop_last()) + groups.last()@
    }
}

/// `showtime` marked as a screening of the show at the cinema.
pub open spec fn stamped(showtime: Showtime, show_slug: String, cinema_slug: String) -> Showtime {
    Showtime { show_slug: Some(show_slug), cinema_slug: Some(cinema_slug), ..showtime }
}

/// The screenings of a show at a cinema, from what the fetch of its
/// showtimes brought: every screening of every day, marked with show and
/// cinema. A payload that cannot be decoded means that the show is not on at
/// that cinema, and gives no screenings. A fetch that gave up is an error.
pub fn fetch_showtimes(
    fetched: Result<Vec<Vec<Showtime>>, JsonDecodeError>,
    show_slug: String,
    cinema_slug: String,
) -> (showtimes: Result<Vec<Showtime>, RunError>)
    ensures
        match fetched {
            Ok(groups) => showtimes matches Ok(all) && all@ == flattened(groups@).map_values(
                |showtime: Showtime| stamped(showtime, show_slug, cinema_slug),
            ),
            Err(JsonDecodeError::DecodeError(_)) => showtimes matches Ok(all) && all@.len() == 0,
            Err(JsonDecodeError::NetworkError(failure)) => showtimes == Err::<
                Vec<Showtime>,
                RunError,
            >(RunError::Fetch(JsonDecodeError::NetworkError(failure))),
        },
{
    let groups = match fetched {
        Ok(groups) => groups,
        Err(JsonDecodeError::DecodeError(_)) => {
            return Ok(Vec::new());
        },
        Err(JsonDecodeError::NetworkError(failure)) => {
            return Err(RunError::Fetch(JsonDecodeError::NetworkError(failure)));
        },
    };
    let ghost days = groups@;
    let ghost mark = |showtime: Showtime| stamped(showtime, show_slug, cinema_slug);
    let mut all: Vec<Showtime> = Vec::new();
    for group in outer: groups
        invariant
            outer.seq() == days,
            mark == |showtime: Showtime| stamped(showtime, show_slug, cinema_slug),
            all@ == flattened(days.take(outer.index() as int)).map_values(mark),
    {
        let ghost before = all@;
        let ghost day = group@;
        for showtime in inner: group
            invariant
                inner.seq() == day,
                mark == |showtime: Showtime| stamped(showtime, show_slug, cinema_slug),
                all@ == before + day.take(inner.index() as int).map_values(mark),
        {
            let mut showtime = showtime;
            showtime.show_slug = Some(show_slug.clone());
            showtime.cinema_slug = Some(cinema_slug.clone());
            all.push(showtime);
        }
        proof {
            let upto = days.take(outer.index() + 1);
            assert(upto.drop_last() == days.take(outer.index() as int));
        }
    }
    assert(days.take(days.len() as int) == days);
    Ok(all)
}

/// Whether every task came back with a result.
pub open spec fn all_ok<T, E>(results: Seq<Result<T, E>>) -> bool {
    forall|i: int| 0 <= i < results.len() ==> (#[trigger] results[i]) is Ok
}

/// Whether `at` is the place of the first task that failed.
pub open spec fn is_first_failure<T, E>(results: Seq<Result<T, E>>, at: int) -> bool {
    &&& 0 <= at < results.len()
    &&& results[at] is Err
    &&& all_ok(results.take(at))
}

/// What the tasks brought, task after task; a failed task brings nothing.
pub open spec fn gathered<T, E>(results: Seq<Result<Vec<T>, E>>) -> Seq<T>
    decreases results.len(),
{
    if results.len() == 0 {
        Seq::empty()
    } else {
        gathered(results.drop_last()) + match results.last() {
            Ok(items) => items@,
            Err(_) => Seq::empty(),
        }
    }
}

/// Joins the results of tasks that ran side by side, in the order in which
/// the tasks were started: all that they brought, if every one of them came
/// back with a result, else the failure of the first that did not.
pub fn join_all<T, E>(results: Vec<Result<Vec<T>, E>>) -> (joined: Result<Vec<T>, E>)
    ensures
        joined is Ok <==> all_ok(results@),
        joined matches Ok(all) ==> all@ == gathered(results@),
        joined matches Err(failure) ==> exists|at: int|
            #[trigger] is_first_failure(results@, at) && results@[at] == Err::<Vec<T>, E>(failure),
{
    let ghost tasks = results@;
    let mut all: Vec<T> = Vec::new();
    for result in it: results
        invariant
            it.seq() == tasks,
            all_ok(tasks.take(it.index() as int)),
            all@ == gathered(tasks.take(it.index() as int)),
    {
        let ghost upto = tasks.take(it.index() + 1);
        proof {
            assert(upto.drop_last() == tasks.take(it.index() as int));
        }
        match result {
            Ok(items) => {
                let mut items = items;
                all.append(&mut items);
                assert forall|i: int| 0 <= i < upto.len() implies (#[trigger] upto[i]) is Ok by {
                    if i < it.index() {
                        assert(tasks.take(it.index() as int)[i] is Ok);
                    }
                }
            },
            Err(failure) => {
                assert(is_first_failure(tasks, it.index() as int));
                return Err(failure);
            },
        }
    }
    assert(tasks.take(tasks.len() as int) == tasks);
    Ok(all)
}

/// The screenings at one cinema, from the results of the fetches made for
/// the shows that are on there: all of them, or the first failure.
pub fn fetch_showtimes_cinema(results: Vec<Result<Vec<Showtime>, RunError>>) -> (showtimes: Result<
    Vec<Showtime>,
    RunError,
>)
    ensures
        showtimes is Ok <==> all_ok(results@),
        showtimes matches Ok(all) ==> all@ == gathered(results@),
        showtimes matches Err(failure) ==> exists|at: int|
            #[trigger] is_first_failure(results@, at) && results@[at] == Err::<
                Vec<Showtime>,
                RunError,
            >(failure),
{
    join_all(results)
}

/// What to ask the rating search for one show.
#[derive(Debug)]
pub struct Lookup {
    pub show_slug: String,
    pub title: String,
    pub year: Option<i32>,
}

impl Show {
    /// What to ask the rating search for this show: its title, with the
    /// year of its release date where it has one.
    pub open spec fn lookup(self) -> Lookup {
        Lookup {
            show_slug: self.slug,
            title: self.title,
            year: match self.release_date() {
                Some(date) => Some(date.year),
                None => None,
            },
        }
    }
}

/// The genre records of all shows, show after show.
pub open spec fn all_genres(shows: Seq<Show>) -> Seq<Genre>
    decreases shows.len(),
{
    if shows.len() == 0 {
        Seq::empty()
    } else {
        all_genres(shows.drop_last()) + shows.last().genre_records()
    }
}

/// Whether `at` is the place of the first show whose release date cannot be
/// read.
pub open spec fn is_first_undated(shows: Seq<Show>, at: int) -> bool {
    &&& 0 <= at < shows.len()
    &&& !shows[at].dated()
    &&& forall|i: int| 0 <= i < at ==> (#[trigger] shows[i]).dated()
}

/// What a run holds once cinemas, cities and shows are there: the records
/// of the shows, and what is left to fetch, one rating for each of `lookups`
/// and the showtimes of each of `cinemas`.
pub struct Prepared {
    pub cities: Vec<City>,
    pub cinemas: Vec<Cinema>,
    pub shows: RecordSet<FlatShow>,
    pub posters: RecordSet<Poster>,
    pub genres: RecordSet<Genre>,
    pub lookups: Vec<Lookup>,
}

/// The tables that a run writes.
#[derive(Clone, Copy, Debug, PartialEq, Eq, Structural)]
pub enum Table {
    Cities,
    Cinemas,
    Shows,
    Posters,
    Genres,
    Showtimes,
    Ratings,
    RatingShows,
}

impl Table {
    /// Whether a record of this table names a record of `other` by its slug,
    /// so that `other` has to be written first.
    pub open spec fn refers_to(self, other: Table) -> bool {
        match self {
            Table::Cinemas => other == Table::Cities,
            Table::Posters => other == Table::Shows,
            Table::Genres => other == Table::Shows,
            Table::Showtimes => other == Table::Shows || other == Table::Cinemas,
            Table::RatingShows => other == Table::Shows || other == Table::Ratings,
            _ => false,
        }
    }
}

/// The order in which the tables are written.
pub open spec fn write_order() -> Seq<Table> {
    seq![
        Table::Cities,
        Table::Cinemas,
        Table::Shows,
        Table::Posters,
        Table::Genres,
        Table::Showtimes,
        Table::Ratings,
        Table::RatingShows,
    ]
}

/// The order in which the tables are written: every table once, and each
/// behind the tables that its records refer to.
pub fn table_order() -> (order: Vec<Table>)
    ensures
        order@ == write_order(),
        forall|i: int, j: int|
            0 <= i < order@.len() && 0 <= j < order@.len() && (#[trigger] order@[i]).refers_to(
                #[trigger] order@[j],
            ) ==> j < i,
{
    let mut order: Vec<Table> = Vec::new();
    order.push(Table::Cities);
    order.push(Table::Cinemas);
    order.push(Table::Shows);
    order.push(Table::Posters);
    order.push(Table::Genres);
    order.push(Table::Showtimes);
    order.push(Table::Ratings);
    order.push(Table::RatingShows);
    order
}

/// The record sets of a finished run, one for each table.
pub struct Records {
    pub cities: RecordSet<City>,
    pub cinemas: RecordSet<Cinema>,
    pub shows: RecordSet<FlatShow>,
    pub posters: RecordSet<Poster>,
    pub genres: RecordSet<Genre>,
    pub showtimes: RecordSet<Showtime>,
    pub ratings: RecordSet<Rating>,
    pub rating_shows: RecordSet<RatingShow>,
}

/// The ratings that the lookups found, in the order of the lookups.
pub open spec fn ratings_found<E>(results: Seq<Result<Option<(Rating, RatingShow)>, E>>) -> Seq<
    Rating,
>
    decreases results.len(),
{
    if results.len() == 0 {
        Seq::empty()
    } else {
        match results.last() {
            Ok(Some(found)) => ratings_found(results.drop_last()).push(found.0),
            _ => ratings_found(results.drop_last()),
        }
    }
}

/// The ties between shows and ratings that the lookups found, in the order
/// of the lookups.
pub open spec fn ties_found<E>(results: Seq<Result<Option<(Rating, RatingShow)>, E>>) -> Seq<
    RatingShow,
>
    decreases results.len(),
{
    if results.len() == 0 {
        Seq::empty()
    } else {
        match results.last() {
            Ok(Some(found)) => ties_found(results.drop_last()).push(found.1),
            _ => ties_found(results.drop_last()),
        }
    }
}

/// The fetcher of the showtime job, with the policies of its two clients:
/// one for the cinema chain, one for the rating search.
#[derive(Clone, Copy, Debug)]
pub struct MovieFetcher {
    pub client: Client,
    pub rt_client: Client,
}

impl MovieFetcher {
    /// A fetcher whose clients make at most ten requests a second and try
    /// again up to three times.
    pub fn new() -> (fetcher: MovieFetcher)
        ensures
            fetcher.client.limit == Some(10u32),
            fetcher.client.max_retries == 3,
            fetcher.rt_client == fetcher.client,
    {
        let client = Client::new().with_limit(10).with_max_retries(3);
        MovieFetcher { client, rt_client: client }
    }

    /// Takes the three fetches that a run starts with. If one of them
    /// failed, the run has failed, with the failure of the first of them in
    /// the order cinemas, cities, shows. So it has if a show's release date
    /// cannot be read. Else every show is split into its records, and for
    /// every show a rating is to be looked up.
    pub fn prepare(
        &self,
        cinemas: Result<Vec<Cinema>, JsonDecodeError>,
        cities: Result<Vec<City>, JsonDecodeError>,
        shows: Result<Vec<Show>, JsonDecodeError>,
    ) -> (prepared: Result<Prepared, RunError>)
        ensures
            match (cinemas, cities, shows) {
                (Err(failure), _, _) => prepared == Err::<Prepared, RunError>(
                    RunError::Fetch(failure),
                ),
                (Ok(_), Err(failure), _) => prepared == Err::<Prepared, RunError>(
                    RunError::Fetch(failure),
                ),
                (Ok(_), Ok(_), Err(failure)) => prepared == Err::<Prepared, RunError>(
                    RunError::Fetch(failure),
                ),
                (Ok(cinemas), Ok(cities), Ok(shows)) => match prepared {
                    Ok(prepared) => {
                        &&& forall|i: int| 0 <= i < shows@.len() ==> (#[trigger] shows@[i]).dated()
                        &&& prepared.cinemas == cinemas
                        &&& prepared.cities == cities
                        &&& prepared.shows@ == collected(
                            shows@.map_values(|show: Show| show.flat_show()),
                        )
                        &&& prepared.posters@ == collected(
                            shows@.map_values(|show: Show| show.poster()),
                        )
                        &&& prepared.genres@ == collected(all_genres(shows@))
                        &&& prepared.lookups@ == shows@.map_values(|show: Show| show.lookup())
                    },
                    Err(failure) => exists|at: int|
                        #[trigger] is_first_undated(shows@, at) && failure == RunError::ReleaseDate(
                            shows@[at].slug,
                        ),
                },
            },
    {
        let cinema_list = match cinemas {
            Ok(list) => list,
            Err(failure) => {
                return Err(RunError::Fetch(failure));
            },
        };
        let city_list = match cities {
            Ok(list) => list,
            Err(failure) => {
                return Err(RunError::Fetch(failure));
            },
        };
        let show_list = match shows {
            Ok(list) => list,
            Err(failure) => {
                return Err(RunError::Fetch(failure));
            },
        };
        let ghost listed = show_list@;
        let ghost flat = |show: Show| show.flat_show();
        let ghost poster = |show: Show| show.poster();
        let ghost lookup = |show: Show| show.lookup();
        let mut show_set: RecordSet<FlatShow> = RecordSet::new();
        let mut poster_set: RecordSet<Poster> = RecordSet::new();
        let mut genre_set: RecordSet<Genre> = RecordSet::new();
        let mut lookups: Vec<Lookup> = Vec::new();
        for show in it: show_list
            invariant
                it.seq() == listed,
                cinemas is Ok,
                cities is Ok,
                shows matches Ok(list) && list@ == listed,
                flat == |show: Show| show.flat_show(),
                poster == |show: Show| show.poster(),
                lookup == |show: Show| show.lookup(),
                forall|i: int| 0 <= i < it.index() ==> (#[trigger] listed[i]).dated(),
                show_set@ == collected(listed.take(it.index() as int).map_values(flat)),
                poster_set@ == collected(listed.take(it.index() as int).map_values(poster)),
                genre_set@ == collected(all_genres(listed.take(it.index() as int))),
                lookups@ == listed.take(it.index() as int).map_values(lookup),
        {
            let ghost before = listed.take(it.index() as int);
            let ghost upto = listed.take(it.index() + 1);
            proof {
                assert(upto.drop_last() == before);
                assert(upto.map_values(flat).drop_last() == before.map_values(flat));
                assert(upto.map_values(poster).drop_last() == before.map_values(poster));
            }
            let slug = show.slug.clone();
            let title = show.title.clone();
            match show.try_flatten() {
                None => {
                    assert(is_first_undated(listed, it.index() as int));
                    return Err(RunError::ReleaseDate(slug));
                },
                Some((flat_show, poster_record, genres)) => {
                    let year = match flat_show.release_at {
                        Some(date) => Some(date.year),
                        None => None,
                    };
                    lookups.push(Lookup { show_slug: slug, title, year });
                    show_set.add(flat_show);
                    poster_set.add(poster_record);
                    let ghost earlier = all_genres(before);
                    let ghost these = genres@;
                    for genre in inner: genres
                        invariant
                            inner.seq() == these,
                            genre_set@ == collected(earlier + these.take(inner.index() as int)),
                    {
                        proof {
                            let more = earlier + these.take(inner.index() + 1);
                            assert(more.drop_last() == earlier + these.take(inner.index() as int));
                        }
                        genre_set.add(genre);
                    }
                    proof {
                        assert(these.take(these.len() as int) == these);
                    }
                },
            }
        }
        proof {
            assert(listed.take(listed.len() as int) == listed);
        }
        Ok(
            Prepared {
                cities: city_list,
                cinemas: cinema_list,
                shows: show_set,
                posters: poster_set,
                genres: genre_set,
                lookups,
            },
        )
    }

    /// Whether one result came back for every task that `prepared` asked
    /// for: showtimes for every cinema, a rating for every lookup.
    pub open spec fn complete(
        prepared: Prepared,
        showtimes: Seq<Result<Vec<Showtime>, RunError>>,
        ratings: Seq<Result<Option<(Rating, RatingShow)>, RunError>>,
    ) -> bool {
        showtimes.len() == prepared.cinemas@.len() && ratings.len() == prepared.lookups@.len()
    }

    /// Joins what the tasks of a run brought into the record sets to write.
    ///
    /// There are records only if every task came back with a result. Else
    /// the run has failed, with the first failure among the showtimes or,
    /// where those are all there, the first among the ratings, and nothing is
    /// to be written. A rating that several shows were matched to is written
    /// once, as it was found first; every match has its own tie.
    pub fn run(
        &self,
        prepared: Prepared,
        showtimes: Vec<Result<Vec<Showtime>, RunError>>,
        ratings: Vec<Result<Option<(Rating, RatingShow)>, RunError>>,
    ) -> (records: Result<Records, RunError>)
        ensures
            records is Ok <==> Self::complete(prepared, showtimes@, ratings@) && all_ok(showtimes@)
                && all_ok(ratings@),
            !Self::complete(prepared, showtimes@, ratings@) ==> records == Err::<Records, RunError>(
                RunError::Incomplete,
            ),
            Self::complete(prepared, showtimes@, ratings@) && !all_ok(showtimes@) ==> exists|
                at: int,
            |
                #[trigger] is_first_failure(showtimes@, at) && Err::<Vec<Showtime>, RunError>(
                    records->Err_0,
                ) == showtimes@[at],
            Self::complete(prepared, showtimes@, ratings@) && all_ok(showtimes@) && !all_ok(
                ratings@,
            ) ==> exists|at: int|
                #[trigger] is_first_failure(ratings@, at) && Err::<
                    Option<(Rating, RatingShow)>,
                    RunError,
                >(records->Err_0) == ratings@[at],
            records matches Ok(sets) ==> {
                &&& sets.cities@ == collected(prepared.cities@)
                &&& sets.cinemas@ == collected(prepared.cinemas@)
                &&& sets.shows@ == prepared.shows@
                &&& sets.posters@ == prepared.posters@
                &&& sets.genres@ == prepared.genres@
                &&& sets.showtimes@ == collected(gathered(showtimes@))
                &&& sets.ratings@ == first_of_each(ratings_found(ratings@))
                &&& sets.rating_shows@ == collected(ties_found(ratings@))
            },
    {
        if showtimes.len() != prepared.cinemas.len() || ratings.len() != prepared.lookups.len() {
            return Err(RunError::Incomplete);
        }
        let screenings = match join_all(showtimes) {
            Ok(screenings) => screenings,
            Err(failure) => {
                return Err(failure);
            },
        };
        let ghost lookups = ratings@;
        let mut rating_set: RecordSet<Rating> = RecordSet::new();
        let mut tie_set: RecordSet<RatingShow> = RecordSet::new();
        for result in it: ratings
            invariant
                it.seq() == lookups,
                ratings@ == lookups,
                Self::complete(prepared, showtimes@, ratings@),
                all_ok(showtimes@),
                all_ok(lookups.take(it.index() as int)),
                rating_set@ == first_of_each(ratings_found(lookups.take(it.index() as int))),
                tie_set@ == collected(ties_found(lookups.take(it.index() as int))),
        {
            let ghost before = lookups.take(it.index() as int);
            let ghost upto = lookups.take(it.index() + 1);
            proof {
                assert(upto.drop_last() == before);
            }
            match result {
                Ok(found) => {
                    assert forall|i: int| 0 <= i < upto.len() implies (#[trigger] upto[i]) is Ok by {
                        if i < it.index() {
                            assert(before[i] is Ok);
                        }
                    }
                    if let Some((rating, tie)) = found {
                        proof {
                            assert(ratings_found(upto).drop_last() == ratings_found(before));
                            assert(ties_found(upto).drop_last() == ties_found(before));
                        }
                        rating_set.add_new(rating);
                        tie_set.add(tie);
                    }
                },
                Err(failure) => {
                    assert(is_first_failure(lookups, it.index() as int));
                    return Err(failure);
                },
            }
        }
        proof {
            assert(lookups.take(lookups.len() as int) == lookups);
        }
        Ok(
            Records {
                cities: RecordSet::from_vec(prepared.cities),
                cinemas: RecordSet::from_vec(prepared.cinemas),
                shows: prepared.shows,
                posters: prepared.posters,
                genres: prepared.genres,
                showtimes: RecordSet::from_vec(screenings),
                ratings: rating_set,
                rating_shows: tie_set,
            },
        )
    }
}

/// Writing each record where its key is not there yet leaves the keys
/// distinct and leaves out no key.
pub proof fn lemma_first_of_each<T: Record>(items: Seq<T>)
    ensures
        distinct_keys(first_of_each(items)),
        forall|i: int|
            0 <= i < items.len() ==> has_key(first_of_each(items), (#[trigger] items[i]).key()),
    decreases items.len(),
{
    if items.len() > 0 {
        let earlier = items.drop_last();
        let kept = first_of_each(earlier);
        let now = first_of_each(items);
        lemma_first_of_each(earlier);
        if !has_key(kept, items.last().key()) {
            // The last item goes behind those kept, none of which has its key.
            assert forall|i: int, j: int| 0 <= i < j < now.len() implies
                (#[trigger] now[i]).key() != (#[trigger] now[j]).key() by {
                assert(now[i] == kept[i]);
            }
            assert(now[kept.len() as int].key() == items.last().key());
        }
        assert forall|i: int| 0 <= i < items.len() implies has_key(
            now,
            (#[trigger] items[i]).key(),
        ) by {
            if i < earlier.len() {
                assert(earlier[i] == items[i]);
                let at = choose|at: int|
                    0 <= at < kept.len() && (#[trigger] kept[at]).key() == items[i].key();
                assert(now[at].key() == items[i].key());
            }
        }
    }
}

/// Records with distinct keys are all kept, in their order, when written one
/// after the other.
pub proof fn lemma_collected_distinct<T: Record>(items: Seq<T>)
    requires
        distinct_keys(items),
    ensures
        collected(items) == items,
    decreases items.len(),
{
    if items.len() > 0 {
        let earlier = items.drop_last();
        assert(distinct_keys(earlier)) by {
            assert forall|i: int, j: int| 0 <= i < j < earlier.len() implies
                (#[trigger] earlier[i]).key() != (#[trigger] earlier[j]).key() by {
                assert(items[i].key() != items[j].key());
            }
        }
        lemma_collected_distinct(earlier);
        // No earlier item has the key of the last, so that one goes behind them.
        if has_key(earlier, items.last().key()) {
            let at = choose|at: int|
                0 <= at < earlier.len() && (#[trigger] earlier[at]).key() == items.last().key();
            assert(items[at].key() != items[items.len() - 1].key());
        }
        assert(earlier.push(items.last()) =~= items);
    } else {
        assert(items =~= Seq::empty());
    }
}

/// However many shows are matched to one rating, that rating is written
/// exactly once: a record with its slug is in the set of ratings, and no two
/// records of the set share a slug.
pub proof fn lemma_rating_written_once<E>(
    results: Seq<Result<Option<(Rating, RatingShow)>, E>>,
    at: int,
)
    requires
        0 <= at < results.len(),
        results[at] matches Ok(Some(_)),
    ensures
        distinct_keys(first_of_each(ratings_found(results))),
        has_key(first_of_each(ratings_found(results)), results[at]->Ok_0->Some_0.0.slug@),
{
    lemma_first_of_each(ratings_found(results));
    lemma_found_is_listed(results, at);
}

/// What a lookup found is among the ratings found, and so is its tie among
/// the ties.
proof fn lemma_found_is_listed<E>(results: Seq<Result<Option<(Rating, RatingShow)>, E>>, at: int)
    requires
        0 <= at < results.len(),
        results[at] matches Ok(Some(_)),
    ensures
        exists|i: int|
            0 <= i < ratings_found(results).len() && #[trigger] ratings_found(results)[i]
                == results[at]->Ok_0->Some_0.0,
    decreases results.len(),
{
    let earlier = results.drop_last();
    if at == results.len() - 1 {
        let i = ratings_found(earlier).len() as int;
        assert(ratings_found(results)[i] == results[at]->Ok_0->Some_0.0);
    } else {
        lemma_found_is_listed(earlier, at);
        let i = choose|i: int|
            0 <= i < ratings_found(earlier).len() && #[trigger] ratings_found(earlier)[i]
                == earlier[at]->Ok_0->Some_0.0;
        assert(ratings_found(results)[i] == results[at]->Ok_0->Some_0.0);
    }
}

/// Where no two ties found are of the same show and rating, as when every
/// show has its own slug, every match has its tie written: the set of ties
/// is the list of the ties found.
pub proof fn lemma_tie_for_every_match<E>(results: Seq<Result<Option<(Rating, RatingShow)>, E>>)
    requires
        distinct_keys(ties_found(results)),
    ensures
        collected(ties_found(results)) == ties_found(results),
{
    lemma_collected_distinct(ties_found(results));
}

} // verus!
