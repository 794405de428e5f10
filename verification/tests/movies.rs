use schraper::job::matching::Score;
use schraper::job::movies::{
    cinema_shows_url, fetch_show_rating, fetch_showtimes, fetch_showtimes_cinema, join_all, showtimes_url,
    table_order, Cinema, City, FlatShow, Genre, Image, MovieFetcher, Poster, Prepared, RTHit, RTRating, RTResponse,
    RTResult, Rating, RatingShow, RecordSet, ReleaseDate, RunError, Show, Showtime, Table, CINEMAS_URL, CITIES_URL,
    PATHE_DATE_FORMAT, SHOWS_URL,
};
use schraper::job::util::{GetError, JsonDecodeError};

fn show(slug: &str, title: &str, dates: &[&str], genres: &[&str]) -> Show {
    Show {
        slug: slug.to_string(),
        title: title.to_string(),
        release_at: dates.iter().map(|d| d.to_string()).collect(),
        poster_path: Some(Image { lg: format!("{slug}-lg.jpg"), md: format!("{slug}-md.jpg") }),
        movie_type: "movie".to_string(),
        duration: 120,
        genres: genres.iter().map(|g| g.to_string()).collect(),
    }
}

fn showtime(time: &str, hall: &str) -> Showtime {
    Showtime {
        show_slug: None,
        cinema_slug: None,
        time: time.to_string(),
        reservation_url: format!("https://example.org/{time}"),
        auditorium_name: hall.to_string(),
        auditorium_capacity: "100".to_string(),
        end_time: "23:00".to_string(),
    }
}

fn hit(title: &str, vanity: &str, year: Option<i32>) -> RTHit {
    RTHit {
        title: title.to_string(),
        vanity: vanity.to_string(),
        description: Some(format!("about {title}")),
        release_year: year,
        rotten_tomatoes: Some(RTRating {
            audience_score: Some(90),
            score_sentiment: Some("POSITIVE".to_string()),
            want_to_see_count: Some(1234),
            critics_score: Some(83),
            certified_fresh: Some(true),
            new_adjusted_TM_score: Some(84),
        }),
    }
}

fn rating(slug: &str, title: &str) -> Rating {
    Rating {
        slug: slug.to_string(),
        title: title.to_string(),
        description: None,
        release_year: None,
        audience_score: None,
        score_sentiment: None,
        want_to_see_count: None,
        critics_score: None,
        certified_fresh: None,
        new_adjusted_tm_score: None,
    }
}

fn tie(show_slug: &str, rating_slug: &str) -> RatingShow {
    RatingShow {
        show_slug: show_slug.to_string(),
        rating_slug: rating_slug.to_string(),
        match_score: Score { year_gap: 0, distance: 0, length: 4 },
    }
}

fn network_error() -> GetError {
    GetError::MaxRetriesReached(reqwest::Client::new().get("not a url").build().unwrap_err())
}

fn decode_error() -> serde_json::Error {
    serde_json::from_str::<i32>("{").unwrap_err()
}

fn cinema(slug: &str) -> Cinema {
    Cinema { slug: slug.to_string(), city_slug: "city".to_string(), name: slug.to_uppercase() }
}

fn city(slug: &str, name: &str) -> City {
    City { slug: slug.to_string(), name: name.to_string() }
}

fn prepared(cinemas: Vec<Cinema>, shows: Vec<Show>) -> Prepared {
    MovieFetcher::new().prepare(Ok(cinemas), Ok(vec![city("city", "City")]), Ok(shows)).unwrap()
}

#[test]
fn show_is_split_into_its_records() {
    let (flat, poster, genres) = show("dune", "Dune", &["2021-09-15", "2024-01-01"], &["scifi", "drama"]).flatten();
    assert_eq!(flat.slug, "dune");
    assert_eq!(flat.title, "Dune");
    assert_eq!(flat.release_at, Some(ReleaseDate { year: 2021, month: 9, day: 15 }));
    assert_eq!(flat.movie_type, "movie");
    assert_eq!(flat.duration, 120);
    assert_eq!(poster.show_slug, "dune");
    assert_eq!(poster.lg.as_deref(), Some("dune-lg.jpg"));
    assert_eq!(poster.md.as_deref(), Some("dune-md.jpg"));
    assert_eq!(genres.len(), 2);
    assert_eq!((genres[0].show_slug.as_str(), genres[0].genre.as_str()), ("dune", "scifi"));
    assert_eq!((genres[1].show_slug.as_str(), genres[1].genre.as_str()), ("dune", "drama"));
}

#[test]
fn show_without_dates_poster_or_genres_has_none() {
    let mut bare = show("bare", "Bare", &[], &[]);
    bare.poster_path = None;
    let (flat, poster, genres) = bare.flatten();
    assert_eq!(flat.release_at, None);
    assert_eq!(poster.show_slug, "bare");
    assert_eq!(poster.lg, None);
    assert_eq!(poster.md, None);
    assert!(genres.is_empty());
}

#[test]
fn release_date_that_is_no_date_is_reported() {
    assert!(show("a", "A", &["soon"], &[]).try_flatten().is_none());
    assert!(show("a", "A", &["2021-02-30"], &[]).try_flatten().is_none());
    assert!(show("a", "A", &["15-09-2021"], &[]).try_flatten().is_none());
    assert!(show("a", "A", &[""], &[]).try_flatten().is_none());
}

#[test]
fn only_the_first_release_date_counts() {
    let (flat, _, _) = show("a", "A", &["1999-12-31", "soon"], &[]).try_flatten().unwrap();
    assert_eq!(flat.release_at, Some(ReleaseDate { year: 1999, month: 12, day: 31 }));
    assert!(show("a", "A", &["soon", "1999-12-31"], &[]).try_flatten().is_none());
    assert_eq!(PATHE_DATE_FORMAT, "%Y-%m-%d");
}

#[test]
fn answer_without_result_sets_fails_the_lookup() {
    let response = RTResponse { results: vec![] };
    let outcome = fetch_show_rating(response, "dune".to_string(), "Dune".to_string(), Some(2021));
    assert!(matches!(outcome, Err(RunError::NoResults)));
}

#[test]
fn result_set_without_hits_finds_nothing() {
    let response = RTResponse { results: vec![RTResult { hits: vec![] }, RTResult { hits: vec![hit("Dune", "dune", None)] }] };
    let outcome = fetch_show_rating(response, "dune".to_string(), "Dune".to_string(), Some(2021));
    assert!(matches!(outcome, Ok(None)));
}

#[test]
fn best_hit_of_the_first_result_set_becomes_the_rating() {
    let response = RTResponse {
        results: vec![
            RTResult { hits: vec![hit("Dune: Part Two", "dune_part_two", Some(2024)), hit("Dune", "dune_2021", Some(2021))] },
            RTResult { hits: vec![hit("Dune", "other_set", Some(2021))] },
        ],
    };
    let (rating, tie) = fetch_show_rating(response, "dune-show".to_string(), "Dune".to_string(), Some(2021)).unwrap().unwrap();
    assert_eq!(rating.slug, "dune_2021");
    assert_eq!(rating.title, "Dune");
    assert_eq!(rating.description.as_deref(), Some("about Dune"));
    assert_eq!(rating.release_year, Some(2021));
    assert_eq!(rating.audience_score, Some(90));
    assert_eq!(rating.score_sentiment.as_deref(), Some("POSITIVE"));
    assert_eq!(rating.want_to_see_count, Some(1234));
    assert_eq!(rating.critics_score, Some(83));
    assert_eq!(rating.certified_fresh, Some(true));
    assert_eq!(rating.new_adjusted_tm_score, Some(84));
    assert_eq!(tie.show_slug, "dune-show");
    assert_eq!(tie.rating_slug, "dune_2021");
    assert_eq!((tie.match_score.year_gap, tie.match_score.distance, tie.match_score.length), (0, 0, 4));
}

#[test]
fn hit_without_rating_payload_gives_a_rating_without_scores() {
    let mut bare = hit("Dune", "dune", None);
    bare.rotten_tomatoes = None;
    bare.description = None;
    let response = RTResponse { results: vec![RTResult { hits: vec![bare] }] };
    let (rating, tie) = fetch_show_rating(response, "s".to_string(), "Dune 2".to_string(), None).unwrap().unwrap();
    assert_eq!(rating.slug, "dune");
    assert_eq!(rating.description, None);
    assert_eq!(rating.audience_score, None);
    assert_eq!(rating.score_sentiment, None);
    assert_eq!(rating.want_to_see_count, None);
    assert_eq!(rating.critics_score, None);
    assert_eq!(rating.certified_fresh, None);
    assert_eq!(rating.new_adjusted_tm_score, None);
    assert_eq!((tie.match_score.year_gap, tie.match_score.distance, tie.match_score.length), (0, 2, 6));
}

#[test]
fn screenings_are_marked_with_show_and_cinema() {
    let days = vec![vec![showtime("10:00", "1"), showtime("12:00", "2")], vec![], vec![showtime("20:00", "1")]];
    let all = fetch_showtimes(Ok(days), "dune".to_string(), "city-centre".to_string()).unwrap();
    assert_eq!(all.len(), 3);
    assert_eq!(all.iter().map(|s| s.time.as_str()).collect::<Vec<_>>(), vec!["10:00", "12:00", "20:00"]);
    for screening in &all {
        assert_eq!(screening.show_slug.as_deref(), Some("dune"));
        assert_eq!(screening.cinema_slug.as_deref(), Some("city-centre"));
        assert_eq!(screening.auditorium_capacity, "100");
        assert_eq!(screening.end_time, "23:00");
    }
    assert_eq!(all[1].auditorium_name, "2");
    assert_eq!(all[2].reservation_url, "https://example.org/20:00");
}

#[test]
fn show_that_is_not_on_at_a_cinema_has_no_screenings() {
    let fetched = Err(JsonDecodeError::DecodeError(decode_error()));
    let all = fetch_showtimes(fetched, "dune".to_string(), "city-centre".to_string()).unwrap();
    assert!(all.is_empty());
}

#[test]
fn fetch_that_gave_up_is_an_error() {
    let fetched = Err(JsonDecodeError::NetworkError(network_error()));
    let outcome = fetch_showtimes(fetched, "dune".to_string(), "city-centre".to_string());
    assert!(matches!(outcome, Err(RunError::Fetch(JsonDecodeError::NetworkError(GetError::MaxRetriesReached(_))))));
}

#[test]
fn results_are_joined_in_the_order_of_the_tasks() {
    let joined: Result<Vec<i32>, String> = join_all(vec![Ok(vec![1, 2]), Ok(vec![]), Ok(vec![3])]);
    assert_eq!(joined, Ok(vec![1, 2, 3]));
    let joined: Result<Vec<i32>, String> = join_all(vec![]);
    assert_eq!(joined, Ok(vec![]));
}

#[test]
fn first_failure_ends_the_join() {
    let joined: Result<Vec<i32>, String> =
        join_all(vec![Ok(vec![1]), Err("second".to_string()), Ok(vec![2]), Err("fourth".to_string())]);
    assert_eq!(joined, Err("second".to_string()));
}

#[test]
fn screenings_of_a_cinema_are_all_or_nothing() {
    let all = fetch_showtimes_cinema(vec![Ok(vec![showtime("10:00", "1")]), Ok(vec![showtime("11:00", "1")])]).unwrap();
    assert_eq!(all.iter().map(|s| s.time.as_str()).collect::<Vec<_>>(), vec!["10:00", "11:00"]);
    let failed = fetch_showtimes_cinema(vec![Ok(vec![showtime("10:00", "1")]), Err(RunError::NoResults)]);
    assert!(matches!(failed, Err(RunError::NoResults)));
}

#[test]
fn fetcher_limits_and_retries_both_clients_alike() {
    let fetcher = MovieFetcher::new();
    assert_eq!(fetcher.client.limit, Some(10));
    assert_eq!(fetcher.client.max_retries, 3);
    assert_eq!(fetcher.rt_client.limit, Some(10));
    assert_eq!(fetcher.rt_client.max_retries, 3);
}

#[test]
fn failed_top_level_fetch_fails_the_run() {
    let fetcher = MovieFetcher::new();
    let failed = fetcher.prepare(Err(JsonDecodeError::DecodeError(decode_error())), Ok(vec![]), Ok(vec![]));
    assert!(matches!(failed, Err(RunError::Fetch(JsonDecodeError::DecodeError(_)))));
    let failed = fetcher.prepare(Ok(vec![]), Err(JsonDecodeError::NetworkError(network_error())), Ok(vec![]));
    assert!(matches!(failed, Err(RunError::Fetch(JsonDecodeError::NetworkError(_)))));
    let failed = fetcher.prepare(Ok(vec![]), Ok(vec![]), Err(JsonDecodeError::NetworkError(network_error())));
    assert!(matches!(failed, Err(RunError::Fetch(JsonDecodeError::NetworkError(_)))));
    let failed = fetcher.prepare(
        Err(JsonDecodeError::DecodeError(decode_error())),
        Err(JsonDecodeError::NetworkError(network_error())),
        Ok(vec![]),
    );
    assert!(matches!(failed, Err(RunError::Fetch(JsonDecodeError::DecodeError(_)))));
}

#[test]
fn unreadable_release_date_fails_the_run_with_the_first_such_show() {
    let shows = vec![show("a", "A", &["2020-01-01"], &[]), show("b", "B", &["?"], &[]), show("c", "C", &["!"], &[])];
    let failed = MovieFetcher::new().prepare(Ok(vec![]), Ok(vec![]), Ok(shows));
    match failed {
        Err(RunError::ReleaseDate(slug)) => assert_eq!(slug, "b"),
        _ => panic!("the run was prepared"),
    }
}

#[test]
fn every_show_gets_its_records_and_a_lookup() {
    let shows = vec![show("dune", "Dune", &["2021-09-15"], &["scifi", "drama"]), show("heat", "Heat", &[], &["drama"])];
    let ready = prepared(vec![cinema("one"), cinema("two")], shows);
    assert_eq!(ready.cinemas.len(), 2);
    assert_eq!(ready.cities.len(), 1);
    assert_eq!(ready.lookups.len(), 2);
    assert_eq!(ready.lookups[0].show_slug, "dune");
    assert_eq!(ready.lookups[0].title, "Dune");
    assert_eq!(ready.lookups[0].year, Some(2021));
    assert_eq!(ready.lookups[1].show_slug, "heat");
    assert_eq!(ready.lookups[1].year, None);
    let shows: Vec<FlatShow> = ready.shows.build();
    assert_eq!(shows.iter().map(|s| s.slug.as_str()).collect::<Vec<_>>(), vec!["dune", "heat"]);
    let posters: Vec<Poster> = ready.posters.build();
    assert_eq!(posters.iter().map(|p| p.show_slug.as_str()).collect::<Vec<_>>(), vec!["dune", "heat"]);
    let genres: Vec<Genre> = ready.genres.build();
    assert_eq!(
        genres.iter().map(|g| (g.show_slug.as_str(), g.genre.as_str())).collect::<Vec<_>>(),
        vec![("dune", "scifi"), ("dune", "drama"), ("heat", "drama")]
    );
}

#[test]
fn rating_shared_by_two_shows_is_written_once_with_a_tie_for_each() {
    let shows = vec![show("dune", "Dune", &[], &[]), show("dune-imax", "Dune", &[], &[]), show("heat", "Heat", &[], &[])];
    let ready = prepared(vec![], shows);
    let ratings = vec![
        Ok(Some((rating("dune_2021", "first found"), tie("dune", "dune_2021")))),
        Ok(Some((rating("dune_2021", "found again"), tie("dune-imax", "dune_2021")))),
        Ok(Some((rating("heat_1995", "Heat"), tie("heat", "heat_1995")))),
    ];
    let records = MovieFetcher::new().run(ready, vec![], ratings).unwrap();
    let ratings = records.ratings.build();
    assert_eq!(ratings.iter().map(|r| r.slug.as_str()).collect::<Vec<_>>(), vec!["dune_2021", "heat_1995"]);
    assert_eq!(ratings[0].title, "first found");
    let ties = records.rating_shows.build();
    assert_eq!(
        ties.iter().map(|t| (t.show_slug.as_str(), t.rating_slug.as_str())).collect::<Vec<_>>(),
        vec![("dune", "dune_2021"), ("dune-imax", "dune_2021"), ("heat", "heat_1995")]
    );
}

#[test]
fn show_without_a_match_has_no_tie() {
    let ready = prepared(vec![], vec![show("dune", "Dune", &[], &[]), show("heat", "Heat", &[], &[])]);
    let ratings = vec![Ok(None), Ok(Some((rating("heat_1995", "Heat"), tie("heat", "heat_1995"))))];
    let records = MovieFetcher::new().run(ready, vec![], ratings).unwrap();
    assert_eq!(records.ratings.len(), 1);
    assert_eq!(records.rating_shows.len(), 1);
    assert_eq!(records.shows.len(), 2);
    assert_eq!(records.posters.len(), 2);
}

#[test]
fn run_joins_everything_into_record_sets() {
    let shows = vec![show("dune", "Dune", &["2021-09-15"], &["scifi"])];
    let fetcher = MovieFetcher::new();
    let ready = fetcher
        .prepare(
            Ok(vec![cinema("one"), cinema("two")]),
            Ok(vec![city("ams", "Amsterdam"), city("rtm", "Rotterdam"), city("ams", "Amsterdam again")]),
            Ok(shows),
        )
        .unwrap();
    let showtimes = vec![Ok(vec![showtime("10:00", "1"), showtime("12:00", "1")]), Ok(vec![showtime("10:00", "1")])];
    let ratings = vec![Ok(Some((rating("dune_2021", "Dune"), tie("dune", "dune_2021"))))];
    let records = fetcher.run(ready, showtimes, ratings).unwrap();
    let cities = records.cities.build();
    assert_eq!(cities.iter().map(|c| (c.slug.as_str(), c.name.as_str())).collect::<Vec<_>>(), vec![("ams", "Amsterdam again"), ("rtm", "Rotterdam")]);
    assert_eq!(records.cinemas.len(), 2);
    assert_eq!(records.shows.len(), 1);
    assert_eq!(records.posters.len(), 1);
    assert_eq!(records.genres.len(), 1);
    // The two screenings at 10:00 in hall 1 carry no cinema here, so they share a key.
    let screenings = records.showtimes.build();
    assert_eq!(screenings.iter().map(|s| s.time.as_str()).collect::<Vec<_>>(), vec!["10:00", "12:00"]);
    assert_eq!(records.ratings.len(), 1);
    assert_eq!(records.rating_shows.len(), 1);
}

fn lost_task() -> tokio::task::JoinError {
    let runtime = tokio::runtime::Builder::new_current_thread().build().unwrap();
    runtime.block_on(async {
        let task = tokio::spawn(async {});
        task.abort();
        task.await.unwrap_err()
    })
}

#[test]
fn lost_task_fails_the_run() {
    let fetcher = MovieFetcher::new();
    let ready = prepared(vec![cinema("one")], vec![show("dune", "Dune", &[], &[])]);
    let failed = fetcher.run(ready, vec![Ok(vec![])], vec![Err(RunError::Join(lost_task()))]);
    assert!(matches!(failed, Err(RunError::Join(_))));
    let failed = fetch_showtimes_cinema(vec![Err(RunError::Join(lost_task())), Err(RunError::NoResults)]);
    assert!(matches!(failed, Err(RunError::Join(_))));
}

#[test]
fn sink_is_never_called_for_a_failed_run() {
    let fetcher = MovieFetcher::new();
    let written = std::cell::Cell::new(0);
    let sink = |records: Result<schraper::job::movies::Records, RunError>| {
        if let Ok(records) = records {
            written.set(written.get() + 1 + records.shows.len());
        }
    };
    let ready = || prepared(vec![cinema("one"), cinema("two")], vec![show("dune", "Dune", &[], &[])]);
    sink(fetcher.run(ready(), vec![Ok(vec![]), Err(RunError::NoResults)], vec![Ok(None)]));
    sink(fetcher.run(ready(), vec![Ok(vec![]), Ok(vec![])], vec![Err(RunError::NoResults)]));
    sink(fetcher.run(ready(), vec![Ok(vec![])], vec![Ok(None)]));
    sink(fetcher
        .prepare(Ok(vec![]), Ok(vec![]), Err(JsonDecodeError::NetworkError(network_error())))
        .and_then(|ready| fetcher.run(ready, vec![], vec![])));
    assert_eq!(written.get(), 0);
    sink(fetcher.run(ready(), vec![Ok(vec![]), Ok(vec![])], vec![Ok(None)]));
    assert_eq!(written.get(), 2);
}

#[test]
fn any_failed_fetch_leaves_nothing_to_write() {
    let fetcher = MovieFetcher::new();
    let ready = || prepared(vec![cinema("one"), cinema("two")], vec![show("dune", "Dune", &[], &[])]);
    let found = || Ok(Some((rating("dune_2021", "Dune"), tie("dune", "dune_2021"))));

    let failed = fetcher.run(ready(), vec![Ok(vec![showtime("10:00", "1")]), Err(RunError::Fetch(JsonDecodeError::NetworkError(network_error())))], vec![found()]);
    assert!(matches!(failed, Err(RunError::Fetch(JsonDecodeError::NetworkError(_)))));

    let failed = fetcher.run(ready(), vec![Ok(vec![]), Ok(vec![])], vec![Err(RunError::NoResults)]);
    assert!(matches!(failed, Err(RunError::NoResults)));

    let failed = fetcher.run(ready(), vec![Err(RunError::Fetch(JsonDecodeError::DecodeError(decode_error()))), Ok(vec![])], vec![Err(RunError::NoResults)]);
    assert!(matches!(failed, Err(RunError::Fetch(JsonDecodeError::DecodeError(_)))));

    assert!(fetcher.run(ready(), vec![Ok(vec![]), Ok(vec![])], vec![found()]).is_ok());
}

#[test]
fn results_that_are_not_one_for_each_task_fail_the_run() {
    let fetcher = MovieFetcher::new();
    let ready = || prepared(vec![cinema("one")], vec![show("dune", "Dune", &[], &[])]);
    assert!(matches!(fetcher.run(ready(), vec![], vec![Ok(None)]), Err(RunError::Incomplete)));
    assert!(matches!(fetcher.run(ready(), vec![Ok(vec![])], vec![]), Err(RunError::Incomplete)));
    assert!(matches!(fetcher.run(ready(), vec![Ok(vec![]), Ok(vec![])], vec![Ok(None)]), Err(RunError::Incomplete)));
    assert!(matches!(fetcher.run(ready(), vec![Err(RunError::NoResults)], vec![]), Err(RunError::Incomplete)));
    assert!(fetcher.run(ready(), vec![Ok(vec![])], vec![Ok(None)]).is_ok());
}

#[test]
fn record_written_twice_keeps_its_place_and_the_later_value() {
    let mut set: RecordSet<City> = RecordSet::new();
    assert_eq!(set.len(), 0);
    set.add(city("ams", "Amsterdam"));
    set.add(city("rtm", "Rotterdam"));
    set.add(city("ams", "A'dam"));
    assert!(set.holds(&city("rtm", "")));
    assert!(!set.holds(&city("utr", "")));
    let cities = set.build();
    assert_eq!(cities.iter().map(|c| (c.slug.as_str(), c.name.as_str())).collect::<Vec<_>>(), vec![("ams", "A'dam"), ("rtm", "Rotterdam")]);
}

#[test]
fn record_added_as_new_does_not_replace() {
    let mut set: RecordSet<Rating> = RecordSet::new();
    set.add_new(rating("a", "first"));
    set.add_new(rating("b", "other"));
    set.add_new(rating("a", "second"));
    let ratings = set.build();
    assert_eq!(ratings.iter().map(|r| (r.slug.as_str(), r.title.as_str())).collect::<Vec<_>>(), vec![("a", "first"), ("b", "other")]);
}

#[test]
fn keys_of_several_fields_differ_if_any_field_does() {
    let set = RecordSet::from_vec(vec![
        Genre { show_slug: "a".to_string(), genre: "drama".to_string() },
        Genre { show_slug: "a".to_string(), genre: "scifi".to_string() },
        Genre { show_slug: "b".to_string(), genre: "drama".to_string() },
        Genre { show_slug: "a".to_string(), genre: "drama".to_string() },
    ]);
    assert_eq!(set.len(), 3);
    let mut stamped = showtime("10:00", "1");
    stamped.show_slug = Some("dune".to_string());
    let mut elsewhere = showtime("10:00", "1");
    elsewhere.show_slug = Some("dune".to_string());
    elsewhere.cinema_slug = Some("one".to_string());
    let set = RecordSet::from_vec(vec![showtime("10:00", "1"), stamped, elsewhere, showtime("10:00", "2"), showtime("11:00", "1"), showtime("10:00", "1")]);
    assert_eq!(set.len(), 5);
    let set = RecordSet::from_vec(vec![tie("a", "x"), tie("a", "y"), tie("b", "x"), tie("a", "x")]);
    assert_eq!(set.len(), 3);
    let set = RecordSet::from_vec(vec![cinema("one"), cinema("two"), cinema("one")]);
    assert_eq!(set.len(), 2);
}

#[test]
fn tables_are_written_parents_first() {
    assert_eq!(
        table_order(),
        vec![
            Table::Cities,
            Table::Cinemas,
            Table::Shows,
            Table::Posters,
            Table::Genres,
            Table::Showtimes,
            Table::Ratings,
            Table::RatingShows
        ]
    );
}

#[test]
fn urls_name_the_cinema_and_the_show() {
    assert_eq!(cinema_shows_url("pathe-arena"), "https://www.pathe.nl/api/cinema/pathe-arena/shows?language=nl");
    assert_eq!(showtimes_url("dune", "pathe-arena"), "https://www.pathe.nl/api/show/dune/showtimes/pathe-arena?language=nl");
    assert_eq!(CINEMAS_URL, "https://www.pathe.nl/api/cinemas?language=nl");
    assert_eq!(CITIES_URL, "https://www.pathe.nl/api/cities?language=nl");
    assert_eq!(SHOWS_URL, "https://www.pathe.nl/api/shows?language=nl");
}
