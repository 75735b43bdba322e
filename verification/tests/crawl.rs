use peru_prices::configuration::{
    Environment, InfiniteScrollingSettings, InfiniteScrollingSpiderSettings,
    MultipageSpiderSettings, Settings,
};
use peru_prices::crawler::{
    check_out_path, total_records, Crawler, CrawlerError, OutPath, Preparation,
};
use peru_prices::pool::{BoundedPool, PoolStep};
use peru_prices::{error_chain_fmt, format_date, get_peru_date};

fn settings() -> Settings {
    let site = |name: &str| InfiniteScrollingSpiderSettings {
        name: name.to_string(),
        base_url: "u".to_string(),
        subroutes: vec![],
        selector: "a".to_string(),
    };
    Settings {
        out_path: "data/out".to_string(),
        headless: false,
        delay_milis: 1,
        spiders_buffer_size: 8,
        crawlers_buffer_size: 3,
        infinite_scrolling: InfiniteScrollingSettings { scroll_delay_milis: 1, scroll_checks: 1 },
        metro: site("metro"),
        wong: site("wong"),
        plaza_vea: MultipageSpiderSettings {
            name: "p".to_string(),
            base_url: "u".to_string(),
            subroutes: vec![],
            selector: "a".to_string(),
        },
    }
}

#[test]
fn failing_spider_counts_for_nothing() {
    let outcomes = vec![
        Ok(12),
        Err(CrawlerError::UnexpectedError("no session".to_string())),
        Ok(0),
        Ok(30),
        Err(CrawlerError::OutPathNoDir("x".to_string())),
    ];
    assert_eq!(total_records(&outcomes), Some(42));
    assert_eq!(total_records(&vec![]), Some(0));
    assert_eq!(total_records(&vec![Err(CrawlerError::UnexpectedError(String::new()))]), Some(0));
}

#[test]
fn total_too_large_to_hold() {
    assert_eq!(total_records(&vec![Ok(usize::MAX), Ok(0)]), Some(usize::MAX));
    assert_eq!(total_records(&vec![Ok(usize::MAX), Ok(1), Ok(2)]), None);
}

#[test]
fn crawler_takes_path_and_bound_from_settings() {
    let crawler = Crawler::new("spider", &settings());
    assert_eq!(crawler.spider, "spider");
    assert_eq!(crawler.path, "data/out");
    assert_eq!(crawler.buffer_size, 8);
}

#[test]
fn output_path_decides_the_preparation() {
    let crawler = Crawler::new((), &settings());
    assert_eq!(crawler.prepare(OutPath::Missing).unwrap(), Preparation::CreateDirectory);
    assert_eq!(crawler.prepare(OutPath::Directory).unwrap(), Preparation::UseDirectory);
    match crawler.prepare(OutPath::NotADirectory) {
        Err(CrawlerError::OutPathNoDir(path)) => assert_eq!(path, "data/out"),
        other => panic!("unexpected {:?}", other),
    }
}

#[test]
fn crawl_outcome_and_file_name() {
    assert_eq!(Crawler::<()>::finish(&Ok(7)), 7);
    assert_eq!(Crawler::<()>::finish(&Err(CrawlerError::UnexpectedError("x".to_string()))), 0);
    assert_eq!(Crawler::<()>::output_file_name("metro", "20240307"), "metro_20240307.csv");
}

#[test]
fn crawler_errors_in_words() {
    assert_eq!(
        CrawlerError::OutPathNoDir("/tmp/f".to_string()).message(),
        "Provided out_path is not a directory: /tmp/f"
    );
    assert_eq!(
        CrawlerError::UnexpectedError("x".to_string()).message(),
        "Something went wrong."
    );
}

#[test]
fn pool_never_runs_more_than_its_limit() {
    let total = 7;
    let limit = 3;
    let mut pool = BoundedPool::new(total, limit);
    let mut launched = Vec::new();
    let mut most = 0;
    let mut rounds = 0;
    loop {
        match pool.next() {
            PoolStep::Launch(i) => launched.push(i),
            PoolStep::Wait => {
                assert_eq!(pool.running(), limit.min(pool.remaining()));
                assert!(pool.complete());
            }
            PoolStep::Done => break,
        }
        most = most.max(pool.running());
        assert!(pool.running() <= limit);
        rounds += 1;
        assert!(rounds < 100);
    }
    assert_eq!(launched, vec![0, 1, 2, 3, 4, 5, 6]);
    assert_eq!(most, 3);
    assert_eq!(pool.running(), 0);
    assert_eq!(pool.remaining(), 0);
    assert!(!pool.complete());
}

#[test]
fn pool_edges() {
    let mut empty = BoundedPool::new(0, 4);
    assert_eq!(empty.next(), PoolStep::Done);
    assert!(!empty.complete());
    let mut stalled = BoundedPool::new(2, 0);
    assert_eq!(stalled.next(), PoolStep::Wait);
    assert_eq!(stalled.running(), 0);
    assert_eq!(stalled.remaining(), 2);
    let mut wide = BoundedPool::new(2, 10);
    assert_eq!(wide.next(), PoolStep::Launch(0));
    assert_eq!(wide.next(), PoolStep::Launch(1));
    assert_eq!(wide.next(), PoolStep::Wait);
    assert!(wide.complete());
    assert!(wide.complete());
    assert_eq!(wide.next(), PoolStep::Done);
}

#[test]
fn environment_names() {
    assert_eq!(Environment::Local.as_str(), "local");
    assert_eq!(Environment::Production.as_str(), "production");
    assert_eq!(Environment::try_from("local".to_string()), Ok(Environment::Local));
    assert_eq!(Environment::try_from("PRODUCTION".to_string()), Ok(Environment::Production));
    assert_eq!(Environment::try_from("Local".to_string()), Ok(Environment::Local));
    assert_eq!(
        Environment::try_from("Staging".to_string()),
        Err("staging is not a supported environment. Use either `local` or `production`."
            .to_string())
    );
    assert_eq!(Environment::from_lowercase("local"), Ok(Environment::Local));
    assert!(Environment::from_lowercase("LOCAL").is_err());
}

#[test]
fn error_with_its_causes() {
    assert_eq!(error_chain_fmt("Something went wrong.", &vec![]), "Something went wrong.\n\n");
    assert_eq!(
        error_chain_fmt(
            "Something went wrong.",
            &vec!["Failed to go to url".to_string(), "connection refused".to_string()]
        ),
        "Something went wrong.\n\nCaused by:\n\tFailed to go to url\nCaused by:\n\tconnection refused\n"
    );
}

#[test]
fn dates_without_separators() {
    assert_eq!(format_date(2024, 3, 7), "20240307");
    assert_eq!(format_date(1999, 12, 31), "19991231");
    assert_eq!(format_date(987, 1, 1), "09870101");
    assert_eq!(format_date(0, 10, 10), "00001010");
    assert_eq!(format_date(12345, 6, 5), "+123450605");
    assert_eq!(format_date(-44, 3, 15), "-00440315");
}

#[test]
fn peru_date_is_a_date() {
    let date = get_peru_date();
    assert_eq!(date.len(), 8);
    assert!(date.chars().all(|c| c.is_ascii_digit()));
    let month: u32 = date[4..6].parse().unwrap();
    let day: u32 = date[6..8].parse().unwrap();
    assert!((1..=12).contains(&month));
    assert!((1..=31).contains(&day));
    assert!(date.as_str() >= "20240101");
}

#[test]
fn run_cannot_start_without_a_directory() {
    assert!(check_out_path("out", OutPath::Missing).is_ok());
    assert!(check_out_path("out", OutPath::Directory).is_ok());
    match check_out_path("out", OutPath::NotADirectory) {
        Err(CrawlerError::OutPathNoDir(path)) => assert_eq!(path, "out"),
        other => panic!("unexpected {:?}", other),
    }
}
