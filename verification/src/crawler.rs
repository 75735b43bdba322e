//! The crawl of one site, and what a run of several sites adds up to.

use crate::configuration::Settings;
use vstd::prelude::*;

verus! {

/// What can go wrong with the crawl of one site.
#[derive(Debug)]
pub enum CrawlerError {
    /// Something other than a directory stands at the output path.
    OutPathNoDir(String),
    UnexpectedError(String),
}

/// A `CrawlerError` with the characters of its text.
pub enum CrawlerErrorView {
    OutPathNoDir(Seq<char>),
    UnexpectedError(Seq<char>),
}

impl View for CrawlerError {
    type V = CrawlerErrorView;

    open spec fn view(&self) -> CrawlerErrorView {
        match self {
            CrawlerError::OutPathNoDir(s) => CrawlerErrorView::OutPathNoDir(s@),
            CrawlerError::UnexpectedError(s) => CrawlerErrorView::UnexpectedError(s@),
        }
    }
}

impl CrawlerError {
    /// The error in words.
    pub fn message(&self) -> (r: String)
        ensures
            r@ == match self@ {
                CrawlerErrorView::OutPathNoDir(path) => "Provided out_path is not a directory: "@
                    + path,
                CrawlerErrorView::UnexpectedError(_) => "Something went wrong."@,
            },
    {
        match self {
            CrawlerError::OutPathNoDir(path) => {
                let mut out = String::from_str("Provided out_path is not a directory: ");
                out.append(path.as_str());
                out
            },
            CrawlerError::UnexpectedError(_) => String::from_str("Something went wrong."),
        }
    }
}

/// What stands at the output path.
#[derive(Clone, Copy, Debug, PartialEq, Eq, Structural)]
pub enum OutPath {
    Missing,
    Directory,
    NotADirectory,
}

/// What to do about the output directory before the crawl.
#[derive(Clone, Copy, Debug, PartialEq, Eq, Structural)]
pub enum Preparation {
    CreateDirectory,
    UseDirectory,
}

/// The crawl of one site into one output directory.
#[derive(Debug)]
pub struct Crawler<T> {
    pub spider: T,
    /// The output directory.
    pub path: String,
    /// How many subroutes of the site may be scraped at a time.
    pub buffer_size: usize,
}

/// A result of `prepare` with the characters of its error.
pub open spec fn preparation_view(r: Result<Preparation, CrawlerError>) -> Result<
    Preparation,
    CrawlerErrorView,
> {
    match r {
        Ok(p) => Ok(p),
        Err(e) => Err(e@),
    }
}

/// Checks the output path once, before any site is crawled: a run cannot
/// start where something other than a directory stands there.
pub fn check_out_path(path: &str, found: OutPath) -> (r: Result<(), CrawlerError>)
    ensures
        match r {
            Ok(_) => found != OutPath::NotADirectory,
            Err(e) => found == OutPath::NotADirectory && e@ == CrawlerErrorView::OutPathNoDir(
                path@,
            ),
        },
{
    match found {
        OutPath::NotADirectory => Err(CrawlerError::OutPathNoDir(String::from_str(path))),
        _ => Ok(()),
    }
}

/// The name of the file that the records of a site go to on a day.
pub open spec fn output_name(spider_name: Seq<char>, date: Seq<char>) -> Seq<char> {
    spider_name + "_"@ + date + ".csv"@
}

impl<T> Crawler<T> {
    /// A crawler for `spider` that writes below the configured output
    /// path and scrapes as many subroutes at a time as the settings allow.
    pub fn new(spider: T, configuration: &Settings) -> (r: Crawler<T>)
        ensures
            r.spider == spider,
            r.path@ == configuration.out_path@,
            r.buffer_size == configuration.spiders_buffer_size,
    {
        Crawler {
            spider,
            path: configuration.out_path.clone(),
            buffer_size: configuration.spiders_buffer_size,
        }
    }

    /// Decides what to do about the output path before anything is
    /// scraped: a missing directory is to be created, a directory is used,
    /// and anything else ends the crawl with `OutPathNoDir`.
    pub fn prepare(&self, found: OutPath) -> (r: Result<Preparation, CrawlerError>)
        ensures
            preparation_view(r) == match found {
                OutPath::Missing => Ok::<Preparation, CrawlerErrorView>(
                    Preparation::CreateDirectory,
                ),
                OutPath::Directory => Ok(Preparation::UseDirectory),
                OutPath::NotADirectory => Err(CrawlerErrorView::OutPathNoDir(self.path@)),
            },
    {
        match found {
            OutPath::Missing => Ok(Preparation::CreateDirectory),
            OutPath::Directory => Ok(Preparation::UseDirectory),
            OutPath::NotADirectory => Err(CrawlerError::OutPathNoDir(self.path.clone())),
        }
    }

    /// The name of the file that the records of a site go to on a day.
    pub fn output_file_name(spider_name: &str, date: &str) -> (r: String)
        ensures
            r@ == output_name(spider_name@, date@),
    {
        let mut out = String::from_str(spider_name);
        out.append("_");
        out.append(date);
        out.append(".csv");
        out
    }

    /// What the crawl of one site counts for: the number of its records,
    /// or nothing where it failed.
    pub fn finish(outcome: &Result<usize, CrawlerError>) -> (n: usize)
        ensures
            n == contribution(*outcome),
    {
        match outcome {
            Ok(n) => *n,
            Err(_) => 0,
        }
    }
}

/// What one site adds to the total: its records, or nothing where its
/// crawl failed.
pub open spec fn contribution(outcome: Result<usize, CrawlerError>) -> nat {
    match outcome {
        Ok(n) => n as nat,
        Err(_) => 0,
    }
}

/// What the first `k` sites add up to.
pub open spec fn counted(outcomes: Seq<Result<usize, CrawlerError>>, k: int) -> nat
    decreases k,
{
    if k <= 0 {
        0
    } else {
        counted(outcomes, k - 1) + contribution(outcomes[k - 1])
    }
}

proof fn lemma_counted_grows(outcomes: Seq<Result<usize, CrawlerError>>, j: int, k: int)
    requires
        0 <= j <= k,
    ensures
        counted(outcomes, j) <= counted(outcomes, k),
    decreases k,
{
    if j < k {
        lemma_counted_grows(outcomes, j, k - 1);
    }
}

/// The number of records of a whole run: the sum over the sites, a failed
/// site counting for nothing. `None` where the sum is too large to hold.
pub fn total_records(outcomes: &Vec<Result<usize, CrawlerError>>) -> (r: Option<usize>)
    ensures
        r == if counted(outcomes@, outcomes@.len() as int) <= usize::MAX {
            Some(counted(outcomes@, outcomes@.len() as int) as usize)
        } else {
            None
        },
{
    let mut total: usize = 0;
    let mut k: usize = 0;
    while k < outcomes.len()
        invariant
            k <= outcomes@.len(),
            total == counted(outcomes@, k as int),
        decreases outcomes@.len() - k,
    {
        let n: usize = match &outcomes[k] {
            Ok(n) => *n,
            Err(_) => 0,
        };
        if n > usize::MAX - total {
            proof {
                lemma_counted_grows(outcomes@, k + 1, outcomes@.len() as int);
            }
            return None;
        }
        total = total + n;
        k += 1;
    }
    Some(total)
}

proof fn lemma_counted_prefix(
    a: Seq<Result<usize, CrawlerError>>,
    b: Seq<Result<usize, CrawlerError>>,
    k: int,
)
    requires
        0 <= k <= a.len(),
        k <= b.len(),
        forall|j: int| 0 <= j < k ==> a[j] == b[j],
    ensures
        counted(a, k) == counted(b, k),
    decreases k,
{
    if k > 0 {
        lemma_counted_prefix(a, b, k - 1);
    }
}

/// A failed site changes nothing: the total with it is the total
/// without it.
pub proof fn lemma_failed_spider_adds_nothing(
    outcomes: Seq<Result<usize, CrawlerError>>,
    failed: int,
)
    requires
        0 <= failed < outcomes.len(),
        outcomes[failed] is Err,
    ensures
        counted(outcomes, outcomes.len() as int) == counted(
            outcomes.remove(failed),
            outcomes.len() - 1,
        ),
    decreases outcomes.len(),
{
    let n = outcomes.len() as int;
    let rest = outcomes.remove(failed);
    if failed == n - 1 {
        lemma_counted_prefix(outcomes, rest, n - 1);
    } else {
        let front = outcomes.drop_last();
        lemma_failed_spider_adds_nothing(front, failed);
        assert(front.remove(failed) == rest.drop_last());
        lemma_counted_prefix(outcomes, front, n - 1);
        lemma_counted_prefix(rest, rest.drop_last(), n - 2);
        assert(rest[n - 2] == outcomes[n - 1]);
    }
}

} // verus!
