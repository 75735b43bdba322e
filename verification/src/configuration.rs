//! The settings of a crawl, as plain values.

use crate::text::same_text;
use vstd::prelude::*;

verus! {

/// Everything a crawl is configured with.
#[derive(Clone, Debug)]
pub struct Settings {
    /// The directory that the records are written to.
    pub out_path: String,
    pub headless: bool,
    /// The delay between two subroutes of one site, in milliseconds.
    pub delay_milis: u64,
    /// How many subroutes of one site may be scraped at a time.
    pub spiders_buffer_size: usize,
    /// How many sites may be crawled at a time.
    pub crawlers_buffer_size: usize,
    pub infinite_scrolling: InfiniteScrollingSettings,
    pub metro: InfiniteScrollingSpiderSettings,
    pub wong: InfiniteScrollingSpiderSettings,
    pub plaza_vea: MultipageSpiderSettings,
}

/// What all scrolling sites share.
#[derive(Clone, Debug)]
pub struct InfiniteScrollingSettings {
    /// How long to let the page settle after a scroll, in milliseconds.
    pub scroll_delay_milis: u64,
    /// How many readings in a row have to find the height unchanged.
    pub scroll_checks: usize,
}

/// One scrolling site.
#[derive(Clone, Debug)]
pub struct InfiniteScrollingSpiderSettings {
    pub name: String,
    pub base_url: String,
    pub subroutes: Vec<String>,
    pub selector: String,
}

/// One site of plain pages.
#[derive(Clone, Debug)]
pub struct MultipageSpiderSettings {
    pub name: String,
    pub base_url: String,
    pub subroutes: Vec<String>,
    pub selector: String,
}

/// The possible runtime environment for our application.
#[derive(Clone, Copy, Debug, PartialEq, Eq, Structural)]
pub enum Environment {
    Local,
    Production,
}

/// What `str::to_lowercase` makes of a text.
pub uninterp spec fn lowercase_of(s: Seq<char>) -> Seq<char>;

/// Lowers the case of `s` with `str::to_lowercase`. Trusted: the result is
/// the one that the name `lowercase_of` stands for.
#[verifier::external_body]
fn to_lowercase(s: &str) -> (r: String)
    ensures
        r@ == lowercase_of(s@),
{
    s.to_lowercase()
}

/// The environment that a name in lower case stands for, or the complaint
/// about a name that stands for none.
pub open spec fn environment_named(name: Seq<char>) -> Result<Environment, Seq<char>> {
    if name == "local"@ {
        Ok(Environment::Local)
    } else if name == "production"@ {
        Ok(Environment::Production)
    } else {
        Err(name + " is not a supported environment. Use either `local` or `production`."@)
    }
}

/// A result with the characters of its complaint.
pub open spec fn environment_result_view(r: Result<Environment, String>) -> Result<
    Environment,
    Seq<char>,
> {
    match r {
        Ok(e) => Ok(e),
        Err(s) => Err(s@),
    }
}

impl Environment {
    /// The name of the environment, which is also the name of its settings.
    pub fn as_str(&self) -> (r: &'static str)
        ensures
            r@ == match *self {
                Environment::Local => "local"@,
                Environment::Production => "production"@,
            },
    {
        match self {
            Environment::Local => "local",
            Environment::Production => "production",
        }
    }

    /// The environment that a name in lower case stands for.
    pub fn from_lowercase(name: &str) -> (r: Result<Environment, String>)
        ensures
            environment_result_view(r) == environment_named(name@),
    {
        if same_text(name, "local") {
            Ok(Environment::Local)
        } else if same_text(name, "production") {
            Ok(Environment::Production)
        } else {
            let mut complaint = String::from_str(name);
            complaint.append(" is not a supported environment. Use either `local` or `production`.");
            Err(complaint)
        }
    }

    /// The environment that a name stands for, whatever its case.
    pub fn try_from(value: String) -> (r: Result<Environment, String>)
        ensures
            environment_result_view(r) == environment_named(lowercase_of(value@)),
    {
        let lowered = to_lowercase(value.as_str());
        Environment::from_lowercase(lowered.as_str())
    }
}

/// Each environment is the one that its own name stands for.
pub proof fn lemma_environment_name_round_trip(e: Environment)
    ensures
        environment_named(
            match e {
                Environment::Local => "local"@,
                Environment::Production => "production"@,
            },
        ) == Ok::<Environment, Seq<char>>(e),
{
    reveal_strlit("local");
    reveal_strlit("production");
    assert("local"@.len() != "production"@.len());
}

} // verus!
