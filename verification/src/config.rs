use crate::text::texts_view;
use vstd::prelude::*;

verus! {

/// Inputs of one run. Loaded once and never changed afterwards.
#[derive(Debug)]
pub struct Config {
    /// Directory of the browser's identity store, relative to the base path.
    pub profile_dir: String,
    /// Browser executable, relative to the base path.
    pub chromium_path: String,
    /// Root directory under which results are written.
    pub result_dir: String,
    /// Largest number of result pages visited for one query.
    pub max_pages: u32,
    /// Number of consecutive missing next-page controls after which the
    /// operator is asked to acknowledge before the run goes on.
    pub max_consecutive_no_next: u32,
    /// Queries, in the order in which they are run.
    pub search_queries: Vec<String>,
}

/// What a [`Config`] holds.
pub struct ConfigView {
    pub profile_dir: Seq<char>,
    pub chromium_path: Seq<char>,
    pub result_dir: Seq<char>,
    pub max_pages: u32,
    pub max_consecutive_no_next: u32,
    pub search_queries: Seq<Seq<char>>,
}

impl View for Config {
    type V = ConfigView;

    open spec fn view(&self) -> ConfigView {
        ConfigView {
            profile_dir: self.profile_dir@,
            chromium_path: self.chromium_path@,
            result_dir: self.result_dir@,
            max_pages: self.max_pages,
            max_consecutive_no_next: self.max_consecutive_no_next,
            search_queries: texts_view(self.search_queries@),
        }
    }
}

/// What a configuration file gave: each setting as it was written, or
/// nothing where the file did not hold it.
#[derive(Debug)]
pub struct ConfigFile {
    pub profile_dir: Option<String>,
    pub chromium_path: Option<String>,
    pub result_dir: Option<String>,
    pub max_pages: Option<u32>,
    pub max_consecutive_no_next: Option<u32>,
    pub search_queries: Option<Vec<String>>,
}

/// The settings that hold where nothing else was given.
pub open spec fn default_view() -> ConfigView {
    ConfigView {
        profile_dir: "chromium/profile"@,
        chromium_path: "chromium/chrome.exe"@,
        result_dir: "result"@,
        max_pages: 10,
        max_consecutive_no_next: 2,
        search_queries: seq!["1"@, "2"@, "3"@],
    }
}

/// A text as given, or `fallback` where none was given.
pub open spec fn text_or(given: Option<String>, fallback: Seq<char>) -> Seq<char> {
    match given {
        Some(text) => text@,
        None => fallback,
    }
}

/// A number as given, or `fallback` where none was given.
pub open spec fn number_or(given: Option<u32>, fallback: u32) -> u32 {
    match given {
        Some(number) => number,
        None => fallback,
    }
}

/// The settings of a file, each with its default where the file lacks it.
pub open spec fn resolved(file: ConfigFile) -> ConfigView {
    ConfigView {
        profile_dir: text_or(file.profile_dir, default_view().profile_dir),
        chromium_path: text_or(file.chromium_path, default_view().chromium_path),
        result_dir: text_or(file.result_dir, default_view().result_dir),
        max_pages: number_or(file.max_pages, default_view().max_pages),
        max_consecutive_no_next: number_or(
            file.max_consecutive_no_next,
            default_view().max_consecutive_no_next,
        ),
        search_queries: match file.search_queries {
            Some(queries) => texts_view(queries@),
            None => default_view().search_queries,
        },
    }
}

pub fn default_profile_dir() -> (dir: String)
    ensures
        dir@ == default_view().profile_dir,
{
    String::from_str("chromium/profile")
}

pub fn default_chromium_path() -> (path: String)
    ensures
        path@ == default_view().chromium_path,
{
    String::from_str("chromium/chrome.exe")
}

pub fn default_result_dir() -> (dir: String)
    ensures
        dir@ == default_view().result_dir,
{
    String::from_str("result")
}

pub fn default_max_pages() -> (pages: u32)
    ensures
        pages == default_view().max_pages,
{
    10
}

pub fn default_max_consecutive_no_next() -> (misses: u32)
    ensures
        misses == default_view().max_consecutive_no_next,
{
    2
}

pub fn default_search_queries() -> (queries: Vec<String>)
    ensures
        texts_view(queries@) == default_view().search_queries,
{
    let mut queries: Vec<String> = Vec::new();
    queries.push(String::from_str("1"));
    queries.push(String::from_str("2"));
    queries.push(String::from_str("3"));
    assert(texts_view(queries@) =~= default_view().search_queries);
    queries
}

impl Default for Config {
    fn default() -> (config: Config)
        ensures
            config@ == default_view(),
    {
        Config {
            profile_dir: default_profile_dir(),
            chromium_path: default_chromium_path(),
            result_dir: default_result_dir(),
            max_pages: default_max_pages(),
            max_consecutive_no_next: default_max_consecutive_no_next(),
            search_queries: default_search_queries(),
        }
    }
}

impl Config {
    /// The settings of a file, each with its default where the file lacks it.
    pub fn from_file(file: ConfigFile) -> (config: Config)
        ensures
            config@ == resolved(file),
    {
        Config {
            profile_dir: match file.profile_dir {
                Some(dir) => dir,
                None => default_profile_dir(),
            },
            chromium_path: match file.chromium_path {
                Some(path) => path,
                None => default_chromium_path(),
            },
            result_dir: match file.result_dir {
                Some(dir) => dir,
                None => default_result_dir(),
            },
            max_pages: match file.max_pages {
                Some(pages) => pages,
                None => default_max_pages(),
            },
            max_consecutive_no_next: match file.max_consecutive_no_next {
                Some(misses) => misses,
                None => default_max_consecutive_no_next(),
            },
            search_queries: match file.search_queries {
                Some(queries) => queries,
                None => default_search_queries(),
            },
        }
    }
}

/// The configuration of a run: that of the file where one was found and
/// understood, the defaults where none was.
pub fn load_config(file: Option<ConfigFile>) -> (config: Config)
    ensures
        config@ == match file {
            Some(found) => resolved(found),
            None => default_view(),
        },
{
    match file {
        Some(found) => Config::from_file(found),
        None => Config::default(),
    }
}

} // verus!
