use vstd::prelude::*;

verus! {

/// The output formats a scrape can be asked for, held as the library's
/// own plain tags; the scraping client itself lives outside this crate.
#[derive(Debug, Clone, Copy, PartialEq, Eq, Structural)]
pub enum ScrapeFormat {
    Markdown,
    Html,
    RawHtml,
    Links,
    Screenshot,
}

/// Collects the settings of a scraping retriever. The client the
/// settings configure lives with the scraping service's own crate,
/// outside this one; only the settings are kept here.
#[derive(Debug, Clone)]
pub struct FirecrawlRetrieverBuilder {
    pub api_key: Option<String>,
    pub formats: Option<Vec<ScrapeFormat>>,
}

impl Default for FirecrawlRetrieverBuilder {
    fn default() -> (r: FirecrawlRetrieverBuilder)
        ensures
            r.api_key is None,
            r.formats is None,
    {
        FirecrawlRetrieverBuilder { api_key: None, formats: None }
    }
}

impl FirecrawlRetrieverBuilder {
    /// Choose the api key.
    pub fn with_api_key(self, api_key: String) -> (r: FirecrawlRetrieverBuilder)
        ensures
            r.api_key matches Some(k) && k@ == api_key@,
            r.formats == self.formats,
    {
        FirecrawlRetrieverBuilder { api_key: Some(api_key), ..self }
    }

    /// Choose the output formats to request.
    pub fn with_formats(self, formats: Vec<ScrapeFormat>) -> (r: FirecrawlRetrieverBuilder)
        ensures
            r.formats matches Some(f) && f@ == formats@,
            r.api_key == self.api_key,
    {
        FirecrawlRetrieverBuilder { formats: Some(formats), ..self }
    }
}

} // verus!
