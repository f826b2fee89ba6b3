//! The registry of extractors: which extractor takes which address.

use vstd::prelude::*;
use url::Url;
use crate::text::owned;
use crate::weburl::{parse, parsed_url};

verus! {

/// Why an extraction gave no description.
#[derive(Debug, Clone, Copy, PartialEq, Eq, Structural)]
pub enum ExtractError {
    /// The text is no address.
    InvalidUrl,
    /// No registered extractor takes the address.
    NoExtractorFound,
    /// The address names no video.
    MissingIdentifier,
    /// The page or the script could not be fetched, or came back empty.
    FetchError,
    /// What came back is no page.
    UnexpectedContentType,
    /// The page holds no player response.
    NoPlayerResponse,
    /// The page names no player script.
    NoPlayerScript,
    /// The player response lists no stream that can be fetched.
    NoFormatsFound,
}

impl ExtractError {
    /// The error in words.
    pub open spec fn text(self) -> Seq<char> {
        match self {
            ExtractError::InvalidUrl => "the text is not a valid address"@,
            ExtractError::NoExtractorFound => "no suitable extractor found for the address"@,
            ExtractError::MissingIdentifier => "could not find a video identifier in the address"@,
            ExtractError::FetchError => "the page could not be fetched"@,
            ExtractError::UnexpectedContentType => "the response does not look like a page"@,
            ExtractError::NoPlayerResponse => "the page holds no player response"@,
            ExtractError::NoPlayerScript => "could not find the player script"@,
            ExtractError::NoFormatsFound => "no video formats found"@,
        }
    }

    /// The error in words.
    pub fn message(&self) -> (r: String)
        ensures
            r@ == self.text(),
    {
        match self {
            ExtractError::InvalidUrl => owned("the text is not a valid address"),
            ExtractError::NoExtractorFound => owned("no suitable extractor found for the address"),
            ExtractError::MissingIdentifier => owned(
                "could not find a video identifier in the address",
            ),
            ExtractError::FetchError => owned("the page could not be fetched"),
            ExtractError::UnexpectedContentType => owned("the response does not look like a page"),
            ExtractError::NoPlayerResponse => owned("the page holds no player response"),
            ExtractError::NoPlayerScript => owned("could not find the player script"),
            ExtractError::NoFormatsFound => owned("no video formats found"),
        }
    }
}

/// What an extractor must tell the registry. The fetching itself is not part
/// of it: the registry only finds the extractor, and the caller drives it.
pub trait Extractor {
    /// The addresses that this extractor takes. An implementation that is not
    /// verified gives this the body of `suitable`.
    spec fn accepts(&self, url: &Url) -> bool;

    /// The name of the platform.
    fn name(&self) -> &'static str;

    /// Whether this extractor takes the address.
    fn suitable(&self, url: &Url) -> (b: bool)
        ensures
            b == self.accepts(url),
    ;
}

/// The extractors, in the order in which they were registered.
pub struct ExtractorEngine<E: Extractor + ?Sized> {
    pub extractors: Vec<Box<E>>,
}

impl<E: Extractor + ?Sized> ExtractorEngine<E> {
    /// Whether the extractor at position `i` takes `address`.
    pub open spec fn takes(&self, i: int, address: &Url) -> bool {
        0 <= i < self.extractors@.len() && self.extractors@[i].accepts(address)
    }

    /// A registry without extractors.
    pub fn new() -> (r: Self)
        ensures
            r.extractors@.len() == 0,
    {
        Self { extractors: Vec::new() }
    }

    /// Adds `extractor` behind those already registered.
    pub fn register_extractor(&mut self, extractor: Box<E>)
        ensures
            final(self).extractors@ == old(self).extractors@.push(extractor),
    {
        self.extractors.push(extractor);
    }

    /// Reads `url` as an address and finds the extractor for it: the first
    /// registered one that takes the address.
    pub fn dispatch(&self, url: &str) -> (r: Result<(usize, Url), ExtractError>)
        ensures
            match r {
                Ok((index, address)) => {
                    &&& parsed_url(url@) == Some(address)
                    &&& self.takes(index as int, &address)
                    &&& forall|k: int| 0 <= k < index ==> !self.takes(k, &address)
                },
                Err(e) => match parsed_url(url@) {
                    None => e == ExtractError::InvalidUrl,
                    Some(address) => e == ExtractError::NoExtractorFound && forall|k: int|
                        !self.takes(k, &address),
                },
            },
    {
        let address = match parse(url) {
            Ok(address) => address,
            Err(_) => {
                return Err(ExtractError::InvalidUrl);
            },
        };
        let mut i: usize = 0;
        while i < self.extractors.len()
            invariant
                i <= self.extractors.len(),
                parsed_url(url@) == Some(address),
                forall|k: int| 0 <= k < i ==> !self.takes(k, &address),
            decreases self.extractors.len() - i,
        {
            if self.extractors[i].suitable(&address) {
                return Ok((i, address));
            }
            i += 1;
        }
        Err(ExtractError::NoExtractorFound)
    }
}

} // verus!
