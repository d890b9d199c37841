//! The errors that reach the caller of a query.

use musicbrainz_rs::Error as CatalogError;
use vstd::prelude::*;

verus! {

/// The error of a failed listing, a type of the standard library; it is carried
/// through as it is.
#[verifier::external_type_specification]
#[verifier::external_body]
pub struct ExIoError(std::io::Error);

/// The error of a failed request to the catalogue, a type of `musicbrainz_rs`; it
/// is carried through as it is.
#[verifier::external_type_specification]
#[verifier::external_body]
pub struct ExCatalogError(CatalogError);

/// Why a query ended without its result.
#[derive(Debug)]
pub enum Error {
    /// Nobody listens on the other end of a channel any more.
    ChannelClosed,
    /// A folder could not be listed.
    Io(std::io::Error),
    /// The remote call failed: the network, the service or its answer.
    Musicbrainz(CatalogError),
}

impl Error {
    /// The error as a line of text for the log: `channel closed`, or what the
    /// outside error prints of itself.
    pub fn message(&self) -> (text: String)
        ensures
            match self {
                Error::ChannelClosed => text@ == "channel closed"@,
                Error::Io(e) => vstd::string::to_string_from_display_ensures::<std::io::Error>(
                    e,
                    text,
                ),
                Error::Musicbrainz(e) => vstd::string::to_string_from_display_ensures::<
                    CatalogError,
                >(e, text),
            },
    {
        match self {
            Error::ChannelClosed => "channel closed".to_owned(),
            Error::Io(e) => e.to_string(),
            Error::Musicbrainz(e) => e.to_string(),
        }
    }
}

impl From<std::io::Error> for Error {
    fn from(value: std::io::Error) -> (error: Error) {
        Error::Io(value)
    }
}

impl vstd::std_specs::convert::FromSpecImpl<std::io::Error> for Error {
    open spec fn obeys_from_spec() -> bool {
        true
    }

    open spec fn from_spec(value: std::io::Error) -> Error {
        Error::Io(value)
    }
}

impl From<CatalogError> for Error {
    fn from(value: CatalogError) -> (error: Error) {
        Error::Musicbrainz(value)
    }
}

impl vstd::std_specs::convert::FromSpecImpl<CatalogError> for Error {
    open spec fn obeys_from_spec() -> bool {
        true
    }

    open spec fn from_spec(value: CatalogError) -> Error {
        Error::Musicbrainz(value)
    }
}

} // verus!
