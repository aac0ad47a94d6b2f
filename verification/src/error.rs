//! The unified error type of the pipeline: a tagged union of the five
//! failure categories, each carrying a descriptive payload.

use vstd::prelude::*;

verus! {

/// Every failure the pipeline can surface.
#[derive(Debug)]
pub enum Error {
    /// A required setting is missing or invalid; fatal at startup.
    Config(String),
    /// A file could not be read; aborts the ingestion run.
    Io(String),
    /// The embedding or generative provider failed (network, auth,
    /// or a response without a usable payload); aborts the batch or query.
    Provider(String),
    /// Persisted data is malformed (for example an embedding byte string
    /// whose length is not a whole number of elements); aborts the query.
    Corruption(String),
    /// Provider output or an input file could not be interpreted.
    Processing(String),
}

impl Error {
    /// The descriptive payload, whatever the category.
    pub fn message(&self) -> (r: &String)
        ensures
            r@ == self.spec_message(),
    {
        match self {
            Error::Config(m) => m,
            Error::Io(m) => m,
            Error::Provider(m) => m,
            Error::Corruption(m) => m,
            Error::Processing(m) => m,
        }
    }

    /// The payload of any variant.
    pub open spec fn spec_message(self) -> Seq<char> {
        match self {
            Error::Config(m) => m@,
            Error::Io(m) => m@,
            Error::Provider(m) => m@,
            Error::Corruption(m) => m@,
            Error::Processing(m) => m@,
        }
    }
}

} // verus!
