//! Fetching a file from the network to a path is done by the application;
//! this names the component.
use vstd::prelude::*;

verus! {

/// Downloads files (the application performs the transfer).
pub struct Downloader;

} // verus!
