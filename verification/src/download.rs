//! Files to fetch once.

use vstd::prelude::*;

verus! {

/// A file and the address that offers it.
#[derive(Debug, Clone, PartialEq, Eq)]
pub struct Download {
    pub path: String,
    pub url: String,
}

/// What a `Download` stands for.
pub struct DownloadView {
    pub path: Seq<char>,
    pub url: Seq<char>,
}

impl View for Download {
    type V = DownloadView;

    open spec fn view(&self) -> DownloadView {
        DownloadView { path: self.path@, url: self.url@ }
    }
}

/// What the downloads `v` stand for, in their order.
pub open spec fn download_views(v: Seq<Download>) -> Seq<DownloadView> {
    Seq::new(v.len(), |i: int| v[i]@)
}

/// The address to ask for the download, given whether its file is there:
/// none for a file that is there, which is left as it is.
pub fn download_if_needed(download: &Download, exists: bool) -> (r: Option<&str>)
    ensures
        match r {
            Some(url) => !exists && url@ == download.url@,
            None => exists,
        },
{
    if exists {
        None
    } else {
        Some(download.url.as_str())
    }
}

} // verus!
