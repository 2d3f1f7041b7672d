//! The parts of a site's configuration.
use vstd::prelude::*;
use std::path::PathBuf;

verus! {

/// A site's title, plain and stylized.
#[derive(Debug)]
pub struct Title {
    pub normal: String,
    pub stylized: String,
}

/// The directories a site is built from and into.
#[derive(Debug, PartialEq)]
pub struct Directories {
    pub content: PathBuf,
    pub output: PathBuf,
    pub template: PathBuf,
}

/// The templates for index pages and for single items.
#[derive(Debug, PartialEq)]
pub struct IndexTemplates {
    pub index: PathBuf,
    pub item: PathBuf,
}

/// The templates of a taxonomy.
#[derive(Debug, PartialEq)]
pub struct Templates {
    pub item: PathBuf,
    pub list: Option<PathBuf>,
    pub feed_item: Option<PathBuf>,
    pub feed_list: Option<PathBuf>,
}

/// How taxonomy values are read.
#[derive(Debug, PartialEq)]
pub struct Rules {
    pub commas_as_lists: bool,
}

/// Content other than items: copied over, or left out.
#[derive(Debug, PartialEq)]
pub struct OtherContent {
    pub copy_paths: Vec<PathBuf>,
    pub exclude: Vec<PathBuf>,
}

} // verus!
