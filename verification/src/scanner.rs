//! The content scanner's classification core: turning a discovered file
//! path into a typed page, and a discovered directory into a collection.
//! Walking the file system is the calling layer's concern; these functions
//! decide what each discovered path becomes.
use vstd::prelude::*;
use vstd::string::StringExecFns;
use crate::site::{classify_file_name, page_type_of, Collection, Page};
use crate::text::{
    chars_to_string, exec_tail_after_last, lemma_tail_after_last_len, rel_path_of, tail_after_last,
};

verus! {

/// Why a discovered path could not be classified.
#[derive(Debug)]
pub enum ScanError {
    /// Reading the source tree failed; carries the reported reason.
    IoError(String),
    /// The path carries no usable file or directory name, or does not lie
    /// under the source directory.
    InvalidPath(String),
}

/// Classifies the paths a source-tree walk discovers, relative to one
/// source directory.
pub struct SiteScanner {
    pub source_dir: String,
}

impl SiteScanner {
    /// A scanner rooted at the given source directory.
    pub fn new(path: String) -> (r: SiteScanner)
        ensures
            r.source_dir == path,
    {
        SiteScanner { source_dir: path }
    }

    /// Classifies one discovered markdown file into a page: its role from
    /// its file name, its path relative to the source directory. A path
    /// without a file name yields no page; one not under the source
    /// directory is an error.
    pub fn scan_page(&self, path: String, title: String) -> (r: Result<Option<Page>, ScanError>)
        ensures
            (match r {
                Ok(Some(p)) => {
                    &&& tail_after_last(path@, '/').len() > 0
                    &&& self.source_dir@.len() <= path@.len()
                    &&& path@.take(self.source_dir@.len() as int) == self.source_dir@
                    &&& p.title == title
                    &&& p.path@ == rel_path_of(path@, self.source_dir@.len() as int)
                    &&& p.page_type == page_type_of(tail_after_last(path@, '/'))
                },
                Ok(None) => tail_after_last(path@, '/').len() == 0,
                Err(e) => {
                    &&& e is InvalidPath
                    &&& tail_after_last(path@, '/').len() > 0
                    &&& !(self.source_dir@.len() <= path@.len() && path@.take(
                        self.source_dir@.len() as int,
                    ) == self.source_dir@)
                },
            }),
    {
        let file_name_chars = exec_tail_after_last(path.as_str(), '/');
        if file_name_chars.len() == 0 {
            return Ok(None);
        }
        let file_name = chars_to_string(&file_name_chars);
        let page_type = classify_file_name(file_name.as_str());
        let plen = self.source_dir.as_str().unicode_len();
        let full = path.as_str().unicode_len();
        if plen > full {
            return Err(ScanError::InvalidPath(path));
        }
        let prefix = path.as_str().substring_char(0, plen);
        if !crate::text::str_eq(prefix, self.source_dir.as_str()) {
            return Err(ScanError::InvalidPath(path));
        }
        let start = if plen < full && path.as_str().get_char(plen) == '/' {
            plen + 1
        } else {
            plen
        };
        let relative = path.as_str().substring_char(start, full);
        proof {
            assert(path@.subrange(start as int, path@.len() as int) =~= rel_path_of(
                path@,
                self.source_dir@.len() as int,
            ));
        }
        let relative = relative.to_owned();
        Ok(Some(Page { title, path: relative, page_type }))
    }

    /// Classifies one discovered subdirectory into a collection named after
    /// its directory name, holding the pages scanned under it. A path
    /// without a directory name is an error.
    pub fn scan_collection(&self, path: String, pages: Vec<Page>) -> (r: Result<
        Collection,
        ScanError,
    >)
        ensures
            (match r {
                Ok(c) => {
                    &&& tail_after_last(path@, '/').len() > 0
                    &&& c.name@ == tail_after_last(path@, '/')
                    &&& c.pages == pages
                },
                Err(e) => e is InvalidPath && tail_after_last(path@, '/').len() == 0,
            }),
    {
        let name_chars = exec_tail_after_last(path.as_str(), '/');
        if name_chars.len() == 0 {
            return Err(ScanError::InvalidPath(path));
        }
        let name = chars_to_string(&name_chars);
        Ok(Collection { name, pages })
    }
}

/// The extension of a path: what follows the last dot of its file name,
/// provided that dot is not the file name's first character. A file name
/// without such a dot — no dot at all, or only the leading dot of a
/// dotfile — has no extension, and the fallback "Unknown" stands for it.
pub open spec fn extension_of(path: Seq<char>) -> Seq<char> {
    let fname = tail_after_last(path, '/');
    let ext = tail_after_last(fname, '.');
    if ext.len() + 1 < fname.len() {
        ext
    } else {
        "Unknown"@
    }
}

/// The extension of a path's file name, "Unknown" when it has none.
pub fn get_extension(path: &String) -> (r: String)
    ensures
        r@ == extension_of(path@),
{
    let fname_chars = exec_tail_after_last(path.as_str(), '/');
    let fname = chars_to_string(&fname_chars);
    let ext = exec_tail_after_last(fname.as_str(), '.');
    proof {
        lemma_tail_after_last_len(path@, '/');
        lemma_tail_after_last_len(fname@, '.');
    }
    if fname_chars.len() > 0 && ext.len() < fname_chars.len() - 1 {
        chars_to_string(&ext)
    } else {
        String::from_str("Unknown")
    }
}

} // verus!
