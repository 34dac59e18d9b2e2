//! The static file resolver, without its file system.
//!
//! A resolution checks the request path against the policy, then asks for
//! two things in turn: the canonical form of the path under the sandbox
//! root, and the content of the file found there. The caller does both and
//! reports what came of them; the resolver decides what follows. Whatever
//! fails, the answer is "not found".

use crate::security::{
    extension_allowed, has_invalid_characters, path_verdict, SecurityConfigView,
    SecurityValidator,
};
use crate::text::{
    chars_of, last_piece, last_piece_start, leading_repeats, same_text, string_of,
    without_leading,
};
use vstd::prelude::*;

verus! {

/// The content type of what has no entry in the table.
pub const OCTET_STREAM: &'static str = "application/octet-stream";

/// The texts of a list of strings.
pub open spec fn names(list: Seq<String>) -> Seq<Seq<char>> {
    Seq::new(list.len(), |i: int| list[i]@)
}

/// The content type that goes with a file path: the table is read by what
/// follows the last dot, letter for letter, and by the whole path where it
/// holds no dot.
pub open spec fn content_type_of(file_path: Seq<char>) -> Seq<char> {
    let extension = last_piece(file_path, '.');
    if extension == "html"@ {
        "text/html; charset=utf-8"@
    } else if extension == "css"@ {
        "text/css; charset=utf-8"@
    } else if extension == "js"@ {
        "application/javascript; charset=utf-8"@
    } else if extension == "json"@ {
        "application/json; charset=utf-8"@
    } else if extension == "xml"@ {
        "application/xml; charset=utf-8"@
    } else if extension == "txt"@ {
        "text/plain; charset=utf-8"@
    } else if extension == "png"@ {
        "image/png"@
    } else if extension == "jpg"@ || extension == "jpeg"@ {
        "image/jpeg"@
    } else if extension == "gif"@ {
        "image/gif"@
    } else if extension == "svg"@ {
        "image/svg+xml"@
    } else if extension == "ico"@ {
        "image/x-icon"@
    } else if extension == "webp"@ {
        "image/webp"@
    } else if extension == "pdf"@ {
        "application/pdf"@
    } else {
        OCTET_STREAM@
    }
}

/// A path that passed the policy and waits for its canonical form.
pub struct PendingPath {
    relative: String,
    content_type: String,
    root: Vec<String>,
}

pub ghost struct PendingPathView {
    /// The path to look up, relative to the sandbox root.
    pub relative: Seq<char>,
    /// The content type that the file will be served with.
    pub content_type: Seq<char>,
    /// The components of the canonical sandbox root.
    pub root: Seq<Seq<char>>,
}

impl View for PendingPath {
    type V = PendingPathView;

    closed spec fn view(&self) -> PendingPathView {
        PendingPathView {
            relative: self.relative@,
            content_type: self.content_type@,
            root: names(self.root@),
        }
    }
}

/// A canonical path inside the sandbox that waits for its content.
pub struct PendingFile {
    canonical: Vec<String>,
    content_type: String,
}

pub ghost struct PendingFileView {
    /// The components of the canonical path to read.
    pub canonical: Seq<Seq<char>>,
    pub content_type: Seq<char>,
}

impl View for PendingFile {
    type V = PendingFileView;

    closed spec fn view(&self) -> PendingFileView {
        PendingFileView { canonical: names(self.canonical@), content_type: self.content_type@ }
    }
}

/// A file that was resolved and read.
pub struct ResolvedFile {
    pub content: String,
    pub content_type: String,
}

pub ghost struct ResolvedFileView {
    pub content: Seq<char>,
    pub content_type: Seq<char>,
}

impl View for ResolvedFile {
    type V = ResolvedFileView;

    open spec fn view(&self) -> ResolvedFileView {
        ResolvedFileView { content: self.content@, content_type: self.content_type@ }
    }
}

/// Where a resolution stands.
pub enum Resolution {
    /// The path names nothing that may be served.
    NotFound,
    /// The caller is to join the relative path onto the sandbox root and
    /// canonicalize the result.
    Canonicalize(PendingPath),
    /// The caller is to read the regular file at the canonical path.
    Read(PendingFile),
    /// The file and its content type.
    Found(ResolvedFile),
}

pub ghost enum ResolutionView {
    NotFound,
    Canonicalize(PendingPathView),
    Read(PendingFileView),
    Found(ResolvedFileView),
}

impl View for Resolution {
    type V = ResolutionView;

    open spec fn view(&self) -> ResolutionView {
        match self {
            Resolution::NotFound => ResolutionView::NotFound,
            Resolution::Canonicalize(p) => ResolutionView::Canonicalize(p@),
            Resolution::Read(f) => ResolutionView::Read(f@),
            Resolution::Found(r) => ResolutionView::Found(r@),
        }
    }
}

/// The path passes both checks on its text: the path policy and the
/// extension allow-list.
pub open spec fn resolvable(config: SecurityConfigView, file_path: Seq<char>) -> bool {
    path_verdict(config.max_path_length, file_path) is Ok && extension_allowed(
        config.allowed_file_extensions,
        file_path,
    )
}

/// The first step of a resolution. A path that fails a check on its text is
/// not found, before the file system is asked anything; any other is
/// looked up without its leading slashes.
pub open spec fn begin_resolution(
    config: SecurityConfigView,
    root: Seq<Seq<char>>,
    file_path: Seq<char>,
) -> ResolutionView {
    if resolvable(config, file_path) {
        ResolutionView::Canonicalize(
            PendingPathView {
                relative: without_leading(file_path, "/"@),
                content_type: content_type_of(file_path),
                root,
            },
        )
    } else {
        ResolutionView::NotFound
    }
}

/// The canonical path is the sandbox root or lies below it: the components
/// of the root are the first components of the path.
pub open spec fn within_sandbox(root: Seq<Seq<char>>, canonical: Seq<Seq<char>>) -> bool {
    root.is_prefix_of(canonical)
}

/// The step after canonicalization, which gave the components of the
/// canonical path, or `None` where it failed. Only a path inside the
/// sandbox is read.
pub open spec fn after_canonical(
    pending: PendingPathView,
    canonical: Option<Seq<Seq<char>>>,
) -> ResolutionView {
    match canonical {
        Some(c) => if within_sandbox(pending.root, c) {
            ResolutionView::Read(
                PendingFileView { canonical: c, content_type: pending.content_type },
            )
        } else {
            ResolutionView::NotFound
        },
        None => ResolutionView::NotFound,
    }
}

/// The step after the read, which gave the content of the file, or `None`
/// where the path names no regular file or the file could not be read.
pub open spec fn after_read(
    pending: PendingFileView,
    content: Option<Seq<char>>,
) -> ResolutionView {
    match content {
        Some(text) => ResolutionView::Found(
            ResolvedFileView { content: text, content_type: pending.content_type },
        ),
        None => ResolutionView::NotFound,
    }
}

/// The content type that goes with a file path.
pub fn content_type_for(file_path: &str) -> (r: String)
    ensures
        r@ == content_type_of(file_path@),
{
    let p = chars_of(file_path);
    let start: usize = match last_piece_start(&p, '.') {
        Some(k) => k,
        None => 0,
    };
    let extension = string_of(&p, start, p.len());
    proof {
        assert(p@.subrange(0, p@.len() as int) =~= p@);
        assert(extension@ == last_piece(file_path@, '.'));
    }
    let e = extension.as_str();
    let t = if same_text(e, "html") {
        "text/html; charset=utf-8"
    } else if same_text(e, "css") {
        "text/css; charset=utf-8"
    } else if same_text(e, "js") {
        "application/javascript; charset=utf-8"
    } else if same_text(e, "json") {
        "application/json; charset=utf-8"
    } else if same_text(e, "xml") {
        "application/xml; charset=utf-8"
    } else if same_text(e, "txt") {
        "text/plain; charset=utf-8"
    } else if same_text(e, "png") {
        "image/png"
    } else if same_text(e, "jpg") || same_text(e, "jpeg") {
        "image/jpeg"
    } else if same_text(e, "gif") {
        "image/gif"
    } else if same_text(e, "svg") {
        "image/svg+xml"
    } else if same_text(e, "ico") {
        "image/x-icon"
    } else if same_text(e, "webp") {
        "image/webp"
    } else if same_text(e, "pdf") {
        "application/pdf"
    } else {
        OCTET_STREAM
    };
    t.to_owned()
}

/// A copy of a list of strings.
pub fn copy_names(list: &Vec<String>) -> (r: Vec<String>)
    ensures
        names(r@) == names(list@),
{
    let mut r: Vec<String> = Vec::new();
    let mut i: usize = 0;
    while i < list.len()
        invariant
            i <= list.len(),
            r.len() == i,
            forall|k: int| 0 <= k < i ==> r@[k]@ == list@[k]@,
        decreases list.len() - i,
    {
        r.push(list[i].clone());
        i += 1;
    }
    assert(names(r@) =~= names(list@));
    r
}

/// Whether the components of `root` are the first components of `path`.
pub fn is_within(root: &Vec<String>, path: &Vec<String>) -> (r: bool)
    ensures
        r == within_sandbox(names(root@), names(path@)),
{
    if root.len() > path.len() {
        return false;
    }
    let mut i: usize = 0;
    while i < root.len()
        invariant
            i <= root.len() <= path.len(),
            forall|k: int| 0 <= k < i ==> root@[k]@ == path@[k]@,
        decreases root.len() - i,
    {
        if !same_text(root[i].as_str(), path[i].as_str()) {
            assert(names(root@)[i as int] != names(path@).subrange(0, root.len() as int)[i as int]);
            return false;
        }
        i += 1;
    }
    assert(names(root@) =~= names(path@).subrange(0, root.len() as int));
    true
}

/// Begins the resolution of `file_path` below the sandbox root `root`.
pub fn resolve(validator: &SecurityValidator, root: &Vec<String>, file_path: &str) -> (r:
    Resolution)
    ensures
        r@ == begin_resolution(validator.config(), names(root@), file_path@),
{
    if validator.validate_path(file_path).is_err() {
        return Resolution::NotFound;
    }
    if !validator.validate_file_extension(file_path) {
        return Resolution::NotFound;
    }
    let p = chars_of(file_path);
    let k = leading_repeats(&p, &chars_of("/"));
    let relative = string_of(&p, k, p.len());
    assert(relative@ =~= p@.skip(k as int));
    Resolution::Canonicalize(
        PendingPath {
            relative,
            content_type: content_type_for(file_path),
            root: copy_names(root),
        },
    )
}

impl PendingPath {
    /// The path to join onto the sandbox root.
    pub fn relative(&self) -> (r: &str)
        ensures
            r@ == self@.relative,
    {
        self.relative.as_str()
    }

    /// Whether a canonical path lies inside the sandbox that the path is
    /// looked up in.
    pub fn admits(&self, canonical: &Vec<String>) -> (r: bool)
        ensures
            r == within_sandbox(self@.root, names(canonical@)),
    {
        is_within(&self.root, canonical)
    }

    /// Goes on with the components of the canonical path, or with `None`
    /// where canonicalization failed.
    pub fn on_canonical(self, canonical: Option<Vec<String>>) -> (r: Resolution)
        ensures
            r@ == after_canonical(
                self@,
                match canonical {
                    Some(c) => Some(names(c@)),
                    None => None,
                },
            ),
    {
        match canonical {
            Some(c) => {
                if is_within(&self.root, &c) {
                    Resolution::Read(PendingFile { canonical: c, content_type: self.content_type })
                } else {
                    Resolution::NotFound
                }
            },
            None => Resolution::NotFound,
        }
    }
}

impl PendingFile {
    /// The components of the canonical path to read.
    pub fn canonical(&self) -> (r: &Vec<String>)
        ensures
            names(r@) == self@.canonical,
    {
        &self.canonical
    }

    /// Goes on with the content of the file, or with `None` where the path
    /// names no regular file or the file could not be read.
    pub fn on_read(self, content: Option<String>) -> (r: Resolution)
        ensures
            r@ == after_read(
                self@,
                match content {
                    Some(t) => Some(t@),
                    None => None,
                },
            ),
    {
        match content {
            Some(text) => Resolution::Found(
                ResolvedFile { content: text, content_type: self.content_type },
            ),
            None => Resolution::NotFound,
        }
    }
}

/// A file system as the resolver comes to know it.
pub ghost struct FileSystem {
    /// The components of the canonical path of each relative path that can
    /// be joined onto the sandbox root and canonicalized.
    pub canonical: Map<Seq<char>, Seq<Seq<char>>>,
    /// The content of each regular file that can be read as text, by the
    /// components of its canonical path.
    pub files: Map<Seq<Seq<char>>, Seq<char>>,
}

impl FileSystem {
    pub open spec fn canonicalize(self, relative: Seq<char>) -> Option<Seq<Seq<char>>> {
        if self.canonical.contains_key(relative) {
            Some(self.canonical[relative])
        } else {
            None
        }
    }

    pub open spec fn read(self, canonical: Seq<Seq<char>>) -> Option<Seq<char>> {
        if self.files.contains_key(canonical) {
            Some(self.files[canonical])
        } else {
            None
        }
    }
}

/// The file that a resolution ends with when each lookup is answered from
/// `fs`; `None` where it ends with "not found".
pub open spec fn outcome_in(fs: FileSystem, resolution: ResolutionView) -> Option<
    ResolvedFileView,
> {
    match resolution {
        ResolutionView::NotFound => None,
        ResolutionView::Canonicalize(path) => match after_canonical(
            path,
            fs.canonicalize(path.relative),
        ) {
            ResolutionView::Read(file) => match after_read(file, fs.read(file.canonical)) {
                ResolutionView::Found(found) => Some(found),
                _ => None,
            },
            _ => None,
        },
        ResolutionView::Read(file) => match after_read(file, fs.read(file.canonical)) {
            ResolutionView::Found(found) => Some(found),
            _ => None,
        },
        ResolutionView::Found(found) => Some(found),
    }
}

/// What resolving `file_path` gives on the file system `fs`.
pub open spec fn resolve_in(
    fs: FileSystem,
    config: SecurityConfigView,
    root: Seq<Seq<char>>,
    file_path: Seq<char>,
) -> Option<ResolvedFileView> {
    outcome_in(fs, begin_resolution(config, root, file_path))
}

/// A path that holds `..` or a null character is not found, whatever the
/// configuration and whatever the file system holds: its resolution ends
/// before the file system is asked.
pub proof fn traversal_is_not_found(
    fs: FileSystem,
    config: SecurityConfigView,
    root: Seq<Seq<char>>,
    file_path: Seq<char>,
)
    requires
        has_invalid_characters(file_path),
    ensures
        begin_resolution(config, root, file_path) == ResolutionView::NotFound,
        resolve_in(fs, config, root, file_path) is None,
{
}

/// Whatever is served was read from a canonical path inside the sandbox,
/// the one that the file system gave for the request path without its
/// leading slashes, and the path passed the policy.
pub proof fn served_files_lie_in_sandbox(
    fs: FileSystem,
    config: SecurityConfigView,
    root: Seq<Seq<char>>,
    file_path: Seq<char>,
)
    requires
        resolve_in(fs, config, root, file_path) is Some,
    ensures
        resolvable(config, file_path),
        fs.canonicalize(without_leading(file_path, "/"@)) matches Some(canonical)
            && within_sandbox(root, canonical) && fs.read(canonical) == Some(
            resolve_in(fs, config, root, file_path)->0.content,
        ),
        resolve_in(fs, config, root, file_path)->0.content_type == content_type_of(file_path),
{
}

/// Two paths that the policy treats alike, that have one canonical form and
/// one content type, resolve to the same file: redundant leading slashes,
/// for one, change nothing.
pub proof fn equivalent_paths_resolve_alike(
    fs: FileSystem,
    config: SecurityConfigView,
    root: Seq<Seq<char>>,
    first: Seq<char>,
    second: Seq<char>,
)
    requires
        resolvable(config, first) == resolvable(config, second),
        fs.canonicalize(without_leading(first, "/"@)) == fs.canonicalize(
            without_leading(second, "/"@),
        ),
        content_type_of(first) == content_type_of(second),
    ensures
        resolve_in(fs, config, root, first) == resolve_in(fs, config, root, second),
{
}

} // verus!
