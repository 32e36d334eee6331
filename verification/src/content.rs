//! Page and upload construction: the data carried to the object store.
//!
//! A [`PutRequest`] is one unit of upload work: a payload, a destination key
//! and a content type. Pages are built by plain concatenation of the header
//! template, a scraped fragment and the footer template; downloaded images
//! are republished under a mirror path derived from their origin URL, with
//! the content type guessed from the file name's extension.

use vstd::prelude::*;

use crate::scrape::{last_segment_of, url_last_segment};

verus! {

/// An upload payload: page text, or raw image bytes.
pub enum S3Content {
    Text(String),
    Bytes(Vec<u8>),
}

/// The mathematical value of a payload.
pub enum ContentView {
    Text(Seq<char>),
    Bytes(Seq<u8>),
}

impl View for S3Content {
    type V = ContentView;

    open spec fn view(&self) -> ContentView {
        match self {
            S3Content::Text(s) => ContentView::Text(s@),
            S3Content::Bytes(b) => ContentView::Bytes(b@),
        }
    }
}

impl Clone for S3Content {
    fn clone(&self) -> (r: Self)
        ensures
            r@ == self@,
    {
        match self {
            S3Content::Text(s) => S3Content::Text(s.clone()),
            S3Content::Bytes(b) => S3Content::Bytes(b.clone()),
        }
    }
}

/// One unit of upload work.
pub struct PutRequest {
    /// What to upload.
    pub src: S3Content,
    /// Destination key at the bucket root.
    pub dest: String,
    /// Content type sent with the upload.
    pub mime: String,
}

/// The mathematical value of a [`PutRequest`].
pub struct PutView {
    pub src: ContentView,
    pub dest: Seq<char>,
    pub mime: Seq<char>,
}

impl View for PutRequest {
    type V = PutView;

    open spec fn view(&self) -> PutView {
        PutView { src: self.src@, dest: self.dest@, mime: self.mime@ }
    }
}

impl Clone for PutRequest {
    fn clone(&self) -> (r: Self)
        ensures
            r@ == self@,
    {
        PutRequest { src: self.src.clone(), dest: self.dest.clone(), mime: self.mime.clone() }
    }
}

/// The newest campaign found on the index page: its detail-page link (the
/// idempotence key) and the scraped body fragment.
pub struct LatestResult {
    pub html: String,
    pub link: String,
}

/// The mathematical value of a [`LatestResult`].
pub struct LatestView {
    pub html: Seq<char>,
    pub link: Seq<char>,
}

impl View for LatestResult {
    type V = LatestView;

    open spec fn view(&self) -> LatestView {
        LatestView { html: self.html@, link: self.link@ }
    }
}

impl Clone for LatestResult {
    fn clone(&self) -> (r: Self)
        ensures
            r@ == self@,
    {
        LatestResult { html: self.html.clone(), link: self.link.clone() }
    }
}

/// A full page: header template, body fragment, footer template, in order,
/// with no escaping.
pub open spec fn page_view(top: Seq<char>, body: Seq<char>, bottom: Seq<char>) -> Seq<char> {
    top + body + bottom
}

/// Wraps a scraped fragment in the two templates by plain concatenation.
pub fn render_page(top: &str, body: &str, bottom: &str) -> (r: String)
    ensures
        r@ == page_view(top@, body@, bottom@),
{
    let mut out = top.to_owned();
    out.append(body);
    out.append(bottom);
    out
}

/// The index-page upload built from a campaign body.
pub open spec fn index_put_view(top: Seq<char>, latest: LatestView, bottom: Seq<char>) -> PutView {
    PutView {
        src: ContentView::Text(page_view(top, latest.html, bottom)),
        dest: "index.html"@,
        mime: "text/html"@,
    }
}

/// The archive-page upload built from an archive-list fragment.
pub open spec fn archive_put_view(top: Seq<char>, archive_html: Seq<char>, bottom: Seq<char>) -> PutView {
    PutView {
        src: ContentView::Text(page_view(top, archive_html, bottom)),
        dest: "archive.html"@,
        mime: "text/html"@,
    }
}

/// Renders the index page from the newest campaign's body and addresses it
/// to `index.html`.
pub fn build_index(top: &str, latest: &LatestResult, bottom: &str) -> (r: PutRequest)
    ensures
        r@ == index_put_view(top@, latest@, bottom@),
{
    PutRequest {
        src: S3Content::Text(render_page(top, latest.html.as_str(), bottom)),
        dest: "index.html".to_owned(),
        mime: "text/html".to_owned(),
    }
}

/// Renders the archive page from the scraped archive list and addresses it
/// to `archive.html`.
pub fn build_archive(top: &str, archive_html: &str, bottom: &str) -> (r: PutRequest)
    ensures
        r@ == archive_put_view(top@, archive_html@, bottom@),
{
    PutRequest {
        src: S3Content::Text(render_page(top, archive_html, bottom)),
        dest: "archive.html".to_owned(),
        mime: "text/html".to_owned(),
    }
}

/// The characters after the last `.` of `s`, or `None` when `s` has no `.`.
pub open spec fn after_last_dot(s: Seq<char>) -> Option<Seq<char>>
    decreases s.len(),
{
    if s.len() == 0 {
        None
    } else if s[s.len() - 1] == '.' {
        Some(Seq::empty())
    } else {
        match after_last_dot(s.drop_last()) {
            Some(t) => Some(t.push(s[s.len() - 1])),
            None => None,
        }
    }
}

/// The extension a file name is judged by: what follows the last `.`, or the
/// whole name when there is none.
pub open spec fn extension_of(name: Seq<char>) -> Seq<char> {
    match after_last_dot(name) {
        Some(e) => e,
        None => name,
    }
}

/// The content type guessed for a file name: the known image extensions map
/// to their image types, everything else to plain text.
pub open spec fn mime_of(name: Seq<char>) -> Seq<char> {
    let e = extension_of(name);
    if e == "png"@ {
        "image/png"@
    } else if e == "jpg"@ || e == "jpeg"@ {
        "image/jpeg"@
    } else if e == "bmp"@ {
        "image/bmp"@
    } else if e == "gif"@ {
        "image/gif"@
    } else {
        "text/plain"@
    }
}

/// When the last `.` of `s` stands at `p`, the extension is everything
/// after `p`.
proof fn lemma_after_last_dot_found(s: Seq<char>, p: int)
    requires
        0 <= p < s.len(),
        s[p] == '.',
        forall|j: int| p < j < s.len() ==> s[j] != '.',
    ensures
        after_last_dot(s) == Some(s.subrange(p + 1, s.len() as int)),
    decreases s.len(),
{
    if p == s.len() - 1 {
        assert(s.subrange(p + 1, s.len() as int) =~= Seq::empty());
    } else {
        lemma_after_last_dot_found(s.drop_last(), p);
        assert(s.drop_last().subrange(p + 1, s.len() - 1).push(s[s.len() - 1]) =~= s.subrange(
            p + 1,
            s.len() as int,
        ));
    }
}

/// When `s` holds no `.` at all, there is no extension.
proof fn lemma_after_last_dot_missing(s: Seq<char>)
    requires
        forall|j: int| 0 <= j < s.len() ==> s[j] != '.',
    ensures
        after_last_dot(s) is None,
    decreases s.len(),
{
    if s.len() > 0 {
        lemma_after_last_dot_missing(s.drop_last());
    }
}

/// Guesses the content type for a file name from its extension.
pub fn mime_for_name(name: &str) -> (r: String)
    ensures
        r@ == mime_of(name@),
{
    let n = name.unicode_len();
    let mut i: usize = n;
    let mut dot: Option<usize> = None;
    while i > 0 && dot.is_none()
        invariant
            i <= n,
            n == name@.len(),
            dot is None ==> forall|j: int| i <= j < n ==> name@[j] != '.',
            dot matches Some(p) ==> i == p && i < n && name@[i as int] == '.' && forall|j: int|
                i < j < n ==> name@[j] != '.',
        decreases i,
    {
        i = i - 1;
        let c = name.get_char(i);
        if c == '.' {
            dot = Some(i);
        }
    }
    let ext: &str = match dot {
        Some(p) => {
            proof {
                lemma_after_last_dot_found(name@, p as int);
            }
            name.substring_char(p + 1, n)
        },
        None => {
            proof {
                lemma_after_last_dot_missing(name@);
            }
            name
        },
    };
    let e = ext.to_owned();
    if e == "png".to_owned() {
        "image/png".to_owned()
    } else if e == "jpg".to_owned() || e == "jpeg".to_owned() {
        "image/jpeg".to_owned()
    } else if e == "bmp".to_owned() {
        "image/bmp".to_owned()
    } else if e == "gif".to_owned() {
        "image/gif".to_owned()
    } else {
        "text/plain".to_owned()
    }
}

/// The file name an image is mirrored under: the final path segment of its
/// origin URL, or a placeholder when the URL yields none.
pub open spec fn image_name_of(src: Seq<char>) -> Seq<char> {
    match last_segment_of(src) {
        Some(seg) => if seg.len() > 0 {
            seg
        } else {
            "tmp.bin"@
        },
        None => "tmp.bin"@,
    }
}

/// The upload for one downloaded image: its bytes, republished under the
/// gallery mirror path.
pub open spec fn image_put_view(src: Seq<char>, bytes: Seq<u8>) -> PutView {
    PutView {
        src: ContentView::Bytes(bytes),
        dest: "assets/mailchimpGallery/"@ + image_name_of(src),
        mime: mime_of(image_name_of(src)),
    }
}

/// Builds the upload for an image downloaded from `src`.
pub fn image_put_request(src: &str, bytes: Vec<u8>) -> (r: PutRequest)
    ensures
        r@ == image_put_view(src@, bytes@),
{
    let name: String = match url_last_segment(src) {
        Some(seg) => {
            if seg.as_str().unicode_len() > 0 {
                seg
            } else {
                "tmp.bin".to_owned()
            }
        },
        None => "tmp.bin".to_owned(),
    };
    let mime = mime_for_name(name.as_str());
    let mut dest = "assets/mailchimpGallery/".to_owned();
    dest.append(name.as_str());
    PutRequest { src: S3Content::Bytes(bytes), dest, mime }
}

} // verus!
