//! The HTTP surface's decisions: the shared directory/image-list
//! state, the listing and directory-switch replies, and the guards on
//! image requests. Disk and network work stays with the caller; every
//! decision between them is made here.

use vstd::prelude::*;

verus! {

use vstd::string::StrSliceExecFns;
use vstd::string::StringExecFns;
use crate::PAGE_SIZE;
use crate::files::{AppError, DirEntry, content_type_for, content_type_spec, image_names,
    listing_of, load_images};
use crate::text::{is_ws, lemma_lex_total_ordering, lemma_trim_empty_iff_ws, lex_leq_rel, names_of,
    sorted_names, trim_spec, trim_str};

/// The shared application state: the active directory, if any, and
/// the image-name snapshot listed from it. The pair is replaced
/// wholesale by a successful directory switch and never partially
/// mutated.
pub struct AppState {
    pub dir: Option<String>,
    pub images: Vec<String>,
}

impl AppState {
    /// The state's invariant: the image-name snapshot is sorted, as
    /// every listing scan leaves it.
    pub open spec fn wf(self) -> bool {
        sorted_names(self.images@)
    }

    /// A fresh state holding the given directory and listing.
    pub fn new(initial_dir: Option<String>, initial_images: Vec<String>) -> (s: Self)
        ensures
            s.dir == initial_dir,
            s.images == initial_images,
    {
        AppState { dir: initial_dir, images: initial_images }
    }
}

/// The payload of `GET /api/images`.
pub struct ImagesResponse {
    pub images: Vec<String>,
    pub page_size: usize,
}

/// What the listing response promises: the current snapshot,
/// unchanged, and the fixed page size.
pub open spec fn images_response_post(state: AppState, r: ImagesResponse) -> bool {
    &&& r.images@ == state.images@
    &&& r.page_size == PAGE_SIZE
}

/// Builds the listing reply: the current snapshot and the page size;
/// always served with status 200, an empty list included.
pub fn api_images(state: &AppState) -> (r: ImagesResponse)
    ensures
        images_response_post(*state, r),
{
    let images = state.images.clone();
    proof {
        assert(images@ =~= state.images@);
    }
    ImagesResponse { images, page_size: PAGE_SIZE }
}

/// The payload of the reply to `POST /api/select-dir`.
pub struct SelectDirResponse {
    pub ok: bool,
    pub count: usize,
    pub message: String,
}

/// The first step of a directory switch: `Rejected` carries the
/// complete reply for a blank path, else `Probe` carries the trimmed
/// path whose place on disk the caller must inspect.
pub enum SelectDirStep {
    Rejected { status: u16, reply: SelectDirResponse },
    Probe(String),
}

/// A request path that holds nothing but whitespace.
pub open spec fn blank_path(path: Seq<char>) -> bool {
    trim_spec(path).len() == 0
}

/// What the first step of a directory switch promises: a blank path
/// is rejected with `ok: false` and a zero count, any other path
/// comes back trimmed for the disk probe.
pub open spec fn select_dir_begin_post(path: Seq<char>, r: SelectDirStep) -> bool {
    &&& ((r is Rejected) <==> blank_path(path))
    &&& (r matches SelectDirStep::Rejected { status, reply } ==> status == 400 && reply.ok == false
        && reply.count == 0 && reply.message@ == "請輸入資料夾路徑"@)
    &&& (r matches SelectDirStep::Probe(t) ==> t@ == trim_spec(path))
}

/// Trims the requested path and rejects it when nothing is left.
pub fn select_dir_begin(path: &str) -> (r: SelectDirStep)
    ensures
        select_dir_begin_post(path@, r),
{
    let t = trim_str(path);
    if t.unicode_len() == 0 {
        SelectDirStep::Rejected {
            status: 400,
            reply: SelectDirResponse {
                ok: false,
                count: 0,
                message: String::from_str("請輸入資料夾路徑"),
            },
        }
    } else {
        SelectDirStep::Probe(t.to_owned())
    }
}

/// The 400 reply for a directory switch that validation or listing
/// refused, surfacing the error's message.
pub fn select_dir_reject(err: AppError) -> (r: (u16, SelectDirResponse))
    ensures
        r.0 == 400,
        r.1.ok == false,
        r.1.count == 0,
        r.1.message@ == err.message_spec(),
{
    (400, SelectDirResponse { ok: false, count: 0, message: err.into_message() })
}

/// Completes a directory switch once the validated directory's
/// entries were read (`Some`) or could not be (`None`). On success
/// the directory and listing are replaced together and the reply
/// counts the recognized images; on a read failure the state is left
/// as it was.
pub fn select_dir_finish(state: &mut AppState, dir: String, entries: Option<Vec<DirEntry>>) -> (r:
    (u16, SelectDirResponse))
    ensures
        entries matches Some(es) ==> {
            &&& r.0 == 200
            &&& r.1.ok == true
            &&& r.1.count == final(state).images@.len()
            &&& r.1.count == image_names(es@).len()
            &&& r.1.message@ == "載入完成"@
            &&& (final(state).dir matches Some(d) && d@ == dir@)
            &&& listing_of(final(state).images@, es@)
            &&& final(state).wf()
        },
        entries is None ==> {
            &&& r.0 == 400
            &&& r.1.ok == false
            &&& r.1.count == 0
            &&& r.1.message@ == "failed to read "@ + dir@
            &&& *final(state) == *old(state)
        },
{
    match entries {
        Some(es) => {
            let images = load_images(&es);
            proof {
                broadcast use vstd::seq_lib::group_to_multiset_ensures;

                assert(names_of(images@).to_multiset().len() == names_of(images@).len());
                assert(image_names(es@).to_multiset().len() == image_names(es@).len());
            }
            let count = images.len();
            state.dir = Some(dir);
            state.images = images;
            (
                200,
                SelectDirResponse { ok: true, count, message: String::from_str("載入完成") },
            )
        },
        None => {
            let mut m = String::from_str("failed to read ");
            m.append(dir.as_str());
            select_dir_reject(AppError::IoError(m))
        },
    }
}

/// An image name that is safe to resolve inside the active
/// directory: free of path separators and of `..`.
pub open spec fn name_is_safe(s: Seq<char>) -> bool {
    &&& (forall|i: int| 0 <= i < s.len() ==> #[trigger] s[i] != '/' && s[i] != '\\')
    &&& (forall|i: int| #![trigger s[i]] 0 <= i && i + 1 < s.len() ==> !(s[i] == '.' && s[i + 1]
        == '.'))
}

fn name_safe(s: &str) -> (r: bool)
    ensures
        r == name_is_safe(s@),
{
    let n: usize = s.unicode_len();
    let mut i: usize = 0;
    while i < n
        invariant
            0 <= i <= n,
            n == s@.len(),
            forall|k: int| 0 <= k < i ==> #[trigger] s@[k] != '/' && s@[k] != '\\',
            forall|k: int| #![trigger s@[k]] 0 <= k && k + 1 < n && k < i ==> !(s@[k] == '.'
                && s@[k + 1] == '.'),
        decreases n - i,
    {
        let c = s.get_char(i);
        if c == '/' || c == '\\' {
            return false;
        }
        if c == '.' && i + 1 < n {
            if s.get_char(i + 1) == '.' {
                return false;
            }
        }
        i = i + 1;
    }
    true
}

/// The decision for `GET /images/{name}` before any disk access: an
/// unsafe name is rejected outright with 400; without an active
/// directory there is nothing to serve, 404; otherwise the caller
/// reads the named file inside the directory snapshot `Fetch`
/// carries.
pub enum ImageLookup {
    Reject,
    NoDir,
    Fetch(String),
}

/// What the image-request decision promises, for every state.
pub open spec fn image_lookup_post(state: AppState, name: Seq<char>, r: ImageLookup) -> bool {
    &&& ((r is Reject) <==> !name_is_safe(name))
    &&& ((r is NoDir) <==> name_is_safe(name) && state.dir is None)
    &&& ((r is Fetch) <==> name_is_safe(name) && state.dir is Some)
    &&& (r matches ImageLookup::Fetch(d) ==> (state.dir matches Some(sd) && d@ == sd@))
}

/// Guards an image request and takes the directory snapshot it is to
/// be served from.
pub fn get_image_begin(state: &AppState, name: &str) -> (r: ImageLookup)
    ensures
        image_lookup_post(*state, name@, r),
{
    if !name_safe(name) {
        ImageLookup::Reject
    } else {
        match &state.dir {
            None => ImageLookup::NoDir,
            Some(d) => ImageLookup::Fetch(d.clone()),
        }
    }
}

/// One served image: its bytes and the `Content-Type` resolved from
/// its name.
pub struct ImageContent {
    pub bytes: Vec<u8>,
    pub content_type: &'static str,
}

/// The reply for `GET /images/{name}` once the file was read: any
/// disk failure is reported as 404; success serves the bytes whole
/// under the name's resolved content type.
pub enum ImageReply {
    Missing,
    Found(ImageContent),
}

/// Turns the outcome of reading the file into the reply.
pub fn get_image_finish(name: &str, bytes: Option<Vec<u8>>) -> (r: ImageReply)
    ensures
        (r is Missing) <==> (bytes is None),
        r matches ImageReply::Found(c) ==> (bytes matches Some(b) && c.bytes@ == b@
            && c.content_type@ == content_type_spec(name@)),
{
    match bytes {
        None => ImageReply::Missing,
        Some(b) => ImageReply::Found(
            ImageContent { bytes: b, content_type: content_type_for(name) },
        ),
    }
}

/// The embedded front-end assets, keyed by their exact names.
pub enum AssetKind {
    Stylesheet,
    Script,
    Layout,
}

/// Resolves `GET /assets/{name}`: which embedded asset the exact
/// name denotes; an unknown name is served 404.
pub fn asset_lookup(name: &str) -> (r: Option<AssetKind>)
    ensures
        (r is Some) <==> (name@ == "style.css"@ || name@ == "app.js"@ || name@
            == "layout.html"@),
        name@ == "style.css"@ ==> (r matches Some(k) && k is Stylesheet),
        name@ == "app.js"@ ==> (r matches Some(k) && k is Script),
        name@ == "layout.html"@ ==> (r matches Some(k) && k is Layout),
{
    proof {
        reveal_strlit("style.css");
        reveal_strlit("app.js");
        reveal_strlit("layout.html");
        assert("style.css"@.len() == 9);
        assert("app.js"@.len() == 6);
        assert("layout.html"@.len() == 11);
    }
    if crate::text::str_eq(name, "style.css") {
        Some(AssetKind::Stylesheet)
    } else if crate::text::str_eq(name, "app.js") {
        Some(AssetKind::Script)
    } else if crate::text::str_eq(name, "layout.html") {
        Some(AssetKind::Layout)
    } else {
        None
    }
}

/// An image request whose name holds a path separator or `..` is
/// rejected, whatever the application state.
pub proof fn lemma_unsafe_name_always_rejected(state: AppState, name: Seq<char>, r: ImageLookup)
    requires
        image_lookup_post(state, name, r),
        !name_is_safe(name),
    ensures
        r is Reject,
{
}

/// Before any directory is set, an image request for a safe name
/// finds nothing, whatever the name.
pub proof fn lemma_no_directory_nothing_served(state: AppState, name: Seq<char>, r: ImageLookup)
    requires
        image_lookup_post(state, name, r),
        name_is_safe(name),
        state.dir is None,
    ensures
        r is NoDir,
{
}

/// A directory switch whose path is empty or whitespace-only is
/// rejected with `ok: false` and a zero count.
pub proof fn lemma_blank_path_rejected(path: Seq<char>, r: SelectDirStep)
    requires
        select_dir_begin_post(path, r),
        forall|i: int| 0 <= i < path.len() ==> is_ws(path[i]),
    ensures
        r matches SelectDirStep::Rejected { status, reply } && status == 400 && reply.ok == false
            && reply.count == 0,
{
    lemma_trim_empty_iff_ws(path);
}

/// An admitted image request reads against the directory snapshot
/// taken when it was admitted: a switch that completes afterwards
/// cannot redirect it, so it serves the old directory's file or
/// nothing, never cross-directory content.
pub proof fn lemma_fetch_reads_the_snapshot(state: AppState, name: Seq<char>, r: ImageLookup)
    requires
        image_lookup_post(state, name, r),
        r is Fetch,
    ensures
        r matches ImageLookup::Fetch(d) && (state.dir matches Some(sd) && d@ == sd@),
{
}

/// Two correct listings of the same entries are the same names: the
/// sorted listing is determined by the scanned directory.
pub proof fn lemma_listing_determined(entries: Seq<DirEntry>, a: Seq<String>, b: Seq<String>)
    requires
        listing_of(a, entries),
        listing_of(b, entries),
    ensures
        names_of(a) == names_of(b),
{
    lemma_lex_total_ordering();
    vstd::seq_lib::lemma_sorted_unique(names_of(a), names_of(b), lex_leq_rel());
}

/// After a successful switch to a directory with the given entries,
/// the listing response returns exactly the recognized image names,
/// sorted, with the fixed page size.
pub proof fn lemma_switch_then_list(entries: Seq<DirEntry>, state: AppState, r: ImagesResponse)
    requires
        listing_of(state.images@, entries),
        images_response_post(state, r),
    ensures
        sorted_names(r.images@),
        names_of(r.images@).to_multiset() == image_names(entries).to_multiset(),
        r.images@.len() == image_names(entries).len(),
        r.page_size == PAGE_SIZE,
{
    broadcast use vstd::seq_lib::group_to_multiset_ensures;

    assert(names_of(r.images@).to_multiset().len() == names_of(r.images@).len());
    assert(image_names(entries).to_multiset().len() == image_names(entries).len());
    assert(names_of(r.images@).len() == r.images@.len());
}

/// Repeating the listing request against an unchanged state returns
/// the identical list.
pub proof fn lemma_images_idempotent(state: AppState, r1: ImagesResponse, r2: ImagesResponse)
    requires
        images_response_post(state, r1),
        images_response_post(state, r2),
    ensures
        r1.images@ == r2.images@,
        r1.page_size == r2.page_size,
{
}

} // verus!
