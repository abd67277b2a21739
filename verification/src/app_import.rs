//! Bringing pictures into a batch: opened and dropped files, pictures handed over
//! in memory, and what happens to the batch with each.
use vstd::prelude::*;
use std::sync::Arc;
use crate::batch_manager::BatchManager;
use crate::drag_export::{is_self_drop, DRAG_SUBDIR};
use crate::imaging::{header_size, read_dimensions};
use crate::item::{BatchItem, ImageSource};
use crate::item_settings::ItemSettings;
use crate::paths::{
    extension, extension_of, extensions_are_found, file_name, file_name_of, has_component,
    names_are_found, names_are_made_of_their_parts,
};
use crate::text::{chars_of, lower, lowered, same_text, text_of, to_lowered};

verus! {

/// Whether an extension, in small letters, is that of a picture.
pub open spec fn is_picture_extension(e: Seq<char>) -> bool {
    e == "png"@ || e == "jpg"@ || e == "jpeg"@ || e == "webp"@ || e == "bmp"@ || e == "svg"@
}

/// Whether a path names a picture, by its extension in any case.
pub open spec fn names_picture(path: Seq<char>) -> bool {
    match file_name(path) {
        Some(name) => match extension_of(name) {
            Some(e) => is_picture_extension(lowered(e)),
            None => false,
        },
        None => false,
    }
}

/// Whether a path names a picture, by its extension in any case.
pub fn is_supported_image_ext(path: &str) -> (r: bool)
    ensures
        r == names_picture(path@),
{
    match extension(path) {
        Some(e) => {
            let small = text_of(&to_lowered(&chars_of(e.as_str())));
            let s = small.as_str();
            same_text(s, "png") || same_text(s, "jpg") || same_text(s, "jpeg") || same_text(
                s,
                "webp",
            ) || same_text(s, "bmp") || same_text(s, "svg")
        },
        None => false,
    }
}

/// A dropped path: a file, or a folder with the files that lie in it.
pub enum DroppedPath {
    File(String),
    Folder(Vec<String>),
}

/// Pictures among the first `n` files, in order.
pub open spec fn pictures_among(files: Seq<String>, n: int) -> Seq<String>
    decreases n,
{
    if n <= 0 {
        Seq::empty()
    } else if names_picture(files[n - 1]@) {
        pictures_among(files, n - 1).push(files[n - 1])
    } else {
        pictures_among(files, n - 1)
    }
}

/// What the first `n` dropped paths stand for: files for themselves, folders for
/// the pictures in them.
pub open spec fn expanded(input: Seq<DroppedPath>, n: int) -> Seq<String>
    decreases n,
{
    if n <= 0 {
        Seq::empty()
    } else {
        match input[n - 1] {
            DroppedPath::File(p) => expanded(input, n - 1).push(p),
            DroppedPath::Folder(files) => expanded(input, n - 1) + pictures_among(
                files@,
                files@.len() as int,
            ),
        }
    }
}

/// Whether one of the first `n` dropped paths is a folder without pictures.
pub open spec fn empty_folder(input: Seq<DroppedPath>, n: int) -> bool {
    exists|i: int|
        0 <= i < n && ((#[trigger] input[i]) matches DroppedPath::Folder(files) && pictures_among(
            files@,
            files@.len() as int,
        ).len() == 0)
}

/// Pictures among files, in order.
fn pictures_in(files: Vec<String>) -> (r: Vec<String>)
    ensures
        r@ == pictures_among(files@, files@.len() as int),
{
    let ghost all = files@;
    let mut rest = files;
    let mut r: Vec<String> = Vec::new();
    let mut i: usize = 0;
    let n: usize = rest.len();
    while i < n
        invariant
            i <= n,
            n == all.len(),
            rest@ == all.skip(i as int),
            r@ == pictures_among(all, i as int),
        decreases n - i,
    {
        let f = rest.remove(0);
        assert(f == all[i as int]);
        assert(all.skip(i as int).remove(0) =~= all.skip(i as int + 1));
        if is_supported_image_ext(f.as_str()) {
            r.push(f);
        }
        i += 1;
    }
    r
}

/// What dropped paths stand for: files for themselves, folders for the pictures
/// that lie directly in them. Also says whether some folder held none.
pub fn expand_dropped_paths(input: Vec<DroppedPath>) -> (r: (Vec<String>, bool))
    ensures
        r.0@ == expanded(input@, input@.len() as int),
        r.1 == empty_folder(input@, input@.len() as int),
{
    let ghost all = input@;
    let mut rest = input;
    let mut out: Vec<String> = Vec::new();
    let mut any_empty = false;
    let n: usize = rest.len();
    let mut i: usize = 0;
    while i < n
        invariant
            i <= n,
            n == all.len(),
            rest@ == all.skip(i as int),
            out@ == expanded(all, i as int),
            any_empty == empty_folder(all, i as int),
        decreases n - i,
    {
        let d = rest.remove(0);
        assert(d == all[i as int]);
        assert(all.skip(i as int).remove(0) =~= all.skip(i as int + 1));
        let ghost was_empty = any_empty;
        match d {
            DroppedPath::File(p) => {
                out.push(p);
            },
            DroppedPath::Folder(files) => {
                let mut found = pictures_in(files);
                if found.len() == 0 {
                    any_empty = true;
                }
                out.append(&mut found);
            },
        }
        proof {
            let here = all[i as int] matches DroppedPath::Folder(files) && pictures_among(
                files@,
                files@.len() as int,
            ).len() == 0;
            assert(any_empty == (was_empty || here));
            if was_empty {
                let k = choose|k: int|
                    0 <= k < i && ((#[trigger] all[k]) matches DroppedPath::Folder(files)
                        && pictures_among(files@, files@.len() as int).len() == 0);
                assert(empty_folder(all, i as int + 1)) by {
                    assert(0 <= k < i + 1);
                    let y = all[k];
                }
            }
            if here {
                assert(empty_folder(all, i as int + 1)) by {
                    let y = all[i as int];
                }
            }
            if empty_folder(all, i as int + 1) && !here {
                let k = choose|k: int|
                    0 <= k < i + 1 && ((#[trigger] all[k]) matches DroppedPath::Folder(files)
                        && pictures_among(files@, files@.len() as int).len() == 0);
                assert(k < i);
                assert(empty_folder(all, i as int));
            }
        }
        i += 1;
    }
    (out, any_empty)
}

/// Everything that comes out of folders is a picture.
pub proof fn folders_give_pictures(files: Seq<String>, n: int)
    requires
        0 <= n <= files.len(),
    ensures
        forall|i: int|
            0 <= i < pictures_among(files, n).len() ==> names_picture(
                #[trigger] pictures_among(files, n)[i]@,
            ),
        pictures_among(files, n).len() <= n,
    decreases n,
{
    if n > 0 {
        folders_give_pictures(files, n - 1);
    }
}

/// Something dropped on the window: a path, or a picture in memory with its name.
pub enum Dropped {
    Path(String),
    Inline(Vec<u8>, String),
    Nothing,
}

/// A picture in memory with its name.
pub struct InlinePicture {
    pub bytes: Vec<u8>,
    pub name: String,
}

/// What was dropped, sorted.
pub struct DropTriage {
    pub paths: Vec<String>,
    pub inline_items: Vec<InlinePicture>,
    /// Nothing but files that were dragged out of the window came back.
    pub only_own: bool,
}

/// Whether a path is one that was dragged out of the window.
pub open spec fn own_file(path: Seq<char>) -> bool {
    has_component(path, DRAG_SUBDIR@)
}

/// Paths from elsewhere among the first `n` things dropped.
pub open spec fn foreign_paths(d: Seq<Dropped>, n: int) -> Seq<String>
    decreases n,
{
    if n <= 0 {
        Seq::empty()
    } else {
        match d[n - 1] {
            Dropped::Path(p) => if own_file(p@) {
                foreign_paths(d, n - 1)
            } else {
                foreign_paths(d, n - 1).push(p)
            },
            _ => foreign_paths(d, n - 1),
        }
    }
}

/// Pictures in memory among the first `n` things dropped.
pub open spec fn inline_pictures(d: Seq<Dropped>, n: int) -> Seq<InlinePicture>
    decreases n,
{
    if n <= 0 {
        Seq::empty()
    } else {
        match d[n - 1] {
            Dropped::Inline(bytes, name) => inline_pictures(d, n - 1).push(
                InlinePicture { bytes, name },
            ),
            _ => inline_pictures(d, n - 1),
        }
    }
}

/// Whether one of the first `n` things dropped was dragged out of the window.
pub open spec fn saw_own(d: Seq<Dropped>, n: int) -> bool
    decreases n,
{
    n > 0 && (saw_own(d, n - 1) || (d[n - 1] matches Dropped::Path(p) && own_file(p@)))
}

/// Sorts what was dropped. Files that were dragged out of the window are left out,
/// so that they do not come in again as new pictures.
pub fn triage_drop(dropped: Vec<Dropped>) -> (r: DropTriage)
    ensures
        r.paths@ == foreign_paths(dropped@, dropped@.len() as int),
        r.inline_items@ == inline_pictures(dropped@, dropped@.len() as int),
        r.only_own == (saw_own(dropped@, dropped@.len() as int) && r.paths@.len() == 0
            && r.inline_items@.len() == 0),
{
    let ghost all = dropped@;
    let mut rest = dropped;
    let mut paths: Vec<String> = Vec::new();
    let mut inline_items: Vec<InlinePicture> = Vec::new();
    let mut own = false;
    let n: usize = rest.len();
    let mut i: usize = 0;
    while i < n
        invariant
            i <= n,
            n == all.len(),
            rest@ == all.skip(i as int),
            paths@ == foreign_paths(all, i as int),
            inline_items@ == inline_pictures(all, i as int),
            own == saw_own(all, i as int),
        decreases n - i,
    {
        let d = rest.remove(0);
        assert(d == all[i as int]);
        assert(all.skip(i as int).remove(0) =~= all.skip(i as int + 1));
        match d {
            Dropped::Path(p) => {
                if is_self_drop(p.as_str()) {
                    own = true;
                } else {
                    paths.push(p);
                }
            },
            Dropped::Inline(bytes, name) => {
                inline_items.push(InlinePicture { bytes, name });
            },
            Dropped::Nothing => {},
        }
        i += 1;
    }
    let only_own = own && paths.len() == 0 && inline_items.len() == 0;
    DropTriage { paths, inline_items, only_own }
}

/// No file that was dragged out of the window comes in again.
pub proof fn own_files_stay_out(d: Seq<Dropped>, n: int)
    requires
        0 <= n <= d.len(),
    ensures
        forall|i: int|
            0 <= i < foreign_paths(d, n).len() ==> !own_file(#[trigger] foreign_paths(d, n)[i]@),
    decreases n,
{
    if n > 0 {
        own_files_stay_out(d, n - 1);
        let before = foreign_paths(d, n - 1);
        assert forall|i: int| 0 <= i < foreign_paths(d, n).len() implies !own_file(
            #[trigger] foreign_paths(d, n)[i]@,
        ) by {
            if i < before.len() {
                assert(foreign_paths(d, n)[i] == before[i]);
            }
        }
    }
}

/// What a new picture gets.
pub struct NewItem {
    pub settings: ItemSettings,
    pub preset: String,
}

/// Whether a batch got one more item at its end, new and with the next id.
pub open spec fn grown_by(
    a: BatchManager,
    b: BatchManager,
    source: ImageSource,
    dims: (u32, u32),
    name: Seq<char>,
    new: NewItem,
) -> bool {
    let n = a.items@.len() as int;
    &&& b.items@.len() == n + 1
    &&& b.items@.take(n) == a.items@
    &&& b.next_id == a.next_id + 1
    &&& b.items@[n].id == a.next_id
    &&& b.items@[n].filename@ == name
    &&& b.items@[n].source == source
    &&& b.items@[n].dimensions == dims
    &&& b.items@[n].settings == new.settings
    &&& b.items@[n].applied_preset@ == new.preset@
    &&& b.items@[n].fresh()
}

/// Appends a picture to the batch.
fn add_to_batch_source(
    batch: &mut BatchManager,
    source: ImageSource,
    dims: (u32, u32),
    name: String,
    new: &NewItem,
)
    requires
        old(batch).next_id < u64::MAX,
    ensures
        grown_by(*old(batch), *final(batch), source, dims, name@, *new),
        final(batch).selected_index == old(batch).selected_index,
{
    let id: u64 = batch.next_id;
    batch.next_id = id + 1;
    batch.items.push(BatchItem::new(id, name, source, dims, new.settings, new.preset.clone()));
    assert(batch.items@.take(old(batch).items@.len() as int) =~= old(batch).items@);
}

/// New ids stay new: appending a picture keeps the ids of a batch apart.
pub proof fn growing_keeps_ids_unique(
    a: BatchManager,
    b: BatchManager,
    source: ImageSource,
    dims: (u32, u32),
    name: Seq<char>,
    new: NewItem,
)
    requires
        a.ids_unique(),
        grown_by(a, b, source, dims, name, new),
    ensures
        b.ids_unique(),
{
    let n = a.items@.len() as int;
    assert forall|i: int| 0 <= i < n implies #[trigger] b.items@[i] == a.items@[i] by {
        assert(b.items@.take(n)[i] == b.items@[i]);
    }
}

/// Appends a picture to the batch and views it. Says whether its source is in
/// memory and is decoded at once.
pub fn load_image_source(
    batch: &mut BatchManager,
    source: ImageSource,
    dims: (u32, u32),
    name: String,
    new: &NewItem,
) -> (decode: bool)
    requires
        old(batch).next_id < u64::MAX,
    ensures
        grown_by(*old(batch), *final(batch), source, dims, name@, *new),
        final(batch).selected_index == old(batch).items@.len(),
        decode == (source is Bytes),
{
    let in_memory = match &source {
        ImageSource::Bytes(_) => true,
        ImageSource::Path(_) => false,
    };
    add_to_batch_source(batch, source, dims, name, new);
    batch.selected_index = batch.items.len() - 1;
    in_memory
}

/// What the user is told of a file that is no picture.
pub const COULD_NOT_LOAD: &'static str = "Could not load image";

/// Whether a picture in memory was brought in and is viewed, or was refused.
pub open spec fn loaded(
    a: BatchManager,
    b: BatchManager,
    bytes: Vec<u8>,
    size: Option<(u32, u32)>,
    name: Seq<char>,
    new: NewItem,
    r: bool,
) -> bool {
    match size {
        Some(dims) => {
            &&& r
            &&& grown_by(a, b, ImageSource::Bytes(Arc::new(bytes)), dims, name, new)
            &&& b.selected_index == a.items@.len()
        },
        None => !r && b == a,
    }
}

/// Brings in a picture in memory whose size was read, and views it. Without a size
/// it is no picture, and nothing changes.
pub fn load_image_of_size(
    batch: &mut BatchManager,
    bytes: Vec<u8>,
    size: Option<(u32, u32)>,
    filename: Option<String>,
    new: &NewItem,
) -> (r: bool)
    requires
        old(batch).next_id < u64::MAX,
    ensures
        loaded(
            *old(batch),
            *final(batch),
            bytes,
            size,
            match filename {
                Some(n) => n@,
                None => "image"@,
            },
            *new,
            r,
        ),
{
    match size {
        Some(dims) => {
            let name = match filename {
                Some(n) => n,
                None => "image".to_owned(),
            };
            load_image_source(batch, ImageSource::Bytes(Arc::new(bytes)), dims, name, new)
        },
        None => false,
    }
}

/// Brings in a picture in memory and views it. Says whether it is a picture.
pub fn load_image(batch: &mut BatchManager, bytes: Vec<u8>, filename: Option<String>, new: &NewItem) -> (r:
    bool)
    requires
        old(batch).next_id < u64::MAX,
    ensures
        loaded(
            *old(batch),
            *final(batch),
            bytes,
            header_size(bytes@),
            match filename {
                Some(n) => n@,
                None => "image"@,
            },
            *new,
            r,
        ),
{
    let size = read_dimensions(bytes.as_slice());
    load_image_of_size(batch, bytes, size, filename, new)
}

/// A name, unless it is empty.
fn given_name(name: String) -> (r: Option<String>)
    ensures
        r == if name@.len() == 0 {
            None
        } else {
            Some(name)
        },
{
    if name.as_str().is_empty() {
        None
    } else {
        Some(name)
    }
}

/// Brings in a picture in memory under a name, which may be empty, and views it.
pub fn handle_open_bytes(batch: &mut BatchManager, bytes: Vec<u8>, name: String, new: &NewItem) -> (r:
    bool)
    requires
        old(batch).next_id < u64::MAX,
    ensures
        loaded(
            *old(batch),
            *final(batch),
            bytes,
            header_size(bytes@),
            if name@.len() == 0 {
                "image"@
            } else {
                name@
            },
            *new,
            r,
        ),
{
    load_image(batch, bytes, given_name(name), new)
}

/// The name of a file, or another one where the path has none.
pub open spec fn name_or(path: Seq<char>, other: Seq<char>) -> Seq<char> {
    match file_name(path) {
        Some(name) => name,
        None => other,
    }
}

/// The name of a file, or another one where the path has none.
pub fn display_name(path: &str, other: &str) -> (r: String)
    ensures
        r@ == name_or(path@, other@),
{
    match file_name_of(path) {
        Some(name) => name,
        None => other.to_owned(),
    }
}

/// Brings in a file whose size was read from its head, and views it. Says whether
/// it is a picture.
pub fn handle_open_path(
    batch: &mut BatchManager,
    path: String,
    size: Option<(u32, u32)>,
    new: &NewItem,
) -> (r: bool)
    requires
        old(batch).next_id < u64::MAX,
    ensures
        r == size is Some,
        match size {
            Some(dims) => {
                &&& grown_by(
                    *old(batch),
                    *final(batch),
                    ImageSource::Path(path),
                    dims,
                    name_or(path@, "image"@),
                    *new,
                )
                &&& final(batch).selected_index == old(batch).items@.len()
            },
            None => *final(batch) == *old(batch),
        },
{
    match size {
        Some(dims) => {
            let name = display_name(path.as_str(), "image");
            load_image_source(batch, ImageSource::Path(path), dims, name, new);
            true
        },
        None => false,
    }
}

/// Appends a file whose size was read from its head. A file that is no picture is
/// passed over. What is viewed stays.
pub fn add_to_batch_path(
    batch: &mut BatchManager,
    path: String,
    name: String,
    size: Option<(u32, u32)>,
    new: &NewItem,
) -> (r: bool)
    requires
        old(batch).next_id < u64::MAX,
    ensures
        r == size is Some,
        final(batch).selected_index == old(batch).selected_index,
        match size {
            Some(dims) => grown_by(
                *old(batch),
                *final(batch),
                ImageSource::Path(path),
                dims,
                name@,
                *new,
            ),
            None => *final(batch) == *old(batch),
        },
{
    match size {
        Some(dims) => {
            add_to_batch_source(batch, ImageSource::Path(path), dims, name, new);
            true
        },
        None => false,
    }
}

/// Appends a picture in memory whose size was read. Without a size it is no picture
/// and is passed over. What is viewed stays.
pub fn add_to_batch_of_size(
    batch: &mut BatchManager,
    bytes: Vec<u8>,
    size: Option<(u32, u32)>,
    name: String,
    new: &NewItem,
) -> (r: bool)
    requires
        old(batch).next_id < u64::MAX,
    ensures
        appended(*old(batch), *final(batch), bytes, size, name@, *new, r),
{
    match size {
        Some(dims) => {
            add_to_batch_source(batch, ImageSource::Bytes(Arc::new(bytes)), dims, name, new);
            true
        },
        None => false,
    }
}

/// Whether a picture in memory was appended, or was refused.
pub open spec fn appended(
    a: BatchManager,
    b: BatchManager,
    bytes: Vec<u8>,
    size: Option<(u32, u32)>,
    name: Seq<char>,
    new: NewItem,
    r: bool,
) -> bool {
    match size {
        Some(dims) => {
            &&& r
            &&& grown_by(a, b, ImageSource::Bytes(Arc::new(bytes)), dims, name, new)
            &&& b.selected_index == a.selected_index
        },
        None => !r && b == a,
    }
}

/// Appends a picture in memory. What is no picture is passed over. What is viewed
/// stays.
pub fn add_to_batch(batch: &mut BatchManager, bytes: Vec<u8>, name: String, new: &NewItem) -> (r: bool)
    requires
        old(batch).next_id < u64::MAX,
    ensures
        appended(*old(batch), *final(batch), bytes, header_size(bytes@), name@, *new, r),
{
    let size = read_dimensions(bytes.as_slice());
    add_to_batch_of_size(batch, bytes, size, name, new)
}

/// How picked files come in.
pub enum OpenPlan {
    /// The only file is opened at once and viewed.
    Open(String),
    /// The files are read one after the other, under these names.
    Queue(Vec<QueuedFile>),
}

/// A file that is to be read, and the name it is shown under.
pub struct QueuedFile {
    pub path: String,
    pub name: String,
}

/// Whether files are queued under their names.
pub open spec fn queued(paths: Seq<String>, q: Seq<QueuedFile>) -> bool {
    &&& q.len() == paths.len()
    &&& forall|i: int|
        0 <= i < q.len() ==> (#[trigger] q[i]).path == paths[i] && q[i].name@ == name_or(
            paths[i]@,
            "untitled"@,
        )
}

/// Queues files under their names.
pub fn queue_files(paths: Vec<String>) -> (r: Vec<QueuedFile>)
    ensures
        queued(paths@, r@),
{
    let ghost all = paths@;
    let mut rest = paths;
    let mut r: Vec<QueuedFile> = Vec::new();
    let n: usize = rest.len();
    let mut i: usize = 0;
    while i < n
        invariant
            i <= n,
            n == all.len(),
            rest@ == all.skip(i as int),
            r@.len() == i,
            forall|j: int|
                0 <= j < i ==> (#[trigger] r@[j]).path == all[j] && r@[j].name@ == name_or(
                    all[j]@,
                    "untitled"@,
                ),
        decreases n - i,
    {
        let path = rest.remove(0);
        assert(path == all[i as int]);
        assert(all.skip(i as int).remove(0) =~= all.skip(i as int + 1));
        let name = display_name(path.as_str(), "untitled");
        r.push(QueuedFile { path, name });
        i += 1;
    }
    r
}

/// How picked files come in: a single one into an empty batch is opened at once.
pub fn open_plan(paths: Vec<String>, batch_empty: bool) -> (r: OpenPlan)
    ensures
        match r {
            OpenPlan::Open(p) => paths@.len() == 1 && batch_empty && p == paths@[0],
            OpenPlan::Queue(q) => !(paths@.len() == 1 && batch_empty) && queued(paths@, q@),
        },
{
    if paths.len() == 1 && batch_empty {
        let mut paths = paths;
        return OpenPlan::Open(paths.remove(0));
    }
    OpenPlan::Queue(queue_files(paths))
}

/// Whether dropped pictures in memory are opened like a single file: there is one,
/// and the batch is empty.
pub fn opens_single(count: usize, batch_empty: bool) -> (r: bool)
    ensures
        r == (count == 1 && batch_empty),
{
    count == 1 && batch_empty
}

/// What is done after pictures came in.
#[derive(Clone, Copy, Debug, PartialEq, Eq, Structural)]
pub struct Imported {
    /// The single new picture is viewed.
    pub views_new: bool,
    /// Items with this id or a later one are processed.
    pub process_from: Option<u64>,
}

/// A picture that comes in: where it lies, its name and its size.
pub ghost struct Incoming {
    pub source: ImageSource,
    pub name: Seq<char>,
    pub dims: (u32, u32),
}

/// Those of the first `n` pictures in memory that have a size, in order.
pub open spec fn accepted(items: Seq<InlinePicture>, sizes: Seq<Option<(u32, u32)>>, n: int) -> Seq<
    Incoming,
>
    decreases n,
{
    if n <= 0 {
        Seq::empty()
    } else {
        match sizes[n - 1] {
            Some(dims) => accepted(items, sizes, n - 1).push(
                Incoming {
                    source: ImageSource::Bytes(Arc::new(items[n - 1].bytes)),
                    name: items[n - 1].name@,
                    dims,
                },
            ),
            None => accepted(items, sizes, n - 1),
        }
    }
}

/// Whether `b` is `a` with the given pictures appended, new and with fresh ids.
pub open spec fn grown_by_all(
    a: BatchManager,
    b: BatchManager,
    added: Seq<Incoming>,
    new: NewItem,
) -> bool {
    let n = a.items@.len() as int;
    &&& b.items@.len() == n + added.len()
    &&& b.items@.take(n) == a.items@
    &&& b.next_id == a.next_id + added.len()
    &&& forall|k: int|
        0 <= k < added.len() ==> new_item_for(
            #[trigger] b.items@[n + k],
            (a.next_id + k) as u64,
            added[k],
            new,
        )
}

/// Whether an item is a new one for a picture that came in.
pub open spec fn new_item_for(item: BatchItem, id: u64, p: Incoming, new: NewItem) -> bool {
    &&& item.id == id
    &&& item.filename@ == p.name
    &&& item.source == p.source
    &&& item.dimensions == p.dims
    &&& item.settings == new.settings
    &&& item.applied_preset@ == new.preset@
    &&& item.fresh()
}

/// A batch that got pictures and then one more.
proof fn grown_once_more(
    a: BatchManager,
    mid: BatchManager,
    b: BatchManager,
    added: Seq<Incoming>,
    p: Incoming,
    new: NewItem,
)
    requires
        grown_by_all(a, mid, added, new),
        grown_by(mid, b, p.source, p.dims, p.name, new),
    ensures
        grown_by_all(a, b, added.push(p), new),
{
    let len = a.items@.len() as int;
    let m = mid.items@.len() as int;
    assert(b.items@.take(len) =~= mid.items@.take(len)) by {
        assert(b.items@.take(m).take(len) =~= b.items@.take(len));
    }
    assert forall|k: int| 0 <= k < added.len() + 1 implies new_item_for(
        #[trigger] b.items@[len + k],
        (a.next_id + k) as u64,
        added.push(p)[k],
        new,
    ) by {
        if k < added.len() {
            assert(b.items@.take(m)[len + k] == b.items@[len + k]);
            assert(mid.items@[len + k] == b.items@[len + k]);
        }
    }
}

/// Whether pictures in memory came into a batch. A single one is viewed. With
/// `auto_process` the new items are processed.
pub open spec fn imported(
    a: BatchManager,
    b: BatchManager,
    items: Seq<InlinePicture>,
    sizes: Seq<Option<(u32, u32)>>,
    auto_process: bool,
    new: NewItem,
    r: Imported,
) -> bool {
    let added = accepted(items, sizes, items.len() as int);
    &&& grown_by_all(a, b, added, new)
    &&& r.views_new == (items.len() == 1 && b.items@.len() > 0)
    &&& b.selected_index == if r.views_new {
        (b.items@.len() - 1) as usize
    } else {
        a.selected_index
    }
    &&& r.process_from == if auto_process && added.len() > 0 {
        Some(a.next_id)
    } else {
        None
    }
}

/// Appends pictures in memory whose sizes were read; those without one are passed
/// over. A single one is viewed. With `auto_process` the new items are processed.
pub fn import_sized(
    batch: &mut BatchManager,
    items: Vec<InlinePicture>,
    sizes: &Vec<Option<(u32, u32)>>,
    auto_process: bool,
    new: &NewItem,
) -> (r: Imported)
    requires
        old(batch).next_id + items@.len() <= u64::MAX,
        sizes@.len() == items@.len(),
    ensures
        imported(*old(batch), *final(batch), items@, sizes@, auto_process, *new, r),
{
    let ghost all = items@;
    let floor: u64 = batch.next_id;
    let mut rest = items;
    let n: usize = rest.len();
    let mut i: usize = 0;
    assert(batch.items@.take(batch.items@.len() as int) =~= batch.items@);
    while i < n
        invariant
            i <= n,
            n == all.len(),
            sizes@.len() == n,
            rest@ == all.skip(i as int),
            old(batch).next_id + n <= u64::MAX,
            accepted(all, sizes@, i as int).len() <= i,
            batch.selected_index == old(batch).selected_index,
            grown_by_all(*old(batch), *batch, accepted(all, sizes@, i as int), *new),
        decreases n - i,
    {
        let p = rest.remove(0);
        assert(p == all[i as int]);
        assert(all.skip(i as int).remove(0) =~= all.skip(i as int + 1));
        let ghost before = *batch;
        let ghost added = accepted(all, sizes@, i as int);
        add_to_batch_of_size(batch, p.bytes, sizes[i], p.name, new);
        proof {
            if let Some(dims) = sizes@[i as int] {
                let q = Incoming {
                    source: ImageSource::Bytes(Arc::new(p.bytes)),
                    name: p.name@,
                    dims,
                };
                grown_once_more(*old(batch), before, *batch, added, q, *new);
            }
        }
        i += 1;
    }
    let mut views_new = false;
    if n == 1 && batch.items.len() > 0 {
        batch.selected_index = batch.items.len() - 1;
        views_new = true;
    }
    let process_from = if auto_process && batch.next_id > floor {
        Some(floor)
    } else {
        None
    };
    Imported { views_new, process_from }
}

/// Sizes of pictures in memory.
pub open spec fn sizes_of(items: Seq<InlinePicture>) -> Seq<Option<(u32, u32)>> {
    items.map_values(|p: InlinePicture| header_size(p.bytes@))
}

/// Reads the sizes of pictures in memory.
fn read_sizes(items: &Vec<InlinePicture>) -> (r: Vec<Option<(u32, u32)>>)
    ensures
        r@ == sizes_of(items@),
{
    let mut sizes: Vec<Option<(u32, u32)>> = Vec::new();
    let mut i: usize = 0;
    while i < items.len()
        invariant
            i <= items@.len(),
            sizes@ =~= sizes_of(items@.take(i as int)),
        decreases items@.len() - i,
    {
        sizes.push(read_dimensions(items[i].bytes.as_slice()));
        i += 1;
    }
    assert(items@.take(items@.len() as int) =~= items@);
    sizes
}

/// What the user is told of dropped folders without pictures.
pub const EMPTY_FOLDER: &'static str = "Dropped folder had no supported images (PNG / JPG / WebP / BMP / SVG).";

/// What became of dropped pictures in memory.
#[derive(Clone, Copy, Debug, PartialEq, Eq, Structural)]
pub enum TakenIn {
    /// There were none.
    Nothing,
    /// The only one was opened into the empty batch, and is viewed.
    Opened,
    /// The only one is no picture.
    Refused,
    /// They were appended.
    Appended(Imported),
}

/// What became of what was dropped.
pub struct DropOutcome {
    /// Files that are read one after the other.
    pub queue: Vec<QueuedFile>,
    /// What the user is told.
    pub notice: Option<&'static str>,
    pub taken: TakenIn,
}

/// Whether dropped pictures in memory were taken in.
pub open spec fn taken_in(
    a: BatchManager,
    b: BatchManager,
    inline: Seq<InlinePicture>,
    sizes: Seq<Option<(u32, u32)>>,
    auto_process: bool,
    new: NewItem,
    r: TakenIn,
) -> bool {
    if inline.len() == 0 {
        r is Nothing && b == a
    } else if inline.len() == 1 && a.items@.len() == 0 {
        &&& r == if sizes[0] is Some {
            TakenIn::Opened
        } else {
            TakenIn::Refused
        }
        &&& loaded(
            a,
            b,
            inline[0].bytes,
            sizes[0],
            if inline[0].name@.len() == 0 {
                "image"@
            } else {
                inline[0].name@
            },
            new,
            r is Opened,
        )
    } else {
        r matches TakenIn::Appended(i) && imported(a, b, inline, sizes, auto_process, new, i)
    }
}

/// Takes in dropped pictures in memory whose sizes were read. A single one is
/// opened into an empty batch; otherwise they are appended.
pub fn take_in(
    batch: &mut BatchManager,
    inline: Vec<InlinePicture>,
    sizes: &Vec<Option<(u32, u32)>>,
    auto_process: bool,
    new: &NewItem,
) -> (r: TakenIn)
    requires
        old(batch).next_id + inline@.len() <= u64::MAX,
        sizes@.len() == inline@.len(),
    ensures
        taken_in(*old(batch), *final(batch), inline@, sizes@, auto_process, *new, r),
{
    if inline.len() == 0 {
        return TakenIn::Nothing;
    }
    if opens_single(inline.len(), batch.items.len() == 0) {
        let mut inline = inline;
        let p = inline.remove(0);
        return if load_image_of_size(batch, p.bytes, sizes[0], given_name(p.name), new) {
            TakenIn::Opened
        } else {
            TakenIn::Refused
        };
    }
    TakenIn::Appended(import_sized(batch, inline, sizes, auto_process, new))
}

/// Whether what was dropped was dealt with: files are queued, a drop of nothing but
/// folders without pictures is reported, and pictures in memory are taken in.
pub open spec fn drop_handled(
    a: BatchManager,
    b: BatchManager,
    listed: Seq<DroppedPath>,
    inline: Seq<InlinePicture>,
    sizes: Seq<Option<(u32, u32)>>,
    auto_process: bool,
    new: NewItem,
    r: DropOutcome,
) -> bool {
    let paths = expanded(listed, listed.len() as int);
    &&& queued(paths, r.queue@)
    &&& r.notice == if paths.len() == 0 && empty_folder(listed, listed.len() as int) {
        Some(EMPTY_FOLDER)
    } else {
        None
    }
    &&& taken_in(a, b, inline, sizes, auto_process, new, r.taken)
}

/// Deals with what was dropped from elsewhere: paths with what lies in them, and
/// pictures in memory.
pub fn handle_drag_and_drop(
    batch: &mut BatchManager,
    listed: Vec<DroppedPath>,
    inline: Vec<InlinePicture>,
    auto_process: bool,
    new: &NewItem,
) -> (r: DropOutcome)
    requires
        old(batch).next_id + inline@.len() <= u64::MAX,
    ensures
        drop_handled(
            *old(batch),
            *final(batch),
            listed@,
            inline@,
            sizes_of(inline@),
            auto_process,
            *new,
            r,
        ),
{
    let (resolved, found_empty) = expand_dropped_paths(listed);
    let notice = if found_empty && resolved.len() == 0 {
        Some(EMPTY_FOLDER)
    } else {
        None
    };
    let queue = queue_files(resolved);
    let sizes = read_sizes(&inline);
    let taken = take_in(batch, inline, &sizes, auto_process, new);
    DropOutcome { queue, notice, taken }
}

/// A file from the queue: its path, its name and, where it is a picture, its size.
pub struct LoadedFile {
    pub path: String,
    pub name: String,
    pub size: Option<(u32, u32)>,
}

/// Pictures among the first `n` files from the queue, in order.
pub open spec fn loaded_pictures(files: Seq<LoadedFile>, n: int) -> Seq<Incoming>
    decreases n,
{
    if n <= 0 {
        Seq::empty()
    } else {
        match files[n - 1].size {
            Some(dims) => loaded_pictures(files, n - 1).push(
                Incoming {
                    source: ImageSource::Path(files[n - 1].path),
                    name: files[n - 1].name@,
                    dims,
                },
            ),
            None => loaded_pictures(files, n - 1),
        }
    }
}

/// Appends the pictures among files from the queue. What is viewed stays.
pub fn add_loaded_files(batch: &mut BatchManager, files: Vec<LoadedFile>, new: &NewItem)
    requires
        old(batch).next_id + files@.len() <= u64::MAX,
    ensures
        grown_by_all(
            *old(batch),
            *final(batch),
            loaded_pictures(files@, files@.len() as int),
            *new,
        ),
        final(batch).selected_index == old(batch).selected_index,
{
    let ghost all = files@;
    let mut rest = files;
    let n: usize = rest.len();
    let mut i: usize = 0;
    assert(batch.items@.take(batch.items@.len() as int) =~= batch.items@);
    while i < n
        invariant
            i <= n,
            n == all.len(),
            rest@ == all.skip(i as int),
            old(batch).next_id + n <= u64::MAX,
            loaded_pictures(all, i as int).len() <= i,
            batch.selected_index == old(batch).selected_index,
            grown_by_all(*old(batch), *batch, loaded_pictures(all, i as int), *new),
        decreases n - i,
    {
        let f = rest.remove(0);
        assert(f == all[i as int]);
        assert(all.skip(i as int).remove(0) =~= all.skip(i as int + 1));
        let ghost before = *batch;
        let ghost added = loaded_pictures(all, i as int);
        add_to_batch_path(batch, f.path, f.name, f.size, new);
        proof {
            if let Some(dims) = f.size {
                let q = Incoming { source: ImageSource::Path(f.path), name: f.name@, dims };
                grown_once_more(*old(batch), before, *batch, added, q, *new);
            }
        }
        i += 1;
    }
}

/// Files that are taken in within one frame.
pub const FILE_LOAD_DRAIN_PER_FRAME: usize = 5;

/// What is done after queued files came in. `count` files were taken from the
/// queue, `drained` says that it is empty, and `floor` is the id that the first of
/// them got or would have got. A file that came alone is viewed.
pub fn after_file_loads(
    batch: &mut BatchManager,
    count: usize,
    drained: bool,
    floor: u64,
    auto_process: bool,
) -> (r: Imported)
    ensures
        r.views_new == (count == 1 && drained && old(batch).items@.len() > 0),
        *final(batch) == (BatchManager {
            selected_index: if r.views_new {
                (old(batch).items@.len() - 1) as usize
            } else {
                old(batch).selected_index
            },
            ..*old(batch)
        }),
        r.process_from == if count > 0 && auto_process && old(batch).next_id > floor {
            Some(floor)
        } else {
            None
        },
{
    let mut views_new = false;
    if count == 1 && drained && batch.items.len() > 0 {
        batch.selected_index = batch.items.len() - 1;
        views_new = true;
    }
    let process_from = if count > 0 && auto_process && batch.next_id > floor {
        Some(floor)
    } else {
        None
    };
    Imported { views_new, process_from }
}

/// Ids of the items that came in since a given id.
pub open spec fn ids_from(s: Seq<BatchItem>, floor: u64, n: int) -> Seq<u64>
    decreases n,
{
    if n <= 0 {
        Seq::empty()
    } else if s[n - 1].id >= floor {
        ids_from(s, floor, n - 1).push(s[n - 1].id)
    } else {
        ids_from(s, floor, n - 1)
    }
}

/// Ids of the items that came in since a given id.
pub fn imported_ids(items: &Vec<BatchItem>, floor: u64) -> (r: Vec<u64>)
    ensures
        r@ == ids_from(items@, floor, items@.len() as int),
{
    let mut r: Vec<u64> = Vec::new();
    let mut i: usize = 0;
    while i < items.len()
        invariant
            i <= items@.len(),
            r@ == ids_from(items@, floor, i as int),
        decreases items@.len() - i,
    {
        if items[i].id >= floor {
            r.push(items[i].id);
        }
        i += 1;
    }
    r
}

/// Whether a text spells a word of small letters, each as it is or as a capital.
pub open spec fn spells(e: Seq<char>, word: Seq<char>) -> bool {
    &&& e.len() == word.len()
    &&& forall|i: int|
        0 <= i < e.len() ==> #[trigger] e[i] == word[i] || ('A' <= e[i] && e[i] <= 'Z' && e[i] as u32
            + 32 == word[i] as u32)
}

/// Whether a name ends in a dot and a word, in small letters or capitals, with something
/// before them.
pub open spec fn ends_in(name: Seq<char>, word: Seq<char>) -> bool {
    let n = name.len() - word.len();
    n >= 2 && name[n - 1] == '.' && spells(name.skip(n), word)
}

proof fn spelling_is_lowering(e: Seq<char>, word: Seq<char>)
    requires
        forall|i: int| 0 <= i < word.len() ==> 'a' <= #[trigger] word[i] && word[i] <= 'z',
    ensures
        spells(e, word) <==> lowered(e) == word,
        spells(e, word) ==> forall|i: int| 0 <= i < e.len() ==> e[i] != '.',
{
    if spells(e, word) {
        assert forall|i: int| 0 <= i < e.len() implies lowered(e)[i] == word[i] by {
            lowering_one(e[i], word[i]);
        }
        assert(lowered(e) =~= word);
    }
    if lowered(e) == word {
        assert(lowered(e).len() == e.len());
        assert forall|i: int| 0 <= i < e.len() implies #[trigger] e[i] == word[i] || ('A' <= e[i]
            && e[i] <= 'Z' && e[i] as u32 + 32 == word[i] as u32) by {
            assert(lowered(e)[i] == lower(e[i]));
            lowering_one(e[i], word[i]);
        }
    }
}

proof fn lowering_one(c: char, w: char)
    requires
        'a' <= w && w <= 'z',
    ensures
        lower(c) == w <==> c == w || ('A' <= c && c <= 'Z' && c as u32 + 32 == w as u32),
{
}

proof fn ending_is_extension(name: Seq<char>, word: Seq<char>)
    requires
        forall|i: int| 0 <= i < word.len() ==> 'a' <= #[trigger] word[i] && word[i] <= 'z',
    ensures
        ends_in(name, word) <==> (extension_of(name) matches Some(e) && lowered(e) == word),
{
    let n = name.len() - word.len();
    if ends_in(name, word) {
        let e = name.skip(n);
        spelling_is_lowering(e, word);
        let stem = name.take(n - 1);
        extensions_are_found(stem, e);
        assert(stem + seq!['.'] + e =~= name);
    }
    if let Some(e) = extension_of(name) {
        if lowered(e) == word {
            names_are_made_of_their_parts(name);
            spelling_is_lowering(e, word);
            assert(lowered(e).len() == e.len());
            assert(name.skip(n) =~= e);
        }
    }
}

/// A file is taken for a picture exactly where its name ends in one of six endings, in
/// small letters or capitals, and has something before the dot.
pub proof fn pictures_are_known_by_their_ending(dir: Seq<char>, name: Seq<char>)
    requires
        dir.len() == 0 || dir.last() == '/',
        name.len() > 0,
        forall|k: int| 0 <= k < name.len() ==> name[k] != '/',
        name != seq!['.'],
        name != seq!['.', '.'],
    ensures
        names_picture(dir + name) <==> {
            ||| ends_in(name, seq!['p', 'n', 'g'])
            ||| ends_in(name, seq!['j', 'p', 'g'])
            ||| ends_in(name, seq!['j', 'p', 'e', 'g'])
            ||| ends_in(name, seq!['w', 'e', 'b', 'p'])
            ||| ends_in(name, seq!['b', 'm', 'p'])
            ||| ends_in(name, seq!['s', 'v', 'g'])
        },
{
    names_are_found(dir, name);
    ending_is_extension(name, seq!['p', 'n', 'g']);
    reveal_strlit("png");
    assert("png"@ =~= seq!['p', 'n', 'g']);
    ending_is_extension(name, seq!['j', 'p', 'g']);
    reveal_strlit("jpg");
    assert("jpg"@ =~= seq!['j', 'p', 'g']);
    ending_is_extension(name, seq!['j', 'p', 'e', 'g']);
    reveal_strlit("jpeg");
    assert("jpeg"@ =~= seq!['j', 'p', 'e', 'g']);
    ending_is_extension(name, seq!['w', 'e', 'b', 'p']);
    reveal_strlit("webp");
    assert("webp"@ =~= seq!['w', 'e', 'b', 'p']);
    ending_is_extension(name, seq!['b', 'm', 'p']);
    reveal_strlit("bmp");
    assert("bmp"@ =~= seq!['b', 'm', 'p']);
    ending_is_extension(name, seq!['s', 'v', 'g']);
    reveal_strlit("svg");
    assert("svg"@ =~= seq!['s', 'v', 'g']);
}

/// A picture that lies in a dropped folder comes in, and so does every dropped file.
pub proof fn dropped_pictures_come_in(input: Seq<DroppedPath>, n: int, i: int)
    requires
        0 <= i < n <= input.len(),
    ensures
        match input[i] {
            DroppedPath::File(p) => expanded(input, n).contains(p),
            DroppedPath::Folder(files) => forall|j: int|
                0 <= j < files@.len() && names_picture(#[trigger] files@[j]@) ==> expanded(
                    input,
                    n,
                ).contains(files@[j]),
        },
    decreases n,
{
    let before = expanded(input, n - 1);
    let all = expanded(input, n);
    if i < n - 1 {
        dropped_pictures_come_in(input, n - 1, i);
        assert forall|p: String| before.contains(p) implies all.contains(p) by {
            let k = before.index_of(p);
            assert(all[k] == p);
        }
    } else {
        match input[i] {
            DroppedPath::File(p) => {
                assert(all[before.len() as int] == p);
            },
            DroppedPath::Folder(files) => {
                let found = pictures_among(files@, files@.len() as int);
                assert forall|j: int| 0 <= j < files@.len() && names_picture(
                    #[trigger] files@[j]@,
                ) implies all.contains(files@[j]) by {
                    every_picture_is_found(files@, files@.len() as int, j);
                    let k = found.index_of(files@[j]);
                    assert(all[before.len() + k] == files@[j]);
                }
            },
        }
    }
}

proof fn every_picture_is_found(files: Seq<String>, n: int, j: int)
    requires
        0 <= j < n <= files.len(),
        names_picture(files[j]@),
    ensures
        pictures_among(files, n).contains(files[j]),
    decreases n,
{
    let before = pictures_among(files, n - 1);
    let all = pictures_among(files, n);
    if j == n - 1 {
        assert(all[before.len() as int] == files[j]);
    } else {
        every_picture_is_found(files, n - 1, j);
        let k = before.index_of(files[j]);
        assert(all[k] == files[j]);
    }
}

/// Nothing comes in that was not dropped: every path is a dropped file, or a picture that
/// lies in a dropped folder.
pub proof fn only_dropped_files_come_in(input: Seq<DroppedPath>, n: int, p: String)
    requires
        0 <= n <= input.len(),
        expanded(input, n).contains(p),
    ensures
        exists|i: int|
            0 <= i < n && match #[trigger] input[i] {
                DroppedPath::File(q) => q == p,
                DroppedPath::Folder(files) => files@.contains(p) && names_picture(p@),
            },
    decreases n,
{
    if n > 0 {
        let before = expanded(input, n - 1);
        let k = expanded(input, n).index_of(p);
        if k < before.len() {
            assert(before[k] == p);
            only_dropped_files_come_in(input, n - 1, p);
        } else {
            match input[n - 1] {
                DroppedPath::File(q) => {},
                DroppedPath::Folder(files) => {
                    let found = pictures_among(files@, files@.len() as int);
                    assert(found[k - before.len()] == p);
                    found_pictures_lie_there(files@, files@.len() as int, k - before.len());
                },
            }
            let here = input[n - 1];
        }
    }
}

proof fn found_pictures_lie_there(files: Seq<String>, n: int, k: int)
    requires
        0 <= n <= files.len(),
        0 <= k < pictures_among(files, n).len(),
    ensures
        files.contains(pictures_among(files, n)[k]),
        names_picture(pictures_among(files, n)[k]@),
    decreases n,
{
    if n > 0 {
        let before = pictures_among(files, n - 1);
        if k < before.len() {
            found_pictures_lie_there(files, n - 1, k);
            assert(pictures_among(files, n)[k] == before[k]);
        } else {
            assert(pictures_among(files, n)[k] == files[n - 1]);
        }
    }
}

/// The user is told of a folder without pictures exactly where one of the dropped
/// folders gives nothing.
pub proof fn empty_folders_are_noticed(input: Seq<DroppedPath>, i: int, files: Vec<String>)
    requires
        0 <= i < input.len(),
        input[i] == DroppedPath::Folder(files),
        forall|j: int| 0 <= j < files@.len() ==> !names_picture(#[trigger] files@[j]@),
    ensures
        empty_folder(input, input.len() as int),
{
    let found = pictures_among(files@, files@.len() as int);
    if found.len() > 0 {
        found_pictures_lie_there(files@, files@.len() as int, 0);
        let j = files@.index_of(found[0]);
        assert(names_picture(files@[j]@));
    }
    let here = input[i];
}

/// Nothing that was dropped from elsewhere is lost: every path that is not one of the
/// window's own comes in, and so does every picture in memory.
pub proof fn foreign_drops_come_in(d: Seq<Dropped>, n: int, i: int)
    requires
        0 <= i < n <= d.len(),
    ensures
        d[i] matches Dropped::Path(p) ==> {
            &&& !own_file(p@) ==> foreign_paths(d, n).contains(p)
            &&& own_file(p@) ==> saw_own(d, n)
        },
        d[i] matches Dropped::Inline(bytes, name) ==> inline_pictures(d, n).contains(
            InlinePicture { bytes, name },
        ),
    decreases n,
{
    let a = foreign_paths(d, n - 1);
    let b = inline_pictures(d, n - 1);
    if i < n - 1 {
        foreign_drops_come_in(d, n - 1, i);
        match d[i] {
            Dropped::Path(p) => {
                if a.contains(p) {
                    let k = a.index_of(p);
                    assert(foreign_paths(d, n)[k] == p);
                }
            },
            Dropped::Inline(bytes, name) => {
                let p = InlinePicture { bytes, name };
                let k = b.index_of(p);
                assert(inline_pictures(d, n)[k] == p);
            },
            Dropped::Nothing => {},
        }
    } else {
        match d[i] {
            Dropped::Path(p) => {
                if !own_file(p@) {
                    assert(foreign_paths(d, n)[a.len() as int] == p);
                }
            },
            Dropped::Inline(bytes, name) => {
                assert(inline_pictures(d, n)[b.len() as int] == (InlinePicture { bytes, name }));
            },
            Dropped::Nothing => {},
        }
    }
}

/// Every picture in memory with a size comes in, with its own bytes, name and size, and
/// nothing else does.
pub proof fn sized_pictures_come_in(
    items: Seq<InlinePicture>,
    sizes: Seq<Option<(u32, u32)>>,
    n: int,
    i: int,
)
    requires
        0 <= i < n <= items.len(),
        sizes.len() == items.len(),
    ensures
        sizes[i] matches Some(dims) ==> exists|k: int|
            0 <= k < accepted(items, sizes, n).len() && {
                let p = #[trigger] accepted(items, sizes, n)[k];
                p.dims == dims && p.name == items[i].name@ && p.source == ImageSource::Bytes(
                    Arc::new(items[i].bytes),
                )
            },
        accepted(items, sizes, n).len() <= n,
        accepted(items, sizes, n).len() == n ==> sizes[i] is Some,
    decreases n,
{
    let before = accepted(items, sizes, n - 1);
    let all = accepted(items, sizes, n);
    if i < n - 1 {
        sized_pictures_come_in(items, sizes, n - 1, i);
        if let Some(dims) = sizes[i] {
            let k = choose|k: int|
                0 <= k < before.len() && {
                    let p = #[trigger] before[k];
                    p.dims == dims && p.name == items[i].name@ && p.source == ImageSource::Bytes(
                        Arc::new(items[i].bytes),
                    )
                };
            assert(all[k] == before[k]);
        }
    } else {
        if n > 1 {
            sized_pictures_come_in(items, sizes, n - 1, 0);
        }
        if let Some(dims) = sizes[i] {
            assert(all[before.len() as int].dims == dims);
        }
    }
}

/// What comes in is processed, where that is asked for, and nothing else: the items from
/// the first new id on are exactly the new ones.
pub proof fn new_items_are_processed(
    a: BatchManager,
    b: BatchManager,
    added: Seq<Incoming>,
    new: NewItem,
    i: int,
)
    requires
        a.ids_unique(),
        grown_by_all(a, b, added, new),
        0 <= i < b.items@.len(),
    ensures
        b.items@[i].id >= a.next_id <==> i >= a.items@.len(),
        b.ids_unique(),
        i >= a.items@.len() ==> {
            let p = added[i - a.items@.len()];
            &&& b.items@[i].source == p.source
            &&& b.items@[i].dimensions == p.dims
            &&& b.items@[i].filename@ == p.name
            &&& b.items@[i].settings == new.settings
            &&& b.items@[i].status is Pending
            &&& b.items@[i].applied_recipe is None
        },
{
    let n = a.items@.len() as int;
    assert forall|j: int| 0 <= j < b.items@.len() implies (#[trigger] b.items@[j]).id == if j < n {
        a.items@[j].id
    } else {
        (a.next_id + (j - n)) as u64
    } by {
        if j < n {
            assert(b.items@.take(n)[j] == b.items@[j]);
        } else {
            assert(b.items@[n + (j - n)] == b.items@[j]);
        }
    }
    if i >= n {
        assert(new_item_for(b.items@[n + (i - n)], (a.next_id + (i - n)) as u64, added[i - n], new));
    } else {
        assert(b.items@[i].id == a.items@[i].id);
    }
}

/// The ids that are processed after an import are those from the first new one on.
pub proof fn ids_from_the_first_new_one(s: Seq<BatchItem>, floor: u64, n: int, i: int)
    requires
        0 <= i < n <= s.len(),
    ensures
        s[i].id >= floor ==> ids_from(s, floor, n).contains(s[i].id),
        forall|k: int| 0 <= k < ids_from(s, floor, n).len() ==> #[trigger] ids_from(s, floor, n)[k]
            >= floor,
    decreases n,
{
    let before = ids_from(s, floor, n - 1);
    let all = ids_from(s, floor, n);
    if n > 1 {
        ids_from_the_first_new_one(s, floor, n - 1, if i < n - 1 { i } else { 0 });
    }
    assert forall|k: int| 0 <= k < all.len() implies #[trigger] all[k] >= floor by {
        if k < before.len() {
            assert(all[k] == before[k]);
        }
    }
    if s[i].id >= floor {
        if i < n - 1 {
            let k = before.index_of(s[i].id);
            assert(all[k] == s[i].id);
        } else {
            assert(all[before.len() as int] == s[i].id);
        }
    }
}

/// Every file from the queue whose size was read comes in, with its path and its name;
/// no other comes in.
pub proof fn sized_files_come_in(files: Seq<LoadedFile>, n: int, i: int)
    requires
        0 <= i < n <= files.len(),
    ensures
        files[i].size matches Some(dims) ==> exists|k: int|
            0 <= k < loaded_pictures(files, n).len() && {
                let p = #[trigger] loaded_pictures(files, n)[k];
                p.dims == dims && p.name == files[i].name@ && p.source == ImageSource::Path(
                    files[i].path,
                )
            },
        loaded_pictures(files, n).len() <= n,
        loaded_pictures(files, n).len() == n ==> files[i].size is Some,
    decreases n,
{
    let before = loaded_pictures(files, n - 1);
    let all = loaded_pictures(files, n);
    if i < n - 1 {
        sized_files_come_in(files, n - 1, i);
        if let Some(dims) = files[i].size {
            let k = choose|k: int|
                0 <= k < before.len() && {
                    let p = #[trigger] before[k];
                    p.dims == dims && p.name == files[i].name@ && p.source == ImageSource::Path(
                        files[i].path,
                    )
                };
            assert(all[k] == before[k]);
        }
    } else {
        if n > 1 {
            sized_files_come_in(files, n - 1, n - 2);
        } else {
            assert(before.len() == 0);
        }
        if files[i].size is Some {
            let p = all[all.len() - 1];
            assert(p.name == files[i].name@);
        }
    }
}

/// Files are queued in order, each with its path and under its own name.
pub proof fn files_are_queued_under_their_names(paths: Seq<String>, q: Seq<QueuedFile>, i: int)
    requires
        queued(paths, q),
        0 <= i < paths.len(),
    ensures
        q.len() == paths.len(),
        q[i].path == paths[i],
        file_name(paths[i]@) matches Some(name) ==> q[i].name@ == name,
        file_name(paths[i]@) is None ==> q[i].name@ == "untitled"@,
{
    assert(q[i].path == paths[i]);
}

/// A lone picture dropped on an empty window is opened, and every other drop is
/// appended; a drop of none, or of one that is no picture, changes nothing.
pub proof fn lone_drops_are_opened(
    a: BatchManager,
    b: BatchManager,
    inline: Seq<InlinePicture>,
    sizes: Seq<Option<(u32, u32)>>,
    auto_process: bool,
    new: NewItem,
    r: TakenIn,
)
    requires
        taken_in(a, b, inline, sizes, auto_process, new, r),
    ensures
        r is Nothing <==> inline.len() == 0,
        inline.len() == 0 ==> b == a,
        r is Opened ==> inline.len() == 1 && a.items@.len() == 0 && sizes[0] is Some
            && b.items@.len() == 1 && b.selected_index == 0,
        r is Refused ==> b == a && sizes[0] is None,
        inline.len() == 1 && a.items@.len() == 0 && sizes[0] is Some ==> r is Opened,
        inline.len() > 1 || inline.len() == 1 && a.items@.len() > 0 ==> r is Appended,
{
}

/// A drop is known as one of the window's own by any file in it that was dragged out of
/// the window.
pub proof fn own_drops_are_noticed(d: Seq<Dropped>, n: int)
    requires
        0 <= n <= d.len(),
    ensures
        saw_own(d, n) <==> exists|k: int|
            0 <= k < n && (#[trigger] d[k]) is Path && own_file(d[k]->Path_0@),
    decreases n,
{
    if n > 0 {
        own_drops_are_noticed(d, n - 1);
        if saw_own(d, n - 1) {
            let k = choose|k: int|
                0 <= k < n - 1 && (#[trigger] d[k]) is Path && own_file(d[k]->Path_0@);
            assert(d[k] is Path);
        }
        if d[n - 1] is Path && own_file(d[n - 1]->Path_0@) {
            assert(d[n - 1] is Path);
        }
    }
}

} // verus!
