//! The blob and file data API's byte-buffer store: identifier allocation,
//! concatenation of parts, property access, text decoding and slicing with
//! the full negative-index clamping rules.
//!
//! The guest-visible classes live in the engine; they call down into a store
//! of plain byte buffers keyed by identifier, which is what this module
//! models and verifies.

use vstd::prelude::*;

verus! {

/// One stored byte buffer with its MIME type.
pub struct BlobData {
    pub data: Vec<u8>,
    pub mime_type: String,
}

/// Options accepted when constructing a blob.
pub struct BlobOptions {
    pub mime_type: String,
    /// `transparent` or `native`; anything else is ignored.
    pub endings: String,
}

/// Options accepted when constructing a file.
pub struct FileOptions {
    pub mime_type: String,
    pub endings: String,
    pub last_modified: Option<u64>,
}

/// A property read from a blob.
pub enum BlobProperty {
    Size(usize),
    Type(String),
}

/// Rejecting a blob access.
#[derive(Debug)]
pub enum BlobError {
    /// The property name is not `size` or `type`.
    UnknownProperty(String),
    /// No blob is stored under this identifier.
    InvalidBlobId(u32),
}

/// All parts of a blob joined in order.
pub open spec fn flatten_parts(parts: Seq<Vec<u8>>) -> Seq<u8>
    decreases parts.len(),
{
    if parts.len() == 0 {
        Seq::empty()
    } else {
        flatten_parts(parts.drop_last()) + parts.last()@
    }
}

/// The first blob stored under `id`, if any.
pub open spec fn blob_lookup(entries: Seq<(u32, BlobData)>, id: u32) -> Option<BlobData>
    decreases entries.len(),
{
    if entries.len() == 0 {
        None
    } else if entries[0].0 == id {
        Some(entries[0].1)
    } else {
        blob_lookup(entries.drop_first(), id)
    }
}

/// Where a slice starts: a negative index counts back from the end, both
/// directions clamped to the buffer.
pub open spec fn slice_start(len: int, start: Option<i64>) -> int {
    match start {
        Some(s) => {
            if s < 0 {
                if len + s >= 0 {
                    len + s
                } else {
                    0
                }
            } else {
                if s <= len {
                    s as int
                } else {
                    len
                }
            }
        },
        None => 0,
    }
}

/// Where a slice ends before clamping to the start.
pub open spec fn slice_end_raw(len: int, end: Option<i64>) -> int {
    match end {
        Some(e) => {
            if e < 0 {
                if len + e >= 0 {
                    len + e
                } else {
                    0
                }
            } else {
                if e <= len {
                    e as int
                } else {
                    len
                }
            }
        },
        None => len,
    }
}

/// Where a slice ends: never before its start.
pub open spec fn slice_end(len: int, start: Option<i64>, end: Option<i64>) -> int {
    if slice_end_raw(len, end) >= slice_start(len, start) {
        slice_end_raw(len, end)
    } else {
        slice_start(len, start)
    }
}

/// What a character decoding of arbitrary bytes yields.
pub uninterp spec fn lossy_utf8(bytes: Seq<u8>) -> Seq<char>;

/// Decode bytes as UTF-8, replacing invalid sequences.
///
/// Relies on `String::from_utf8_lossy`: the result depends on the bytes
/// alone.
#[verifier::external_body]
fn utf8_lossy(bytes: &Vec<u8>) -> (r: String)
    ensures
        r@ == lossy_utf8(bytes@),
{
    String::from_utf8_lossy(bytes.as_slice()).into_owned()
}

/// Append the bytes of `src` to `dst`.
fn append_bytes(dst: &mut Vec<u8>, src: &Vec<u8>)
    ensures
        final(dst)@ == old(dst)@ + src@,
{
    let ghost d0 = dst@;
    let mut i: usize = 0;
    while i < src.len()
        invariant
            i <= src@.len(),
            dst@ == d0 + src@.take(i as int),
        decreases src@.len() - i,
    {
        dst.push(src[i]);
        proof {
            assert(dst@ =~= d0 + src@.take(i as int + 1));
        }
        i = i + 1;
    }
    proof {
        assert(src@.take(i as int) =~= src@);
    }
}

/// A copy of the bytes of `src`.
fn copy_bytes(src: &Vec<u8>) -> (r: Vec<u8>)
    ensures
        r@ == src@,
{
    let mut r: Vec<u8> = Vec::new();
    append_bytes(&mut r, src);
    proof {
        assert(Seq::<u8>::empty() + src@ =~= src@);
    }
    r
}

/// The reference-counted byte-buffer store behind the blob and file API,
/// with its identifier allocator.
pub struct BlobStore {
    entries: Vec<(u32, BlobData)>,
    next_blob_id: u32,
}

impl View for BlobStore {
    type V = Seq<(u32, BlobData)>;

    closed spec fn view(&self) -> Seq<(u32, BlobData)> {
        self.entries@
    }
}

impl BlobStore {
    /// The next identifier the allocator would hand out.
    pub closed spec fn next_id(&self) -> u32 {
        self.next_blob_id
    }

    /// Store invariant: identifiers are positive, unique and below the
    /// allocator counter.
    pub open spec fn wf(&self) -> bool {
        &&& self.next_id() >= 1
        &&& forall|i: int|
            0 <= i < self@.len() ==> 1 <= (#[trigger] self@[i].0) < self.next_id()
        &&& forall|i: int, j: int|
            #![trigger self@[i], self@[j]]
            0 <= i < j < self@.len() ==> self@[i].0 != self@[j].0
    }

    pub fn new() -> (store: BlobStore)
        ensures
            store.wf(),
            store@ == Seq::<(u32, BlobData)>::empty(),
            store.next_id() == 1,
    {
        BlobStore { entries: Vec::new(), next_blob_id: 1 }
    }

    /// Allocate a fresh blob identifier.
    pub fn get_next_blob_id(&mut self) -> (id: u32)
        requires
            old(self).next_id() < u32::MAX,
        ensures
            id == old(self).next_id(),
            final(self).next_id() == old(self).next_id() + 1,
            final(self)@ == old(self)@,
    {
        let id = self.next_blob_id;
        self.next_blob_id = self.next_blob_id + 1;
        id
    }

    /// Index of the entry stored under `id`, if any.
    fn find_index(&self, blob_id: u32) -> (r: Option<usize>)
        ensures
            r matches Some(ix) ==> ix < self@.len() && self@[ix as int].0 == blob_id
                && blob_lookup(self@, blob_id) == Some(self@[ix as int].1),
            r is None ==> blob_lookup(self@, blob_id) is None,
    {
        let ghost s = self@;
        let mut i: usize = 0;
        proof {
            assert(s.skip(0) =~= s);
        }
        while i < self.entries.len()
            invariant
                i <= s.len(),
                s == self@,
                blob_lookup(s, blob_id) == blob_lookup(s.skip(i as int), blob_id),
            decreases s.len() - i,
        {
            proof {
                assert(s.skip(i as int)[0] == s[i as int]);
                assert(s.skip(i as int).drop_first() =~= s.skip(i as int + 1));
            }
            if self.entries[i].0 == blob_id {
                return Some(i);
            }
            i = i + 1;
        }
        proof {
            assert(s.skip(i as int) =~= Seq::<(u32, BlobData)>::empty());
        }
        None
    }

    /// Store a buffer under a fresh identifier.
    fn store_data(&mut self, data: Vec<u8>, mime_type: String) -> (id: u32)
        requires
            old(self).wf(),
            old(self).next_id() < u32::MAX,
        ensures
            final(self).wf(),
            id == old(self).next_id(),
            final(self).next_id() == old(self).next_id() + 1,
            final(self)@ == old(self)@.push((id, BlobData { data, mime_type })),
    {
        let id = self.get_next_blob_id();
        self.entries.push((id, BlobData { data, mime_type }));
        id
    }

    /// Create a blob from its parts: the parts joined in order, under the
    /// given MIME type.  Returns the fresh identifier.
    pub fn blob_create(&mut self, parts: Vec<Vec<u8>>, options: BlobOptions) -> (id: u32)
        requires
            old(self).wf(),
            old(self).next_id() < u32::MAX,
        ensures
            final(self).wf(),
            id == old(self).next_id(),
            final(self).next_id() == old(self).next_id() + 1,
            final(self)@.len() == old(self)@.len() + 1,
            final(self)@.drop_last() == old(self)@,
            final(self)@.last().0 == id,
            final(self)@.last().1.data@ == flatten_parts(parts@),
            final(self)@.last().1.mime_type == options.mime_type,
    {
        let data = concat_parts(&parts);
        let id = self.store_data(data, options.mime_type);
        proof {
            assert(final(self)@.drop_last() =~= old(self)@);
        }
        id
    }

    /// Create a file: a blob whose name and timestamp the guest-side class
    /// keeps; the store holds the joined bytes and MIME type.
    pub fn file_create(&mut self, file_bits: Vec<Vec<u8>>, _file_name: String, options: FileOptions)
        -> (id: u32)
        requires
            old(self).wf(),
            old(self).next_id() < u32::MAX,
        ensures
            final(self).wf(),
            id == old(self).next_id(),
            final(self).next_id() == old(self).next_id() + 1,
            final(self)@.len() == old(self)@.len() + 1,
            final(self)@.drop_last() == old(self)@,
            final(self)@.last().0 == id,
            final(self)@.last().1.data@ == flatten_parts(file_bits@),
            final(self)@.last().1.mime_type == options.mime_type,
    {
        let data = concat_parts(&file_bits);
        let id = self.store_data(data, options.mime_type);
        proof {
            assert(final(self)@.drop_last() =~= old(self)@);
        }
        id
    }

    /// Read the `size` or `type` property of a stored blob.
    pub fn blob_get_property(&self, blob_id: u32, property: &str) -> (r: Result<
        BlobProperty,
        BlobError,
    >)
        ensures
            ({
                match blob_lookup(self@, blob_id) {
                    None => r matches Err(BlobError::InvalidBlobId(i)) && i == blob_id,
                    Some(d) => {
                        if property@ == "size"@ {
                            r matches Ok(BlobProperty::Size(n)) && n == d.data@.len()
                        } else if property@ == "type"@ {
                            r matches Ok(BlobProperty::Type(t)) && t == d.mime_type
                        } else {
                            r matches Err(BlobError::UnknownProperty(p)) && p@ == property@
                        }
                    },
                }
            }),
    {
        match self.find_index(blob_id) {
            Some(ix) => {
                if crate::text::str_eq(property, "size") {
                    Ok(BlobProperty::Size(self.entries[ix].1.data.len()))
                } else if crate::text::str_eq(property, "type") {
                    Ok(BlobProperty::Type(self.entries[ix].1.mime_type.clone()))
                } else {
                    Err(BlobError::UnknownProperty(property.to_owned()))
                }
            },
            None => Err(BlobError::InvalidBlobId(blob_id)),
        }
    }

    /// The stored bytes, for the guest's `arrayBuffer()`; an unknown
    /// identifier reads as empty.
    pub fn blob_array_buffer(&self, blob_id: u32) -> (r: Vec<u8>)
        ensures
            r@ == (match blob_lookup(self@, blob_id) {
                Some(d) => d.data@,
                None => Seq::<u8>::empty(),
            }),
    {
        match self.find_index(blob_id) {
            Some(ix) => copy_bytes(&self.entries[ix].1.data),
            None => Vec::new(),
        }
    }

    /// The stored bytes, for the guest's `bytes()`; an unknown identifier
    /// reads as empty.
    pub fn blob_bytes(&self, blob_id: u32) -> (r: Vec<u8>)
        ensures
            r@ == (match blob_lookup(self@, blob_id) {
                Some(d) => d.data@,
                None => Seq::<u8>::empty(),
            }),
    {
        match self.find_index(blob_id) {
            Some(ix) => copy_bytes(&self.entries[ix].1.data),
            None => Vec::new(),
        }
    }

    /// The stored bytes decoded as text, invalid sequences replaced; an
    /// unknown identifier reads as the empty string.
    pub fn blob_text(&self, blob_id: u32) -> (r: String)
        ensures
            r@ == (match blob_lookup(self@, blob_id) {
                Some(d) => lossy_utf8(d.data@),
                None => Seq::<char>::empty(),
            }),
    {
        match self.find_index(blob_id) {
            Some(ix) => utf8_lossy(&self.entries[ix].1.data),
            None => {
                let r = String::new();
                r
            },
        }
    }

    /// Slice a stored blob into a fresh one and return the new identifier.
    ///
    /// Negative indices count back from the end; both ends are clamped to
    /// the buffer and the end never precedes the start.  The new blob
    /// carries the given content type, or an empty one.  An unknown
    /// identifier yields a fresh empty blob.
    pub fn blob_slice(
        &mut self,
        blob_id: u32,
        start: Option<i64>,
        end: Option<i64>,
        content_type: Option<String>,
    ) -> (id: u32)
        requires
            old(self).wf(),
            old(self).next_id() < u32::MAX,
        ensures
            final(self).wf(),
            id == old(self).next_id(),
            final(self).next_id() == old(self).next_id() + 1,
            final(self)@.len() == old(self)@.len() + 1,
            final(self)@.drop_last() == old(self)@,
            final(self)@.last().0 == id,
            final(self)@.last().1.data@ == (match blob_lookup(old(self)@, blob_id) {
                Some(d) => d.data@.subrange(
                    slice_start(d.data@.len() as int, start),
                    slice_end(d.data@.len() as int, start, end),
                ),
                None => Seq::<u8>::empty(),
            }),
            final(self)@.last().1.mime_type@ == (match blob_lookup(old(self)@, blob_id) {
                Some(d) => (match content_type {
                    Some(t) => t@,
                    None => Seq::<char>::empty(),
                }),
                None => Seq::<char>::empty(),
            }),
    {
        let found = self.find_index(blob_id);
        let (sliced, mime) = match found {
            Some(ix) => {
                let buf = &self.entries[ix].1.data;
                let len = buf.len();
                let actual_start = clamp_index(len, start, 0);
                let actual_end_raw = clamp_index(len, end, len);
                let actual_end = if actual_end_raw >= actual_start {
                    actual_end_raw
                } else {
                    actual_start
                };
                let mut out: Vec<u8> = Vec::new();
                let mut i: usize = actual_start;
                while i < actual_end
                    invariant
                        actual_start <= i <= actual_end <= buf@.len(),
                        out@ == buf@.subrange(actual_start as int, i as int),
                    decreases actual_end - i,
                {
                    out.push(buf[i]);
                    proof {
                        assert(out@ =~= buf@.subrange(actual_start as int, i as int + 1));
                    }
                    i = i + 1;
                }
                let mime = match content_type {
                    Some(t) => t,
                    None => String::new(),
                };
                (out, mime)
            },
            None => {
                let empty: Vec<u8> = Vec::new();
                (empty, String::new())
            },
        };
        let id = self.store_data(sliced, mime);
        proof {
            assert(final(self)@.drop_last() =~= old(self)@);
        }
        id
    }

    /// True iff a blob is stored under `blob_id`.
    pub fn has_blob(&self, blob_id: u32) -> (r: bool)
        ensures
            r == (blob_lookup(self@, blob_id) is Some),
    {
        self.find_index(blob_id).is_some()
    }
}

/// Clamp an optional signed index into `0 ..= len`, counting negative
/// values back from the end; `default` stands in for an absent index.
fn clamp_index(len: usize, index: Option<i64>, default: usize) -> (r: usize)
    requires
        default <= len,
    ensures
        r <= len,
        r as int == (match index {
            Some(_) => slice_start(len as int, index),
            None => default as int,
        }),
{
    match index {
        Some(v) => {
            if v < 0 {
                let magnitude: u64 = if v == i64::MIN {
                    9223372036854775808u64
                } else {
                    (-v) as u64
                };
                if magnitude >= len as u64 {
                    0
                } else {
                    len - (magnitude as usize)
                }
            } else {
                if (v as u64) <= (len as u64) {
                    v as usize
                } else {
                    len
                }
            }
        },
        None => default,
    }
}

/// Join blob parts in order.
fn concat_parts(parts: &Vec<Vec<u8>>) -> (r: Vec<u8>)
    ensures
        r@ == flatten_parts(parts@),
{
    let mut data: Vec<u8> = Vec::new();
    let mut i: usize = 0;
    while i < parts.len()
        invariant
            i <= parts@.len(),
            data@ == flatten_parts(parts@.take(i as int)),
        decreases parts@.len() - i,
    {
        append_bytes(&mut data, &parts[i]);
        proof {
            assert(parts@.take(i as int + 1).drop_last() =~= parts@.take(i as int));
            assert(parts@.take(i as int + 1).last() == parts@[i as int]);
        }
        i = i + 1;
    }
    proof {
        assert(parts@.take(i as int) =~= parts@);
    }
    data
}

/// Parse blob construction options from their plain values: the MIME type
/// as given, and the line-endings mode only when it is `native` or
/// `transparent`.
pub fn parse_blob_options(mime_type: Option<String>, endings: Option<String>) -> (r: BlobOptions)
    ensures
        r.mime_type@ == (match mime_type {
            Some(t) => t@,
            None => Seq::<char>::empty(),
        }),
        r.endings@ == (match endings {
            Some(e) => {
                if e@ == "native"@ || e@ == "transparent"@ {
                    e@
                } else {
                    Seq::<char>::empty()
                }
            },
            None => Seq::<char>::empty(),
        }),
{
    let mime = match mime_type {
        Some(t) => t,
        None => String::new(),
    };
    let endings_value = match endings {
        Some(e) => {
            if crate::text::str_eq(e.as_str(), "native") || crate::text::str_eq(
                e.as_str(),
                "transparent",
            ) {
                e
            } else {
                String::new()
            }
        },
        None => String::new(),
    };
    BlobOptions { mime_type: mime, endings: endings_value }
}

/// Parse file construction options from their plain values: as for a blob,
/// plus the last-modified timestamp when given.
pub fn parse_file_options(
    mime_type: Option<String>,
    endings: Option<String>,
    last_modified: Option<u64>,
) -> (r: FileOptions)
    ensures
        r.mime_type@ == (match mime_type {
            Some(t) => t@,
            None => Seq::<char>::empty(),
        }),
        r.endings@ == (match endings {
            Some(e) => {
                if e@ == "native"@ || e@ == "transparent"@ {
                    e@
                } else {
                    Seq::<char>::empty()
                }
            },
            None => Seq::<char>::empty(),
        }),
        r.last_modified == last_modified,
{
    let blob_options = parse_blob_options(mime_type, endings);
    FileOptions {
        mime_type: blob_options.mime_type,
        endings: blob_options.endings,
        last_modified,
    }
}

/// The names of the helper functions the blob API binds into the guest's
/// global scope, in registration order; the guest-side classes are defined
/// on top of them by engine-evaluated source.
pub fn register() -> (names: Vec<String>)
    ensures
        names@.len() == 7,
        names@[0]@ == "__javy_blob_create"@,
        names@[1]@ == "__javy_blob_get_property"@,
        names@[2]@ == "__javy_blob_array_buffer"@,
        names@[3]@ == "__javy_blob_bytes"@,
        names@[4]@ == "__javy_blob_text"@,
        names@[5]@ == "__javy_blob_slice"@,
        names@[6]@ == "__javy_file_create"@,
{
    let mut names: Vec<String> = Vec::new();
    names.push(String::from_str("__javy_blob_create"));
    names.push(String::from_str("__javy_blob_get_property"));
    names.push(String::from_str("__javy_blob_array_buffer"));
    names.push(String::from_str("__javy_blob_bytes"));
    names.push(String::from_str("__javy_blob_text"));
    names.push(String::from_str("__javy_blob_slice"));
    names.push(String::from_str("__javy_file_create"));
    names
}

} // verus!
