//! The archive codec: a set of named byte entries packed into one
//! zip-compatible archive held in memory, and unpacked back out of one,
//! with every entry name neutralized against path escapes.

use vstd::prelude::*;

verus! {

use std::io::Cursor;
use crate::error::PkgError;
use crate::paths::{
    seq_views,
    spec_split,
    spec_join,
    spec_sanitize,
    component_ok,
    ok_component_pred,
    sanitize_path,
};
use vstd::string::StrSliceExecFns;

#[verifier::external_type_specification]
#[verifier::external_body]
#[verifier::reject_recursive_types(T)]
pub struct ExCursor<T>(Cursor<T>);

/// Holds the zip crate's archive writer over an in-memory cursor.  The
/// writer's type cannot be declared to the verifier (its type parameter
/// is bounded by I/O traits), so it is kept opaque behind this struct.
#[verifier::external_body]
pub struct PackWriter {
    inner: zip::ZipWriter<Cursor<Vec<u8>>>,
}

#[verifier::external_type_specification]
#[verifier::external_body]
#[verifier::reject_recursive_types(R)]
pub struct ExZipArchive<R>(zip::ZipArchive<R>);

/// The entries a writer has accepted so far: name and raw bytes, in order.
pub uninterp spec fn zip_writer_entries(w: PackWriter) -> Seq<(Seq<char>, Seq<u8>)>;

/// The entries that reading an archive's bytes yields: reading a zip
/// archive is a pure function of its bytes.
pub uninterp spec fn zip_entries_of(bytes: Seq<u8>) -> Seq<(Seq<char>, Seq<u8>)>;

/// Whether these bytes form an archive that the zip crate opens and reads
/// back entry by entry without error; true of everything it wrote itself.
pub uninterp spec fn zip_readable(bytes: Seq<u8>) -> bool;

/// The entries of an opened archive, in index order.
pub uninterp spec fn zip_archive_entries(a: zip::ZipArchive<Cursor<Vec<u8>>>) -> Seq<
    (Seq<char>, Seq<u8>),
>;

/// Whether every entry of an opened archive reads back without error;
/// true of archives opened from bytes the zip crate wrote.
pub uninterp spec fn zip_archive_readable(a: zip::ZipArchive<Cursor<Vec<u8>>>) -> bool;

/// Relies on zip::ZipWriter::new over an in-memory cursor: a fresh writer
/// holds no entries.
#[verifier::external_body]
fn zip_writer_new() -> (w: PackWriter)
    ensures
        zip_writer_entries(w) == Seq::<(Seq<char>, Seq<u8>)>::empty(),
{
    PackWriter { inner: zip::ZipWriter::new(Cursor::new(Vec::new())) }
}

/// One archive entry within the zip crate's hard limits for the options
/// the packer uses: the stored name fits the format's 16-bit name-length
/// field, and the data stays under the 4 GiB boundary of non-zip64
/// archives, with room to spare for the worst case of compression.
pub open spec fn entry_fits(name: Seq<char>, data: Seq<u8>) -> bool {
    &&& vstd::utf8::encode_utf8(name).len() <= 0xFFFF
    &&& data.len() <= 0xFFF0_0000
}

/// An entry list the zip crate is known to accept whole: the names are
/// pairwise distinct and every entry is within the format's limits.
pub open spec fn entries_packable(es: Seq<(Seq<char>, Seq<u8>)>) -> bool {
    &&& forall|i: int, j: int| 0 <= i < j < es.len() ==> (#[trigger] es[i]).0 != (#[trigger] es[j]).0
    &&& forall|i: int| 0 <= i < es.len() ==> entry_fits((#[trigger] es[i]).0, es[i].1)
}

/// Packability carries over to every prefix of an entry list.
proof fn lemma_packable_take(es: Seq<(Seq<char>, Seq<u8>)>, k: int)
    requires
        entries_packable(es),
        0 <= k <= es.len(),
    ensures
        entries_packable(es.take(k)),
{
    assert forall|i: int, j: int| 0 <= i < j < es.take(k).len() implies (#[trigger] es.take(
        k,
    )[i]).0 != (#[trigger] es.take(k)[j]).0 by {
        assert(es.take(k)[i] == es[i] && es.take(k)[j] == es[j]);
    }
    assert forall|i: int| 0 <= i < es.take(k).len() implies entry_fits(
        (#[trigger] es.take(k)[i]).0,
        es.take(k)[i].1,
    ) by {
        assert(es.take(k)[i] == es[i]);
    }
}

/// Relies on zip::ZipWriter::start_file and Write::write_all: on success
/// the archive gains exactly one entry, with this name and these bytes,
/// stored with the executable permission the packer grants every entry.
/// With these options and an in-memory cursor the only failures are a
/// name already in the archive, a name over the 16-bit length field, and
/// data at the non-zip64 size boundary, so the call succeeds whenever
/// the entries written so far together with this one are packable.
#[verifier::external_body]
fn zip_writer_add(w: &mut PackWriter, name: &str, data: &Vec<u8>) -> (r: Result<(), String>)
    ensures
        r is Ok ==> zip_writer_entries(*final(w)) == zip_writer_entries(*old(w)).push(
            (name@, data@),
        ),
        entries_packable(zip_writer_entries(*old(w)).push((name@, data@))) ==> r is Ok,
{
    let opts = zip::write::SimpleFileOptions::DEFAULT.compression_method(
        zip::CompressionMethod::Deflated,
    ).unix_permissions(0o755);
    if let Err(e) = w.inner.start_file(name, opts) {
        return Err(e.to_string());
    }
    if let Err(e) = std::io::Write::write_all(&mut w.inner, data.as_slice()) {
        return Err(e.to_string());
    }
    Ok(())
}

/// Relies on zip::ZipWriter::finish and Cursor::into_inner: the finished
/// bytes read back as exactly the entries written, and the zip crate can
/// open and read what it wrote.  Writing the central directory to an
/// in-memory cursor cannot fail, and every size or offset beyond the
/// 32-bit fields is written in zip64 form, so finishing succeeds
/// whenever the accepted entries are packable.
#[verifier::external_body]
fn zip_writer_finish(w: PackWriter) -> (r: Result<Vec<u8>, String>)
    ensures
        r matches Ok(b) ==> zip_entries_of(b@) == zip_writer_entries(w) && zip_readable(b@),
        entries_packable(zip_writer_entries(w)) ==> r is Ok,
{
    match w.inner.finish() {
        Ok(c) => Ok(c.into_inner()),
        Err(e) => Err(e.to_string()),
    }
}

/// Relies on zip::ZipArchive::new: opening succeeds on bytes the zip
/// crate wrote, and an opened archive's entries are those of its bytes.
#[verifier::external_body]
fn zip_archive_open(bytes: &Vec<u8>) -> (r: Result<zip::ZipArchive<Cursor<Vec<u8>>>, String>)
    ensures
        zip_readable(bytes@) ==> r is Ok,
        r matches Ok(a) ==> zip_archive_entries(a) == zip_entries_of(bytes@) && (zip_readable(
            bytes@,
        ) ==> zip_archive_readable(a)),
{
    match zip::ZipArchive::new(Cursor::new(bytes.clone())) {
        Ok(a) => Ok(a),
        Err(e) => Err(e.to_string()),
    }
}

/// Relies on zip::ZipArchive::len: the number of entries.
#[verifier::external_body]
fn zip_archive_len(a: &zip::ZipArchive<Cursor<Vec<u8>>>) -> (n: usize)
    ensures
        n == zip_archive_entries(*a).len(),
{
    a.len()
}

/// Relies on zip::ZipArchive::by_index, Read::read_to_end, ZipFile::name
/// and ZipFile::unix_mode: reading an entry does not change the archive,
/// returns that entry's stored name and bytes, and succeeds on archives
/// the zip crate wrote.  The third component is the entry's stored Unix
/// permissions, if any; nothing is claimed of it.
#[verifier::external_body]
fn zip_entry_at(a: &mut zip::ZipArchive<Cursor<Vec<u8>>>, i: usize) -> (r: Result<
    (String, Vec<u8>, Option<u32>),
    String,
>)
    requires
        i < zip_archive_entries(*old(a)).len(),
    ensures
        zip_archive_entries(*final(a)) == zip_archive_entries(*old(a)),
        zip_archive_readable(*final(a)) == zip_archive_readable(*old(a)),
        r matches Ok(t) ==> (t.0@, t.1@) == zip_archive_entries(*old(a))[i as int],
        zip_archive_readable(*old(a)) ==> r is Ok,
{
    let mut f = match a.by_index(i) {
        Ok(f) => f,
        Err(e) => {
            return Err(e.to_string());
        },
    };
    let mut data = Vec::new();
    if let Err(e) = std::io::Read::read_to_end(&mut f, &mut data) {
        return Err(e.to_string());
    }
    let mode = f.unix_mode();
    Ok((f.name().to_string(), data, mode))
}

/// One entry to be packed: a source path, archived either under that
/// same path or under a name of its own.
pub enum ArchivedFile {
    File(String),
    FileWithNewName(String, String),
}

impl ArchivedFile {
    /// The path the entry's bytes are read from.
    pub open spec fn spec_source_path(self) -> Seq<char> {
        match self {
            ArchivedFile::File(p) => p@,
            ArchivedFile::FileWithNewName(p, _) => p@,
        }
    }

    /// The name the entry is stored under inside the archive.
    pub open spec fn spec_archive_name(self) -> Seq<char> {
        match self {
            ArchivedFile::File(p) => p@,
            ArchivedFile::FileWithNewName(_, n) => n@,
        }
    }

    /// The path the entry's bytes are read from.
    pub fn source_path(&self) -> (r: &String)
        ensures
            r@ == self.spec_source_path(),
    {
        match self {
            ArchivedFile::File(p) => p,
            ArchivedFile::FileWithNewName(p, _) => p,
        }
    }

    /// The name the entry is stored under inside the archive.
    pub fn archive_name(&self) -> (r: &String)
        ensures
            r@ == self.spec_archive_name(),
    {
        match self {
            ArchivedFile::File(p) => p,
            ArchivedFile::FileWithNewName(_, n) => n,
        }
    }
}

/// The entry list an archiver will store, given the bytes of each source.
pub open spec fn spec_planned_entries(files: Seq<ArchivedFile>, contents: Seq<Vec<u8>>) -> Seq<
    (Seq<char>, Seq<u8>),
> {
    Seq::new(files.len(), |i: int| (files[i].spec_archive_name(), contents[i]@))
}

/// Packs an ordered list of entries into one archive.
pub struct Archiver {
    pub files: Vec<ArchivedFile>,
}

impl Archiver {
    pub fn new(files: Vec<ArchivedFile>) -> (r: Self)
        ensures
            r.files@ == files@,
    {
        Self { files }
    }

    /// Packs the entries into a single in-memory archive: entry `i` is
    /// stored under its archive name with `contents[i]` as its bytes.
    /// Success is owed whenever the planned entries are packable — the
    /// archive names pairwise distinct and each entry within the zip
    /// format's limits; the zip crate refuses anything else, and a
    /// partial archive is never returned as success.
    pub fn compress(&self, contents: &Vec<Vec<u8>>) -> (r: Result<Vec<u8>, PkgError>)
        requires
            contents@.len() == self.files@.len(),
        ensures
            r matches Ok(b) ==> zip_entries_of(b@) == spec_planned_entries(
                self.files@,
                contents@,
            ) && zip_readable(b@),
            entries_packable(spec_planned_entries(self.files@, contents@)) ==> r is Ok,
    {
        let ghost planned = spec_planned_entries(self.files@, contents@);
        let mut w = zip_writer_new();
        let mut i: usize = 0;
        proof {
            assert(zip_writer_entries(w) =~= planned.take(0));
        }
        while i < self.files.len()
            invariant
                i <= self.files@.len(),
                contents@.len() == self.files@.len(),
                planned == spec_planned_entries(self.files@, contents@),
                zip_writer_entries(w) == planned.take(i as int),
            decreases self.files@.len() - i,
        {
            let name = self.files[i].archive_name();
            proof {
                assert(planned.take(i + 1) =~= planned.take(i as int).push(planned[i as int]));
            }
            match zip_writer_add(&mut w, name.as_str(), &contents[i]) {
                Ok(()) => {},
                Err(e) => {
                    proof {
                        if entries_packable(planned) {
                            lemma_packable_take(planned, i + 1);
                        }
                    }
                    return Err(PkgError::Io(e));
                },
            }
            i = i + 1;
        }
        proof {
            assert(planned.take(self.files@.len() as int) =~= planned);
        }
        match zip_writer_finish(w) {
            Ok(b) => Ok(b),
            Err(e) => Err(PkgError::Io(e)),
        }
    }
}

/// Whether an entry name marks a directory: it ends in a separator.
pub open spec fn spec_is_dir_name(n: Seq<char>) -> bool {
    n.len() > 0 && n.last() == '/'
}

/// What extraction is to do for one archive entry, phrased against the
/// destination directory: create the sanitized relative path as a
/// directory, or write the entry's bytes to it.  An empty `parts` means
/// the whole name was neutralized and nothing is to be touched.
pub struct ExtractAction {
    /// Sanitized path components, to be joined under the destination.
    pub parts: Vec<String>,
    /// True for a directory entry: create, no content.
    pub is_dir: bool,
    /// The entry's bytes (empty for directory entries).
    pub data: Vec<u8>,
    /// Whether the stored permissions carry an executable bit.
    pub executable: bool,
}

/// The action `act` is the faithful, escape-neutralized reading of the
/// archive entry `e`.
pub open spec fn action_for(act: ExtractAction, e: (Seq<char>, Seq<u8>)) -> bool {
    &&& seq_views(act.parts@) == spec_sanitize(e.0)
    &&& act.is_dir == spec_is_dir_name(e.0)
    &&& act.data@ == e.1
}

/// Unpacks one archive, held as bytes.
pub struct Extractor {
    pub archive: Vec<u8>,
}

impl Extractor {
    pub fn new(archive: Vec<u8>) -> (r: Self)
        ensures
            r.archive@ == archive@,
    {
        Self { archive }
    }

    /// Reads every entry and turns it into its extraction action; entry
    /// names are sanitized, so nothing an action names lies outside the
    /// destination the actions are applied under.  Succeeds on any
    /// archive the zip crate wrote; fails on corrupt bytes.
    pub fn extract(&self) -> (r: Result<Vec<ExtractAction>, PkgError>)
        ensures
            r matches Ok(acts) ==> acts@.len() == zip_entries_of(self.archive@).len() && (forall|
                i: int,
            |
                0 <= i < acts@.len() ==> action_for(
                    #[trigger] acts@[i],
                    zip_entries_of(self.archive@)[i],
                )),
            zip_readable(self.archive@) ==> r is Ok,
    {
        let ghost es = zip_entries_of(self.archive@);
        let mut a = match zip_archive_open(&self.archive) {
            Ok(a) => a,
            Err(e) => {
                return Err(PkgError::Io(e));
            },
        };
        let n = zip_archive_len(&a);
        let mut acts: Vec<ExtractAction> = Vec::new();
        let mut i: usize = 0;
        while i < n
            invariant
                i <= n,
                n == es.len(),
                zip_archive_entries(a) == es,
                zip_readable(self.archive@) ==> zip_archive_readable(a),
                acts@.len() == i,
                forall|j: int| 0 <= j < i ==> action_for(#[trigger] acts@[j], es[j]),
            decreases n - i,
        {
            let (name, data, mode) = match zip_entry_at(&mut a, i) {
                Ok(t) => t,
                Err(e) => {
                    return Err(PkgError::Io(e));
                },
            };
            let exec_bit = match mode {
                Some(m) => m & 0o111 != 0,
                None => false,
            };
            let parts = sanitize_path(name.as_str());
            let len = name.as_str().unicode_len();
            let is_dir = if len > 0 {
                name.as_str().get_char(len - 1) == '/'
            } else {
                false
            };
            acts.push(ExtractAction { parts, is_dir, data, executable: exec_bit });
            i = i + 1;
        }
        Ok(acts)
    }
}

/// A clean relative file name: every `/`-separated component is
/// acceptable, so sanitization keeps all of them.
pub open spec fn safe_entry_name(n: Seq<char>) -> bool {
    forall|i: int| 0 <= i < spec_split(n).len() ==> component_ok(#[trigger] spec_split(n)[i])
}

/// Filtering keeps a sequence whole when the predicate holds everywhere.
proof fn lemma_filter_all<A>(cs: Seq<A>, p: spec_fn(A) -> bool)
    requires
        forall|i: int| 0 <= i < cs.len() ==> p(#[trigger] cs[i]),
    ensures
        cs.filter(p) == cs,
    decreases cs.len(),
{
    reveal(Seq::filter);
    if cs.len() > 0 {
        assert(forall|i: int|
            0 <= i < cs.drop_last().len() ==> p(#[trigger] cs.drop_last()[i]));
        lemma_filter_all(cs.drop_last(), p);
        assert(cs.filter(p) =~= cs);
    } else {
        assert(cs.filter(p) =~= cs);
    }
}

/// Joining the components a split produced restores the original string.
proof fn lemma_join_split(s: Seq<char>)
    ensures
        spec_join(spec_split(s)) == s,
    decreases s.len(),
{
    if s.len() == 0 {
        assert(spec_join(spec_split(s)) =~= s);
    } else {
        lemma_join_split(s.drop_last());
        let rest = spec_split(s.drop_last());
        if s.last() == '/' {
            assert(spec_split(s) == rest.push(Seq::<char>::empty()));
            assert(spec_split(s).drop_last() =~= rest);
            assert(spec_join(spec_split(s)) =~= s.drop_last() + seq!['/']);
            assert(s.drop_last() + seq!['/'] =~= s);
        } else {
            let upd = rest.update(rest.len() - 1, rest.last().push(s.last()));
            assert(spec_split(s) == upd);
            if rest.len() == 1 {
                assert(upd.len() == 1);
                assert(upd[0] == rest[0].push(s.last()));
                assert(spec_join(upd) == upd[0]);
                assert(spec_join(rest) == rest[0]);
                assert(rest[0].push(s.last()) =~= s.drop_last().push(s.last()));
                assert(s.drop_last().push(s.last()) =~= s);
            } else {
                assert(upd.drop_last() =~= rest.drop_last());
                assert(upd.last() == rest.last().push(s.last()));
                assert(spec_join(upd) == spec_join(rest.drop_last()) + seq!['/']
                    + rest.last().push(s.last()));
                assert(spec_join(rest.drop_last()) + seq!['/'] + rest.last().push(s.last()) =~= (
                spec_join(rest.drop_last()) + seq!['/'] + rest.last()).push(s.last()));
                assert(spec_join(spec_split(s)) =~= s.drop_last().push(s.last()));
                assert(s.drop_last().push(s.last()) =~= s);
            }
        }
    }
}

/// For a clean relative file name, sanitization changes nothing, joining
/// the kept components restores the name exactly, and the name does not
/// mark a directory.
pub proof fn lemma_roundtrip_name(n: Seq<char>)
    requires
        safe_entry_name(n),
    ensures
        spec_sanitize(n) == spec_split(n),
        spec_join(spec_sanitize(n)) == n,
        !spec_is_dir_name(n),
{
    assert(forall|i: int|
        0 <= i < spec_split(n).len() ==> ok_component_pred()(#[trigger] spec_split(n)[i]));
    lemma_filter_all(spec_split(n), ok_component_pred());
    lemma_join_split(n);
    if n.len() > 0 && n.last() == '/' {
        assert(spec_split(n) == spec_split(n.drop_last()).push(Seq::<char>::empty()));
        assert(spec_split(n).last() == Seq::<char>::empty());
        assert(!component_ok(spec_split(n).last()));
    }
}

/// The round trip of the archive codec, end to end: if an archive's
/// bytes read back as exactly what an archiver planned (what `compress`
/// ensures of its result), the extraction actions are faithful readings
/// of those bytes (what `extract` ensures of its result), and every
/// archive name is a clean relative file name, then there is one action
/// per packed entry, its sanitized components joined give that entry's
/// archive name back exactly, its bytes are that entry's bytes, and no
/// entry is taken for a directory.
pub proof fn lemma_pack_unpack_roundtrip(
    files: Seq<ArchivedFile>,
    contents: Seq<Vec<u8>>,
    bytes: Seq<u8>,
    acts: Seq<ExtractAction>,
)
    requires
        files.len() == contents.len(),
        zip_entries_of(bytes) == spec_planned_entries(files, contents),
        acts.len() == zip_entries_of(bytes).len(),
        forall|i: int|
            0 <= i < acts.len() ==> action_for(#[trigger] acts[i], zip_entries_of(bytes)[i]),
        forall|i: int|
            0 <= i < files.len() ==> safe_entry_name((#[trigger] files[i]).spec_archive_name()),
    ensures
        acts.len() == files.len(),
        forall|i: int|
            0 <= i < files.len() ==> {
                &&& !(#[trigger] acts[i]).is_dir
                &&& spec_join(seq_views(acts[i].parts@)) == files[i].spec_archive_name()
                &&& acts[i].data@ == contents[i]@
            },
{
    let es = zip_entries_of(bytes);
    assert(forall|i: int|
        0 <= i < es.len() ==> safe_entry_name((#[trigger] es[i]).0));
    lemma_extract_reproduces(es, acts);
}

/// The round trip of the archive codec: when every entry of an archive
/// carries a clean relative file name — as everything the packer stores
/// does — the extraction actions of that archive reproduce each entry's
/// relative path and bytes exactly, and none is taken for a directory.
pub proof fn lemma_extract_reproduces(es: Seq<(Seq<char>, Seq<u8>)>, acts: Seq<ExtractAction>)
    requires
        acts.len() == es.len(),
        forall|i: int| 0 <= i < es.len() ==> action_for(#[trigger] acts[i], es[i]),
        forall|i: int| 0 <= i < es.len() ==> safe_entry_name((#[trigger] es[i]).0),
    ensures
        forall|i: int|
            0 <= i < es.len() ==> {
                &&& !(#[trigger] acts[i]).is_dir
                &&& spec_join(seq_views(acts[i].parts@)) == es[i].0
                &&& acts[i].data@ == es[i].1
            },
{
    assert forall|i: int| 0 <= i < es.len() implies {
        &&& !(#[trigger] acts[i]).is_dir
        &&& spec_join(seq_views(acts[i].parts@)) == es[i].0
        &&& acts[i].data@ == es[i].1
    } by {
        lemma_roundtrip_name(es[i].0);
    }
}

} // verus!
