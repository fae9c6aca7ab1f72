//! World snapshots as gzip-compressed tar archives, built in memory with the `tar` and
//! `flate2` crates.
use std::io::Read;
use vstd::prelude::*;
use crate::text::{chars_of, string_of};

verus! {

broadcast use vstd::string::group_string_axioms;

#[verifier::external_type_specification]
#[verifier::external_body]
pub struct ExIoError(std::io::Error);

/// A `flate2` gzip encoder writing into memory. (Verus cannot take the encoder's type
/// itself, whose parameter is bounded by `std::io::Write`; it is held here instead.)
#[verifier::external_body]
pub struct GzSink {
    enc: flate2::write::GzEncoder<Vec<u8>>,
}

/// A `tar` builder writing into a `GzSink`'s encoder, held for the same reason.
#[verifier::external_body]
pub struct TarSink {
    builder: tar::Builder<flate2::write::GzEncoder<Vec<u8>>>,
}

/// What has been written into a gzip encoder so far, before compression.
pub uninterp spec fn gz_input(e: GzSink) -> Seq<u8>;

/// The files appended to a tar builder so far: (path, contents), in order.
pub uninterp spec fn tar_entries(b: TarSink) -> Seq<(Seq<char>, Seq<u8>)>;

/// What the encoder under a tar builder held when the builder was made.
pub uninterp spec fn tar_start(b: TarSink) -> Seq<u8>;

/// The tar stream that `tar::Builder` writes for these files, each with a GNU header that
/// holds its size and mode 0644, followed by the two zero blocks that end an archive.
pub uninterp spec fn tar_stream(entries: Seq<(Seq<char>, Seq<u8>)>) -> Seq<u8>;

/// The gzip file that `flate2`'s `GzEncoder` makes of these bytes at the default level.
pub uninterp spec fn gzip(data: Seq<u8>) -> Seq<u8>;

/// `flate2::write::GzEncoder::new` over an empty `Vec` at `Compression::default()`:
/// nothing has been written into it yet.
#[verifier::external_body]
fn gz_encoder() -> (r: GzSink)
    ensures
        gz_input(r) == Seq::<u8>::empty(),
{
    GzSink { enc: flate2::write::GzEncoder::new(Vec::new(), flate2::Compression::default()) }
}

/// `tar::Builder::new`: a builder that writes into `enc`, with no file appended yet.
#[verifier::external_body]
fn tar_builder(enc: GzSink) -> (r: TarSink)
    ensures
        tar_entries(r) == Seq::<(Seq<char>, Seq<u8>)>::empty(),
        tar_start(r) == gz_input(enc),
{
    TarSink { builder: tar::Builder::new(enc.enc) }
}

/// `tar::Builder::append_data` with a header from `tar::Header::new_gnu`, its size set to
/// the length of `data` and its mode to 0644: on success the file is the builder's next
/// entry. `tar` checks the path (an absolute path, a `..` component and the like are
/// refused) and fails only on a path it refuses, since writing into the in-memory encoder
/// cannot fail; a plain path (`plain_archive_path`), too long for the header or not, is
/// always taken. After a failure nothing is stated of the builder.
#[verifier::external_body]
fn tar_append(
    b: &mut TarSink,
    name: &str,
    data: &[u8],
) -> (r: Result<(), std::io::Error>)
    ensures
        plain_archive_path(name@) ==> r is Ok,
        r is Ok ==> tar_entries(*final(b)) == tar_entries(*old(b)).push((name@, data@)),
        r is Ok ==> tar_start(*final(b)) == tar_start(*old(b)),
{
    let mut header = tar::Header::new_gnu();
    header.set_size(data.len() as u64);
    header.set_mode(0o644);
    b.builder.append_data(&mut header, name, data)
}

/// `tar::Builder::into_inner`: ends the archive (two zero blocks written into the
/// in-memory encoder, which cannot fail) and hands back the encoder, which then holds what
/// it held before followed by the archive's tar stream.
#[verifier::external_body]
fn tar_into_inner(b: TarSink) -> (r: Result<GzSink, std::io::Error>)
    ensures
        r is Ok,
        r matches Ok(e) ==> gz_input(e) == tar_start(b) + tar_stream(tar_entries(b)),
{
    b.builder.into_inner().map(|enc| GzSink { enc })
}

/// `flate2::write::GzEncoder::finish`: the gzip file of everything written into the
/// encoder; it writes into memory, which cannot fail.
#[verifier::external_body]
fn gz_finish(e: GzSink) -> (r: Result<Vec<u8>, std::io::Error>)
    ensures
        r is Ok,
        r matches Ok(v) ==> v@ == gzip(gz_input(e)),
{
    e.enc.finish()
}

/// The `Display` text of an I/O error. Nothing is stated of it.
#[verifier::external_body]
pub(crate) fn io_error_text(e: &std::io::Error) -> (r: String) {
    e.to_string()
}

// ---------------------------------------------------------------- reading

/// A `tar` archive read from gzip-compressed bytes in memory (held for the same reason as
/// the sinks above).
#[verifier::external_body]
pub struct TarSource {
    ar: tar::Archive<flate2::read::GzDecoder<std::io::Cursor<Vec<u8>>>>,
}

/// The entries of a `TarSource` still to be read.
#[verifier::external_body]
pub struct TarFiles<'s> {
    it: tar::Entries<'s, flate2::read::GzDecoder<std::io::Cursor<Vec<u8>>>>,
}

/// The compressed bytes a source reads.
pub uninterp spec fn source_bytes(s: TarSource) -> Seq<u8>;

/// The files that `tar` reads, in order, from the archive inside these gzip bytes: each
/// entry's path (as lossy text) and contents, up to the end of the archive or the first
/// entry that cannot be read.
pub uninterp spec fn archive_files(gz: Seq<u8>) -> Seq<(Seq<char>, Seq<u8>)>;

/// The files an iterator over entries will still hand out.
pub uninterp spec fn files_left(f: TarFiles) -> Seq<(Seq<char>, Seq<u8>)>;

/// Every entry still to come reads without an error, and the end of the archive is read
/// cleanly.
pub uninterp spec fn files_sound(f: TarFiles) -> bool;

/// A path that `tar` stores as written and reads back unchanged on every platform: one or
/// more non-empty components joined by single `/`, none of them `.` or `..`, no `\` or
/// NUL anywhere, and no drive letter in front (an ASCII letter then `:`, which Windows
/// reads as a drive prefix).
pub open spec fn plain_archive_path(p: Seq<char>) -> bool {
    &&& p.len() > 0
    &&& p[0] != '/'
    &&& p[p.len() - 1] != '/'
    &&& forall|i: int| 0 <= i < p.len() ==> #[trigger] p[i] != '\\' && p[i] != '\0'
    &&& !drive_prefixed(p)
    &&& forall|i: int| 0 <= i < p.len() - 1 ==> !(#[trigger] p[i] == '/' && p[i + 1] == '/')
    &&& p != "."@ && p != ".."@
    &&& !starts_with_component(p, "."@) && !starts_with_component(p, ".."@)
    &&& !ends_with_component(p, "."@) && !ends_with_component(p, ".."@)
    &&& !contains_component(p, "."@) && !contains_component(p, ".."@)
}

/// `p` starts with an ASCII letter and `:`, which Windows reads as a drive.
pub open spec fn drive_prefixed(p: Seq<char>) -> bool {
    p.len() >= 2 && p[1] == ':' && (('a' <= p[0] && p[0] <= 'z') || ('A' <= p[0] && p[0] <= 'Z'))
}

/// `p` begins with the component `c`.
pub open spec fn starts_with_component(p: Seq<char>, c: Seq<char>) -> bool {
    p.len() > c.len() && p.take(c.len() as int) == c && p[c.len() as int] == '/'
}

/// `p` ends with the component `c`.
pub open spec fn ends_with_component(p: Seq<char>, c: Seq<char>) -> bool {
    p.len() > c.len() && p.skip(p.len() - c.len()) == c && p[p.len() - c.len() - 1] == '/'
}

/// `p` has `c` as an inner component.
pub open spec fn contains_component(p: Seq<char>, c: Seq<char>) -> bool {
    exists|i: int|
        0 <= i && i + c.len() + 2 <= p.len() && #[trigger] p[i] == '/' && p.subrange(
            i + 1,
            i + 1 + c.len(),
        ) == c && p[i + 1 + c.len()] == '/'
}

/// Every path is plain.
pub open spec fn plain_files(e: Seq<(Seq<char>, Seq<u8>)>) -> bool {
    forall|i: int| 0 <= i < e.len() ==> plain_archive_path(#[trigger] e[i].0)
}

/// `tar::Archive::new` over `flate2::read::GzDecoder::new` over the bytes.
#[verifier::external_body]
fn tar_source(bytes: Vec<u8>) -> (r: TarSource)
    ensures
        source_bytes(r) == bytes@,
{
    TarSource { ar: tar::Archive::new(flate2::read::GzDecoder::new(std::io::Cursor::new(bytes))) }
}

/// `tar::Archive::entries`: an iterator over the archive's files (it fails only when the
/// archive has been read from already, which a fresh source has not). What `tar_append`
/// stored, `GzEncoder` compressed and `GzDecoder` decompresses is read back as it was
/// written, for plain paths: `tar` stores such a path's components joined by `/`, and
/// `Entry::path` gives them back; such an archive reads to its end without an error.
#[verifier::external_body]
fn tar_files(s: &mut TarSource) -> (r: Result<TarFiles<'_>, std::io::Error>)
    ensures
        r matches Ok(f) ==> files_left(f) == archive_files(source_bytes(*old(s))),
        forall|e: Seq<(Seq<char>, Seq<u8>)>|
            plain_files(e) && source_bytes(*old(s)) == #[trigger] gzip(tar_stream(e)) ==> (
            r matches Ok(f) && files_left(f) == e && files_sound(f)),
{
    s.ar.entries().map(|it| TarFiles { it })
}

/// `Iterator::next` on the entries, then `Entry::path` (as lossy text) and
/// `Read::read_to_end` on the entry: the next file, `None` at the end.
#[verifier::external_body]
fn next_file(f: &mut TarFiles) -> (r: Option<Result<(String, Vec<u8>), std::io::Error>>)
    ensures
        r is None ==> files_left(*old(f)).len() == 0,
        r matches Some(Ok(x)) ==> files_left(*old(f)).len() > 0 && (x.0@, x.1@) == files_left(
            *old(f),
        )[0] && files_left(*final(f)) == files_left(*old(f)).drop_first(),
        files_sound(*old(f)) && files_left(*old(f)).len() > 0 ==> (r matches Some(Ok(_))
            && files_sound(*final(f))),
        files_sound(*old(f)) && files_left(*old(f)).len() == 0 ==> r is None,
{
    let mut e = match f.it.next()? {
        Ok(e) => e,
        Err(err) => return Some(Err(err)),
    };
    let path = e.path().map(|p| p.to_string_lossy().into_owned());
    let mut data = Vec::new();
    Some(path.and_then(|p| e.read_to_end(&mut data).map(|_| (p, data))))
}

/// The (path, contents) of each file.
pub open spec fn file_entries(files: Seq<(String, Vec<u8>)>) -> Seq<(Seq<char>, Seq<u8>)> {
    files.map_values(|f: (String, Vec<u8>)| (f.0@, f.1@))
}

/// A `.tar.gz` archive of the files, in order; an error when `tar` refuses a path.
pub fn make_targz(files: &[(String, Vec<u8>)]) -> (r: Result<Vec<u8>, String>)
    ensures
        plain_files(file_entries(files@)) ==> r is Ok,
        r matches Ok(v) ==> v@ == gzip(tar_stream(file_entries(files@))),
{
    let enc = gz_encoder();
    let mut tar = tar_builder(enc);
    let mut i: usize = 0;
    while i < files.len()
        invariant
            i <= files@.len(),
            tar_start(tar) == Seq::<u8>::empty(),
            tar_entries(tar) == file_entries(files@.take(i as int)),
        decreases files@.len() - i,
    {
        proof {
            if plain_files(file_entries(files@)) {
                assert(file_entries(files@)[i as int].0 == files@[i as int].0@);
            }
        }
        match tar_append(&mut tar, files[i].0.as_str(), files[i].1.as_slice()) {
            Ok(()) => {},
            Err(e) => {
                return Err(io_error_text(&e));
            },
        }
        assert(files@.take(i + 1) == files@.take(i as int).push(files@[i as int]));
        assert(file_entries(files@.take(i + 1)) == file_entries(files@.take(i as int)).push(
            (files@[i as int].0@, files@[i as int].1@),
        ));
        i += 1;
    }
    assert(files@.take(files@.len() as int) == files@);
    let enc = match tar_into_inner(tar) {
        Ok(e) => e,
        Err(e) => {
            return Err(io_error_text(&e));
        },
    };
    assert(Seq::<u8>::empty() + tar_stream(file_entries(files@)) == tar_stream(
        file_entries(files@),
    ));
    match gz_finish(enc) {
        Ok(v) => Ok(v),
        Err(e) => Err(io_error_text(&e)),
    }
}

/// `p` with each `\` turned into `/`.
pub open spec fn slashed(p: Seq<char>) -> Seq<char> {
    p.map_values(|c: char| if c == '\\' { '/' } else { c })
}

/// The files with their paths slashed.
pub open spec fn slashed_files(e: Seq<(Seq<char>, Seq<u8>)>) -> Seq<(Seq<char>, Seq<u8>)> {
    e.map_values(|f: (Seq<char>, Seq<u8>)| (slashed(f.0), f.1))
}

/// Plain paths hold no `\`, so turning it into `/` leaves them as they are.
pub proof fn lemma_plain_files_slashed(e: Seq<(Seq<char>, Seq<u8>)>)
    requires
        plain_files(e),
    ensures
        slashed_files(e) == e,
{
    assert forall|i: int| 0 <= i < e.len() implies #[trigger] slashed_files(e)[i] == e[i] by {
        let p = e[i].0;
        assert(plain_archive_path(p));
        assert(slashed(p) =~= p);
    }
    assert(slashed_files(e) =~= e);
}

/// A path with `\` separators written as `/`.
pub fn forward_slashes(p: &str) -> (r: String)
    ensures
        r@ == slashed(p@),
{
    let cs = chars_of(p);
    let mut out: Vec<char> = Vec::new();
    let mut i: usize = 0;
    while i < cs.len()
        invariant
            i <= cs@.len(),
            out@ == slashed(cs@.take(i as int)),
        decreases cs@.len() - i,
    {
        let c = if cs[i] == '\\' {
            '/'
        } else {
            cs[i]
        };
        out.push(c);
        assert(cs@.take(i + 1) == cs@.take(i as int).push(cs@[i as int]));
        assert(slashed(cs@.take(i + 1)) == slashed(cs@.take(i as int)).push(c));
        i += 1;
    }
    assert(cs@.take(cs@.len() as int) == cs@);
    string_of(&out)
}

/// The files of a `.tar.gz` archive, in order, with `\` in their paths turned into `/`;
/// an error when the archive cannot be read.
pub fn untar_gz(bytes: &[u8]) -> (r: Result<Vec<(String, Vec<u8>)>, String>)
    ensures
        r matches Ok(v) ==> file_entries(v@) == slashed_files(archive_files(bytes@)),
        forall|e: Seq<(Seq<char>, Seq<u8>)>|
            plain_files(e) && bytes@ == #[trigger] gzip(tar_stream(e)) ==> (r matches Ok(v)
                && file_entries(v@) == e),
{
    let mut owned: Vec<u8> = Vec::new();
    owned.extend_from_slice(bytes);
    assert(owned@ =~= bytes@);
    let ghost good = exists|e: Seq<(Seq<char>, Seq<u8>)>|
        plain_files(e) && bytes@ == #[trigger] gzip(tar_stream(e));
    let mut src = tar_source(owned);
    let mut files = match tar_files(&mut src) {
        Ok(f) => f,
        Err(e) => {
            proof {
                if good {
                    let w = choose|w: Seq<(Seq<char>, Seq<u8>)>|
                        plain_files(w) && bytes@ == #[trigger] gzip(tar_stream(w));
                    assert(plain_files(w) && source_bytes(src) == gzip(tar_stream(w)));
                }
            }
            return Err(io_error_text(&e));
        },
    };
    let ghost all = files_left(files);
    proof {
        if good {
            let w = choose|w: Seq<(Seq<char>, Seq<u8>)>|
                plain_files(w) && bytes@ == #[trigger] gzip(tar_stream(w));
            assert(plain_files(w) && bytes@ == gzip(tar_stream(w)));
        }
    }
    assert(good ==> files_sound(files));
    assert forall|e: Seq<(Seq<char>, Seq<u8>)>|
        plain_files(e) && bytes@ == #[trigger] gzip(tar_stream(e)) implies slashed_files(all)
        == e by {
        lemma_plain_files_slashed(e);
    }
    let mut out: Vec<(String, Vec<u8>)> = Vec::new();
    assert(slashed_files(all) == file_entries(out@) + slashed_files(files_left(files)));
    loop
        invariant_except_break
            slashed_files(all) == file_entries(out@) + slashed_files(files_left(files)),
            good ==> files_sound(files),
            good == exists|e: Seq<(Seq<char>, Seq<u8>)>|
                plain_files(e) && bytes@ == #[trigger] gzip(tar_stream(e)),
        ensures
            file_entries(out@) == slashed_files(all),
        decreases files_left(files).len(),
    {
        let ghost left = files_left(files);
        match next_file(&mut files) {
            None => {
                assert(slashed_files(left) =~= Seq::<(Seq<char>, Seq<u8>)>::empty());
                assert(file_entries(out@) + Seq::<(Seq<char>, Seq<u8>)>::empty() == file_entries(
                    out@,
                ));
                break ;
            },
            Some(Err(e)) => {
                assert(!good);
                return Err(io_error_text(&e));
            },
            Some(Ok((p, d))) => {
                let ghost before = out@;
                let name = forward_slashes(p.as_str());
                out.push((name, d));
                assert(file_entries(out@) == file_entries(before).push((slashed(p@), d@)));
                assert(slashed_files(left) == slashed_files(left.drop_first()).insert(
                    0,
                    (slashed(p@), d@),
                )) by {
                    assert(slashed_files(left).drop_first() =~= slashed_files(left.drop_first()));
                    assert(slashed_files(left) =~= slashed_files(left.drop_first()).insert(
                        0,
                        (slashed(p@), d@),
                    ));
                }
                assert(file_entries(out@) + slashed_files(left.drop_first()) =~= file_entries(
                    before,
                ) + slashed_files(left));
            },
        }
    }
    Ok(out)
}

/// A snapshot reads back as what it was made of: when `make_targz` succeeded on files
/// with plain paths and `untar_gz` succeeded on its bytes, the files come back the same
/// and in the same order.
pub proof fn lemma_targz_round_trip(
    files: Seq<(String, Vec<u8>)>,
    made: Seq<u8>,
    read: Seq<(String, Vec<u8>)>,
)
    requires
        plain_files(file_entries(files)),
        made == gzip(tar_stream(file_entries(files))),
        forall|e: Seq<(Seq<char>, Seq<u8>)>|
            plain_files(e) && made == #[trigger] gzip(tar_stream(e)) ==> file_entries(read) == e,
    ensures
        file_entries(read) == file_entries(files),
{
}

} // verus!
