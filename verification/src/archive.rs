//! The ZIP container of an OFD package, read and written by the `zip` crate. A package is
//! handled as its list of entries: path and bytes, in archive order.
use vstd::prelude::*;
use std::io::{Read, Write};
use crate::ofd_error::{OfdError, OfdResult};

verus! {

/// An entry as plain values: its path and its bytes.
pub type EntryView = (Seq<char>, Seq<u8>);

/// The entries of a list, as plain values.
pub open spec fn entries_view(e: Seq<(String, Vec<u8>)>) -> Seq<EntryView> {
    e.map_values(|p: (String, Vec<u8>)| (p.0@, p.1@))
}

/// The entries of a ZIP archive in central-directory order, with their decompressed bytes;
/// `None` when the archive or one of its entries cannot be read.
pub uninterp spec fn zip_entries(archive: Seq<u8>) -> Option<Seq<EntryView>>;

/// The archive the `zip` crate writes for a list of entries (each deflated, with the
/// default options, which carry no clock time); `None` when writing fails, as it does for a
/// repeated path.
pub uninterp spec fn zip_archive(entries: Seq<EntryView>) -> Option<Seq<u8>>;

/// `zip::ZipArchive::new` over the bytes, then `by_index` and `read_to_end` for each entry:
/// the entries in order, or the archive error (`Zip`) or read error (`Io`).
#[verifier::external_body]
pub(crate) fn read_zip_entries(archive: &[u8]) -> (r: OfdResult<Vec<(String, Vec<u8>)>>)
    ensures
        match zip_entries(archive@) {
            Some(es) => r matches Ok(v) && entries_view(v@) == es,
            None => r is Err,
        },
{
    let mut za = zip::ZipArchive::new(std::io::Cursor::new(archive))
        .map_err(|e| OfdError::Zip(e.to_string()))?;
    let mut out = Vec::with_capacity(za.len());
    for i in 0..za.len() {
        let mut f = za.by_index(i).map_err(|e| OfdError::Zip(e.to_string()))?;
        let name = f.name().map_err(|e| OfdError::Zip(e.to_string()))?.to_string();
        let mut buf = Vec::new();
        f.read_to_end(&mut buf).map_err(|e| OfdError::Io(e.to_string()))?;
        out.push((name, buf));
    }
    Ok(out)
}

/// `zip::ZipWriter` over a buffer: `start_file` (deflated, default options) and `write_all`
/// for each entry in order, then `finish`; the archive bytes, or the archive error (`Zip`)
/// or write error (`Io`). The writer keeps each path as given (flagged UTF-8 when it is
/// not ASCII, and ASCII reads back unchanged) and the entries in order, so reading the
/// archive back gives the same entries.
#[verifier::external_body]
pub(crate) fn write_zip_entries(entries: &[(String, Vec<u8>)]) -> (r: OfdResult<Vec<u8>>)
    ensures
        match zip_archive(entries_view(entries@)) {
            Some(b) => r matches Ok(v) && v@ == b,
            None => r is Err,
        },
        r matches Ok(v) ==> zip_entries(v@) == Some(entries_view(entries@)),
{
    let mut zw = zip::ZipWriter::new(std::io::Cursor::new(Vec::new()));
    let opts = zip::write::SimpleFileOptions::default()
        .compression_method(zip::CompressionMethod::Deflated);
    for (name, data) in entries {
        zw.start_file(name.as_str(), opts).map_err(|e| OfdError::Zip(e.to_string()))?;
        zw.write_all(data).map_err(|e| OfdError::Io(e.to_string()))?;
    }
    Ok(zw.finish().map_err(|e| OfdError::Zip(e.to_string()))?.into_inner())
}

/// The bytes of the last entry named `name` (a later entry of the same name replaces an
/// earlier one, as when entries are gathered into a map).
pub open spec fn entry_lookup(es: Seq<EntryView>, name: Seq<char>) -> Option<Seq<u8>>
    decreases es.len(),
{
    if es.len() == 0 {
        None
    } else if es.last().0 == name {
        Some(es.last().1)
    } else {
        entry_lookup(es.drop_last(), name)
    }
}

/// The bytes of the last entry named `name`.
pub fn lookup_entry<'a>(entries: &'a [(String, Vec<u8>)], name: &str) -> (r: Option<&'a Vec<u8>>)
    ensures
        match entry_lookup(entries_view(entries@), name@) {
            Some(b) => r matches Some(v) && v@ == b,
            None => r is None,
        },
{
    let mut i = entries.len();
    assert(entries@.take(i as int) == entries@);
    while i > 0
        invariant
            i <= entries@.len(),
            entry_lookup(entries_view(entries@), name@) == entry_lookup(
                entries_view(entries@.take(i as int)),
                name@,
            ),
        decreases i,
    {
        let ghost pre = entries_view(entries@.take(i as int));
        assert(pre.drop_last() == entries_view(entries@.take(i - 1)));
        if crate::text::str_eq(entries[i - 1].0.as_str(), name) {
            return Some(&entries[i - 1].1);
        }
        i = i - 1;
    }
    None
}

/// Entries appended under other names do not change what a name looks up.
pub proof fn lemma_lookup_append(a: Seq<EntryView>, b: Seq<EntryView>, name: Seq<char>)
    requires
        forall|i: int| 0 <= i < b.len() ==> b[i].0 != name,
    ensures
        entry_lookup(a + b, name) == entry_lookup(a, name),
    decreases b.len(),
{
    if b.len() > 0 {
        assert((a + b).drop_last() =~= a + b.drop_last());
        assert((a + b).last() == b.last());
        lemma_lookup_append(a, b.drop_last(), name);
    } else {
        assert(a + b =~= a);
    }
}

/// A name that some entry carries looks up some bytes.
pub proof fn lemma_lookup_present(es: Seq<EntryView>, i: int)
    requires
        0 <= i < es.len(),
    ensures
        entry_lookup(es, es[i].0) is Some,
    decreases es.len(),
{
    if es.last().0 != es[i].0 {
        assert(es.drop_last()[i] == es[i]);
        lemma_lookup_present(es.drop_last(), i);
    }
}

/// Where names are distinct, a name looks up the bytes of its own entry.
pub proof fn lemma_lookup_distinct(es: Seq<EntryView>, i: int)
    requires
        0 <= i < es.len(),
        forall|j: int, k: int| 0 <= j < k < es.len() ==> es[j].0 != es[k].0,
    ensures
        entry_lookup(es, es[i].0) == Some(es[i].1),
    decreases es.len(),
{
    if i < es.len() - 1 {
        assert(es.last().0 != es[i].0);
        assert(es.drop_last()[i] == es[i]);
        lemma_lookup_distinct(es.drop_last(), i);
    }
}

} // verus!
