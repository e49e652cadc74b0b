//! The decisions of reading a notebook: which paths its table of contents
//! lists, which of them are skipped, and which file of a section group
//! directory is its table of contents.
use vstd::prelude::*;
use crate::entry_path::{
    EntryRefusal, components, error_matches_refusal, resolve_entry_path, spec_components,
    spec_resolve_entry, texts,
};
use crate::errors::{ErrorKind, Result, spec_error_message};
use crate::text::same_text;

verus! {

/// The paths of the entries `entries` below `base`, or why the first entry
/// that is refused is refused.
pub open spec fn spec_resolve_entries(base: Seq<char>, entries: Seq<Seq<char>>) -> core::result::Result<
    Seq<Seq<char>>,
    EntryRefusal,
>
    decreases entries.len(),
{
    if entries.len() == 0 {
        Ok(Seq::empty())
    } else {
        match spec_resolve_entries(base, entries.drop_last()) {
            Ok(paths) => match spec_resolve_entry(base, entries.last()) {
                Ok(p) => Ok(paths.push(p)),
                Err(refusal) => Err(refusal),
            },
            Err(refusal) => Err(refusal),
        }
    }
}

/// Once a prefix of the entries is refused, so are all the entries.
proof fn lemma_refused_prefix(base: Seq<char>, entries: Seq<Seq<char>>, k: int)
    requires
        0 <= k <= entries.len(),
        spec_resolve_entries(base, entries.take(k)) is Err,
    ensures
        spec_resolve_entries(base, entries) == spec_resolve_entries(base, entries.take(k)),
    decreases entries.len(),
{
    if entries.len() == k {
        assert(entries.take(k) =~= entries);
    } else {
        assert(entries.drop_last().take(k) =~= entries.take(k));
        lemma_refused_prefix(base, entries.drop_last(), k);
    }
}

/// Turns every section entry of a table of contents into a path below
/// `base_dir`; the first entry that is refused fails the whole list.
pub fn resolve_toc_entries(base_dir: &str, entries: &Vec<String>) -> (r: Result<Vec<String>>)
    ensures
        match spec_resolve_entries(base_dir@, texts(entries@)) {
            Ok(paths) => r matches Ok(v) && texts(v@) == paths,
            Err(refusal) => r matches Err(e) && error_matches_refusal(e, refusal),
        },
{
    let mut paths: Vec<String> = Vec::new();
    let mut i: usize = 0;
    proof {
        assert(texts(entries@.take(0)) =~= Seq::<Seq<char>>::empty());
        assert(texts(paths@) =~= Seq::<Seq<char>>::empty());
    }
    while i < entries.len()
        invariant
            i <= entries@.len(),
            spec_resolve_entries(base_dir@, texts(entries@.take(i as int))) == Ok::<
                Seq<Seq<char>>,
                EntryRefusal,
            >(texts(paths@)),
        decreases entries@.len() - i,
    {
        proof {
            let prefix = texts(entries@.take(i + 1));
            assert(prefix.drop_last() =~= texts(entries@.take(i as int)));
            assert(prefix.last() == entries@[i as int]@);
        }
        let path = match resolve_entry_path(base_dir, entries[i].as_str()) {
            Ok(p) => p,
            Err(e) => {
                proof {
                    assert(texts(entries@.take(i + 1)) =~= texts(entries@).take(
                        i + 1,
                    ));
                    lemma_refused_prefix(base_dir@, texts(entries@), i + 1);
                }
                return Err(e);
            },
        };
        let ghost old_paths = paths@;
        paths.push(path);
        proof {
            assert(texts(paths@) =~= texts(old_paths).push(paths@.last()@));
        }
        i = i + 1;
    }
    proof {
        assert(entries@.take(i as int) =~= entries@);
    }
    Ok(paths)
}

/// The last component of `path` (see [`spec_components`]), which names
/// what the path leads to; empty for a path without components.
pub open spec fn spec_last_component(path: Seq<char>) -> Seq<char> {
    let c = spec_components(path);
    if c.len() == 0 {
        Seq::empty()
    } else {
        c.last()
    }
}

/// The name of the directory that holds a notebook's deleted sections.
pub open spec fn recycle_bin_name() -> Seq<char> {
    "OneNote_RecycleBin"@
}

/// Whether a file name has the extension `onetoc2`: it ends with
/// `.onetoc2` and has something before that.
pub open spec fn has_toc_extension(name: Seq<char>) -> bool {
    name.len() > 8 && name.subrange(name.len() - 8, name.len() as int) == ".onetoc2"@
}

/// The last component of `path`.
pub fn last_component(path: &str) -> (s: String)
    ensures
        s@ == spec_last_component(path@),
{
    let c = components(path);
    let n = c.len();
    if n == 0 {
        String::new()
    } else {
        proof {
            assert(texts(c@).last() == c@[n - 1]@);
        }
        c[n - 1].clone()
    }
}

/// Whether an entry path names the notebook's recycle bin, which is not
/// read as a section.
pub fn is_recycle_bin_entry(path: &str) -> (b: bool)
    ensures
        b == (spec_last_component(path@) == recycle_bin_name()),
{
    let last = last_component(path);
    same_text(last.as_str(), "OneNote_RecycleBin")
}

/// How an entry of a notebook is read.
#[derive(Debug, Clone, Copy, PartialEq, Eq, Structural)]
pub enum EntryKind {
    /// A section file.
    Section,
    /// A section group directory.
    SectionGroup,
}

/// How the entry at `path` is read, given whether the path is present and
/// whether it is a directory: an entry that is not present, or that is the
/// recycle bin, is skipped; a directory is a section group; anything else
/// is a section.
pub fn classify_entry(path: &str, present: bool, is_directory: bool) -> (r: Option<EntryKind>)
    ensures
        r == (if !present || spec_last_component(path@) == recycle_bin_name() {
            None
        } else if is_directory {
            Some(EntryKind::SectionGroup)
        } else {
            Some(EntryKind::Section)
        }),
{
    if !present || is_recycle_bin_entry(path) {
        None
    } else if is_directory {
        Some(EntryKind::SectionGroup)
    } else {
        Some(EntryKind::Section)
    }
}

/// Whether the last piece of `path` is the file name of a table of
/// contents.
pub fn is_toc_file(path: &str) -> (b: bool)
    ensures
        b == has_toc_extension(spec_last_component(path@)),
{
    let name = last_component(path);
    let n = name.as_str().unicode_len();
    if n <= 8 {
        return false;
    }
    let suffix = name.as_str().substring_char(n - 8, n);
    same_text(suffix, ".onetoc2")
}

/// The index of the first entry of a directory listing that is a table of
/// contents file, if any.
pub fn find_toc_entry(entries: &Vec<String>) -> (r: Option<usize>)
    ensures
        match r {
            Some(i) => i < entries@.len() && has_toc_extension(spec_last_component(entries@[i as int]@))
                && forall|j: int| 0 <= j < i ==> !has_toc_extension(
                    spec_last_component(#[trigger] entries@[j]@),
                ),
            None => forall|j: int| 0 <= j < entries@.len() ==> !has_toc_extension(
                spec_last_component(#[trigger] entries@[j]@),
            ),
        },
{
    let mut i: usize = 0;
    while i < entries.len()
        invariant
            i <= entries@.len(),
            forall|j: int| 0 <= j < i ==> !has_toc_extension(spec_last_component(#[trigger] entries@[j]@)),
        decreases entries@.len() - i,
    {
        if is_toc_file(entries[i].as_str()) {
            return Some(i);
        }
        i = i + 1;
    }
    None
}

/// The warning recorded for an entry of a notebook that could not be read.
pub open spec fn spec_import_warning(path: Seq<char>, err: ErrorKind) -> Seq<char> {
    "failed to import section "@ + path + ": "@ + spec_error_message(err)
}

/// Records what reading the entry at `path` gave: an entry that was read is
/// kept; one that failed does not take the notebook down, but leaves a
/// warning that names the path and the error.
pub fn record_entry<E>(
    entries: &mut Vec<E>,
    warnings: &mut Vec<String>,
    path: &str,
    read: Result<E>,
)
    ensures
        match read {
            Ok(e) => final(entries)@ == old(entries)@.push(e) && final(warnings)@ == old(
                warnings,
            )@,
            Err(err) => final(entries)@ == old(entries)@ && texts(final(warnings)@) == texts(
                old(warnings)@,
            ).push(spec_import_warning(path@, err)),
        },
{
    match read {
        Ok(e) => entries.push(e),
        Err(err) => {
            let mut warning = "failed to import section ".to_owned();
            warning.append(path);
            warning.append(": ");
            let message = err.message();
            warning.append(message.as_str());
            proof {
                reveal_strlit("failed to import section ");
                reveal_strlit(": ");
            }
            let ghost before = warnings@;
            warnings.push(warning);
            proof {
                assert(texts(warnings@) =~= texts(before).push(spec_import_warning(path@, err)));
            }
        },
    }
}

/// The table of contents of the section group directory `dir`, whose
/// listing is `entries`: the index of the first entry that is a table of
/// contents file, or `TocFileMissing` naming the directory when none is.
pub fn section_group_toc(dir: &str, entries: &Vec<String>) -> (r: Result<usize>)
    ensures
        match r {
            Ok(i) => i < entries@.len() && has_toc_extension(spec_last_component(entries@[i as int]@))
                && forall|j: int| 0 <= j < i ==> !has_toc_extension(
                    spec_last_component(#[trigger] entries@[j]@),
                ),
            Err(e) => (e matches ErrorKind::TocFileMissing { dir: d } && d@ == dir@) && forall|j: int|
                0 <= j < entries@.len() ==> !has_toc_extension(
                    spec_last_component(#[trigger] entries@[j]@),
                ),
        },
{
    match find_toc_entry(entries) {
        Some(i) => Ok(i),
        None => Err(ErrorKind::TocFileMissing { dir: dir.to_owned() }),
    }
}

} // verus!
