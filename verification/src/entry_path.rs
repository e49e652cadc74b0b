//! Section entries of a notebook's table of contents, turned into paths
//! below the notebook directory.
//!
//! An entry is read as a relative path whose components are separated by
//! `/`, as on Unix: a `\` is part of a name (and sanitisation refuses it). Absolute entries, `..` components and names that file-name
//! sanitisation would change are refused, so an accepted entry names a
//! path inside the notebook directory. Names that Windows reserves for
//! devices, such as `CON.one`, are accepted and kept as they are: the entry
//! names the file the notebook holds under that name, not the marked name
//! (`CON_.one`) that sanitisation would make of it, which no file has.
use vstd::prelude::*;
use crate::errors::{ErrorKind, PathProblem, Result};
use crate::text::same_text;

verus! {

/// What file-name sanitisation (with its default options) makes of `name`.
pub uninterp spec fn sanitised(name: Seq<char>) -> Seq<char>;

/// Calls `sanitise_file_name::sanitise`, which strips or replaces what is
/// not safe in a file name on common file systems; the result is a function
/// of `name` alone, `sanitised(name@)`.
#[verifier::external_body]
fn sanitise_name(name: &str) -> (r: String)
    ensures
        r@ == sanitised(name@),
{
    sanitise_file_name::sanitise(name)
}

/// The pieces of `s` between `/` separators, the first of which continues
/// `cur` (empty pieces included).
pub open spec fn split_rest(s: Seq<char>, cur: Seq<char>) -> Seq<Seq<char>>
    decreases s.len(),
{
    if s.len() == 0 {
        seq![cur]
    } else if s[0] == '/' {
        seq![cur] + split_rest(s.drop_first(), Seq::empty())
    } else {
        split_rest(s.drop_first(), cur.push(s[0]))
    }
}

/// The pieces of `s` between `/` separators (empty pieces included).
pub open spec fn spec_split_slash(s: Seq<char>) -> Seq<Seq<char>> {
    split_rest(s, Seq::empty())
}

/// `name` with an underscore put after its base name (the part before its
/// last `.`, or the whole name if it has none): what sanitisation makes of a
/// name that Windows reserves for a device, such as `CON.one` or `aux`.
pub open spec fn spec_reserved_mark(name: Seq<char>) -> Seq<char>
    decreases name.len(),
{
    if !name.contains('.') {
        name.push('_')
    } else if name.last() == '.' {
        name.drop_last() + seq!['_', '.']
    } else {
        spec_reserved_mark(name.drop_last()).push(name.last())
    }
}

/// A name is accepted when sanitisation leaves it as it is, or changes it
/// only by marking it as a name that Windows reserves for a device. (Only
/// for such names does sanitisation make a name longer.)
pub open spec fn name_accepted(name: Seq<char>) -> bool {
    sanitised(name) == name || sanitised(name) == spec_reserved_mark(name)
}

/// Why an entry's components are refused.
pub enum EntryProblem {
    /// A `..` component.
    Components,
    /// A name that is not accepted.
    Characters(Seq<char>),
}

/// Checks the pieces of an entry in order: empty and `.` pieces are
/// skipped, a `..` piece is refused, as is a name that is not accepted
/// (see [`name_accepted`]); the accepted names otherwise.
pub open spec fn spec_check_segments(segs: Seq<Seq<char>>) -> core::result::Result<
    Seq<Seq<char>>,
    EntryProblem,
>
    decreases segs.len(),
{
    if segs.len() == 0 {
        Ok(Seq::empty())
    } else {
        let seg = segs[0];
        let rest = spec_check_segments(segs.drop_first());
        if seg.len() == 0 || seg == "."@ {
            rest
        } else if seg == ".."@ {
            Err(EntryProblem::Components)
        } else if !name_accepted(seg) {
            Err(EntryProblem::Characters(seg))
        } else {
            match rest {
                Ok(names) => Ok(seq![seg] + names),
                Err(e) => Err(e),
            }
        }
    }
}

/// `names` joined with `/`.
pub open spec fn spec_join_names(names: Seq<Seq<char>>) -> Seq<char>
    decreases names.len(),
{
    if names.len() == 0 {
        Seq::empty()
    } else if names.len() == 1 {
        names[0]
    } else {
        spec_join_names(names.drop_last()) + seq!['/'] + names.last()
    }
}

/// Relative path `rel` below directory `base`: a separator is put between
/// them unless `base` is empty or already ends with one.
pub open spec fn spec_join_path(base: Seq<char>, rel: Seq<char>) -> Seq<char> {
    if base.len() == 0 {
        rel
    } else if base.last() == '/' {
        base + rel
    } else {
        base + seq!['/'] + rel
    }
}

/// A name that stays where it is put: not empty, without a separator, and
/// neither `.` nor `..`.
pub open spec fn is_plain_name(name: Seq<char>) -> bool {
    &&& name.len() > 0
    &&& !name.contains('/')
    &&& name != "."@
    &&& name != ".."@
}

/// Whether `entry` is an absolute path.
pub open spec fn is_absolute_entry(entry: Seq<char>) -> bool {
    entry.len() > 0 && entry[0] == '/'
}

/// What resolving `entry` below `base` yields: the path, or why the entry is
/// refused.
pub open spec fn spec_resolve_entry(base: Seq<char>, entry: Seq<char>) -> core::result::Result<
    Seq<char>,
    EntryRefusal,
> {
    if is_absolute_entry(entry) {
        Err(EntryRefusal::NotRelative)
    } else {
        match spec_check_segments(spec_split_slash(entry)) {
            Err(EntryProblem::Components) => Err(EntryRefusal::InvalidComponents),
            Err(EntryProblem::Characters(name)) => Err(EntryRefusal::InvalidCharacters(name)),
            Ok(names) => if names.len() == 0 {
                Err(EntryRefusal::Empty)
            } else {
                Ok(spec_join_path(base, spec_join_names(names)))
            },
        }
    }
}

/// Why an entry is refused.
pub enum EntryRefusal {
    NotRelative,
    InvalidComponents,
    InvalidCharacters(Seq<char>),
    Empty,
}

/// The error matches the refusal.
pub open spec fn error_matches_refusal(e: ErrorKind, refusal: EntryRefusal) -> bool {
    match refusal {
        EntryRefusal::NotRelative => e matches ErrorKind::InvalidPath {
            problem: PathProblem::NotRelative,
        },
        EntryRefusal::InvalidComponents => e matches ErrorKind::InvalidPath {
            problem: PathProblem::InvalidComponents,
        },
        EntryRefusal::InvalidCharacters(name) => e matches ErrorKind::InvalidPath {
            problem: PathProblem::InvalidCharacters { name: n },
        } && n@ == name,
        EntryRefusal::Empty => e matches ErrorKind::InvalidPath { problem: PathProblem::Empty },
    }
}

/// Whether `s` is `..`.
fn is_parent_name(s: &str) -> (b: bool)
    ensures
        b == (s@ == ".."@),
{
    proof {
        reveal_strlit("..");
    }
    let n = s.unicode_len();
    let b = n == 2 && s.get_char(0) == '.' && s.get_char(1) == '.';
    if n == 2 {
        assert(b ==> s@ =~= ".."@);
    }
    b
}

/// Whether `s` is empty or `.`.
fn is_skipped_name(s: &str) -> (b: bool)
    ensures
        b == (s@.len() == 0 || s@ == "."@),
{
    proof {
        reveal_strlit(".");
    }
    let n = s.unicode_len();
    let b = n == 0 || (n == 1 && s.get_char(0) == '.');
    if n == 1 {
        assert(b ==> s@ =~= "."@);
    }
    b
}

/// With the last `.` of `name` at `d`, marking the name puts the underscore
/// just before that `.`.
proof fn lemma_reserved_mark_at(name: Seq<char>, d: int)
    requires
        0 <= d < name.len(),
        name[d] == '.',
        forall|j: int| d < j < name.len() ==> name[j] != '.',
    ensures
        spec_reserved_mark(name) == name.take(d) + seq!['_'] + name.skip(d),
    decreases name.len(),
{
    assert(name.contains('.'));
    if d == name.len() - 1 {
        assert(name.skip(d) =~= seq!['.']);
        assert(name.drop_last() =~= name.take(d));
        assert(name.drop_last() + seq!['_', '.'] =~= name.take(d) + seq!['_'] + name.skip(d));
    } else {
        let rest = name.drop_last();
        assert(rest[d] == '.');
        lemma_reserved_mark_at(rest, d);
        assert(rest.take(d) =~= name.take(d));
        assert((rest.take(d) + seq!['_'] + rest.skip(d)).push(name.last()) =~= name.take(d)
            + seq!['_'] + name.skip(d));
    }
}

/// `name` marked as a name that Windows reserves for a device.
pub fn reserved_mark(name: &str) -> (s: String)
    ensures
        s@ == spec_reserved_mark(name@),
{
    let n = name.unicode_len();
    let mut i = n;
    while i > 0 && name.get_char(i - 1) != '.'
        invariant
            i <= n,
            n == name@.len(),
            forall|j: int| i <= j < n ==> name@[j] != '.',
        decreases i,
    {
        i = i - 1;
    }
    proof {
        reveal_strlit("_");
    }
    if i == 0 {
        let mut s = name.to_owned();
        s.append("_");
        proof {
            assert(!name@.contains('.'));
            assert(s@ =~= name@.push('_'));
        }
        s
    } else {
        let dot = i - 1;
        let mut s = name.substring_char(0, dot).to_owned();
        s.append("_");
        s.append(name.substring_char(dot, n));
        proof {
            lemma_reserved_mark_at(name@, dot as int);
            assert(name@.subrange(0, dot as int) =~= name@.take(dot as int));
            assert(name@.subrange(dot as int, n as int) =~= name@.skip(dot as int));
        }
        s
    }
}

/// Checks a component of a section entry against what sanitisation makes of
/// it: a name that sanitisation would change is refused, unless the only
/// change marks it as a name that Windows reserves for a device (a notebook
/// may hold a section file such as `CON.one`).
pub fn check_entry_name(name: &str, sanitised_name: &str) -> (r: Result<()>)
    ensures
        (sanitised_name@ == name@ || sanitised_name@ == spec_reserved_mark(name@)) ==> r is Ok,
        !(sanitised_name@ == name@ || sanitised_name@ == spec_reserved_mark(name@)) ==> (r matches Err(
            ErrorKind::InvalidPath { problem: PathProblem::InvalidCharacters { name: n } },
        ) && n@ == name@),
{
    let clean = sanitised_name.to_owned();
    let given = name.to_owned();
    let marked = reserved_mark(name);
    if clean == given || clean == marked {
        Ok(())
    } else {
        Err(ErrorKind::InvalidPath { problem: PathProblem::InvalidCharacters { name: given } })
    }
}

/// Splitting after a separator starts a new piece.
proof fn lemma_split_at_separator(s: Seq<char>, i: int, start: int)
    requires
        0 <= start <= i < s.len(),
        s[i] == '/',
    ensures
        split_rest(s.skip(i), s.subrange(start, i)) == seq![s.subrange(start, i)] + split_rest(
            s.skip(i + 1),
            Seq::empty(),
        ),
{
    assert(s.skip(i).drop_first() =~= s.skip(i + 1));
}

/// Splitting inside a piece extends it.
proof fn lemma_split_inside(s: Seq<char>, i: int, start: int)
    requires
        0 <= start <= i < s.len(),
        s[i] != '/',
    ensures
        split_rest(s.skip(i), s.subrange(start, i)) == split_rest(
            s.skip(i + 1),
            s.subrange(start, i + 1),
        ),
{
    assert(s.skip(i).drop_first() =~= s.skip(i + 1));
    assert(s.subrange(start, i).push(s[i]) =~= s.subrange(start, i + 1));
}

/// The accepted names so far in front of what the remaining pieces yield.
pub open spec fn prepend_names(
    names: Seq<Seq<char>>,
    r: core::result::Result<Seq<Seq<char>>, EntryProblem>,
) -> core::result::Result<Seq<Seq<char>>, EntryProblem> {
    match r {
        Ok(rest) => Ok(names + rest),
        Err(e) => Err(e),
    }
}

/// What checking the pieces `[seg] + tail` yields, for the first piece.
proof fn lemma_check_first(seg: Seq<char>, tail: Seq<Seq<char>>)
    ensures
        spec_check_segments(seq![seg] + tail) == (if seg.len() == 0 || seg == "."@ {
            spec_check_segments(tail)
        } else if seg == ".."@ {
            Err(EntryProblem::Components)
        } else if !name_accepted(seg) {
            Err(EntryProblem::Characters(seg))
        } else {
            match spec_check_segments(tail) {
                Ok(names) => Ok(seq![seg] + names),
                Err(e) => Err(e),
            }
        }),
{
    assert((seq![seg] + tail).drop_first() =~= tail);
    assert((seq![seg] + tail)[0] == seg);
}

/// Accepting a name moves it from the remaining pieces to the names.
proof fn lemma_prepend_accept(
    names: Seq<Seq<char>>,
    seg: Seq<char>,
    r: core::result::Result<Seq<Seq<char>>, EntryProblem>,
)
    ensures
        prepend_names(
            names,
            match r {
                Ok(rest) => Ok(seq![seg] + rest),
                Err(e) => Err(e),
            },
        ) == prepend_names(names.push(seg), r),
{
    if let Ok(rest) = r {
        assert(names + (seq![seg] + rest) =~= names.push(seg) + rest);
    }
}

/// Checks one piece of an entry and adds it to `rel` if it is a name.
fn take_piece(
    seg: &str,
    rel: &mut String,
    count: &mut usize,
    Ghost(names): Ghost<Seq<Seq<char>>>,
) -> (r: Result<Ghost<Seq<Seq<char>>>>)
    requires
        old(rel)@ == spec_join_names(names),
        *old(count) == names.len(),
        *old(count) < usize::MAX || seg@.len() == 0,
    ensures
        match r {
            Ok(g) => {
                let new_names = g@;
                &&& final(rel)@ == spec_join_names(new_names)
                &&& *final(count) == new_names.len()
                &&& if seg@.len() == 0 || seg@ == "."@ {
                    new_names == names
                } else {
                    seg@ != ".."@ && name_accepted(seg@) && new_names == names.push(seg@)
                }
            },
            Err(e) => if seg@.len() == 0 || seg@ == "."@ {
                false
            } else if seg@ == ".."@ {
                e matches ErrorKind::InvalidPath { problem: PathProblem::InvalidComponents }
            } else {
                !name_accepted(seg@) && (e matches ErrorKind::InvalidPath {
                    problem: PathProblem::InvalidCharacters { name: n },
                } && n@ == seg@)
            },
        },
{
    if is_skipped_name(seg) {
        return Ok(Ghost(names));
    }
    if is_parent_name(seg) {
        return Err(ErrorKind::InvalidPath { problem: PathProblem::InvalidComponents });
    }
    let clean = sanitise_name(seg);
    check_entry_name(seg, clean.as_str())?;
    if *count > 0 {
        rel.append("/");
        proof {
            reveal_strlit("/");
        }
    }
    rel.append(seg);
    let ghost new_names = names.push(seg@);
    proof {
        assert(new_names.drop_last() =~= names);
        assert(rel@ =~= spec_join_names(new_names));
    }
    *count = *count + 1;
    Ok(Ghost(new_names))
}

/// Turns a section entry of a table of contents into a path below `base_dir`.
///
/// The entry must be relative; its components are separated by `/`; empty
/// and `.` components are skipped; a `..` component is refused, as is a
/// name that file-name sanitisation would change (other than by marking a
/// name that Windows reserves for a device), and an entry without any name.
/// The accepted names are joined to `base_dir` with `/`.
pub fn resolve_entry_path(base_dir: &str, entry: &str) -> (r: Result<String>)
    ensures
        match spec_resolve_entry(base_dir@, entry@) {
            Ok(p) => r matches Ok(s) && s@ == p,
            Err(refusal) => r matches Err(e) && error_matches_refusal(e, refusal),
        },
{
    let n = entry.unicode_len();
    if n > 0 && entry.get_char(0) == '/' {
        return Err(ErrorKind::InvalidPath { problem: PathProblem::NotRelative });
    }
    let ghost s = entry@;
    let ghost all = spec_check_segments(spec_split_slash(s));
    proof {
        assert(s.skip(0) =~= s);
        assert(s.subrange(0, 0) =~= Seq::<char>::empty());
    }
    let mut rel = String::new();
    let mut count: usize = 0;
    let ghost mut names: Seq<Seq<char>> = Seq::empty();
    let mut start: usize = 0;
    let mut i: usize = 0;
    while i < n
        invariant
            n == s.len(),
            s == entry@,
            !is_absolute_entry(s),
            all == spec_check_segments(spec_split_slash(s)),
            start <= i <= n,
            all == prepend_names(
                names,
                spec_check_segments(split_rest(s.skip(i as int), s.subrange(start as int, i as int))),
            ),
            count == names.len(),
            count <= start,
            rel@ == spec_join_names(names),
        decreases n - i,
    {
        if entry.get_char(i) == '/' {
            let seg = entry.substring_char(start, i);
            let ghost tail = split_rest(s.skip(i + 1), Seq::empty());
            proof {
                lemma_split_at_separator(s, i as int, start as int);
                lemma_check_first(seg@, tail);
                lemma_prepend_accept(names, seg@, spec_check_segments(tail));
            }
            let Ghost(new_names) = take_piece(seg, &mut rel, &mut count, Ghost(names))?;
            proof {
                names = new_names;
                assert(s.subrange(i + 1, i + 1) =~= Seq::<char>::empty());
            }
            start = i + 1;
        } else {
            proof {
                lemma_split_inside(s, i as int, start as int);
            }
        }
        i = i + 1;
    }
    // The last piece.
    let seg = entry.substring_char(start, n);
    proof {
        assert(s.skip(n as int) =~= Seq::<char>::empty());
        assert(split_rest(s.skip(n as int), seg@) == seq![seg@]);
        lemma_check_first(seg@, Seq::empty());
        lemma_prepend_accept(names, seg@, spec_check_segments(Seq::<Seq<char>>::empty()));
        assert(names + Seq::<Seq<char>>::empty() =~= names);
        assert(names.push(seg@) + Seq::<Seq<char>>::empty() =~= names.push(seg@));
    }
    let Ghost(final_names) = take_piece(seg, &mut rel, &mut count, Ghost(names))?;
    if count == 0 {
        return Err(ErrorKind::InvalidPath { problem: PathProblem::Empty });
    }
    let mut candidate = base_dir.to_owned();
    let blen = base_dir.unicode_len();
    if blen > 0 && base_dir.get_char(blen - 1) != '/' {
        candidate.append("/");
        proof {
            reveal_strlit("/");
        }
    }
    candidate.append(rel.as_str());
    assert(candidate@ =~= spec_join_path(base_dir@, spec_join_names(final_names)));
    Ok(candidate)
}

/// `cur` as a path component: none if it is empty or `.`.
pub open spec fn keep_component(cur: Seq<char>) -> Seq<Seq<char>> {
    if cur.len() == 0 || cur == "."@ {
        Seq::empty()
    } else {
        seq![cur]
    }
}

/// The components of `s`, the first of which continues `cur`: its
/// `/`-separated pieces, without empty and `.` pieces.
pub open spec fn components_rest(s: Seq<char>, cur: Seq<char>) -> Seq<Seq<char>>
    decreases s.len(),
{
    if s.len() == 0 {
        keep_component(cur)
    } else if s[0] == '/' {
        keep_component(cur) + components_rest(s.drop_first(), Seq::empty())
    } else {
        components_rest(s.drop_first(), cur.push(s[0]))
    }
}

/// The components of `path`: its `/`-separated pieces, without empty and
/// `.` pieces.
pub open spec fn spec_components(path: Seq<char>) -> Seq<Seq<char>> {
    components_rest(path, Seq::empty())
}

/// Whether `path` lies within directory `dir`: both are absolute or both
/// are relative, and the components of `dir` begin those of `path`. The
/// components are compared as they are, with no `..` resolved: the paths are
/// meant to have had their links and `..` components resolved already.
pub open spec fn spec_within(dir: Seq<char>, path: Seq<char>) -> bool {
    &&& is_absolute_entry(dir) == is_absolute_entry(path)
    &&& spec_components(dir).is_prefix_of(spec_components(path))
}

/// Refuses a section entry path `candidate` that lies outside the notebook
/// directory `base`; both are meant to have their links resolved (see
/// [`spec_within`]).
pub fn check_confined(base: &str, candidate: &str) -> (r: Result<()>)
    ensures
        spec_within(base@, candidate@) ==> r is Ok,
        !spec_within(base@, candidate@) ==> r matches Err(
            ErrorKind::InvalidPath { problem: PathProblem::EscapesBase },
        ),
{
    if is_within(base, candidate) {
        Ok(())
    } else {
        Err(ErrorKind::InvalidPath { problem: PathProblem::EscapesBase })
    }
}

/// Components at a separator: the piece before it, then the rest.
proof fn lemma_components_at_separator(s: Seq<char>, i: int, start: int)
    requires
        0 <= start <= i < s.len(),
        s[i] == '/',
    ensures
        components_rest(s.skip(i), s.subrange(start, i)) == keep_component(s.subrange(start, i))
            + components_rest(s.skip(i + 1), Seq::empty()),
{
    assert(s.skip(i).drop_first() =~= s.skip(i + 1));
}

/// Components inside a piece: the piece goes on.
proof fn lemma_components_inside(s: Seq<char>, i: int, start: int)
    requires
        0 <= start <= i < s.len(),
        s[i] != '/',
    ensures
        components_rest(s.skip(i), s.subrange(start, i)) == components_rest(
            s.skip(i + 1),
            s.subrange(start, i + 1),
        ),
{
    assert(s.skip(i).drop_first() =~= s.skip(i + 1));
    assert(s.subrange(start, i).push(s[i]) =~= s.subrange(start, i + 1));
}

/// The texts of a list of strings.
pub open spec fn texts(v: Seq<String>) -> Seq<Seq<char>> {
    v.map_values(|x: String| x@)
}

/// Adds the piece `seg` to `out` if it is a component.
fn push_component(out: &mut Vec<String>, seg: &str)
    ensures
        texts(final(out)@) == texts(old(out)@) + keep_component(seg@),
{
    let ghost before = out@;
    if !is_skipped_name(seg) {
        out.push(seg.to_owned());
        assert(texts(out@) =~= texts(before) + seq![seg@]);
    } else {
        assert(texts(out@) =~= texts(before) + Seq::<Seq<char>>::empty());
    }
}

/// The components of `path`.
pub fn components(path: &str) -> (v: Vec<String>)
    ensures
        texts(v@) == spec_components(path@),
{
    let n = path.unicode_len();
    let ghost s = path@;
    let mut v: Vec<String> = Vec::new();
    let mut start: usize = 0;
    let mut i: usize = 0;
    proof {
        assert(s.skip(0) =~= s);
        assert(s.subrange(0, 0) =~= Seq::<char>::empty());
        assert(texts(v@) =~= Seq::<Seq<char>>::empty());
    }
    while i < n
        invariant
            n == s.len(),
            s == path@,
            start <= i <= n,
            spec_components(s) == texts(v@) + components_rest(
                s.skip(i as int),
                s.subrange(start as int, i as int),
            ),
        decreases n - i,
    {
        if path.get_char(i) == '/' {
            let seg = path.substring_char(start, i);
            let ghost before = texts(v@);
            proof {
                lemma_components_at_separator(s, i as int, start as int);
            }
            push_component(&mut v, seg);
            proof {
                assert(s.subrange(i + 1, i + 1) =~= Seq::<char>::empty());
                assert(before + (keep_component(seg@) + components_rest(
                    s.skip(i + 1),
                    Seq::empty(),
                )) =~= texts(v@) + components_rest(s.skip(i + 1), Seq::empty()));
            }
            start = i + 1;
        } else {
            proof {
                lemma_components_inside(s, i as int, start as int);
            }
        }
        i = i + 1;
    }
    let seg = path.substring_char(start, n);
    proof {
        assert(s.skip(n as int) =~= Seq::<char>::empty());
    }
    push_component(&mut v, seg);
    v
}

/// Whether `path` lies within directory `dir` (see [`spec_within`]).
pub fn is_within(dir: &str, path: &str) -> (b: bool)
    ensures
        b == spec_within(dir@, path@),
{
    let dir_absolute = dir.unicode_len() > 0 && dir.get_char(0) == '/';
    let path_absolute = path.unicode_len() > 0 && path.get_char(0) == '/';
    if dir_absolute != path_absolute {
        return false;
    }
    let a = components(dir);
    let b = components(path);
    if a.len() > b.len() {
        return false;
    }
    let mut i: usize = 0;
    while i < a.len()
        invariant
            i <= a@.len() <= b@.len(),
            forall|j: int| 0 <= j < i ==> a@[j]@ == b@[j]@,
            texts(a@) == spec_components(dir@),
            texts(b@) == spec_components(path@),
            is_absolute_entry(dir@) == is_absolute_entry(path@),
        decreases a@.len() - i,
    {
        if !same_text(a[i].as_str(), b[i].as_str()) {
            proof {
                assert(texts(a@)[i as int] == a@[i as int]@);
                assert(texts(b@)[i as int] == b@[i as int]@);
                if texts(a@).is_prefix_of(texts(b@)) {
                    assert(texts(a@)[i as int] == texts(b@).subrange(0, a@.len() as int)[i as int]);
                }
            }
            return false;
        }
        i = i + 1;
    }
    proof {
        assert(texts(a@) =~= texts(b@).subrange(0, a@.len() as int));
    }
    true
}

/// No piece contains a separator.
pub open spec fn pieces_without_separator(segs: Seq<Seq<char>>) -> bool {
    forall|k: int| 0 <= k < segs.len() ==> !(#[trigger] segs[k]).contains('/')
}

/// Splitting at separators leaves no separator in any piece.
pub proof fn lemma_split_pieces_without_separator(s: Seq<char>, cur: Seq<char>)
    requires
        !cur.contains('/'),
    ensures
        pieces_without_separator(split_rest(s, cur)),
    decreases s.len(),
{
    if s.len() == 0 {
    } else if s[0] == '/' {
        lemma_split_pieces_without_separator(s.drop_first(), Seq::empty());
        let rest = split_rest(s.drop_first(), Seq::empty());
        assert forall|k: int| 0 <= k < (seq![cur] + rest).len() implies !(#[trigger] (seq![cur]
            + rest)[k]).contains('/') by {
            if k > 0 {
                assert((seq![cur] + rest)[k] == rest[k - 1]);
            }
        }
    } else {
        assert forall|c: char| cur.push(s[0]).contains(c) implies c != '/' by {
            let j = choose|j: int| 0 <= j < cur.push(s[0]).len() && cur.push(s[0])[j] == c;
            if j < cur.len() {
                assert(cur.contains(cur[j]));
            }
        }
        lemma_split_pieces_without_separator(s.drop_first(), cur.push(s[0]));
    }
}

/// The names that the check accepts are plain names.
pub proof fn lemma_checked_names_plain(segs: Seq<Seq<char>>)
    requires
        pieces_without_separator(segs),
    ensures
        spec_check_segments(segs) matches Ok(names) ==> forall|k: int|
            0 <= k < names.len() ==> is_plain_name(#[trigger] names[k]),
    decreases segs.len(),
{
    if segs.len() > 0 {
        let tail = segs.drop_first();
        assert forall|k: int| 0 <= k < tail.len() implies !(#[trigger] tail[k]).contains('/') by {
            assert(tail[k] == segs[k + 1]);
        }
        lemma_checked_names_plain(tail);
        let seg = segs[0];
        assert(!segs[0].contains('/'));
        if let Ok(names) = spec_check_segments(segs) {
            if !(seg.len() == 0 || seg == "."@) {
                if let Ok(rest) = spec_check_segments(tail) {
                    assert forall|k: int| 0 <= k < names.len() implies is_plain_name(
                        #[trigger] names[k],
                    ) by {
                        if k > 0 {
                            assert(names[k] == rest[k - 1]);
                        }
                    }
                }
            }
        }
    }
}

/// A section entry that is accepted names a path inside the base directory:
/// the base directory followed by one or more plain names (none empty, none
/// holding a separator, none `.` or `..`).
pub proof fn law_resolved_entry_stays_inside_base(base: Seq<char>, entry: Seq<char>)
    ensures
        spec_resolve_entry(base, entry) matches Ok(p) ==> exists|names: Seq<Seq<char>>|
            {
                &&& names.len() > 0
                &&& forall|k: int| 0 <= k < names.len() ==> is_plain_name(#[trigger] names[k])
                &&& p == spec_join_path(base, spec_join_names(names))
            },
{
    lemma_split_pieces_without_separator(entry, Seq::empty());
    lemma_checked_names_plain(spec_split_slash(entry));
    if let Ok(p) = spec_resolve_entry(base, entry) {
        if let Ok(names) = spec_check_segments(spec_split_slash(entry)) {
            assert(p == spec_join_path(base, spec_join_names(names)));
        }
    }
}

/// The components of a path joined at a separator are those of its two
/// sides.
proof fn lemma_components_join(s1: Seq<char>, s2: Seq<char>, cur: Seq<char>)
    ensures
        components_rest(s1 + seq!['/'] + s2, cur) == components_rest(s1, cur) + spec_components(s2),
    decreases s1.len(),
{
    let whole = s1 + seq!['/'] + s2;
    if s1.len() == 0 {
        assert(whole[0] == '/');
        assert(whole.drop_first() =~= s2);
    } else {
        assert(whole[0] == s1[0]);
        assert(whole.drop_first() =~= s1.drop_first() + seq!['/'] + s2);
        if s1[0] == '/' {
            lemma_components_join(s1.drop_first(), s2, Seq::empty());
            assert(keep_component(cur) + (components_rest(s1.drop_first(), Seq::empty())
                + spec_components(s2)) =~= keep_component(cur) + components_rest(
                s1.drop_first(),
                Seq::empty(),
            ) + spec_components(s2));
        } else {
            lemma_components_join(s1.drop_first(), s2, cur.push(s1[0]));
        }
    }
}

/// A piece without separators is one component at most.
proof fn lemma_components_of_piece(s: Seq<char>, cur: Seq<char>)
    requires
        !s.contains('/'),
    ensures
        components_rest(s, cur) == keep_component(cur + s),
    decreases s.len(),
{
    if s.len() == 0 {
        assert(cur + s =~= cur);
    } else {
        assert(s[0] != '/') by {
            assert(s.contains(s[0]));
        }
        assert(!s.drop_first().contains('/')) by {
            if s.drop_first().contains('/') {
                let j = choose|j: int| 0 <= j < s.drop_first().len() && s.drop_first()[j] == '/';
                assert(s[j + 1] == '/');
            }
        }
        lemma_components_of_piece(s.drop_first(), cur.push(s[0]));
        assert(cur.push(s[0]) + s.drop_first() =~= cur + s);
    }
}

/// Plain names joined with separators have those names as components.
proof fn lemma_components_of_names(names: Seq<Seq<char>>)
    requires
        forall|k: int| 0 <= k < names.len() ==> is_plain_name(#[trigger] names[k]),
    ensures
        spec_components(spec_join_names(names)) == names,
    decreases names.len(),
{
    if names.len() == 0 {
        assert(spec_components(Seq::empty()) =~= Seq::<Seq<char>>::empty());
    } else {
        let last = names.last();
        assert(is_plain_name(names[names.len() - 1]));
        lemma_components_of_piece(last, Seq::empty());
        assert(Seq::<char>::empty() + last =~= last);
        if names.len() == 1 {
            assert(names =~= seq![last]);
        } else {
            let front = names.drop_last();
            assert forall|k: int| 0 <= k < front.len() implies is_plain_name(#[trigger] front[k]) by {
                assert(front[k] == names[k]);
            }
            lemma_components_of_names(front);
            lemma_components_join(spec_join_names(front), last, Seq::empty());
            assert(front + seq![last] =~= names);
        }
    }
}

/// The components of a relative path joined below `base` are those of
/// `base` followed by those of the relative path.
proof fn lemma_components_below(base: Seq<char>, rel: Seq<char>)
    ensures
        spec_components(spec_join_path(base, rel)) == spec_components(base) + spec_components(rel),
{
    if base.len() == 0 {
        assert(spec_components(base) =~= Seq::<Seq<char>>::empty());
        assert(Seq::<Seq<char>>::empty() + spec_components(rel) =~= spec_components(rel));
    } else if base.last() == '/' {
        let front = base.drop_last();
        assert(front + seq!['/'] + rel =~= base + rel);
        lemma_components_join(front, rel, Seq::empty());
        assert(front + seq!['/'] + Seq::<char>::empty() =~= base);
        lemma_components_join(front, Seq::empty(), Seq::empty());
        assert(spec_components(Seq::<char>::empty()) =~= Seq::<Seq<char>>::empty());
        assert(spec_components(front) + Seq::<Seq<char>>::empty() =~= spec_components(front));
    } else {
        lemma_components_join(base, rel, Seq::empty());
    }
}

/// Plain names joined with separators start with the first name's first
/// character.
proof fn lemma_join_names_starts_with_name(names: Seq<Seq<char>>)
    requires
        names.len() > 0,
        forall|k: int| 0 <= k < names.len() ==> is_plain_name(#[trigger] names[k]),
    ensures
        spec_join_names(names).len() > 0,
        spec_join_names(names)[0] == names[0][0],
    decreases names.len(),
{
    assert(is_plain_name(names[0]));
    if names.len() > 1 {
        let front = names.drop_last();
        assert forall|k: int| 0 <= k < front.len() implies is_plain_name(#[trigger] front[k]) by {
            assert(front[k] == names[k]);
        }
        lemma_join_names_starts_with_name(front);
        assert(front[0] == names[0]);
    }
}

/// A section entry that is accepted names a path within the base
/// directory, below it: the components of the base directory, followed by
/// at least one more.
pub proof fn law_resolved_entry_within_base(base: Seq<char>, entry: Seq<char>)
    ensures
        spec_resolve_entry(base, entry) matches Ok(p) ==> spec_within(base, p) && spec_components(
            p,
        ).len() > spec_components(base).len(),
{
    lemma_split_pieces_without_separator(entry, Seq::empty());
    lemma_checked_names_plain(spec_split_slash(entry));
    if let Ok(p) = spec_resolve_entry(base, entry) {
        if let Ok(names) = spec_check_segments(spec_split_slash(entry)) {
            let rel = spec_join_names(names);
            lemma_components_of_names(names);
            lemma_components_below(base, rel);
            assert(spec_components(base).is_prefix_of(spec_components(p))) by {
                assert(spec_components(base) =~= (spec_components(base) + names).subrange(
                    0,
                    spec_components(base).len() as int,
                ));
            }
            lemma_join_names_starts_with_name(names);
            assert(names[0][0] != '/') by {
                assert(is_plain_name(names[0]));
                assert(names[0].contains(names[0][0]));
            }
            if base.len() > 0 {
                assert(p[0] == base[0]);
            }
        }
    }
}

/// Whether `c` separates path components under Windows rules.
pub open spec fn is_windows_separator(c: char) -> bool {
    c == '/' || c == '\\'
}

/// Whether `c` is an ASCII letter, as a drive letter is.
pub open spec fn is_drive_letter(c: char) -> bool {
    ('a' <= c && c <= 'z') || ('A' <= c && c <= 'Z')
}

/// `s` with each `\` turned into `/`.
pub open spec fn spec_forward_slashes(s: Seq<char>) -> Seq<char> {
    s.map_values(|c: char| if c == '\\' { '/' } else { c })
}

/// Why a section entry is refused under Windows rules before its
/// components are read: one that starts with two separators (a UNC, device
/// or verbatim path) or with a drive and a separator is absolute; one with
/// a drive and no separator after it, or with one leading separator, has a
/// prefix or root component.
pub open spec fn spec_windows_prefix_refusal(entry: Seq<char>) -> Option<EntryRefusal> {
    if entry.len() >= 2 && is_windows_separator(entry[0]) && is_windows_separator(entry[1]) {
        Some(EntryRefusal::NotRelative)
    } else if entry.len() >= 2 && is_drive_letter(entry[0]) && entry[1] == ':' {
        if entry.len() >= 3 && is_windows_separator(entry[2]) {
            Some(EntryRefusal::NotRelative)
        } else {
            Some(EntryRefusal::InvalidComponents)
        }
    } else if entry.len() >= 1 && is_windows_separator(entry[0]) {
        Some(EntryRefusal::InvalidComponents)
    } else {
        None
    }
}

/// What resolving `entry` below `base` yields under Windows rules, where
/// `\` separates components as `/` does: the path (its components joined
/// with `/`, which Windows reads as a separator too), or why the entry is
/// refused.
pub open spec fn spec_resolve_windows_entry(base: Seq<char>, entry: Seq<char>) -> core::result::Result<
    Seq<char>,
    EntryRefusal,
> {
    match spec_windows_prefix_refusal(entry) {
        Some(refusal) => Err(refusal),
        None => spec_resolve_entry(base, spec_forward_slashes(entry)),
    }
}

/// `s` with each `\` turned into `/`.
pub fn forward_slashes(s: &str) -> (r: String)
    ensures
        r@ == spec_forward_slashes(s@),
{
    let n = s.unicode_len();
    let mut out = String::new();
    let mut i: usize = 0;
    proof {
        reveal_strlit("/");
        assert(out@ =~= spec_forward_slashes(s@).take(0));
    }
    while i < n
        invariant
            i <= n,
            n == s@.len(),
            out@ == spec_forward_slashes(s@).take(i as int),
        decreases n - i,
    {
        let ghost before = out@;
        if s.get_char(i) == '\\' {
            out.append("/");
            proof {
                reveal_strlit("/");
                assert(out@ =~= before + seq!['/']);
            }
        } else {
            let piece = s.substring_char(i, i + 1);
            out.append(piece);
            proof {
                assert(piece@ =~= seq![s@[i as int]]);
                assert(out@ =~= before + seq![s@[i as int]]);
            }
        }
        proof {
            assert(spec_forward_slashes(s@).take(i + 1) =~= spec_forward_slashes(s@).take(i as int)
                + seq![spec_forward_slashes(s@)[i as int]]);
        }
        i = i + 1;
    }
    proof {
        assert(spec_forward_slashes(s@).take(n as int) =~= spec_forward_slashes(s@));
    }
    out
}

/// Whether `c` separates path components under Windows rules.
fn is_windows_separator_char(c: char) -> (b: bool)
    ensures
        b == is_windows_separator(c),
{
    c == '/' || c == '\\'
}

/// Turns a section entry of a table of contents into a path below
/// `base_dir` under Windows rules: `\` separates components as `/` does,
/// an entry that is absolute (a drive with a separator, or a UNC, device or
/// verbatim path) or that has a drive or root component is refused, and the
/// rest is resolved as [`resolve_entry_path`] does.
pub fn resolve_windows_entry_path(base_dir: &str, entry: &str) -> (r: Result<String>)
    ensures
        match spec_resolve_windows_entry(base_dir@, entry@) {
            Ok(p) => r matches Ok(s) && s@ == p,
            Err(refusal) => r matches Err(e) && error_matches_refusal(e, refusal),
        },
{
    let n = entry.unicode_len();
    if n >= 2 && is_windows_separator_char(entry.get_char(0)) && is_windows_separator_char(
        entry.get_char(1),
    ) {
        return Err(ErrorKind::InvalidPath { problem: PathProblem::NotRelative });
    }
    if n >= 2 && entry.get_char(1) == ':' {
        let d = entry.get_char(0);
        if ('a' <= d && d <= 'z') || ('A' <= d && d <= 'Z') {
            if n >= 3 && is_windows_separator_char(entry.get_char(2)) {
                return Err(ErrorKind::InvalidPath { problem: PathProblem::NotRelative });
            }
            return Err(ErrorKind::InvalidPath { problem: PathProblem::InvalidComponents });
        }
    }
    if n >= 1 && is_windows_separator_char(entry.get_char(0)) {
        return Err(ErrorKind::InvalidPath { problem: PathProblem::InvalidComponents });
    }
    let converted = forward_slashes(entry);
    resolve_entry_path(base_dir, converted.as_str())
}

/// Refuses a section entry path `candidate` that lies outside the notebook
/// directory `base`, both read under Windows rules (`\` separates
/// components as `/` does) and meant to have their links resolved.
pub fn check_windows_confined(base: &str, candidate: &str) -> (r: Result<()>)
    ensures
        spec_within(spec_forward_slashes(base@), spec_forward_slashes(candidate@)) ==> r is Ok,
        !spec_within(spec_forward_slashes(base@), spec_forward_slashes(candidate@)) ==> r matches Err(
            ErrorKind::InvalidPath { problem: PathProblem::EscapesBase },
        ),
{
    let b = forward_slashes(base);
    let c = forward_slashes(candidate);
    check_confined(b.as_str(), c.as_str())
}

/// Under Windows rules too, a section entry that is accepted names a path
/// within the base directory, below it.
pub proof fn law_windows_entry_within_base(base: Seq<char>, entry: Seq<char>)
    ensures
        spec_resolve_windows_entry(base, entry) matches Ok(p) ==> spec_within(base, p)
            && spec_components(p).len() > spec_components(base).len(),
{
    law_resolved_entry_within_base(base, spec_forward_slashes(entry));
}

/// Splitting a piece without separators gives one piece.
proof fn lemma_split_piece(s: Seq<char>, cur: Seq<char>)
    requires
        !s.contains('/'),
    ensures
        split_rest(s, cur) == seq![cur + s],
    decreases s.len(),
{
    if s.len() == 0 {
        assert(cur + s =~= cur);
    } else {
        assert(s[0] != '/') by {
            assert(s.contains(s[0]));
        }
        assert(!s.drop_first().contains('/')) by {
            if s.drop_first().contains('/') {
                let j = choose|j: int| 0 <= j < s.drop_first().len() && s.drop_first()[j] == '/';
                assert(s[j + 1] == '/');
            }
        }
        lemma_split_piece(s.drop_first(), cur.push(s[0]));
        assert(cur.push(s[0]) + s.drop_first() =~= cur + s);
    }
}

/// A section entry that is one plain name (not empty, without a separator,
/// neither `.` nor `..`) which sanitisation leaves as it is, whatever
/// characters it holds, is accepted and names the path of that name
/// directly below the base directory.
pub proof fn law_unchanged_names_resolve(base: Seq<char>, name: Seq<char>)
    requires
        is_plain_name(name),
        sanitised(name) == name,
    ensures
        spec_resolve_entry(base, name) == Ok::<Seq<char>, EntryRefusal>(spec_join_path(base, name)),
{
    assert(name[0] != '/') by {
        assert(name.contains(name[0]));
    }
    lemma_split_piece(name, Seq::empty());
    assert(Seq::<char>::empty() + name =~= name);
    lemma_check_first(name, Seq::empty());
    assert(seq![name] + Seq::<Seq<char>>::empty() =~= seq![name]);
    assert(spec_check_segments(Seq::<Seq<char>>::empty()) == Ok::<Seq<Seq<char>>, EntryProblem>(
        Seq::empty(),
    ));
    assert(name_accepted(name));
    assert(seq![name] + Seq::<Seq<char>>::empty() =~= seq![name]);
    assert(spec_join_names(seq![name]) == name);
}

} // verus!
