use vstd::prelude::*;
use vstd::multiset::Multiset;
use vstd::string::*;

verus! {

/// What `std::path::Path::extension` gives for a path: the part of its file
/// name after the last dot, if any.
pub uninterp spec fn path_extension(p: Seq<char>) -> Option<Seq<char>>;

/// What `str::to_lowercase` gives for a text.
pub uninterp spec fn lower_of(s: Seq<char>) -> Seq<char>;

/// One entry of the note tree: a markdown file, or a directory that holds
/// some.
#[derive(Debug)]
pub struct FileEntry {
    pub name: String,
    pub path: String,
    pub is_dir: bool,
    pub children: Option<Vec<FileEntry>>,
}

/// A change in the watched note directory.
#[derive(Clone, Debug, PartialEq, Eq)]
pub enum FsEvent {
    Created { path: String },
    Modified { path: String },
    Deleted { path: String },
    Renamed { old_path: String, new_path: String },
}

/// The kind of a change as the directory watcher reports it.
#[derive(Clone, Copy, Debug, PartialEq, Eq, Structural)]
pub enum WatchKind {
    Create,
    Modify,
    Remove,
    Other,
}

pub enum FsEventModel {
    Created(Seq<char>),
    Modified(Seq<char>),
    Deleted(Seq<char>),
    Renamed(Seq<char>, Seq<char>),
}

pub open spec fn event_view(e: FsEvent) -> FsEventModel {
    match e {
        FsEvent::Created { path } => FsEventModel::Created(path@),
        FsEvent::Modified { path } => FsEventModel::Modified(path@),
        FsEvent::Deleted { path } => FsEventModel::Deleted(path@),
        FsEvent::Renamed { old_path, new_path } => FsEventModel::Renamed(old_path@, new_path@),
    }
}

pub open spec fn md_ext() -> Seq<char> {
    seq!['m', 'd']
}

/// A path names a markdown file when its extension is exactly `md`.
pub open spec fn is_md_path(p: Seq<char>) -> bool {
    path_extension(p) == Some(md_ext())
}

/// The first markdown path at or after position `i`.
pub open spec fn first_md_from(ps: Seq<String>, i: int) -> Option<Seq<char>>
    decreases ps.len() - i,
{
    if i < 0 || i >= ps.len() {
        None
    } else if is_md_path(ps[i]@) {
        Some(ps[i]@)
    } else {
        first_md_from(ps, i + 1)
    }
}

/// A watcher report becomes an event on its first markdown path; reports
/// that touch no markdown file, and kinds other than create, modify and
/// remove, are dropped.
pub open spec fn classify_spec(kind: WatchKind, ps: Seq<String>) -> Option<FsEventModel> {
    match first_md_from(ps, 0) {
        None => None,
        Some(p) => match kind {
            WatchKind::Create => Some(FsEventModel::Created(p)),
            WatchKind::Modify => Some(FsEventModel::Modified(p)),
            WatchKind::Remove => Some(FsEventModel::Deleted(p)),
            WatchKind::Other => None,
        },
    }
}

/// Relies on `std::path::Path::extension`, read back as text.
#[verifier::external_body]
fn extension_of(p: &str) -> (r: Option<String>)
    ensures
        match r {
            Some(e) => path_extension(p@) == Some(e@),
            None => path_extension(p@) is None,
        },
{
    match std::path::Path::new(p).extension() {
        Some(e) => Some(e.to_string_lossy().into_owned()),
        None => None,
    }
}

/// Relies on `str::to_lowercase`.
#[verifier::external_body]
fn lowercase(s: &str) -> (r: String)
    ensures
        r@ == lower_of(s@),
{
    s.to_lowercase()
}

/// Whether the path's extension is exactly `md`.
pub fn is_markdown_path(p: &str) -> (r: bool)
    ensures
        r == is_md_path(p@),
{
    match extension_of(p) {
        None => false,
        Some(e) => {
            let s = e.as_str();
            if s.unicode_len() != 2 {
                return false;
            }
            if s.get_char(0) == 'm' && s.get_char(1) == 'd' {
                assert(e@ =~= md_ext());
                true
            } else {
                assert(e@ != md_ext()) by {
                    if e@ == md_ext() {
                        assert(e@[0] == 'm' && e@[1] == 'd');
                    }
                }
                false
            }
        },
    }
}

/// The event a watcher report gives rise to, if any.
pub fn classify_watch_event(kind: WatchKind, paths: &Vec<String>) -> (r: Option<FsEvent>)
    ensures
        match r {
            Some(e) => classify_spec(kind, paths@) == Some(event_view(e)),
            None => classify_spec(kind, paths@) is None,
        },
{
    let mut i: usize = 0;
    while i < paths.len()
        invariant
            i <= paths@.len(),
            first_md_from(paths@, 0) == first_md_from(paths@, i as int),
        decreases paths@.len() - i,
    {
        if is_markdown_path(paths[i].as_str()) {
            let path = paths[i].clone();
            return match kind {
                WatchKind::Create => Some(FsEvent::Created { path }),
                WatchKind::Modify => Some(FsEvent::Modified { path }),
                WatchKind::Remove => Some(FsEvent::Deleted { path }),
                WatchKind::Other => None,
            };
        }
        i = i + 1;
    }
    None
}

pub open spec fn dotted_md() -> Seq<char> {
    seq!['.', 'm', 'd']
}

/// Hidden names start with a dot.
pub open spec fn is_hidden_name(name: Seq<char>) -> bool {
    name.len() > 0 && name[0] == '.'
}

pub open spec fn ends_with_md(name: Seq<char>) -> bool {
    name.len() >= 3 && name.subrange(name.len() - 3, name.len() as int) == dotted_md()
}

/// Whether a directory entry belongs in the note tree: never when hidden; a
/// directory when it holds notes; a file when its name ends in `.md`.
pub open spec fn keeps_entry(name: Seq<char>, is_dir: bool, holds_notes: bool) -> bool {
    !is_hidden_name(name) && if is_dir {
        holds_notes
    } else {
        ends_with_md(name)
    }
}

/// Whether a name is hidden from the note tree.
pub fn is_hidden_entry(name: &str) -> (r: bool)
    ensures
        r == is_hidden_name(name@),
{
    name.unicode_len() > 0 && name.get_char(0) == '.'
}

/// Whether a directory entry belongs in the note tree. For a directory,
/// `holds_notes` says whether its listing is non-empty or some file under it
/// has the `md` extension.
pub fn keep_tree_entry(name: &str, is_dir: bool, holds_notes: bool) -> (r: bool)
    ensures
        r == keeps_entry(name@, is_dir, holds_notes),
{
    if is_hidden_entry(name) {
        return false;
    }
    let n = name.unicode_len();
    if is_dir {
        return holds_notes;
    }
    if n < 3 {
        return false;
    }
    let ok = name.get_char(n - 3) == '.' && name.get_char(n - 2) == 'm' && name.get_char(n - 1) == 'd';
    proof {
        let tail = name@.subrange(n - 3, n as int);
        if ok {
            assert(tail =~= dotted_md());
        } else if tail == dotted_md() {
            assert(tail[0] == name@[n - 3] && tail[1] == name@[n - 2] && tail[2] == name@[n - 1]);
        }
    }
    ok
}

/// Texts in lexicographic order of their characters, as `String`'s `Ord`
/// compares them.
pub open spec fn text_lt(a: Seq<char>, b: Seq<char>) -> bool
    decreases a.len(),
{
    if b.len() == 0 {
        false
    } else if a.len() == 0 {
        true
    } else if a[0] != b[0] {
        (a[0] as int) < (b[0] as int)
    } else {
        text_lt(a.drop_first(), b.drop_first())
    }
}

/// The tree lists directories before files, and otherwise goes by the
/// lower-cased names.
pub open spec fn entry_before(a: FileEntry, b: FileEntry) -> bool {
    (a.is_dir && !b.is_dir) || (a.is_dir == b.is_dir && text_lt(lower_of(a.name@), lower_of(b.name@)))
}

pub open spec fn entries_sorted(s: Seq<FileEntry>) -> bool {
    forall|i: int, j: int| 0 <= i < j < s.len() ==> !entry_before(#[trigger] s[j], #[trigger] s[i])
}

proof fn lemma_text_lt_asymmetric(a: Seq<char>, b: Seq<char>)
    ensures
        !(text_lt(a, b) && text_lt(b, a)),
    decreases a.len(),
{
    if a.len() > 0 && b.len() > 0 && a[0] == b[0] {
        lemma_text_lt_asymmetric(a.drop_first(), b.drop_first());
    }
}

proof fn lemma_text_lt_transitive(a: Seq<char>, b: Seq<char>, c: Seq<char>)
    requires
        text_lt(a, b),
        text_lt(b, c),
    ensures
        text_lt(a, c),
    decreases a.len(),
{
    if a.len() > 0 && a[0] == b[0] && b[0] == c[0] {
        lemma_text_lt_transitive(a.drop_first(), b.drop_first(), c.drop_first());
    }
}

/// Entries of the same kind whose lower-cased names are equal: the tree
/// order does not tell them apart.
pub open spec fn same_rank_as(x: FileEntry) -> spec_fn(FileEntry) -> bool {
    |e: FileEntry| e.is_dir == x.is_dir && lower_of(e.name@) == lower_of(x.name@)
}

proof fn lemma_text_lt_total(a: Seq<char>, b: Seq<char>)
    ensures
        text_lt(a, b) || text_lt(b, a) || a == b,
    decreases a.len(),
{
    if a.len() > 0 && b.len() > 0 && a[0] == b[0] {
        lemma_text_lt_total(a.drop_first(), b.drop_first());
        if a.drop_first() == b.drop_first() {
            assert(a =~= seq![a[0]] + a.drop_first());
            assert(b =~= seq![b[0]] + b.drop_first());
        }
    } else if a.len() == 0 && b.len() == 0 {
        assert(a =~= b);
    } else if a.len() > 0 && b.len() > 0 {
        assert((a[0] as int) != (b[0] as int));
    }
}

/// Inserting `e` before the first entry it precedes puts it after every
/// entry of its own rank.
proof fn lemma_insert_filter(s: Seq<FileEntry>, pos: int, e: FileEntry, x: FileEntry)
    requires
        entries_sorted(s),
        0 <= pos <= s.len(),
        forall|k: int| 0 <= k < pos ==> !entry_before(e, #[trigger] s[k]),
        pos < s.len() ==> entry_before(e, s[pos]),
    ensures
        s.insert(pos, e).filter(same_rank_as(x)) == if same_rank_as(x)(e) {
            s.filter(same_rank_as(x)).push(e)
        } else {
            s.filter(same_rank_as(x))
        },
{
    let p = same_rank_as(x);
    let lo = s.subrange(0, pos);
    let hi = s.subrange(pos, s.len() as int);
    assert(s.insert(pos, e) =~= lo + seq![e] + hi);
    assert(s =~= lo + hi);
    Seq::filter_distributes_over_add(lo + seq![e], hi, p);
    Seq::filter_distributes_over_add(lo, seq![e], p);
    Seq::filter_distributes_over_add(lo, hi, p);
    lo.lemma_filter_push(e, p);
    assert(lo + seq![e] =~= lo.push(e));
    if p(e) {
        assert forall|k: int| 0 <= k < hi.len() implies !p(#[trigger] hi[k]) by {
            let j = pos + k;
            assert(hi[k] == s[j]);
            // e comes strictly before every entry from `pos` on.
            if j > pos {
                assert(!entry_before(s[j], s[pos]));
            }
            lemma_text_lt_total(lower_of(s[j].name@), lower_of(s[pos].name@));
            if e.is_dir == s[j].is_dir && text_lt(lower_of(e.name@), lower_of(s[pos].name@))
                && text_lt(lower_of(s[pos].name@), lower_of(s[j].name@)) {
                lemma_text_lt_transitive(lower_of(e.name@), lower_of(s[pos].name@), lower_of(s[j].name@));
            }
            assert(entry_before(e, s[j]));
            if p(s[j]) {
                lemma_text_lt_asymmetric(lower_of(e.name@), lower_of(s[j].name@));
            }
        }
        hi.lemma_all_neg_filter_empty(p);
        assert(hi.filter(p) =~= Seq::<FileEntry>::empty());
        assert(lo.filter(p).push(e) + hi.filter(p) =~= lo.filter(p).push(e));
        assert(lo.filter(p) + hi.filter(p) =~= lo.filter(p));
    } else {
        assert(lo.filter(p) + hi.filter(p) =~= s.filter(p));
    }
}

proof fn lemma_insert_sorted(s: Seq<FileEntry>, pos: int, e: FileEntry)
    requires
        entries_sorted(s),
        0 <= pos <= s.len(),
        forall|k: int| 0 <= k < pos ==> !entry_before(e, #[trigger] s[k]),
        pos < s.len() ==> entry_before(e, s[pos]),
    ensures
        entries_sorted(s.insert(pos, e)),
{
    let t = s.insert(pos, e);
    assert forall|i: int, j: int| 0 <= i < j < t.len() implies !entry_before(#[trigger] t[j], #[trigger] t[i]) by {
        if i == pos {
            let k = j - 1;
            if entry_before(s[k], e) {
                if k == pos {
                    lemma_text_lt_asymmetric(lower_of(e.name@), lower_of(s[k].name@));
                } else {
                    lemma_text_lt_transitive(lower_of(s[k].name@), lower_of(e.name@), lower_of(s[pos].name@));
                    assert(!entry_before(s[k], s[pos]));
                }
            }
        } else if j == pos {
            assert(t[i] == s[i]);
        } else {
            let i2 = if i < pos { i } else { i - 1 };
            let j2 = if j < pos { j } else { j - 1 };
            assert(t[i] == s[i2] && t[j] == s[j2]);
        }
    }
}

/// Whether `a` comes strictly before `b` in character order.
fn text_less(a: &str, b: &str) -> (r: bool)
    ensures
        r == text_lt(a@, b@),
{
    let na = a.unicode_len();
    let nb = b.unicode_len();
    let mut i: usize = 0;
    assert(a@.subrange(0, na as int) =~= a@);
    assert(b@.subrange(0, nb as int) =~= b@);
    while i < na && i < nb
        invariant
            i <= na,
            i <= nb,
            na == a@.len(),
            nb == b@.len(),
            text_lt(a@, b@) == text_lt(a@.subrange(i as int, na as int), b@.subrange(i as int, nb as int)),
        decreases na - i,
    {
        let ca = a.get_char(i);
        let cb = b.get_char(i);
        let ghost sa = a@.subrange(i as int, na as int);
        let ghost sb = b@.subrange(i as int, nb as int);
        assert(sa[0] == ca && sb[0] == cb);
        if ca != cb {
            return (ca as u32) < (cb as u32);
        }
        assert(sa.drop_first() =~= a@.subrange(i + 1, na as int));
        assert(sb.drop_first() =~= b@.subrange(i + 1, nb as int));
        i = i + 1;
    }
    i < nb
}

/// Whether `a` is listed before `b`.
fn entry_precedes(a: &FileEntry, b: &FileEntry) -> (r: bool)
    ensures
        r == entry_before(*a, *b),
{
    if a.is_dir != b.is_dir {
        return a.is_dir;
    }
    let la = lowercase(a.name.as_str());
    let lb = lowercase(b.name.as_str());
    text_less(la.as_str(), lb.as_str())
}

/// The entries of one directory in tree order: directories first, then by
/// lower-cased name. Nothing is added or lost, and entries of the same rank
/// keep the order they came in.
pub fn sort_tree_entries(entries: Vec<FileEntry>) -> (r: Vec<FileEntry>)
    ensures
        r@.to_multiset() == entries@.to_multiset(),
        entries_sorted(r@),
        forall|x: FileEntry| #[trigger] r@.filter(same_rank_as(x)) == entries@.filter(same_rank_as(x)),
{
    broadcast use vstd::seq_lib::group_to_multiset_ensures;

    let mut input = entries;
    let mut out: Vec<FileEntry> = Vec::new();
    assert(out@.to_multiset() =~= Multiset::empty());
    assert(out@.to_multiset().add(input@.to_multiset()) =~= entries@.to_multiset());
    assert(entries@.subrange(0, 0) =~= Seq::<FileEntry>::empty());
    assert(input@ =~= entries@.subrange(0, entries@.len() as int));
    assert forall|x: FileEntry| #[trigger] out@.filter(same_rank_as(x)) == entries@.subrange(0, 0).filter(
        same_rank_as(x),
    ) by {
        assert(out@.filter(same_rank_as(x)) =~= Seq::<FileEntry>::empty());
        assert(entries@.subrange(0, 0).filter(same_rank_as(x)) =~= Seq::<FileEntry>::empty());
    }
    while input.len() > 0
        invariant
            out@.to_multiset().add(input@.to_multiset()) == entries@.to_multiset(),
            entries_sorted(out@),
            input@.len() <= entries@.len(),
            input@ == entries@.subrange(entries@.len() - input@.len(), entries@.len() as int),
            forall|x: FileEntry| #[trigger] out@.filter(same_rank_as(x)) == entries@.subrange(
                0,
                entries@.len() - input@.len(),
            ).filter(same_rank_as(x)),
        decreases input@.len(),
    {
        let ghost in0 = input@;
        let ghost done = entries@.len() - in0.len();
        let e = input.remove(0);
        assert(in0.to_multiset() =~= input@.to_multiset().insert(e)) by {
            assert(in0.remove(0) == input@);
            assert(in0[0] == e);
            assert(in0.contains(e));
            in0.to_multiset_ensures();
            assert(in0.to_multiset().count(e) > 0);
            assert(input@.to_multiset() =~= in0.to_multiset().remove(e));
        }
        let mut pos: usize = 0;
        while pos < out.len()
            invariant
                pos <= out@.len(),
                forall|k: int| 0 <= k < pos ==> !entry_before(e, #[trigger] out@[k]),
            ensures
                pos <= out@.len(),
                forall|k: int| 0 <= k < pos ==> !entry_before(e, #[trigger] out@[k]),
                pos < out@.len() ==> entry_before(e, out@[pos as int]),
            decreases out@.len() - pos,
        {
            if entry_precedes(&e, &out[pos]) {
                break;
            }
            pos = pos + 1;
        }
        let ghost out0 = out@;
        proof {
            lemma_insert_sorted(out0, pos as int, e);
            assert(e == entries@[done]);
            assert(entries@.subrange(0, done + 1) =~= entries@.subrange(0, done).push(e));
            assert forall|x: FileEntry| #[trigger] out0.insert(pos as int, e).filter(same_rank_as(x))
                == entries@.subrange(0, done + 1).filter(same_rank_as(x)) by {
                lemma_insert_filter(out0, pos as int, e, x);
                entries@.subrange(0, done).lemma_filter_push(e, same_rank_as(x));
            }
            assert(input@ =~= entries@.subrange(done + 1, entries@.len() as int));
        }
        out.insert(pos, e);
        assert(out@.to_multiset() =~= out0.to_multiset().insert(e)) by {
            assert(out@.remove(pos as int) =~= out0);
            assert(out@[pos as int] == e);
            assert(out@.contains(e));
            out@.to_multiset_ensures();
            assert(out@.to_multiset().count(e) > 0);
            assert(out0.to_multiset() =~= out@.to_multiset().remove(e));
        }
        assert(out@.to_multiset().add(input@.to_multiset()) =~= entries@.to_multiset());
    }
    assert(input@.to_multiset() =~= Multiset::empty());
    assert(out@.to_multiset() =~= entries@.to_multiset());
    assert(entries@.subrange(0, entries@.len() as int) =~= entries@);
    out
}

} // verus!
