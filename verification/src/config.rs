//! The configuration model: named locations, tags, files and scripts,
//! together with the resolver that expands a selection of tag names and
//! file names into a deduplicated sequence of file entries.

use vstd::prelude::*;

use crate::errors::{CpxError, CpxErrorView};

verus! {

/// A named base filesystem path, used as a copy endpoint.
pub struct PathInfo {
    pub path: String,
}

impl View for PathInfo {
    type V = Seq<char>;

    open spec fn view(&self) -> Seq<char> {
        self.path@
    }
}

/// A named group of file-entry names. The script list is opaque data that
/// the library stores but never interprets.
pub struct TagInfo {
    pub file_list: Option<Vec<String>>,
    pub script_list: Option<Vec<String>>,
}

/// The mathematical value of a [`TagInfo`].
pub struct TagView {
    pub file_list: Option<Seq<Seq<char>>>,
    pub script_list: Option<Seq<Seq<char>>>,
}

impl View for TagInfo {
    type V = TagView;

    open spec fn view(&self) -> TagView {
        TagView { file_list: self.file_list.deep_view(), script_list: self.script_list.deep_view() }
    }
}

/// A named file. For copying purposes a file entry is its relative path:
/// two entries with the same relative path denote the same copy operation.
pub struct FileInfo {
    pub relative_path: String,
}

impl View for FileInfo {
    type V = Seq<char>;

    open spec fn view(&self) -> Seq<char> {
        self.relative_path@
    }
}

impl DeepView for FileInfo {
    type V = Seq<char>;

    open spec fn deep_view(&self) -> Seq<char> {
        self.relative_path@
    }
}

/// A named script reference: opaque pass-through data, never executed.
pub struct ScriptInfo {
    pub from: String,
    pub to: String,
}

/// The mathematical value of a [`ScriptInfo`].
pub struct ScriptView {
    pub from: Seq<char>,
    pub to: Seq<char>,
}

impl View for ScriptInfo {
    type V = ScriptView;

    open spec fn view(&self) -> ScriptView {
        ScriptView { from: self.from@, to: self.to@ }
    }
}

/// The whole configuration: four name-keyed mappings, each held as an
/// association list looked up by first match. Read-only after construction.
pub struct ConfigInfo {
    pub path_list: Vec<(String, PathInfo)>,
    pub tag_list: Vec<(String, TagInfo)>,
    pub file_list: Vec<(String, FileInfo)>,
    pub script_list: Vec<(String, ScriptInfo)>,
}

/// The mathematical value of a [`ConfigInfo`].
pub struct ConfigView {
    pub path_list: Seq<(Seq<char>, Seq<char>)>,
    pub tag_list: Seq<(Seq<char>, TagView)>,
    pub file_list: Seq<(Seq<char>, Seq<char>)>,
    pub script_list: Seq<(Seq<char>, ScriptView)>,
}

impl View for ConfigInfo {
    type V = ConfigView;

    open spec fn view(&self) -> ConfigView {
        ConfigView {
            path_list: self.path_list@.map_values(|p: (String, PathInfo)| (p.0@, p.1@)),
            tag_list: self.tag_list@.map_values(|p: (String, TagInfo)| (p.0@, p.1@)),
            file_list: self.file_list@.map_values(|p: (String, FileInfo)| (p.0@, p.1@)),
            script_list: self.script_list@.map_values(|p: (String, ScriptInfo)| (p.0@, p.1@)),
        }
    }
}

/// First-match lookup in an association list keyed by character sequences.
pub open spec fn alist_lookup<V>(entries: Seq<(Seq<char>, V)>, name: Seq<char>) -> Option<V>
    decreases entries.len(),
{
    if entries.len() == 0 {
        None
    } else if entries[0].0 == name {
        Some(entries[0].1)
    } else {
        alist_lookup(entries.drop_first(), name)
    }
}

/// A first-match lookup is unaffected by dropping a prefix whose keys all
/// differ from the name sought.
proof fn lemma_alist_lookup_skip<V>(entries: Seq<(Seq<char>, V)>, name: Seq<char>, i: int)
    requires
        0 <= i <= entries.len(),
        forall|j: int| 0 <= j < i ==> entries[j].0 != name,
    ensures
        alist_lookup(entries, name) == alist_lookup(entries.skip(i), name),
    decreases i,
{
    if i == 0 {
        assert(entries.skip(0) =~= entries);
    } else {
        lemma_alist_lookup_skip(entries, name, i - 1);
        assert(entries.skip(i - 1)[0] == entries[i - 1]);
        assert(entries.skip(i - 1).drop_first() =~= entries.skip(i));
    }
}

/// Generic exec lookup over a `Vec`-backed association list, returning the
/// first entry whose key equals `name`.
fn alist_get<'a, V: View>(entries: &'a Vec<(String, V)>, name: &String) -> (r: Option<&'a V>)
    ensures
        match r {
            Some(v) => alist_lookup(
                entries@.map_values(|p: (String, V)| (p.0@, p.1@)),
                name@,
            ) == Some(v@),
            None => alist_lookup(
                entries@.map_values(|p: (String, V)| (p.0@, p.1@)),
                name@,
            ) is None,
        },
{
    let ghost m = entries@.map_values(|p: (String, V)| (p.0@, p.1@));
    let mut i: usize = 0;
    while i < entries.len()
        invariant
            0 <= i <= entries.len(),
            m == entries@.map_values(|p: (String, V)| (p.0@, p.1@)),
            forall|j: int| 0 <= j < i ==> m[j].0 != name@,
        decreases entries.len() - i,
    {
        if entries[i].0 == *name {
            proof {
                lemma_alist_lookup_skip(m, name@, i as int);
                assert(m.skip(i as int)[0] == m[i as int]);
            }
            return Some(&entries[i].1);
        }
        i += 1;
    }
    proof {
        lemma_alist_lookup_skip(m, name@, m.len() as int);
        assert(m.skip(m.len() as int) =~= Seq::<(Seq<char>, V::V)>::empty());
    }
    None
}

/// The file names a single tag contributes to a selection: its file list
/// when the tag exists and has one, nothing otherwise (unknown tags and
/// tags without a file list are tolerated silently).
pub open spec fn tag_file_names(tags: Seq<(Seq<char>, TagView)>, name: Seq<char>) -> Seq<Seq<char>> {
    match alist_lookup(tags, name) {
        Some(tag) => match tag.file_list {
            Some(fl) => fl,
            None => Seq::empty(),
        },
        None => Seq::empty(),
    }
}

/// The concatenation, in order, of every selected tag's contribution.
pub open spec fn expand_tags(tags: Seq<(Seq<char>, TagView)>, names: Seq<Seq<char>>) -> Seq<Seq<char>>
    decreases names.len(),
{
    if names.len() == 0 {
        Seq::empty()
    } else {
        tag_file_names(tags, names[0]) + expand_tags(tags, names.drop_first())
    }
}

/// Every file name a selection asks for: the tags' contributions in tag
/// order, followed by the explicitly selected file names in given order.
pub open spec fn selected_names(
    cfg: ConfigView,
    tags: Option<Seq<Seq<char>>>,
    files: Option<Seq<Seq<char>>>,
) -> Seq<Seq<char>> {
    (match tags {
        Some(ts) => expand_tags(cfg.tag_list, ts),
        None => Seq::empty(),
    }) + (match files {
        Some(fs) => fs,
        None => Seq::empty(),
    })
}

/// The first selected name that the file mapping does not know, if any.
pub open spec fn first_unknown(
    files: Seq<(Seq<char>, Seq<char>)>,
    names: Seq<Seq<char>>,
) -> Option<Seq<char>>
    decreases names.len(),
{
    if names.len() == 0 {
        None
    } else if alist_lookup(files, names[0]) is None {
        Some(names[0])
    } else {
        first_unknown(files, names.drop_first())
    }
}

/// Each selected name replaced by the relative path of its file entry.
/// Meaningful when every name is known to the file mapping.
pub open spec fn resolved_paths(
    files: Seq<(Seq<char>, Seq<char>)>,
    names: Seq<Seq<char>>,
) -> Seq<Seq<char>> {
    names.map_values(|n: Seq<char>| alist_lookup(files, n)->Some_0)
}

/// Deduplication keeping the first occurrence of each path, in order.
pub open spec fn dedup(paths: Seq<Seq<char>>) -> Seq<Seq<char>>
    decreases paths.len(),
{
    if paths.len() == 0 {
        Seq::empty()
    } else if paths.drop_last().contains(paths.last()) {
        dedup(paths.drop_last())
    } else {
        dedup(paths.drop_last()).push(paths.last())
    }
}

/// What resolving a selection yields: the deduplicated relative paths of
/// every selected file, or the first selected file name that the
/// configuration does not know.
pub open spec fn resolve_result(
    cfg: ConfigView,
    tags: Option<Seq<Seq<char>>>,
    files: Option<Seq<Seq<char>>>,
) -> Result<Seq<Seq<char>>, CpxErrorView> {
    let names = selected_names(cfg, tags, files);
    match first_unknown(cfg.file_list, names) {
        Some(n) => Err(CpxErrorView::ConfigLookupFailure(n)),
        None => Ok(dedup(resolved_paths(cfg.file_list, names))),
    }
}

/// Expanding one more tag appends exactly that tag's contribution.
proof fn lemma_expand_tags_push(
    tags: Seq<(Seq<char>, TagView)>,
    names: Seq<Seq<char>>,
    x: Seq<char>,
)
    ensures
        expand_tags(tags, names.push(x)) == expand_tags(tags, names) + tag_file_names(tags, x),
    decreases names.len(),
{
    broadcast use vstd::seq_lib::group_seq_properties;

    if names.len() == 0 {
        assert(names.push(x)[0] == x);
        assert(names.push(x).drop_first() =~= Seq::<Seq<char>>::empty());
        assert(expand_tags(tags, names.push(x)) =~= expand_tags(tags, names) + tag_file_names(
            tags,
            x,
        ));
    } else {
        lemma_expand_tags_push(tags, names.drop_first(), x);
        assert(names.push(x)[0] == names[0]);
        assert(names.push(x).drop_first() =~= names.drop_first().push(x));
        assert(expand_tags(tags, names.push(x)) =~= expand_tags(tags, names) + tag_file_names(
            tags,
            x,
        ));
    }
}

/// Searching for an unknown name is unaffected by dropping a prefix of
/// names that are all known.
proof fn lemma_first_unknown_skip(
    files: Seq<(Seq<char>, Seq<char>)>,
    names: Seq<Seq<char>>,
    k: int,
)
    requires
        0 <= k <= names.len(),
        forall|j: int| 0 <= j < k ==> alist_lookup(files, names[j]) is Some,
    ensures
        first_unknown(files, names) == first_unknown(files, names.skip(k)),
    decreases k,
{
    if k == 0 {
        assert(names.skip(0) =~= names);
    } else {
        lemma_first_unknown_skip(files, names, k - 1);
        assert(names.skip(k - 1)[0] == names[k - 1]);
        assert(names.skip(k - 1).drop_first() =~= names.skip(k));
    }
}

/// Deduplicating after one more path either changes nothing (the path was
/// seen before) or appends that path.
proof fn lemma_dedup_push(paths: Seq<Seq<char>>, x: Seq<char>)
    ensures
        dedup(paths.push(x)) == (if paths.contains(x) {
            dedup(paths)
        } else {
            dedup(paths).push(x)
        }),
{
    assert(paths.push(x).drop_last() =~= paths);
    assert(paths.push(x).last() == x);
}

/// Deduplication keeps exactly the paths that were present.
pub proof fn lemma_dedup_contains(paths: Seq<Seq<char>>, x: Seq<char>)
    ensures
        dedup(paths).contains(x) == paths.contains(x),
    decreases paths.len(),
{
    broadcast use vstd::seq_lib::group_seq_properties;

    if paths.len() > 0 {
        lemma_dedup_contains(paths.drop_last(), x);
        assert(paths =~= paths.drop_last().push(paths.last()));
        if !paths.drop_last().contains(paths.last()) {
            assert(dedup(paths) =~= dedup(paths.drop_last()).push(paths.last()));
        }
    }
}

/// Deduplication leaves no two equal paths behind.
pub proof fn lemma_dedup_no_duplicates(paths: Seq<Seq<char>>)
    ensures
        forall|i: int, j: int|
            0 <= i < j < dedup(paths).len() ==> dedup(paths)[i] != dedup(paths)[j],
    decreases paths.len(),
{
    broadcast use vstd::seq_lib::group_seq_properties;

    if paths.len() > 0 {
        lemma_dedup_no_duplicates(paths.drop_last());
        if !paths.drop_last().contains(paths.last()) {
            lemma_dedup_contains(paths.drop_last(), paths.last());
            assert(!dedup(paths.drop_last()).contains(paths.last()));
            assert(forall|i: int|
                0 <= i < dedup(paths.drop_last()).len() ==> dedup(paths.drop_last())[i]
                    != paths.last());
        }
    }
}

/// Resolution never yields two copy operations for the same relative
/// path: whatever the selected tags and files, the resolved copy set is
/// free of duplicates.
pub proof fn lemma_resolve_no_duplicate_paths(
    cfg: ConfigView,
    tags: Option<Seq<Seq<char>>>,
    files: Option<Seq<Seq<char>>>,
)
    ensures
        resolve_result(cfg, tags, files) is Ok ==> ({
            let paths = resolve_result(cfg, tags, files)->Ok_0;
            forall|i: int, j: int| 0 <= i < j < paths.len() ==> paths[i] != paths[j]
        }),
{
    if resolve_result(cfg, tags, files) is Ok {
        lemma_dedup_no_duplicates(
            resolved_paths(cfg.file_list, selected_names(cfg, tags, files)),
        );
    }
}

/// An empty selection (no tags, no files) resolves to the empty copy set.
pub proof fn lemma_resolve_empty_selection(cfg: ConfigView)
    ensures
        resolve_result(cfg, None, None) == Ok::<Seq<Seq<char>>, CpxErrorView>(Seq::empty()),
{
    assert(selected_names(cfg, None, None) =~= Seq::<Seq<char>>::empty());
    assert(resolved_paths(cfg.file_list, Seq::<Seq<char>>::empty())
        =~= Seq::<Seq<char>>::empty());
    assert(first_unknown(cfg.file_list, Seq::<Seq<char>>::empty()) is None);
    assert(dedup(Seq::<Seq<char>>::empty()) =~= Seq::<Seq<char>>::empty());
}

/// A sequence of tag names that all contribute nothing expands to nothing.
proof fn lemma_expand_tags_all_silent(tags: Seq<(Seq<char>, TagView)>, names: Seq<Seq<char>>)
    requires
        forall|i: int|
            0 <= i < names.len() ==> #[trigger] tag_file_names(tags, names[i])
                == Seq::<Seq<char>>::empty(),
    ensures
        expand_tags(tags, names) == Seq::<Seq<char>>::empty(),
    decreases names.len(),
{
    if names.len() > 0 {
        assert(tag_file_names(tags, names[0]) == Seq::<Seq<char>>::empty());
        assert forall|i: int| 0 <= i < names.drop_first().len() implies #[trigger] tag_file_names(
            tags,
            names.drop_first()[i],
        ) == Seq::<Seq<char>>::empty() by {
            assert(names.drop_first()[i] == names[i + 1]);
        }
        lemma_expand_tags_all_silent(tags, names.drop_first());
        assert(expand_tags(tags, names) =~= Seq::<Seq<char>>::empty());
    }
}

/// Lenient-tag law: a selection made only of tags that are unknown to the
/// configuration (or known but without a file list), with no explicit
/// files, resolves to the empty copy set rather than an error.
pub proof fn lemma_resolve_lenient_tags(cfg: ConfigView, tags: Seq<Seq<char>>)
    requires
        forall|i: int|
            0 <= i < tags.len() ==> (match alist_lookup(cfg.tag_list, #[trigger] tags[i]) {
                Some(t) => t.file_list is None,
                None => true,
            }),
    ensures
        resolve_result(cfg, Some(tags), None) == Ok::<Seq<Seq<char>>, CpxErrorView>(Seq::empty()),
{
    assert forall|i: int| 0 <= i < tags.len() implies #[trigger] tag_file_names(
        cfg.tag_list,
        tags[i],
    ) == Seq::<Seq<char>>::empty() by {
        assert(match alist_lookup(cfg.tag_list, tags[i]) {
            Some(t) => t.file_list is None,
            None => true,
        });
    }
    lemma_expand_tags_all_silent(cfg.tag_list, tags);
    assert(selected_names(cfg, Some(tags), None) =~= Seq::<Seq<char>>::empty());
    assert(resolved_paths(cfg.file_list, Seq::<Seq<char>>::empty())
        =~= Seq::<Seq<char>>::empty());
    assert(first_unknown(cfg.file_list, Seq::<Seq<char>>::empty()) is None);
    assert(dedup(Seq::<Seq<char>>::empty()) =~= Seq::<Seq<char>>::empty());
}

/// Whether some entry of `entries` has `path` as its relative path.
fn contains_path(entries: &Vec<FileInfo>, path: &String) -> (r: bool)
    ensures
        r == entries.deep_view().contains(path@),
{
    let mut i: usize = 0;
    while i < entries.len()
        invariant
            0 <= i <= entries@.len(),
            forall|j: int| 0 <= j < i ==> entries.deep_view()[j] != path@,
        decreases entries@.len() - i,
    {
        if entries[i].relative_path == *path {
            assert(entries.deep_view()[i as int] == path@);
            return true;
        }
        i += 1;
    }
    false
}

impl ConfigInfo {
    /// Look a location name up in the location mapping.
    pub fn lookup_location(&self, name: &String) -> (r: Option<&PathInfo>)
        ensures
            match r {
                Some(p) => alist_lookup(self@.path_list, name@) == Some(p@),
                None => alist_lookup(self@.path_list, name@) is None,
            },
    {
        alist_get(&self.path_list, name)
    }

    /// Look a tag name up in the tag mapping.
    pub fn lookup_tag(&self, name: &String) -> (r: Option<&TagInfo>)
        ensures
            match r {
                Some(t) => alist_lookup(self@.tag_list, name@) == Some(t@),
                None => alist_lookup(self@.tag_list, name@) is None,
            },
    {
        alist_get(&self.tag_list, name)
    }

    /// Look a file name up in the file mapping.
    pub fn lookup_file(&self, name: &String) -> (r: Option<&FileInfo>)
        ensures
            match r {
                Some(f) => alist_lookup(self@.file_list, name@) == Some(f@),
                None => alist_lookup(self@.file_list, name@) is None,
            },
    {
        alist_get(&self.file_list, name)
    }

    /// Expand a selection of tag names and explicit file names into the
    /// deduplicated list of file entries to copy. Unknown tags contribute
    /// nothing; an unknown file name is a fatal lookup failure, reported
    /// before any copy is attempted.
    pub fn calculate_file_list(
        &self,
        tags: Option<Vec<String>>,
        files: Option<Vec<String>>,
    ) -> (r: Result<Vec<FileInfo>, CpxError>)
        ensures
            ({
                let res = resolve_result(self@, tags.deep_view(), files.deep_view());
                match r {
                    Ok(v) => res is Ok && v.deep_view() == res->Ok_0,
                    Err(e) => res is Err && e@ == res->Err_0,
                }
            }),
    {
        let mut selected: Vec<String> = Vec::new();
        proof {
            assert(selected.deep_view() =~= Seq::<Seq<char>>::empty());
        }
        match &tags {
            Some(ts) => self.append_tag_files(&mut selected, ts),
            None => {}
        }
        match &files {
            Some(fs) => append_all(&mut selected, fs),
            None => {}
        }
        proof {
            assert(selected.deep_view() =~= selected_names(
                self@,
                tags.deep_view(),
                files.deep_view(),
            ));
        }
        self.resolve_entries(&selected)
    }

    /// Append, for each tag name in order, the file names that tag
    /// contributes to the selection.
    fn append_tag_files(&self, selected: &mut Vec<String>, ts: &Vec<String>)
        ensures
            final(selected).deep_view() == old(selected).deep_view() + expand_tags(
                self@.tag_list,
                ts.deep_view(),
            ),
    {
        let mut i: usize = 0;
        while i < ts.len()
            invariant
                0 <= i <= ts@.len(),
                selected.deep_view() == old(selected).deep_view() + expand_tags(
                    self@.tag_list,
                    ts.deep_view().take(i as int),
                ),
            decreases ts@.len() - i,
        {
            let ghost pre = selected.deep_view();
            match self.lookup_tag(&ts[i]) {
                Some(tag) => {
                    match &tag.file_list {
                        Some(fl) => {
                            append_all(selected, fl);
                            proof {
                                assert(tag_file_names(self@.tag_list, ts.deep_view()[i as int])
                                    == fl.deep_view());
                            }
                        }
                        None => {
                            proof {
                                assert(selected.deep_view() =~= pre + tag_file_names(
                                    self@.tag_list,
                                    ts.deep_view()[i as int],
                                ));
                            }
                        }
                    }
                }
                None => {
                    proof {
                        assert(selected.deep_view() =~= pre + tag_file_names(
                            self@.tag_list,
                            ts.deep_view()[i as int],
                        ));
                    }
                }
            }
            proof {
                ts.deep_view().lemma_take_succ_push(i as int);
                lemma_expand_tags_push(
                    self@.tag_list,
                    ts.deep_view().take(i as int),
                    ts.deep_view()[i as int],
                );
                assert(selected.deep_view() =~= old(selected).deep_view() + expand_tags(
                    self@.tag_list,
                    ts.deep_view().take(i as int + 1),
                ));
            }
            i += 1;
        }
        proof {
            assert(ts.deep_view().take(ts@.len() as int) =~= ts.deep_view());
        }
    }

    /// Resolve every selected name against the file mapping, failing on
    /// the first unknown name, and deduplicate the result by relative
    /// path, keeping first occurrences in order.
    fn resolve_entries(&self, selected: &Vec<String>) -> (r: Result<Vec<FileInfo>, CpxError>)
        ensures
            ({
                let names = selected.deep_view();
                match first_unknown(self@.file_list, names) {
                    Some(n) => r is Err && r->Err_0@ == CpxErrorView::ConfigLookupFailure(n),
                    None => r is Ok && r->Ok_0.deep_view() == dedup(
                        resolved_paths(self@.file_list, names),
                    ),
                }
            }),
    {
        let ghost sel_v = selected.deep_view();
        let mut out: Vec<FileInfo> = Vec::new();
        proof {
            assert(sel_v.take(0) =~= Seq::<Seq<char>>::empty());
            assert(resolved_paths(self@.file_list, sel_v.take(0)) =~= Seq::<Seq<char>>::empty());
            assert(out.deep_view() =~= dedup(resolved_paths(self@.file_list, sel_v.take(0))));
        }
        let mut k: usize = 0;
        while k < selected.len()
            invariant
                0 <= k <= selected@.len(),
                sel_v == selected.deep_view(),
                forall|j: int| 0 <= j < k ==> alist_lookup(self@.file_list, sel_v[j]) is Some,
                out.deep_view() == dedup(resolved_paths(self@.file_list, sel_v.take(k as int))),
            decreases selected@.len() - k,
        {
            match self.lookup_file(&selected[k]) {
                None => {
                    proof {
                        lemma_first_unknown_skip(self@.file_list, sel_v, k as int);
                        assert(sel_v.skip(k as int)[0] == sel_v[k as int]);
                        assert(first_unknown(self@.file_list, sel_v) == Some(sel_v[k as int]));
                    }
                    return Err(CpxError::ConfigLookupFailure(selected[k].clone()));
                }
                Some(fi) => {
                    let ghost prefix = resolved_paths(self@.file_list, sel_v.take(k as int));
                    let dup = contains_path(&out, &fi.relative_path);
                    proof {
                        lemma_dedup_contains(prefix, fi@);
                        sel_v.lemma_take_succ_push(k as int);
                        assert(resolved_paths(self@.file_list, sel_v.take(k as int + 1))
                            =~= prefix.push(fi@));
                        lemma_dedup_push(prefix, fi@);
                    }
                    if !dup {
                        out.push(FileInfo { relative_path: fi.relative_path.clone() });
                    }
                    proof {
                        assert(out.deep_view() =~= dedup(
                            resolved_paths(self@.file_list, sel_v.take(k as int + 1)),
                        ));
                    }
                }
            }
            k += 1;
        }
        proof {
            assert(sel_v.take(sel_v.len() as int) =~= sel_v);
            lemma_first_unknown_skip(self@.file_list, sel_v, sel_v.len() as int);
            assert(sel_v.skip(sel_v.len() as int) =~= Seq::<Seq<char>>::empty());
        }
        Ok(out)
    }
}

/// Append every name in `fl`, in order, to `selected`.
fn append_all(selected: &mut Vec<String>, fl: &Vec<String>)
    ensures
        final(selected).deep_view() == old(selected).deep_view() + fl.deep_view(),
{
    let mut j: usize = 0;
    while j < fl.len()
        invariant
            0 <= j <= fl@.len(),
            selected.deep_view() == old(selected).deep_view() + fl.deep_view().take(j as int),
        decreases fl@.len() - j,
    {
        let ghost pre = selected.deep_view();
        selected.push(fl[j].clone());
        proof {
            fl.deep_view().lemma_take_succ_push(j as int);
            assert(selected.deep_view() =~= pre.push(fl.deep_view()[j as int]));
            assert(selected.deep_view() =~= old(selected).deep_view() + fl.deep_view().take(
                j as int + 1,
            ));
        }
        j += 1;
    }
    proof {
        assert(fl.deep_view().take(fl@.len() as int) =~= fl.deep_view());
    }
}

} // verus!
