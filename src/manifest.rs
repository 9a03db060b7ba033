//! The file selector: which upstream headers and sources a manifest brings into the
//! working tree.
use vstd::prelude::*;

verus! {

/// One module to extract: its subdirectory, its base name, and whether it has a source
/// file besides its header.
#[derive(Clone, Debug, PartialEq, Eq)]
pub struct SourceManifestEntry {
    pub subdirectory: String,
    pub basename: String,
    pub has_impl: bool,
}

/// A file of a source tree: the directory relative to the tree's root, the name, and the
/// text.
#[derive(Clone, Debug, PartialEq, Eq)]
pub struct SourceFile {
    pub directory: String,
    pub file_name: String,
    pub content: String,
}

/// Where a file stands in a tree.
#[derive(Clone, Debug, PartialEq, Eq)]
pub struct FileLocation {
    pub directory: String,
    pub file_name: String,
}

/// A file of a tree as values.
pub struct FileView {
    pub directory: Seq<char>,
    pub file_name: Seq<char>,
    pub content: Seq<char>,
}

impl View for SourceFile {
    type V = FileView;

    open spec fn view(&self) -> FileView {
        FileView { directory: self.directory@, file_name: self.file_name@, content: self.content@ }
    }
}

/// Why a manifest cannot be served from an upstream tree.
#[derive(Clone, Debug, PartialEq, Eq)]
pub enum SelectError {
    /// An entry says it has a source file, and upstream has none.
    MissingImplementation { directory: String, file_name: String },
}

/// A tree as values.
pub open spec fn tree_view(files: Seq<SourceFile>) -> Seq<FileView> {
    files.map_values(|f: SourceFile| f@)
}

/// The directory of the headers of `subdirectory`.
pub open spec fn header_dir(subdirectory: Seq<char>) -> Seq<char> {
    if subdirectory.len() == 0 {
        "include/openbabel"@
    } else {
        "include/openbabel/"@ + subdirectory
    }
}

/// The directory of the sources of `subdirectory`.
pub open spec fn impl_dir(subdirectory: Seq<char>) -> Seq<char> {
    if subdirectory.len() == 0 {
        "src"@
    } else {
        "src/"@ + subdirectory
    }
}

/// The header file name of a module.
pub open spec fn header_name(basename: Seq<char>) -> Seq<char> {
    basename + ".h"@
}

/// The source file name of a module.
pub open spec fn impl_name(basename: Seq<char>) -> Seq<char> {
    basename + ".cpp"@
}

/// The text of the first file of `tree` at `directory`/`file_name`, if any.
pub open spec fn lookup(tree: Seq<FileView>, directory: Seq<char>, file_name: Seq<char>) -> Option<
    Seq<char>,
>
    decreases tree.len(),
{
    if tree.len() == 0 {
        None
    } else {
        match lookup(tree.drop_last(), directory, file_name) {
            Some(c) => Some(c),
            None => if tree.last().directory == directory && tree.last().file_name == file_name {
                Some(tree.last().content)
            } else {
                None
            },
        }
    }
}

/// The files that one entry brings: its header where upstream has one, then its source
/// where the entry has one; a missing source is an error that names it.
pub open spec fn entry_files(entry: SourceManifestEntry, upstream: Seq<FileView>) -> Result<
    Seq<FileView>,
    (Seq<char>, Seq<char>),
> {
    let hd = header_dir(entry.subdirectory@);
    let hn = header_name(entry.basename@);
    let header = match lookup(upstream, hd, hn) {
        Some(c) => seq![FileView { directory: hd, file_name: hn, content: c }],
        None => Seq::empty(),
    };
    if entry.has_impl {
        let id = impl_dir(entry.subdirectory@);
        let iname = impl_name(entry.basename@);
        match lookup(upstream, id, iname) {
            Some(c) => Ok(header.push(FileView { directory: id, file_name: iname, content: c })),
            None => Err((id, iname)),
        }
    } else {
        Ok(header)
    }
}

/// The working tree that a manifest selects from `upstream`: the files of each entry in
/// manifest order, or the first missing source.
pub open spec fn select_spec(manifest: Seq<SourceManifestEntry>, upstream: Seq<FileView>) -> Result<
    Seq<FileView>,
    (Seq<char>, Seq<char>),
>
    decreases manifest.len(),
{
    if manifest.len() == 0 {
        Ok(Seq::empty())
    } else {
        match select_spec(manifest.drop_last(), upstream) {
            Ok(w) => match entry_files(manifest.last(), upstream) {
                Ok(f) => Ok(w + f),
                Err(e) => Err(e),
            },
            Err(e) => Err(e),
        }
    }
}

/// Joins a base directory and a subdirectory.
fn directory_text(base: &str, subdirectory: &str) -> (r: String)
    ensures
        subdirectory@.len() == 0 ==> r@ == base@,
        subdirectory@.len() != 0 ==> r@ == base@ + "/"@ + subdirectory@,
{
    let mut r = String::from_str(base);
    if subdirectory.unicode_len() != 0 {
        r.append("/");
        r.append(subdirectory);
    }
    r
}

/// Where the header of an entry stands, upstream and in the working tree.
pub fn header_location(entry: &SourceManifestEntry) -> (r: FileLocation)
    ensures
        r.directory@ == header_dir(entry.subdirectory@),
        r.file_name@ == header_name(entry.basename@),
{
    proof {
        reveal_strlit("include/openbabel");
        reveal_strlit("include/openbabel/");
        reveal_strlit("/");
        assert("include/openbabel"@ + "/"@ =~= "include/openbabel/"@);
        assert("include/openbabel"@ + "/"@ + entry.subdirectory@ =~= "include/openbabel/"@ + entry.subdirectory@);
    }
    let directory = directory_text("include/openbabel", entry.subdirectory.as_str());
    let mut file_name = entry.basename.clone();
    file_name.append(".h");
    FileLocation { directory, file_name }
}

/// Where the source of an entry stands, upstream and in the working tree.
pub fn impl_location(entry: &SourceManifestEntry) -> (r: FileLocation)
    ensures
        r.directory@ == impl_dir(entry.subdirectory@),
        r.file_name@ == impl_name(entry.basename@),
{
    proof {
        reveal_strlit("src");
        reveal_strlit("src/");
        reveal_strlit("/");
        assert("src"@ + "/"@ =~= "src/"@);
        assert("src"@ + "/"@ + entry.subdirectory@ =~= "src/"@ + entry.subdirectory@);
    }
    let directory = directory_text("src", entry.subdirectory.as_str());
    let mut file_name = entry.basename.clone();
    file_name.append(".cpp");
    FileLocation { directory, file_name }
}

/// The text of the first file of `tree` at `location`.
pub fn find_file(tree: &Vec<SourceFile>, location: &FileLocation) -> (r: Option<String>)
    ensures
        match lookup(tree_view(tree@), location.directory@, location.file_name@) {
            Some(c) => r matches Some(s) && s@ == c,
            None => r is None,
        },
{
    let mut i: usize = 0;
    while i < tree.len()
        invariant
            i <= tree.len(),
            lookup(tree_view(tree@.subrange(0, i as int)), location.directory@, location.file_name@)
                is None,
        decreases tree.len() - i,
    {
        let f = &tree[i];
        assert(tree_view(tree@.subrange(0, i + 1)).drop_last() =~= tree_view(
            tree@.subrange(0, i as int),
        ));
        assert(tree_view(tree@.subrange(0, i + 1)).last() == f@);
        if f.directory == location.directory && f.file_name == location.file_name {
            proof {
                lemma_lookup_prefix(tree_view(tree@), i + 1, location.directory@, location.file_name@);
                assert(tree_view(tree@).subrange(0, i + 1) =~= tree_view(tree@.subrange(0, i + 1)));
            }
            return Some(f.content.clone());
        }
        i += 1;
    }
    assert(tree@.subrange(0, i as int) =~= tree@);
    None
}

/// Once a prefix of a tree has a file at a place, the tree answers with that file.
proof fn lemma_lookup_prefix(tree: Seq<FileView>, k: int, directory: Seq<char>, file_name: Seq<char>)
    requires
        0 <= k <= tree.len(),
        lookup(tree.subrange(0, k), directory, file_name) is Some,
    ensures
        lookup(tree, directory, file_name) == lookup(tree.subrange(0, k), directory, file_name),
    decreases tree.len() - k,
{
    if k < tree.len() {
        assert(tree.subrange(0, k + 1).drop_last() =~= tree.subrange(0, k));
        lemma_lookup_prefix(tree, k + 1, directory, file_name);
    } else {
        assert(tree.subrange(0, k) =~= tree);
    }
}

/// Once a prefix of the manifest has failed, the whole manifest fails the same way.
proof fn lemma_select_failure_persists(
    manifest: Seq<SourceManifestEntry>,
    k: int,
    upstream: Seq<FileView>,
    e: (Seq<char>, Seq<char>),
)
    requires
        0 <= k <= manifest.len(),
        select_spec(manifest.subrange(0, k), upstream) == Err::<Seq<FileView>, (Seq<char>, Seq<char>)>(e),
    ensures
        select_spec(manifest, upstream) == Err::<Seq<FileView>, (Seq<char>, Seq<char>)>(e),
    decreases manifest.len() - k,
{
    if k < manifest.len() {
        assert(manifest.subrange(0, k + 1).drop_last() =~= manifest.subrange(0, k));
        lemma_select_failure_persists(manifest, k + 1, upstream, e);
    } else {
        assert(manifest.subrange(0, k) =~= manifest);
    }
}

/// Copies, for each entry of `manifest` in order, its header where `upstream` has one and
/// its source where the entry has one. An entry whose source upstream lacks stops the
/// selection with an error naming that source.
pub fn select(manifest: &Vec<SourceManifestEntry>, upstream: &Vec<SourceFile>) -> (r: Result<
    Vec<SourceFile>,
    SelectError,
>)
    ensures
        match r {
            Ok(w) => select_spec(manifest@, tree_view(upstream@)) == Ok::<
                Seq<FileView>,
                (Seq<char>, Seq<char>),
            >(tree_view(w@)),
            Err(SelectError::MissingImplementation { directory, file_name }) => select_spec(
                manifest@,
                tree_view(upstream@),
            ) == Err::<Seq<FileView>, (Seq<char>, Seq<char>)>((directory@, file_name@)),
        },
{
    let ghost up = tree_view(upstream@);
    let mut w: Vec<SourceFile> = Vec::new();
    let mut j: usize = 0;
    assert(tree_view(w@) =~= Seq::<FileView>::empty());
    while j < manifest.len()
        invariant
            j <= manifest.len(),
            up == tree_view(upstream@),
            select_spec(manifest@.subrange(0, j as int), up) == Ok::<
                Seq<FileView>,
                (Seq<char>, Seq<char>),
            >(tree_view(w@)),
        decreases manifest.len() - j,
    {
        let e = &manifest[j];
        let ghost before = tree_view(w@);
        assert(manifest@.subrange(0, j + 1).drop_last() =~= manifest@.subrange(0, j as int));
        assert(manifest@.subrange(0, j + 1).last() == manifest@[j as int]);
        let hl = header_location(e);
        let ghost header: Seq<FileView> = match lookup(up, hl.directory@, hl.file_name@) {
            Some(c) => seq![FileView { directory: hl.directory@, file_name: hl.file_name@, content: c }],
            None => Seq::empty(),
        };
        match find_file(upstream, &hl) {
            Some(c) => {
                w.push(SourceFile { directory: hl.directory, file_name: hl.file_name, content: c });
            },
            None => {},
        }
        assert(tree_view(w@) =~= before + header);
        if e.has_impl {
            let il = impl_location(e);
            match find_file(upstream, &il) {
                Some(c) => {
                    let ghost f = FileView { directory: il.directory@, file_name: il.file_name@, content: c@ };
                    w.push(SourceFile { directory: il.directory, file_name: il.file_name, content: c });
                    assert(tree_view(w@) =~= before + header.push(f));
                },
                None => {
                    proof {
                        lemma_select_failure_persists(
                            manifest@,
                            j + 1,
                            up,
                            (il.directory@, il.file_name@),
                        );
                    }
                    return Err(
                        SelectError::MissingImplementation {
                            directory: il.directory,
                            file_name: il.file_name,
                        },
                    );
                },
            }
        }
        j += 1;
    }
    assert(manifest@.subrange(0, j as int) =~= manifest@);
    Ok(w)
}

/// Whether `tree` has a file at `directory`/`file_name`.
pub open spec fn has_file(tree: Seq<FileView>, directory: Seq<char>, file_name: Seq<char>) -> bool {
    exists|k: int|
        0 <= k < tree.len() && (#[trigger] tree[k]).directory == directory && tree[k].file_name
            == file_name
}

/// A lookup finds a file exactly when the tree has one at that place, and what it finds
/// is the text of such a file.
proof fn lemma_lookup_found(tree: Seq<FileView>, directory: Seq<char>, file_name: Seq<char>)
    ensures
        lookup(tree, directory, file_name) is Some <==> has_file(tree, directory, file_name),
        lookup(tree, directory, file_name) matches Some(c) ==> exists|k: int|
            0 <= k < tree.len() && (#[trigger] tree[k]).directory == directory
                && tree[k].file_name == file_name && tree[k].content == c,
    decreases tree.len(),
{
    if tree.len() > 0 {
        let prev = tree.drop_last();
        lemma_lookup_found(prev, directory, file_name);
        assert(tree.last() == tree[tree.len() - 1]);
        if has_file(prev, directory, file_name) {
            let k = choose|k: int|
                0 <= k < prev.len() && (#[trigger] prev[k]).directory == directory
                    && prev[k].file_name == file_name;
            assert(tree[k] == prev[k]);
        }
        if lookup(prev, directory, file_name) is Some {
            let c = lookup(prev, directory, file_name)->0;
            let k = choose|k: int|
                0 <= k < prev.len() && (#[trigger] prev[k]).directory == directory
                    && prev[k].file_name == file_name && prev[k].content == c;
            assert(tree[k] == prev[k]);
        }
        if has_file(tree, directory, file_name) && !has_file(prev, directory, file_name) {
            let k = choose|k: int|
                0 <= k < tree.len() && (#[trigger] tree[k]).directory == directory
                    && tree[k].file_name == file_name;
            if k < prev.len() {
                assert(prev[k] == tree[k]);
            }
        }
    }
}

/// Every file of a selected tree holds the text that upstream has at its place.
proof fn lemma_selected_agree(manifest: Seq<SourceManifestEntry>, upstream: Seq<FileView>)
    ensures
        select_spec(manifest, upstream) matches Ok(w) ==> forall|k: int|
            0 <= k < w.len() ==> lookup(upstream, (#[trigger] w[k]).directory, w[k].file_name)
                == Some(w[k].content),
    decreases manifest.len(),
{
    if manifest.len() > 0 {
        lemma_selected_agree(manifest.drop_last(), upstream);
        if let Ok(w) = select_spec(manifest, upstream) {
            let prev = select_spec(manifest.drop_last(), upstream)->Ok_0;
            let f = entry_files(manifest.last(), upstream)->Ok_0;
            assert(w == prev + f);
            assert forall|k: int| 0 <= k < w.len() implies lookup(
                upstream,
                (#[trigger] w[k]).directory,
                w[k].file_name,
            ) == Some(w[k].content) by {
                if k < prev.len() {
                    assert(w[k] == prev[k]);
                } else {
                    assert(w[k] == f[k - prev.len()]);
                }
            }
        }
    }
}

/// A selected tree holds, for each entry, its header where upstream has one and its
/// source where the entry has one; and upstream has each such source.
proof fn lemma_selected_covers(manifest: Seq<SourceManifestEntry>, upstream: Seq<FileView>)
    ensures
        select_spec(manifest, upstream) matches Ok(w) ==> forall|j: int|
            0 <= j < manifest.len() ==> {
                let e = #[trigger] manifest[j];
                &&& lookup(upstream, header_dir(e.subdirectory@), header_name(e.basename@)) is Some
                    ==> has_file(w, header_dir(e.subdirectory@), header_name(e.basename@))
                &&& e.has_impl ==> has_file(w, impl_dir(e.subdirectory@), impl_name(e.basename@))
                    && lookup(upstream, impl_dir(e.subdirectory@), impl_name(e.basename@)) is Some
            },
    decreases manifest.len(),
{
    if manifest.len() > 0 {
        let pm = manifest.drop_last();
        lemma_selected_covers(pm, upstream);
        if let Ok(w) = select_spec(manifest, upstream) {
            let prev = select_spec(pm, upstream)->Ok_0;
            let f = entry_files(manifest.last(), upstream)->Ok_0;
            assert(w == prev + f);
            assert forall|j: int| 0 <= j < manifest.len() implies {
                let e = #[trigger] manifest[j];
                &&& lookup(upstream, header_dir(e.subdirectory@), header_name(e.basename@)) is Some
                    ==> has_file(w, header_dir(e.subdirectory@), header_name(e.basename@))
                &&& e.has_impl ==> has_file(w, impl_dir(e.subdirectory@), impl_name(e.basename@))
                    && lookup(upstream, impl_dir(e.subdirectory@), impl_name(e.basename@)) is Some
            } by {
                let e = manifest[j];
                if j < pm.len() {
                    assert(pm[j] == e);
                    let hd = header_dir(e.subdirectory@);
                    let hn = header_name(e.basename@);
                    if has_file(prev, hd, hn) {
                        let k = choose|k: int|
                            0 <= k < prev.len() && (#[trigger] prev[k]).directory == hd
                                && prev[k].file_name == hn;
                        assert(w[k] == prev[k]);
                    }
                    let id = impl_dir(e.subdirectory@);
                    let iname = impl_name(e.basename@);
                    if has_file(prev, id, iname) {
                        let k = choose|k: int|
                            0 <= k < prev.len() && (#[trigger] prev[k]).directory == id
                                && prev[k].file_name == iname;
                        assert(w[k] == prev[k]);
                    }
                } else {
                    assert(e == manifest.last());
                    let hd = header_dir(e.subdirectory@);
                    let hn = header_name(e.basename@);
                    if lookup(upstream, hd, hn) is Some {
                        assert(w[prev.len() as int] == f[0]);
                    }
                    if e.has_impl {
                        assert(w[w.len() - 1] == f[f.len() - 1]);
                    }
                }
            }
        }
    }
}

/// Two trees that give each entry the same files give the manifest the same selection.
proof fn lemma_select_same(
    manifest: Seq<SourceManifestEntry>,
    a: Seq<FileView>,
    b: Seq<FileView>,
)
    requires
        forall|j: int|
            0 <= j < manifest.len() ==> entry_files(#[trigger] manifest[j], a) == entry_files(
                manifest[j],
                b,
            ),
    ensures
        select_spec(manifest, a) == select_spec(manifest, b),
    decreases manifest.len(),
{
    if manifest.len() > 0 {
        let pm = manifest.drop_last();
        assert forall|j: int| 0 <= j < pm.len() implies entry_files(#[trigger] pm[j], a)
            == entry_files(pm[j], b) by {
            assert(pm[j] == manifest[j]);
        }
        lemma_select_same(pm, a, b);
        assert(manifest.last() == manifest[manifest.len() - 1]);
    }
}

/// Selection is idempotent: selecting with the same manifest from a tree that an earlier
/// selection produced yields that very tree again, file for file and byte for byte.
pub proof fn lemma_selection_idempotent(manifest: Seq<SourceManifestEntry>, upstream: Seq<FileView>)
    ensures
        select_spec(manifest, upstream) matches Ok(w) ==> select_spec(manifest, w) == Ok::<
            Seq<FileView>,
            (Seq<char>, Seq<char>),
        >(w),
{
    if let Ok(w) = select_spec(manifest, upstream) {
        lemma_selected_agree(manifest, upstream);
        lemma_selected_covers(manifest, upstream);
        assert forall|d: Seq<char>, n: Seq<char>|
            #[trigger] lookup(w, d, n) is Some implies lookup(w, d, n) == lookup(upstream, d, n) by {
            lemma_lookup_found(w, d, n);
            if let Some(c) = lookup(w, d, n) {
                let k = choose|k: int|
                    0 <= k < w.len() && (#[trigger] w[k]).directory == d && w[k].file_name == n
                        && w[k].content == c;
                assert(lookup(upstream, w[k].directory, w[k].file_name) == Some(w[k].content));
            }
        }
        assert forall|j: int| 0 <= j < manifest.len() implies entry_files(#[trigger] manifest[j], w)
            == entry_files(manifest[j], upstream) by {
            let e = manifest[j];
            let hd = header_dir(e.subdirectory@);
            let hn = header_name(e.basename@);
            lemma_lookup_found(w, hd, hn);
            if lookup(w, hd, hn) is Some {
                assert(lookup(w, hd, hn) == lookup(upstream, hd, hn));
            } else {
                if lookup(upstream, hd, hn) is Some {
                    assert(has_file(w, hd, hn));
                }
            }
            assert(lookup(w, hd, hn) == lookup(upstream, hd, hn));
            if e.has_impl {
                let id = impl_dir(e.subdirectory@);
                let iname = impl_name(e.basename@);
                assert(has_file(w, id, iname));
                lemma_lookup_found(w, id, iname);
                assert(lookup(w, id, iname) is Some);
                assert(lookup(w, id, iname) == lookup(upstream, id, iname));
            }
        }
        lemma_select_same(manifest, w, upstream);
    }
}

} // verus!
