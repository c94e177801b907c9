use vstd::prelude::*;

verus! {

broadcast use vstd::std_specs::vec::axiom_vec_decreases_to_view;

/// `s` with each match of `pat`, found from the left and without overlap,
/// replaced by `rep`; everything else is kept in order.
pub open spec fn replace_all(s: Seq<char>, pat: Seq<char>, rep: Seq<char>) -> Seq<char>
    decreases s.len(),
{
    if s.len() == 0 {
        s
    } else if 0 < pat.len() <= s.len() && s.subrange(0, pat.len() as int) == pat {
        rep + replace_all(s.subrange(pat.len() as int, s.len() as int), pat, rep)
    } else {
        seq![s[0]] + replace_all(s.subrange(1, s.len() as int), pat, rep)
    }
}

/// Relies on `str::replace`: every match of a non-empty pattern, from the
/// left and without overlap, is replaced.
#[verifier::external_body]
fn replace_text(s: &str, pat: &str, rep: &str) -> (r: String)
    requires
        pat@.len() > 0,
    ensures
        r@ == replace_all(s@, pat@, rep@),
{
    s.replace(pat, rep)
}

/// The folder under which assets are looked up, as it prefixes the paths
/// that a directory listing of it gives.
pub open spec fn asset_root() -> Seq<char> {
    seq!['.', '/', 'a', 's', 's', 'e', 't', 's', '/']
}

/// Relies on `str::strip_prefix`: the rest of `s` after `prefix` when `s`
/// starts with `prefix`, and nothing otherwise.
#[verifier::external_body]
fn strip_text_prefix<'a>(s: &'a str, prefix: &str) -> (r: Option<&'a str>)
    ensures
        r is Some == (prefix@.len() <= s@.len() && s@.subrange(0, prefix@.len() as int) == prefix@),
        r matches Some(t) ==> t@ == s@.subrange(prefix@.len() as int, s@.len() as int),
{
    s.strip_prefix(prefix)
}

/// `s` with every backslash turned into a forward slash.
pub open spec fn forward_slashes(s: Seq<char>) -> Seq<char> {
    replace_all(s, seq!['\\'], seq!['/'])
}

/// A listed path, as an asset path: with forward slashes, and relative to
/// the asset folder when it lies under it.
pub open spec fn relative_asset_path(p: Seq<char>) -> Seq<char> {
    let s = forward_slashes(p);
    let n = asset_root().len();
    if n <= s.len() && s.subrange(0, n as int) == asset_root() {
        s.subrange(n as int, s.len() as int)
    } else {
        s
    }
}

/// Turns a path of the directory listing into the path of an asset,
/// relative to the asset folder and with forward slashes.
pub fn to_asset_path(p: &str) -> (r: String)
    ensures
        r@ == relative_asset_path(p@),
{
    proof {
        reveal_strlit("\\");
        reveal_strlit("/");
        reveal_strlit("./assets/");
        assert("\\"@ =~= seq!['\\']);
        assert("/"@ =~= seq!['/']);
        assert("./assets/"@ =~= asset_root());
    }
    let slashed = replace_text(p, "\\", "/");
    match strip_text_prefix(slashed.as_str(), "./assets/") {
        Some(rest) => rest.to_owned(),
        None => slashed,
    }
}

/// Whether `s` holds no backslash.
pub open spec fn no_backslash(s: Seq<char>) -> bool {
    forall|i: int| 0 <= i < s.len() ==> s[i] != '\\'
}

proof fn lemma_forward_slashes_keep(s: Seq<char>)
    requires
        no_backslash(s),
    ensures
        forward_slashes(s) == s,
    decreases s.len(),
{
    if s.len() > 0 {
        let rest = s.subrange(1, s.len() as int);
        lemma_forward_slashes_keep(rest);
        assert(s.subrange(0, 1) != seq!['\\']) by {
            assert(s.subrange(0, 1)[0] == s[0]);
        }
        assert(s =~= seq![s[0]] + rest);
    }
}

/// A path listed under the asset folder, whose part below the folder holds
/// no backslash, turns into exactly that part.
pub proof fn lemma_relative_asset_path_of_listed(q: Seq<char>)
    requires
        no_backslash(q),
    ensures
        relative_asset_path(asset_root() + q) == q,
{
    let p = asset_root() + q;
    assert(no_backslash(p)) by {
        assert forall|i: int| 0 <= i < p.len() implies p[i] != '\\' by {
            if i >= asset_root().len() {
                assert(p[i] == q[i - asset_root().len()]);
            }
        }
    }
    lemma_forward_slashes_keep(p);
    assert(p.subrange(0, 9) =~= asset_root());
    assert(p.subrange(9, p.len() as int) =~= q);
}

/// One entry of the asset folder as the file system listed it: a file with
/// its listed path, or a folder with its listed path and its own entries.
pub enum AssetEntry {
    File(String),
    Folder(String, Vec<AssetEntry>),
}

/// The strings of a sequence of `String`s.
pub open spec fn texts(v: Seq<String>) -> Seq<Seq<char>> {
    v.map_values(|s: String| s@)
}

/// The asset paths of the files under `entries`, depth first and in listing
/// order: a file gives its own path, a folder the paths of what it holds and
/// never a path of its own.
pub open spec fn listing_files(entries: Seq<AssetEntry>) -> Seq<Seq<char>>
    decreases entries,
{
    if entries.len() == 0 {
        seq![]
    } else {
        let rest = listing_files(entries.subrange(1, entries.len() as int));
        match entries[0] {
            AssetEntry::File(p) => seq![relative_asset_path(p@)] + rest,
            AssetEntry::Folder(_, children) => listing_files(children@) + rest,
        }
    }
}

/// How many files, at any depth, `entries` holds.
pub open spec fn file_count(entries: Seq<AssetEntry>) -> nat
    decreases entries,
{
    if entries.len() == 0 {
        0
    } else {
        let rest = file_count(entries.subrange(1, entries.len() as int));
        match entries[0] {
            AssetEntry::File(_) => 1 + rest,
            AssetEntry::Folder(_, children) => file_count(children@) + rest,
        }
    }
}

/// Whether `entries` holds, at any depth, a file listed under path `p`.
pub open spec fn lists_file(entries: Seq<AssetEntry>, p: Seq<char>) -> bool
    decreases entries,
{
    if entries.len() == 0 {
        false
    } else {
        let in_rest = lists_file(entries.subrange(1, entries.len() as int), p);
        match entries[0] {
            AssetEntry::File(q) => q@ == p || in_rest,
            AssetEntry::Folder(_, children) => lists_file(children@, p) || in_rest,
        }
    }
}

proof fn lemma_contains_concat(a: Seq<Seq<char>>, b: Seq<Seq<char>>, q: Seq<char>)
    ensures
        (a + b).contains(q) == (a.contains(q) || b.contains(q)),
{
    if (a + b).contains(q) {
        let k = choose|k: int| 0 <= k < (a + b).len() && (a + b)[k] == q;
        if k >= a.len() {
            assert(b[k - a.len()] == q);
        }
    }
    if a.contains(q) {
        let k = choose|k: int| 0 <= k < a.len() && a[k] == q;
        assert((a + b)[k] == q);
    }
    if b.contains(q) {
        let k = choose|k: int| 0 <= k < b.len() && b[k] == q;
        assert((a + b)[k + a.len()] == q);
    }
}

/// Collecting a listed folder gives one asset path for each file in it, at
/// any depth, and no other: a path is collected exactly when some file of
/// the folder is listed under a path that turns into it.
pub proof fn lemma_folder_paths_are_its_files(entries: Seq<AssetEntry>)
    ensures
        listing_files(entries).len() == file_count(entries),
        forall|q: Seq<char>|
            listing_files(entries).contains(q) <==> exists|p: Seq<char>|
                lists_file(entries, p) && relative_asset_path(p) == q,
    decreases entries,
{
    if entries.len() > 0 {
        let rest = entries.subrange(1, entries.len() as int);
        lemma_folder_paths_are_its_files(rest);
        let head = match entries[0] {
            AssetEntry::File(p) => seq![relative_asset_path(p@)],
            AssetEntry::Folder(_, children) => listing_files(children@),
        };
        match entries[0] {
            AssetEntry::File(_) => {},
            AssetEntry::Folder(_, children) => {
                assert(decreases_to!(entries => entries[0]));
                lemma_folder_paths_are_its_files(children@);
            },
        }
        assert(listing_files(entries) == head + listing_files(rest));
        assert forall|q: Seq<char>|
            listing_files(entries).contains(q) <==> exists|p: Seq<char>|
                lists_file(entries, p) && relative_asset_path(p) == q by {
            lemma_contains_concat(head, listing_files(rest), q);
            if listing_files(entries).contains(q) {
                if listing_files(rest).contains(q) {
                    let p = choose|p: Seq<char>| lists_file(rest, p) && relative_asset_path(p) == q;
                    assert(lists_file(entries, p));
                } else {
                    match entries[0] {
                        AssetEntry::File(f) => {
                            assert(head[0] == q);
                            assert(lists_file(entries, f@));
                        },
                        AssetEntry::Folder(_, children) => {
                            let p = choose|p: Seq<char>|
                                lists_file(children@, p) && relative_asset_path(p) == q;
                            assert(lists_file(entries, p));
                        },
                    }
                }
            }
            if exists|p: Seq<char>| lists_file(entries, p) && relative_asset_path(p) == q {
                let p = choose|p: Seq<char>| lists_file(entries, p) && relative_asset_path(p) == q;
                if lists_file(rest, p) {
                    assert(listing_files(rest).contains(q));
                } else {
                    match entries[0] {
                        AssetEntry::File(f) => {
                            assert(head[0] == q);
                            assert(head.contains(q));
                        },
                        AssetEntry::Folder(_, children) => {
                            assert(listing_files(children@).contains(q));
                        },
                    }
                }
            }
        }
    }
}

/// Whether every file that `entries` holds is listed under the asset
/// folder, with a path whose part below the folder holds no backslash.
pub open spec fn listed_under_root(entries: Seq<AssetEntry>) -> bool {
    forall|p: Seq<char>|
        #[trigger] lists_file(entries, p) ==> asset_root().len() <= p.len() && p.subrange(
            0,
            asset_root().len() as int,
        ) == asset_root() && no_backslash(p.subrange(asset_root().len() as int, p.len() as int))
}

/// For a folder listed under the asset folder, the collected paths are
/// exactly the paths of its files relative to the asset folder: `q` is
/// collected when, and only when, a file is listed as the asset folder
/// followed by `q`. No folder is ever collected, and there is one path per
/// file.
pub proof fn lemma_folder_paths_are_relative(entries: Seq<AssetEntry>)
    requires
        listed_under_root(entries),
    ensures
        listing_files(entries).len() == file_count(entries),
        forall|q: Seq<char>|
            listing_files(entries).contains(q) <==> no_backslash(q) && lists_file(
                entries,
                asset_root() + q,
            ),
{
    lemma_folder_paths_are_its_files(entries);
    assert forall|q: Seq<char>|
        listing_files(entries).contains(q) <==> no_backslash(q) && lists_file(
            entries,
            asset_root() + q,
        ) by {
        if listing_files(entries).contains(q) {
            let p = choose|p: Seq<char>| lists_file(entries, p) && relative_asset_path(p) == q;
            let below = p.subrange(asset_root().len() as int, p.len() as int);
            lemma_relative_asset_path_of_listed(below);
            assert(p =~= asset_root() + below);
        }
        if no_backslash(q) && lists_file(entries, asset_root() + q) {
            lemma_relative_asset_path_of_listed(q);
        }
    }
}

/// Appends to `out` the asset path of every file under `entries`.
fn push_listing_files(entries: &Vec<AssetEntry>, out: &mut Vec<String>)
    ensures
        texts(final(out)@) == texts(old(out)@) + listing_files(entries@),
    decreases entries@,
{
    let n = entries.len();
    let mut i: usize = 0;
    assert(entries@.subrange(0, n as int) =~= entries@);
    while i < n
        invariant
            n == entries@.len(),
            i <= n,
            texts(out@) + listing_files(entries@.subrange(i as int, n as int)) == texts(old(out)@)
                + listing_files(entries@),
        decreases n - i,
    {
        let ghost before = texts(out@);
        let ghost tail = entries@.subrange(i as int, n as int);
        assert(tail.subrange(1, tail.len() as int) =~= entries@.subrange(i + 1, n as int));
        assert(tail[0] == entries@[i as int]);
        match &entries[i] {
            AssetEntry::File(p) => {
                let a = to_asset_path(p.as_str());
                out.push(a);
                assert(texts(out@) =~= before + seq![relative_asset_path(p@)]);
            },
            AssetEntry::Folder(_, children) => {
                assert(decreases_to!(entries@ => entries@[i as int]));
                push_listing_files(children, out);
            },
        }
        i += 1;
    }
    assert(entries@.subrange(n as int, n as int) =~= Seq::<AssetEntry>::empty());
    assert(texts(out@) =~= texts(out@) + listing_files(Seq::<AssetEntry>::empty()));
}

/// The asset paths of all files under a listed asset folder, relative to it
/// and with forward slashes; folders are descended into, never listed.
pub fn collect_folder_paths(entries: &Vec<AssetEntry>) -> (r: Vec<String>)
    ensures
        texts(r@) == listing_files(entries@),
{
    let mut out: Vec<String> = Vec::new();
    push_listing_files(entries, &mut out);
    assert(texts(Seq::<String>::empty()) =~= seq![]);
    assert(listing_files(entries@) =~= seq![] + listing_files(entries@));
    out
}

/// Where the paths of the assets to load come from.
#[derive(Clone)]
pub enum PathSource {
    /// Every file found under the asset folder.
    LoadFromFolder,
    /// Exactly the given paths, in the given order.
    GivenPaths(Vec<String>),
}

impl PathSource {
    /// Whether this source needs a listing of the asset folder.
    pub fn reads_folder(&self) -> (r: bool)
        ensures
            r == (self is LoadFromFolder),
    {
        match self {
            PathSource::LoadFromFolder => true,
            PathSource::GivenPaths(_) => false,
        }
    }

    /// The asset paths to load: the files of `folder` when reading the asset
    /// folder, else the given paths as they are. `folder` is read only in the
    /// first case.
    pub fn collect(&self, folder: &Vec<AssetEntry>) -> (r: Vec<String>)
        ensures
            self is LoadFromFolder ==> texts(r@) == listing_files(folder@),
            self is GivenPaths ==> r@ == self->GivenPaths_0@,
    {
        match self {
            PathSource::LoadFromFolder => collect_folder_paths(folder),
            PathSource::GivenPaths(given) => copy_paths(given),
        }
    }
}

/// A copy of `paths`, element by element.
fn copy_paths(paths: &Vec<String>) -> (r: Vec<String>)
    ensures
        r@ == paths@,
{
    let mut out: Vec<String> = Vec::new();
    let mut i: usize = 0;
    while i < paths.len()
        invariant
            i <= paths.len(),
            out@ == paths@.subrange(0, i as int),
        decreases paths.len() - i,
    {
        out.push(paths[i].clone());
        assert(out@ =~= paths@.subrange(0, i + 1));
        i += 1;
    }
    assert(paths@.subrange(0, paths.len() as int) =~= paths@);
    out
}

} // verus!
