use vstd::prelude::*;
use vstd::string::*;
use crate::error::JinxError;
use crate::files::JinxFiles;
use crate::service::strings_view;
use crate::text::{contains_sub, contains_text};

verus! {

/// A regular file of the project tree, as the walk of the tree found it.
#[derive(Debug, Clone)]
pub struct FsEntry {
    /// Path relative to the project directory, one name per level.
    pub components: Vec<String>,
    /// Permission bits.
    pub mode: u32,
    /// The file's bytes; `None` when it could not be read.
    pub contents: Option<Vec<u8>>,
}

/// The mathematical value of a file entry.
pub struct EntryModel {
    pub components: Seq<Seq<char>>,
    pub mode: u32,
    pub contents: Option<Seq<u8>>,
}

impl View for FsEntry {
    type V = EntryModel;

    open spec fn view(&self) -> EntryModel {
        EntryModel {
            components: strings_view(self.components@),
            mode: self.mode,
            contents: match self.contents {
                Some(c) => Some(c@),
                None => None,
            },
        }
    }
}

pub open spec fn entries_view(v: Seq<FsEntry>) -> Seq<EntryModel> {
    v.map_values(|e: FsEntry| e@)
}

/// A name is excluded when one of the non-empty patterns occurs in it.
pub open spec fn name_excluded(name: Seq<char>, excluded: Seq<Seq<char>>) -> bool {
    exists|k: int| 0 <= k < excluded.len() && (#[trigger] excluded[k]).len() > 0 && contains_sub(name, excluded[k])
}

/// An entry is excluded when its name, or the name of a directory above it,
/// is excluded: the walk does not enter an excluded directory.
pub open spec fn entry_excluded(e: EntryModel, excluded: Seq<Seq<char>>) -> bool {
    exists|i: int| 0 <= i < e.components.len() && name_excluded(#[trigger] e.components[i], excluded)
}

/// The entries of `listing` that are not excluded, in listing order.
pub open spec fn selected(listing: Seq<EntryModel>, excluded: Seq<Seq<char>>) -> Seq<EntryModel>
    decreases listing.len(),
{
    if listing.len() == 0 {
        Seq::empty()
    } else {
        let rest = selected(listing.drop_last(), excluded);
        if entry_excluded(listing.last(), excluded) {
            rest
        } else {
            rest.push(listing.last())
        }
    }
}

/// The names joined by `/`.
pub open spec fn join_path(c: Seq<Seq<char>>) -> Seq<char>
    decreases c.len(),
{
    if c.len() == 0 {
        Seq::empty()
    } else if c.len() == 1 {
        c[0]
    } else {
        join_path(c.drop_last()) + "/"@ + c.last()
    }
}

/// A name that tar stores as one path component on a Unix host: not
/// empty, not `.` or `..`, without `/` or NUL.
pub open spec fn component_ok(c: Seq<char>) -> bool {
    &&& c.len() > 0
    &&& c != "."@
    &&& c != ".."@
    &&& forall|i: int| 0 <= i < c.len() ==> #[trigger] c[i] != '/' && c[i] != '\0'
}

/// A relative path of at least one acceptable component.
pub open spec fn components_ok(cs: Seq<Seq<char>>) -> bool {
    cs.len() > 0 && forall|i: int| 0 <= i < cs.len() ==> component_ok(#[trigger] cs[i])
}

/// A path that tar accepts as the name of an archive entry: acceptable
/// components joined by `/`.
pub open spec fn tar_path_ok(p: Seq<char>) -> bool {
    exists|cs: Seq<Seq<char>>| components_ok(cs) && #[trigger] join_path(cs) == p
}

/// An archive entry: relative path, mode and bytes.
pub open spec fn archive_entry(e: EntryModel) -> (Seq<char>, u32, Seq<u8>) {
    (join_path(e.components), e.mode, match e.contents {
        Some(c) => c,
        None => Seq::empty(),
    })
}

/// What the archive of `listing` holds, in order.
pub open spec fn packed(listing: Seq<EntryModel>, excluded: Seq<Seq<char>>) -> Seq<(Seq<char>, u32, Seq<u8>)> {
    selected(listing, excluded).map_values(|e: EntryModel| archive_entry(e))
}

/// Every selected entry has a path that tar accepts.
pub open spec fn all_paths_ok(listing: Seq<EntryModel>, excluded: Seq<Seq<char>>) -> bool {
    forall|i: int| 0 <= i < selected(listing, excluded).len() ==> components_ok(
        (#[trigger] selected(listing, excluded)[i]).components,
    )
}

/// Every selected entry could be read.
pub open spec fn all_readable(listing: Seq<EntryModel>, excluded: Seq<Seq<char>>) -> bool {
    forall|i: int| 0 <= i < selected(listing, excluded).len() ==> (#[trigger] selected(listing, excluded)[i]).contents is Some
}

/// An archive under construction, written into memory by `tar::Builder`.
#[verifier::external_body]
pub struct ArchiveBuilder {
    inner: tar::Builder<Vec<u8>>,
}

/// The entries appended so far to an archive under construction.
pub uninterp spec fn tar_entries(b: ArchiveBuilder) -> Seq<(Seq<char>, u32, Seq<u8>)>;

/// The bytes of a finished archive of the given entries.
pub uninterp spec fn tar_bytes(entries: Seq<(Seq<char>, u32, Seq<u8>)>) -> Seq<u8>;


/// Relies on `tar::Builder::new`: a builder over an empty buffer, with no
/// entries yet.
#[verifier::external_body]
fn new_archive() -> (b: ArchiveBuilder)
    ensures
        tar_entries(b) == Seq::<(Seq<char>, u32, Seq<u8>)>::empty(),
{
    ArchiveBuilder { inner: tar::Builder::new(Vec::new()) }
}

/// Relies on `tar::Builder::append_data` with a GNU header that carries the
/// size and the mode: on success the entry follows those appended before.
/// Writing into memory cannot fail, and on a Unix host a relative path of
/// plain components always fits, through the GNU long-name entry when it is
/// long.
#[verifier::external_body]
fn append_entry(b: &mut ArchiveBuilder, path: &String, mode: u32, data: &Vec<u8>) -> (ok: bool)
    ensures
        tar_path_ok(path@) ==> ok,
        ok ==> tar_entries(*final(b)) == tar_entries(*old(b)).push((path@, mode, data@)),
{
    let mut header = tar::Header::new_gnu();
    header.set_size(data.len() as u64);
    header.set_mode(mode);
    b.inner.append_data(&mut header, path.as_str(), data.as_slice()).is_ok()
}

/// Relies on `tar::Builder::into_inner`: closes the archive with two zero
/// blocks, which cannot fail in memory, and hands back its bytes, which
/// depend on the appended entries alone.
#[verifier::external_body]
fn finish_archive(b: ArchiveBuilder) -> (r: Option<Vec<u8>>)
    ensures
        r is Some,
        r->0@ == tar_bytes(tar_entries(b)),
{
    b.inner.into_inner().ok()
}

/// What packing `listing` with the patterns `excluded` owes.
pub open spec fn pack_result(
    r: Result<Vec<u8>, JinxError>,
    listing: Seq<EntryModel>,
    excluded: Seq<Seq<char>>,
) -> bool {
    &&& r is Err ==> r == Err::<Vec<u8>, JinxError>(JinxError::Packaging)
    &&& !all_readable(listing, excluded) ==> r is Err
    &&& all_readable(listing, excluded) && all_paths_ok(listing, excluded) ==> r is Ok
    &&& r is Ok ==> r->Ok_0@ == tar_bytes(packed(listing, excluded))
}

/// Whether one of the non-empty patterns occurs in `name`.
pub fn is_excluded(name: &String, excluded: &Vec<String>) -> (r: bool)
    ensures
        r == name_excluded(name@, strings_view(excluded@)),
{
    let mut k: usize = 0;
    while k < excluded.len()
        invariant
            k <= excluded@.len(),
            forall|j: int| 0 <= j < k ==> (#[trigger] strings_view(excluded@)[j]).len() == 0 || !contains_sub(name@, strings_view(excluded@)[j]),
        decreases excluded.len() - k,
    {
        if excluded[k].unicode_len() > 0 && contains_text(name.as_str(), excluded[k].as_str()) {
            assert(contains_sub(name@, strings_view(excluded@)[k as int]));
            return true;
        }
        k = k + 1;
    }
    false
}

fn entry_is_excluded(e: &FsEntry, excluded: &Vec<String>) -> (r: bool)
    ensures
        r == entry_excluded(e@, strings_view(excluded@)),
{
    let mut i: usize = 0;
    while i < e.components.len()
        invariant
            i <= e.components@.len(),
            forall|j: int| 0 <= j < i ==> !name_excluded(#[trigger] e@.components[j], strings_view(excluded@)),
        decreases e.components.len() - i,
    {
        if is_excluded(&e.components[i], excluded) {
            assert(name_excluded(e@.components[i as int], strings_view(excluded@)));
            return true;
        }
        i = i + 1;
    }
    false
}

/// The names joined by `/`.
pub fn join_components(c: &Vec<String>) -> (r: String)
    ensures
        r@ == join_path(strings_view(c@)),
{
    let mut r = String::new();
    let mut i: usize = 0;
    while i < c.len()
        invariant
            i <= c@.len(),
            r@ == join_path(strings_view(c@).subrange(0, i as int)),
        decreases c.len() - i,
    {
        let ghost sub = strings_view(c@).subrange(0, i as int);
        if i > 0 {
            r.append("/");
        }
        r.append(c[i].as_str());
        i = i + 1;
        proof {
            let next = strings_view(c@).subrange(0, i as int);
            assert(next.drop_last() =~= sub);
            if i == 1 {
                assert(join_path(sub) =~= Seq::<char>::empty());
            }
        }
    }
    assert(strings_view(c@).subrange(0, c@.len() as int) =~= strings_view(c@));
    r
}

/// The build context of a project: an archive of the files of `listing` that
/// are not excluded, each once, at its relative path, in listing order. A
/// name is excluded when one of the patterns occurs in it, and excluding a
/// directory excludes what is below it. A selected file that could not be
/// read is a `Packaging` error, as is a path that tar refuses; otherwise the
/// archive is returned. No partial archive is returned.
pub fn write_tar(listing: &Vec<FsEntry>, excluded: &Vec<String>) -> (r: Result<Vec<u8>, JinxError>)
    ensures
        pack_result(r, entries_view(listing@), strings_view(excluded@)),
{
    let ghost ex = strings_view(excluded@);
    let mut b = new_archive();
    let mut i: usize = 0;
    while i < listing.len()
        invariant
            i <= listing@.len(),
            ex == strings_view(excluded@),
            tar_entries(b) == packed(entries_view(listing@).subrange(0, i as int), ex),
            all_readable(entries_view(listing@).subrange(0, i as int), ex),
        decreases listing.len() - i,
    {
        let ghost pre = entries_view(listing@).subrange(0, i as int);
        let ghost next = entries_view(listing@).subrange(0, i + 1);
        proof {
            assert(next.drop_last() =~= pre);
            assert(next.last() == listing@[i as int]@);
        }
        let e = &listing[i];
        if !entry_is_excluded(e, excluded) {
            match &e.contents {
                Some(data) => {
                    let path = join_components(&e.components);
                    if !append_entry(&mut b, &path, e.mode, data) {
                        proof {
                            if components_ok(e@.components) {
                                assert(join_path(e@.components) == path@);
                            }
                            lemma_selected_includes(entries_view(listing@), ex, i as int);
                        }
                        return Err(JinxError::Packaging);
                    }
                    proof {
                        assert(selected(next, ex) == selected(pre, ex).push(next.last()));
                        assert(packed(next, ex) =~= packed(pre, ex).push(archive_entry(next.last())));
                        assert forall|k: int| 0 <= k < selected(next, ex).len() implies (#[trigger] selected(next, ex)[k]).contents is Some by {
                            if k < selected(pre, ex).len() {
                                assert(selected(next, ex)[k] == selected(pre, ex)[k]);
                            }
                        }
                    }
                },
                None => {
                    proof {
                        lemma_selected_includes(entries_view(listing@), ex, i as int);
                    }
                    return Err(JinxError::Packaging);
                },
            }
        } else {
            proof {
                assert(selected(next, ex) == selected(pre, ex));
            }
        }
        i = i + 1;
    }
    proof {
        assert(entries_view(listing@).subrange(0, listing@.len() as int) =~= entries_view(listing@));
    }
    match finish_archive(b) {
        Some(bytes) => Ok(bytes),
        None => Err(JinxError::Packaging),
    }
}

/// What the proxy's build context leaves out: the registry and archives.
pub open spec fn proxy_exclusions() -> Seq<Seq<char>> {
    seq!["jinx_conf.json"@, ".jinx.tar.gz"@]
}

/// The build context of the reverse proxy: the files of the orchestrator's
/// home directory but the registry and the archives.
pub fn create_jinx_loadbalancer_tar(listing: &Vec<FsEntry>) -> (r: Result<Vec<u8>, JinxError>)
    ensures
        pack_result(r, entries_view(listing@), proxy_exclusions()),
{
    let excluded = vec![String::from_str("jinx_conf.json"), String::from_str(".jinx.tar.gz")];
    assert(strings_view(excluded@) =~= proxy_exclusions());
    write_tar(listing, &excluded)
}

/// Where the reverse proxy's build context is kept.
pub fn get_jinx_loadbalancer_tar(files: &JinxFiles) -> (r: String)
    ensures
        r@ == files.jinx_home@ + "/"@ + "jinx_proxy"@ + ".jinx.tar.gz"@,
{
    crate::files::tar_path(files, &String::from_str("jinx_proxy"))
}

proof fn lemma_selected_prefix(listing: Seq<EntryModel>, ex: Seq<Seq<char>>, n: int)
    requires
        0 <= n <= listing.len(),
    ensures
        selected(listing.subrange(0, n), ex).len() <= selected(listing, ex).len(),
        forall|k: int| 0 <= k < selected(listing.subrange(0, n), ex).len() ==>
            selected(listing, ex)[k] == #[trigger] selected(listing.subrange(0, n), ex)[k],
    decreases listing.len() - n,
{
    if n < listing.len() {
        lemma_selected_prefix(listing, ex, n + 1);
        let a = selected(listing.subrange(0, n), ex);
        let b = selected(listing.subrange(0, n + 1), ex);
        assert(listing.subrange(0, n + 1).drop_last() =~= listing.subrange(0, n));
        assert forall|k: int| 0 <= k < a.len() implies selected(listing, ex)[k] == #[trigger] a[k] by {
            assert(b[k] == a[k]);
        }
    } else {
        assert(listing.subrange(0, n) =~= listing);
    }
}

/// A non-excluded entry of the listing is among the selected ones.
proof fn lemma_selected_includes(listing: Seq<EntryModel>, ex: Seq<Seq<char>>, i: int)
    requires
        0 <= i < listing.len(),
        !entry_excluded(listing[i], ex),
    ensures
        exists|k: int| 0 <= k < selected(listing, ex).len() && #[trigger] selected(listing, ex)[k] == listing[i],
        listing[i].contents is None ==> !all_readable(listing, ex),
        !components_ok(listing[i].components) ==> !all_paths_ok(listing, ex),
{
    let next = listing.subrange(0, i + 1);
    assert(next.drop_last() =~= listing.subrange(0, i));
    assert(next.last() == listing[i]);
    let k = selected(listing.subrange(0, i), ex).len() as int;
    assert(selected(next, ex)[k] == listing[i]);
    lemma_selected_prefix(listing, ex, i + 1);
    assert(selected(listing, ex)[k] == listing[i]);
}

/// The archive holds every file that is not excluded and nothing else; when
/// the listing names each path once, so does the archive.
pub proof fn lemma_pack_complete(listing: Seq<EntryModel>, excluded: Seq<Seq<char>>)
    ensures
        forall|i: int| 0 <= i < listing.len() && !entry_excluded(listing[i], excluded) ==>
            #[trigger] selected(listing, excluded).contains(listing[i]),
        forall|k: int| 0 <= k < selected(listing, excluded).len() ==>
            listing.contains(#[trigger] selected(listing, excluded)[k]) && !entry_excluded(
                selected(listing, excluded)[k],
                excluded,
            ),
        (forall|i: int, j: int| 0 <= i < j < listing.len() ==> #[trigger] listing[i].components
            != #[trigger] listing[j].components) ==> forall|a: int, b: int|
            0 <= a < b < selected(listing, excluded).len() ==> (#[trigger] selected(listing, excluded)[a]).components
                != (#[trigger] selected(listing, excluded)[b]).components,
        packed(listing, excluded).len() == selected(listing, excluded).len(),
        forall|k: int| 0 <= k < packed(listing, excluded).len() ==> #[trigger] packed(listing, excluded)[k]
            == archive_entry(selected(listing, excluded)[k]),
    decreases listing.len(),
{
    if listing.len() > 0 {
        let init = listing.drop_last();
        lemma_pack_complete(init, excluded);
        let a = selected(init, excluded);
        let r = selected(listing, excluded);
        assert forall|i: int| 0 <= i < listing.len() && !entry_excluded(listing[i], excluded) implies
            #[trigger] r.contains(listing[i]) by {
            if i < init.len() {
                assert(init[i] == listing[i]);
                assert(a.contains(init[i]));
                let k = choose|k: int| 0 <= k < a.len() && a[k] == init[i];
                assert(r[k] == a[k]);
            } else {
                assert(r[a.len() as int] == listing[i]);
            }
        }
        assert forall|k: int| 0 <= k < r.len() implies listing.contains(#[trigger] r[k]) && !entry_excluded(r[k], excluded) by {
            if k < a.len() {
                assert(r[k] == a[k]);
                assert(init.contains(a[k]));
                let i = choose|i: int| 0 <= i < init.len() && init[i] == a[k];
                assert(listing[i] == init[i]);
            } else {
                assert(listing[listing.len() - 1] == r[k]);
            }
        }
        if forall|i: int, j: int| 0 <= i < j < listing.len() ==> #[trigger] listing[i].components
            != #[trigger] listing[j].components {
            assert forall|i: int, j: int| 0 <= i < j < init.len() implies #[trigger] init[i].components
                != #[trigger] init[j].components by {
                assert(init[i] == listing[i] && init[j] == listing[j]);
            }
            assert forall|x: int, y: int| 0 <= x < y < r.len() implies (#[trigger] r[x]).components
                != (#[trigger] r[y]).components by {
                if y < a.len() {
                    assert(r[x] == a[x] && r[y] == a[y]);
                } else {
                    assert(r[x] == a[x]);
                    assert(init.contains(a[x]));
                    let i = choose|i: int| 0 <= i < init.len() && init[i] == a[x];
                    assert(listing[i] == init[i]);
                    assert(r[y] == listing[listing.len() - 1]);
                }
            }
        }
    }
}

} // verus!
