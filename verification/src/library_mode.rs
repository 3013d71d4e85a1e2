//! Library mode: what is worked out between reading the metadata of a
//! compiled library and writing the bindings of each library found in it.

use crate::error::{GroupError, GroupErrorView, LibraryModeError, LibraryModeErrorView};
use crate::group::{
    assign_items, create_metadata_groups, declared_groups, group_metadata, MetadataGroup,
    MetadataGroupMap, MetadataGroupView,
};
use crate::metadata::{metadata_views, Metadata, MetadataView, UdlFile, UdlFileView};
use crate::object_refs::reference_free_items;
use crate::sequences::{lemma_not_in_prefix, lemma_push_to_set};
use crate::strings::{replace, replace_char, str_eq, strip_prefix, strip_suffix};
use vstd::prelude::*;

verus! {

/// A single source that bindings are generated for: a library, its
/// component interface and its configuration.
#[derive(Debug)]
pub struct Source<Interface, Config> {
    pub crate_name: String,
    pub ci: Interface,
    pub config: Config,
}

/// The final component of the path that a text spells, as `camino` takes
/// paths apart on the platform that the crate is built for.
pub uninterp spec fn path_file_name(path: Seq<char>) -> Option<Seq<char>>;

/// Trusted: `camino::Utf8Path::file_name`, applied to the path that `path`
/// spells. The result is the final component of the path, if there is one;
/// the contract gives it a name and says no more of it.
#[verifier::external_body]
fn file_name(path: &str) -> (name: Option<&str>)
    ensures
        match name {
            Some(n) => path_file_name(path@) == Some(n@),
            None => path_file_name(path@) is None,
        },
{
    camino::Utf8Path::new(path).file_name()
}

/// A file name without a leading `lib`.
pub open spec fn without_lib_prefix(file_name: Seq<char>) -> Seq<char> {
    if seq!['l', 'i', 'b'].is_prefix_of(file_name) {
        file_name.skip(3)
    } else {
        file_name
    }
}

/// `name` without the ending `extension`, where it ends so.
pub open spec fn without_extension(name: Seq<char>, extension: Seq<char>) -> Option<Seq<char>> {
    if extension.is_suffix_of(name) {
        Some(name.take(name.len() - extension.len()))
    } else {
        None
    }
}

/// The name of the C dynamic library that a file name stands for: the file
/// name without a leading `lib` and without its ending `.so`, `.dll` or
/// `.dylib`; none where it has no such ending.
pub open spec fn cdylib_name(file_name: Seq<char>) -> Option<Seq<char>> {
    let name = without_lib_prefix(file_name);
    if without_extension(name, seq!['.', 's', 'o']) is Some {
        without_extension(name, seq!['.', 's', 'o'])
    } else if without_extension(name, seq!['.', 'd', 'l', 'l']) is Some {
        without_extension(name, seq!['.', 'd', 'l', 'l'])
    } else {
        without_extension(name, seq!['.', 'd', 'y', 'l', 'i', 'b'])
    }
}

/// `name` without the ending `extension`.
fn strip_extension<'a>(name: &'a str, extension: &str) -> (stripped: Option<&'a str>)
    ensures
        match stripped {
            Some(s) => without_extension(name@, extension@) == Some(s@),
            None => without_extension(name@, extension@) is None,
        },
{
    match strip_suffix(name, extension) {
        Some(rest) => {
            assert(extension@.is_suffix_of(name@)) by {
                assert(name@.subrange(name@.len() - extension@.len(), name@.len() as int)
                    =~= extension@);
            }
            assert(name@.take(name@.len() - extension@.len()) =~= rest@);
            Some(rest)
        },
        None => None,
    }
}

/// If `filename` is the file name of a C dynamic library, its name.
pub fn cdylib_name_from_file_name(filename: &str) -> (name: Option<&str>)
    ensures
        match name {
            Some(n) => cdylib_name(filename@) == Some(n@),
            None => cdylib_name(filename@) is None,
        },
{
    proof {
        reveal_strlit("lib");
        reveal_strlit(".so");
        reveal_strlit(".dll");
        reveal_strlit(".dylib");
        assert("lib"@ =~= seq!['l', 'i', 'b']);
        assert(".so"@ =~= seq!['.', 's', 'o']);
        assert(".dll"@ =~= seq!['.', 'd', 'l', 'l']);
        assert(".dylib"@ =~= seq!['.', 'd', 'y', 'l', 'i', 'b']);
    }
    let stem = match strip_prefix(filename, "lib") {
        Some(rest) => {
            assert("lib"@.is_prefix_of(filename@)) by {
                assert(filename@.subrange(0, 3) =~= "lib"@);
            }
            assert(filename@.skip(3) =~= rest@);
            rest
        },
        None => filename,
    };
    assert(stem@ == without_lib_prefix(filename@));
    match strip_extension(stem, ".so") {
        Some(name) => Some(name),
        None => match strip_extension(stem, ".dll") {
            Some(name) => Some(name),
            None => strip_extension(stem, ".dylib"),
        },
    }
}

/// If `library_path` is a C dynamic library, its name: the name that the
/// final component of the path stands for (see [`cdylib_name`]).
pub fn calc_cdylib_name(library_path: &str) -> (name: Option<&str>)
    ensures
        match name {
            Some(n) => path_file_name(library_path@) is Some && cdylib_name(
                path_file_name(library_path@)->0,
            ) == Some(n@),
            None => path_file_name(library_path@) is None || cdylib_name(
                path_file_name(library_path@)->0,
            ) is None,
        },
{
    match file_name(library_path) {
        Some(filename) => cdylib_name_from_file_name(filename),
        None => None,
    }
}

/// The name of a target as a crate name: with `_` for `-`.
pub open spec fn target_crate_name(target_name: Seq<char>) -> Seq<char> {
    replace_char(target_name, '-', seq!['_'])
}

/// Whether a package with these targets builds the library `crate_name`.
pub open spec fn package_has_crate(target_names: Seq<String>, crate_name: Seq<char>) -> bool {
    exists|t: int|
        0 <= t < target_names.len() && target_crate_name((#[trigger] target_names[t])@)
            == crate_name
}

/// The number of packages that build the library `crate_name`.
pub open spec fn packages_with_crate(packages: Seq<Vec<String>>, crate_name: Seq<char>) -> nat
    decreases packages.len(),
{
    if packages.len() == 0 {
        0
    } else {
        packages_with_crate(packages.drop_last(), crate_name) + if package_has_crate(
            packages.last()@,
            crate_name,
        ) {
            1nat
        } else {
            0nat
        }
    }
}

proof fn lemma_packages_with_crate_bound(packages: Seq<Vec<String>>, crate_name: Seq<char>)
    ensures
        packages_with_crate(packages, crate_name) <= packages.len(),
    decreases packages.len(),
{
    if packages.len() > 0 {
        lemma_packages_with_crate_bound(packages.drop_last(), crate_name);
    }
}

fn has_crate(target_names: &Vec<String>, crate_name: &str) -> (r: bool)
    ensures
        r == package_has_crate(target_names@, crate_name@),
{
    proof {
        reveal_strlit("_");
        assert("_"@ =~= seq!['_']);
    }
    let mut t: usize = 0;
    while t < target_names.len()
        invariant
            t <= target_names@.len(),
            "_"@ == seq!['_'],
            forall|k: int|
                0 <= k < t ==> target_crate_name((#[trigger] target_names@[k])@) != crate_name@,
        decreases target_names@.len() - t,
    {
        let normalized = replace(target_names[t].as_str(), '-', "_");
        if str_eq(normalized.as_str(), crate_name) {
            return true;
        }
        t += 1;
    }
    false
}

/// Finds the package that builds the library `crate_name`, among packages
/// given by the names of their targets: its position where there is exactly
/// one, an error with their number otherwise.
pub fn find_package_by_crate_name(packages: &Vec<Vec<String>>, crate_name: &str) -> (r: Result<
    usize,
    LibraryModeError,
>)
    ensures
        match r {
            Ok(i) => packages_with_crate(packages@, crate_name@) == 1 && i < packages@.len()
                && package_has_crate(packages@[i as int]@, crate_name@),
            Err(e) => packages_with_crate(packages@, crate_name@) != 1 && e@
                == (LibraryModeErrorView::PackagesFound {
                count: packages_with_crate(packages@, crate_name@),
                crate_name: crate_name@,
            }),
        },
{
    let mut count: usize = 0;
    let mut first: usize = 0;
    let mut i: usize = 0;
    assert(packages@.take(0) == Seq::<Vec<String>>::empty());
    while i < packages.len()
        invariant
            i <= packages@.len(),
            count == packages_with_crate(packages@.take(i as int), crate_name@),
            count <= i,
            count > 0 ==> first < i && package_has_crate(packages@[first as int]@, crate_name@),
        decreases packages@.len() - i,
    {
        proof {
            assert(packages@.take(i + 1).drop_last() == packages@.take(i as int));
            assert(packages@.take(i + 1).last() == packages@[i as int]);
        }
        if has_crate(&packages[i], crate_name) {
            if count == 0 {
                first = i;
            }
            count += 1;
        }
        i += 1;
    }
    assert(packages@.take(packages@.len() as int) == packages@);
    if count == 1 {
        Ok(first)
    } else {
        Err(LibraryModeError::PackagesFound { count, crate_name: crate_name.to_owned() })
    }
}

/// The markers of interface definition files among the items of a group.
pub open spec fn udl_files(group: MetadataGroupView) -> Set<MetadataView> {
    group.items.filter(|item: MetadataView| item is UdlFile)
}

/// Which interface definition file belongs to a group: none where the group
/// declares none; its only one where that is declared for the library
/// `crate_name`, an error where it is declared for another; an error where
/// the group declares several.
pub open spec fn udl_file_of(group: MetadataGroupView, crate_name: Seq<char>) -> Result<
    Option<UdlFileView>,
    LibraryModeErrorView,
> {
    let files = udl_files(group);
    if files.len() == 0 {
        Ok(None)
    } else if files.len() == 1 {
        let file = files.choose()->UdlFile_0;
        if file.mod_path != crate_name {
            Err(LibraryModeErrorView::UdlCrateMismatch { udl_crate: file.mod_path, crate_name })
        } else {
            Ok(Some(file))
        }
    } else {
        Err(LibraryModeErrorView::UdlFilesFound { count: files.len(), crate_name })
    }
}

/// Selects the interface definition file of a group: see [`udl_file_of`].
pub fn find_udl_file<'a>(group: &'a MetadataGroup, crate_name: &str) -> (r: Result<
    Option<&'a UdlFile>,
    LibraryModeError,
>)
    requires
        group.wf(),
    ensures
        match r {
            Ok(Some(file)) => udl_file_of(group@, crate_name@) == Ok::<
                Option<UdlFileView>,
                LibraryModeErrorView,
            >(Some(file@)),
            Ok(None) => udl_file_of(group@, crate_name@) == Ok::<
                Option<UdlFileView>,
                LibraryModeErrorView,
            >(None),
            Err(e) => udl_file_of(group@, crate_name@) == Err::<
                Option<UdlFileView>,
                LibraryModeErrorView,
            >(e@),
        },
{
    let items = group.items();
    let ghost views = metadata_views(items@);
    let ghost is_udl = |item: MetadataView| item is UdlFile;
    let ghost mut found: Seq<MetadataView> = Seq::empty();
    let mut count: usize = 0;
    let mut first: Option<&UdlFile> = None;
    let mut i: usize = 0;
    proof {
        assert(views.take(0).to_set().filter(is_udl) =~= found.to_set());
    }
    while i < items.len()
        invariant
            i <= items@.len(),
            views == metadata_views(items@),
            views.no_duplicates(),
            is_udl == |item: MetadataView| item is UdlFile,
            found.no_duplicates(),
            found.to_set() == views.take(i as int).to_set().filter(is_udl),
            found.len() == count,
            count <= i,
            count > 0 ==> first is Some && found[0] == MetadataView::UdlFile(first->0@),
            count == 0 ==> first is None,
        decreases items@.len() - i,
    {
        let ghost before = views.take(i as int);
        let ghost item = views[i as int];
        proof {
            assert(views.take(i + 1) =~= before.push(item));
            lemma_not_in_prefix(views, i as int);
            lemma_push_to_set(before, item);
        }
        match &items[i] {
            Metadata::UdlFile(file) => {
                if count == 0 {
                    first = Some(file);
                }
                count += 1;
                proof {
                    assert(!found.contains(item)) by {
                        if found.contains(item) {
                            assert(found.to_set().contains(item));
                            assert(before.to_set().contains(item));
                        }
                    }
                    let longer = found.push(item);
                    assert(longer.no_duplicates());
                    lemma_push_to_set(found, item);
                    assert(longer.to_set() =~= before.to_set().insert(item).filter(is_udl));
                    found = longer;
                }
            },
            _ => {
                proof {
                    assert(found.to_set() =~= before.to_set().insert(item).filter(is_udl));
                }
            },
        }
        i += 1;
    }
    proof {
        assert(views.take(items@.len() as int) == views);
        found.unique_seq_to_set();
        assert(udl_files(group@) == found.to_set());
        if count == 1 {
            let files = found.to_set();
            assert(files.contains(found[0]));
            let chosen = files.choose();
            assert(files.contains(chosen));
            let k = choose|k: int| 0 <= k < found.len() && found[k] == chosen;
            assert(chosen == found[0]);
        }
    }
    if count == 0 {
        Ok(None)
    } else if count == 1 {
        match first {
            Some(file) => {
                if !str_eq(file.mod_path.as_str(), crate_name) {
                    Err(
                        LibraryModeError::UdlCrateMismatch {
                            udl_crate: file.mod_path.clone(),
                            crate_name: crate_name.to_owned(),
                        },
                    )
                } else {
                    Ok(Some(file))
                }
            },
            None => Ok(None),
        }
    } else {
        Err(LibraryModeError::UdlFilesFound { count, crate_name: crate_name.to_owned() })
    }
}

/// Groups the metadata items of a compiled library by the library that owns
/// them: a group is created for every declared namespace, and the items are
/// assigned to the groups. Any error leaves no groups.
pub fn group_library_items(items: Vec<Metadata>) -> (r: Result<MetadataGroupMap, GroupError>)
    ensures
        match r {
            Ok(group_map) => group_map.wf() && assign_items(
                declared_groups(metadata_views(items@)),
                metadata_views(items@),
                reference_free_items(metadata_views(items@)),
            ) == Ok::<Map<Seq<char>, MetadataGroupView>, GroupErrorView>(group_map@),
            Err(e) => assign_items(
                declared_groups(metadata_views(items@)),
                metadata_views(items@),
                reference_free_items(metadata_views(items@)),
            ) == Err::<Map<Seq<char>, MetadataGroupView>, GroupErrorView>(e@),
        },
{
    let mut group_map = create_metadata_groups(items.as_slice());
    match group_metadata(&mut group_map, items) {
        Ok(()) => Ok(group_map),
        Err(e) => Err(e),
    }
}

} // verus!
