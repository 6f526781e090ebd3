use crate::text::chars_of;
use crate::text::equal_chars;
use crate::text::join_strings;
use crate::text::string_of;
use vstd::prelude::*;

verus! {

/// Whether two paths are equal as `Path`'s `==` compares them, component by
/// component.
pub uninterp spec fn same_path(a: Seq<char>, b: Seq<char>) -> bool;

/// `Path::file_name` of a path.
pub uninterp spec fn path_file_name(path: Seq<char>) -> Option<Seq<char>>;

/// `Path::strip_prefix` of a path by a base.
pub uninterp spec fn path_without_base(path: Seq<char>, base: Seq<char>) -> Option<Seq<char>>;

/// `Path::parent` of a path.
pub uninterp spec fn path_parent(path: Seq<char>) -> Option<Seq<char>>;

/// The components `Path::components` yields for a path, each as text.
pub uninterp spec fn path_components(path: Seq<char>) -> Seq<Seq<char>>;

/// `Path::file_stem` of a path.
pub uninterp spec fn path_file_stem(path: Seq<char>) -> Option<Seq<char>>;

/// Compares two paths with `Path`'s `==`. The component rules of the
/// platform's paths are not restated; the answer is named.
#[verifier::external_body]
fn paths_equal(a: &str, b: &str) -> (equal: bool)
    ensures
        equal == same_path(a@, b@),
{
    std::path::Path::new(a) == std::path::Path::new(b)
}

/// Calls `Path::file_name`; the result is named, not restated.
#[verifier::external_body]
fn file_name_of(path: &str) -> (name: Option<String>)
    ensures
        crate::text::text_of(name) == path_file_name(path@),
{
    std::path::Path::new(path).file_name().map(|name| name.to_string_lossy().into_owned())
}

/// Calls `Path::strip_prefix`; the result is named, not restated.
#[verifier::external_body]
fn without_base(path: &str, base: &str) -> (rest: Option<String>)
    ensures
        crate::text::text_of(rest) == path_without_base(path@, base@),
{
    std::path::Path::new(path).strip_prefix(base).ok().map(|rest| rest.to_string_lossy().into_owned())
}

/// Calls `Path::parent`; the result is named, not restated.
#[verifier::external_body]
fn parent_of(path: &str) -> (parent: Option<String>)
    ensures
        crate::text::text_of(parent) == path_parent(path@),
{
    std::path::Path::new(path).parent().map(|parent| parent.to_string_lossy().into_owned())
}

/// Calls `Path::components`, each component taken as its text; the result is
/// named, not restated.
#[verifier::external_body]
fn components_of(path: &str) -> (components: Vec<String>)
    ensures
        components@.map_values(|c: String| c@) == path_components(path@),
{
    std::path::Path::new(path).components().map(|c| c.as_os_str().to_string_lossy().into_owned()).collect()
}

/// Calls `Path::file_stem`; the result is named, not restated.
#[verifier::external_body]
fn file_stem_of(path: &str) -> (stem: Option<String>)
    ensures
        crate::text::text_of(stem) == path_file_stem(path@),
{
    std::path::Path::new(path).file_stem().map(|stem| stem.to_string_lossy().into_owned())
}

/// Where `path` sits below `root`: the path without the root, or the file's
/// own name where the root is the file itself, or the whole path where it
/// does not lie under the root.
pub open spec fn relative_path(root: Seq<char>, path: Seq<char>) -> Seq<char> {
    if same_path(root, path) {
        match path_file_name(path) {
            Some(name) => name,
            None => Seq::empty(),
        }
    } else {
        match path_without_base(path, root) {
            Some(rest) => rest,
            None => path,
        }
    }
}

/// The directories a relative path passes through, outermost first.
pub open spec fn directory_names(relative: Seq<char>) -> Seq<Seq<char>> {
    match path_parent(relative) {
        Some(parent) => path_components(parent),
        None => Seq::empty(),
    }
}

/// The module a file at `path` under `root` declares, said the way Rust says
/// it: its directories, then its stem unless it is `mod`, joined with `::`.
pub open spec fn module_path_of(root: Seq<char>, path: Seq<char>) -> Seq<char> {
    let relative = relative_path(root, path);
    let stem = match path_file_stem(relative) {
        Some(s) => s,
        None => Seq::empty(),
    };
    let segments = if stem == "mod"@ {
        directory_names(relative)
    } else {
        directory_names(relative).push(stem)
    };
    crate::text::joined(segments, "::"@)
}

/// A file names its own module: the module path of a file whose stem is not
/// exactly `mod` is its directories joined with `::`, then `::` and the stem
/// (the stem alone at the top of the tree), so it always ends with the stem.
pub proof fn lemma_module_path_ends_with_the_stem(root: Seq<char>, path: Seq<char>, stem: Seq<char>)
    requires
        path_file_stem(relative_path(root, path)) == Some(stem),
        stem != "mod"@,
    ensures
        directory_names(relative_path(root, path)).len() == 0 ==> module_path_of(root, path) == stem,
        directory_names(relative_path(root, path)).len() > 0 ==> module_path_of(root, path)
            == crate::text::joined(directory_names(relative_path(root, path)), "::"@) + "::"@ + stem,
        stem.is_suffix_of(module_path_of(root, path)),
{
    let dirs = directory_names(relative_path(root, path));
    let all = dirs.push(stem);
    assert(all.drop_last() =~= dirs);
    assert(all.last() == stem);
    if dirs.len() == 0 {
        assert(all.len() == 1);
        assert(module_path_of(root, path) == stem);
    } else {
        assert(module_path_of(root, path) == crate::text::joined(dirs, "::"@) + "::"@ + stem);
    }
    let result = module_path_of(root, path);
    assert(result.subrange(result.len() - stem.len(), result.len() as int) =~= stem);
}

/// A `mod.rs` file contributes its directory and not its own name: its
/// module path is its directories joined with `::`.
pub proof fn lemma_mod_file_names_its_directory(root: Seq<char>, path: Seq<char>)
    requires
        path_file_stem(relative_path(root, path)) == Some("mod"@),
    ensures
        module_path_of(root, path) == crate::text::joined(directory_names(relative_path(root, path)), "::"@),
{
}

/// The module path of a file, the rule the compiler applies.
pub struct ModulePath;

impl ModulePath {
    /// The module that the file `path`, found under `root`, declares.
    pub fn of(root: &str, path: &str) -> (module: String)
        ensures
            module@ == module_path_of(root@, path@),
    {
        let relative = Self::relative(root, path);
        let mut segments = Self::directories(relative.as_str());
        let stem = match file_stem_of(relative.as_str()) {
            Some(s) => s,
            None => String::new(),
        };
        let ghost directories = segments@;
        if !equal_chars(&chars_of(stem.as_str()), &chars_of("mod")) {
            segments.push(stem);
            assert(segments@.map_values(|s: String| s@) =~= directories.map_values(|s: String| s@).push(
                stem@,
            ));
        }
        join_strings(&segments, "::")
    }

    /// The path of `path` below `root`.
    pub fn relative(root: &str, path: &str) -> (relative: String)
        ensures
            relative@ == relative_path(root@, path@),
    {
        if paths_equal(root, path) {
            match file_name_of(path) {
                Some(name) => name,
                None => String::new(),
            }
        } else {
            match without_base(path, root) {
                Some(rest) => rest,
                None => string_of(&chars_of(path)),
            }
        }
    }

    /// The directories a relative path passes through.
    pub fn directories(relative: &str) -> (names: Vec<String>)
        ensures
            names@.map_values(|s: String| s@) == directory_names(relative@),
    {
        match parent_of(relative) {
            Some(parent) => components_of(parent.as_str()),
            None => {
                let names: Vec<String> = Vec::new();
                assert(names@.map_values(|s: String| s@) =~= Seq::<Seq<char>>::empty());
                names
            },
        }
    }
}

} // verus!
