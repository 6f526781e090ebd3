use crate::config::rust_module_path::ModulePath;
use crate::config::test_name_reader::TestNameReader;
use crate::text::chars_of;
use crate::text::join_strings;
use crate::text::push_all;
use crate::text::sorted_unique;
use crate::text::string_of;
use vstd::prelude::*;

verus! {

/// One Rust file found under a `--jobs-path` root, with what it holds.
pub struct ScannedFile {
    pub root: String,
    pub path: String,
    pub contents: String,
}

/// A test's full name: its module, `::`, and its own name, or its own name
/// alone for a test at the top of the tree.
pub open spec fn qualified_name(module: Seq<char>, test: Seq<char>) -> Seq<char> {
    if module.len() == 0 {
        test
    } else {
        module + "::"@ + test
    }
}

/// The full names of the tests one scanned file declares.
pub open spec fn names_of_file(file: ScannedFile) -> Seq<Seq<char>> {
    crate::config::test_name_reader::declared_test_names(file.contents@).map_values(
        |test: Seq<char>|
            qualified_name(
                crate::config::rust_module_path::module_path_of(file.root@, file.path@),
                test,
            ),
    )
}

/// The full names of the tests every scanned file declares, file by file.
pub open spec fn names_of_files(files: Seq<ScannedFile>) -> Seq<Seq<char>>
    decreases files.len(),
{
    if files.len() == 0 {
        Seq::empty()
    } else {
        names_of_files(files.drop_last()) + names_of_file(files.last())
    }
}

/// The error for a scan that found no tests.
pub open spec fn no_tests_message(roots: Seq<String>) -> Seq<char> {
    "--jobs-path found no tests under "@ + crate::text::joined(
        roots.map_values(|r: String| r@),
        ", "@,
    )
}

/// The job names a tree already contains.
pub struct TestPathScanner;

impl TestPathScanner {
    /// The job names the scanned files declare, sorted with repeats dropped;
    /// an error naming the roots where they declare none.
    pub fn names_in_files(roots: &Vec<String>, files: &Vec<ScannedFile>) -> (names: Result<
        Vec<String>,
        String,
    >)
        ensures
            names_of_files(files@).len() == 0 ==> (names matches Err(message) && message@
                == no_tests_message(roots@)),
            names_of_files(files@).len() > 0 ==> (names matches Ok(found)
                && crate::text::strictly_sorted(found@.map_values(|s: String| s@))
                && found@.map_values(|s: String| s@).to_set() == names_of_files(files@).to_set()),
    {
        let mut names: Vec<String> = Vec::new();
        let mut i: usize = 0;
        while i < files.len()
            invariant
                i <= files@.len(),
                names@.map_values(|s: String| s@) == names_of_files(files@.take(i as int)),
            decreases files.len() - i,
        {
            let file = &files[i];
            let module = ModulePath::of(file.root.as_str(), file.path.as_str());
            let tests = TestNameReader::names_in(file.contents.as_str());
            let ghost before = names@.map_values(|s: String| s@);
            let ghost declared = tests@.map_values(|t: String| t@);
            let mut k: usize = 0;
            while k < tests.len()
                invariant
                    k <= tests@.len(),
                    declared == tests@.map_values(|t: String| t@),
                    names@.map_values(|s: String| s@) == before + declared.take(k as int).map_values(
                        |test: Seq<char>| qualified_name(module@, test),
                    ),
                decreases tests.len() - k,
            {
                let ghost prior = names@;
                let full = Self::qualified(module.as_str(), tests[k].as_str());
                names.push(full);
                assert(names@.map_values(|s: String| s@) =~= prior.map_values(|s: String| s@).push(
                    full@,
                ));
                assert(declared.take(k + 1) =~= declared.take(k as int).push(tests@[k as int]@));
                k = k + 1;
                assert(names@.map_values(|s: String| s@) =~= before + declared.take(
                    k as int,
                ).map_values(|test: Seq<char>| qualified_name(module@, test)));
            }
            assert(declared.take(k as int) =~= declared);
            assert(files@.take(i + 1).drop_last() =~= files@.take(i as int));
            assert(files@.take(i + 1).last() == files@[i as int]);
            i = i + 1;
        }
        assert(files@.take(i as int) =~= files@);
        if names.len() == 0 {
            let mut message = chars_of("--jobs-path found no tests under ");
            push_all(&mut message, &chars_of(Self::listed(roots).as_str()));
            return Err(string_of(&message));
        }
        Ok(sorted_unique(names))
    }

    /// The roots, written out and separated by commas.
    pub fn listed(roots: &Vec<String>) -> (text: String)
        ensures
            text@ == crate::text::joined(roots@.map_values(|r: String| r@), ", "@),
    {
        join_strings(roots, ", ")
    }

    /// A test's full name within its module.
    pub fn qualified(module: &str, test: &str) -> (name: String)
        ensures
            name@ == qualified_name(module@, test@),
    {
        let mut out = chars_of(module);
        if out.len() == 0 {
            return string_of(&chars_of(test));
        }
        push_all(&mut out, &chars_of("::"));
        push_all(&mut out, &chars_of(test));
        string_of(&out)
    }
}

} // verus!
