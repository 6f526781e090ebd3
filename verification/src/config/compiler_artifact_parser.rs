use crate::text::chars_of;
use crate::text::equal_chars;
use crate::text::lines_of;
use crate::text::string_of;
use serde_json::Value;
use vstd::prelude::*;

verus! {

/// What one line of cargo's `--message-format=json` output says, as far as
/// the search for a test binary reads it: the message's `reason`, its
/// `profile.test`, its `target.name` and its `executable`, each where the line
/// holds it with the expected JSON type.
pub struct ArtifactFields {
    pub reason: Option<String>,
    pub profile_test: Option<bool>,
    pub target_name: Option<String>,
    pub executable: Option<String>,
}

/// The plain values of `ArtifactFields`: reason, profile test flag, target
/// name, executable.
pub type FieldsView = (Option<Seq<char>>, Option<bool>, Option<Seq<char>>, Option<Seq<char>>);

/// The plain values of a line's fields; `None` for a line that is not JSON.
pub open spec fn fields_view(fields: Option<ArtifactFields>) -> Option<FieldsView> {
    match fields {
        Some(f) => Some((crate::text::text_of(f.reason), f.profile_test, crate::text::text_of(f.target_name), crate::text::text_of(f.executable))),
        None => None,
    }
}

/// What `serde_json::from_str::<Value>` reads from `line`, reduced to the
/// four fields: `None` when the line is not a JSON value.
pub uninterp spec fn artifact_fields_of(line: Seq<char>) -> Option<FieldsView>;

/// Reads one output line. Calls `serde_json::from_str::<Value>` and picks
/// `reason`, `profile.test`, `target.name` and `executable` out of the value
/// with `Value::get`, `Value::as_str` and `Value::as_bool`. The contract only
/// names the result as a function of the line; JSON is not restated.
#[verifier::external_body]
fn read_artifact_line(line: &str) -> (fields: Option<ArtifactFields>)
    ensures
        fields_view(fields) == artifact_fields_of(line@),
{
    match serde_json::from_str::<serde_json::Value>(line) {
        Ok(value) => Some(ArtifactFields {
            reason: value.get("reason").and_then(Value::as_str).map(String::from),
            profile_test: value.get("profile").and_then(|p| p.get("test")).and_then(Value::as_bool),
            target_name: value.get("target").and_then(|t| t.get("name")).and_then(Value::as_str).map(String::from),
            executable: value.get("executable").and_then(Value::as_str).map(String::from),
        }),
        Err(_) => None,
    }
}

/// Whether a line's fields describe a test-profile compiler artifact for the
/// expected target (any target where none is expected) that names an
/// executable.
pub open spec fn is_wanted_artifact(fields: Option<FieldsView>, target: Option<Seq<char>>) -> bool {
    match fields {
        Some((reason, profile_test, target_name, executable)) => {
            &&& reason == Some("compiler-artifact"@)
            &&& profile_test == Some(true)
            &&& (match target {
                Some(expected) => target_name == Some(expected),
                None => true,
            })
            &&& executable is Some
        },
        None => false,
    }
}

/// The executable of the last wanted artifact among `records`.
pub open spec fn last_wanted_executable(records: Seq<Option<FieldsView>>, target: Option<Seq<char>>) -> Option<Seq<char>>
    decreases records.len(),
{
    if records.len() == 0 {
        None
    } else if is_wanted_artifact(records.last(), target) {
        records.last().unwrap().3
    } else {
        last_wanted_executable(records.drop_last(), target)
    }
}

/// Finds the test binary that a cargo build reports in its JSON output.
pub struct CompilerArtifactParser;

impl CompilerArtifactParser {
    /// Whether an optional string holds exactly `expected`.
    fn holds_text(s: &Option<String>, expected: &[char]) -> (b: bool)
        ensures
            b == (crate::text::text_of(*s) == Some(expected@)),
    {
        match s {
            Some(t) => equal_chars(&chars_of(t.as_str()), expected),
            None => false,
        }
    }

    /// Whether one line's fields are a wanted artifact.
    fn is_wanted(fields: &Option<ArtifactFields>, target_name: Option<&str>) -> (b: bool)
        ensures
            b == is_wanted_artifact(
                fields_view(*fields),
                match target_name {
                    Some(t) => Some(t@),
                    None => None,
                },
            ),
    {
        match fields {
            Some(f) => {
                let reason_wanted = chars_of("compiler-artifact");
                if !Self::holds_text(&f.reason, &reason_wanted) {
                    return false;
                }
                match f.profile_test {
                    Some(true) => {},
                    _ => return false,
                }
                match target_name {
                    Some(expected) => {
                        if !Self::holds_text(&f.target_name, &chars_of(expected)) {
                            return false;
                        }
                    },
                    None => {},
                }
                f.executable.is_some()
            },
            None => false,
        }
    }

    /// The executable of the last line that is a test-profile compiler
    /// artifact for `target_name` (for any target where it is `None`), given
    /// what each line of the output was read as.
    pub fn select_executable(records: &Vec<Option<ArtifactFields>>, target_name: Option<&str>) -> (found: Option<String>)
        ensures
            crate::text::text_of(found) == last_wanted_executable(
                records@.map_values(|r: Option<ArtifactFields>| fields_view(r)),
                match target_name {
                    Some(t) => Some(t@),
                    None => None,
                },
            ),
    {
        let ghost target = match target_name {
            Some(t) => Some(t@),
            None => None,
        };
        let ghost all = records@.map_values(|r: Option<ArtifactFields>| fields_view(r));
        let mut found: Option<String> = None;
        let mut i: usize = 0;
        while i < records.len()
            invariant
                i <= records@.len(),
                all == records@.map_values(|r: Option<ArtifactFields>| fields_view(r)),
                target == match target_name {
                    Some(t) => Some(t@),
                    None => None,
                },
                crate::text::text_of(found) == last_wanted_executable(all.take(i as int), target),
            decreases records.len() - i,
        {
            proof {
                assert(all.take(i + 1).drop_last() =~= all.take(i as int));
                assert(all.take(i + 1).last() == fields_view(records@[i as int]));
            }
            if Self::is_wanted(&records[i], target_name) {
                match &records[i] {
                    Some(f) => {
                        match &f.executable {
                            Some(e) => {
                                found = Some(string_of(&chars_of(e.as_str())));
                            },
                            None => {},
                        }
                    },
                    None => {},
                }
            }
            i = i + 1;
        }
        assert(all.take(i as int) =~= all);
        found
    }

    /// The executable of the last test-profile compiler artifact in cargo's
    /// JSON output, restricted to `target_name` where one is given. Lines that
    /// are not JSON are passed over.
    pub fn find_executable(cargo_json_lines_output: &str, target_name: Option<&str>) -> (found: Option<String>)
        ensures
            crate::text::text_of(found) == last_wanted_executable(
                crate::text::lines(cargo_json_lines_output@).map_values(|line: Seq<char>| artifact_fields_of(line)),
                match target_name {
                    Some(t) => Some(t@),
                    None => None,
                },
            ),
    {
        let lines = lines_of(&chars_of(cargo_json_lines_output));
        let ghost texts = lines@.map_values(|l: Vec<char>| l@);
        let mut records: Vec<Option<ArtifactFields>> = Vec::new();
        let mut i: usize = 0;
        while i < lines.len()
            invariant
                i <= lines@.len(),
                texts == lines@.map_values(|l: Vec<char>| l@),
                records@.map_values(|r: Option<ArtifactFields>| fields_view(r)) == texts.take(i as int).map_values(
                    |line: Seq<char>| artifact_fields_of(line),
                ),
            decreases lines.len() - i,
        {
            let line = string_of(&lines[i]);
            let ghost before = records@;
            let fields = read_artifact_line(line.as_str());
            assert(texts[i as int] == line@);
            records.push(fields);
            assert(records@.map_values(|r: Option<ArtifactFields>| fields_view(r)) =~= before.map_values(
                |r: Option<ArtifactFields>| fields_view(r)).push(fields_view(fields)));
            assert(texts.take(i + 1) =~= texts.take(i as int).push(texts[i as int]));
            assert(records@.map_values(|r: Option<ArtifactFields>| fields_view(r)) =~= texts.take(i + 1).map_values(
                |line: Seq<char>| artifact_fields_of(line),
            ));
            i = i + 1;
        }
        assert(texts.take(i as int) =~= texts);
        Self::select_executable(&records, target_name)
    }
}

} // verus!
