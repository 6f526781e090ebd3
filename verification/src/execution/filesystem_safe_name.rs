use crate::text::chars_of;
use crate::text::string_of;
use vstd::prelude::*;

verus! {

/// Whether `c` may not stand in a file name on Windows.
pub open spec fn is_illegal_path_character(c: char) -> bool {
    c == '<' || c == '>' || c == ':' || c == '"' || c == '/' || c == '\\' || c == '|' || c == '?'
        || c == '*'
}

/// `c`, or `_` where `c` may not stand in a file name.
pub open spec fn safe_character(c: char) -> char {
    if is_illegal_path_character(c) {
        '_'
    } else {
        c
    }
}

/// `name` with every character a Windows path forbids replaced by `_`.
pub open spec fn sanitized(name: Seq<char>) -> Seq<char> {
    name.map_values(|c: char| safe_character(c))
}

/// A sanitised name holds no character a Windows path forbids, keeps every
/// other character where it stood, and is exactly as long as the name.
pub proof fn lemma_sanitized_names_are_safe(name: Seq<char>)
    ensures
        sanitized(name).len() == name.len(),
        forall|i: int| 0 <= i < name.len() ==> !is_illegal_path_character(#[trigger] sanitized(name)[i]),
        forall|i: int|
            0 <= i < name.len() && !is_illegal_path_character(name[i]) ==> #[trigger] sanitized(name)[i]
                == name[i],
{
}

/// A job name turned into a name every file system accepts.
pub struct FilesystemSafeName;

impl FilesystemSafeName {
    /// `name` with every character that a Windows path forbids replaced by `_`.
    pub fn sanitize(name: &str) -> (safe: String)
        ensures
            safe@ == sanitized(name@),
    {
        let cs = chars_of(name);
        let mut out: Vec<char> = Vec::new();
        let mut i: usize = 0;
        while i < cs.len()
            invariant
                i <= cs@.len(),
                cs@ == name@,
                out@ == cs@.take(i as int).map_values(|c: char| safe_character(c)),
            decreases cs.len() - i,
        {
            let c = cs[i];
            let safe = if c == '<' || c == '>' || c == ':' || c == '"' || c == '/' || c == '\\' || c
                == '|' || c == '?' || c == '*' {
                '_'
            } else {
                c
            };
            out.push(safe);
            i = i + 1;
            assert(out@ =~= cs@.take(i as int).map_values(|c: char| safe_character(c)));
        }
        assert(cs@.take(i as int) =~= cs@);
        string_of(&out)
    }
}

} // verus!
