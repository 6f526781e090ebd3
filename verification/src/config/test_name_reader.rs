use crate::text::chars_of;
use crate::text::copy_from;
use crate::text::copy_range;
use crate::text::equal_chars;
use crate::text::lines_of;
use crate::text::starts_with_chars;
use crate::text::string_of;
use crate::text::trimmed;
use vstd::prelude::*;

verus! {

/// Whether `c` is alphabetic or numeric in Unicode's sense, as
/// `char::is_alphanumeric` answers.
pub uninterp spec fn is_alphanumeric_char(c: char) -> bool;

/// Whether `c` is alphabetic or numeric. Calls `char::is_alphanumeric`; the
/// Unicode tables it reads are not restated, the answer is named.
#[verifier::external_body]
fn is_alphanumeric(c: char) -> (b: bool)
    ensures
        b == is_alphanumeric_char(c),
{
    c.is_alphanumeric()
}

/// `s` with `prefix` taken off its front as many times as it stands there, as
/// `str::trim_start_matches` does with a text pattern.
pub open spec fn strip_leading(s: Seq<char>, prefix: Seq<char>) -> Seq<char>
    decreases s.len(),
{
    if prefix.len() > 0 && prefix.is_prefix_of(s) {
        strip_leading(s.skip(prefix.len() as int), prefix)
    } else {
        s
    }
}

/// `s` with every trailing `c` taken off, as `str::trim_end_matches` does
/// with a character.
pub open spec fn strip_trailing(s: Seq<char>, c: char) -> Seq<char>
    decreases s.len(),
{
    if s.len() > 0 && s.last() == c {
        strip_trailing(s.drop_last(), c)
    } else {
        s
    }
}

/// What follows the last `::` in `s`, or all of `s` where there is none: the
/// first item `str::rsplit("::")` yields.
pub open spec fn last_path_segment(s: Seq<char>) -> Seq<char>
    decreases s.len(),
{
    if s.len() < 2 {
        s
    } else if s[s.len() - 2] == ':' && s.last() == ':' {
        Seq::empty()
    } else {
        last_path_segment(s.drop_last()).push(s.last())
    }
}

/// Whether a trimmed line is a test harness attribute: an attribute whose
/// path ends in `test`, such as `#[test]`, `#[tokio::test]` or
/// `#[tokio::test(flavor = "multi_thread")]`.
pub open spec fn is_harness_line(line: Seq<char>) -> bool {
    "#["@.is_prefix_of(line) && last_path_segment(attribute_path(line)) == "test"@
}

/// `s` up to its first `(`, or all of `s` where it holds none.
pub open spec fn before_parenthesis(s: Seq<char>) -> Seq<char>
    decreases s.len(),
{
    if s.len() == 0 {
        s
    } else if s[0] == '(' {
        Seq::empty()
    } else {
        seq![s[0]] + before_parenthesis(s.drop_first())
    }
}

/// The path of an attribute line: what follows `#[`, without the closing
/// `]` and without any arguments in parentheses, trimmed. `tokio::test` for
/// both `#[tokio::test]` and `#[tokio::test(start_paused = true)]`.
pub open spec fn attribute_path(line: Seq<char>) -> Seq<char> {
    crate::text::trim(before_parenthesis(strip_trailing(strip_leading(line, "#["@), ']')))
}

/// Whether a line leaves a harness attribute in force: another attribute, or
/// a blank line.
pub open spec fn keeps_arming_line(line: Seq<char>) -> bool {
    line.len() == 0 || line[0] == '#'
}

/// The longest run at the front of `s` of alphanumeric characters and `_`.
pub open spec fn identifier_prefix(s: Seq<char>) -> Seq<char>
    decreases s.len(),
{
    if s.len() > 0 && (is_alphanumeric_char(s[0]) || s[0] == '_') {
        seq![s[0]] + identifier_prefix(s.drop_first())
    } else {
        Seq::empty()
    }
}

/// `s` without `prefix` where it begins with it.
pub open spec fn without_prefix(s: Seq<char>, prefix: Seq<char>) -> Seq<char> {
    if prefix.is_prefix_of(s) {
        s.skip(prefix.len() as int)
    } else {
        s
    }
}

/// The name a trimmed line declares as a function: after an optional `pub `
/// and an optional `async `, the word `fn ` and then a non-empty name.
pub open spec fn declared_function(line: Seq<char>) -> Option<Seq<char>> {
    let rest = without_prefix(without_prefix(line, "pub "@), "async "@);
    if "fn "@.is_prefix_of(rest) && identifier_prefix(rest.skip(3)).len() > 0 {
        Some(identifier_prefix(rest.skip(3)))
    } else {
        None
    }
}

/// The test names declared by `lines`, read one trimmed line at a time:
/// `armed` says whether a harness attribute is waiting for its function.
pub open spec fn names_from_lines(lines: Seq<Seq<char>>, armed: bool) -> Seq<Seq<char>>
    decreases lines.len(),
{
    if lines.len() == 0 {
        Seq::empty()
    } else {
        let line = crate::text::trim(lines[0]);
        let rest = lines.drop_first();
        if is_harness_line(line) {
            names_from_lines(rest, true)
        } else if !armed {
            names_from_lines(rest, false)
        } else {
            match declared_function(line) {
                Some(name) => seq![name] + names_from_lines(rest, false),
                None => names_from_lines(rest, keeps_arming_line(line)),
            }
        }
    }
}

/// The test names a file declares: each function that follows a harness
/// attribute, with only attributes and blank lines between them.
pub open spec fn declared_test_names(contents: Seq<char>) -> Seq<Seq<char>> {
    names_from_lines(crate::text::lines(contents), false)
}

/// Whether a harness attribute is in force at line `p` of `lines`: some
/// earlier line is a harness attribute, and every line after it and before
/// `p` is another attribute or blank.
pub open spec fn harness_in_force(lines: Seq<Seq<char>>, p: int) -> bool {
    exists|i: int|
        0 <= i < p && #[trigger] is_harness_line(crate::text::trim(lines[i])) && forall|m: int|
            i < m < p ==> #[trigger] keeps_arming_line(crate::text::trim(lines[m]))
}

/// Whether `at` gives, for each name of `names`, the line of `lines` it was
/// read from: lines in increasing order, from `from` on, each declaring that
/// name as a function and each with a harness attribute in force; and whether
/// every function line from `from` on with a harness attribute in force is one
/// of them.
pub open spec fn names_read_from(lines: Seq<Seq<char>>, names: Seq<Seq<char>>, at: Seq<int>, from: int) -> bool {
    &&& at.len() == names.len()
    &&& forall|k: int|
        0 <= k < at.len() ==> from <= #[trigger] at[k] < lines.len() && declared_function(
            crate::text::trim(lines[at[k]]),
        ) == Some(names[k]) && harness_in_force(lines, at[k])
    &&& forall|k1: int, k2: int| 0 <= k1 < k2 < at.len() ==> at[k1] < at[k2]
    &&& forall|j: int|
        from <= j < lines.len() && #[trigger] declared_function(crate::text::trim(lines[j])) is Some
            && harness_in_force(lines, j) ==> exists|k: int| 0 <= k < at.len() && at[k] == j
}

proof fn lemma_function_line_does_not_keep_arming(line: Seq<char>)
    requires
        declared_function(line) is Some,
    ensures
        !keeps_arming_line(line),
        !is_harness_line(line),
{
    reveal_strlit("pub ");
    reveal_strlit("async ");
    reveal_strlit("fn ");
    reveal_strlit("#[");
    let after_pub = without_prefix(line, "pub "@);
    let rest = without_prefix(after_pub, "async "@);
    assert("fn "@.is_prefix_of(rest));
    assert("fn "@[0] == 'f');
    assert(rest.subrange(0, 3)[0] == rest[0]);
    assert(rest[0] == 'f');
    if "pub "@.is_prefix_of(line) {
        assert("pub "@[0] == 'p');
        assert(line.subrange(0, 4)[0] == line[0]);
        assert(line[0] == 'p');
    } else if "async "@.is_prefix_of(after_pub) {
        assert(after_pub == line);
        assert("async "@[0] == 'a');
        assert(line.subrange(0, 6)[0] == line[0]);
        assert(line[0] == 'a');
    } else {
        assert(rest == line);
    }
    if "#["@.is_prefix_of(line) {
        assert("#["@[0] == '#');
        assert(line.subrange(0, 2)[0] == line[0]);
    }
    assert(line.len() > 0 && line[0] != '#');
}

proof fn lemma_names_read_in_order(lines: Seq<Seq<char>>, p: int, armed: bool) -> (at: Seq<int>)
    requires
        0 <= p <= lines.len(),
        armed == harness_in_force(lines, p),
    ensures
        names_read_from(lines, names_from_lines(lines.skip(p), armed), at, p),
    decreases lines.len() - p,
{
    let rest_lines = lines.skip(p);
    if p == lines.len() {
        assert(rest_lines.len() == 0);
        return Seq::empty();
    }
    let line = crate::text::trim(lines[p]);
    assert(rest_lines[0] == lines[p]);
    assert(rest_lines.drop_first() =~= lines.skip(p + 1));
    if is_harness_line(line) {
        assert(harness_in_force(lines, p + 1)) by {
            assert(is_harness_line(crate::text::trim(lines[p])));
        }
        if declared_function(line) is Some {
            lemma_function_line_does_not_keep_arming(line);
        }
        lemma_names_read_in_order(lines, p + 1, true)
    } else if !armed {
        assert(!harness_in_force(lines, p + 1)) by {
            if harness_in_force(lines, p + 1) {
                let i = choose|i: int|
                    0 <= i < p + 1 && #[trigger] is_harness_line(crate::text::trim(lines[i]))
                        && forall|m: int|
                        i < m < p + 1 ==> #[trigger] keeps_arming_line(crate::text::trim(lines[m]));
                assert(i != p);
                assert(harness_in_force(lines, p));
            }
        }
        lemma_names_read_in_order(lines, p + 1, false)
    } else {
        match declared_function(line) {
            Some(name) => {
                lemma_function_line_does_not_keep_arming(line);
                assert(!harness_in_force(lines, p + 1)) by {
                    if harness_in_force(lines, p + 1) {
                        let i = choose|i: int|
                            0 <= i < p + 1 && #[trigger] is_harness_line(crate::text::trim(lines[i]))
                                && forall|m: int|
                                i < m < p + 1 ==> #[trigger] keeps_arming_line(crate::text::trim(lines[m]));
                        assert(i != p);
                        assert(keeps_arming_line(crate::text::trim(lines[p])));
                    }
                }
                let later = lemma_names_read_in_order(lines, p + 1, false);
                let names = names_from_lines(lines.skip(p), armed);
                let after = names_from_lines(lines.skip(p + 1), false);
                assert(names == seq![name] + after);
                let at = seq![p] + later;
                assert forall|k: int| 0 <= k < at.len() implies p <= #[trigger] at[k] < lines.len()
                    && declared_function(crate::text::trim(lines[at[k]])) == Some(names[k])
                    && harness_in_force(lines, at[k]) by {
                    if k > 0 {
                        assert(at[k] == later[k - 1]);
                        assert(names[k] == after[k - 1]);
                    }
                }
                assert forall|j: int|
                    p <= j < lines.len() && #[trigger] declared_function(crate::text::trim(lines[j])) is Some
                        && harness_in_force(lines, j) implies exists|k: int| 0 <= k < at.len() && at[k] == j by {
                    if j == p {
                        assert(at[0] == p);
                    } else {
                        let k = choose|k: int| 0 <= k < later.len() && later[k] == j;
                        assert(at[k + 1] == j);
                    }
                }
                assert forall|k1: int, k2: int| 0 <= k1 < k2 < at.len() implies at[k1] < at[k2] by {
                    if k1 > 0 {
                        assert(at[k1] == later[k1 - 1] && at[k2] == later[k2 - 1]);
                    } else {
                        assert(at[k2] == later[k2 - 1]);
                    }
                }
                at
            },
            None => {
                let next = keeps_arming_line(line);
                assert(harness_in_force(lines, p + 1) == next) by {
                    if next {
                        let i = choose|i: int|
                            0 <= i < p && #[trigger] is_harness_line(crate::text::trim(lines[i]))
                                && forall|m: int|
                                i < m < p ==> #[trigger] keeps_arming_line(crate::text::trim(lines[m]));
                        assert forall|m: int| i < m < p + 1 implies #[trigger] keeps_arming_line(
                            crate::text::trim(lines[m]),
                        ) by {
                            if m == p {
                                assert(keeps_arming_line(line));
                            }
                        }
                    } else if harness_in_force(lines, p + 1) {
                        let i = choose|i: int|
                            0 <= i < p + 1 && #[trigger] is_harness_line(crate::text::trim(lines[i]))
                                && forall|m: int|
                                i < m < p + 1 ==> #[trigger] keeps_arming_line(crate::text::trim(lines[m]));
                        assert(i != p);
                        assert(keeps_arming_line(crate::text::trim(lines[p])));
                    }
                }
                lemma_names_read_in_order(lines, p + 1, next)
            },
        }
    }
}

/// Each name read from a file is the function declared right after its own
/// harness attribute: names come from function lines in the order they stand,
/// and each such line has a harness attribute above it with nothing but other
/// attributes and blank lines in between. A function below a test that was
/// already matched, with no new harness attribute above it, is never a test;
/// and every function line with a harness attribute in force is read.
pub proof fn lemma_each_name_is_the_function_after_its_harness(contents: Seq<char>)
    ensures
        exists|at: Seq<int>|
            names_read_from(
                crate::text::lines(contents),
                declared_test_names(contents),
                at,
                0,
            ),
{
    let lines = crate::text::lines(contents);
    assert(lines.skip(0) =~= lines);
    assert(!harness_in_force(lines, 0));
    let at = lemma_names_read_in_order(lines, 0, false);
    assert(declared_test_names(contents) == names_from_lines(lines.skip(0), false));
    assert(names_read_from(lines, declared_test_names(contents), at, 0));
}

/// Reads the test names one file declares, line by line rather than parsed.
pub struct TestNameReader;

impl TestNameReader {
    /// The names of the tests `contents` declares, in the order it declares
    /// them.
    pub fn names_in(contents: &str) -> (names: Vec<String>)
        ensures
            names@.map_values(|name: String| name@) == declared_test_names(contents@),
    {
        let cs = chars_of(contents);
        let lines = lines_of(&cs);
        let ghost all = lines@.map_values(|l: Vec<char>| l@);
        let mut found: Vec<String> = Vec::new();
        let mut armed = false;
        let mut i: usize = 0;
        assert(all.skip(0) =~= all);
        assert(found@.map_values(|name: String| name@) =~= Seq::<Seq<char>>::empty());
        assert(declared_test_names(contents@) =~= Seq::<Seq<char>>::empty() + names_from_lines(all, false));
        while i < lines.len()
            invariant
                i <= lines@.len(),
                all == lines@.map_values(|l: Vec<char>| l@),
                all == crate::text::lines(contents@),
                declared_test_names(contents@) == found@.map_values(|name: String| name@)
                    + names_from_lines(all.skip(i as int), armed),
            decreases lines.len() - i,
        {
            let ghost before = found@;
            proof {
                assert(all.skip(i as int).drop_first() =~= all.skip(i + 1));
                assert(all.skip(i as int)[0] == lines@[i as int]@);
            }
            let line = trimmed(&lines[i]);
            if Self::is_harness_attribute(&line) {
                armed = true;
            } else if armed {
                match Self::function_name_of(&line) {
                    Some(name) => {
                        found.push(name);
                        assert(found@.map_values(|name: String| name@) =~= before.map_values(
                            |name: String| name@,
                        ).push(found@.last()@));
                        armed = false;
                    },
                    None => {
                        armed = Self::keeps_arming(&line);
                    },
                }
            }
            i = i + 1;
        }
        assert(all.skip(i as int) =~= Seq::<Seq<char>>::empty());
        assert(found@.map_values(|name: String| name@) =~= found@.map_values(|name: String| name@)
            + Seq::<Seq<char>>::empty());
        found
    }

    /// Whether a trimmed line is another attribute or a blank line.
    pub fn keeps_arming(line: &[char]) -> (b: bool)
        ensures
            b == keeps_arming_line(line@),
    {
        line.len() == 0 || line[0] == '#'
    }

    /// Whether a trimmed line is an attribute whose path, arguments aside, ends
    /// in `test`.
    pub fn is_harness_attribute(line: &[char]) -> (b: bool)
        ensures
            b == is_harness_line(line@),
    {
        let opener = chars_of("#[");
        if !starts_with_chars(line, &opener) {
            return false;
        }
        proof {
            reveal_strlit("#[");
        }
        let inner = Self::strip_leading_all(line, &opener);
        let inner = Self::strip_trailing_all(&inner, ']');
        let path = trimmed(&Self::up_to_parenthesis(&inner));
        let last = Self::last_segment(&path);
        let expected = chars_of("test");
        equal_chars(&last, &expected)
    }

    /// `s` up to its first `(`.
    fn up_to_parenthesis(s: &[char]) -> (head: Vec<char>)
        ensures
            head@ == before_parenthesis(s@),
    {
        let mut end: usize = 0;
        assert(s@.take(0) =~= Seq::<char>::empty());
        assert(s@.skip(0) =~= s@);
        assert(before_parenthesis(s@) =~= Seq::<char>::empty() + before_parenthesis(s@));
        while end < s.len() && s[end] != '('
            invariant
                end <= s@.len(),
                before_parenthesis(s@) == s@.take(end as int) + before_parenthesis(s@.skip(end as int)),
            decreases s.len() - end,
        {
            let ghost rest = s@.skip(end as int);
            assert(rest.drop_first() =~= s@.skip(end + 1));
            assert(s@.take(end + 1) =~= s@.take(end as int) + seq![rest[0]]);
            end = end + 1;
        }
        let head = copy_range(s, 0, end);
        assert(before_parenthesis(s@.skip(end as int)) =~= Seq::<char>::empty());
        assert(head@ =~= s@.take(end as int) + Seq::<char>::empty());
        head
    }

    /// `s` with `prefix` taken off its front for as long as it stands there.
    fn strip_leading_all(s: &[char], prefix: &[char]) -> (rest: Vec<char>)
        requires
            prefix@.len() > 0,
        ensures
            rest@ == strip_leading(s@, prefix@),
    {
        let mut from: usize = 0;
        assert(s@.skip(0) =~= s@);
        while prefix.len() <= s.len() - from && crate::text::occurs_at_index(s, prefix, from)
            invariant
                prefix@.len() > 0,
                from <= s@.len(),
                strip_leading(s@, prefix@) == strip_leading(s@.skip(from as int), prefix@),
            decreases s.len() - from,
        {
            proof {
                let rest = s@.skip(from as int);
                assert(rest.subrange(0, prefix@.len() as int) =~= s@.subrange(
                    from as int,
                    from + prefix@.len(),
                ));
                assert(rest.skip(prefix@.len() as int) =~= s@.skip(from + prefix@.len()));
            }
            from = from + prefix.len();
        }
        proof {
            let rest = s@.skip(from as int);
            if prefix@.is_prefix_of(rest) {
                assert(rest.subrange(0, prefix@.len() as int) =~= s@.subrange(
                    from as int,
                    from + prefix@.len(),
                ));
            }
        }
        copy_from(s, from)
    }

    /// `s` with every trailing `c` taken off.
    fn strip_trailing_all(s: &[char], c: char) -> (rest: Vec<char>)
        ensures
            rest@ == strip_trailing(s@, c),
    {
        let mut end: usize = s.len();
        assert(s@.take(s@.len() as int) =~= s@);
        while end > 0 && s[end - 1] == c
            invariant
                end <= s@.len(),
                strip_trailing(s@, c) == strip_trailing(s@.take(end as int), c),
            decreases end,
        {
            assert(s@.take(end as int).drop_last() =~= s@.take(end - 1));
            end = end - 1;
        }
        let rest = copy_range(s, 0, end);
        assert(rest@ =~= s@.take(end as int));
        rest
    }

    /// What follows the last `::` in `s`, or all of `s`.
    fn last_segment(s: &[char]) -> (segment: Vec<char>)
        ensures
            segment@ == last_path_segment(s@),
    {
        let mut end: usize = s.len();
        assert(s@.take(s@.len() as int) =~= s@);
        assert(s@.skip(s@.len() as int) =~= Seq::<char>::empty());
        assert(s@ =~= s@ + Seq::<char>::empty());
        while end >= 2 && !(s[end - 2] == ':' && s[end - 1] == ':')
            invariant
                end <= s@.len(),
                last_path_segment(s@) == last_path_segment(s@.take(end as int)) + s@.skip(
                    end as int,
                ),
            decreases end,
        {
            let ghost head = s@.take(end as int);
            assert(head.drop_last() =~= s@.take(end - 1));
            assert(s@.skip(end - 1) =~= seq![head.last()] + s@.skip(end as int));
            assert(last_path_segment(head) == last_path_segment(head.drop_last()).push(head.last()));
            end = end - 1;
        }
        if end >= 2 {
            let segment = copy_from(s, end);
            assert(last_path_segment(s@.take(end as int)) =~= Seq::<char>::empty());
            assert(segment@ =~= Seq::<char>::empty() + s@.skip(end as int));
            segment
        } else {
            assert(last_path_segment(s@.take(end as int)) =~= s@.take(end as int));
            assert(s@ =~= s@.take(end as int) + s@.skip(end as int));
            copy_from(s, 0)
        }
    }

    /// `s` without `prefix` where it begins with it.
    fn without_leading(s: &[char], prefix: &[char]) -> (rest: Vec<char>)
        ensures
            rest@ == without_prefix(s@, prefix@),
    {
        if starts_with_chars(s, prefix) {
            copy_from(s, prefix.len())
        } else {
            copy_from(s, 0)
        }
    }

    /// The run of alphanumeric characters and `_` at the front of `s`.
    fn identifier_at_front(s: &[char]) -> (name: Vec<char>)
        ensures
            name@ == identifier_prefix(s@),
    {
        let mut end: usize = 0;
        assert(s@.take(0) =~= Seq::<char>::empty());
        assert(s@.skip(0) =~= s@);
        assert(identifier_prefix(s@) =~= Seq::<char>::empty() + identifier_prefix(s@));
        while end < s.len() && (is_alphanumeric(s[end]) || s[end] == '_')
            invariant
                end <= s@.len(),
                identifier_prefix(s@) == s@.take(end as int) + identifier_prefix(s@.skip(end as int)),
            decreases s.len() - end,
        {
            let ghost rest = s@.skip(end as int);
            assert(rest.drop_first() =~= s@.skip(end + 1));
            assert(s@.take(end + 1) =~= s@.take(end as int) + seq![rest[0]]);
            end = end + 1;
        }
        let name = copy_range(s, 0, end);
        assert(identifier_prefix(s@.skip(end as int)) =~= Seq::<char>::empty());
        assert(name@ =~= s@.take(end as int) + Seq::<char>::empty());
        name
    }

    /// The name a trimmed line declares as a function, if it declares one.
    pub fn function_name_of(line: &[char]) -> (name: Option<String>)
        ensures
            match declared_function(line@) {
                Some(declared) => name matches Some(n) && n@ == declared,
                None => name is None,
            },
    {
        let rest = Self::without_leading(line, &chars_of("pub "));
        let rest = Self::without_leading(&rest, &chars_of("async "));
        let keyword = chars_of("fn ");
        if !starts_with_chars(&rest, &keyword) {
            return None;
        }
        proof {
            reveal_strlit("fn ");
        }
        let name = Self::identifier_at_front(&copy_from(&rest, 3));
        if name.len() == 0 {
            return None;
        }
        Some(string_of(&name))
    }
}

} // verus!
