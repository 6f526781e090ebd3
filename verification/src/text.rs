use vstd::prelude::*;

verus! {

broadcast use vstd::string::group_string_axioms;

/// Whether `c` has the Unicode `White_Space` property, the set that
/// `char::is_whitespace` tests.
pub open spec fn is_white_space(c: char) -> bool {
    let n = c as u32;
    ||| 0x9 <= n <= 0xd
    ||| n == 0x20
    ||| n == 0x85
    ||| n == 0xa0
    ||| n == 0x1680
    ||| 0x2000 <= n <= 0x200a
    ||| n == 0x2028
    ||| n == 0x2029
    ||| n == 0x202f
    ||| n == 0x205f
    ||| n == 0x3000
}

/// `s` without its leading white space.
pub open spec fn trim_start(s: Seq<char>) -> Seq<char>
    decreases s.len(),
{
    if s.len() > 0 && is_white_space(s[0]) {
        trim_start(s.drop_first())
    } else {
        s
    }
}

/// `s` without its trailing white space.
pub open spec fn trim_end(s: Seq<char>) -> Seq<char>
    decreases s.len(),
{
    if s.len() > 0 && is_white_space(s.last()) {
        trim_end(s.drop_last())
    } else {
        s
    }
}

/// `s` without white space at either end, as `str::trim` gives it.
pub open spec fn trim(s: Seq<char>) -> Seq<char> {
    trim_end(trim_start(s))
}

/// The index of the first line feed in `s` at or after `from`, or the length
/// of `s` where there is none.
pub open spec fn newline_at(s: Seq<char>, from: int) -> int
    decreases s.len() - from,
{
    if from >= s.len() {
        s.len() as int
    } else if s[from] == '\n' {
        from
    } else {
        newline_at(s, from + 1)
    }
}

/// A line with the carriage return of a `\r\n` ending taken off.
pub open spec fn without_carriage_return(line: Seq<char>) -> Seq<char> {
    if line.len() > 0 && line.last() == '\r' {
        line.drop_last()
    } else {
        line
    }
}

/// The lines of `s` from index `start` on, split as `str::lines` splits them:
/// at `\n` or `\r\n`, with the final line ending optional.
pub open spec fn lines_from(s: Seq<char>, start: int) -> Seq<Seq<char>>
    decreases s.len() - start,
{
    if start < 0 || start >= s.len() {
        Seq::empty()
    } else {
        let end = newline_at(s, start);
        if end < start || end >= s.len() {
            seq![s.subrange(start, s.len() as int)]
        } else {
            seq![without_carriage_return(s.subrange(start, end))] + lines_from(s, end + 1)
        }
    }
}

/// The lines of `s`, as `str::lines` yields them.
pub open spec fn lines(s: Seq<char>) -> Seq<Seq<char>> {
    lines_from(s, 0)
}

/// `s` with every non-overlapping occurrence of `pattern`, found from the
/// left, replaced by `with`, as `str::replace` does for a non-empty pattern.
pub open spec fn replace_all(s: Seq<char>, pattern: Seq<char>, with: Seq<char>) -> Seq<char>
    decreases s.len(),
{
    if pattern.len() == 0 || s.len() < pattern.len() {
        s
    } else if s.take(pattern.len() as int) == pattern {
        with + replace_all(s.skip(pattern.len() as int), pattern, with)
    } else {
        seq![s[0]] + replace_all(s.drop_first(), pattern, with)
    }
}

/// Whether `pattern` occurs in `s` starting at index `at`.
pub open spec fn occurs_at(s: Seq<char>, pattern: Seq<char>, at: int) -> bool {
    0 <= at && at + pattern.len() <= s.len() && s.subrange(at, at + pattern.len()) == pattern
}

/// Whether `pattern` occurs anywhere in `s`, as `str::contains` asks.
pub open spec fn contains_text(s: Seq<char>, pattern: Seq<char>) -> bool {
    exists|at: int| occurs_at(s, pattern, at)
}

/// The decimal digit that stands for `d`.
pub open spec fn digit_char(d: nat) -> char {
    if d == 0 { '0' }
    else if d == 1 { '1' }
    else if d == 2 { '2' }
    else if d == 3 { '3' }
    else if d == 4 { '4' }
    else if d == 5 { '5' }
    else if d == 6 { '6' }
    else if d == 7 { '7' }
    else if d == 8 { '8' }
    else { '9' }
}

/// `n` written in decimal, as `Display` writes an unsigned integer.
pub open spec fn decimal(n: nat) -> Seq<char>
    decreases n,
{
    if n < 10 {
        seq![digit_char(n)]
    } else {
        decimal(n / 10).push(digit_char(n % 10))
    }
}

/// Appends one character to a string.
#[verifier::external_body]
fn push_char(s: &mut String, c: char)
    ensures
        final(s)@ == old(s)@.push(c),
{
    s.push(c);
}

/// The characters of `s`, in order.
pub fn chars_of(s: &str) -> (cs: Vec<char>)
    ensures
        cs@ == s@,
{
    let mut cs: Vec<char> = Vec::new();
    for c in it: s.chars()
        invariant
            it.seq() == s@,
            cs@ == s@.take(it.index() as int),
    {
        cs.push(c);
    }
    assert(cs@ =~= s@);
    cs
}

/// The string made of the characters `cs`.
pub fn string_of(cs: &[char]) -> (s: String)
    ensures
        s@ == cs@,
{
    let mut s = String::new();
    let mut i: usize = 0;
    while i < cs.len()
        invariant
            i <= cs.len(),
            s@ == cs@.take(i as int),
        decreases cs.len() - i,
    {
        push_char(&mut s, cs[i]);
        i = i + 1;
        assert(s@ =~= cs@.take(i as int));
    }
    assert(cs@.take(i as int) =~= cs@);
    s
}

/// Whether `c` is white space, as `char::is_whitespace` answers.
pub fn is_white(c: char) -> (b: bool)
    ensures
        b == is_white_space(c),
{
    let n = c as u32;
    (0x9 <= n && n <= 0xd) || n == 0x20 || n == 0x85 || n == 0xa0 || n == 0x1680 || (0x2000 <= n
        && n <= 0x200a) || n == 0x2028 || n == 0x2029 || n == 0x202f || n == 0x205f || n == 0x3000
}

/// The characters of `cs` from `from` up to `to`.
pub fn copy_range(cs: &[char], from: usize, to: usize) -> (part: Vec<char>)
    requires
        from <= to <= cs@.len(),
    ensures
        part@ == cs@.subrange(from as int, to as int),
{
    let mut part: Vec<char> = Vec::new();
    let mut i = from;
    while i < to
        invariant
            from <= i <= to <= cs@.len(),
            part@ == cs@.subrange(from as int, i as int),
        decreases to - i,
    {
        part.push(cs[i]);
        i = i + 1;
        assert(part@ =~= cs@.subrange(from as int, i as int));
    }
    part
}

/// Appends the characters of `extra` to `out`.
pub fn push_all(out: &mut Vec<char>, extra: &[char])
    ensures
        final(out)@ == old(out)@ + extra@,
{
    let mut i: usize = 0;
    while i < extra.len()
        invariant
            i <= extra@.len(),
            out@ == old(out)@ + extra@.take(i as int),
        decreases extra.len() - i,
    {
        out.push(extra[i]);
        i = i + 1;
        assert(out@ =~= old(out)@ + extra@.take(i as int));
    }
    assert(extra@.take(i as int) =~= extra@);
}

proof fn lemma_trim_start_skip(s: Seq<char>, i: int)
    requires
        0 <= i < s.len(),
        is_white_space(s[i]),
    ensures
        trim_start(s.skip(i)) == trim_start(s.skip(i + 1)),
{
    assert(s.skip(i).drop_first() =~= s.skip(i + 1));
}

proof fn lemma_trim_end_take(s: Seq<char>, i: int)
    requires
        0 < i <= s.len(),
        is_white_space(s[i - 1]),
    ensures
        trim_end(s.take(i)) == trim_end(s.take(i - 1)),
{
    assert(s.take(i).drop_last() =~= s.take(i - 1));
}

/// `cs` with the white space at both ends taken off, as `str::trim` gives it.
pub fn trimmed(cs: &[char]) -> (t: Vec<char>)
    ensures
        t@ == trim(cs@),
{
    let mut start: usize = 0;
    assert(cs@.skip(0) =~= cs@);
    while start < cs.len() && is_white(cs[start])
        invariant
            start <= cs@.len(),
            trim_start(cs@) == trim_start(cs@.skip(start as int)),
        decreases cs.len() - start,
    {
        proof {
            lemma_trim_start_skip(cs@, start as int);
        }
        start = start + 1;
    }
    assert(trim_start(cs@) == cs@.skip(start as int));
    let ghost rest = cs@.skip(start as int);
    let mut end: usize = cs.len();
    assert(rest =~= rest.take(cs@.len() - start));
    while end > start && is_white(cs[end - 1])
        invariant
            start <= end <= cs@.len(),
            rest == cs@.skip(start as int),
            trim_end(rest) == trim_end(rest.take(end - start)),
        decreases end,
    {
        proof {
            assert(rest[end - start - 1] == cs@[end - 1]);
            lemma_trim_end_take(rest, end - start);
        }
        end = end - 1;
    }
    assert(rest =~= rest.take(cs@.len() - start));
    assert(rest.take(end - start) =~= cs@.subrange(start as int, end as int));
    copy_range(cs, start, end)
}

proof fn lemma_newline_at(s: Seq<char>, from: int, at: int)
    requires
        0 <= from <= at <= s.len(),
        forall|k: int| from <= k < at ==> s[k] != '\n',
        at == s.len() || s[at] == '\n',
    ensures
        newline_at(s, from) == at,
    decreases at - from,
{
    if from < at {
        lemma_newline_at(s, from + 1, at);
    }
}

/// The lines of `cs`, split as `str::lines` splits them.
pub fn lines_of(cs: &[char]) -> (ls: Vec<Vec<char>>)
    ensures
        ls@.map_values(|l: Vec<char>| l@) == lines(cs@),
{
    let mut ls: Vec<Vec<char>> = Vec::new();
    let mut start: usize = 0;
    let mut i: usize = 0;
    while i < cs.len()
        invariant
            start <= i <= cs@.len(),
            forall|k: int| start <= k < i ==> cs@[k] != '\n',
            lines(cs@) == ls@.map_values(|l: Vec<char>| l@) + lines_from(cs@, start as int),
        decreases cs.len() - i,
    {
        if cs[i] == '\n' {
            proof {
                lemma_newline_at(cs@, start as int, i as int);
            }
            let mut line = copy_range(cs, start, i);
            if line.len() > 0 && line[line.len() - 1] == '\r' {
                line.pop();
            }
            let ghost before = ls@;
            assert(line@ == without_carriage_return(cs@.subrange(start as int, i as int)));
            ls.push(line);
            assert(ls@.map_values(|l: Vec<char>| l@) =~= before.map_values(|l: Vec<char>| l@).push(
                line@,
            ));
            start = i + 1;
        }
        i = i + 1;
    }
    if start < cs.len() {
        proof {
            lemma_newline_at(cs@, start as int, cs@.len() as int);
        }
        let line = copy_range(cs, start, cs.len());
        let ghost before = ls@;
        ls.push(line);
        assert(ls@.map_values(|l: Vec<char>| l@) =~= before.map_values(|l: Vec<char>| l@).push(
            line@,
        ));
    }
    assert(ls@.map_values(|l: Vec<char>| l@) =~= lines(cs@));
    ls
}

/// Whether `pattern` occurs in `s` at index `at`.
pub fn occurs_at_index(s: &[char], pattern: &[char], at: usize) -> (b: bool)
    requires
        at + pattern@.len() <= s@.len(),
    ensures
        b == occurs_at(s@, pattern@, at as int),
{
    let n = s.len();
    let mut k: usize = 0;
    while k < pattern.len()
        invariant
            n == s@.len(),
            at + pattern@.len() <= s@.len(),
            k <= pattern@.len(),
            forall|j: int| 0 <= j < k ==> s@[at + j] == pattern@[j],
        decreases pattern.len() - k,
    {
        if s[at + k] != pattern[k] {
            assert(s@.subrange(at as int, at + pattern@.len())[k as int] != pattern@[k as int]);
            return false;
        }
        k = k + 1;
    }
    assert(s@.subrange(at as int, at + pattern@.len()) =~= pattern@);
    true
}

/// Whether `pattern` occurs anywhere in `s`, as `str::contains` asks.
pub fn contains_chars(s: &[char], pattern: &[char]) -> (b: bool)
    ensures
        b == contains_text(s@, pattern@),
{
    if pattern.len() > s.len() {
        assert forall|at: int| !occurs_at(s@, pattern@, at) by {}
        return false;
    }
    if pattern.len() == 0 {
        assert(s@.subrange(0, 0) =~= pattern@);
        assert(occurs_at(s@, pattern@, 0));
        return true;
    }
    let count = s.len() - pattern.len() + 1;
    let mut at: usize = 0;
    while at < count
        invariant
            count + pattern@.len() == s@.len() + 1,
            at <= count,
            forall|j: int| 0 <= j < at ==> !occurs_at(s@, pattern@, j),
        decreases count - at,
    {
        if occurs_at_index(s, pattern, at) {
            return true;
        }
        at = at + 1;
    }
    assert forall|j: int| !occurs_at(s@, pattern@, j) by {
        if 0 <= j && j + pattern@.len() <= s@.len() {
            assert(j < count);
        }
    }
    false
}

/// `s` with every non-overlapping occurrence of `pattern` replaced by `with`,
/// as `str::replace` gives it.
pub fn replaced(s: &[char], pattern: &[char], with: &[char]) -> (r: Vec<char>)
    requires
        pattern@.len() > 0,
    ensures
        r@ == replace_all(s@, pattern@, with@),
{
    let mut out: Vec<char> = Vec::new();
    let mut i: usize = 0;
    assert(s@.skip(0) =~= s@);
    while i < s.len()
        invariant
            pattern@.len() > 0,
            i <= s@.len(),
            replace_all(s@, pattern@, with@) == out@ + replace_all(s@.skip(i as int), pattern@, with@),
        decreases s.len() - i,
    {
        let ghost rest = s@.skip(i as int);
        if pattern.len() <= s.len() - i && occurs_at_index(s, pattern, i) {
            assert(rest.take(pattern@.len() as int) =~= s@.subrange(i as int, i + pattern@.len()));
            assert(rest.skip(pattern@.len() as int) =~= s@.skip(i + pattern@.len()));
            push_all(&mut out, with);
            i = i + pattern.len();
        } else {
            proof {
                if rest.len() >= pattern@.len() {
                    assert(rest.take(pattern@.len() as int) =~= s@.subrange(i as int, i + pattern@.len()));
                    assert(rest.drop_first() =~= s@.skip(i + 1));
                } else {
                    assert(rest =~= seq![s@[i as int]] + s@.skip(i + 1));
                }
            }
            out.push(s[i]);
            i = i + 1;
        }
    }
    assert(s@.skip(i as int) =~= Seq::<char>::empty());
    out
}

/// The decimal digit for `d`.
fn digit(d: u64) -> (c: char)
    requires
        d < 10,
    ensures
        c == digit_char(d as nat),
{
    if d == 0 { '0' }
    else if d == 1 { '1' }
    else if d == 2 { '2' }
    else if d == 3 { '3' }
    else if d == 4 { '4' }
    else if d == 5 { '5' }
    else if d == 6 { '6' }
    else if d == 7 { '7' }
    else if d == 8 { '8' }
    else { '9' }
}

/// `n` written in decimal.
pub fn decimal_of(n: u64) -> (d: Vec<char>)
    ensures
        d@ == decimal(n as nat),
    decreases n,
{
    if n < 10 {
        let mut d: Vec<char> = Vec::new();
        d.push(digit(n));
        assert(d@ =~= seq![digit_char(n as nat)]);
        d
    } else {
        let mut d = decimal_of(n / 10);
        d.push(digit(n % 10));
        d
    }
}

/// Whether `s` begins with `prefix`, as `str::starts_with` asks.
pub fn starts_with_chars(s: &[char], prefix: &[char]) -> (b: bool)
    ensures
        b == prefix@.is_prefix_of(s@),
{
    if prefix.len() > s.len() {
        return false;
    }
    occurs_at_index(s, prefix, 0)
}

/// The characters of `s` from `from` on.
pub fn copy_from(s: &[char], from: usize) -> (rest: Vec<char>)
    requires
        from <= s@.len(),
    ensures
        rest@ == s@.skip(from as int),
{
    let rest = copy_range(s, from, s.len());
    assert(rest@ =~= s@.skip(from as int));
    rest
}

/// Whether two runs of characters are the same.
pub fn equal_chars(a: &[char], b: &[char]) -> (same: bool)
    ensures
        same == (a@ == b@),
{
    if a.len() != b.len() {
        return false;
    }
    let mut k: usize = 0;
    while k < a.len()
        invariant
            a@.len() == b@.len(),
            k <= a@.len(),
            forall|j: int| 0 <= j < k ==> a@[j] == b@[j],
        decreases a.len() - k,
    {
        if a[k] != b[k] {
            return false;
        }
        k = k + 1;
    }
    assert(a@ =~= b@);
    true
}

/// The text of an optional string.
pub open spec fn text_of(s: Option<String>) -> Option<Seq<char>> {
    match s {
        Some(t) => Some(t@),
        None => None,
    }
}

/// `items` joined with `separator` between each two.
pub open spec fn joined(items: Seq<Seq<char>>, separator: Seq<char>) -> Seq<char>
    decreases items.len(),
{
    if items.len() == 0 {
        Seq::empty()
    } else if items.len() == 1 {
        items[0]
    } else {
        joined(items.drop_last(), separator) + separator + items.last()
    }
}

/// The strings `items` joined with `separator` between each two, as
/// `[String]::join` gives them.
pub fn join_strings(items: &Vec<String>, separator: &str) -> (text: String)
    ensures
        text@ == joined(items@.map_values(|s: String| s@), separator@),
{
    let ghost all = items@.map_values(|s: String| s@);
    let sep = chars_of(separator);
    let mut out: Vec<char> = Vec::new();
    let mut i: usize = 0;
    while i < items.len()
        invariant
            i <= items@.len(),
            all == items@.map_values(|s: String| s@),
            sep@ == separator@,
            out@ == joined(all.take(i as int), separator@),
        decreases items.len() - i,
    {
        assert(all.take(i + 1).drop_last() =~= all.take(i as int));
        if i > 0 {
            push_all(&mut out, &sep);
        } else {
            assert(out@ =~= Seq::<char>::empty());
        }
        push_all(&mut out, &chars_of(items[i].as_str()));
        i = i + 1;
        assert(out@ =~= joined(all.take(i as int), separator@));
    }
    assert(all.take(i as int) =~= all);
    string_of(&out)
}

/// Whether `a` sorts before `b` as `String`'s `Ord` orders them: by the first
/// character where they differ, a proper prefix first.
pub open spec fn text_less(a: Seq<char>, b: Seq<char>) -> bool
    decreases a.len(),
{
    if a.len() == 0 {
        b.len() > 0
    } else if b.len() == 0 {
        false
    } else if (a[0] as int) < (b[0] as int) {
        true
    } else if a[0] == b[0] {
        text_less(a.drop_first(), b.drop_first())
    } else {
        false
    }
}

/// No text sorts before itself.
pub proof fn lemma_text_less_irreflexive(a: Seq<char>)
    ensures
        !text_less(a, a),
    decreases a.len(),
{
    if a.len() > 0 {
        lemma_text_less_irreflexive(a.drop_first());
    }
}

/// Of two different texts, one sorts before the other, and not both.
pub proof fn lemma_text_less_trichotomy(a: Seq<char>, b: Seq<char>)
    ensures
        a != b ==> (text_less(a, b) || text_less(b, a)),
        !(text_less(a, b) && text_less(b, a)),
    decreases a.len(),
{
    if a.len() > 0 && b.len() > 0 {
        lemma_text_less_trichotomy(a.drop_first(), b.drop_first());
        if a[0] == b[0] && a.drop_first() == b.drop_first() {
            assert(a =~= seq![a[0]] + a.drop_first());
            assert(b =~= seq![b[0]] + b.drop_first());
        }
    } else if a.len() == 0 && b.len() == 0 {
        assert(a =~= b);
    }
}

/// The order is transitive.
pub proof fn lemma_text_less_transitive(a: Seq<char>, b: Seq<char>, c: Seq<char>)
    requires
        text_less(a, b),
        text_less(b, c),
    ensures
        text_less(a, c),
    decreases a.len(),
{
    if a.len() > 0 && b.len() > 0 && c.len() > 0 {
        if a[0] == b[0] && b[0] == c[0] {
            lemma_text_less_transitive(a.drop_first(), b.drop_first(), c.drop_first());
        }
    }
}

/// Whether `a` sorts before `b`.
pub fn text_less_than(a: &[char], b: &[char]) -> (less: bool)
    ensures
        less == text_less(a@, b@),
{
    let mut k: usize = 0;
    assert(a@.skip(0) =~= a@);
    assert(b@.skip(0) =~= b@);
    while k < a.len() && k < b.len() && a[k] == b[k]
        invariant
            k <= a@.len(),
            k <= b@.len(),
            text_less(a@, b@) == text_less(a@.skip(k as int), b@.skip(k as int)),
        decreases a.len() - k,
    {
        assert(a@.skip(k as int).drop_first() =~= a@.skip(k + 1));
        assert(b@.skip(k as int).drop_first() =~= b@.skip(k + 1));
        k = k + 1;
    }
    if k == a.len() {
        return k < b.len();
    }
    if k == b.len() {
        return false;
    }
    a[k] < b[k]
}

/// Whether every earlier item of `items` sorts before every later one.
pub open spec fn strictly_sorted(items: Seq<Seq<char>>) -> bool {
    forall|i: int, j: int| 0 <= i < j < items.len() ==> text_less(items[i], items[j])
}

proof fn lemma_push_to_set<A>(s: Seq<A>, x: A)
    ensures
        s.push(x).to_set() == s.to_set().insert(x),
{
    assert forall|y: A| s.push(x).to_set().contains(y) <==> s.to_set().insert(x).contains(y) by {
        if s.push(x).to_set().contains(y) && y != x {
            let k = choose|k: int| 0 <= k < s.push(x).len() && s.push(x)[k] == y;
            assert(s[k] == y);
        }
        if s.to_set().contains(y) {
            let k = choose|k: int| 0 <= k < s.len() && s[k] == y;
            assert(s.push(x)[k] == y);
        }
        if y == x {
            assert(s.push(x)[s.len() as int] == y);
        }
    }
    assert(s.push(x).to_set() =~= s.to_set().insert(x));
}

/// `names` sorted and with repeats dropped: the strictly increasing list of
/// the same names, as `sort` followed by `dedup` gives it.
pub fn sorted_unique(names: Vec<String>) -> (sorted: Vec<String>)
    ensures
        strictly_sorted(sorted@.map_values(|s: String| s@)),
        sorted@.map_values(|s: String| s@).to_set() == names@.map_values(|s: String| s@).to_set(),
{
    let ghost given = names@.map_values(|s: String| s@);
    let mut sorted: Vec<String> = Vec::new();
    let mut i: usize = 0;
    while i < names.len()
        invariant
            i <= names@.len(),
            given == names@.map_values(|s: String| s@),
            strictly_sorted(sorted@.map_values(|s: String| s@)),
            sorted@.map_values(|s: String| s@).to_set() == given.take(i as int).to_set(),
        decreases names.len() - i,
    {
        let ghost before = sorted@.map_values(|s: String| s@);
        let name = chars_of(names[i].as_str());
        let mut p: usize = 0;
        while p < sorted.len() && text_less_than(&chars_of(sorted[p].as_str()), &name)
            invariant
                p <= sorted@.len(),
                before == sorted@.map_values(|s: String| s@),
                forall|k: int| 0 <= k < p ==> text_less(before[k], name@),
            decreases sorted.len() - p,
        {
            p = p + 1;
        }
        assert(given.take(i + 1) =~= given.take(i as int).push(name@));
        proof {
            lemma_push_to_set(given.take(i as int), name@);
        }
        if p < sorted.len() && equal_chars(&chars_of(sorted[p].as_str()), &name) {
            assert(before.to_set().contains(name@)) by {
                assert(before[p as int] == name@);
            }
            assert(before.to_set().insert(name@) =~= before.to_set());
        } else {
            proof {
                if p < before.len() {
                    lemma_text_less_trichotomy(before[p as int], name@);
                }
            }
            let fresh = string_of(&name);
            sorted.insert(p, fresh);
            let ghost after = sorted@.map_values(|s: String| s@);
            assert(after =~= before.insert(p as int, name@));
            assert forall|a: int, b: int| 0 <= a < b < after.len() implies text_less(after[a], after[b]) by {
                if b == p {
                    assert(after[a] == before[a]);
                } else if a == p {
                    assert(after[b] == before[b - 1]);
                    if b - 1 > p {
                        lemma_text_less_transitive(name@, before[p as int], before[b - 1]);
                    }
                } else if a < p {
                    if b < p {
                        assert(after[b] == before[b]);
                    } else {
                        assert(after[b] == before[b - 1]);
                    }
                } else {
                    assert(after[a] == before[a - 1]);
                    assert(after[b] == before[b - 1]);
                }
            }
            assert(after.to_set() =~= before.to_set().insert(name@)) by {
                assert forall|x: Seq<char>| after.to_set().contains(x) <==> before.to_set().insert(name@).contains(x) by {
                    if after.to_set().contains(x) {
                        let k = choose|k: int| 0 <= k < after.len() && after[k] == x;
                        if k < p {
                            assert(before[k] == x);
                        } else if k > p {
                            assert(before[k - 1] == x);
                        }
                    }
                    if before.to_set().contains(x) {
                        let k = choose|k: int| 0 <= k < before.len() && before[k] == x;
                        if k < p {
                            assert(after[k] == x);
                        } else {
                            assert(after[k + 1] == x);
                        }
                    }
                    if x == name@ {
                        assert(after[p as int] == x);
                    }
                }
            }
        }
        i = i + 1;
    }
    assert(given.take(i as int) =~= given);
    sorted
}

/// A strictly sorted list is fixed by the names it holds: two strictly
/// sorted lists of the same names are the same list, so a sorted, deduplicated
/// scan of one tree plans the same jobs in the same order every time.
pub proof fn lemma_strictly_sorted_is_determined(a: Seq<Seq<char>>, b: Seq<Seq<char>>)
    requires
        strictly_sorted(a),
        strictly_sorted(b),
        a.to_set() == b.to_set(),
    ensures
        a == b,
    decreases a.len(),
{
    if a.len() == 0 {
        if b.len() > 0 {
            assert(b.to_set().contains(b[0]));
        }
        assert(a =~= b);
    } else if b.len() == 0 {
        assert(a.to_set().contains(a[0]));
    } else {
        assert(b.to_set().contains(a[0]));
        assert(a.to_set().contains(b[0]));
        let k = choose|k: int| 0 <= k < b.len() && b[k] == a[0];
        let m = choose|m: int| 0 <= m < a.len() && a[m] == b[0];
        if k > 0 {
            if m > 0 {
                lemma_text_less_trichotomy(a[0], b[0]);
            } else {
                lemma_text_less_irreflexive(b[0]);
            }
        }
        assert(a[0] == b[0]);
        let ra = a.drop_first();
        let rb = b.drop_first();
        assert forall|i: int, j: int| 0 <= i < j < ra.len() implies text_less(ra[i], ra[j]) by {
            assert(ra[i] == a[i + 1] && ra[j] == a[j + 1]);
        }
        assert forall|i: int, j: int| 0 <= i < j < rb.len() implies text_less(rb[i], rb[j]) by {
            assert(rb[i] == b[i + 1] && rb[j] == b[j + 1]);
        }
        assert forall|x: Seq<char>| ra.to_set().contains(x) <==> rb.to_set().contains(x) by {
            if ra.to_set().contains(x) {
                let i = choose|i: int| 0 <= i < ra.len() && ra[i] == x;
                assert(text_less(a[0], a[i + 1]));
                assert(a.to_set().contains(x));
                let j = choose|j: int| 0 <= j < b.len() && b[j] == x;
                if j == 0 {
                    lemma_text_less_irreflexive(x);
                }
                assert(rb[j - 1] == x);
            }
            if rb.to_set().contains(x) {
                let i = choose|i: int| 0 <= i < rb.len() && rb[i] == x;
                assert(text_less(b[0], b[i + 1]));
                assert(b.to_set().contains(x));
                let j = choose|j: int| 0 <= j < a.len() && a[j] == x;
                if j == 0 {
                    lemma_text_less_irreflexive(x);
                }
                assert(ra[j - 1] == x);
            }
        }
        assert(ra.to_set() =~= rb.to_set());
        lemma_strictly_sorted_is_determined(ra, rb);
        assert(a =~= seq![a[0]] + ra);
        assert(b =~= seq![b[0]] + rb);
    }
}

} // verus!
