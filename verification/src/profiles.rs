//! Reading profile names out of the cloud credential files.
//!
//! The two files follow a format of their own, with indented sub-sections,
//! so no common configuration-file reader fits. A profile line in the
//! configuration file has the shape `[profile <name>]`; in the credentials
//! file it is `[<name>]`. The name runs to the last closing bracket of the
//! line, so it may itself hold brackets or spaces. Reading the files is
//! the surrounding application's part; the functions here take the file
//! contents as text.

use vstd::prelude::*;
use crate::error::Error;

verus! {

/// Whether a character counts as white space in a profile heading: the
/// Unicode white-space characters.
pub open spec fn is_space(c: char) -> bool {
    let u = c as u32;
    u == 0x9 || u == 0xA || u == 0xB || u == 0xC || u == 0xD || u == 0x20 || u == 0x85 || u
        == 0xA0 || u == 0x1680 || (0x2000 <= u && u <= 0x200A) || u == 0x2028 || u == 0x2029 || u
        == 0x202F || u == 0x205F || u == 0x3000
}

/// The executable test for [`is_space`].
fn is_space_char(c: char) -> (r: bool)
    ensures
        r == is_space(c),
{
    let u = c as u32;
    u == 0x9 || u == 0xA || u == 0xB || u == 0xC || u == 0xD || u == 0x20 || u == 0x85 || u
        == 0xA0 || u == 0x1680 || (0x2000 <= u && u <= 0x200A) || u == 0x2028 || u == 0x2029 || u
        == 0x202F || u == 0x205F || u == 0x3000
}

/// A line with its ending removed: a trailing carriage return is dropped
/// when the line was ended by one before the line feed.
pub open spec fn strip_cr(line: Seq<char>) -> Seq<char> {
    if line.len() > 0 && line.last() == '\r' {
        line.drop_last()
    } else {
        line
    }
}

/// The lines of a text, split at line feeds, with a carriage return
/// before a line feed dropped; a final line without a line feed keeps any
/// trailing carriage return, and a text ending in a line feed has no
/// empty final line.
pub open spec fn lines_acc(s: Seq<char>, cur: Seq<char>) -> Seq<Seq<char>>
    decreases s.len(),
{
    if s.len() == 0 {
        if cur.len() == 0 {
            Seq::empty()
        } else {
            seq![cur]
        }
    } else if s[0] == '\n' {
        seq![strip_cr(cur)] + lines_acc(s.skip(1), Seq::empty())
    } else {
        lines_acc(s.skip(1), cur.push(s[0]))
    }
}

/// The lines of a text.
pub open spec fn lines_of(s: Seq<char>) -> Seq<Seq<char>> {
    lines_acc(s, Seq::empty())
}

/// The length of the white-space run that starts at `from`.
pub open spec fn space_run(line: Seq<char>, from: int) -> int
    decreases line.len() - from,
{
    if from < line.len() && 0 <= from && is_space(line[from]) {
        1 + space_run(line, from + 1)
    } else {
        0
    }
}

/// The position of the last closing bracket of a line, if any.
pub open spec fn last_bracket(line: Seq<char>) -> Option<int>
    decreases line.len(),
{
    if line.len() == 0 {
        None
    } else if line.last() == ']' {
        Some(line.len() - 1)
    } else {
        last_bracket(line.drop_last())
    }
}

/// The profile name a configuration-file line declares, if any: the line
/// must open with `[profile`, then at least one white-space character,
/// then a name of at least one character that runs to the last closing
/// bracket. The white space taken is as much of the run as leaves a name,
/// so a name may start with white space when the bracket crowds it.
pub open spec fn config_profile(line: Seq<char>) -> Option<Seq<char>> {
    if line.len() < 8 || line.take(8) != "[profile"@ {
        None
    } else {
        let w = space_run(line, 8);
        if w == 0 {
            None
        } else {
            match last_bracket(line) {
                None => None,
                Some(j) => if j >= 10 {
                    let gap = if w <= j - 9 {
                        w
                    } else {
                        j - 9
                    };
                    Some(line.subrange(8 + gap, j))
                } else {
                    None
                },
            }
        }
    }
}

/// The profile name a credentials-file line declares, if any: the line
/// must open with a bracket, and the name of at least one character runs
/// to the last closing bracket.
pub open spec fn credentials_profile(line: Seq<char>) -> Option<Seq<char>> {
    if line.len() == 0 || line[0] != '[' {
        None
    } else {
        match last_bracket(line) {
            None => None,
            Some(j) => if j >= 2 {
                Some(line.subrange(1, j))
            } else {
                None
            },
        }
    }
}

/// The profile names of all configuration-file lines, in order.
pub open spec fn config_profiles(lines: Seq<Seq<char>>) -> Seq<Seq<char>>
    decreases lines.len(),
{
    if lines.len() == 0 {
        Seq::empty()
    } else {
        let rest = config_profiles(lines.drop_last());
        match config_profile(lines.last()) {
            Some(c) => rest.push(c),
            None => rest,
        }
    }
}

/// The profile names of all credentials-file lines, in order.
pub open spec fn credentials_profiles(lines: Seq<Seq<char>>) -> Seq<Seq<char>>
    decreases lines.len(),
{
    if lines.len() == 0 {
        Seq::empty()
    } else {
        let rest = credentials_profiles(lines.drop_last());
        match credentials_profile(lines.last()) {
            Some(c) => rest.push(c),
            None => rest,
        }
    }
}

/// A white-space run of known extent pins `space_run` down.
proof fn lemma_space_run_is(line: Seq<char>, from: int, k: int)
    requires
        0 <= from,
        from + k <= line.len(),
        0 <= k,
        forall|m: int| from <= m < from + k ==> is_space(#[trigger] line[m]),
        from + k == line.len() || !is_space(line[from + k]),
    ensures
        space_run(line, from) == k,
    decreases k,
{
    if k > 0 {
        lemma_space_run_is(line, from + 1, k - 1);
    }
}

/// A closing bracket with none after it pins `last_bracket` down.
proof fn lemma_last_bracket_is(line: Seq<char>, j: int)
    requires
        0 <= j < line.len(),
        line[j] == ']',
        forall|k: int| j < k < line.len() ==> #[trigger] line[k] != ']',
    ensures
        last_bracket(line) == Some(j),
    decreases line.len(),
{
    if j == line.len() - 1 {
    } else {
        lemma_last_bracket_is(line.drop_last(), j);
    }
}

/// A line without a closing bracket pins `last_bracket` down.
proof fn lemma_last_bracket_none(line: Seq<char>)
    requires
        forall|k: int| 0 <= k < line.len() ==> #[trigger] line[k] != ']',
    ensures
        last_bracket(line) is None,
    decreases line.len(),
{
    if line.len() > 0 {
        lemma_last_bracket_none(line.drop_last());
    }
}

/// Finds the last closing bracket of a line.
fn find_last_bracket(line: &str) -> (r: Option<usize>)
    ensures
        match last_bracket(line@) {
            Some(j) => r matches Some(u) && u as int == j && 0 <= j < line@.len(),
            None => r is None,
        },
{
    let n = line.unicode_len();
    let mut t = n;
    while t > 0
        invariant
            t <= n,
            n == line@.len(),
            forall|k: int| t <= k < n ==> #[trigger] line@[k] != ']',
        decreases t,
    {
        t = t - 1;
        if line.get_char(t) == ']' {
            proof {
                lemma_last_bracket_is(line@, t as int);
            }
            return Some(t);
        }
    }
    proof {
        lemma_last_bracket_none(line@);
    }
    None
}

/// Reads the profile name a configuration-file line declares, if any.
fn config_profile_of_line(line: &str) -> (r: Option<String>)
    ensures
        r.deep_view() == config_profile(line@),
{
    let n = line.unicode_len();
    proof {
        reveal_strlit("[profile");
        assert("[profile"@.len() == 8);
    }
    if n < 8 {
        return None;
    }
    let mut k: usize = 0;
    while k < 8
        invariant
            k <= 8,
            8 <= n,
            n == line@.len(),
            "[profile"@.len() == 8,
            forall|m: int| 0 <= m < k ==> line@[m] == "[profile"@[m],
        decreases 8 - k,
    {
        if line.get_char(k) != "[profile".get_char(k) {
            proof {
                assert(line@.take(8)[k as int] != "[profile"@[k as int]);
            }
            return None;
        }
        k = k + 1;
    }
    proof {
        assert(line@.take(8) =~= "[profile"@);
    }
    let mut w: usize = 0;
    while 8 + w < n && is_space_char(line.get_char(8 + w))
        invariant
            8 + w <= n,
            n == line@.len(),
            forall|m: int| 8 <= m < 8 + w ==> is_space(#[trigger] line@[m]),
        decreases n - w,
    {
        w = w + 1;
    }
    proof {
        lemma_space_run_is(line@, 8, w as int);
    }
    if w == 0 {
        return None;
    }
    match find_last_bracket(line) {
        None => None,
        Some(j) => {
            if j < 10 {
                return None;
            }
            let gap = if w <= j - 9 {
                w
            } else {
                j - 9
            };
            let name = line.substring_char(8 + gap, j).to_owned();
            proof {
                assert(name@ == line@.subrange(8 + gap as int, j as int));
            }
            Some(name)
        }
    }
}

/// Reads the profile name a credentials-file line declares, if any.
fn credentials_profile_of_line(line: &str) -> (r: Option<String>)
    ensures
        r.deep_view() == credentials_profile(line@),
{
    let n = line.unicode_len();
    if n == 0 {
        return None;
    }
    if line.get_char(0) != '[' {
        return None;
    }
    match find_last_bracket(line) {
        None => None,
        Some(j) => {
            if j < 2 {
                return None;
            }
            let name = line.substring_char(1, j).to_owned();
            Some(name)
        }
    }
}

/// Splits a text into its lines, as [`lines_of`] describes.
fn split_lines(s: &str) -> (r: Vec<String>)
    ensures
        r.deep_view() == lines_of(s@),
{
    let n = s.unicode_len();
    let mut out: Vec<String> = Vec::new();
    let mut start: usize = 0;
    let mut i: usize = 0;
    proof {
        assert(s@.skip(0) =~= s@);
        assert(s@.subrange(0, 0) =~= Seq::<char>::empty());
        assert(out.deep_view() =~= Seq::<Seq<char>>::empty());
    }
    while i < n
        invariant
            start <= i <= n,
            n == s@.len(),
            out.deep_view() + lines_acc(s@.skip(i as int), s@.subrange(start as int, i as int))
                =~= lines_of(s@),
        decreases n - i,
    {
        let c = s.get_char(i);
        proof {
            assert(s@.skip(i as int)[0] == c);
            assert(s@.skip(i as int).skip(1) =~= s@.skip(i as int + 1));
        }
        if c == '\n' {
            let mut end = i;
            if end > start && s.get_char(end - 1) == '\r' {
                end = end - 1;
            }
            let line = s.substring_char(start, end).to_owned();
            proof {
                assert(line@ =~= strip_cr(s@.subrange(start as int, i as int)));
            }
            let ghost prev = out.deep_view();
            out.push(line);
            proof {
                assert(out.deep_view() =~= prev.push(line@));
                assert(prev.push(line@) + lines_acc(s@.skip(i as int + 1), Seq::empty()) =~= prev
                    + (seq![line@] + lines_acc(s@.skip(i as int + 1), Seq::empty())));
                assert(s@.subrange(i as int + 1, i as int + 1) =~= Seq::<char>::empty());
            }
            start = i + 1;
        } else {
            proof {
                assert(s@.subrange(start as int, i as int).push(c) =~= s@.subrange(
                    start as int,
                    i as int + 1,
                ));
            }
        }
        i = i + 1;
    }
    proof {
        assert(s@.skip(n as int).len() == 0);
    }
    if start < n {
        let line = s.substring_char(start, n).to_owned();
        let ghost prev = out.deep_view();
        out.push(line);
        proof {
            assert(out.deep_view() =~= prev.push(line@));
            assert(prev.push(line@) =~= prev + seq![line@]);
        }
    }
    out
}

/// The names declared by the lines of the cloud configuration file, in
/// order of appearance; a file with none gives the empty list.
pub fn collect_profiles_from_aws_config(content: &str) -> (r: Result<Vec<String>, Error>)
    ensures
        r matches Ok(v) && v.deep_view() == config_profiles(lines_of(content@)),
{
    let lines = split_lines(content);
    let mut out: Vec<String> = Vec::new();
    let mut i: usize = 0;
    proof {
        assert(out.deep_view() =~= Seq::<Seq<char>>::empty());
        assert(lines.deep_view().take(0) =~= Seq::<Seq<char>>::empty());
        assert(config_profiles(lines.deep_view().take(0)) =~= Seq::<Seq<char>>::empty());
    }
    while i < lines.len()
        invariant
            i <= lines.len(),
            lines.deep_view() == lines_of(content@),
            out.deep_view() == config_profiles(lines.deep_view().take(i as int)),
        decreases lines.len() - i,
    {
        proof {
            let pre = lines.deep_view().take(i as int + 1);
            assert(pre.drop_last() =~= lines.deep_view().take(i as int));
            assert(pre.last() == lines.deep_view()[i as int]);
        }
        match config_profile_of_line(lines[i].as_str()) {
            Some(name) => {
                let ghost prev = out.deep_view();
                out.push(name);
                proof {
                    assert(out.deep_view() =~= prev.push(name@));
                }
            }
            None => {
            }
        }
        i = i + 1;
    }
    proof {
        assert(lines.deep_view().take(lines@.len() as int) =~= lines.deep_view());
    }
    Ok(out)
}

/// The names declared by the lines of the cloud credentials file, in
/// order of appearance.
pub fn collect_profiles_from_aws_credentials(content: &str) -> (r: Result<Vec<String>, Error>)
    ensures
        r matches Ok(v) && v.deep_view() == credentials_profiles(lines_of(content@)),
{
    let lines = split_lines(content);
    let mut out: Vec<String> = Vec::new();
    let mut i: usize = 0;
    proof {
        assert(out.deep_view() =~= Seq::<Seq<char>>::empty());
        assert(lines.deep_view().take(0) =~= Seq::<Seq<char>>::empty());
        assert(credentials_profiles(lines.deep_view().take(0)) =~= Seq::<Seq<char>>::empty());
    }
    while i < lines.len()
        invariant
            i <= lines.len(),
            lines.deep_view() == lines_of(content@),
            out.deep_view() == credentials_profiles(lines.deep_view().take(i as int)),
        decreases lines.len() - i,
    {
        proof {
            let pre = lines.deep_view().take(i as int + 1);
            assert(pre.drop_last() =~= lines.deep_view().take(i as int));
            assert(pre.last() == lines.deep_view()[i as int]);
        }
        match credentials_profile_of_line(lines[i].as_str()) {
            Some(name) => {
                let ghost prev = out.deep_view();
                out.push(name);
                proof {
                    assert(out.deep_view() =~= prev.push(name@));
                }
            }
            None => {
            }
        }
        i = i + 1;
    }
    proof {
        assert(lines.deep_view().take(lines@.len() as int) =~= lines.deep_view());
    }
    Ok(out)
}

} // verus!
