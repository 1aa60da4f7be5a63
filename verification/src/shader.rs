//! Shader sources as text: the name under which a shader is kept, and the
//! insertion of a code segment where a source asks for one.

use vstd::prelude::*;
use vstd::string::StringExecFns;

verus! {

/// A line that holds this marker is replaced by the code segment.
pub const SHADER_SEGMENT: &'static str = "#insert_code_segment";

/// The place of the first line feed at or after `from`, or the length of
/// the text where there is none.
pub open spec fn line_end(s: Seq<char>, from: int) -> int
    decreases s.len() - from,
{
    if from < 0 || from >= s.len() {
        s.len() as int
    } else if s[from] == '\n' {
        from
    } else {
        line_end(s, from + 1)
    }
}

/// The line that starts at `from`, without its line feed and without a
/// carriage return before the line feed.
pub open spec fn line_at(s: Seq<char>, from: int) -> Seq<char> {
    let e = line_end(s, from);
    let raw = s.subrange(from, e);
    if e < s.len() && raw.len() > 0 && raw.last() == '\r' {
        raw.drop_last()
    } else {
        raw
    }
}

/// Whether `pat` stands in `line` from place `i` on.
pub open spec fn holds_at(line: Seq<char>, pat: Seq<char>, i: int) -> bool {
    0 <= i && i + pat.len() <= line.len() && line.subrange(i, i + pat.len()) == pat
}

/// Whether `pat` stands somewhere in `line`.
pub open spec fn line_holds(line: Seq<char>, pat: Seq<char>) -> bool {
    exists|i: int| holds_at(line, pat, i)
}

/// The text from `from` on, line by line: a line that holds `marker`
/// gives way to `segment`, and every line is followed by a line feed and
/// a blank. A line feed at the very end of the text starts no further line.
pub open spec fn with_segment(
    s: Seq<char>,
    marker: Seq<char>,
    segment: Seq<char>,
    from: int,
) -> Seq<char>
    decreases s.len() + 1 - from,
{
    if from < 0 || from >= s.len() {
        Seq::empty()
    } else {
        proof {
            lemma_line_end(s, from);
        }
        let line = line_at(s, from);
        (if line_holds(line, marker) {
            segment
        } else {
            line
        }) + seq!['\n', ' '] + with_segment(s, marker, segment, line_end(s, from) + 1)
    }
}

/// The name with every slash replaced by an underscore.
pub open spec fn key_of(name: Seq<char>) -> Seq<char> {
    Seq::new(
        name.len(),
        |i: int|
            if name[i] == '/' {
                '_'
            } else {
                name[i]
            },
    )
}

/// A line ends at or after its start, at the first line feed there is.
pub proof fn lemma_line_end(s: Seq<char>, from: int)
    requires
        0 <= from <= s.len(),
    ensures
        from <= line_end(s, from) <= s.len(),
        forall|k: int| from <= k < line_end(s, from) ==> s[k] != '\n',
        line_end(s, from) < s.len() ==> s[line_end(s, from)] == '\n',
    decreases s.len() - from,
{
    if from < s.len() && s[from] != '\n' {
        lemma_line_end(s, from + 1);
    }
}

/// The characters of a text.
fn chars_of(s: &str) -> (chars: Vec<char>)
    ensures
        chars@ == s@,
{
    let n = s.unicode_len();
    let mut chars: Vec<char> = Vec::new();
    let mut i: usize = 0;
    while i < n
        invariant
            i <= n,
            n == s@.len(),
            chars@ == s@.take(i as int),
        decreases n - i,
    {
        chars.push(s.get_char(i));
        assert(s@.take(i as int).push(s@[i as int]) =~= s@.take(i + 1));
        i += 1;
    }
    assert(s@.take(n as int) =~= s@);
    chars
}

/// Finds the first line feed at or after `from`.
fn find_line_end(chars: &Vec<char>, from: usize) -> (end: usize)
    requires
        from <= chars@.len(),
    ensures
        end == line_end(chars@, from as int),
        from <= end <= chars@.len(),
{
    let mut end = from;
    while end < chars.len() && chars[end] != '\n'
        invariant
            from <= end <= chars@.len(),
            line_end(chars@, from as int) == line_end(chars@, end as int),
        decreases chars@.len() - end,
    {
        end += 1;
    }
    end
}

/// Whether `marker` stands somewhere in the characters from `start` to `end`.
fn holds_marker(chars: &Vec<char>, start: usize, end: usize, marker: &Vec<char>) -> (found: bool)
    requires
        start <= end <= chars@.len(),
    ensures
        found == line_holds(chars@.subrange(start as int, end as int), marker@),
{
    let ghost line = chars@.subrange(start as int, end as int);
    let m = marker.len();
    if end - start < m {
        assert forall|i: int| !holds_at(line, marker@, i) by {}
        return false;
    }
    let last = end - start - m;
    let mut i: usize = 0;
    while i <= last
        invariant
            i <= last + 1,
            last == end - start - m,
            m == marker@.len(),
            start <= end <= chars@.len(),
            line == chars@.subrange(start as int, end as int),
            forall|j: int| 0 <= j < i ==> !holds_at(line, marker@, j),
        decreases last + 1 - i,
    {
        let mut k: usize = 0;
        while k < m && chars[start + i + k] == marker[k]
            invariant
                k <= m,
                i <= last,
                last == end - start - m,
                m == marker@.len(),
                start <= end <= chars@.len(),
                line == chars@.subrange(start as int, end as int),
                forall|j: int| 0 <= j < k ==> line[i + j] == marker@[j],
            decreases m - k,
        {
            k += 1;
        }
        if k == m {
            assert(line.subrange(i as int, i + m) =~= marker@);
            assert(holds_at(line, marker@, i as int));
            return true;
        }
        assert(!holds_at(line, marker@, i as int)) by {
            if holds_at(line, marker@, i as int) {
                assert(line.subrange(i as int, i + m)[k as int] == marker@[k as int]);
            }
        }
        i += 1;
    }
    assert forall|j: int| !holds_at(line, marker@, j) by {
        if holds_at(line, marker@, j) {
            assert(j <= last);
        }
    }
    false
}

/// Replaces every line of a shader source that holds the marker
/// `#insert_code_segment` by `segment`, and ends every line with a line
/// feed and a blank.
pub fn insert_code_segment(shader_source: &str, segment: &str) -> (output: String)
    ensures
        output@ == with_segment(shader_source@, SHADER_SEGMENT@, segment@, 0),
{
    let chars = chars_of(shader_source);
    let marker = chars_of(SHADER_SEGMENT);
    let n = chars.len();
    let mut output = String::new();
    let mut from: usize = 0;
    let ghost s = shader_source@;
    proof {
        reveal_strlit("\n ");
    }
    while from < n
        invariant
            from <= n,
            n == s.len(),
            s == shader_source@,
            chars@ == s,
            marker@ == SHADER_SEGMENT@,
            "\n "@ == seq!['\n', ' '],
            output@ + with_segment(s, SHADER_SEGMENT@, segment@, from as int) == with_segment(
                s,
                SHADER_SEGMENT@,
                segment@,
                0,
            ),
        decreases n - from,
    {
        let end = find_line_end(&chars, from);
        proof {
            lemma_line_end(s, from as int);
        }
        let mut line_to = end;
        if end < n && end > from && chars[end - 1] == '\r' {
            line_to = end - 1;
        }
        proof {
            let raw = s.subrange(from as int, end as int);
            if end < n && raw.len() > 0 && raw.last() == '\r' {
                assert(raw.drop_last() =~= s.subrange(from as int, line_to as int));
            }
            assert(line_at(s, from as int) == s.subrange(from as int, line_to as int));
        }
        let ghost before = output@;
        if holds_marker(&chars, from, line_to, &marker) {
            output.append(segment);
        } else {
            output.append(shader_source.substring_char(from, line_to));
        }
        output.append("\n ");
        proof {
            let line = line_at(s, from as int);
            let piece = if line_holds(line, SHADER_SEGMENT@) {
                segment@
            } else {
                line
            };
            assert(output@ == before + piece + seq!['\n', ' ']);
            let rest = with_segment(s, SHADER_SEGMENT@, segment@, end + 1);
            assert(with_segment(s, SHADER_SEGMENT@, segment@, from as int) == piece + seq![
                '\n',
                ' ',
            ] + rest);
            assert(output@ + rest =~= before + (piece + seq!['\n', ' '] + rest));
        }
        if end == n {
            proof {
                assert(with_segment(s, SHADER_SEGMENT@, segment@, end + 1) =~= Seq::<char>::empty());
                assert(output@ + Seq::<char>::empty() =~= output@);
            }
            return output;
        }
        from = end + 1;
    }
    proof {
        assert(with_segment(s, SHADER_SEGMENT@, segment@, from as int) =~= Seq::<char>::empty());
        assert(output@ + Seq::<char>::empty() =~= output@);
    }
    output
}

/// The name under which a shader is kept: its path with underscores for
/// slashes.
pub fn shader_key(shader_name: &str) -> (key: String)
    ensures
        key@ == key_of(shader_name@),
{
    let chars = chars_of(shader_name);
    let n = chars.len();
    let mut key = String::new();
    let mut start: usize = 0;
    let mut i: usize = 0;
    proof {
        reveal_strlit("_");
    }
    while i < n
        invariant
            start <= i <= n,
            n == chars@.len(),
            chars@ == shader_name@,
            "_"@ == seq!['_'],
            key@ == key_of(chars@.take(start as int)),
            forall|k: int| start <= k < i ==> chars@[k] != '/',
        decreases n - i,
    {
        if chars[i] == '/' {
            let ghost before = key@;
            key.append(shader_name.substring_char(start, i));
            key.append("_");
            proof {
                let plain = chars@.subrange(start as int, i as int);
                assert(key@ == before + plain + seq!['_']);
                assert(key@ =~= key_of(chars@.take(i + 1)));
            }
            start = i + 1;
        }
        i += 1;
    }
    let ghost before = key@;
    key.append(shader_name.substring_char(start, n));
    proof {
        assert(chars@.take(n as int) =~= chars@);
        assert(key@ =~= key_of(chars@));
    }
    key
}

} // verus!
