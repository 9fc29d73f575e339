//! Extraction of expected-result blocks from example files.
//!
//! An example file carries its expected structure in a frontmatter
//! block: a line opening with the block marker and a tag, the block's
//! lines, and a closing line. The test harness turns the extracted
//! block into code; finding the block is plain text work and lives
//! here.

use vstd::prelude::*;

verus! {

/// Whether a character is blank space within a line.
pub open spec fn is_blank(c: char) -> bool {
    c == ' ' || c == '\t'
}

/// A marker line for the tag opens at `p` and its line ends at `line_end`:
/// the line starts the text or follows a line break, opens with the
/// block marker, and carries the tag after optional blanks.
pub open spec fn marker_line_at(
    s: Seq<char>,
    tag: Seq<char>,
    p: int,
    line_end: int,
) -> bool {
    &&& 0 <= p
    &&& p + 3 <= line_end <= s.len()
    &&& p == 0 || s[p - 1] == '\n'
    &&& s.subrange(p, p + 3) == seq!['/', '*', '#']
    &&& exists|k: int|
        {
            &&& p + 3 <= k
            &&& k + tag.len() <= line_end
            &&& (forall|t: int| p + 3 <= t < k ==> is_blank(#[trigger] s[t]))
            &&& #[trigger] s.subrange(k, k + tag.len()) == tag
        }
}

/// The tagged block of the text runs from `body` to `close`: a marker
/// line for the tag ends just before `body`, the closing line starts at
/// `close`, and the block is the text between them without the final
/// line break.
pub open spec fn extracted_block(
    s: Seq<char>,
    tag: Seq<char>,
    block: Seq<char>,
    body: int,
    close: int,
) -> bool {
    &&& 0 < body <= close && close + 2 <= s.len()
    &&& exists|p: int| #[trigger] marker_line_at(s, tag, p, body - 1)
    &&& s[close] == '*' && s[close + 1] == '/'
    &&& close == body || s[close - 1] == '\n'
    &&& block == s.subrange(
        body,
        if close > body {
            close - 1
        } else {
            body
        },
    )
}

/// Some block of the text is the tagged one and equals `block`.
pub open spec fn has_extracted_block(s: Seq<char>, tag: Seq<char>, block: Seq<char>) -> bool {
    exists|body: int, close: int| #[trigger] extracted_block(s, tag, block, body, close)
}

/// The index of the first line break at or after `from`, or the text
/// length if there is none.
fn find_line_break(s: &str, from: usize, n: usize) -> (r: usize)
    requires
        from <= n <= s@.len(),
    ensures
        from <= r <= n,
        r < n ==> s@[r as int] == '\n',
        forall|t: int| from <= t < r ==> s@[t] != '\n',
{
    let mut j = from;
    while j < n && s.get_char(j) != '\n'
        invariant
            from <= j <= n <= s@.len(),
            forall|t: int| from <= t < j ==> s@[t] != '\n',
        decreases n - j,
    {
        j = j + 1;
    }
    j
}

/// Finds the line that opens the tagged block and returns the index
/// just past that line's break, where the block content starts.
fn find_marker_line(s: &str, tag: &str, n: usize) -> (r: Option<usize>)
    requires
        n == s@.len(),
    ensures
        match r {
            Some(body) => {
                &&& 0 < body <= n
                &&& s@[body - 1] == '\n'
                &&& exists|p: int| #[trigger] marker_line_at(s@, tag@, p, body - 1)
            },
            None => true,
        },
{
    let tag_len = tag.unicode_len();
    let mut pos: usize = 0;
    while pos < n
        invariant
            pos <= n,
            n == s@.len(),
            tag_len == tag@.len(),
            pos == 0 || s@[pos - 1] == '\n',
        decreases n - pos,
    {
        let line_end = find_line_break(s, pos, n);
        if line_end - pos >= 3 && s.get_char(pos) == '/' && s.get_char(pos + 1) == '*'
            && s.get_char(pos + 2) == '#' {
            // Skip blanks, then hold the line against the tag.
            let mut k = pos + 3;
            while k < line_end && (s.get_char(k) == ' ' || s.get_char(k) == '\t')
                invariant
                    pos + 3 <= k <= line_end <= n == s@.len(),
                    forall|t: int| pos + 3 <= t < k ==> is_blank(#[trigger] s@[t]),
                decreases line_end - k,
            {
                k = k + 1;
            }
            if tag_len <= line_end - k {
                let mut t: usize = 0;
                let mut matched = true;
                while t < tag_len && matched
                    invariant
                        t <= tag_len == tag@.len(),
                        k + tag_len <= line_end <= n == s@.len(),
                        matched ==> forall|u: int| 0 <= u < t ==> s@[k + u] == tag@[u],
                    decreases tag_len - t,
                {
                    if s.get_char(k + t) != tag.get_char(t) {
                        matched = false;
                    }
                    t = t + 1;
                }
                if matched && line_end < n {
                    proof {
                        assert(s@.subrange(pos as int, pos + 3) =~= seq!['/', '*', '#']);
                        assert(s@.subrange(k as int, k + tag@.len()) =~= tag@);
                        assert(marker_line_at(s@, tag@, pos as int, line_end as int));
                    }
                    return Some(line_end + 1);
                }
            }
        }
        if line_end >= n {
            return None;
        }
        pos = line_end + 1;
    }
    None
}

/// Finds the start of the first line at or after `from` that opens with
/// the block-closing marker.
fn find_closing_line(s: &str, from: usize, n: usize) -> (r: Option<usize>)
    requires
        from <= n == s@.len(),
    ensures
        match r {
            Some(c) => {
                &&& from <= c && c + 2 <= n
                &&& s@[c as int] == '*' && s@[c + 1] == '/'
                &&& c == from || s@[c - 1] == '\n'
            },
            None => true,
        },
{
    let mut pos = from;
    while pos < n
        invariant
            from <= pos <= n == s@.len(),
            pos == from || s@[pos - 1] == '\n',
        decreases n - pos,
    {
        if n - pos >= 2 && s.get_char(pos) == '*' && s.get_char(pos + 1) == '/' {
            return Some(pos);
        }
        let line_end = find_line_break(s, pos, n);
        if line_end >= n {
            return None;
        }
        pos = line_end + 1;
    }
    None
}

/// Extracts the expected-result block tagged in the file's frontmatter:
/// the text between the line that opens with the block marker and the
/// tag, and the next line that opens with the closing marker. It fails
/// when no line carries the tag, or when the block is never closed.
pub fn expected_result(test_file: &str, tag: &str) -> (r: Result<String, &'static str>)
    ensures
        r matches Ok(block) ==> has_extracted_block(test_file@, tag@, block@),
{
    let n = test_file.unicode_len();
    let body = match find_marker_line(test_file, tag, n) {
        Some(body) => body,
        None => {
            return Err("Tag not found in test file!");
        },
    };
    let close = match find_closing_line(test_file, body, n) {
        Some(close) => close,
        None => {
            return Err("Tag not closed in test file!");
        },
    };
    let content_end = if close > body {
        close - 1
    } else {
        body
    };
    let block = test_file.substring_char(body, content_end).to_owned();
    proof {
        assert(extracted_block(test_file@, tag@, block@, body as int, close as int));
        assert(has_extracted_block(test_file@, tag@, block@));
    }
    Ok(block)
}

} // verus!
