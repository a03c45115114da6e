//! Splitting a command line into a program and its arguments.
//!
//! A two-state scanner: outside a quoted segment white space ends the
//! current token; a double quote toggles the quoted state and is itself dropped.
//! Empty tokens are never produced, and an unterminated quote is closed at
//! the end of the input.
use vstd::prelude::*;
use vstd::string::*;

verus! {

/// The characters with the Unicode `White_Space` property.
pub open spec fn is_white(c: char) -> bool {
    let v = c as u32;
    (0x09 <= v && v <= 0x0d) || v == 0x20 || v == 0x85 || v == 0xa0 || v == 0x1680 || (0x2000 <= v
        && v <= 0x200a) || v == 0x2028 || v == 0x2029 || v == 0x202f || v == 0x205f || v == 0x3000
}

/// Whether `c` is white space, in the sense of `is_white`.
pub fn is_white_space(c: char) -> (r: bool)
    ensures
        r == is_white(c),
{
    let v = c as u32;
    (0x09 <= v && v <= 0x0d) || v == 0x20 || v == 0x85 || v == 0xa0 || v == 0x1680 || (0x2000 <= v
        && v <= 0x200a) || v == 0x2028 || v == 0x2029 || v == 0x202f || v == 0x205f || v == 0x3000
}

/// The text without its leading white space.
pub open spec fn trim_start(s: Seq<char>) -> Seq<char>
    decreases s.len(),
{
    if s.len() > 0 && is_white(s[0]) {
        trim_start(s.drop_first())
    } else {
        s
    }
}

/// The text without its trailing white space.
pub open spec fn trim_end(s: Seq<char>) -> Seq<char>
    decreases s.len(),
{
    if s.len() > 0 && is_white(s.last()) {
        trim_end(s.drop_last())
    } else {
        s
    }
}

/// The text without white space at either end.
pub open spec fn trimmed(s: Seq<char>) -> Seq<char> {
    trim_end(trim_start(s))
}

/// The scanner's state after reading a prefix of the input.
pub struct ScanState {
    pub parts: Seq<Seq<char>>,
    pub current: Seq<char>,
    pub quoted: bool,
}

pub open spec fn scan_step(st: ScanState, c: char) -> ScanState {
    if c == '"' {
        ScanState { quoted: !st.quoted, ..st }
    } else if is_white(c) && !st.quoted {
        if st.current.len() > 0 {
            ScanState { parts: st.parts.push(st.current), current: Seq::empty(), quoted: st.quoted }
        } else {
            st
        }
    } else {
        ScanState { current: st.current.push(c), ..st }
    }
}

pub open spec fn scan(s: Seq<char>) -> ScanState
    decreases s.len(),
{
    if s.len() == 0 {
        ScanState { parts: Seq::empty(), current: Seq::empty(), quoted: false }
    } else {
        scan_step(scan(s.drop_last()), s.last())
    }
}

/// The tokens of a command line, in order.
pub open spec fn tokens(s: Seq<char>) -> Seq<Seq<char>> {
    let st = scan(s);
    if st.current.len() > 0 {
        st.parts.push(st.current)
    } else {
        st.parts
    }
}

/// The first token is the program, the others are its arguments; no token
/// means no command.
pub open spec fn parse_command(s: Seq<char>) -> Option<(Seq<char>, Seq<Seq<char>>)> {
    let t = tokens(s);
    if t.len() == 0 {
        None
    } else {
        Some((t[0], t.drop_first()))
    }
}

pub open spec fn string_views(v: Seq<String>) -> Seq<Seq<char>> {
    v.map_values(|p: String| p@)
}

/// The view of a parse result: program and arguments as characters.
pub open spec fn command_view(r: Option<(String, Vec<String>)>) -> Option<(Seq<char>, Seq<Seq<char>>)> {
    match r {
        Some((program, args)) => Some((program@, string_views(args@))),
        None => None,
    }
}

/// Relies on `str::trim` of std: the characters with the Unicode
/// `White_Space` property are removed from both ends.
#[verifier::external_body]
fn trim(s: &str) -> (r: &str)
    ensures
        r@ == trimmed(s@),
{
    s.trim()
}

proof fn lemma_scan_take(s: Seq<char>, i: int)
    requires
        0 <= i < s.len(),
    ensures
        scan(s.take(i + 1)) == scan_step(scan(s.take(i)), s[i]),
{
    assert(s.take(i + 1).drop_last() =~= s.take(i));
}

/// Splits a command line that has already been trimmed.
pub fn split_trimmed_command(s: &str) -> (r: Option<(String, Vec<String>)>)
    ensures
        command_view(r) == parse_command(s@),
{
    let n = s.unicode_len();
    let mut parts: Vec<String> = Vec::new();
    let mut current = String::new();
    let mut quoted = false;
    let mut seg_start: usize = 0;
    let mut i: usize = 0;
    assert(s@.take(0) =~= Seq::<char>::empty());
    assert(string_views(parts@) =~= Seq::<Seq<char>>::empty());
    assert(current@ + s@.subrange(0, 0) =~= Seq::<char>::empty());
    while i < n
        invariant
            n == s@.len(),
            seg_start <= i <= n,
            scan(s@.take(i as int)) == (ScanState {
                parts: string_views(parts@),
                current: current@ + s@.subrange(seg_start as int, i as int),
                quoted,
            }),
        decreases n - i,
    {
        proof {
            lemma_scan_take(s@, i as int);
        }
        let c = s.get_char(i);
        if c == '"' {
            current.append(s.substring_char(seg_start, i));
            quoted = !quoted;
            seg_start = i + 1;
            assert(s@.subrange(seg_start as int, i + 1) =~= Seq::<char>::empty());
        } else if is_white_space(c) && !quoted {
            current.append(s.substring_char(seg_start, i));
            if !current.as_str().is_empty() {
                let ghost before = parts@;
                parts.push(current);
                current = String::new();
                assert(string_views(parts@) =~= string_views(before).push(
                    scan(s@.take(i as int)).current,
                ));
            }
            seg_start = i + 1;
            assert(s@.subrange(seg_start as int, i + 1) =~= Seq::<char>::empty());
        } else {
            assert(s@.subrange(seg_start as int, i + 1) =~= s@.subrange(seg_start as int, i as int).push(c));
        }
        i = i + 1;
    }
    current.append(s.substring_char(seg_start, n));
    assert(s@.take(n as int) =~= s@);
    if !current.as_str().is_empty() {
        let ghost before = parts@;
        parts.push(current);
        assert(string_views(parts@) =~= string_views(before).push(scan(s@).current));
    }
    if parts.len() == 0 {
        None
    } else {
        let ghost all = parts@;
        let program = parts.remove(0);
        assert(string_views(parts@) =~= string_views(all).drop_first());
        Some((program, parts))
    }
}

/// Splits a command line into its program and arguments, after trimming
/// white space at both ends; `None` when no token remains.
pub fn split_command_into_parts(input: &str) -> (r: Option<(String, Vec<String>)>)
    ensures
        command_view(r) == parse_command(trimmed(input@)),
{
    split_trimmed_command(trim(input))
}

} // verus!
