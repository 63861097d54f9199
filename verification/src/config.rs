//! The build descriptor: an ordered list of source identifiers, read from
//! a structured text file.
//!
//! The accepted grammar is the conventional descriptor form
//! `(textures: ["a.png", "b.png"])`: whitespace, line comments `// …` and
//! nested block comments `/* … */` anywhere between tokens, an optional
//! struct name before the parenthesis, optional trailing commas, and
//! double-quoted strings with the escapes `\\`, `\"`, `\'`, `\n`, `\r`,
//! `\t` and `\0`. Anything else — including unknown escapes and
//! unterminated strings or comments — is malformed and rejected before any
//! loading begins.

use vstd::prelude::*;
use crate::errors::BuildLoaderError;

verus! {

/// The path index view a build gives a source list: every placement keeps
/// its source identifier.
pub open spec fn sources_view(v: Seq<String>) -> Seq<Option<Seq<char>>> {
    v.map_values(|s: String| Some(s@))
}

/// The plain values of a list of parsed strings.
pub open spec fn strings_view(v: Seq<String>) -> Seq<Seq<char>> {
    v.map_values(|s: String| s@)
}

/// Descriptor whitespace.
pub open spec fn is_ws(c: char) -> bool {
    c == ' ' || c == '\t' || c == '\n' || c == '\r'
}

/// A character that may start a struct name.
pub open spec fn is_ident_start(c: char) -> bool {
    ('a' as u32) <= (c as u32) && (c as u32) <= ('z' as u32) || ('A' as u32) <= (c as u32) && (
    c as u32) <= ('Z' as u32) || c == '_'
}

/// A character that may continue a struct name.
pub open spec fn is_ident_char(c: char) -> bool {
    is_ident_start(c) || ('0' as u32) <= (c as u32) && (c as u32) <= ('9' as u32)
}

/// What a backslash escape in a descriptor string stands for, if anything.
pub open spec fn escape_char(c: char) -> Option<char> {
    if c == '\\' {
        Some('\\')
    } else if c == '"' {
        Some('"')
    } else if c == '\'' {
        Some('\'')
    } else if c == 'n' {
        Some('\n')
    } else if c == 'r' {
        Some('\r')
    } else if c == 't' {
        Some('\t')
    } else if c == '0' {
        Some('\0')
    } else {
        None
    }
}

/// The first index after the line comment body starting at `i`: just past
/// the next newline, or the length.
pub open spec fn skip_line(s: Seq<char>, i: int) -> int
    decreases s.len() - i,
{
    if i < 0 || i >= s.len() {
        s.len() as int
    } else if s[i] == '\n' {
        i + 1
    } else {
        skip_line(s, i + 1)
    }
}

proof fn lemma_skip_line_bounds(s: Seq<char>, i: int)
    requires
        0 <= i <= s.len(),
    ensures
        i <= skip_line(s, i) <= s.len(),
    decreases s.len() - i,
{
    if i < s.len() && s[i] != '\n' {
        lemma_skip_line_bounds(s, i + 1);
    }
}

/// The first index after the block comment body starting at `i` at the
/// given nesting depth, or `-1` when the comment never closes.
pub open spec fn skip_block(s: Seq<char>, i: int, depth: int) -> int
    decreases s.len() - i,
{
    if i < 0 || i >= s.len() {
        -1
    } else if s[i] == '*' && i + 1 < s.len() && s[i + 1] == '/' {
        if depth <= 1 {
            i + 2
        } else {
            skip_block(s, i + 2, depth - 1)
        }
    } else if s[i] == '/' && i + 1 < s.len() && s[i + 1] == '*' {
        skip_block(s, i + 2, depth + 1)
    } else {
        skip_block(s, i + 1, depth)
    }
}

proof fn lemma_skip_block_bounds(s: Seq<char>, i: int, depth: int)
    requires
        0 <= i <= s.len(),
    ensures
        skip_block(s, i, depth) == -1 || i + 2 <= skip_block(s, i, depth) <= s.len(),
    decreases s.len() - i,
{
    if i < s.len() {
        if s[i] == '*' && i + 1 < s.len() && s[i + 1] == '/' {
            if depth > 1 {
                lemma_skip_block_bounds(s, i + 2, depth - 1);
            }
        } else if s[i] == '/' && i + 1 < s.len() && s[i + 1] == '*' {
            lemma_skip_block_bounds(s, i + 2, depth + 1);
        } else {
            lemma_skip_block_bounds(s, i + 1, depth);
        }
    }
}

/// The first index at or after `i` holding neither whitespace nor a
/// comment. An unterminated block comment stays where it is: its `/` is no
/// token of the grammar, so the caller rejects the text there.
pub open spec fn skip_ws(s: Seq<char>, i: int) -> int
    decreases s.len() - i,
    via skip_ws_decreases
{
    if i < 0 || i >= s.len() {
        i
    } else if is_ws(s[i]) {
        skip_ws(s, i + 1)
    } else if s[i] == '/' && i + 1 < s.len() && s[i + 1] == '/' {
        skip_ws(s, skip_line(s, i + 2))
    } else if s[i] == '/' && i + 1 < s.len() && s[i + 1] == '*' {
        let e = skip_block(s, i + 2, 1);
        if e < 0 {
            i
        } else {
            skip_ws(s, e)
        }
    } else {
        i
    }
}

#[via_fn]
proof fn skip_ws_decreases(s: Seq<char>, i: int) {
    if 0 <= i && i < s.len() {
        if s[i] == '/' && i + 1 < s.len() && s[i + 1] == '/' {
            lemma_skip_line_bounds(s, i + 2);
        }
        if s[i] == '/' && i + 1 < s.len() && s[i + 1] == '*' {
            lemma_skip_block_bounds(s, i + 2, 1);
        }
    }
}

proof fn lemma_skip_ws_bounds(s: Seq<char>, i: int)
    requires
        0 <= i <= s.len(),
    ensures
        i <= skip_ws(s, i) <= s.len(),
    decreases s.len() - i,
{
    if i < s.len() {
        if is_ws(s[i]) {
            lemma_skip_ws_bounds(s, i + 1);
        } else if s[i] == '/' && i + 1 < s.len() && s[i + 1] == '/' {
            lemma_skip_line_bounds(s, i + 2);
            lemma_skip_ws_bounds(s, skip_line(s, i + 2));
        } else if s[i] == '/' && i + 1 < s.len() && s[i + 1] == '*' {
            lemma_skip_block_bounds(s, i + 2, 1);
            let e = skip_block(s, i + 2, 1);
            if e >= 0 {
                lemma_skip_ws_bounds(s, e);
            }
        }
    }
}

/// The end of the struct-name characters running from `i`.
pub open spec fn ident_scan(s: Seq<char>, i: int) -> int
    decreases s.len() - i,
{
    if i < 0 || i >= s.len() || !is_ident_char(s[i]) {
        i
    } else {
        ident_scan(s, i + 1)
    }
}

/// The end of the optional struct name starting at `i`, or `i` itself when
/// none stands there.
pub open spec fn ident_end(s: Seq<char>, i: int) -> int {
    if i < 0 || i >= s.len() || !is_ident_start(s[i]) {
        i
    } else {
        ident_scan(s, i + 1)
    }
}

proof fn lemma_ident_end_bounds(s: Seq<char>, i: int)
    requires
        0 <= i <= s.len(),
    ensures
        i <= ident_end(s, i) <= s.len(),
{
    if i < s.len() && is_ident_start(s[i]) {
        lemma_ident_scan_bounds(s, i + 1);
    }
}

proof fn lemma_ident_scan_bounds(s: Seq<char>, i: int)
    requires
        0 <= i <= s.len(),
    ensures
        i <= ident_scan(s, i) <= s.len(),
    decreases s.len() - i,
{
    if i < s.len() && is_ident_char(s[i]) {
        lemma_ident_scan_bounds(s, i + 1);
    }
}

/// The value and end of the string literal whose opening quote stands just
/// before `i`: the characters up to the closing quote with escapes
/// interpreted, and the index just past that quote. Unterminated literals
/// and unknown escapes mean nothing.
pub open spec fn parse_string(s: Seq<char>, i: int) -> Option<(Seq<char>, int)>
    decreases s.len() - i,
{
    if i < 0 || i >= s.len() {
        None
    } else if s[i] == '"' {
        Some((Seq::empty(), i + 1))
    } else if s[i] == '\\' {
        if i + 1 >= s.len() {
            None
        } else {
            match escape_char(s[i + 1]) {
                None => None,
                Some(c) => match parse_string(s, i + 2) {
                    Some((rest, e)) => Some((seq![c] + rest, e)),
                    None => None,
                },
            }
        }
    } else {
        match parse_string(s, i + 1) {
            Some((rest, e)) => Some((seq![s[i]] + rest, e)),
            None => None,
        }
    }
}

proof fn lemma_parse_string_bounds(s: Seq<char>, i: int)
    requires
        0 <= i <= s.len(),
    ensures
        parse_string(s, i) matches Some((v, e)) ==> i < e <= s.len(),
    decreases s.len() - i,
{
    if i < s.len() {
        if s[i] == '\\' {
            if i + 1 < s.len() && escape_char(s[i + 1]) is Some {
                lemma_parse_string_bounds(s, i + 2);
            }
        } else if s[i] != '"' {
            lemma_parse_string_bounds(s, i + 1);
        }
    }
}

/// The string items of a descriptor list, starting just inside the
/// brackets at `i`: items separated by commas, an optional trailing comma,
/// closed by `]`. Yields the items and the index just past the `]`.
pub open spec fn parse_items(s: Seq<char>, i: int) -> Option<(Seq<Seq<char>>, int)>
    decreases s.len() - i,
    when 0 <= i <= s.len()
    via parse_items_decreases
{
    let j = skip_ws(s, i);
    if j >= s.len() {
        None
    } else if s[j] == ']' {
        Some((Seq::empty(), j + 1))
    } else if s[j] == '"' {
        match parse_string(s, j + 1) {
            None => None,
            Some((item, p)) => {
                let k = skip_ws(s, p);
                if k >= s.len() {
                    None
                } else if s[k] == ',' {
                    match parse_items(s, k + 1) {
                        Some((rest, e)) => Some((seq![item] + rest, e)),
                        None => None,
                    }
                } else if s[k] == ']' {
                    Some((seq![item], k + 1))
                } else {
                    None
                }
            },
        }
    } else {
        None
    }
}

#[via_fn]
proof fn parse_items_decreases(s: Seq<char>, i: int) {
    lemma_skip_ws_bounds(s, i);
    let j = skip_ws(s, i);
    if j < s.len() && s[j] == '"' {
        lemma_parse_string_bounds(s, j + 1);
        if let Some((item, p)) = parse_string(s, j + 1) {
            lemma_skip_ws_bounds(s, p);
        }
    }
}

/// What the descriptor text means: the ordered source identifiers, or
/// nothing when the text is malformed.
pub open spec fn parse_config_model(s: Seq<char>) -> Option<Seq<Seq<char>>> {
    let a = skip_ws(s, 0);
    let b = ident_end(s, a);
    let i0 = skip_ws(s, b);
    if i0 >= s.len() || s[i0] != '(' {
        None
    } else {
        let i1 = skip_ws(s, i0 + 1);
        if s.len() - i1 < 8 || s.subrange(i1, i1 + 8) != "textures"@ {
            None
        } else {
            let i2 = skip_ws(s, i1 + 8);
            if i2 >= s.len() || s[i2] != ':' {
                None
            } else {
                let i3 = skip_ws(s, i2 + 1);
                if i3 >= s.len() || s[i3] != '[' {
                    None
                } else {
                    match parse_items(s, i3 + 1) {
                        None => None,
                        Some((items, e)) => {
                            let i4 = skip_ws(s, e);
                            let i5 = if i4 < s.len() && s[i4] == ',' {
                                skip_ws(s, i4 + 1)
                            } else {
                                i4
                            };
                            if i5 >= s.len() || s[i5] != ')' {
                                None
                            } else if skip_ws(s, i5 + 1) != s.len() {
                                None
                            } else {
                                Some(items)
                            }
                        },
                    }
                }
            }
        }
    }
}

/// A parsed build descriptor: the ordered source image identifiers to pack.
pub struct BuildLoaderConfig {
    pub textures: Vec<String>,
}

impl BuildLoaderConfig {
    /// The source paths, in descriptor order.
    pub fn iter_paths(&self) -> (r: &Vec<String>)
        ensures
            r == &self.textures,
    {
        &self.textures
    }
}

/// Whether the character is descriptor whitespace.
fn char_is_ws(c: char) -> (r: bool)
    ensures
        r == is_ws(c),
{
    c == ' ' || c == '\t' || c == '\n' || c == '\r'
}

/// Whether the character may start a struct name.
fn char_is_ident_start(c: char) -> (r: bool)
    ensures
        r == is_ident_start(c),
{
    ('a' as u32) <= (c as u32) && (c as u32) <= ('z' as u32) || ('A' as u32) <= (c as u32) && (
    c as u32) <= ('Z' as u32) || c == '_'
}

/// Whether the character may continue a struct name.
fn char_is_ident_char(c: char) -> (r: bool)
    ensures
        r == is_ident_char(c),
{
    char_is_ident_start(c) || ('0' as u32) <= (c as u32) && (c as u32) <= ('9' as u32)
}

/// What the backslash escape stands for, if anything.
fn unescape(c: char) -> (r: Option<char>)
    ensures
        r == escape_char(c),
{
    if c == '\\' {
        Some('\\')
    } else if c == '"' {
        Some('"')
    } else if c == '\'' {
        Some('\'')
    } else if c == 'n' {
        Some('\n')
    } else if c == 'r' {
        Some('\r')
    } else if c == 't' {
        Some('\t')
    } else if c == '0' {
        Some('\0')
    } else {
        None
    }
}

/// Relies on String::from_iter over characters: the collected string holds
/// exactly the characters of the vector, in order.
#[verifier::external_body]
fn chars_to_string(chars: &Vec<char>) -> (r: String)
    ensures
        r@ == chars@,
{
    chars.iter().collect()
}

/// The position just past the line comment body starting at `i`.
fn line_end(s: &str, i: usize, n: usize) -> (r: usize)
    requires
        n == s@.len(),
        i <= n,
    ensures
        r as int == skip_line(s@, i as int),
        i <= r <= n,
{
    let mut j = i;
    while j < n
        invariant
            i <= j <= n,
            n == s@.len(),
            skip_line(s@, i as int) == skip_line(s@, j as int),
        decreases n - j,
    {
        let c = s.get_char(j);
        if c == '\n' {
            return j + 1;
        }
        j += 1;
    }
    j
}

/// The position just past the block comment body starting at `i`, if the
/// comment closes.
fn block_end(s: &str, i: usize, n: usize) -> (r: Option<usize>)
    requires
        n == s@.len(),
        i <= n,
    ensures
        match r {
            Some(e) => skip_block(s@, i as int, 1) == e as int && e <= n,
            None => skip_block(s@, i as int, 1) == -1,
        },
{
    let mut j = i;
    let mut depth: usize = 1;
    while j < n
        invariant
            i <= j <= n,
            n == s@.len(),
            1 <= depth,
            2 * (depth as int - 1) <= j as int - i as int,
            skip_block(s@, i as int, 1) == skip_block(s@, j as int, depth as int),
        decreases n - j,
    {
        let c = s.get_char(j);
        if c == '*' && j + 1 < n && s.get_char(j + 1) == '/' {
            if depth == 1 {
                return Some(j + 2);
            }
            depth -= 1;
            j += 2;
        } else if c == '/' && j + 1 < n && s.get_char(j + 1) == '*' {
            depth += 1;
            j += 2;
        } else {
            j += 1;
        }
    }
    None
}

/// The first position at or after `i` holding neither whitespace nor a
/// comment.
fn ws_end(s: &str, i: usize, n: usize) -> (r: usize)
    requires
        n == s@.len(),
        i <= n,
    ensures
        r as int == skip_ws(s@, i as int),
        i <= r <= n,
{
    let mut j = i;
    loop
        invariant
            i <= j <= n,
            n == s@.len(),
            skip_ws(s@, i as int) == skip_ws(s@, j as int),
        decreases n - j,
    {
        if j >= n {
            return j;
        }
        let c = s.get_char(j);
        if char_is_ws(c) {
            j += 1;
        } else if c == '/' && j + 1 < n && s.get_char(j + 1) == '/' {
            j = line_end(s, j + 2, n);
        } else if c == '/' && j + 1 < n && s.get_char(j + 1) == '*' {
            match block_end(s, j + 2, n) {
                Some(e) => {
                    proof {
                        lemma_skip_block_bounds(s@, j as int + 2, 1);
                    }
                    j = e;
                },
                None => {
                    return j;
                },
            }
        } else {
            return j;
        }
    }
}

/// The end of the optional struct name starting at `i`.
fn ident_skip(s: &str, i: usize, n: usize) -> (r: usize)
    requires
        n == s@.len(),
        i <= n,
    ensures
        r as int == ident_end(s@, i as int),
        i <= r <= n,
{
    if i >= n {
        return i;
    }
    let c = s.get_char(i);
    if !char_is_ident_start(c) {
        return i;
    }
    let mut j = i + 1;
    while j < n
        invariant
            i + 1 <= j <= n,
            i < n,
            n == s@.len(),
            is_ident_start(s@[i as int]),
            ident_scan(s@, i as int + 1) == ident_scan(s@, j as int),
        decreases n - j,
    {
        let c2 = s.get_char(j);
        if !char_is_ident_char(c2) {
            return j;
        }
        j += 1;
    }
    j
}

/// The value and end of the string literal opened just before `start`.
fn parse_string_exec(s: &str, start: usize, n: usize) -> (r: Result<(Vec<char>, usize), ()>)
    requires
        n == s@.len(),
        start <= n,
    ensures
        match r {
            Ok((chars, end)) => parse_string(s@, start as int) == Some((chars@, end as int))
                && start < end <= n,
            Err(_) => parse_string(s@, start as int) is None,
        },
{
    let mut acc: Vec<char> = Vec::new();
    let mut cur = start;
    loop
        invariant
            start <= cur <= n,
            n == s@.len(),
            parse_string(s@, start as int) == match parse_string(s@, cur as int) {
                Some((rest, e)) => Some((acc@ + rest, e)),
                None => None::<(Seq<char>, int)>,
            },
        decreases n - cur,
    {
        if cur >= n {
            return Err(());
        }
        let c = s.get_char(cur);
        if c == '"' {
            proof {
                assert(acc@ + Seq::<char>::empty() =~= acc@);
            }
            return Ok((acc, cur + 1));
        }
        let ghost prev = acc@;
        if c == '\\' {
            if cur + 1 >= n {
                return Err(());
            }
            let esc = s.get_char(cur + 1);
            let ch = match unescape(esc) {
                Some(ch) => ch,
                None => { return Err(()); },
            };
            acc.push(ch);
            proof {
                assert forall|rest: Seq<char>| true implies prev + (seq![ch] + rest) =~= acc@
                    + rest by {}
            }
            cur += 2;
        } else {
            acc.push(c);
            proof {
                assert forall|rest: Seq<char>| true implies prev + (seq![c] + rest) =~= acc@
                    + rest by {}
            }
            cur += 1;
        }
    }
}

/// The list items, starting just inside the brackets.
fn parse_items_exec(s: &str, start: usize, n: usize) -> (r: Result<(Vec<String>, usize), ()>)
    requires
        n == s@.len(),
        start <= n,
    ensures
        match r {
            Ok((items, end)) => parse_items(s@, start as int) == Some(
                (strings_view(items@), end as int),
            ) && end <= n,
            Err(_) => parse_items(s@, start as int) is None,
        },
{
    let mut acc: Vec<String> = Vec::new();
    let mut cur = start;
    loop
        invariant
            cur <= n,
            n == s@.len(),
            parse_items(s@, start as int) == match parse_items(s@, cur as int) {
                Some((rest, e)) => Some((strings_view(acc@) + rest, e)),
                None => None::<(Seq<Seq<char>>, int)>,
            },
        decreases n - cur,
    {
        let j = ws_end(s, cur, n);
        if j >= n {
            return Err(());
        }
        let c = s.get_char(j);
        if c == ']' {
            proof {
                assert(parse_items(s@, cur as int) == Some(
                    (Seq::<Seq<char>>::empty(), j as int + 1),
                ));
                assert(strings_view(acc@) + Seq::<Seq<char>>::empty() =~= strings_view(acc@));
            }
            return Ok((acc, j + 1));
        }
        if c != '"' {
            return Err(());
        }
        let (chars, p) = match parse_string_exec(s, j + 1, n) {
            Ok(t) => t,
            Err(()) => { return Err(()); },
        };
        let item = chars_to_string(&chars);
        let k = ws_end(s, p, n);
        if k >= n {
            return Err(());
        }
        let c2 = s.get_char(k);
        let ghost prev_acc = acc@;
        let ghost item_view = item@;
        if c2 == ',' {
            acc.push(item);
            proof {
                assert(strings_view(acc@) =~= strings_view(prev_acc).push(item_view));
                assert(parse_items(s@, cur as int) == match parse_items(s@, k as int + 1) {
                    Some((rest, e)) => Some((seq![item_view] + rest, e)),
                    None => None::<(Seq<Seq<char>>, int)>,
                });
                assert forall|rest: Seq<Seq<char>>|
                    true implies strings_view(prev_acc) + (seq![item_view] + rest) =~= strings_view(
                    acc@,
                ) + rest by {}
            }
            cur = k + 1;
        } else if c2 == ']' {
            acc.push(item);
            proof {
                assert(parse_items(s@, cur as int) == Some((seq![item_view], k as int + 1)));
                assert(strings_view(acc@) =~= strings_view(prev_acc) + seq![item_view]);
            }
            return Ok((acc, k + 1));
        } else {
            return Err(());
        }
    }
}

/// Parses a build descriptor.
///
/// Succeeds with exactly the source list the descriptor text means, and
/// fails with a parse error on every malformed text, before any loading.
pub fn parse_build_config(text: &str) -> (r: Result<BuildLoaderConfig, BuildLoaderError>)
    ensures
        match r {
            Ok(cfg) => parse_config_model(text@) == Some(strings_view(cfg.textures@)),
            Err(e) => e is ConfigParse && parse_config_model(text@) is None,
        },
{
    let n = text.unicode_len();
    let a = ws_end(text, 0, n);
    let b = ident_skip(text, a, n);
    let i0 = ws_end(text, b, n);
    if i0 >= n || text.get_char(i0) != '(' {
        return Err(BuildLoaderError::ConfigParse);
    }
    let i1 = ws_end(text, i0 + 1, n);
    if n - i1 < 8 {
        return Err(BuildLoaderError::ConfigParse);
    }
    let kw = "textures";
    proof {
        reveal_strlit("textures");
    }
    let mut k: usize = 0;
    while k < 8
        invariant
            k <= 8,
            n == text@.len(),
            i1 + 8 <= n,
            i0 < n,
            skip_ws(text@, 0) == a as int,
            ident_end(text@, a as int) == b as int,
            skip_ws(text@, b as int) == i0 as int,
            text@[i0 as int] == '(',
            skip_ws(text@, i0 as int + 1) == i1 as int,
            kw@ == "textures"@,
            kw@.len() == 8,
            forall|m: int| 0 <= m < k ==> text@[i1 + m] == "textures"@[m],
        decreases 8 - k,
    {
        let c = text.get_char(i1 + k);
        let e = kw.get_char(k);
        if c != e {
            proof {
                let sub = text@.subrange(i1 as int, i1 as int + 8);
                assert(sub[k as int] == text@[i1 + k]);
                assert(sub != "textures"@) by {
                    if sub == "textures"@ {
                        assert(sub[k as int] == "textures"@[k as int]);
                    }
                }
            }
            return Err(BuildLoaderError::ConfigParse);
        }
        k += 1;
    }
    proof {
        assert(text@.subrange(i1 as int, i1 as int + 8) =~= "textures"@);
    }
    let i2 = ws_end(text, i1 + 8, n);
    if i2 >= n || text.get_char(i2) != ':' {
        return Err(BuildLoaderError::ConfigParse);
    }
    let i3 = ws_end(text, i2 + 1, n);
    if i3 >= n || text.get_char(i3) != '[' {
        return Err(BuildLoaderError::ConfigParse);
    }
    let (items, end) = match parse_items_exec(text, i3 + 1, n) {
        Ok(t) => t,
        Err(()) => { return Err(BuildLoaderError::ConfigParse); },
    };
    let i4 = ws_end(text, end, n);
    let i5 = if i4 < n && text.get_char(i4) == ',' {
        ws_end(text, i4 + 1, n)
    } else {
        i4
    };
    if i5 >= n || text.get_char(i5) != ')' {
        return Err(BuildLoaderError::ConfigParse);
    }
    let i6 = ws_end(text, i5 + 1, n);
    if i6 < n {
        return Err(BuildLoaderError::ConfigParse);
    }
    Ok(BuildLoaderConfig { textures: items })
}

} // verus!
