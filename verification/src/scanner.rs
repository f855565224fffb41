//! Readers over the character stream of a source file: reading up to a
//! delimiter, line and block comments, and the raw statements of a body.
//! Each reader returns what it read and leaves the stream after it; its spec
//! function gives both, the rest of the input being the second component.

use vstd::prelude::*;
use crate::cursor::CharStream;
use crate::formatter::{collapse_and_trim, trim_spec};
use crate::text::{trim_seq, trim_chars, chars_of, chars_eq_str, concat, string_from_chars};
use crate::structures::Statement;
use crate::statements::{Lines, lines_v};
use crate::pattern::{is_match, regex_match};
use crate::patterns::STRUCT_INITIALIZER;
use crate::types::{capture_or_empty, group_or_empty};

verus! {

/// A newline becomes a space; every other character stays.
pub open spec fn flatten_char(c: char) -> char {
    if c == '\n' {
        ' '
    } else {
        c
    }
}

/// The characters before the first one that occurs in `until`, with newlines
/// as spaces, and what follows that delimiter (nothing when there is none).
pub open spec fn until_s(input: Seq<char>, until: Seq<char>) -> (Seq<char>, Seq<char>)
    decreases input.len(),
{
    if input.len() == 0 {
        (Seq::empty(), input)
    } else if until.contains(input[0]) {
        (Seq::empty(), input.drop_first())
    } else {
        let (b, rest) = until_s(input.drop_first(), until);
        (seq![flatten_char(input[0])] + b, rest)
    }
}

/// What `read_until` reads: the text up to the delimiter, whitespace runs
/// collapsed and the ends trimmed, and the input after the delimiter.
pub open spec fn read_until_s(input: Seq<char>, until: Seq<char>) -> (Seq<char>, Seq<char>) {
    (trim_spec(until_s(input, until).0), until_s(input, until).1)
}

/// Reads up to the first character of `until` and consumes it.
pub fn read_until(chars: &mut CharStream, until: &Vec<char>) -> (r: Vec<char>)
    ensures
        (r@, final(chars)@) == read_until_s(old(chars)@, until@),
        final(chars)@.len() <= old(chars)@.len(),
{
    let ghost input = chars@;
    let mut buffer: Vec<char> = Vec::new();
    loop
        invariant_except_break
            until_s(input, until@) == (buffer@ + until_s(chars@, until@).0, until_s(chars@, until@).1),
        invariant
            input == old(chars)@,
            chars@.len() <= input.len(),
        ensures
            until_s(input, until@) == (buffer@, chars@),
        decreases chars@.len(),
    {
        let ghost before = chars@;
        match chars.next() {
            None => {
                assert(buffer@ + Seq::<char>::empty() == buffer@);
                break;
            },
            Some(ch) => {
                if contains_char(until, ch) {
                    assert(buffer@ + Seq::<char>::empty() == buffer@);
                    break;
                }
                let ghost old_buffer = buffer@;
                if ch == '\n' {
                    buffer.push(' ');
                } else {
                    buffer.push(ch);
                }
                assert(old_buffer + until_s(before, until@).0 == buffer@ + until_s(chars@, until@).0);
            },
        }
    }
    collapse_and_trim(&buffer)
}

/// Whether `c` occurs in `v`.
pub fn contains_char(v: &Vec<char>, c: char) -> (r: bool)
    ensures
        r == v@.contains(c),
{
    let mut i: usize = 0;
    while i < v.len()
        invariant
            i <= v.len(),
            forall|j: int| 0 <= j < i ==> v@[j] != c,
        decreases v.len() - i,
    {
        if v[i] == c {
            assert(v@[i as int] == c);
            return true;
        }
        i = i + 1;
    }
    false
}

/// The rest of a line comment after its `//`: a third `/` right after them is
/// skipped; at the newline the text is trimmed, at the end of the input it
/// is kept as read.
pub open spec fn comment_loop(input: Seq<char>, buffer: Seq<char>, reading: bool) -> (
    Seq<char>,
    Seq<char>,
)
    decreases input.len(),
{
    if input.len() == 0 {
        (buffer, input)
    } else {
        let ch = input[0];
        if ch == '/' && !reading {
            comment_loop(input.drop_first(), buffer, true)
        } else if ch == '\n' {
            (trim_seq(buffer), input.drop_first())
        } else {
            comment_loop(input.drop_first(), buffer.push(ch), true)
        }
    }
}

/// Reads a line comment after its `//`, up to and including the newline.
pub fn parse_comment(chars: &mut CharStream) -> (r: Vec<char>)
    ensures
        (r@, final(chars)@) == comment_loop(old(chars)@, Seq::empty(), false),
        final(chars)@.len() <= old(chars)@.len(),
{
    let ghost input = chars@;
    let mut buffer: Vec<char> = Vec::new();
    let mut reading = false;
    loop
        invariant
            input == old(chars)@,
            chars@.len() <= input.len(),
            comment_loop(input, Seq::empty(), false) == comment_loop(chars@, buffer@, reading),
        decreases chars@.len(),
    {
        match chars.next() {
            None => {
                return buffer;
            },
            Some(ch) => {
                if ch == '/' && !reading {
                    reading = true;
                } else if ch == '\n' {
                    return trim_chars(&buffer);
                } else {
                    buffer.push(ch);
                    reading = true;
                }
            },
        }
    }
}


/// The state of the reader of a block comment.
pub struct BlockCommentState {
    pub comments: Seq<Seq<char>>,
    pub buffer: Seq<char>,
    pub reading: bool,
    pub new_line: bool,
    pub asterisk: bool,
}

/// The comment lines read so far, with the line in `buffer` added when it is
/// not blank; each line is trimmed and starts with a space.
pub open spec fn with_line(comments: Seq<Seq<char>>, buffer: Seq<char>) -> Seq<Seq<char>> {
    if trim_seq(buffer).len() == 0 {
        comments
    } else {
        comments.push(seq![' '] + trim_seq(buffer))
    }
}

/// One character of a block comment: its `*/` ends it, each line becomes a
/// comment line, and the `*` that starts a line is skipped.
pub open spec fn block_comment_step(st: BlockCommentState, ch: char) -> BlockCommentState {
    let reading = st.reading;
    let new_line = st.new_line;
    let next = if ch == '*' && !reading {
        BlockCommentState { reading: true, asterisk: false, ..st }
    } else if ch == '*' && new_line {
        BlockCommentState { new_line: false, asterisk: false, ..st }
    } else if ch == '\n' {
        if trim_seq(st.buffer).len() == 0 {
            BlockCommentState { new_line: true, asterisk: false, ..st }
        } else {
            BlockCommentState {
                comments: with_line(st.comments, st.buffer),
                buffer: Seq::empty(),
                new_line: true,
                asterisk: false,
                ..st
            }
        }
    } else if !reading {
        BlockCommentState { buffer: st.buffer.push(ch), reading: true, asterisk: false, ..st }
    } else if ch == ' ' && new_line {
        BlockCommentState { asterisk: false, ..st }
    } else if new_line {
        BlockCommentState { buffer: st.buffer.push(ch), new_line: false, asterisk: false, ..st }
    } else {
        BlockCommentState { buffer: st.buffer.push(ch), asterisk: false, ..st }
    };
    BlockCommentState { asterisk: ch == '*', ..next }
}

/// The lines of a block comment read from `input`, and the input after its
/// closing `*/`.
pub open spec fn block_comment_loop(input: Seq<char>, st: BlockCommentState) -> (Seq<Seq<char>>, Seq<char>)
    decreases input.len(),
{
    if input.len() == 0 {
        (st.comments, input)
    } else if input[0] == '/' && st.asterisk {
        (with_line(st.comments, st.buffer), input.drop_first())
    } else {
        block_comment_loop(input.drop_first(), block_comment_step(st, input[0]))
    }
}

/// The state at the start of a block comment.
pub open spec fn block_comment_start() -> BlockCommentState {
    BlockCommentState { comments: Seq::empty(), buffer: Seq::empty(), reading: false, new_line: false, asterisk: false }
}

/// A space followed by the trimmed `buffer`, added to `comments` unless blank.
fn push_line(comments: &mut Vec<Vec<char>>, buffer: &Vec<char>)
    ensures
        chars_seqs(final(comments)@) == with_line(chars_seqs(old(comments)@), buffer@),
{
    let t = trim_chars(buffer);
    if t.len() > 0 {
        let mut line: Vec<char> = Vec::new();
        line.push(' ');
        let mut i: usize = 0;
        while i < t.len()
            invariant
                i <= t.len(),
                line@ == seq![' '] + t@.subrange(0, i as int),
            decreases t.len() - i,
        {
            line.push(t[i]);
            i = i + 1;
        }
        assert(t@.subrange(0, t@.len() as int) == t@);
        let ghost before = chars_seqs(comments@);
        comments.push(line);
        assert(chars_seqs(comments@) =~= before.push(line@));
    }
}

/// The views of a vector of character vectors.
pub open spec fn chars_seqs(v: Seq<Vec<char>>) -> Seq<Seq<char>> {
    v.map_values(|x: Vec<char>| x@)
}

/// Reads a block comment after its `/*`, up to and including its `*/`.
pub fn parse_multiline_comment(chars: &mut CharStream) -> (r: Vec<Vec<char>>)
    ensures
        (chars_seqs(r@), final(chars)@) == block_comment_loop(old(chars)@, block_comment_start()),
        final(chars)@.len() <= old(chars)@.len(),
{
    let ghost input = chars@;
    let mut comments: Vec<Vec<char>> = Vec::new();
    let mut buffer: Vec<char> = Vec::new();
    let mut reading = false;
    let mut new_line = false;
    let mut asterisk = false;
    assert(chars_seqs(comments@) =~= Seq::<Seq<char>>::empty());
    loop
        invariant
            input == old(chars)@,
            chars@.len() <= input.len(),
            block_comment_loop(input, block_comment_start()) == block_comment_loop(
                chars@,
                BlockCommentState { comments: chars_seqs(comments@), buffer: buffer@, reading, new_line, asterisk },
            ),
        decreases chars@.len(),
    {
        let ch = match chars.next() {
            None => {
                return comments;
            },
            Some(c) => c,
        };
        if ch == '/' && asterisk {
            push_line(&mut comments, &buffer);
            return comments;
        }
        if ch == '*' && !reading {
            reading = true;
        } else if ch == '*' && new_line {
            new_line = false;
        } else if ch == '\n' {
            if trim_chars(&buffer).len() > 0 {
                push_line(&mut comments, &buffer);
                buffer = Vec::new();
            }
            new_line = true;
        } else if !reading {
            buffer.push(ch);
            reading = true;
        } else if ch == ' ' && new_line {
        } else if new_line {
            buffer.push(ch);
            new_line = false;
        } else {
            buffer.push(ch);
        }
        asterisk = ch == '*';
    }
}


/// Where the body reader stands with respect to an `assembly` block: each
/// line of such a block is a statement of its own.
#[derive(Debug, Clone, Copy, PartialEq, Eq, Structural)]
pub enum BodyMode {
    Plain,
    AssemblyStart,
    Assembly,
}

/// The state of the body reader: the statements read, the text of the one
/// being read, and how many more braces were opened than closed.
pub struct BodyState {
    pub statements: Seq<Seq<char>>,
    pub buffer: Seq<char>,
    pub depth: int,
    pub mode: BodyMode,
}

/// A statement ends an assembly line block.
pub open spec fn after_statement(mode: BodyMode) -> BodyMode {
    if mode == BodyMode::Assembly {
        BodyMode::Plain
    } else {
        mode
    }
}

/// The state at the start of a body, after its `{`.
pub open spec fn body_start() -> BodyState {
    BodyState { statements: Seq::empty(), buffer: Seq::empty(), depth: 1, mode: BodyMode::Plain }
}

/// Each line of a block comment as a line comment statement.
pub open spec fn comment_statements(lines: Seq<Seq<char>>) -> Seq<Seq<char>> {
    lines.map_values(|c: Seq<char>| "// "@ + c)
}

/// The raw statements of a body read from `input` up to the `}` that closes
/// it, and the input after that `}`. A `;`, `{` or `}` ends a statement; a
/// statement ending in `({` runs to the next `;`; `for` reads its header up
/// to the `{`; comments become statements that start with `//`.
pub open spec fn body_loop(input: Seq<char>, st: BodyState) -> (Seq<Seq<char>>, Seq<char>)
    decreases input.len(),
{
    if input.len() == 0 {
        (st.statements, input)
    } else {
        let ch = input[0];
        let rest = input.drop_first();
        let depth = if ch == '{' {
            st.depth + 1
        } else if ch == '}' {
            st.depth - 1
        } else {
            st.depth
        };
        if ch == '\n' {
            let next = match st.mode {
                BodyMode::AssemblyStart => BodyState { mode: BodyMode::Assembly, depth, ..st },
                BodyMode::Assembly => BodyState {
                    statements: st.statements.push(st.buffer),
                    buffer: Seq::empty(),
                    depth,
                    ..st
                },
                BodyMode::Plain => BodyState { buffer: st.buffer.push(' '), depth, ..st },
            };
            body_loop(rest, next)
        } else if ch == ';' || ch == '}' || ch == '{' {
            let buffer = st.buffer.push(ch);
            if depth == 0 {
                (st.statements, rest)
            } else if regex_match(STRUCT_INITIALIZER@, buffer) {
                let left = group_or_empty(STRUCT_INITIALIZER@, buffer, "code"@);
                let (right, rest2) = read_until_s(rest, seq![';']);
                let next = BodyState {
                    statements: st.statements.push(left + "({"@ + right),
                    buffer: Seq::empty(),
                    depth: depth - 1,
                    mode: after_statement(st.mode),
                };
                if rest2.len() < input.len() {
                    body_loop(rest2, next)
                } else {
                    (next.statements, rest2)
                }
            } else {
                body_loop(
                    rest,
                    BodyState {
                        statements: st.statements.push(buffer),
                        buffer: Seq::empty(),
                        depth,
                        mode: after_statement(st.mode),
                    },
                )
            }
        } else if ch == '/' {
            if rest.len() == 0 {
                (st.statements, rest)
            } else if rest[0] == '/' {
                let (c, rest2) = comment_loop(rest.drop_first(), Seq::empty(), false);
                let next = BodyState { statements: st.statements.push("// "@ + c), depth, ..st };
                if rest2.len() < input.len() {
                    body_loop(rest2, next)
                } else {
                    (next.statements, rest2)
                }
            } else if rest[0] == '*' {
                let (cs, rest2) = block_comment_loop(rest.drop_first(), block_comment_start());
                let next = BodyState { statements: st.statements + comment_statements(cs), depth, ..st };
                if rest2.len() < input.len() {
                    body_loop(rest2, next)
                } else {
                    (next.statements, rest2)
                }
            } else {
                body_loop(rest.drop_first(), BodyState { buffer: st.buffer.push('/').push(rest[0]), depth, ..st })
            }
        } else {
            let buffer = st.buffer.push(ch);
            let t = trim_spec(buffer);
            if t == "assembly"@ {
                body_loop(rest, BodyState { buffer, depth, mode: BodyMode::AssemblyStart, ..st })
            } else if t == "for"@ {
                let (header, rest2) = read_until_s(rest, seq!['{']);
                let next = BodyState {
                    statements: st.statements.push("for"@ + header + "{"@),
                    buffer: Seq::empty(),
                    depth: depth + 1,
                    ..st
                };
                if rest2.len() < input.len() {
                    body_loop(rest2, next)
                } else {
                    (next.statements, rest2)
                }
            } else {
                body_loop(rest, BodyState { buffer, depth, ..st })
            }
        }
    }
}

/// Raw statements, one for each line.
pub open spec fn raw_lines(lines: Seq<Seq<char>>) -> Lines {
    lines.map_values(|l: Seq<char>| Some(l))
}

proof fn lemma_push_raw(items: Seq<Statement>, lines: Seq<Seq<char>>, s: String)
    requires
        lines_v(items) == raw_lines(lines),
    ensures
        lines_v(items.push(Statement::Raw(s))) == raw_lines(lines.push(s@)),
{
    let t = items.push(Statement::Raw(s));
    let a = lines_v(t);
    let b = raw_lines(lines.push(s@));
    assert(lines_v(items).len() == items.len());
    assert(raw_lines(lines).len() == lines.len());
    assert(items.len() == lines.len());
    assert(a.len() == b.len());
    assert forall|i: int| 0 <= i < a.len() implies a[i] == b[i] by {
        if i < items.len() {
            assert(t[i] == items[i]);
            assert(lines_v(items)[i] == raw_lines(lines)[i]);
        } else {
            assert(t[i] == Statement::Raw(s));
        }
    }
    assert(a =~= b);
}

fn push_raw(items: &mut Vec<Statement>, text: &Vec<char>, Ghost(lines): Ghost<Seq<Seq<char>>>)
    requires
        lines_v(old(items)@) == raw_lines(lines),
    ensures
        lines_v(final(items)@) == raw_lines(lines.push(text@)),
{
    let s = string_from_chars(text);
    proof {
        lemma_push_raw(items@, lines, s);
    }
    items.push(Statement::Raw(s));
}

fn prefixed(prefix: &str, text: &Vec<char>) -> (r: Vec<char>)
    ensures
        r@ == prefix@ + text@,
{
    concat(&chars_of(prefix), text)
}

/// Reads the raw statements of a body after its `{`, up to and including
/// the `}` that closes it.
pub fn parse_body(chars: &mut CharStream) -> (r: Vec<Statement>)
    ensures
        lines_v(r@) == raw_lines(body_loop(old(chars)@, body_start()).0),
        final(chars)@ == body_loop(old(chars)@, body_start()).1,
        final(chars)@.len() <= old(chars)@.len(),
{
    let ghost input = chars@;
    chars.len_bound();
    let mut statements: Vec<Statement> = Vec::new();
    let ghost mut lines: Seq<Seq<char>> = Seq::empty();
    let mut buffer: Vec<char> = Vec::new();
    let mut depth: i128 = 1;
    let mut mode = BodyMode::Plain;
    assert(lines_v(statements@) =~= raw_lines(lines));
    proof {
        reveal_strlit("// ");
        reveal_strlit("({");
        reveal_strlit("for");
        reveal_strlit("{");
    }
    loop
        invariant
            input == old(chars)@,
            input.len() <= usize::MAX,
            chars@.len() <= input.len(),
            -2 * (input.len() - chars@.len()) <= depth <= 2 * (input.len() - chars@.len()) + 1,
            lines_v(statements@) == raw_lines(lines),
            body_loop(input, body_start()) == body_loop(
                chars@,
                BodyState { statements: lines, buffer: buffer@, depth: depth as int, mode },
            ),
        decreases chars@.len(),
    {
        let ghost before = chars@;
        let ch = match chars.next() {
            None => {
                return statements;
            },
            Some(c) => c,
        };
        if ch == '{' {
            depth = depth + 1;
        } else if ch == '}' {
            depth = depth - 1;
        }
        if ch == '\n' {
            match mode {
                BodyMode::AssemblyStart => {
                    mode = BodyMode::Assembly;
                },
                BodyMode::Assembly => {
                    push_raw(&mut statements, &buffer, Ghost(lines));
                    proof {
                        lines = lines.push(buffer@);
                    }
                    buffer = Vec::new();
                },
                BodyMode::Plain => {
                    buffer.push(' ');
                },
            }
        } else if ch == ';' || ch == '}' || ch == '{' {
            buffer.push(ch);
            if depth == 0 {
                return statements;
            }
            if is_match(STRUCT_INITIALIZER, &buffer) {
                let left = capture_or_empty(STRUCT_INITIALIZER, &buffer, "code");
                let mut semicolon: Vec<char> = Vec::new();
                semicolon.push(';');
                let right = read_until(chars, &semicolon);
                let line = concat(&concat(&left, &chars_of("({")), &right);
                push_raw(&mut statements, &line, Ghost(lines));
                proof {
                    lines = lines.push(line@);
                }
                depth = depth - 1;
            } else {
                push_raw(&mut statements, &buffer, Ghost(lines));
                proof {
                    lines = lines.push(buffer@);
                }
            }
            if mode == BodyMode::Assembly {
                mode = BodyMode::Plain;
            }
            buffer = Vec::new();
        } else if ch == '/' {
            let ghost after_slash = chars@;
            match chars.next() {
                None => {
                    return statements;
                },
                Some(next) => {
                    if next == '/' {
                        let c = parse_comment(chars);
                        let line = prefixed("// ", &c);
                        push_raw(&mut statements, &line, Ghost(lines));
                        proof {
                            lines = lines.push(line@);
                        }
                    } else if next == '*' {
                        let cs = parse_multiline_comment(chars);
                        let ghost start_lines = lines;
                        let mut k: usize = 0;
                        while k < cs.len()
                            invariant
                                k <= cs.len(),
                                lines_v(statements@) == raw_lines(lines),
                                lines == start_lines + comment_statements(chars_seqs(cs@).subrange(0, k as int)),
                            decreases cs.len() - k,
                        {
                            let line = prefixed("// ", &cs[k]);
                            push_raw(&mut statements, &line, Ghost(lines));
                            proof {
                                let old_lines = lines;
                                lines = lines.push(line@);
                                assert(comment_statements(chars_seqs(cs@).subrange(0, k + 1)) =~= comment_statements(
                                    chars_seqs(cs@).subrange(0, k as int),
                                ).push(line@));
                            }
                            k = k + 1;
                        }
                        assert(chars_seqs(cs@).subrange(0, cs@.len() as int) =~= chars_seqs(cs@));
                    } else {
                        buffer.push('/');
                        buffer.push(next);
                    }
                },
            }
        } else {
            buffer.push(ch);
            let t = collapse_and_trim(&buffer);
            if chars_eq_str(&t, "assembly") {
                mode = BodyMode::AssemblyStart;
            } else if chars_eq_str(&t, "for") {
                depth = depth + 1;
                let mut brace: Vec<char> = Vec::new();
                brace.push('{');
                let header = read_until(chars, &brace);
                let line = concat(&prefixed("for", &header), &chars_of("{"));
                push_raw(&mut statements, &line, Ghost(lines));
                proof {
                    lines = lines.push(line@);
                }
                buffer = Vec::new();
            }
        }
    }
}


/// Reading up to a delimiter consumes the text before it and the delimiter,
/// and leaves what follows.
pub proof fn lemma_until_skip(text: Seq<char>, d: char, rest: Seq<char>, until: Seq<char>)
    requires
        until.contains(d),
        forall|i: int| 0 <= i < text.len() ==> !until.contains(#[trigger] text[i]),
    ensures
        until_s(text + seq![d] + rest, until).1 == rest,
    decreases text.len(),
{
    let input = text + seq![d] + rest;
    if text.len() == 0 {
        assert(input[0] == d);
        assert(input.drop_first() =~= rest);
    } else {
        assert(input[0] == text[0]);
        assert(input.drop_first() =~= text.drop_first() + seq![d] + rest);
        assert forall|i: int| 0 <= i < text.drop_first().len() implies !until.contains(#[trigger] text.drop_first()[i]) by {
            assert(text.drop_first()[i] == text[i + 1]);
        }
        lemma_until_skip(text.drop_first(), d, rest, until);
    }
}

} // verus!
