//! Text as sequences of characters: white space, trimming, lines, and the
//! lines of a key list.
use vstd::prelude::*;

verus! {

/// The characters with the Unicode property `White_Space`.
pub open spec fn white_space(c: char) -> bool {
    let u = c as u32;
    ||| 0x09 <= u <= 0x0d
    ||| u == 0x20
    ||| u == 0x85
    ||| u == 0xa0
    ||| u == 0x1680
    ||| 0x2000 <= u <= 0x200a
    ||| u == 0x2028
    ||| u == 0x2029
    ||| u == 0x202f
    ||| u == 0x205f
    ||| u == 0x3000
}

/// `s` without its leading white space.
pub open spec fn trimmed_start(s: Seq<char>) -> Seq<char>
    decreases s.len(),
{
    if s.len() > 0 && white_space(s.first()) {
        trimmed_start(s.drop_first())
    } else {
        s
    }
}

/// `s` without its trailing white space.
pub open spec fn trimmed_end(s: Seq<char>) -> Seq<char>
    decreases s.len(),
{
    if s.len() > 0 && white_space(s.last()) {
        trimmed_end(s.drop_last())
    } else {
        s
    }
}

/// `s` without the white space around it.
pub open spec fn trimmed(s: Seq<char>) -> Seq<char> {
    trimmed_end(trimmed_start(s))
}

/// The lines of `s`: a line feed closes one line and opens the next. There is
/// always at least one line, and the line feeds belong to none.
pub open spec fn lines(s: Seq<char>) -> Seq<Seq<char>>
    decreases s.len(),
{
    if s.len() == 0 {
        seq![Seq::empty()]
    } else if s.last() == '\n' {
        lines(s.drop_last()).push(Seq::empty())
    } else {
        let before = lines(s.drop_last());
        before.drop_last().push(before.last().push(s.last()))
    }
}

/// A line that holds a key: not blank, and no comment.
pub open spec fn holds_key(line: Seq<char>) -> bool {
    line.len() > 0 && line.first() != '#'
}

/// The keys that `lines` list, in order, with the white space around each
/// dropped.
pub open spec fn listed(lines: Seq<Seq<char>>) -> Seq<Seq<char>> {
    lines.map_values(|line: Seq<char>| trimmed(line)).filter(|line: Seq<char>| holds_key(line))
}

/// The keys listed in `s`, one to a line. Blank lines and lines that open
/// with `#` list nothing.
pub open spec fn key_lines(s: Seq<char>) -> Seq<Seq<char>> {
    listed(lines(s))
}

/// What a vector of strings says, string by string.
pub open spec fn views(strings: Seq<String>) -> Seq<Seq<char>> {
    strings.map_values(|s: String| s@)
}

/// One more line lists at most one more key.
pub proof fn lemma_listed_push(before: Seq<Seq<char>>, line: Seq<char>)
    ensures
        listed(before.push(line)) == if holds_key(trimmed(line)) {
            listed(before).push(trimmed(line))
        } else {
            listed(before)
        },
{
    reveal(Seq::filter);
    let trim_line = |line: Seq<char>| trimmed(line);
    let all = before.push(line).map_values(trim_line);
    assert(all.drop_last() == before.map_values(trim_line));
    assert(all.last() == trimmed(line));
}

/// Tests for white space.
pub fn is_white_space(c: char) -> (r: bool)
    ensures
        r == white_space(c),
{
    let u: u32 = c as u32;
    (0x09 <= u && u <= 0x0d) || u == 0x20 || u == 0x85 || u == 0xa0 || u == 0x1680 || (0x2000 <= u
        && u <= 0x200a) || u == 0x2028 || u == 0x2029 || u == 0x202f || u == 0x205f || u == 0x3000
}

/// Drops the white space around `s`.
pub fn trim(s: &str) -> (r: String)
    ensures
        r@ == trimmed(s@),
{
    let mut from: usize = 0;
    let mut to: usize = s.unicode_len();
    assert(s@.skip(0) == s@);
    while from < to && is_white_space(s.get_char(from))
        invariant
            from <= to,
            to == s@.len(),
            trimmed_start(s@) == trimmed_start(s@.skip(from as int)),
        ensures
            from <= to,
            to == s@.len(),
            trimmed_start(s@) == s@.skip(from as int),
        decreases to - from,
    {
        assert(s@.skip(from as int).drop_first() == s@.skip(from + 1));
        from = from + 1;
    }
    let ghost rest = s@.skip(from as int);
    assert(rest == s@.subrange(from as int, to as int));
    while from < to && is_white_space(s.get_char(to - 1))
        invariant
            from <= to <= s@.len(),
            trimmed_end(rest) == trimmed_end(s@.subrange(from as int, to as int)),
        ensures
            from <= to <= s@.len(),
            trimmed_end(rest) == s@.subrange(from as int, to as int),
        decreases to - from,
    {
        assert(s@.subrange(from as int, to as int).drop_last() == s@.subrange(
            from as int,
            to - 1,
        ));
        to = to - 1;
    }
    s.substring_char(from, to).to_string()
}

/// Adds the key that `line` lists, where it lists one, to the keys before it.
fn push_key(keys: &mut Vec<String>, line: &str)
    ensures
        views(final(keys)@) == if holds_key(trimmed(line@)) {
            views(old(keys)@).push(trimmed(line@))
        } else {
            views(old(keys)@)
        },
{
    let key = trim(line);
    let key_str = key.as_str();
    if key_str.unicode_len() > 0 && key_str.get_char(0) != '#' {
        keys.push(key);
        assert(views(keys@) == views(old(keys)@).push(trimmed(line@)));
    }
}

/// Lists the keys in `s`.
pub fn list_keys(s: &str) -> (keys: Vec<String>)
    ensures
        views(keys@) == key_lines(s@),
{
    let mut keys: Vec<String> = Vec::new();
    let mut start: usize = 0;
    let mut end: usize = 0;
    let length: usize = s.unicode_len();
    assert(views(keys@) == listed(lines(s@.take(0)).drop_last())) by {
        reveal(Seq::filter);
    }
    for c in chars: s.chars()
        invariant
            chars.seq() == s@,
            end == chars.index(),
            start <= end <= length,
            length == s@.len(),
            lines(s@.take(end as int)).len() > 0,
            lines(s@.take(end as int)).last() == s@.subrange(start as int, end as int),
            views(keys@) == listed(lines(s@.take(end as int)).drop_last()),
    {
        let ghost done = lines(s@.take(end as int));
        assert(s@.take(end + 1).drop_last() == s@.take(end as int));
        assert(s@.take(end + 1).last() == c);
        if c == '\n' {
            proof {
                lemma_listed_push(done.drop_last(), done.last());
                assert(done.drop_last().push(done.last()) == done);
                assert(done.push(Seq::empty()).drop_last() == done);
            }
            push_key(&mut keys, s.substring_char(start, end));
            start = end + 1;
        } else {
            assert(s@.subrange(start as int, end + 1) == s@.subrange(start as int, end as int).push(
                c,
            ));
            assert(lines(s@.take(end + 1)).drop_last() == done.drop_last());
        }
        end = end + 1;
    }
    proof {
        let done = lines(s@);
        assert(s@.take(end as int) == s@);
        lemma_listed_push(done.drop_last(), done.last());
        assert(done.drop_last().push(done.last()) == done);
    }
    push_key(&mut keys, s.substring_char(start, end));
    keys
}

/// Nothing but white space.
pub open spec fn blank(s: Seq<char>) -> bool {
    forall|i: int| 0 <= i < s.len() ==> white_space(#[trigger] s[i])
}

/// White space around a text does not change what is left of it when trimmed.
pub proof fn trim_ignores_blanks(before: Seq<char>, s: Seq<char>, after: Seq<char>)
    requires
        blank(before),
        blank(after),
    ensures
        trimmed(before + s + after) == trimmed(s),
{
    assert(before + s + after == before + (s + after));
    start_ignores_blanks(before, s + after);
    start_keeps_end(s, after);
    if blank(s) {
        start_ignores_blanks(s, Seq::empty());
        start_ignores_blanks(after, Seq::empty());
        assert(s + Seq::<char>::empty() == s);
        assert(after + Seq::<char>::empty() == after);
    } else {
        end_ignores_blanks(trimmed_start(s), after);
    }
}

/// Trimming a second time changes nothing.
pub proof fn trim_is_idempotent(s: Seq<char>)
    ensures
        trimmed(trimmed(s)) == trimmed(s),
{
    start_is_prefix_free(s);
    end_keeps_start(trimmed_start(s));
    let t = trimmed(s);
    end_is_suffix_free(trimmed_start(s));
    assert(trimmed_start(t) == t);
    assert(trimmed_end(t) == t);
}

/// Leading white space is dropped.
proof fn start_ignores_blanks(before: Seq<char>, s: Seq<char>)
    requires
        blank(before),
    ensures
        trimmed_start(before + s) == trimmed_start(s),
    decreases before.len(),
{
    if before.len() == 0 {
        assert(before + s == s);
    } else {
        assert((before + s).first() == before[0]);
        assert((before + s).drop_first() == before.drop_first() + s);
        assert(blank(before.drop_first())) by {
            assert forall|i: int| 0 <= i < before.drop_first().len() implies white_space(
                #[trigger] before.drop_first()[i],
            ) by {
                assert(before.drop_first()[i] == before[i + 1]);
            }
        }
        start_ignores_blanks(before.drop_first(), s);
    }
}

/// Trailing white space is dropped.
proof fn end_ignores_blanks(s: Seq<char>, after: Seq<char>)
    requires
        blank(after),
    ensures
        trimmed_end(s + after) == trimmed_end(s),
    decreases after.len(),
{
    if after.len() == 0 {
        assert(s + after == s);
    } else {
        assert((s + after).last() == after[after.len() - 1]);
        assert((s + after).drop_last() == s + after.drop_last());
        assert(blank(after.drop_last())) by {
            assert forall|i: int| 0 <= i < after.drop_last().len() implies white_space(
                #[trigger] after.drop_last()[i],
            ) by {
                assert(after.drop_last()[i] == after[i]);
            }
        }
        end_ignores_blanks(s, after.drop_last());
    }
}

/// What follows a text that is not blank is no leading white space.
proof fn start_keeps_end(s: Seq<char>, after: Seq<char>)
    ensures
        trimmed_start(s + after) == if blank(s) {
            trimmed_start(after)
        } else {
            trimmed_start(s) + after
        },
    decreases s.len(),
{
    if blank(s) {
        start_ignores_blanks(s, after);
    } else {
        assert((s + after).first() == s.first());
        if white_space(s.first()) {
            let rest = s.drop_first();
            assert((s + after).drop_first() == rest + after);
            assert(!blank(rest)) by {
                let i = choose|i: int| 0 <= i < s.len() && !white_space(#[trigger] s[i]);
                assert(rest[i - 1] == s[i]);
            }
            start_keeps_end(rest, after);
        }
    }
}

/// No leading white space is left.
proof fn start_is_prefix_free(s: Seq<char>)
    ensures
        trimmed_start(s).len() > 0 ==> !white_space(trimmed_start(s).first()),
    decreases s.len(),
{
    if s.len() > 0 && white_space(s.first()) {
        start_is_prefix_free(s.drop_first());
    }
}

/// No trailing white space is left.
proof fn end_is_suffix_free(s: Seq<char>)
    ensures
        trimmed_end(s).len() > 0 ==> !white_space(trimmed_end(s).last()),
    decreases s.len(),
{
    if s.len() > 0 && white_space(s.last()) {
        end_is_suffix_free(s.drop_last());
    }
}

/// Dropping trailing white space keeps the beginning.
proof fn end_keeps_start(s: Seq<char>)
    ensures
        trimmed_end(s).is_prefix_of(s),
        trimmed_end(s).len() > 0 ==> trimmed_end(s).first() == s.first(),
    decreases s.len(),
{
    if s.len() > 0 && white_space(s.last()) {
        end_keeps_start(s.drop_last());
        let t = trimmed_end(s);
        assert forall|i: int| 0 <= i < t.len() implies t[i] == s[i] by {
            assert(s.drop_last()[i] == s[i]);
        }
    }
}

/// Two lists of keys, one below the other, list the keys of both.
pub proof fn key_lists_join(above: Seq<char>, below: Seq<char>)
    ensures
        key_lines(above.push('\n') + below) == key_lines(above) + key_lines(
            below,
        ),
{
    lines_join(above, below);
    let trim_line = |line: Seq<char>| trimmed(line);
    let first = lines(above);
    let second = lines(below);
    assert((first + second).map_values(trim_line) == first.map_values(trim_line)
        + second.map_values(trim_line));
    Seq::filter_distributes_over_add(
        first.map_values(trim_line),
        second.map_values(trim_line),
        |line: Seq<char>| holds_key(line),
    );
}

/// A blank line, or a comment, lists no key.
pub proof fn blanks_and_comments_list_nothing(line: Seq<char>, below: Seq<char>)
    requires
        !line.contains('\n'),
        !holds_key(trimmed(line)),
    ensures
        key_lines(line.push('\n') + below) == key_lines(below),
{
    key_lists_join(line, below);
    one_line(line);
    lemma_listed_push(Seq::empty(), line);
    assert(Seq::<Seq<char>>::empty().push(line) == seq![line]);
    reveal(Seq::filter);
    assert(listed(Seq::empty()) == Seq::<Seq<char>>::empty());
}

/// The lines of two texts, one below the other, are the lines of both.
proof fn lines_join(above: Seq<char>, below: Seq<char>)
    ensures
        lines(above.push('\n') + below) == lines(above) + lines(below),
    decreases below.len(),
{
    let whole = above.push('\n') + below;
    lines_not_empty(below);
    if below.len() == 0 {
        assert(whole.drop_last() == above);
        assert(whole.last() == '\n');
    } else {
        lines_join(above, below.drop_last());
        lines_not_empty(below.drop_last());
        assert(whole.drop_last() == above.push('\n') + below.drop_last());
        assert(whole.last() == below.last());
    }
}

/// There is always a line.
proof fn lines_not_empty(s: Seq<char>)
    ensures
        lines(s).len() > 0,
    decreases s.len(),
{
    if s.len() > 0 {
        lines_not_empty(s.drop_last());
    }
}

/// A text without a line feed is one line.
pub proof fn one_line(s: Seq<char>)
    requires
        !s.contains('\n'),
    ensures
        lines(s) == seq![s],
    decreases s.len(),
{
    if s.len() > 0 {
        assert(s.last() == s[s.len() - 1]);
        assert forall|i: int| 0 <= i < s.drop_last().len() implies s.drop_last()[i] != '\n' by {
            assert(s.drop_last()[i] == s[i]);
        }
        one_line(s.drop_last());
        assert(s.drop_last().push(s.last()) == s);
    } else {
        assert(s == Seq::<char>::empty());
    }
}

} // verus!
