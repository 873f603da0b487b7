//! Reader identities: the bare name of a reader and the generic arguments
//! that its identity carries.
//!
//! An identity has the shape `Namespace.Reader` or
//! `` Namespace.Reader`2[[Arg1, Assembly],[Arg2, Assembly]] ``. The bare name
//! is what stands before the first backtick or comma. The arguments are the
//! bracketed spans one level inside the outer brackets of what follows the
//! first backtick, each cut at its first comma that no bracket encloses.

use vstd::prelude::*;

use crate::error::{Error, ErrorView};
use crate::varint::{push_char, str_eq};

verus! {

/// What a character adds to the bracket depth.
pub open spec fn bracket_step(c: char) -> int {
    if c == '[' {
        1
    } else if c == ']' {
        -1
    } else {
        0
    }
}

/// The bracket depth behind the first `n` characters of `s`: the opening
/// brackets among them less the closing ones.
pub open spec fn depth(s: Seq<char>, n: int) -> int
    decreases n,
{
    if n <= 0 {
        0
    } else {
        depth(s, n - 1) + bracket_step(s[n - 1])
    }
}

/// The brackets of `s` balance: no prefix closes more than it opens, and the
/// whole closes all it opens.
pub open spec fn balanced(s: Seq<char>) -> bool {
    &&& forall|n: int| 0 <= n <= s.len() ==> depth(s, n) >= 0
    &&& depth(s, s.len() as int) == 0
}

/// The index just behind the last bracket among the first `n` characters of
/// `s` that opens an argument, that is, opens at depth one; zero if there is
/// none.
pub open spec fn last_open(s: Seq<char>, n: int) -> int
    decreases n,
{
    if n <= 0 {
        0
    } else if s[n - 1] == '[' && depth(s, n - 1) == 1 {
        n
    } else {
        last_open(s, n - 1)
    }
}

/// The index, from `from` on, of the first comma of `span` that no bracket
/// of `span` encloses; the length of `span` if there is none.
pub open spec fn top_comma_from(span: Seq<char>, from: int) -> int
    decreases span.len() - from,
{
    if from >= span.len() {
        span.len() as int
    } else if span[from] == ',' && depth(span, from) == 0 {
        from
    } else {
        top_comma_from(span, from + 1)
    }
}

/// The type name of an argument span: the span up to its first comma that no
/// bracket encloses.
pub open spec fn arg_name(span: Seq<char>) -> Seq<char> {
    span.take(top_comma_from(span, 0))
}

/// The names of the arguments that close among the first `n` characters of
/// `s`, in order. An argument closes with the bracket that returns to depth
/// one; its span starts behind the bracket that opened it.
pub open spec fn args_within(s: Seq<char>, n: int) -> Seq<Seq<char>>
    decreases n,
{
    if n <= 0 {
        Seq::empty()
    } else if s[n - 1] == ']' && depth(s, n - 1) == 2 {
        args_within(s, n - 1).push(arg_name(s.subrange(last_open(s, n - 1), n - 1)))
    } else {
        args_within(s, n - 1)
    }
}

/// The index, from `from` on, of the first backtick of `name`; its length
/// if there is none.
pub open spec fn backtick_from(name: Seq<char>, from: int) -> int
    decreases name.len() - from,
{
    if from >= name.len() {
        name.len() as int
    } else if name[from] == '`' {
        from
    } else {
        backtick_from(name, from + 1)
    }
}

/// The index, from `from` on, of the first backtick or comma of `name`; its
/// length if there is none.
pub open spec fn bare_end_from(name: Seq<char>, from: int) -> int
    decreases name.len() - from,
{
    if from >= name.len() {
        name.len() as int
    } else if name[from] == '`' || name[from] == ',' {
        from
    } else {
        bare_end_from(name, from + 1)
    }
}

/// The bare name of a reader identity: what stands before its first backtick
/// or comma.
pub open spec fn bare_name(name: Seq<char>) -> Seq<char> {
    name.take(bare_end_from(name, 0))
}

/// The generic arguments of a reader identity: none where it holds no
/// backtick; else the arguments of what follows the first backtick, or
/// `MalformedGenericName` where the brackets of that part do not balance.
pub open spec fn generic_args(name: Seq<char>) -> Result<Seq<Seq<char>>, ErrorView> {
    let tick = backtick_from(name, 0);
    if tick >= name.len() {
        Ok(Seq::empty())
    } else {
        let generic = name.subrange(tick + 1, name.len() as int);
        if balanced(generic) {
            Ok(args_within(generic, generic.len() as int))
        } else {
            Err(ErrorView::MalformedGenericName)
        }
    }
}

/// The characters of `s`, one by one.
pub fn chars_of(s: &str) -> (chars: Vec<char>)
    ensures
        chars@ == s@,
{
    let mut chars: Vec<char> = Vec::new();
    for c in it: s.chars()
        invariant
            chars@ == it.seq().take(it.index() as int),
            it.seq() == s@,
    {
        chars.push(c);
    }
    chars
}

/// The string of the characters `from..to` of `chars`.
pub fn string_of(chars: &Vec<char>, from: usize, to: usize) -> (s: String)
    requires
        from <= to <= chars@.len(),
    ensures
        s@ == chars@.subrange(from as int, to as int),
{
    let mut s = String::new();
    let mut i: usize = from;
    while i < to
        invariant
            from <= i <= to <= chars@.len(),
            s@ == chars@.subrange(from as int, i as int),
        decreases to - i,
    {
        proof {
            assert(chars@.subrange(from as int, i as int).push(chars@[i as int])
                =~= chars@.subrange(from as int, i + 1));
        }
        push_char(&mut s, chars[i]);
        i = i + 1;
    }
    s
}

/// The bare name of a reader identity: what stands before its first backtick
/// or comma.
pub fn bare_reader_name(name: &str) -> (bare: String)
    ensures
        bare@ == bare_name(name@),
{
    let chars = chars_of(name);
    let mut end: usize = 0;
    while end < chars.len() && chars[end] != '`' && chars[end] != ','
        invariant
            end <= chars@.len(),
            bare_end_from(chars@, 0) == bare_end_from(chars@, end as int),
        decreases chars@.len() - end,
    {
        end = end + 1;
    }
    string_of(&chars, 0, end)
}

/// The length of the type name of the argument span `from..to` of `chars`.
fn arg_name_len(chars: &Vec<char>, from: usize, to: usize) -> (len: usize)
    requires
        from <= to <= chars@.len(),
    ensures
        len == top_comma_from(chars@.subrange(from as int, to as int), 0),
        len <= to - from,
{
    let ghost span = chars@.subrange(from as int, to as int);
    let mut opened: usize = 0;
    let mut closed: usize = 0;
    let mut j: usize = 0;
    while j < to - from
        invariant
            from <= to <= chars@.len(),
            span == chars@.subrange(from as int, to as int),
            j <= to - from,
            opened <= j,
            closed <= j,
            opened - closed == depth(span, j as int),
            top_comma_from(span, 0) == top_comma_from(span, j as int),
        decreases to - from - j,
    {
        let c = chars[from + j];
        assert(c == span[j as int]);
        assert(depth(span, j + 1) == depth(span, j as int) + bracket_step(c));
        if c == ',' && opened == closed {
            return j;
        }
        if c == '[' {
            opened = opened + 1;
        } else if c == ']' {
            closed = closed + 1;
        }
        j = j + 1;
    }
    j
}

/// `last_open` lies within the prefix it looks at.
proof fn lemma_last_open_bounds(s: Seq<char>, n: int)
    requires
        0 <= n,
    ensures
        0 <= last_open(s, n) <= n,
    decreases n,
{
    if n > 0 {
        lemma_last_open_bounds(s, n - 1);
    }
}

/// The generic arguments of a reader identity, in order: none where it holds
/// no backtick. Fails with `MalformedGenericName` where the brackets behind
/// the first backtick do not balance.
pub fn generic_types_from_reader(name: &str) -> (r: Result<Vec<String>, Error>)
    ensures
        match r {
            Ok(args) => generic_args(name@) == Ok::<Seq<Seq<char>>, ErrorView>(args.deep_view()),
            Err(e) => generic_args(name@) == Err::<Seq<Seq<char>>, ErrorView>(e.deep_view()),
        },
{
    let chars = chars_of(name);
    let mut args: Vec<String> = Vec::new();
    assert(args.deep_view() =~= Seq::empty());
    let mut tick: usize = 0;
    while tick < chars.len() && chars[tick] != '`'
        invariant
            tick <= chars@.len(),
            backtick_from(chars@, 0) == backtick_from(chars@, tick as int),
        decreases chars@.len() - tick,
    {
        tick = tick + 1;
    }
    if tick >= chars.len() {
        return Ok(args);
    }
    let first: usize = tick + 1;
    let ghost generic = chars@.subrange(first as int, chars@.len() as int);
    let mut level: usize = 0;
    let mut start: usize = first;
    let mut i: usize = first;
    while i < chars.len()
        invariant
            chars@ == name@,
            tick == backtick_from(chars@, 0),
            first == tick + 1,
            first <= i <= chars@.len(),
            generic == chars@.subrange(first as int, chars@.len() as int),
            forall|n: int| 0 <= n <= i - first ==> depth(generic, n) >= 0,
            level == depth(generic, i - first),
            level <= i - first,
            start == first + last_open(generic, i - first),
            args.deep_view() == args_within(generic, i - first),
        decreases chars@.len() - i,
    {
        let c = chars[i];
        let ghost k = i - first;
        proof {
            assert(c == generic[k]);
            assert(depth(generic, k + 1) == depth(generic, k) + bracket_step(c));
            lemma_last_open_bounds(generic, k);
        }
        if c == '[' {
            if level == 1 {
                start = i + 1;
            }
            level = level + 1;
        } else if c == ']' {
            if level == 0 {
                assert(depth(generic, k + 1) < 0);
                return Err(Error::MalformedGenericName);
            }
            if level == 2 {
                let len = arg_name_len(&chars, start, i);
                let arg = string_of(&chars, start, start + len);
                proof {
                    let span = generic.subrange(last_open(generic, k), k);
                    assert(span =~= chars@.subrange(start as int, i as int));
                    assert(arg@ =~= arg_name(span));
                }
                let ghost before = args;
                let ghost pushed = arg;
                args.push(arg);
                proof {
                    assert(args.deep_view() =~= before.deep_view().push(pushed@));
                }
            }
            level = level - 1;
        }
        i = i + 1;
    }
    if level != 0 {
        return Err(Error::MalformedGenericName);
    }
    Ok(args)
}

/// The reader that decodes a well-known primitive type in place, where an
/// element of that type stands in an array or a dictionary.
pub open spec fn primitive_reader(typename: Seq<char>) -> Option<Seq<char>> {
    if typename == "System.Int32"@ {
        Some("Microsoft.Xna.Framework.Content.Int32Reader"@)
    } else if typename == "System.Char"@ {
        Some("Microsoft.Xna.Framework.Content.CharReader"@)
    } else if typename == "Microsoft.Xna.Framework.Vector3"@ {
        Some("Microsoft.Xna.Framework.Content.Vector3Reader"@)
    } else if typename == "Microsoft.Xna.Framework.Rectangle"@ {
        Some("Microsoft.Xna.Framework.Content.RectangleReader"@)
    } else {
        None
    }
}

/// The reader that decodes a well-known primitive type in place, if
/// `typename` is one.
pub fn reader_from_type(typename: &str) -> (reader: Option<&'static str>)
    ensures
        match reader {
            Some(name) => primitive_reader(typename@) == Some(name@),
            None => primitive_reader(typename@) is None,
        },
{
    if str_eq(typename, "System.Int32") {
        Some("Microsoft.Xna.Framework.Content.Int32Reader")
    } else if str_eq(typename, "System.Char") {
        Some("Microsoft.Xna.Framework.Content.CharReader")
    } else if str_eq(typename, "Microsoft.Xna.Framework.Vector3") {
        Some("Microsoft.Xna.Framework.Content.Vector3Reader")
    } else if str_eq(typename, "Microsoft.Xna.Framework.Rectangle") {
        Some("Microsoft.Xna.Framework.Content.RectangleReader")
    } else {
        None
    }
}

} // verus!
