//! Character-level helpers: whitespace tokenization of the tuner command
//! template (the device path is one of its tokens by a fixed convention)
//! and trimming of a leading byte-order mark from channel names.

use vstd::prelude::*;

verus! {

/// ASCII whitespace, the separator the command template is split on.
pub open spec fn is_space(c: char) -> bool {
    c == ' ' || c == '\t' || c == '\n' || c == '\x0c' || c == '\r'
}

/// First position at or after `i` holding a non-space character, or the
/// end of the string.
pub open spec fn skip_spaces(s: Seq<char>, i: int) -> int
    decreases s.len() - i when 0 <= i <= s.len()
{
    if i == s.len() || !is_space(s[i]) {
        i
    } else {
        skip_spaces(s, i + 1)
    }
}

/// First position at or after `i` holding a space, or the end of the
/// string: the end of the token that starts at `i`.
pub open spec fn token_end(s: Seq<char>, i: int) -> int
    decreases s.len() - i when 0 <= i <= s.len()
{
    if i == s.len() || is_space(s[i]) {
        i
    } else {
        token_end(s, i + 1)
    }
}

pub proof fn lemma_skip_spaces_bounds(s: Seq<char>, i: int)
    requires
        0 <= i <= s.len(),
    ensures
        i <= skip_spaces(s, i) <= s.len(),
        skip_spaces(s, i) < s.len() ==> !is_space(s[skip_spaces(s, i)]),
    decreases s.len() - i,
{
    if !(i == s.len() || !is_space(s[i])) {
        lemma_skip_spaces_bounds(s, i + 1);
    }
}

pub proof fn lemma_token_end_bounds(s: Seq<char>, i: int)
    requires
        0 <= i <= s.len(),
    ensures
        i <= token_end(s, i) <= s.len(),
        i < s.len() && !is_space(s[i]) ==> token_end(s, i) > i,
    decreases s.len() - i,
{
    if !(i == s.len() || is_space(s[i])) {
        lemma_token_end_bounds(s, i + 1);
    }
}

/// The whitespace-separated tokens of `s`, from position `i` on.
pub open spec fn tokens_from(s: Seq<char>, i: int) -> Seq<Seq<char>>
    decreases s.len() - i when 0 <= i <= s.len()
{
    let j = skip_spaces(s, i);
    if j < 0 || j >= s.len() {
        Seq::empty()
    } else {
        let k = token_end(s, j);
        proof {
            lemma_skip_spaces_bounds(s, i);
            lemma_token_end_bounds(s, j);
        }
        seq![s.subrange(j, k)] + tokens_from(s, k)
    }
}

/// The whitespace-separated tokens of `s`, in order, separators dropped.
pub open spec fn tokens_of(s: Seq<char>) -> Seq<Seq<char>> {
    tokens_from(s, 0)
}

fn skip_spaces_exec(s: &str, from: usize, len: usize) -> (r: usize)
    requires
        len == s@.len(),
        from <= len,
    ensures
        r == skip_spaces(s@, from as int),
        from <= r <= len,
    decreases len - from,
{
    if from == len {
        return from;
    }
    let c = s.get_char(from);
    if c == ' ' || c == '\t' || c == '\n' || c == '\x0c' || c == '\r' {
        skip_spaces_exec(s, from + 1, len)
    } else {
        from
    }
}

fn token_end_exec(s: &str, from: usize, len: usize) -> (r: usize)
    requires
        len == s@.len(),
        from <= len,
    ensures
        r == token_end(s@, from as int),
        from <= r <= len,
    decreases len - from,
{
    if from == len {
        return from;
    }
    let c = s.get_char(from);
    if c == ' ' || c == '\t' || c == '\n' || c == '\x0c' || c == '\r' {
        from
    } else {
        token_end_exec(s, from + 1, len)
    }
}

fn nth_token_from(s: &str, i: usize, n: usize, len: usize) -> (r: Option<String>)
    requires
        len == s@.len(),
        i <= len,
    ensures
        match r {
            Some(t) => n < tokens_from(s@, i as int).len() && t@ == tokens_from(
                s@,
                i as int,
            )[n as int],
            None => n >= tokens_from(s@, i as int).len(),
        },
    decreases len - i,
{
    let j = skip_spaces_exec(s, i, len);
    proof {
        lemma_skip_spaces_bounds(s@, i as int);
    }
    if j == len {
        proof {
            assert(tokens_from(s@, i as int) =~= Seq::<Seq<char>>::empty());
        }
        return None;
    }
    let k = token_end_exec(s, j, len);
    proof {
        lemma_token_end_bounds(s@, j as int);
        assert(tokens_from(s@, i as int) =~= seq![s@.subrange(j as int, k as int)] + tokens_from(
            s@,
            k as int,
        ));
    }
    if n == 0 {
        let t = s.substring_char(j, k);
        Some(t.to_owned())
    } else {
        nth_token_from(s, k, n - 1, len)
    }
}

/// The `n`-th whitespace-separated token of `s`, if `s` has that many.
pub fn nth_token(s: &str, n: usize) -> (r: Option<String>)
    ensures
        match r {
            Some(t) => n < tokens_of(s@).len() && t@ == tokens_of(s@)[n as int],
            None => n >= tokens_of(s@).len(),
        },
{
    let len = s.unicode_len();
    nth_token_from(s, 0, n, len)
}

/// `s` with every leading byte-order mark removed.
pub open spec fn trim_bom(s: Seq<char>) -> Seq<char>
    decreases s.len(),
{
    if s.len() > 0 && s[0] == '\u{feff}' {
        trim_bom(s.skip(1))
    } else {
        s
    }
}

/// Removes the byte-order mark, if any, from the front of a channel name.
pub fn trim_leading_bom(s: &str) -> (r: String)
    ensures
        r@ == trim_bom(s@),
{
    let len = s.unicode_len();
    let mut i: usize = 0;
    proof {
        assert(s@.skip(0) =~= s@);
    }
    while i < len && s.get_char(i) == '\u{feff}'
        invariant
            0 <= i <= len,
            len == s@.len(),
            trim_bom(s@) == trim_bom(s@.skip(i as int)),
        decreases len - i,
    {
        proof {
            assert(s@.skip(i as int).skip(1) =~= s@.skip(i as int + 1));
        }
        i = i + 1;
    }
    proof {
        assert(trim_bom(s@.skip(i as int)) == s@.skip(i as int));
        assert(s@.skip(i as int) =~= s@.subrange(i as int, len as int));
    }
    let t = s.substring_char(i, len);
    t.to_owned()
}

} // verus!
