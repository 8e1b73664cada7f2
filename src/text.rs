use vstd::prelude::*;

verus! {

/// The characters of a string.
pub fn chars_of(s: &str) -> (r: Vec<char>)
    ensures
        r@ == s@,
{
    let mut r: Vec<char> = Vec::new();
    for c in it: s.chars()
        invariant
            r@ == it.seq().subrange(0, it.index() as int),
    {
        r.push(c);
    }
    r
}

/// The views of a sequence of character vectors.
pub open spec fn views(v: Seq<Vec<char>>) -> Seq<Seq<char>> {
    v.map_values(|x: Vec<char>| x@)
}

/// Unicode white space, as `char::is_whitespace` defines it.
pub open spec fn is_ws(c: char) -> bool {
    let u = c as u32;
    ||| 9 <= u <= 13
    ||| u == 32
    ||| u == 0x85
    ||| u == 0xa0
    ||| u == 0x1680
    ||| 0x2000 <= u <= 0x200a
    ||| u == 0x2028
    ||| u == 0x2029
    ||| u == 0x202f
    ||| u == 0x205f
    ||| u == 0x3000
}

fn is_whitespace(c: char) -> (r: bool)
    ensures
        r == is_ws(c),
{
    let u = c as u32;
    (9 <= u && u <= 13) || u == 32 || u == 0x85 || u == 0xa0 || u == 0x1680 || (0x2000 <= u
        && u <= 0x200a) || u == 0x2028 || u == 0x2029 || u == 0x202f || u == 0x205f || u == 0x3000
}

/// `s` without its leading white space.
pub open spec fn trim_start(s: Seq<char>) -> Seq<char>
    decreases s.len(),
{
    if s.len() > 0 && is_ws(s[0]) {
        trim_start(s.drop_first())
    } else {
        s
    }
}

/// `s` without its trailing white space.
pub open spec fn trim_end(s: Seq<char>) -> Seq<char>
    decreases s.len(),
{
    if s.len() > 0 && is_ws(s.last()) {
        trim_end(s.drop_last())
    } else {
        s
    }
}

/// `s` without leading and trailing white space.
pub open spec fn trim(s: Seq<char>) -> Seq<char> {
    trim_end(trim_start(s))
}

/// A copy of `s[from..to]`.
pub fn slice_chars(s: &Vec<char>, from: usize, to: usize) -> (r: Vec<char>)
    requires
        from <= to <= s@.len(),
    ensures
        r@ == s@.subrange(from as int, to as int),
{
    let mut r: Vec<char> = Vec::new();
    let mut i = from;
    while i < to
        invariant
            from <= i <= to,
            to <= s@.len(),
            r@ == s@.subrange(from as int, i as int),
        decreases to - i,
    {
        r.push(s[i]);
        assert(r@ =~= s@.subrange(from as int, i + 1));
        i += 1;
    }
    r
}

/// A copy of `s`.
pub fn copy_chars(s: &Vec<char>) -> (r: Vec<char>)
    ensures
        r@ == s@,
{
    let r = slice_chars(s, 0, s.len());
    assert(s@.subrange(0, s@.len() as int) =~= s@);
    r
}

/// Whether two character sequences are equal.
pub fn chars_eq(a: &Vec<char>, b: &Vec<char>) -> (r: bool)
    ensures
        r == (a@ == b@),
{
    if a.len() != b.len() {
        return false;
    }
    let mut i: usize = 0;
    while i < a.len()
        invariant
            i <= a@.len(),
            a@.len() == b@.len(),
            forall|j: int| 0 <= j < i ==> a@[j] == b@[j],
        decreases a.len() - i,
    {
        if a[i] != b[i] {
            return false;
        }
        i += 1;
    }
    assert(a@ =~= b@);
    true
}

/// `s` without leading and trailing white space.
pub fn trim_chars(s: &Vec<char>) -> (r: Vec<char>)
    ensures
        r@ == trim(s@),
{
    let n = s.len();
    let mut a: usize = 0;
    assert(s@.skip(0) =~= s@);
    while a < n && is_whitespace(s[a])
        invariant
            a <= n,
            n == s@.len(),
            trim_start(s@) == trim_start(s@.skip(a as int)),
        decreases n - a,
    {
        assert(s@.skip(a as int).drop_first() =~= s@.skip(a + 1));
        a += 1;
    }
    assert(trim_start(s@.skip(a as int)) == s@.skip(a as int));
    assert(s@.skip(a as int) =~= s@.subrange(a as int, n as int));
    let mut b: usize = n;
    while b > a && is_whitespace(s[b - 1])
        invariant
            a <= b <= n,
            n == s@.len(),
            trim(s@) == trim_end(s@.subrange(a as int, b as int)),
        decreases b,
    {
        assert(s@.subrange(a as int, b as int).drop_last() =~= s@.subrange(a as int, b - 1));
        b -= 1;
    }
    slice_chars(s, a, b)
}

/// Splitting so far: the completed lines and the line being read.
pub open spec fn split_acc(s: Seq<char>) -> (Seq<Seq<char>>, Seq<char>)
    decreases s.len(),
{
    if s.len() == 0 {
        (Seq::empty(), Seq::empty())
    } else {
        let (done, cur) = split_acc(s.drop_last());
        if s.last() == '\n' {
            (done.push(cur), Seq::empty())
        } else {
            (done, cur.push(s.last()))
        }
    }
}

/// The lines of a text: the pieces between line feeds, the last piece included.
pub open spec fn lines_of(s: Seq<char>) -> Seq<Seq<char>> {
    split_acc(s).0.push(split_acc(s).1)
}

/// Splits a text at its line feeds.
pub fn split_lines(s: &Vec<char>) -> (r: Vec<Vec<char>>)
    ensures
        views(r@) == lines_of(s@),
{
    let mut done: Vec<Vec<char>> = Vec::new();
    let mut cur: Vec<char> = Vec::new();
    let mut i: usize = 0;
    assert(s@.take(0) =~= Seq::<char>::empty());
    assert(views(done@) =~= Seq::<Seq<char>>::empty());
    while i < s.len()
        invariant
            i <= s@.len(),
            views(done@) == split_acc(s@.take(i as int)).0,
            cur@ == split_acc(s@.take(i as int)).1,
        decreases s.len() - i,
    {
        assert(s@.take(i + 1).drop_last() =~= s@.take(i as int));
        let c = s[i];
        if c == '\n' {
            let mut line: Vec<char> = Vec::new();
            std::mem::swap(&mut line, &mut cur);
            done.push(line);
            assert(views(done@) =~= split_acc(s@.take(i as int)).0.push(line@));
        } else {
            cur.push(c);
        }
        i += 1;
    }
    assert(s@.take(i as int) =~= s@);
    done.push(cur);
    assert(views(done@) =~= lines_of(s@));
    done
}

/// State of the tokenizer: the finished tokens, the token being read, and
/// whether a token, a quotation and an escape are open.
pub struct TokState {
    pub tokens: Seq<Seq<char>>,
    pub cur: Seq<char>,
    pub in_item: bool,
    pub in_quote: bool,
    pub escape: bool,
}

/// One character of tokenizing. White space ends a token unless a quotation is
/// open. A quote character (single or double) opens or closes a quotation
/// unless a backslash precedes it; backslashes are kept in the token.
pub open spec fn tok_step(st: TokState, c: char) -> TokState {
    if is_ws(c) {
        if st.in_item && !st.in_quote {
            TokState {
                tokens: st.tokens.push(st.cur),
                cur: Seq::empty(),
                in_item: false,
                escape: false,
                ..st
            }
        } else if st.in_item {
            TokState { cur: st.cur.push(c), escape: false, ..st }
        } else {
            TokState { escape: false, ..st }
        }
    } else if c == '\\' {
        TokState { cur: st.cur.push(c), in_item: true, escape: true, ..st }
    } else {
        TokState {
            cur: st.cur.push(c),
            in_item: true,
            in_quote: if (c == '"' || c == '\'') && !st.escape {
                !st.in_quote
            } else {
                st.in_quote
            },
            escape: false,
            ..st
        }
    }
}

pub open spec fn tok_acc(s: Seq<char>) -> TokState
    decreases s.len(),
{
    if s.len() == 0 {
        TokState {
            tokens: Seq::empty(),
            cur: Seq::empty(),
            in_item: false,
            in_quote: false,
            escape: false,
        }
    } else {
        tok_step(tok_acc(s.drop_last()), s.last())
    }
}

/// The tokens of a line.
pub open spec fn tokens_of(s: Seq<char>) -> Seq<Seq<char>> {
    let st = tok_acc(s);
    if st.in_item {
        st.tokens.push(st.cur)
    } else {
        st.tokens
    }
}

/// Splits a line into tokens at white space outside quotations.
pub fn split_line(s: &Vec<char>) -> (r: Vec<Vec<char>>)
    ensures
        views(r@) == tokens_of(s@),
{
    let mut tokens: Vec<Vec<char>> = Vec::new();
    let mut cur: Vec<char> = Vec::new();
    let mut in_item = false;
    let mut in_quote = false;
    let mut escape = false;
    let mut i: usize = 0;
    assert(s@.take(0) =~= Seq::<char>::empty());
    assert(views(tokens@) =~= Seq::<Seq<char>>::empty());
    while i < s.len()
        invariant
            i <= s@.len(),
            views(tokens@) == tok_acc(s@.take(i as int)).tokens,
            cur@ == tok_acc(s@.take(i as int)).cur,
            in_item == tok_acc(s@.take(i as int)).in_item,
            in_quote == tok_acc(s@.take(i as int)).in_quote,
            escape == tok_acc(s@.take(i as int)).escape,
        decreases s.len() - i,
    {
        assert(s@.take(i + 1).drop_last() =~= s@.take(i as int));
        let c = s[i];
        if is_whitespace(c) {
            if in_item && !in_quote {
                let mut tok: Vec<char> = Vec::new();
                std::mem::swap(&mut tok, &mut cur);
                tokens.push(tok);
                assert(views(tokens@) =~= tok_acc(s@.take(i as int)).tokens.push(tok@));
                in_item = false;
            } else if in_item {
                cur.push(c);
            }
            escape = false;
        } else if c == '\\' {
            cur.push(c);
            in_item = true;
            escape = true;
        } else {
            if (c == '"' || c == '\'') && !escape {
                in_quote = !in_quote;
            }
            cur.push(c);
            in_item = true;
            escape = false;
        }
        i += 1;
    }
    assert(s@.take(i as int) =~= s@);
    if in_item {
        tokens.push(cur);
        assert(views(tokens@) =~= tokens_of(s@));
    }
    tokens
}

} // verus!
