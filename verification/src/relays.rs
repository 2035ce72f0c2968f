use vstd::prelude::*;
use vstd::std_specs::iter::IteratorSpec;

verus! {

broadcast use vstd::string::group_string_axioms;

/// Whether `c` has the Unicode `White_Space` property, as
/// `char::is_whitespace` (and so `str::trim`) decides it.
pub open spec fn is_whitespace(c: char) -> bool {
    ||| '\u{9}' <= c && c <= '\u{d}'
    ||| c == ' '
    ||| c == '\u{85}'
    ||| c == '\u{a0}'
    ||| c == '\u{1680}'
    ||| '\u{2000}' <= c && c <= '\u{200a}'
    ||| c == '\u{2028}'
    ||| c == '\u{2029}'
    ||| c == '\u{202f}'
    ||| c == '\u{205f}'
    ||| c == '\u{3000}'
}

/// `s` without its leading whitespace.
pub open spec fn trim_start(s: Seq<char>) -> Seq<char>
    decreases s.len(),
{
    if s.len() > 0 && is_whitespace(s[0]) {
        trim_start(s.drop_first())
    } else {
        s
    }
}

/// `s` without its trailing whitespace.
pub open spec fn trim_end(s: Seq<char>) -> Seq<char>
    decreases s.len(),
{
    if s.len() > 0 && is_whitespace(s.last()) {
        trim_end(s.drop_last())
    } else {
        s
    }
}

/// `s` without leading and trailing whitespace (`str::trim`).
pub open spec fn trim(s: Seq<char>) -> Seq<char> {
    trim_end(trim_start(s))
}

/// The pieces of `s` between its commas (`str::split(',')`): one more piece
/// than there are commas, empty pieces included.
pub open spec fn split_commas(s: Seq<char>) -> Seq<Seq<char>>
    decreases s.len(),
{
    if s.len() == 0 {
        seq![Seq::<char>::empty()]
    } else if s.last() == ',' {
        split_commas(s.drop_last()).push(Seq::<char>::empty())
    } else {
        let pieces = split_commas(s.drop_last());
        pieces.update(pieces.len() - 1, pieces.last().push(s.last()))
    }
}

proof fn lemma_split_commas_nonempty(s: Seq<char>)
    ensures
        split_commas(s).len() >= 1,
    decreases s.len(),
{
    if s.len() > 0 {
        lemma_split_commas_nonempty(s.drop_last());
    }
}

/// The pieces joined again, a comma between each two.
pub open spec fn join_commas(pieces: Seq<Seq<char>>) -> Seq<char>
    decreases pieces.len(),
{
    if pieces.len() == 0 {
        Seq::empty()
    } else if pieces.len() == 1 {
        pieces[0]
    } else {
        join_commas(pieces.drop_last()) + seq![','] + pieces.last()
    }
}

/// Cutting at the commas and joining again gives back the text.
pub proof fn lemma_split_then_join(s: Seq<char>)
    ensures
        join_commas(split_commas(s)) == s,
    decreases s.len(),
{
    if s.len() > 0 {
        let p = s.drop_last();
        lemma_split_then_join(p);
        lemma_split_commas_nonempty(p);
        let pieces = split_commas(p);
        if s.last() == ',' {
            assert(split_commas(s).drop_last() =~= pieces);
            assert(s =~= p + seq![','] + Seq::<char>::empty());
        } else {
            let updated = pieces.update(pieces.len() - 1, pieces.last().push(s.last()));
            if pieces.len() == 1 {
                assert(s =~= pieces[0].push(s.last()));
            } else {
                assert(updated.drop_last() =~= pieces.drop_last());
                assert(p == join_commas(pieces.drop_last()) + seq![','] + pieces.last());
                assert(s =~= p.push(s.last()));
                assert(s =~= join_commas(pieces.drop_last()) + seq![','] + pieces.last().push(
                    s.last(),
                ));
            }
        }
    }
}

/// No piece between commas holds a comma.
pub proof fn lemma_split_pieces_comma_free(s: Seq<char>)
    ensures
        forall|i: int, j: int|
            0 <= i < split_commas(s).len() && 0 <= j < split_commas(s)[i].len() ==> #[trigger] split_commas(s)[i][j] != ',',
    decreases s.len(),
{
    if s.len() > 0 {
        lemma_split_pieces_comma_free(s.drop_last());
        lemma_split_commas_nonempty(s.drop_last());
    }
}

proof fn lemma_trim_start_is_suffix(s: Seq<char>)
    ensures
        exists|k: int| 0 <= k <= s.len() && trim_start(s) == s.subrange(k, s.len() as int),
        trim_start(s).len() > 0 ==> !is_whitespace(trim_start(s)[0]),
    decreases s.len(),
{
    if s.len() > 0 && is_whitespace(s[0]) {
        let t = s.drop_first();
        lemma_trim_start_is_suffix(t);
        let k = choose|k: int| 0 <= k <= t.len() && trim_start(t) == t.subrange(k, t.len() as int);
        assert(t.subrange(k, t.len() as int) =~= s.subrange(k + 1, s.len() as int));
    } else {
        assert(s.subrange(0, s.len() as int) =~= s);
    }
}

proof fn lemma_trim_end_is_prefix(s: Seq<char>)
    ensures
        exists|k: int| 0 <= k <= s.len() && trim_end(s) == s.subrange(0, k),
        trim_end(s).len() > 0 ==> !is_whitespace(trim_end(s).last()),
        trim_end(s).len() > 0 && s.len() > 0 ==> trim_end(s)[0] == s[0],
    decreases s.len(),
{
    if s.len() > 0 && is_whitespace(s.last()) {
        let t = s.drop_last();
        lemma_trim_end_is_prefix(t);
        let k = choose|k: int| 0 <= k <= t.len() && trim_end(t) == t.subrange(0, k);
        assert(t.subrange(0, k) =~= s.subrange(0, k));
    } else {
        assert(s.subrange(0, s.len() as int) =~= s);
    }
}

/// A trimmed text is a part of the text that neither begins nor ends with
/// whitespace.
pub proof fn lemma_trim_shape(s: Seq<char>)
    ensures
        exists|a: int, b: int| 0 <= a <= b <= s.len() && trim(s) == s.subrange(a, b),
        trim(s).len() > 0 ==> !is_whitespace(trim(s)[0]) && !is_whitespace(trim(s).last()),
{
    let u = trim_start(s);
    lemma_trim_start_is_suffix(s);
    lemma_trim_end_is_prefix(u);
    let a = choose|k: int| 0 <= k <= s.len() && u == s.subrange(k, s.len() as int);
    let b = choose|k: int| 0 <= k <= u.len() && trim_end(u) == u.subrange(0, k);
    assert(trim(s) =~= s.subrange(a, a + b));
}

/// Why the relay address list could not be read.
#[derive(PartialEq, Eq, Structural, Debug, Clone, Copy)]
pub enum RelaysError {
    /// The variable is not set.
    NotSet,
    /// The variable holds only whitespace.
    Empty,
}

/// The relay addresses that the list `value` names: the trimmed list cut at
/// its commas, each piece trimmed.
pub open spec fn relay_list(value: Seq<char>) -> Seq<Seq<char>> {
    split_commas(trim(value)).map_values(|p: Seq<char>| trim(p))
}

/// Each relay address of a list is free of commas and neither begins nor
/// ends with whitespace.
pub proof fn lemma_relay_list_well_formed(value: Seq<char>)
    ensures
        forall|i: int| 0 <= i < relay_list(value).len() ==> {
            let r = #[trigger] relay_list(value)[i];
            &&& forall|j: int| 0 <= j < r.len() ==> r[j] != ','
            &&& r.len() > 0 ==> !is_whitespace(r[0]) && !is_whitespace(r.last())
        },
{
    let pieces = split_commas(trim(value));
    lemma_split_pieces_comma_free(trim(value));
    assert forall|i: int| 0 <= i < relay_list(value).len() implies {
        let r = #[trigger] relay_list(value)[i];
        &&& forall|j: int| 0 <= j < r.len() ==> r[j] != ','
        &&& r.len() > 0 ==> !is_whitespace(r[0]) && !is_whitespace(r.last())
    } by {
        let p = pieces[i];
        lemma_trim_shape(p);
        let (a, b) = choose|a: int, b: int| 0 <= a <= b <= p.len() && trim(p) == p.subrange(a, b);
        assert forall|j: int| 0 <= j < trim(p).len() implies trim(p)[j] != ',' by {
            assert(trim(p)[j] == pieces[i][a + j]);
        }
    }
}

/// No visible ASCII character (`!` to `~`: letters, digits, punctuation)
/// is whitespace; of the ASCII characters only tab, line feed, vertical
/// tab, form feed, carriage return and space are.
pub proof fn lemma_whitespace_ascii(c: char)
    ensures
        '!' <= c && c <= '~' ==> !is_whitespace(c),
        c as u32 <= 0x7f ==> (is_whitespace(c) <==> (c as u32 == 0x20 || (0x09 <= c as u32
            && c as u32 <= 0x0d))),
        is_whitespace(c) ==> c as u32 == 0x20 || (0x09 <= c as u32 && c as u32 <= 0x0d)
            || c as u32 >= 0x85,
{
}

/// The relay list has one address per comma-separated piece of the
/// trimmed value: piece `i` trimmed.
pub proof fn lemma_relay_list_pieces(value: Seq<char>)
    ensures
        relay_list(value).len() == split_commas(trim(value)).len(),
        forall|i: int|
            0 <= i < relay_list(value).len() ==> #[trigger] relay_list(value)[i] == trim(
                split_commas(trim(value))[i],
            ),
{
}

/// A text without whitespace at either end is its own trim.
proof fn lemma_trim_of_trimmed(s: Seq<char>)
    requires
        s.len() > 0 ==> !is_whitespace(s[0]) && !is_whitespace(s.last()),
    ensures
        trim(s) == s,
{
    if s.len() > 0 {
        assert(trim_start(s) == s);
        assert(trim_end(s) == s);
    }
}

/// A text without commas is one piece.
proof fn lemma_split_comma_free(s: Seq<char>)
    requires
        forall|j: int| 0 <= j < s.len() ==> s[j] != ',',
    ensures
        split_commas(s) == seq![s],
    decreases s.len(),
{
    if s.len() > 0 {
        let p = s.drop_last();
        lemma_split_comma_free(p);
        assert(s =~= p.push(s.last()));
        assert(split_commas(s) =~= seq![s]);
    } else {
        assert(s =~= Seq::<char>::empty());
    }
}

/// Cutting `x , l` at its commas gives the pieces of `x` and then `l`, when
/// `l` has no comma.
proof fn lemma_split_append_piece(x: Seq<char>, l: Seq<char>)
    requires
        forall|j: int| 0 <= j < l.len() ==> l[j] != ',',
    ensures
        split_commas(x + seq![','] + l) == split_commas(x).push(l),
    decreases l.len(),
{
    let s = x + seq![','] + l;
    if l.len() == 0 {
        assert(s.drop_last() =~= x);
        assert(l =~= Seq::<char>::empty());
    } else {
        let lp = l.drop_last();
        lemma_split_append_piece(x, lp);
        assert(s.drop_last() =~= x + seq![','] + lp);
        let pieces = split_commas(x + seq![','] + lp);
        assert(pieces == split_commas(x).push(lp));
        assert(s.last() == l.last());
        assert(s.last() != ',');
        assert(lp.push(l.last()) =~= l);
        assert(split_commas(s) == pieces.update(pieces.len() - 1, pieces.last().push(s.last())));
        assert(pieces.update(pieces.len() - 1, pieces.last().push(s.last())) =~= split_commas(
            x,
        ).push(l));
    }
}

/// Joining comma-free pieces and cutting at the commas gives the pieces back.
pub proof fn lemma_join_then_split(pieces: Seq<Seq<char>>)
    requires
        pieces.len() > 0,
        forall|i: int, j: int|
            0 <= i < pieces.len() && 0 <= j < pieces[i].len() ==> #[trigger] pieces[i][j] != ',',
    ensures
        split_commas(join_commas(pieces)) == pieces,
    decreases pieces.len(),
{
    if pieces.len() == 1 {
        assert forall|j: int| 0 <= j < pieces[0].len() implies pieces[0][j] != ',' by {
            assert(pieces[0][j] != ',');
        }
        lemma_split_comma_free(pieces[0]);
        assert(seq![pieces[0]] =~= pieces);
    } else {
        let p = pieces.drop_last();
        lemma_join_then_split(p);
        let l = pieces.last();
        assert forall|j: int| 0 <= j < l.len() implies l[j] != ',' by {
            assert(pieces[pieces.len() - 1][j] != ',');
        }
        lemma_split_append_piece(join_commas(p), l);
        assert(p.push(l) =~= pieces);
    }
}

/// A list of addresses that hold no comma and neither begin nor end with
/// whitespace, written with commas between them, is read back as exactly
/// those addresses.
pub proof fn lemma_relay_list_of_joined(pieces: Seq<Seq<char>>)
    requires
        pieces.len() > 0,
        forall|i: int, j: int|
            0 <= i < pieces.len() && 0 <= j < pieces[i].len() ==> #[trigger] pieces[i][j] != ',',
        forall|i: int|
            0 <= i < pieces.len() && #[trigger] pieces[i].len() > 0 ==> !is_whitespace(pieces[i][0])
                && !is_whitespace(pieces[i].last()),
    ensures
        relay_list(join_commas(pieces)) == pieces,
{
    let text = join_commas(pieces);
    lemma_join_then_split(pieces);
    lemma_join_ends(pieces);
    lemma_trim_of_trimmed(text);
    assert forall|i: int| 0 <= i < pieces.len() implies trim(pieces[i]) == pieces[i] by {
        if pieces[i].len() > 0 {
            assert(!is_whitespace(pieces[i][0]) && !is_whitespace(pieces[i].last()));
        }
        lemma_trim_of_trimmed(pieces[i]);
    }
    assert(relay_list(text) =~= pieces);
}

/// A joined list begins with its first piece's first character (or a comma)
/// and ends with its last piece's last character (or a comma).
proof fn lemma_join_ends(pieces: Seq<Seq<char>>)
    requires
        pieces.len() > 0,
        forall|i: int|
            0 <= i < pieces.len() && #[trigger] pieces[i].len() > 0 ==> !is_whitespace(pieces[i][0])
                && !is_whitespace(pieces[i].last()),
    ensures
        join_commas(pieces).len() > 0 ==> !is_whitespace(join_commas(pieces)[0])
            && !is_whitespace(join_commas(pieces).last()),
    decreases pieces.len(),
{
    if pieces.len() == 1 {
        assert(pieces[0].len() > 0 ==> !is_whitespace(pieces[0][0]) && !is_whitespace(pieces[0].last()));
    } else {
        let p = pieces.drop_last();
        assert forall|i: int| 0 <= i < p.len() && #[trigger] p[i].len() > 0 implies !is_whitespace(p[i][0])
            && !is_whitespace(p[i].last()) by {
            assert(p[i] == pieces[i]);
        }
        lemma_join_ends(p);
        let l = pieces.last();
        let x = join_commas(p);
        let t = x + seq![','] + l;
        assert(join_commas(pieces) == t);
        if x.len() > 0 {
            assert(t[0] == x[0]);
        } else {
            assert(t[0] == ',');
        }
        if l.len() > 0 {
            assert(l == pieces[pieces.len() - 1]);
            assert(t.last() == l.last());
        } else {
            assert(t.last() == ',');
        }
    }
}

/// The characters of `s`.
fn chars_of(s: &str) -> (chars: Vec<char>)
    ensures
        chars@ == s@,
{
    let mut it = s.chars();
    let mut chars: Vec<char> = Vec::new();
    loop
        invariant
            chars@.len() <= s@.len(),
            chars@ == s@.take(chars@.len() as int),
            it.remaining() == s@.skip(chars@.len() as int),
        ensures
            chars@ == s@,
        decreases s@.len() - chars@.len(),
    {
        let ghost before = it.remaining();
        match it.next() {
            Some(c) => {
                proof {
                    assert(before.len() > 0);
                    assert(c == s@[chars@.len() as int]);
                    assert(s@.skip(chars@.len() as int).drop_first() =~= s@.skip((chars@.len() + 1) as int));
                }
                chars.push(c);
                assert(chars@ =~= s@.take(chars@.len() as int));
            },
            None => {
                assert(s@.take(chars@.len() as int) =~= s@);
                break ;
            },
        }
    }
    chars
}

/// Whether `c` is whitespace in the sense of `is_whitespace`.
fn is_whitespace_char(c: char) -> (b: bool)
    ensures
        b == is_whitespace(c),
{
    ('\u{9}' <= c && c <= '\u{d}') || c == ' ' || c == '\u{85}' || c == '\u{a0}' || c
        == '\u{1680}' || ('\u{2000}' <= c && c <= '\u{200a}') || c == '\u{2028}' || c
        == '\u{2029}' || c == '\u{202f}' || c == '\u{205f}' || c == '\u{3000}'
}

proof fn lemma_trim_start_skips(s: Seq<char>, lo: int)
    requires
        0 <= lo <= s.len(),
        forall|j: int| 0 <= j < lo ==> is_whitespace(#[trigger] s[j]),
        lo == s.len() || !is_whitespace(s[lo]),
    ensures
        trim_start(s) == s.subrange(lo, s.len() as int),
    decreases lo,
{
    if lo == 0 {
        assert(s.subrange(0, s.len() as int) =~= s);
    } else {
        let t = s.drop_first();
        assert forall|j: int| 0 <= j < lo - 1 implies is_whitespace(#[trigger] t[j]) by {
            assert(t[j] == s[j + 1]);
        }
        if lo - 1 < t.len() {
            assert(t[lo - 1] == s[lo]);
        }
        lemma_trim_start_skips(t, lo - 1);
        assert(t.subrange(lo - 1, t.len() as int) =~= s.subrange(lo, s.len() as int));
    }
}

proof fn lemma_trim_end_drops(s: Seq<char>, hi: int)
    requires
        0 <= hi <= s.len(),
        forall|j: int| hi <= j < s.len() ==> is_whitespace(#[trigger] s[j]),
        hi == 0 || !is_whitespace(s[hi - 1]),
    ensures
        trim_end(s) == s.subrange(0, hi),
    decreases s.len() - hi,
{
    if hi == s.len() {
        assert(s.subrange(0, hi) =~= s);
    } else {
        let t = s.drop_last();
        assert forall|j: int| hi <= j < t.len() implies is_whitespace(#[trigger] t[j]) by {
            assert(t[j] == s[j]);
        }
        if hi > 0 {
            assert(t[hi - 1] == s[hi - 1]);
        }
        lemma_trim_end_drops(t, hi);
        assert(t.subrange(0, hi) =~= s.subrange(0, hi));
    }
}

/// The bounds of `chars[lo..hi]` without its leading and trailing whitespace.
fn trim_bounds(chars: &Vec<char>, lo: usize, hi: usize) -> (bounds: (usize, usize))
    requires
        lo <= hi <= chars@.len(),
    ensures
        lo <= bounds.0 <= bounds.1 <= hi,
        chars@.subrange(bounds.0 as int, bounds.1 as int) == trim(
            chars@.subrange(lo as int, hi as int),
        ),
{
    let ghost s = chars@.subrange(lo as int, hi as int);
    let mut a = lo;
    while a < hi && is_whitespace_char(chars[a])
        invariant
            lo <= a <= hi <= chars@.len(),
            s == chars@.subrange(lo as int, hi as int),
            forall|j: int| lo <= j < a ==> is_whitespace(#[trigger] chars@[j]),
        decreases hi - a,
    {
        a = a + 1;
    }
    proof {
        assert forall|j: int| 0 <= j < a - lo implies is_whitespace(#[trigger] s[j]) by {
            assert(s[j] == chars@[lo + j]);
        }
        if a < hi {
            assert(s[a - lo] == chars@[a as int]);
        }
        lemma_trim_start_skips(s, a - lo);
    }
    let ghost t = chars@.subrange(a as int, hi as int);
    assert(s.subrange(a - lo, s.len() as int) =~= t);
    let mut b = hi;
    while b > a && is_whitespace_char(chars[b - 1])
        invariant
            lo <= a <= b <= hi <= chars@.len(),
            t == chars@.subrange(a as int, hi as int),
            forall|j: int| b <= j < hi ==> is_whitespace(#[trigger] chars@[j]),
        decreases b - a,
    {
        b = b - 1;
    }
    proof {
        assert forall|j: int| b - a <= j < t.len() implies is_whitespace(#[trigger] t[j]) by {
            assert(t[j] == chars@[a + j]);
        }
        if b > a {
            assert(t[b - a - 1] == chars@[b - 1]);
        }
        lemma_trim_end_drops(t, b - a);
        assert(t.subrange(0, b - a) =~= chars@.subrange(a as int, b as int));
    }
    (a, b)
}

/// Reads the relay address list: the value of the variable that holds it,
/// if set, trimmed and cut at its commas, each address trimmed. A value
/// that is missing or holds only whitespace is refused.
pub fn parse_relays(value: Option<String>) -> (relays: Result<Vec<String>, RelaysError>)
    ensures
        value is None ==> relays == Err::<Vec<String>, RelaysError>(RelaysError::NotSet),
        value matches Some(v) ==> (trim(v@).len() == 0 <==> relays == Err::<
            Vec<String>,
            RelaysError,
        >(RelaysError::Empty)),
        value matches Some(v) ==> (trim(v@).len() > 0 ==> (relays matches Ok(list)
            && list@.map_values(|r: String| r@) == relay_list(v@))),
{
    let v = match value {
        None => {
            return Err(RelaysError::NotSet);
        },
        Some(v) => v,
    };
    let text: &str = v.as_str();
    let chars = chars_of(text);
    let (lo, hi) = trim_bounds(&chars, 0, chars.len());
    assert(chars@.subrange(0, chars@.len() as int) =~= chars@);
    if lo == hi {
        return Err(RelaysError::Empty);
    }
    let ghost t = chars@.subrange(lo as int, hi as int);
    let mut relays: Vec<String> = Vec::new();
    let mut start = lo;
    let mut i = lo;
    while i < hi
        invariant
            lo <= start <= i <= hi <= chars@.len(),
            chars@ == text@,
            t == chars@.subrange(lo as int, hi as int),
            split_commas(t.take(i - lo)).last() == chars@.subrange(start as int, i as int),
            relays@.map_values(|r: String| r@) == split_commas(t.take(i - lo)).drop_last().map_values(
                |p: Seq<char>| trim(p),
            ),
        decreases hi - i,
    {
        let ghost before = split_commas(t.take(i - lo));
        let ghost old_relays = relays@.map_values(|r: String| r@);
        proof {
            lemma_split_commas_nonempty(t.take(i - lo));
        }
        assert(t.take(i + 1 - lo).drop_last() =~= t.take(i - lo));
        assert(t.take(i + 1 - lo).last() == chars@[i as int]);
        if chars[i] == ',' {
            let (a, b) = trim_bounds(&chars, start, i);
            let piece = String::from_str(text.substring_char(a, b));
            let ghost pv = piece@;
            assert(pv == trim(before.last()));
            relays.push(piece);
            proof {
                let after = split_commas(t.take(i + 1 - lo));
                assert(after == before.push(Seq::<char>::empty()));
                assert(after.drop_last() =~= before);
                assert(before =~= before.drop_last().push(before.last()));
                assert(relays@.map_values(|r: String| r@) =~= old_relays.push(pv));
                assert(before.map_values(|p: Seq<char>| trim(p)) =~= before.drop_last().map_values(
                    |p: Seq<char>| trim(p),
                ).push(trim(before.last())));
                assert(relays@.map_values(|r: String| r@) =~= after.drop_last().map_values(
                    |p: Seq<char>| trim(p),
                ));
            }
            start = i + 1;
        } else {
            proof {
                let after = split_commas(t.take(i + 1 - lo));
                assert(after.drop_last() =~= before.drop_last());
                assert(after.last() =~= chars@.subrange(start as int, i + 1));
            }
        }
        i = i + 1;
    }
    let ghost old_relays = relays@.map_values(|r: String| r@);
    proof {
        lemma_split_commas_nonempty(t.take(hi - lo));
    }
    let (a, b) = trim_bounds(&chars, start, hi);
    let piece = String::from_str(text.substring_char(a, b));
    let ghost pv = piece@;
    relays.push(piece);
    proof {
        let all = split_commas(t.take(hi - lo));
        assert(t.take(hi - lo) =~= t);
        assert(all =~= all.drop_last().push(all.last()));
        assert(pv == trim(all.last()));
        assert(relays@.map_values(|r: String| r@) =~= old_relays.push(pv));
        assert(all.map_values(|p: Seq<char>| trim(p)) =~= all.drop_last().map_values(
            |p: Seq<char>| trim(p),
        ).push(trim(all.last())));
        assert(relays@.map_values(|r: String| r@) =~= all.map_values(|p: Seq<char>| trim(p)));
    }
    Ok(relays)
}

} // verus!
