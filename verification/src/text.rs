//! Helpers for assembling generated source text.
use vstd::prelude::*;
use vstd::string::*;

verus! {

/// Appending empty text changes nothing.
pub broadcast proof fn lemma_concat_empty(a: Seq<char>)
    ensures
        #[trigger] (a + Seq::<char>::empty()) == a,
{
    assert(a + Seq::<char>::empty() =~= a);
}

/// Whether `s` is exactly the text `lit`.
pub fn text_is(s: &String, lit: &str) -> (b: bool)
    ensures
        b == (s@ == lit@),
{
    let l: String = lit.to_owned();
    *s == l
}

/// The decimal digit `d` as text.
pub open spec fn digit_text(d: nat) -> Seq<char> {
    if d == 0 { "0"@ }
    else if d == 1 { "1"@ }
    else if d == 2 { "2"@ }
    else if d == 3 { "3"@ }
    else if d == 4 { "4"@ }
    else if d == 5 { "5"@ }
    else if d == 6 { "6"@ }
    else if d == 7 { "7"@ }
    else if d == 8 { "8"@ }
    else { "9"@ }
}

/// The decimal representation of `n`, most significant digit first, without leading zeros.
pub open spec fn decimal_text(n: nat) -> Seq<char>
    decreases n,
{
    if n < 10 {
        digit_text(n)
    } else {
        decimal_text(n / 10) + digit_text(n % 10)
    }
}

fn push_digit(out: &mut String, d: usize)
    requires
        d < 10,
    ensures
        final(out)@ == old(out)@ + digit_text(d as nat),
{
    if d == 0 { out.append("0") }
    else if d == 1 { out.append("1") }
    else if d == 2 { out.append("2") }
    else if d == 3 { out.append("3") }
    else if d == 4 { out.append("4") }
    else if d == 5 { out.append("5") }
    else if d == 6 { out.append("6") }
    else if d == 7 { out.append("7") }
    else if d == 8 { out.append("8") }
    else { out.append("9") }
}

/// Appends the decimal representation of `n` to `out`.
pub fn push_decimal(out: &mut String, n: usize)
    ensures
        final(out)@ == old(out)@ + decimal_text(n as nat),
    decreases n,
{
    if n < 10 {
        push_digit(out, n);
    } else {
        push_decimal(out, n / 10);
        push_digit(out, n % 10);
    }
}

/// Whether the characters of `s` are exactly `cs`.
pub fn text_eq_chars(s: &str, cs: &Vec<char>) -> (b: bool)
    ensures
        b == (s@ == cs@),
{
    let n = s.unicode_len();
    if n != cs.len() {
        return false;
    }
    let mut i: usize = 0;
    while i < n
        invariant
            n == s@.len(),
            n == cs@.len(),
            i <= n,
            forall|j: int| 0 <= j < i ==> s@[j] == cs@[j],
        decreases n - i,
    {
        if s.get_char(i) != cs[i] {
            return false;
        }
        i = i + 1;
    }
    assert(s@ =~= cs@);
    true
}

/// The pieces of `s` between the non-overlapping occurrences of `::`, found
/// from the left, as `str::split("::")` gives them.
pub open spec fn split_double_colon(s: Seq<char>) -> Seq<Seq<char>>
    decreases s.len(),
{
    if s.len() < 2 {
        seq![s]
    } else if s[0] == ':' && s[1] == ':' {
        seq![Seq::<char>::empty()] + split_double_colon(s.skip(2))
    } else {
        let rest = split_double_colon(s.skip(1));
        rest.update(0, seq![s[0]] + rest[0])
    }
}

/// Splitting always gives at least one piece.
pub proof fn lemma_split_nonempty(s: Seq<char>)
    ensures
        split_double_colon(s).len() >= 1,
    decreases s.len(),
{
    if s.len() >= 2 {
        if s[0] == ':' && s[1] == ':' {
            lemma_split_nonempty(s.skip(2));
        } else {
            lemma_split_nonempty(s.skip(1));
        }
    }
}

/// The views of a vector of character vectors.
pub open spec fn chars_views(v: Seq<Vec<char>>) -> Seq<Seq<char>> {
    v.map_values(|c: Vec<char>| c@)
}

/// Splits `s` at each `::`, as `str::split("::")` does.
pub fn split_on_double_colon(s: &str) -> (pieces: Vec<Vec<char>>)
    ensures
        chars_views(pieces@) == split_double_colon(s@),
{
    let n = s.unicode_len();
    let mut pieces: Vec<Vec<char>> = Vec::new();
    let mut cur: Vec<char> = Vec::new();
    let mut i: usize = 0;
    proof {
        lemma_split_nonempty(s@);
        assert(s@.skip(0) =~= s@);
        let t = split_double_colon(s@);
        assert(t.update(0, cur@ + t[0]) =~= t);
        assert(chars_views(pieces@) + t.update(0, cur@ + t[0]) =~= t);
    }
    while i < n
        invariant
            n == s@.len(),
            i <= n,
            ({
                let t = split_double_colon(s@.skip(i as int));
                split_double_colon(s@) == chars_views(pieces@) + t.update(0, cur@ + t[0])
            }),
        decreases n - i,
    {
        let ghost old_pieces = pieces@;
        let ghost old_cur = cur@;
        let ghost rest = s@.skip(i as int);
        proof {
            lemma_split_nonempty(rest);
        }
        if i + 1 < n && s.get_char(i) == ':' && s.get_char(i + 1) == ':' {
            let done = cur;
            cur = Vec::new();
            pieces.push(done);
            proof {
                assert(rest[0] == ':' && rest[1] == ':');
                assert(rest.skip(2) =~= s@.skip(i + 2));
                let t2 = split_double_colon(rest.skip(2));
                lemma_split_nonempty(rest.skip(2));
                assert(chars_views(pieces@) =~= chars_views(old_pieces).push(old_cur));
                assert(t2.update(0, cur@ + t2[0]) =~= t2);
                let t = split_double_colon(rest);
                assert(t.update(0, old_cur + t[0]) =~= seq![old_cur] + t2);
            }
            i = i + 2;
        } else {
            let c = s.get_char(i);
            cur.push(c);
            proof {
                assert(rest[0] == c);
                assert(rest.skip(1) =~= s@.skip(i + 1));
                let r = split_double_colon(rest.skip(1));
                lemma_split_nonempty(rest.skip(1));
                let t = split_double_colon(rest);
                if rest.len() < 2 {
                    assert(rest.skip(1) =~= Seq::<char>::empty());
                    assert(r =~= seq![Seq::<char>::empty()]);
                    assert(t =~= seq![rest]);
                    assert(rest =~= seq![c]);
                } else {
                    assert(rest[1] == s@[i + 1]);
                    assert(!(rest[0] == ':' && rest[1] == ':'));
                    assert(t == r.update(0, seq![c] + r[0]));
                }
                assert(cur@ =~= old_cur.push(c));
                assert(t[0] == seq![c] + r[0]);
                assert(old_cur + t[0] =~= cur@ + r[0]);
                assert(t.update(0, old_cur + t[0]) =~= r.update(0, cur@ + r[0]));
            }
            i = i + 1;
        }
    }
    proof {
        assert(s@.skip(n as int) =~= Seq::<char>::empty());
        let t = split_double_colon(s@.skip(n as int));
        assert(t =~= seq![Seq::<char>::empty()]);
        assert(cur@ + t[0] =~= cur@);
    }
    pieces.push(cur);
    proof {
        let ghost pv = chars_views(pieces@);
        assert(chars_views(pieces@) =~= chars_views(pieces@.drop_last()).push(pieces@.last()@));
    }
    pieces
}

} // verus!
