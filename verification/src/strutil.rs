//! Small verified string utilities: character-exact comparison, option-token
//! decomposition, decimal rendering, and sequence concatenation.  Everything
//! here is stated over `Seq<char>` views.

use vstd::prelude::*;

verus! {

/// `s` with one leading ':' removed, if it has one.  Alias text written
/// after a mode letter may be separated from it by a colon; the colon is
/// separator syntax, not part of the alias.
pub open spec fn strip_colon(s: Seq<char>) -> Seq<char> {
    if s.len() > 0 && s[0] == ':' {
        s.skip(1)
    } else {
        s
    }
}

/// Character-exact equality of two string slices.
pub fn token_eq(a: &str, b: &str) -> (r: bool)
    ensures
        r == (a@ == b@),
{
    let alen = a.unicode_len();
    let blen = b.unicode_len();
    if alen != blen {
        return false;
    }
    let mut i: usize = 0;
    while i < alen
        invariant
            i <= alen,
            alen == a@.len(),
            blen == b@.len(),
            alen == blen,
            forall|j: int| 0 <= j < i ==> a@[j] == b@[j],
        decreases alen - i,
    {
        if a.get_char(i) != b.get_char(i) {
            return false;
        }
        i += 1;
    }
    proof {
        assert(a@ =~= b@);
    }
    true
}

/// True when `s` begins with `-` followed by `letter`, the shape of every
/// recognized option token.
pub fn has_flag_prefix(s: &str, letter: char) -> (r: bool)
    ensures
        r == (s@.len() >= 2 && s@[0] == '-' && s@[1] == letter),
{
    let n = s.unicode_len();
    if n < 2 {
        return false;
    }
    if s.get_char(0) != '-' {
        return false;
    }
    s.get_char(1) == letter
}

/// The text of `s` from character `k` on.
pub fn suffix_from(s: &str, k: usize) -> (r: String)
    requires
        k <= s@.len(),
    ensures
        r@ == s@.skip(k as int),
{
    let n = s.unicode_len();
    let suf = s.substring_char(k, n);
    proof {
        assert(s@.subrange(k as int, s@.len() as int) =~= s@.skip(k as int));
    }
    String::from_str(suf)
}

/// The alias text carried by a two-character option token: everything after
/// the option letter, with one leading ':' (separator syntax) removed.
pub fn option_suffix(s: &str) -> (r: String)
    requires
        s@.len() >= 2,
    ensures
        r@ == strip_colon(s@.skip(2)),
{
    let n = s.unicode_len();
    let suf = s.substring_char(2, n);
    proof {
        assert(s@.subrange(2, s@.len() as int) =~= s@.skip(2));
    }
    if suf.unicode_len() > 0 && suf.get_char(0) == ':' {
        let m = suf.unicode_len();
        let stripped = suf.substring_char(1, m);
        proof {
            assert(suf@.subrange(1, suf@.len() as int) =~= s@.skip(2).skip(1));
        }
        String::from_str(stripped)
    } else {
        String::from_str(suf)
    }
}

/// Appends one string to `dst`.
pub fn push_string(dst: &mut Vec<String>, s: String)
    ensures
        final(dst).deep_view() == old(dst).deep_view().push(s@),
{
    let ghost pre = dst.deep_view();
    let ghost sv = s@;
    dst.push(s);
    proof {
        assert(dst.deep_view().len() == pre.len() + 1);
        assert(dst.deep_view()[pre.len() as int] == sv);
        assert forall|j: int| 0 <= j < dst.deep_view().len() implies dst.deep_view()[j] == pre.push(
            sv,
        )[j] by {
            if j < pre.len() {
                assert(dst.deep_view()[j] == pre[j]);
            }
        }
        assert(dst.deep_view() =~= pre.push(sv));
    }
}

/// Appends to `dst` every element of `src` from index `from` on, in order.
pub fn push_all_from(dst: &mut Vec<String>, src: &Vec<String>, from: usize)
    requires
        from <= src@.len(),
    ensures
        final(dst).deep_view() == old(dst).deep_view() + src.deep_view().skip(from as int),
{
    let mut i: usize = from;
    while i < src.len()
        invariant
            from <= i <= src@.len(),
            dst.deep_view() =~= old(dst).deep_view() + src.deep_view().subrange(
                from as int,
                i as int,
            ),
        decreases src@.len() - i,
    {
        let ghost pre = dst.deep_view();
        let ghost goal = old(dst).deep_view() + src.deep_view().subrange(from as int, i + 1 as int);
        dst.push(src[i].clone());
        proof {
            assert(dst.deep_view().len() == pre.len() + 1);
            assert(dst.deep_view()[pre.len() as int] == src.deep_view()[i as int]);
            assert forall|j: int| 0 <= j < dst.deep_view().len() implies dst.deep_view()[j]
                == goal[j] by {
                if j < pre.len() {
                    assert(dst.deep_view()[j] == pre[j]);
                } else {
                    assert(goal[j] == src.deep_view()[i as int]);
                }
            }
            assert(dst.deep_view() =~= goal);
        }
        i += 1;
    }
    proof {
        assert(src.deep_view().subrange(from as int, src.deep_view().len() as int)
            =~= src.deep_view().skip(from as int));
        assert(final(dst).deep_view() =~= old(dst).deep_view() + src.deep_view().skip(
            from as int,
        ));
    }
}

/// The decimal digit character for `d`.
pub open spec fn dec_digit(d: nat) -> char {
    if d == 0 {
        '0'
    } else if d == 1 {
        '1'
    } else if d == 2 {
        '2'
    } else if d == 3 {
        '3'
    } else if d == 4 {
        '4'
    } else if d == 5 {
        '5'
    } else if d == 6 {
        '6'
    } else if d == 7 {
        '7'
    } else if d == 8 {
        '8'
    } else {
        '9'
    }
}

/// The usual decimal rendering of `n`, most significant digit first, no
/// leading zero except for zero itself.
pub open spec fn dec_of(n: nat) -> Seq<char>
    decreases n,
{
    if n < 10 {
        seq![dec_digit(n)]
    } else {
        dec_of(n / 10) + seq![dec_digit(n % 10)]
    }
}

/// The one-character string for decimal digit `d`.
fn digit_str(d: usize) -> (r: &'static str)
    requires
        d < 10,
    ensures
        r@ == seq![dec_digit(d as nat)],
{
    let s: &'static str = if d == 0 {
        "0"
    } else if d == 1 {
        "1"
    } else if d == 2 {
        "2"
    } else if d == 3 {
        "3"
    } else if d == 4 {
        "4"
    } else if d == 5 {
        "5"
    } else if d == 6 {
        "6"
    } else if d == 7 {
        "7"
    } else if d == 8 {
        "8"
    } else {
        "9"
    };
    proof {
        reveal_strlit("0");
        reveal_strlit("1");
        reveal_strlit("2");
        reveal_strlit("3");
        reveal_strlit("4");
        reveal_strlit("5");
        reveal_strlit("6");
        reveal_strlit("7");
        reveal_strlit("8");
        reveal_strlit("9");
        assert(s@ =~= seq![dec_digit(d as nat)]);
    }
    s
}

/// Renders `n` in decimal.
pub fn usize_to_dec(n: usize) -> (r: String)
    ensures
        r@ == dec_of(n as nat),
    decreases n,
{
    if n < 10 {
        String::from_str(digit_str(n))
    } else {
        let mut s = usize_to_dec(n / 10);
        s.append(digit_str(n % 10));
        proof {
            assert(s@ =~= dec_of(n as nat));
        }
        s
    }
}

/// The hexadecimal digit character for `d`.
pub open spec fn hex_digit(d: int) -> char {
    if d < 10 {
        dec_digit(d as nat)
    } else if d == 10 {
        'a'
    } else if d == 11 {
        'b'
    } else if d == 12 {
        'c'
    } else if d == 13 {
        'd'
    } else if d == 14 {
        'e'
    } else {
        'f'
    }
}

/// The lowercase hexadecimal rendering of `bs`, two digits per byte, most
/// significant digit of each byte first.
pub open spec fn hex_of(bs: Seq<u8>) -> Seq<char> {
    Seq::new(
        2 * bs.len(),
        |i: int|
            if i % 2 == 0 {
                hex_digit(bs[i / 2] as int / 16)
            } else {
                hex_digit(bs[i / 2] as int % 16)
            },
    )
}

/// The one-character string for hexadecimal digit `d`.
fn hex_digit_str(d: u8) -> (r: &'static str)
    requires
        d < 16,
    ensures
        r@ == seq![hex_digit(d as int)],
{
    if d < 10 {
        digit_str(d as usize)
    } else {
        let s: &'static str = if d == 10 {
            "a"
        } else if d == 11 {
            "b"
        } else if d == 12 {
            "c"
        } else if d == 13 {
            "d"
        } else if d == 14 {
            "e"
        } else {
            "f"
        };
        proof {
            reveal_strlit("a");
            reveal_strlit("b");
            reveal_strlit("c");
            reveal_strlit("d");
            reveal_strlit("e");
            reveal_strlit("f");
            assert(s@ =~= seq![hex_digit(d as int)]);
        }
        s
    }
}

/// Renders `bs` in lowercase hexadecimal.
pub fn to_hex(bs: &Vec<u8>) -> (r: String)
    ensures
        r@ == hex_of(bs@),
{
    let mut out = String::new();
    let mut i: usize = 0;
    while i < bs.len()
        invariant
            i <= bs@.len(),
            out@.len() == 2 * i,
            forall|j: int| 0 <= j < 2 * i ==> out@[j] == hex_of(bs@)[j],
        decreases bs@.len() - i,
    {
        let b = bs[i];
        out.append(hex_digit_str(b / 16));
        out.append(hex_digit_str(b % 16));
        proof {
            assert(out@[2 * i as int] == hex_of(bs@)[2 * i as int]);
            assert(out@[2 * i as int + 1] == hex_of(bs@)[2 * i as int + 1]);
        }
        i += 1;
    }
    proof {
        assert(out@ =~= hex_of(bs@));
    }
    out
}

/// All the elements of `xs`, concatenated in order with nothing between.
pub open spec fn concat_all(xs: Seq<Seq<char>>) -> Seq<char>
    decreases xs.len(),
{
    if xs.len() == 0 {
        Seq::empty()
    } else {
        xs[0] + concat_all(xs.skip(1))
    }
}

pub proof fn lemma_concat_all_push(xs: Seq<Seq<char>>, x: Seq<char>)
    ensures
        concat_all(xs.push(x)) == concat_all(xs) + x,
    decreases xs.len(),
{
    reveal_with_fuel(concat_all, 3);
    if xs.len() == 0 {
        assert(xs.push(x).skip(1) =~~= Seq::<Seq<char>>::empty());
        assert(concat_all(xs.push(x)) == xs.push(x)[0] + concat_all(xs.push(x).skip(1)));
        assert(concat_all(xs.push(x)) =~= concat_all(xs) + x);
    } else {
        assert(xs.push(x).skip(1) =~~= xs.skip(1).push(x));
        lemma_concat_all_push(xs.skip(1), x);
        assert(xs.push(x)[0] == xs[0]);
        assert(concat_all(xs.push(x)) == xs[0] + (concat_all(xs.skip(1)) + x));
        assert(concat_all(xs) == xs[0] + concat_all(xs.skip(1)));
        assert(xs[0] + (concat_all(xs.skip(1)) + x) =~= (xs[0] + concat_all(xs.skip(1))) + x);
    }
}

/// Concatenates the strings of `xs` in order, with nothing between.
pub fn concat_strings(xs: &Vec<String>) -> (r: String)
    ensures
        r@ == concat_all(xs.deep_view()),
{
    let mut out = String::new();
    let mut i: usize = 0;
    while i < xs.len()
        invariant
            i <= xs@.len(),
            out@ == concat_all(xs.deep_view().take(i as int)),
        decreases xs@.len() - i,
    {
        out.append(xs[i].as_str());
        proof {
            assert(xs.deep_view().take(i as int).push(xs.deep_view()[i as int])
                =~= xs.deep_view().take(i + 1 as int));
            lemma_concat_all_push(xs.deep_view().take(i as int), xs.deep_view()[i as int]);
        }
        i += 1;
    }
    proof {
        assert(xs.deep_view().take(xs.deep_view().len() as int) =~= xs.deep_view());
    }
    out
}

} // verus!
