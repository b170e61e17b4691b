use vstd::prelude::*;
use vstd::string::*;

use crate::text::str_eq;

verus! {

/// The MD5 digest of a text's UTF-8 bytes.
pub uninterp spec fn md5_of_text(s: Seq<char>) -> Seq<u8>;

/// Relies on `md5::compute`: the 16-byte MD5 digest of the text's UTF-8 bytes.
#[verifier::external_body]
fn md5_digest(s: &str) -> (r: Vec<u8>)
    ensures
        r@ == md5_of_text(s@),
        r@.len() == 16,
{
    md5::compute(s.as_bytes()).0.to_vec()
}

/// The lower-case hexadecimal digit for `d < 16`.
pub open spec fn hex_digit(d: nat) -> char {
    seq!['0', '1', '2', '3', '4', '5', '6', '7', '8', '9', 'a', 'b', 'c', 'd', 'e', 'f'][d as int]
}

/// Two lower-case hexadecimal digits per byte, high nibble first.
pub open spec fn hex_of(b: Seq<u8>) -> Seq<char>
    decreases b.len(),
{
    if b.len() == 0 {
        seq![]
    } else {
        hex_of(b.drop_last()) + seq![hex_digit((b.last() / 16) as nat), hex_digit((b.last() % 16) as nat)]
    }
}

const HEX_DIGITS: &'static str = "0123456789abcdef";

/// Lower-case hexadecimal text of the bytes.
pub fn lower_hex(bytes: &Vec<u8>) -> (r: String)
    ensures
        r@ == hex_of(bytes@),
{
    proof { reveal_strlit("0123456789abcdef"); }
    let mut out = String::new();
    let mut i: usize = 0;
    while i < bytes.len()
        invariant
            i <= bytes@.len(),
            out@ == hex_of(bytes@.subrange(0, i as int)),
            HEX_DIGITS@ == seq!['0', '1', '2', '3', '4', '5', '6', '7', '8', '9', 'a', 'b', 'c', 'd', 'e', 'f'],
        decreases bytes@.len() - i,
    {
        proof {
            let s = bytes@.subrange(0, i + 1);
            assert(s.drop_last() =~= bytes@.subrange(0, i as int));
            assert(s.last() == bytes@[i as int]);
        }
        let b = bytes[i];
        let hi = (b / 16) as usize;
        let lo = (b % 16) as usize;
        let h = HEX_DIGITS.substring_char(hi, hi + 1);
        let l = HEX_DIGITS.substring_char(lo, lo + 1);
        out.append(h);
        out.append(l);
        assert(out@ =~= hex_of(bytes@.subrange(0, i + 1)));
        i = i + 1;
    }
    assert(bytes@.subrange(0, i as int) =~= bytes@);
    out
}

/// The id of a container named `name`.
pub open spec fn container_id_of(name: Seq<char>) -> Seq<char> {
    hex_of(md5_of_text(name))
}

/// The id of a container named `name`: the MD5 digest of the name's UTF-8
/// bytes, in lower-case hexadecimal.
pub fn container_id(name: &str) -> (r: String)
    ensures
        r@ == container_id_of(name@),
{
    let digest = md5_digest(name);
    lower_hex(&digest)
}

/// What follows the last `/` of a path (all of it where there is none).
pub open spec fn last_segment(s: Seq<char>) -> Seq<char>
    decreases s.len(),
{
    if s.len() == 0 {
        s
    } else if s.last() == '/' {
        seq![]
    } else {
        last_segment(s.drop_last()).push(s.last())
    }
}

/// The text with every occurrence of `pat`, found from the left and not
/// overlapping, taken out.
pub open spec fn remove_all(s: Seq<char>, pat: Seq<char>) -> Seq<char>
    decreases s.len(),
{
    if s.len() == 0 || pat.len() == 0 {
        s
    } else if pat.len() <= s.len() && s.subrange(0, pat.len() as int) == pat {
        remove_all(s.subrange(pat.len() as int, s.len() as int), pat)
    } else {
        seq![s[0]] + remove_all(s.subrange(1, s.len() as int), pat)
    }
}

/// The container name that a file path gives: its last segment without
/// `.kdbx`.
pub open spec fn container_name_of(path: Seq<char>) -> Seq<char> {
    remove_all(last_segment(path), ".kdbx"@)
}

fn last_segment_str(path: &str) -> (r: &str)
    ensures
        r@ == last_segment(path@),
{
    let n = path.unicode_len();
    let mut i: usize = n;
    assert(path@.subrange(0, n as int) =~= path@);
    assert(path@.subrange(n as int, n as int) =~= Seq::<char>::empty());
    assert(last_segment(path@) =~= last_segment(path@.subrange(0, i as int)) + path@.subrange(i as int, n as int));
    while i > 0 && path.get_char(i - 1) != '/'
        invariant
            n == path@.len(),
            i <= n,
            last_segment(path@) == last_segment(path@.subrange(0, i as int)) + path@.subrange(i as int, n as int),
        decreases i,
    {
        proof {
            let s = path@.subrange(0, i as int);
            assert(s.drop_last() =~= path@.subrange(0, i - 1));
            assert(s.last() == path@[i - 1]);
            assert(path@.subrange(i - 1, n as int) =~= seq![path@[i - 1]] + path@.subrange(i as int, n as int));
            assert(last_segment(s) == last_segment(s.drop_last()).push(s.last()));
            assert(last_segment(path@.subrange(0, i - 1)) + path@.subrange(i - 1, n as int)
                =~= last_segment(s) + path@.subrange(i as int, n as int));
        }
        i = i - 1;
    }
    proof {
        let s = path@.subrange(0, i as int);
        if i > 0 {
            assert(s.last() == path@[i - 1]);
        }
        assert(last_segment(s) =~= seq![]);
        assert(path@.subrange(0, n as int) =~= path@);
    }
    path.substring_char(i, n)
}

/// Takes every `.kdbx` out of `s`, left to right.
fn remove_kdbx(s: &str) -> (r: String)
    ensures
        r@ == remove_all(s@, ".kdbx"@),
{
    proof { reveal_strlit(".kdbx"); }
    let pat = ".kdbx";
    let n = s.unicode_len();
    let m: usize = 5;
    let mut out = String::new();
    let mut i: usize = 0;
    assert(s@.subrange(0, n as int) =~= s@);
    assert(out@ + remove_all(s@.subrange(0, n as int), pat@) =~= remove_all(s@, pat@));
    while i < n
        invariant
            n == s@.len(),
            m == pat@.len(),
            m == 5,
            pat@ == ".kdbx"@,
            i <= n,
            out@ + remove_all(s@.subrange(i as int, n as int), pat@) == remove_all(s@, pat@),
        decreases n - i,
    {
        let ghost rest = s@.subrange(i as int, n as int);
        if m <= n - i && str_eq(s.substring_char(i, i + m), pat) {
            proof {
                assert(rest.subrange(0, m as int) =~= s@.subrange(i as int, i + m));
                assert(rest.subrange(m as int, rest.len() as int) =~= s@.subrange(i + m, n as int));
            }
            i = i + m;
        } else {
            let one = s.substring_char(i, i + 1);
            let ghost out0 = out@;
            proof {
                if m <= n - i {
                    assert(rest.subrange(0, m as int) =~= s@.subrange(i as int, i + m));
                }
                assert(rest.subrange(1, rest.len() as int) =~= s@.subrange(i + 1, n as int));
                assert(one@ =~= seq![rest[0]]);
                assert(remove_all(rest, pat@) == seq![rest[0]] + remove_all(rest.subrange(1, rest.len() as int), pat@));
            }
            out.append(one);
            proof {
                assert(out@ + remove_all(s@.subrange(i + 1, n as int), pat@) =~= out0 + remove_all(rest, pat@));
            }
            i = i + 1;
        }
    }
    proof {
        assert(s@.subrange(n as int, n as int) =~= Seq::<char>::empty());
        assert(out@ =~= remove_all(s@, pat@));
    }
    out
}

/// The container name that a file path gives: its last segment without `.kdbx`.
pub fn container_name(path: &str) -> (r: String)
    ensures
        r@ == container_name_of(path@),
{
    remove_kdbx(last_segment_str(path))
}

} // verus!
