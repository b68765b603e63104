use vstd::prelude::*;

verus! {

/// Compares two string slices by their character sequences.
pub fn str_eq(a: &str, b: &str) -> (r: bool)
    ensures
        r == (a@ == b@),
{
    let alen = a.unicode_len();
    let blen = b.unicode_len();
    if alen != blen {
        assert(a@ != b@) by {
            assert(a@.len() != b@.len());
        }
        return false;
    }
    let mut i: usize = 0;
    while i < alen
        invariant
            i <= alen,
            alen == a@.len(),
            alen == b@.len(),
            forall|j: int| 0 <= j < i ==> a@[j] == b@[j],
        decreases alen - i,
    {
        if a.get_char(i) != b.get_char(i) {
            return false;
        }
        i += 1;
    }
    proof {
        assert(a@ =~= b@);
    }
    true
}

} // verus!

verus! {

/// The text with every occurrence of `pat` replaced by `rep`, scanning
/// left to right without overlap; an empty pattern leaves the text as it
/// stands.
pub open spec fn replace_spec(s: Seq<char>, pat: Seq<char>, rep: Seq<char>) -> Seq<char>
    decreases s.len(),
{
    if s.len() == 0 || pat.len() == 0 {
        s
    } else if s.len() >= pat.len() && s.take(pat.len() as int) == pat {
        rep + replace_spec(s.skip(pat.len() as int), pat, rep)
    } else {
        s.take(1) + replace_spec(s.skip(1), pat, rep)
    }
}

/// Replaces every occurrence of `pat` in `s` by `rep`, leftmost first
/// without overlap, exactly as [`replace_spec`] describes.
pub fn replace_all(s: &str, pat: &str, rep: &str) -> (r: String)
    ensures
        r@ == replace_spec(s@, pat@, rep@),
{
    let len = s.unicode_len();
    let plen = pat.unicode_len();
    if plen == 0 {
        return String::from_str(s);
    }
    let mut out = String::new();
    let mut i: usize = 0;
    proof {
        assert(s@.skip(0) =~= s@);
        assert(out@ + replace_spec(s@, pat@, rep@) =~= replace_spec(s@, pat@, rep@));
    }
    while i < len
        invariant
            i <= len,
            len == s@.len(),
            plen == pat@.len(),
            plen >= 1,
            replace_spec(s@, pat@, rep@) == out@ + replace_spec(s@.skip(i as int), pat@, rep@),
        decreases len - i,
    {
        let ghost rest = s@.skip(i as int);
        if plen <= len - i && str_eq(s.substring_char(i, i + plen), pat) {
            let ghost old_out = out@;
            out.append(rep);
            proof {
                assert(rest.take(plen as int) =~= s@.subrange(i as int, i as int + plen as int));
                assert(rest.skip(plen as int) =~= s@.skip(i as int + plen as int));
                assert(replace_spec(rest, pat@, rep@) == rep@ + replace_spec(
                    s@.skip(i as int + plen as int),
                    pat@,
                    rep@,
                ));
                assert(old_out + replace_spec(rest, pat@, rep@) =~= out@ + replace_spec(
                    s@.skip(i as int + plen as int),
                    pat@,
                    rep@,
                ));
            }
            i += plen;
        } else {
            let c = s.substring_char(i, i + 1);
            let ghost old_out = out@;
            out.append(c);
            proof {
                assert(rest.take(1) =~= s@.subrange(i as int, i as int + 1));
                assert(rest.skip(1) =~= s@.skip(i as int + 1));
                if rest.len() >= plen {
                    assert(rest.take(plen as int) =~= s@.subrange(
                        i as int,
                        i as int + plen as int,
                    ));
                    assert(rest.take(plen as int) != pat@);
                }
                assert(replace_spec(rest, pat@, rep@) == rest.take(1) + replace_spec(
                    s@.skip(i as int + 1),
                    pat@,
                    rep@,
                ));
                assert(old_out + replace_spec(rest, pat@, rep@) =~= out@ + replace_spec(
                    s@.skip(i as int + 1),
                    pat@,
                    rep@,
                ));
            }
            i += 1;
        }
    }
    proof {
        assert(s@.skip(len as int) =~= Seq::<char>::empty());
        assert(replace_spec(s@, pat@, rep@) =~= out@);
    }
    out
}

} // verus!
