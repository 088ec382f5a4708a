use vstd::prelude::*;
use vstd::string::*;

verus! {

/// `s` with every occurrence of `q` doubled.
pub open spec fn escape_doubled(s: Seq<char>, q: char) -> Seq<char>
    decreases s.len(),
{
    if s.len() == 0 {
        Seq::empty()
    } else if s[0] == q {
        seq![q, q] + escape_doubled(s.drop_first(), q)
    } else {
        seq![s[0]] + escape_doubled(s.drop_first(), q)
    }
}

/// `parts` joined by `sep`.
pub open spec fn joined(parts: Seq<Seq<char>>, sep: Seq<char>) -> Seq<char>
    decreases parts.len(),
{
    if parts.len() == 0 {
        Seq::empty()
    } else if parts.len() == 1 {
        parts[0]
    } else {
        parts[0] + sep + joined(parts.drop_first(), sep)
    }
}

/// Relies on `str`'s `PartialEq`: two string slices are equal exactly when
/// their character sequences are.
#[verifier::external_body]
pub fn str_eq(a: &str, b: &str) -> (r: bool)
    ensures
        r == (a@ == b@),
{
    a == b
}

/// Relies on `str::replace`: replacing every occurrence of `q` with the
/// two-character string `qq` doubles each occurrence and keeps the rest.
#[verifier::external_body]
pub fn double_char(s: &str, q: char) -> (r: String)
    ensures
        r@ == escape_doubled(s@, q),
{
    let mut pair = String::new();
    pair.push(q);
    pair.push(q);
    s.replace(q, pair.as_str())
}

/// Joining a non-empty list is joining its front and appending the
/// separator and the last part; joining a single part is that part.
pub proof fn lemma_joined_snoc(parts: Seq<Seq<char>>, sep: Seq<char>)
    requires
        parts.len() >= 1,
    ensures
        parts.len() == 1 ==> joined(parts, sep) == parts.last(),
        parts.len() > 1 ==> joined(parts, sep) == joined(parts.drop_last(), sep) + sep
            + parts.last(),
    decreases parts.len(),
{
    if parts.len() > 1 {
        lemma_joined_snoc(parts.drop_first(), sep);
        assert(parts.drop_first().drop_last() =~= parts.drop_last().drop_first());
        if parts.len() == 2 {
            assert(joined(parts, sep) == parts[0] + sep + joined(parts.drop_first(), sep));
            assert(parts.drop_last() =~= seq![parts[0]]);
        } else {
            assert(joined(parts.drop_last(), sep) == parts.drop_last()[0] + sep + joined(
                parts.drop_last().drop_first(),
                sep,
            ));
            assert((parts[0] + sep + (joined(parts.drop_first().drop_last(), sep) + sep
                + parts.last())) =~= ((parts[0] + sep + joined(parts.drop_first().drop_last(), sep))
                + sep + parts.last()));
        }
    }
}

/// Whether a list of names holds `s`.
pub fn vec_contains_str(v: &Vec<String>, s: &str) -> (b: bool)
    ensures
        b == v.deep_view().contains(s@),
{
    let mut i: usize = 0;
    while i < v.len()
        invariant
            0 <= i <= v.len(),
            forall|j: int| 0 <= j < i ==> v.deep_view()[j] != s@,
        decreases v.len() - i,
    {
        assert(v.deep_view()[i as int] == v[i as int]@);
        if str_eq(v[i].as_str(), s) {
            return true;
        }
        i += 1;
    }
    false
}

/// Move every statement of `src` to the end of `out`, in order.
pub fn append_all(out: &mut Vec<String>, src: Vec<String>)
    ensures
        final(out).deep_view() == old(out).deep_view() + src.deep_view(),
{
    let ghost base = out@;
    let mut i: usize = 0;
    while i < src.len()
        invariant
            0 <= i <= src.len(),
            out@ =~= base + src@.take(i as int),
        decreases src.len() - i,
    {
        let s = src[i].clone();
        assert(s == src@[i as int]);
        out.push(s);
        proof {
            assert(out@ =~= base + src@.take(i + 1));
        }
        i += 1;
    }
    proof {
        assert(src@.take(src@.len() as int) =~= src@);
        assert(out@ == base + src@);
        assert(out.deep_view() =~= old(out).deep_view() + src.deep_view());
    }
}

/// Copy a list of names given as string slices.
pub fn copy_names(names: &[&str]) -> (r: Vec<String>)
    ensures
        r.deep_view() =~= names@.map_values(|b: &str| b@),
{
    let mut r: Vec<String> = Vec::new();
    let mut i: usize = 0;
    while i < names.len()
        invariant
            0 <= i <= names.len(),
            r.deep_view() =~= names@.take(i as int).map_values(|b: &str| b@),
        decreases names.len() - i,
    {
        let name: &str = names[i];
        r.push(name.to_owned());
        assert(names@.take(i + 1).map_values(|b: &str| b@) =~= names@.take(i as int).map_values(
            |b: &str| b@,
        ).push(name@));
        i += 1;
    }
    assert(names@.take(names@.len() as int) =~= names@);
    r
}

/// The elements of `v`, joined by a comma and a space.
pub fn join_comma_space(v: &Vec<String>) -> (r: String)
    ensures
        r@ == joined(v.deep_view(), ", "@),
{
    let mut out = String::new();
    let mut i: usize = 0;
    while i < v.len()
        invariant
            0 <= i <= v.len(),
            out@ == joined(v.deep_view().take(i as int), ", "@),
        decreases v.len() - i,
    {
        if i > 0 {
            out.append(", ");
        }
        out.append(v[i].as_str());
        proof {
            assert(v.deep_view()[i as int] == v[i as int]@);
            assert(v.deep_view().take(i + 1).drop_last() =~= v.deep_view().take(i as int));
            lemma_joined_snoc(v.deep_view().take(i + 1), ", "@);
        }
        i += 1;
    }
    proof {
        assert(v.deep_view().take(v@.len() as int) =~= v.deep_view());
    }
    out
}

} // verus!
