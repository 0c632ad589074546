//! Small verified helpers for moving between `String`, `&str` and `Vec<char>`,
//! and for building the fixed file names the engine writes under its
//! download and cache directories.
use vstd::prelude::*;
use vstd::string::StringExecFns;

verus! {

/// Collect the characters of a string slice into a vector.
pub fn chars_of(s: &str) -> (v: Vec<char>)
    ensures
        v@ == s@,
{
    let mut v: Vec<char> = Vec::new();
    for c in it: s.chars()
        invariant
            v@ == it.seq().take(it.index() as int),
    {
        v.push(c);
    }
    proof {
        assert(v@ =~= s@);
    }
    v
}

/// Build a `String` from a vector of characters.
///
/// Relies on `<String as FromIterator<char>>::from_iter` (through `collect`):
/// the resulting string holds exactly the characters of the iterator, in
/// order.
#[verifier::external_body]
pub(crate) fn string_from_chars(v: &Vec<char>) -> (s: String)
    ensures
        s@ == v@,
{
    v.iter().collect()
}

/// Concatenation of two string slices.
pub fn concat_str(a: &str, b: &str) -> (r: String)
    ensures
        r@ == a@ + b@,
{
    let mut r = String::from_str(a);
    r.append(b);
    r
}

/// Directory that holds one novel's downloaded artifacts.
pub fn novel_dir(download_folder: &str, novel_id: &str) -> (r: String)
    ensures
        r@ == download_folder@ + "/"@ + novel_id@,
{
    let mut r = String::from_str(download_folder);
    r.append("/");
    r.append(novel_id);
    r
}

/// File name of a downloaded chapter, inside the novel's directory.
pub fn chapter_file_name(chapter_id: &str) -> (r: String)
    ensures
        r@ == "chapter_"@ + chapter_id@,
{
    concat_str("chapter_", chapter_id)
}

/// File name of a downloaded illustration, inside the novel's directory.
pub fn picture_file_name(url_md5: &str) -> (r: String)
    ensures
        r@ == "picture_"@ + url_md5@,
{
    concat_str("picture_", url_md5)
}

/// File name of a novel's cover image, inside the novel's directory.
pub fn cover_file_name() -> (r: String)
    ensures
        r@ == "cover"@,
{
    String::from_str("cover")
}

/// The characters of `v`'s strings joined with a comma between them.
pub open spec fn joined_comma(v: Seq<String>) -> Seq<char>
    decreases v.len(),
{
    if v.len() == 0 {
        Seq::empty()
    } else if v.len() == 1 {
        v[0]@
    } else {
        joined_comma(v.drop_last()) + ","@ + v.last()@
    }
}

/// Join strings with commas, as tag lists are stored.
pub fn join_comma(v: &Vec<String>) -> (r: String)
    ensures
        r@ == joined_comma(v@),
{
    let mut r = String::new();
    let mut k: usize = 0;
    while k < v.len()
        invariant
            0 <= k <= v@.len(),
            r@ == joined_comma(v@.take(k as int)),
        decreases v@.len() - k,
    {
        proof {
            let t = v@.take(k + 1);
            assert(t.drop_last() =~= v@.take(k as int));
            assert(t.last() == v@[k as int]);
            if k == 0 {
                assert(joined_comma(t) == v@[k as int]@);
            } else {
                assert(joined_comma(t) == joined_comma(v@.take(k as int)) + ","@ + v@[k as int]@);
            }
        }
        if k > 0 {
            r.append(",");
        }
        r.append(v[k].as_str());
        k += 1;
    }
    proof {
        assert(v@.take(v@.len() as int) =~= v@);
    }
    r
}

/// Equality of two string slices, decided through their owned views.
pub fn str_eq(a: &str, b: &str) -> (r: bool)
    ensures
        r == (a@ == b@),
{
    let sa = a.to_owned();
    let sb = b.to_owned();
    sa == sb
}

/// Does the vector hold a string equal to `s`?
pub fn contains_str(v: &Vec<String>, s: &str) -> (r: bool)
    ensures
        r == exists|i: int| 0 <= i < v@.len() && v@[i]@ == s@,
{
    let mut k: usize = 0;
    while k < v.len()
        invariant
            0 <= k <= v@.len(),
            forall|i: int| 0 <= i < k ==> v@[i]@ != s@,
        decreases v@.len() - k,
    {
        if str_eq(v[k].as_str(), s) {
            return true;
        }
        k += 1;
    }
    false
}

} // verus!
