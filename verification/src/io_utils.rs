//! File names and temporary folders.
use vstd::prelude::*;
use rand::distr::SampleString;
use crate::utils::text::{concat, find_char, lemma_find_char, path_join, path_join_seq};

verus! {

/// `s` without its extensions: the text before the first `.` that is not
/// its first character.
pub open spec fn without_extensions(s: Seq<char>) -> Seq<char> {
    if s.len() == 0 {
        s
    } else if find_char(s.skip(1), '.') >= 0 {
        s.take(find_char(s.skip(1), '.') + 1)
    } else {
        s
    }
}

/// A file name without its extensions (`GE-Proton9-20.tar.gz` gives
/// `GE-Proton9-20`).
pub fn strip_all_extensions(name: &str) -> (r: &str)
    ensures
        r@ == without_extensions(name@),
{
    let n: usize = name.unicode_len();
    if n == 0 {
        return name;
    }
    let mut i: usize = 1;
    while i < n
        invariant
            1 <= i <= n,
            n == name@.len(),
            forall|j: int| 1 <= j < i ==> name@[j] != '.',
        decreases n - i,
    {
        if name.get_char(i) == '.' {
            proof {
                let t = name@.skip(1);
                lemma_find_char(t, '.');
                let k = find_char(t, '.');
                assert(t[i - 1] == '.');
                if k < 0 || k > i - 1 {
                    assert(t[i - 1] != '.');
                } else if k < i - 1 {
                    assert(t[k] == name@[k + 1]);
                }
            }
            return name.substring_char(0, i);
        }
        i = i + 1;
    }
    proof {
        let t = name@.skip(1);
        lemma_find_char(t, '.');
        let k = find_char(t, '.');
        if k >= 0 {
            assert(t[k] == name@[k + 1]);
        }
    }
    name
}

/// `c` is an ASCII letter or digit.
pub open spec fn is_ascii_alphanumeric(c: char) -> bool {
    ('a' <= c && c <= 'z') || ('A' <= c && c <= 'Z') || ('0' <= c && c <= '9')
}

/// `rand::distr::Alphanumeric` sampled `len` times into a string
/// (`SampleString::sample_string` with `rand::rng()`): `len` characters,
/// each an ASCII letter or digit. Which ones is left to chance.
#[verifier::external_body]
fn random_alphanumeric(len: usize) -> (r: String)
    ensures
        r@.len() == len,
        forall|i: int| 0 <= i < r@.len() ==> is_ascii_alphanumeric(#[trigger] r@[i]),
{
    rand::distr::Alphanumeric.sample_string(&mut rand::rng(), len)
}

/// A name for a new folder in `temp_dir` (the system's temporary
/// directory): `prefix`, a dash and eight random letters and digits.
pub fn get_temp_folder(temp_dir: &str, prefix: &str) -> (r: String)
    ensures
        exists|suffix: Seq<char>|
            #![trigger path_join_seq(temp_dir@, prefix@ + "-"@ + suffix)]
            suffix.len() == 8
            && (forall|i: int| 0 <= i < 8 ==> is_ascii_alphanumeric(#[trigger] suffix[i]))
            && r@ == path_join_seq(temp_dir@, prefix@ + "-"@ + suffix),
{
    let suffix = random_alphanumeric(8);
    let mut name = concat(prefix, "-");
    name.append(suffix.as_str());
    let r = path_join(temp_dir, name.as_str());
    assert(r@ == path_join_seq(temp_dir@, prefix@ + "-"@ + suffix@));
    r
}

} // verus!
