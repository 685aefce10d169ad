use vstd::prelude::*;
use crate::text::{
    decimal, decimal_string, find_first, find_last, first_index_of, last_index_of,
    lemma_decimal_injective, lemma_first_index_of, lemma_last_index_of,
};

verus! {

broadcast use vstd::seq_lib::group_seq_properties;

/// Name used for a download when neither the response nor the URL gives one.
pub open spec fn fallback_name() -> Seq<char> {
    seq!['d', 'o', 'w', 'n', 'l', 'o', 'a', 'd']
}

fn fallback_download_name() -> (r: String)
    ensures
        r@ == fallback_name(),
{
    proof {
        reveal_strlit("download");
    }
    let r = String::from_str("download");
    assert(r@ =~= fallback_name());
    r
}

/// Where a file name splits into stem and extension: at its last dot, unless that
/// dot is the first character (a hidden file such as `.bashrc` has no extension).
pub open spec fn ext_start(name: Seq<char>) -> int {
    let k = last_index_of(name, '.');
    if k > 0 { k } else { name.len() as int }
}

/// The file name without its extension.
pub open spec fn stem_of(name: Seq<char>) -> Seq<char> {
    name.subrange(0, ext_start(name))
}

/// The extension with its leading dot (`".txt"`), or empty.
pub open spec fn ext_of(name: Seq<char>) -> Seq<char> {
    name.subrange(ext_start(name), name.len() as int)
}

/// The `i`-th alternative to `name`: `"{stem} ({i}){ext}"`.
pub open spec fn numbered(name: Seq<char>, i: nat) -> Seq<char> {
    stem_of(name) + seq![' ', '('] + decimal(i) + seq![')'] + ext_of(name)
}

/// The names in a directory snapshot.
pub open spec fn names_of(existing: Seq<String>) -> Seq<Seq<char>> {
    existing.map_values(|s: String| s@)
}

/// `r` is the name that the resolver picks for `name` among `taken`: `name` itself when
/// it is free, else the first free alternative numbered from 1.
pub open spec fn is_first_free(taken: Seq<Seq<char>>, name: Seq<char>, r: Seq<char>) -> bool {
    if !taken.contains(name) {
        r == name
    } else {
        exists|i: nat|
            #![trigger numbered(name, i)]
            i >= 1 && r == numbered(name, i) && !taken.contains(r) && forall|j: nat|
                1 <= j < i ==> taken.contains(#[trigger] numbered(name, j))
    }
}

/// Two alternatives of one name are equal only when their numbers are.
pub proof fn lemma_numbered_injective(name: Seq<char>, i: nat, j: nat)
    requires
        numbered(name, i) == numbered(name, j),
    ensures
        i == j,
{
    let head = stem_of(name) + seq![' ', '('];
    let a = numbered(name, i);
    let b = numbered(name, j);
    let n = head.len() as int;
    assert(a.len() == b.len());
    assert(decimal(i).len() == decimal(j).len());
    assert(a.subrange(n, n + decimal(i).len()) =~= decimal(i));
    assert(b.subrange(n, n + decimal(j).len()) =~= decimal(j));
    lemma_decimal_injective(i, j);
}

fn contains_name(existing: &Vec<String>, name: &String) -> (r: bool)
    ensures
        r == names_of(existing@).contains(name@),
{
    let mut i: usize = 0;
    while i < existing.len()
        invariant
            i <= existing@.len(),
            forall|k: int| 0 <= k < i ==> existing@[k]@ != name@,
        decreases existing@.len() - i,
    {
        if existing[i] == *name {
            assert(names_of(existing@)[i as int] == name@);
            return true;
        }
        i = i + 1;
    }
    assert(!names_of(existing@).contains(name@)) by {
        if names_of(existing@).contains(name@) {
            let k = names_of(existing@).index_of(name@);
            assert(existing@[k]@ == name@);
        }
    }
    false
}

/// Splits a file name into its stem and its extension (dot included).
pub fn split_file_name(name: &str) -> (r: (String, String))
    ensures
        r.0@ == stem_of(name@),
        r.1@ == ext_of(name@),
        r.0@ + r.1@ == name@,
{
    proof {
        lemma_last_index_of(name@, '.');
    }
    let n = name.unicode_len();
    let k: usize = match find_last(name, '.') {
        Some(k) => if k > 0 { k } else { n },
        None => n,
    };
    let stem = String::from_str(name.substring_char(0, k));
    let ext = String::from_str(name.substring_char(k, n));
    assert(stem@ + ext@ =~= name@);
    (stem, ext)
}

fn numbered_name(stem: &String, i: u128, ext: &String, name: Ghost<Seq<char>>) -> (r: String)
    requires
        stem@ == stem_of(name@),
        ext@ == ext_of(name@),
    ensures
        r@ == numbered(name@, i as nat),
{
    proof {
        reveal_strlit(" (");
        reveal_strlit(")");
    }
    let mut r = stem.clone();
    r.append(" (");
    let digits = decimal_string(i);
    r.append(digits.as_str());
    r.append(")");
    r.append(ext.as_str());
    assert(r@ =~= numbered(name@, i as nat));
    r
}

/// A name for `filename` that no entry of `existing` (a snapshot of the target
/// directory's names) has: `filename` itself when it is free, else the first free
/// `"{stem} ({i}){ext}"` for i = 1, 2, ...
pub fn unique_download_path(existing: &Vec<String>, filename: &str) -> (r: String)
    ensures
        !names_of(existing@).contains(r@),
        is_first_free(names_of(existing@), filename@, r@),
{
    let taken = Ghost(names_of(existing@));
    let first = String::from_str(filename);
    if !contains_name(existing, &first) {
        return first;
    }
    let (stem, ext) = split_file_name(filename);
    let ghost mut tried: Set<Seq<char>> = Set::empty();
    proof {
        taken@.lemma_cardinality_of_set();
    }
    let count: usize = existing.len();
    let mut i: u128 = 1;
    loop
        invariant
            count == existing@.len(),
            1 <= i <= existing@.len() + 1,
            taken@ == names_of(existing@),
            taken@.contains(filename@),
            stem@ == stem_of(filename@),
            ext@ == ext_of(filename@),
            tried.finite(),
            tried.len() == i - 1,
            tried.subset_of(taken@.to_set()),
            taken@.to_set().len() <= taken@.len(),
            forall|x: Seq<char>| tried.contains(x) ==> exists|j: nat|
                1 <= j < i && x == #[trigger] numbered(filename@, j),
            forall|j: nat| 1 <= j < i ==> taken@.contains(#[trigger] numbered(filename@, j)),
        decreases existing@.len() + 1 - i,
    {
        let candidate = numbered_name(&stem, i, &ext, Ghost(filename@));
        if !contains_name(existing, &candidate) {
            assert(is_first_free(taken@, filename@, candidate@));
            return candidate;
        }
        proof {
            if tried.contains(candidate@) {
                let j = choose|j: nat| 1 <= j < i && candidate@ == numbered(filename@, j);
                lemma_numbered_injective(filename@, i as nat, j);
            }
            tried = tried.insert(candidate@);
            vstd::set_lib::lemma_len_subset(tried, taken@.to_set());
            assert(tried.len() == i);
            assert(taken@.len() == existing@.len());
        }
        i = i + 1;
    }
}

/// The last `/`-separated segment of `url`, cut at its first `?`.
pub open spec fn url_file_segment(url: Seq<char>) -> Seq<char> {
    let seg = url.subrange(last_index_of(url, '/') + 1, url.len() as int);
    seg.subrange(0, first_index_of(seg, '?'))
}

/// The name a download is saved under: the name the response suggested, else the
/// URL's last path segment without its query, else the fallback name.
pub open spec fn download_name_spec(suggested: Option<Seq<char>>, url: Seq<char>) -> Seq<char> {
    match suggested {
        Some(s) => s,
        None => if url_file_segment(url).len() > 0 {
            url_file_segment(url)
        } else {
            fallback_name()
        },
    }
}

/// Picks the file name for a download request.
pub fn download_file_name(suggested: Option<String>, url: &str) -> (r: String)
    ensures
        r@ == download_name_spec(
            match suggested {
                Some(s) => Some(s@),
                None => None,
            },
            url@,
        ),
{
    match suggested {
        Some(s) => s,
        None => {
            proof {
                lemma_last_index_of(url@, '/');
            }
            let n = url.unicode_len();
            let start: usize = match find_last(url, '/') {
                Some(k) => k + 1,
                None => 0,
            };
            let seg = url.substring_char(start, n);
            proof {
                lemma_first_index_of(seg@, '?');
            }
            let end = find_first(seg, '?');
            if end > 0 {
                String::from_str(seg.substring_char(0, end))
            } else {
                fallback_download_name()
            }
        },
    }
}

/// Where a download goes: a name for it among the target directory's names.
pub fn download_destination(existing: &Vec<String>, suggested: Option<String>, url: &str) -> (r: String)
    ensures
        !names_of(existing@).contains(r@),
        is_first_free(
            names_of(existing@),
            download_name_spec(
                match suggested {
                    Some(s) => Some(s@),
                    None => None,
                },
                url@,
            ),
            r@,
        ),
{
    let name = download_file_name(suggested, url);
    unique_download_path(existing, name.as_str())
}

} // verus!
