//! Recovery of a nested file handle from a share link of the shape
//! `.../folder/<folder-id>/file/<file-id>`.

use vstd::prelude::*;

verus! {

/// The marker that opens a folder context: `/folder/`.
pub open spec fn folder_marker() -> Seq<char> {
    seq!['/', 'f', 'o', 'l', 'd', 'e', 'r', '/']
}

/// The marker that opens a nested file context: `/file/`.
pub open spec fn file_marker() -> Seq<char> {
    seq!['/', 'f', 'i', 'l', 'e', '/']
}

/// `m` occurs in `s` starting at position `k`.
pub open spec fn occurs_at(s: Seq<char>, m: Seq<char>, k: int) -> bool {
    &&& 0 <= k
    &&& k + m.len() <= s.len()
    &&& s.subrange(k, k + m.len()) == m
}

/// Some folder marker is followed, without overlap, by some file marker.
pub open spec fn has_nested_file(s: Seq<char>) -> bool {
    exists|i: int, j: int|
        occurs_at(s, folder_marker(), i) && occurs_at(s, file_marker(), j) && i + 8 <= j
}

/// `j` is the last position at which the file marker occurs in `s`.
pub open spec fn last_file_marker(s: Seq<char>, j: int) -> bool {
    &&& occurs_at(s, file_marker(), j)
    &&& forall|k: int| j < k ==> !occurs_at(s, file_marker(), k)
}

/// Whether `m` occurs in `url` at character position `k`.
fn marker_at(url: &str, n: usize, m: &Vec<char>, k: usize) -> (r: bool)
    requires
        n == url@.len(),
    ensures
        r == occurs_at(url@, m@, k as int),
{
    if k > n || m.len() > n - k {
        return false;
    }
    let mut t: usize = 0;
    while t < m.len()
        invariant
            k + m@.len() <= n,
            n == url@.len(),
            t <= m@.len(),
            forall|u: int| 0 <= u < t ==> url@[k + u] == m@[u],
        decreases m@.len() - t,
    {
        if url.get_char(k + t) != m[t] {
            assert(url@.subrange(k as int, k + m@.len())[t as int] != m@[t as int]);
            return false;
        }
        t = t + 1;
    }
    assert(url@.subrange(k as int, k + m@.len()) =~= m@);
    true
}

/// Extracts the file handle of a link that names a file inside a folder.
///
/// The link must hold a `/folder/` marker followed, without overlap, by a
/// `/file/` marker; the handle is then everything after the last `/file/`
/// marker. Any other link yields `None`: the caller falls back to the whole
/// listing.
pub fn extract_file_handle(url: &str) -> (r: Option<String>)
    ensures
        r.is_some() <==> has_nested_file(url@),
        r matches Some(h) ==> exists|j: int|
            last_file_marker(url@, j) && h@ == url@.subrange(j + 6, url@.len() as int),
{
    let n = url.unicode_len();
    let folder = vec!['/', 'f', 'o', 'l', 'd', 'e', 'r', '/'];
    let file = vec!['/', 'f', 'i', 'l', 'e', '/'];
    assert(folder@ =~= folder_marker());
    assert(file@ =~= file_marker());
    let mut first_folder: Option<usize> = None;
    let mut last_file: Option<usize> = None;
    let mut k: usize = 0;
    while k < n
        invariant
            n == url@.len(),
            folder@ == folder_marker(),
            file@ == file_marker(),
            k <= n,
            match first_folder {
                Some(i) => i < k && occurs_at(url@, folder_marker(), i as int)
                    && forall|x: int| 0 <= x < i ==> !occurs_at(url@, folder_marker(), x),
                None => forall|x: int| 0 <= x < k ==> !occurs_at(url@, folder_marker(), x),
            },
            match last_file {
                Some(j) => j < k && occurs_at(url@, file_marker(), j as int)
                    && forall|x: int| j < x < k ==> !occurs_at(url@, file_marker(), x),
                None => forall|x: int| 0 <= x < k ==> !occurs_at(url@, file_marker(), x),
            },
        decreases n - k,
    {
        if first_folder.is_none() && marker_at(url, n, &folder, k) {
            first_folder = Some(k);
        }
        if marker_at(url, n, &file, k) {
            last_file = Some(k);
        }
        k = k + 1;
    }
    assert forall|x: int| n <= x implies !occurs_at(url@, folder_marker(), x)
        && !occurs_at(url@, file_marker(), x) by {}
    match (first_folder, last_file) {
        (Some(i), Some(j)) => {
            if i <= j && j - i >= 8 {
                let h = url.substring_char(j + 6, n);
                assert(last_file_marker(url@, j as int));
                assert(occurs_at(url@, folder_marker(), i as int));
                Some(h.to_owned())
            } else {
                assert(!has_nested_file(url@)) by {
                    if has_nested_file(url@) {
                        let (a, b) = choose|a: int, b: int|
                            occurs_at(url@, folder_marker(), a) && occurs_at(url@, file_marker(), b)
                                && a + 8 <= b;
                        assert(i <= a);
                        assert(b <= j);
                    }
                }
                None
            }
        },
        _ => None,
    }
}

/// Where the parts of a link `<p>/folder/<a>/file/<b>` stand.
proof fn lemma_link_layout(p: Seq<char>, a: Seq<char>, b: Seq<char>)
    ensures
        ({
            let s = p + folder_marker() + a + file_marker() + b;
            let j = p.len() + 8 + a.len() as int;
            &&& s.len() == j + 6 + b.len()
            &&& occurs_at(s, folder_marker(), p.len() as int)
            &&& occurs_at(s, file_marker(), j)
            &&& s.subrange(j + 6, s.len() as int) == b
            &&& forall|u: int| 0 <= u <= b.len() ==> #[trigger] s[j + 5 + u] == (seq!['/'] + b)[u]
        }),
{
    let f = folder_marker();
    let m = file_marker();
    let pre = p + f + a;
    let rest = m + b;
    let s = p + f + a + m + b;
    let i = p.len() as int;
    let j = p.len() + 8 + a.len() as int;
    assert(s =~= pre + rest);
    assert forall|t: int| 0 <= t < 8 implies #[trigger] s[i + t] == f[t] by {
        assert((p + f)[i + t] == f[t]);
        assert(pre[i + t] == f[t]);
    }
    assert forall|t: int| 0 <= t < rest.len() implies #[trigger] s[j + t] == rest[t] by {}
    assert(s.subrange(i, i + 8) =~= f);
    assert(s.subrange(j, j + 6) =~= m);
    assert(s.subrange(j + 6, s.len() as int) =~= b);
    assert forall|u: int| 0 <= u <= b.len() implies #[trigger] s[j + 5 + u] == (seq!['/'] + b)[u] by {
        assert(s[j + 5 + u] == rest[5 + u]);
    }
}

/// A file marker at `j`, followed by `<b>`, is the last one when no file
/// marker starts within `/<b>`.
proof fn lemma_no_later_marker(s: Seq<char>, j: int, b: Seq<char>)
    requires
        occurs_at(s, file_marker(), j),
        s.len() == j + 6 + b.len(),
        forall|u: int| 0 <= u <= b.len() ==> #[trigger] s[j + 5 + u] == (seq!['/'] + b)[u],
        forall|k: int| !occurs_at(seq!['/'] + b, file_marker(), k),
    ensures
        last_file_marker(s, j),
{
    let m = file_marker();
    let q = seq!['/'] + b;
    assert forall|k: int| j < k implies !occurs_at(s, m, k) by {
        if occurs_at(s, m, k) {
            assert(s.subrange(k, k + 6)[0] == s[k]);
            if k < j + 5 {
                assert(s.subrange(j, j + 6)[k - j] == s[k]);
            } else {
                let c = k - j - 5;
                assert forall|t: int| 0 <= t < 6 implies #[trigger] q.subrange(c, c + 6)[t] == m[t] by {
                    assert(s.subrange(k, k + 6)[t] == s[j + 5 + (c + t)]);
                }
                assert(q.subrange(c, c + 6) =~= m);
                assert(occurs_at(q, m, c));
            }
        }
    }
}

/// A link of the shape `<p>/folder/<a>/file/<b>` names a nested file, and
/// what follows its last file marker is `<b>`, provided that no file marker
/// starts within `/<b>` (which would make a later marker the last one).
pub proof fn lemma_nested_link_yields_file_id(p: Seq<char>, a: Seq<char>, b: Seq<char>)
    requires
        forall|k: int| !occurs_at(seq!['/'] + b, file_marker(), k),
    ensures
        ({
            let s = p + folder_marker() + a + file_marker() + b;
            let j = p.len() + 8 + a.len() as int;
            &&& has_nested_file(s)
            &&& last_file_marker(s, j)
            &&& s.subrange(j + 6, s.len() as int) == b
        }),
{
    let s = p + folder_marker() + a + file_marker() + b;
    let j = p.len() + 8 + a.len() as int;
    lemma_link_layout(p, a, b);
    lemma_no_later_marker(s, j, b);
    assert(occurs_at(s, folder_marker(), p.len() as int) && occurs_at(s, file_marker(), j)
        && p.len() + 8 <= j);
}

/// A link without a folder marker, or without a file marker, names no
/// nested file.
pub proof fn lemma_missing_marker_yields_nothing(s: Seq<char>)
    requires
        (forall|i: int| !occurs_at(s, folder_marker(), i)) || (forall|j: int|
            !occurs_at(s, file_marker(), j)),
    ensures
        !has_nested_file(s),
{
}

} // verus!
