use vstd::prelude::*;
use vstd::string::*;

verus! {

// ---------------------------------------------------------------------------
// File-name structure: the final path component and its extension.
// ---------------------------------------------------------------------------

/// Index of the last occurrence of `c` in `s`, or `-1` if `c` does not occur.
pub open spec fn last_index_of(s: Seq<char>, c: char) -> int
    decreases s.len(),
{
    if s.len() == 0 {
        -1
    } else if s.last() == c {
        s.len() - 1
    } else {
        last_index_of(s.drop_last(), c)
    }
}

pub proof fn lemma_last_index_of_props(s: Seq<char>, c: char)
    ensures
        last_index_of(s, c) == -1 ==> forall|j: int| 0 <= j < s.len() ==> s[j] != c,
        last_index_of(s, c) != -1 ==> {
            let r = last_index_of(s, c);
            &&& 0 <= r < s.len()
            &&& s[r] == c
            &&& forall|j: int| r < j < s.len() ==> s[j] != c
        },
    decreases s.len(),
{
    if s.len() == 0 {
    } else if s.last() == c {
    } else {
        lemma_last_index_of_props(s.drop_last(), c);
        assert forall|j: int| 0 <= j < s.len() - 1 implies s.drop_last()[j] == s[j] by {}
    }
}

pub proof fn lemma_last_index_of_eq(s: Seq<char>, c: char, i: int)
    requires
        0 <= i < s.len(),
        s[i] == c,
        forall|j: int| i < j < s.len() ==> s[j] != c,
    ensures
        last_index_of(s, c) == i,
    decreases s.len(),
{
    if s.last() == c {
        assert(i == s.len() - 1);
    } else {
        assert(i < s.len() - 1);
        lemma_last_index_of_eq(s.drop_last(), c, i);
    }
}

pub proof fn lemma_last_index_of_none(s: Seq<char>, c: char)
    requires
        forall|j: int| 0 <= j < s.len() ==> s[j] != c,
    ensures
        last_index_of(s, c) == -1,
    decreases s.len(),
{
    if s.len() > 0 {
        lemma_last_index_of_none(s.drop_last(), c);
    }
}

/// The final component of a path: everything after the last separator.
pub open spec fn spec_file_name(path: Seq<char>) -> Seq<char> {
    path.skip(last_index_of(path, '/') + 1)
}

/// A file name has an extension when it contains a dot that is not its first
/// character; the extension is what follows the last such dot (possibly
/// empty, as in a name that ends with a dot).
pub open spec fn spec_has_extension(name: Seq<char>) -> bool {
    last_index_of(name, '.') >= 1
}

/// The extension of a file name: the characters after its last dot.
pub open spec fn spec_extension(name: Seq<char>) -> Seq<char> {
    name.skip(last_index_of(name, '.') + 1)
}

// ---------------------------------------------------------------------------
// Case-insensitive extension matching.
// ---------------------------------------------------------------------------

/// ASCII-case-insensitive character match against a lowercase pattern
/// character: equal outright, or an ASCII capital whose lowercase form is the
/// pattern character.
pub open spec fn char_eq_ci(a: char, b: char) -> bool {
    a == b || ('A' as u32 <= a as u32 && a as u32 <= 'Z' as u32 && a as u32 + 32 == b as u32)
}

pub open spec fn seq_eq_ci(a: Seq<char>, b: Seq<char>) -> bool {
    a.len() == b.len() && forall|i: int| 0 <= i < a.len() ==> char_eq_ci(a[i], #[trigger] b[i])
}

/// The raster formats accepted as input pages, matched on the extension
/// without regard to ASCII case.
pub open spec fn is_supported_image_ext(ext: Seq<char>) -> bool {
    ||| seq_eq_ci(ext, "jpg"@)
    ||| seq_eq_ci(ext, "jpeg"@)
    ||| seq_eq_ci(ext, "png"@)
    ||| seq_eq_ci(ext, "gif"@)
    ||| seq_eq_ci(ext, "bmp"@)
}

/// Whether a path names an image file, judged by its extension alone.
pub open spec fn is_image_name(path: Seq<char>) -> bool {
    let name = spec_file_name(path);
    &&& name.len() > 0
    &&& spec_has_extension(name)
    &&& is_supported_image_ext(spec_extension(name))
}

/// Compares the suffix of `path` that starts at character `start` with a
/// lowercase pattern, ignoring ASCII case.
fn suffix_eq_ci(path: &str, start: usize, pat: &str) -> (r: bool)
    requires
        start as int <= path@.len(),
    ensures
        r == seq_eq_ci(path@.skip(start as int), pat@),
{
    let n: usize = path.unicode_len();
    let m: usize = pat.unicode_len();
    if n - start != m {
        return false;
    }
    let mut j: usize = 0;
    while j < m
        invariant
            0 <= j <= m,
            m == pat@.len(),
            n == path@.len(),
            start + m == n,
            forall|k: int| 0 <= k < j ==> char_eq_ci(path@.skip(start as int)[k], #[trigger] pat@[k]),
        decreases m - j,
    {
        let a: char = path.get_char(start + j);
        let b: char = pat.get_char(j);
        let av: u32 = a as u32;
        let bv: u32 = b as u32;
        let ok: bool = a == b || (('A' as u32) <= av && av <= ('Z' as u32) && av + 32 == bv);
        if !ok {
            assert(!char_eq_ci(path@.skip(start as int)[j as int], pat@[j as int]));
            return false;
        }
        j += 1;
    }
    true
}

/// Whether a path names a zip archive: its extension is exactly `zip`.
pub open spec fn is_zip_name(path: Seq<char>) -> bool {
    let name = spec_file_name(path);
    &&& spec_has_extension(name)
    &&& spec_extension(name) == "zip"@
}

/// Compares the suffix of `path` that starts at character `start` with a
/// pattern, exactly.
fn suffix_eq(path: &str, start: usize, pat: &str) -> (r: bool)
    requires
        start as int <= path@.len(),
    ensures
        r == (path@.skip(start as int) == pat@),
{
    let n: usize = path.unicode_len();
    let m: usize = pat.unicode_len();
    if n - start != m {
        return false;
    }
    let mut j: usize = 0;
    while j < m
        invariant
            0 <= j <= m,
            m == pat@.len(),
            n == path@.len(),
            start + m == n,
            forall|k: int| 0 <= k < j ==> path@.skip(start as int)[k] == #[trigger] pat@[k],
        decreases m - j,
    {
        let a: char = path.get_char(start + j);
        let b: char = pat.get_char(j);
        if a as u32 != b as u32 {
            assert(path@.skip(start as int)[j as int] != pat@[j as int]);
            return false;
        }
        proof {
            assert(path@[start as int + j as int] == pat@[j as int]);
        }
        j += 1;
    }
    proof {
        assert(path@.skip(start as int) =~= pat@);
    }
    true
}

/// Finds where the extension of the final path component starts, as an index
/// into the whole path, or nothing when the component has no extension.
fn extension_start(path: &str) -> (r: Option<usize>)
    ensures
        r is Some <==> spec_has_extension(spec_file_name(path@)),
        r matches Some(k) ==> k as int <= path@.len() && path@.skip(k as int) == spec_extension(
            spec_file_name(path@),
        ),
{
    let n: usize = path.unicode_len();
    let mut i: usize = 0;
    let mut last_slash: usize = 0;
    let mut has_slash: bool = false;
    let mut last_dot: usize = 0;
    let mut has_dot: bool = false;
    while i < n
        invariant
            0 <= i <= n,
            n == path@.len(),
            has_slash ==> last_slash < i,
            !has_slash ==> last_index_of(path@.take(i as int), '/') == -1,
            has_slash ==> last_index_of(path@.take(i as int), '/') == last_slash as int,
            !has_dot ==> last_index_of(path@.take(i as int), '.') == -1,
            has_dot ==> last_dot < i && last_index_of(path@.take(i as int), '.') == last_dot as int,
        decreases n - i,
    {
        let c: char = path.get_char(i);
        proof {
            assert(path@.take(i as int + 1).drop_last() =~= path@.take(i as int));
            assert(path@.take(i as int + 1).last() == path@[i as int]);
        }
        if c == '/' {
            last_slash = i;
            has_slash = true;
        }
        if c == '.' {
            last_dot = i;
            has_dot = true;
        }
        i += 1;
    }
    proof {
        assert(path@.take(n as int) =~= path@);
    }
    let name_start: usize = if has_slash { last_slash + 1 } else { 0 };
    proof {
        assert(name_start as int == last_index_of(path@, '/') + 1);
        lemma_last_index_of_props(path@, '.');
        lemma_last_index_of_props(path@, '/');
    }
    let ghost name: Seq<char> = spec_file_name(path@);
    // Locate the last dot within the final path component.
    if !has_dot || last_dot < name_start {
        proof {
            assert forall|k: int| 0 <= k < name.len() implies name[k] != '.' by {
                assert(name[k] == path@[name_start as int + k]);
            }
            lemma_last_index_of_none(name, '.');
        }
        return None;
    }
    proof {
        let d: int = last_dot as int - name_start as int;
        assert(name[d] == path@[last_dot as int]);
        assert forall|k: int| d < k < name.len() implies name[k] != '.' by {
            assert(name[k] == path@[name_start as int + k]);
        }
        lemma_last_index_of_eq(name, '.', d);
    }
    if last_dot == name_start {
        // A dot that begins the file name does not start an extension.
        return None;
    }
    let ext_start: usize = last_dot + 1;
    proof {
        assert(spec_extension(name) =~= path@.skip(ext_start as int));
    }
    Some(ext_start)
}

/// Whether a path names a file of one of the accepted raster formats,
/// judged by its (ASCII-case-insensitive) extension.
///
/// Callers that work against a file system must additionally check that the
/// path refers to a regular file; this function looks at the name alone.
pub fn is_image_file(path: &str) -> (r: bool)
    ensures
        r == is_image_name(path@),
{
    match extension_start(path) {
        None => false,
        Some(ext_start) => {
            proof {
                lemma_last_index_of_props(spec_file_name(path@), '.');
            }
            let r1: bool = suffix_eq_ci(path, ext_start, "jpg");
            let r2: bool = suffix_eq_ci(path, ext_start, "jpeg");
            let r3: bool = suffix_eq_ci(path, ext_start, "png");
            let r4: bool = suffix_eq_ci(path, ext_start, "gif");
            let r5: bool = suffix_eq_ci(path, ext_start, "bmp");
            r1 || r2 || r3 || r4 || r5
        },
    }
}

/// Whether a path names a zip archive, by its exact extension.
pub fn has_zip_extension(path: &str) -> (r: bool)
    ensures
        r == is_zip_name(path@),
{
    match extension_start(path) {
        None => false,
        Some(ext_start) => suffix_eq(path, ext_start, "zip"),
    }
}

} // verus!

verus! {

// ---------------------------------------------------------------------------
// Lexicographic ordering of names and sorting by name.
// ---------------------------------------------------------------------------

/// Lexicographic order on character sequences, comparing scalar values.
pub open spec fn seq_char_le(a: Seq<char>, b: Seq<char>) -> bool
    decreases a.len(),
{
    if a.len() == 0 {
        true
    } else if b.len() == 0 {
        false
    } else if a[0] as u32 == b[0] as u32 {
        seq_char_le(a.drop_first(), b.drop_first())
    } else {
        (a[0] as u32) < (b[0] as u32)
    }
}

pub proof fn lemma_seq_char_le_total(a: Seq<char>, b: Seq<char>)
    ensures
        seq_char_le(a, b) || seq_char_le(b, a),
    decreases a.len(),
{
    if a.len() > 0 && b.len() > 0 && a[0] as u32 == b[0] as u32 {
        lemma_seq_char_le_total(a.drop_first(), b.drop_first());
    }
}

pub proof fn lemma_seq_char_le_trans(a: Seq<char>, b: Seq<char>, c: Seq<char>)
    requires
        seq_char_le(a, b),
        seq_char_le(b, c),
    ensures
        seq_char_le(a, c),
    decreases a.len(),
{
    if a.len() > 0 && b.len() > 0 && c.len() > 0 && a[0] as u32 == b[0] as u32 && b[0] as u32
        == c[0] as u32 {
        lemma_seq_char_le_trans(a.drop_first(), b.drop_first(), c.drop_first());
    }
}

/// If the first `i` characters agree, the comparison is decided by the rest.
proof fn lemma_seq_char_le_common_prefix(a: Seq<char>, b: Seq<char>, i: int)
    requires
        0 <= i <= a.len(),
        i <= b.len(),
        forall|k: int| 0 <= k < i ==> a[k] == b[k],
    ensures
        seq_char_le(a, b) == seq_char_le(a.skip(i), b.skip(i)),
    decreases i,
{
    if i == 0 {
        assert(a.skip(0) =~= a);
        assert(b.skip(0) =~= b);
    } else {
        assert(a.len() > 0 && b.len() > 0 && a[0] == b[0]);
        lemma_seq_char_le_common_prefix(a.drop_first(), b.drop_first(), i - 1);
        assert(a.drop_first().skip(i - 1) =~= a.skip(i));
        assert(b.drop_first().skip(i - 1) =~= b.skip(i));
        assert(forall|k: int|
            0 <= k < i - 1 ==> a.drop_first()[k] == #[trigger] b.drop_first()[k]);
    }
}

/// Compares two strings in the lexicographic order of their characters.
pub fn str_le(a: &str, b: &str) -> (r: bool)
    ensures
        r == seq_char_le(a@, b@),
{
    let an: usize = a.unicode_len();
    let bn: usize = b.unicode_len();
    let mut i: usize = 0;
    while i < an && i < bn
        invariant
            0 <= i <= an,
            i <= bn,
            an == a@.len(),
            bn == b@.len(),
            forall|k: int| 0 <= k < i ==> a@[k] == #[trigger] b@[k],
        decreases an - i,
    {
        let ca: char = a.get_char(i);
        let cb: char = b.get_char(i);
        let cav: u32 = ca as u32;
        let cbv: u32 = cb as u32;
        if cav != cbv {
            proof {
                lemma_seq_char_le_common_prefix(a@, b@, i as int);
                assert(a@.skip(i as int)[0] == a@[i as int]);
                assert(b@.skip(i as int)[0] == b@[i as int]);
            }
            return cav < cbv;
        }
        proof {
            assert(a@[i as int] as u32 == b@[i as int] as u32);
            assert(a@[i as int] == b@[i as int]);
        }
        i += 1;
    }
    proof {
        lemma_seq_char_le_common_prefix(a@, b@, i as int);
        assert(a@.skip(i as int).len() == 0 || b@.skip(i as int).len() == 0);
    }
    i == an
}

/// Insertion of a name into a sorted run of names.
pub open spec fn insert_sorted(x: Seq<char>, s: Seq<Seq<char>>) -> Seq<Seq<char>>
    decreases s.len(),
{
    if s.len() == 0 {
        seq![x]
    } else if seq_char_le(x, s[0]) {
        seq![x] + s
    } else {
        seq![s[0]] + insert_sorted(x, s.drop_first())
    }
}

/// Sorting a run of names by repeated insertion.
pub open spec fn sort_names_spec(s: Seq<Seq<char>>) -> Seq<Seq<char>>
    decreases s.len(),
{
    if s.len() == 0 {
        Seq::empty()
    } else {
        insert_sorted(s.last(), sort_names_spec(s.drop_last()))
    }
}

/// Every adjacent (indeed every ordered) pair of names is in order.
pub open spec fn names_sorted(s: Seq<Seq<char>>) -> bool {
    forall|i: int, j: int| 0 <= i < j < s.len() ==> seq_char_le(s[i], s[j])
}

proof fn lemma_insert_sorted_elems(x: Seq<char>, s: Seq<Seq<char>>)
    ensures
        insert_sorted(x, s).len() == s.len() + 1,
        forall|j: int|
            0 <= j < insert_sorted(x, s).len() ==> (#[trigger] insert_sorted(x, s)[j] == x
                || exists|k: int| 0 <= k < s.len() && insert_sorted(x, s)[j] == s[k]),
    decreases s.len(),
{
    if s.len() == 0 {
    } else if seq_char_le(x, s[0]) {
    } else {
        lemma_insert_sorted_elems(x, s.drop_first());
        assert forall|j: int| 0 <= j < insert_sorted(x, s).len() implies (
            #[trigger] insert_sorted(x, s)[j] == x || exists|k: int|
                0 <= k < s.len() && insert_sorted(x, s)[j] == s[k]) by {
            if j == 0 {
                assert(insert_sorted(x, s)[0] == s[0]);
            } else {
                let t = s.drop_first();
                assert(insert_sorted(x, s)[j] == insert_sorted(x, t)[j - 1]);
                if insert_sorted(x, t)[j - 1] != x {
                    let k = choose|k: int| 0 <= k < t.len() && insert_sorted(x, t)[j - 1] == t[k];
                    assert(t[k] == s[k + 1]);
                }
            }
        }
    }
}

proof fn lemma_insert_sorted_keeps_sorted(x: Seq<char>, s: Seq<Seq<char>>)
    requires
        names_sorted(s),
    ensures
        names_sorted(insert_sorted(x, s)),
    decreases s.len(),
{
    if s.len() == 0 {
    } else if seq_char_le(x, s[0]) {
        let r = seq![x] + s;
        assert forall|i: int, j: int| 0 <= i < j < r.len() implies seq_char_le(r[i], r[j]) by {
            if i == 0 {
                if j == 1 {
                    assert(r[j] == s[0]);
                } else {
                    lemma_seq_char_le_trans(x, s[0], s[j - 1]);
                }
            }
        }
    } else {
        let t = s.drop_first();
        assert(names_sorted(t)) by {
            assert(forall|i: int, j: int|
                0 <= i < j < t.len() ==> #[trigger] t[i] == s[i + 1] && #[trigger] t[j] == s[j
                    + 1]);
        }
        lemma_insert_sorted_keeps_sorted(x, t);
        lemma_insert_sorted_elems(x, t);
        lemma_seq_char_le_total(x, s[0]);
        let r = seq![s[0]] + insert_sorted(x, t);
        assert forall|i: int, j: int| 0 <= i < j < r.len() implies seq_char_le(r[i], r[j]) by {
            if i == 0 {
                let e = insert_sorted(x, t)[j - 1];
                assert(r[j] == e);
                if e == x {
                } else {
                    let k = choose|k: int| 0 <= k < t.len() && e == t[k];
                    assert(s[0] == s[0] && t[k] == s[k + 1]);
                    assert(seq_char_le(s[0], s[k + 1]));
                }
            } else {
                assert(r[i] == insert_sorted(x, t)[i - 1]);
                assert(r[j] == insert_sorted(x, t)[j - 1]);
            }
        }
    }
}

/// The sorted run of names really is sorted.
///
/// Together with the exact contracts of the sorting functions this states the
/// deterministic page order: entries are always laid out in the lexicographic
/// order of their names, whatever order a directory or archive yielded them
/// in.
pub proof fn lemma_sort_names_spec_sorted(s: Seq<Seq<char>>)
    ensures
        names_sorted(sort_names_spec(s)),
        sort_names_spec(s).len() == s.len(),
    decreases s.len(),
{
    if s.len() > 0 {
        lemma_sort_names_spec_sorted(s.drop_last());
        lemma_insert_sorted_keeps_sorted(s.last(), sort_names_spec(s.drop_last()));
        lemma_insert_sorted_elems(s.last(), sort_names_spec(s.drop_last()));
    }
}

proof fn lemma_insert_sorted_at(x: Seq<char>, s: Seq<Seq<char>>, p: int)
    requires
        0 <= p <= s.len(),
        forall|j: int| 0 <= j < p ==> !seq_char_le(x, s[j]),
        p < s.len() ==> seq_char_le(x, s[p]),
    ensures
        insert_sorted(x, s) == s.take(p) + seq![x] + s.skip(p),
    decreases p,
{
    if p == 0 {
        if s.len() == 0 {
            assert(insert_sorted(x, s) =~= s.take(0) + seq![x] + s.skip(0));
        } else {
            assert(insert_sorted(x, s) =~= s.take(0) + seq![x] + s.skip(0));
        }
    } else {
        let t = s.drop_first();
        assert(forall|j: int| 0 <= j < p - 1 ==> !seq_char_le(x, #[trigger] t[j]));
        lemma_insert_sorted_at(x, t, p - 1);
        assert(seq![s[0]] + (t.take(p - 1) + seq![x] + t.skip(p - 1)) =~= s.take(p) + seq![x]
            + s.skip(p));
    }
}

fn find_insert_pos(v: &Vec<String>, x: &String) -> (p: usize)
    ensures
        p <= v@.len(),
        forall|j: int| 0 <= j < p ==> !seq_char_le(x@, v.deep_view()[j]),
        p < v@.len() ==> seq_char_le(x@, v.deep_view()[p as int]),
{
    let n: usize = v.len();
    let mut p: usize = 0;
    while p < n
        invariant
            0 <= p <= n,
            n == v@.len(),
            forall|j: int| 0 <= j < p ==> !seq_char_le(x@, v.deep_view()[j]),
        decreases n - p,
    {
        if str_le(x.as_str(), v[p].as_str()) {
            proof {
                assert(v.deep_view()[p as int] == v@[p as int]@);
            }
            return p;
        }
        proof {
            assert(v.deep_view()[p as int] == v@[p as int]@);
        }
        p += 1;
    }
    p
}

fn insert_name(v: &mut Vec<String>, x: String)
    ensures
        final(v).deep_view() == insert_sorted(x@, old(v).deep_view()),
{
    let p: usize = find_insert_pos(v, &x);
    let ghost s0: Seq<Seq<char>> = v.deep_view();
    let ghost xv: Seq<char> = x@;
    v.insert(p, x);
    proof {
        lemma_insert_sorted_at(xv, s0, p as int);
        assert(v.deep_view() =~= s0.take(p as int) + seq![xv] + s0.skip(p as int));
    }
}

/// Sorts names into the lexicographic order of their characters.
pub fn sort_names(names: &Vec<String>) -> (r: Vec<String>)
    ensures
        r.deep_view() == sort_names_spec(names.deep_view()),
{
    let mut out: Vec<String> = Vec::new();
    let n: usize = names.len();
    let mut i: usize = 0;
    while i < n
        invariant
            0 <= i <= n,
            n == names@.len(),
            out.deep_view() == sort_names_spec(names.deep_view().take(i as int)),
        decreases n - i,
    {
        let s: String = names[i].clone();
        proof {
            assert(s@ == names.deep_view()[i as int]);
            assert(names.deep_view().take(i as int + 1).drop_last() =~= names.deep_view().take(
                i as int));
            assert(names.deep_view().take(i as int + 1).last() == names.deep_view()[i as int]);
        }
        insert_name(&mut out, s);
        i += 1;
    }
    proof {
        assert(names.deep_view().take(n as int) =~= names.deep_view());
    }
    out
}

/// The names that survive the image filter, in input order.
pub open spec fn image_name_filter(s: Seq<Seq<char>>) -> Seq<Seq<char>> {
    s.filter(|n: Seq<char>| is_image_name(n))
}

/// The image entries of a listing: filtered to recognised image names and
/// sorted by name.
pub open spec fn selected_names(s: Seq<Seq<char>>) -> Seq<Seq<char>> {
    sort_names_spec(image_name_filter(s))
}

/// Keeps exactly the names of recognised image files and sorts them, so that
/// page order is deterministic whatever order the source produced them in.
pub fn select_image_entries(names: &Vec<String>) -> (r: Vec<String>)
    ensures
        r.deep_view() == selected_names(names.deep_view()),
{
    let mut picked: Vec<String> = Vec::new();
    let n: usize = names.len();
    let mut i: usize = 0;
    while i < n
        invariant
            0 <= i <= n,
            n == names@.len(),
            picked.deep_view() == image_name_filter(names.deep_view().take(i as int)),
        decreases n - i,
    {
        let ghost before: Seq<Seq<char>> = picked.deep_view();
        proof {
            assert(names.deep_view().take(i as int + 1).drop_last() =~= names.deep_view().take(
                i as int));
            assert(names.deep_view().take(i as int + 1).last() == names.deep_view()[i as int]);
            reveal_with_fuel(Seq::filter, 2);
        }
        if is_image_file(names[i].as_str()) {
            let s: String = names[i].clone();
            picked.push(s);
            proof {
                assert(picked.deep_view() =~= before.push(names.deep_view()[i as int]));
            }
        }
        i += 1;
    }
    proof {
        assert(names.deep_view().take(n as int) =~= names.deep_view());
    }
    sort_names(&picked)
}

} // verus!
