//! Which directory entries are images, and the order the slideshow shows
//! them in.
use vstd::prelude::*;

verus! {

/// `name` has extension `ext` (which holds no dot): it ends in a dot followed
/// by `ext`, and something comes before that dot, so that a hidden file such
/// as `.png` has no extension.
pub open spec fn has_extension(name: Seq<char>, ext: Seq<char>) -> bool {
    &&& name.len() >= ext.len() + 2
    &&& name[name.len() - ext.len() - 1] == '.'
    &&& name.subrange(name.len() - ext.len(), name.len() as int) == ext
}

/// Image files are those with extension `jpg` or `png`, in lower case.
pub open spec fn is_image_name(name: Seq<char>) -> bool {
    has_extension(name, seq!['j', 'p', 'g']) || has_extension(name, seq!['p', 'n', 'g'])
}

/// Whether the file called `name` (a file name, not a path) is an image the
/// slideshow shows.
pub fn is_image(name: &str) -> (r: bool)
    ensures
        r == is_image_name(name@),
{
    let n = name.unicode_len();
    if n < 5 || name.get_char(n - 4) != '.' {
        return false;
    }
    let a = name.get_char(n - 3);
    let b = name.get_char(n - 2);
    let c = name.get_char(n - 1);
    let ghost tail = name@.subrange(n - 3, n as int);
    assert(tail =~= seq![a, b, c]);
    (a == 'j' && b == 'p' && c == 'g') || (a == 'p' && b == 'n' && c == 'g')
}

/// `a` comes before `b`, or equals it, in lexicographic order of characters.
/// For UTF-8 text this is the order of the bytes too.
pub open spec fn name_le(a: Seq<char>, b: Seq<char>) -> bool
    decreases a.len(),
{
    if a.len() == 0 {
        true
    } else if b.len() == 0 {
        false
    } else if a[0] != b[0] {
        (a[0] as int) < (b[0] as int)
    } else {
        name_le(a.drop_first(), b.drop_first())
    }
}

/// Every name comes before or equals the names after it.
pub open spec fn names_sorted(s: Seq<Seq<char>>) -> bool {
    forall|i: int, j: int| 0 <= i < j < s.len() ==> name_le(#[trigger] s[i], #[trigger] s[j])
}

/// The image names of `s`, in the order of `s`.
pub open spec fn image_names(s: Seq<Seq<char>>) -> Seq<Seq<char>>
    decreases s.len(),
{
    if s.len() == 0 {
        Seq::empty()
    } else {
        let rest = image_names(s.drop_last());
        if is_image_name(s.last()) {
            rest.push(s.last())
        } else {
            rest
        }
    }
}

/// Views a list of strings as the list of their characters.
pub open spec fn names_view(v: Seq<String>) -> Seq<Seq<char>> {
    v.map_values(|s: String| s@)
}

/// Of two names, one comes before the other.
pub proof fn lemma_name_le_total(a: Seq<char>, b: Seq<char>)
    ensures
        name_le(a, b) || name_le(b, a),
    decreases a.len(),
{
    if a.len() > 0 && b.len() > 0 {
        if a[0] == b[0] {
            lemma_name_le_total(a.drop_first(), b.drop_first());
        } else {
            assert((a[0] as int) != (b[0] as int));
        }
    }
}

/// The order of names is transitive.
pub proof fn lemma_name_le_trans(a: Seq<char>, b: Seq<char>, c: Seq<char>)
    requires
        name_le(a, b),
        name_le(b, c),
    ensures
        name_le(a, c),
    decreases a.len(),
{
    if a.len() > 0 && b.len() > 0 && c.len() > 0 && a[0] == b[0] && b[0] == c[0] {
        lemma_name_le_trans(a.drop_first(), b.drop_first(), c.drop_first());
    }
}

/// Compares two names in the order of `name_le`.
fn name_le_exec(a: &str, b: &str) -> (r: bool)
    ensures
        r == name_le(a@, b@),
{
    let na = a.unicode_len();
    let nb = b.unicode_len();
    let mut i: usize = 0;
    assert(a@.skip(0) =~= a@);
    assert(b@.skip(0) =~= b@);
    while i < na && i < nb
        invariant
            na == a@.len(),
            nb == b@.len(),
            i <= na,
            i <= nb,
            name_le(a@, b@) == name_le(a@.skip(i as int), b@.skip(i as int)),
        decreases na - i,
    {
        let ca = a.get_char(i);
        let cb = b.get_char(i);
        if ca != cb {
            return (ca as u32) < (cb as u32);
        }
        assert(a@.skip(i as int).drop_first() =~= a@.skip(i + 1));
        assert(b@.skip(i as int).drop_first() =~= b@.skip(i + 1));
        i = i + 1;
    }
    i == na
}

/// The image files among the entries `names` of a directory, sorted by name.
pub fn image_files(names: Vec<String>) -> (r: Vec<String>)
    ensures
        names_sorted(names_view(r@)),
        names_view(r@).to_multiset() == image_names(names_view(names@)).to_multiset(),
{
    let mut out: Vec<String> = Vec::new();
    let mut i: usize = 0;
    assert(names_view(names@).take(0) =~= Seq::<Seq<char>>::empty());
    assert(names_view(out@) =~= Seq::<Seq<char>>::empty());
    while i < names.len()
        invariant
            i <= names@.len(),
            names_sorted(names_view(out@)),
            names_view(out@).to_multiset() == image_names(names_view(names@).take(i as int)).to_multiset(),
        decreases names@.len() - i,
    {
        let ghost prefix = names_view(names@).take(i as int);
        assert(names_view(names@).take(i + 1).drop_last() =~= prefix);
        assert(names_view(names@).take(i + 1).last() == names@[i as int]@);
        let ghost whole = names_view(names@).take(i + 1);
        assert(image_names(whole) == if is_image_name(whole.last()) {
            image_names(prefix).push(whole.last())
        } else {
            image_names(prefix)
        });
        proof {
            image_names(prefix).to_multiset_ensures();
        }
        if is_image(names[i].as_str()) {
            let name = names[i].clone();
            let mut p: usize = 0;
            while p < out.len() && name_le_exec(out[p].as_str(), name.as_str())
                invariant
                    p <= out@.len(),
                    forall|k: int| 0 <= k < p ==> name_le(#[trigger] out@[k]@, name@),
                decreases out@.len() - p,
            {
                p = p + 1;
            }
            let ghost before = names_view(out@);
            proof {
                if p < out@.len() {
                    lemma_name_le_total(out@[p as int]@, name@);
                }
            }
            out.insert(p, name);
            let ghost after = names_view(out@);
            assert(after =~= before.insert(p as int, name@));
            assert(after.remove(p as int) =~= before);
            proof {
                after.to_multiset_ensures();
                before.push(name@).to_multiset_ensures();
                before.to_multiset_ensures();
                assert(after.to_multiset() =~= before.to_multiset().insert(name@));
                assert(prefix.push(name@) =~= names_view(names@).take(i + 1));
                assert forall|y: int| p < y < after.len() implies name_le(name@, #[trigger] after[y]) by {
                    assert(after[y] == before[y - 1]);
                    if y - 1 > p {
                        lemma_name_le_trans(name@, before[p as int], before[y - 1]);
                    }
                }
                assert forall|x: int, y: int| 0 <= x < y < after.len() implies name_le(
                    #[trigger] after[x],
                    #[trigger] after[y],
                ) by {
                    if x < p && y == p {
                    } else if x < p && y > p {
                        lemma_name_le_trans(after[x], name@, after[y]);
                    } else if x == p && y > p {
                    } else if x > p {
                        assert(after[x] == before[x - 1]);
                        assert(after[y] == before[y - 1]);
                    }
                }
            }
        }
        i = i + 1;
    }
    assert(names_view(names@).take(names@.len() as int) =~= names_view(names@));
    out
}

} // verus!
