//! Ordering a directory's contents for the browser: `..` first, then the
//! directories, then the PE files, each group by name, ignoring case.

use std::path::PathBuf;
use vstd::prelude::*;
use vstd::utf8::is_ascii_chars;

use crate::app::{ascii_lower, is_pe, spec_is_pe, Entry, EntryKind};

verus! {

/// What `str::to_lowercase` makes of a text: the Unicode lower-case mapping
/// of each character.
pub uninterp spec fn unicode_lowercase(s: Seq<char>) -> Seq<char>;

/// Lower-cases a text (`str::to_lowercase`).
///
/// Trusted: the result is `unicode_lowercase` of the text; on ASCII text (as
/// std documents) each upper-case letter becomes its lower-case letter and
/// nothing else changes.
#[verifier::external_body]
pub fn lowercase(s: &str) -> (r: String)
    ensures
        r@ == unicode_lowercase(s@),
        is_ascii_chars(s@) ==> r@ == s@.map_values(|c: char| ascii_lower(c)),
{
    s.to_lowercase()
}

/// One item of a directory, as the file system reports it.
pub struct Listed {
    /// The item's file name.
    pub name: String,
    pub path: PathBuf,
    pub is_dir: bool,
}

/// The text by which entries are ordered: the name in lower case.
pub open spec fn sort_key(e: Entry) -> Seq<char> {
    unicode_lowercase(e.name@)
}

/// `a` comes before `b` or equals it, comparing character by character by
/// code point (a prefix comes first). This is the order of `String`, whose
/// UTF-8 bytes compare in the same order as the code points they encode.
pub open spec fn lex_le(a: Seq<char>, b: Seq<char>) -> bool
    decreases a.len(),
{
    if a.len() == 0 {
        true
    } else if b.len() == 0 {
        false
    } else if a[0] != b[0] {
        (a[0] as u32) < (b[0] as u32)
    } else {
        lex_le(a.drop_first(), b.drop_first())
    }
}

/// Every text comes before or equals itself.
pub proof fn lemma_lex_reflexive(a: Seq<char>)
    ensures
        lex_le(a, a),
    decreases a.len(),
{
    if a.len() > 0 {
        lemma_lex_reflexive(a.drop_first());
    }
}

/// Of two texts, one comes before or equals the other.
pub proof fn lemma_lex_total(a: Seq<char>, b: Seq<char>)
    ensures
        lex_le(a, b) || lex_le(b, a),
    decreases a.len(),
{
    if a.len() > 0 && b.len() > 0 && a[0] == b[0] {
        lemma_lex_total(a.drop_first(), b.drop_first());
    }
    if a.len() > 0 && b.len() > 0 && a[0] != b[0] {
        vstd::utf8::char_u32_cast(a[0], a[0] as u32);
        vstd::utf8::char_u32_cast(b[0], b[0] as u32);
        assert((a[0] as u32) != (b[0] as u32));
    }
}

/// Two texts that each come before or equal the other are equal.
pub proof fn lemma_lex_antisymmetric(a: Seq<char>, b: Seq<char>)
    requires
        lex_le(a, b),
        lex_le(b, a),
    ensures
        a == b,
    decreases a.len(),
{
    if a.len() > 0 && b.len() > 0 {
        if a[0] == b[0] {
            lemma_lex_antisymmetric(a.drop_first(), b.drop_first());
            assert(a =~= seq![a[0]] + a.drop_first());
            assert(b =~= seq![b[0]] + b.drop_first());
        }
    } else {
        assert(a =~= b);
    }
}

/// The order is transitive.
pub proof fn lemma_lex_transitive(a: Seq<char>, b: Seq<char>, c: Seq<char>)
    requires
        lex_le(a, b),
        lex_le(b, c),
    ensures
        lex_le(a, c),
    decreases a.len(),
{
    if a.len() > 0 && b.len() > 0 && c.len() > 0 {
        if a[0] == b[0] && b[0] == c[0] {
            lemma_lex_transitive(a.drop_first(), b.drop_first(), c.drop_first());
        }
    }
}

/// Whether `a` comes before `b` or equals it.
pub fn key_le(a: &Vec<char>, b: &Vec<char>) -> (r: bool)
    ensures
        r == lex_le(a@, b@),
{
    let mut i: usize = 0;
    assert(a@.skip(0) =~= a@);
    assert(b@.skip(0) =~= b@);
    while i < a.len() && i < b.len() && a[i] == b[i]
        invariant
            i <= a.len(),
            i <= b.len(),
            lex_le(a@, b@) == lex_le(a@.skip(i as int), b@.skip(i as int)),
        decreases a.len() - i,
    {
        assert(a@.skip(i as int).drop_first() =~= a@.skip(i + 1));
        assert(b@.skip(i as int).drop_first() =~= b@.skip(i + 1));
        i = i + 1;
    }
    assert(a@.skip(0) =~= a@);
    assert(b@.skip(0) =~= b@);
    if i == a.len() {
        true
    } else if i == b.len() {
        false
    } else {
        assert(a@.skip(i as int)[0] == a@[i as int]);
        assert(b@.skip(i as int)[0] == b@[i as int]);
        (a[i] as u32) < (b[i] as u32)
    }
}

/// The characters of a text.
fn chars_of(s: &str) -> (v: Vec<char>)
    ensures
        v@ == s@,
{
    let n = s.unicode_len();
    let mut v: Vec<char> = Vec::new();
    let mut i: usize = 0;
    while i < n
        invariant
            i <= n == s@.len(),
            v@ == s@.take(i as int),
        decreases n - i,
    {
        v.push(s.get_char(i));
        assert(v@ =~= s@.take(i + 1));
        i = i + 1;
    }
    assert(s@.take(n as int) =~= s@);
    v
}

/// `out` holds the entries `full[start..]`, through the index map `perm`,
/// ordered by `sort_key`; entries with equal keys keep their order in `full`.
pub open spec fn sorted_suffix(full: Seq<Entry>, start: int, out: Seq<Entry>, perm: Seq<int>) -> bool {
    &&& 0 <= start <= full.len()
    &&& out.len() == full.len() - start
    &&& perm.len() == out.len()
    &&& forall|k: int| 0 <= k < out.len() ==> start <= #[trigger] perm[k] < full.len()
    &&& forall|k: int| 0 <= k < out.len() ==> #[trigger] out[k] == full[perm[k]]
    &&& forall|k1: int, k2: int|
        0 <= k1 < k2 < out.len() ==> #[trigger] perm[k1] != #[trigger] perm[k2]
    &&& forall|k1: int, k2: int|
        0 <= k1 < k2 < out.len() ==> lex_le(sort_key(#[trigger] out[k1]), sort_key(#[trigger] out[k2]))
    &&& forall|k1: int, k2: int|
        0 <= k1 < k2 < out.len() && sort_key(#[trigger] out[k1]) == sort_key(#[trigger] out[k2])
            ==> perm[k1] < perm[k2]
}

/// `out` is `full` sorted by name, ignoring case, with entries of equal keys
/// in their original order (the result of a stable sort).
pub open spec fn stably_sorted(full: Seq<Entry>, out: Seq<Entry>) -> bool {
    exists|perm: Seq<int>| sorted_suffix(full, 0, out, perm)
}

/// Putting `full[start - 1]` into a sorted `out` in front of the first entry
/// whose key is not smaller keeps `out` sorted and stable.
proof fn lemma_insert_sorted(full: Seq<Entry>, start: int, out: Seq<Entry>, perm: Seq<int>, p: int)
    requires
        sorted_suffix(full, start, out, perm),
        start > 0,
        0 <= p <= out.len(),
        forall|q: int| 0 <= q < p ==> !lex_le(sort_key(full[start - 1]), sort_key(#[trigger] out[q])),
        p < out.len() ==> lex_le(sort_key(full[start - 1]), sort_key(out[p])),
    ensures
        sorted_suffix(full, start - 1, out.insert(p, full[start - 1]), perm.insert(p, start - 1)),
{
    let x = full[start - 1];
    let kx = sort_key(x);
    let out2 = out.insert(p, x);
    let perm2 = perm.insert(p, start - 1);
    assert forall|k: int| 0 <= k < out2.len() implies start - 1 <= #[trigger] perm2[k] < full.len()
        && out2[k] == full[perm2[k]] by {
        if k < p {
            assert(perm2[k] == perm[k] && out2[k] == out[k]);
        } else if k > p {
            assert(perm2[k] == perm[k - 1] && out2[k] == out[k - 1]);
        }
    }
    assert forall|k: int| 0 <= k < out2.len() implies #[trigger] out2[k] == full[perm2[k]] by {
        if k < p {
            assert(perm2[k] == perm[k] && out2[k] == out[k]);
        } else if k > p {
            assert(perm2[k] == perm[k - 1] && out2[k] == out[k - 1]);
        }
    }
    assert forall|k1: int, k2: int| 0 <= k1 < k2 < out2.len() implies #[trigger] perm2[k1]
        != #[trigger] perm2[k2] by {
        if k1 != p && k2 != p {
            let j1 = if k1 < p {
                k1
            } else {
                k1 - 1
            };
            let j2 = if k2 < p {
                k2
            } else {
                k2 - 1
            };
            assert(perm2[k1] == perm[j1] && perm2[k2] == perm[j2]);
            assert(perm[j1] != perm[j2]);
        } else if k1 == p {
            assert(perm2[k2] == perm[k2 - 1]);
        } else {
            assert(perm2[k1] == perm[k1]);
        }
    }
    assert forall|k1: int, k2: int| 0 <= k1 < k2 < out2.len() implies lex_le(
        sort_key(#[trigger] out2[k1]),
        sort_key(#[trigger] out2[k2]),
    ) && (sort_key(out2[k1]) == sort_key(out2[k2]) ==> perm2[k1] < perm2[k2]) by {
        if k1 != p && k2 != p {
            let j1 = if k1 < p {
                k1
            } else {
                k1 - 1
            };
            let j2 = if k2 < p {
                k2
            } else {
                k2 - 1
            };
            assert(out2[k1] == out[j1] && out2[k2] == out[j2]);
            assert(perm2[k1] == perm[j1] && perm2[k2] == perm[j2]);
            assert(lex_le(sort_key(out[j1]), sort_key(out[j2])));
        } else if k1 == p {
            // x, then an entry that was at or after p
            assert(out2[k2] == out[k2 - 1]);
            assert(perm2[k2] == perm[k2 - 1]);
            if k2 - 1 > p {
                assert(lex_le(sort_key(out[p]), sort_key(out[k2 - 1])));
                lemma_lex_transitive(kx, sort_key(out[p]), sort_key(out[k2 - 1]));
            }
        } else {
            // an entry before p, then x
            assert(out2[k1] == out[k1]);
            assert(!lex_le(kx, sort_key(out[k1])));
            lemma_lex_total(kx, sort_key(out[k1]));
            lemma_lex_reflexive(kx);
        }
    }
}

/// Sorts entries by name, ignoring case, keeping entries with equal keys in
/// their original order.
pub fn sort_entries(items: Vec<Entry>) -> (out: Vec<Entry>)
    ensures
        stably_sorted(items@, out@),
{
    let ghost full = items@;
    let mut items = items;
    let mut out: Vec<Entry> = Vec::new();
    let mut keys: Vec<Vec<char>> = Vec::new();
    let ghost mut perm: Seq<int> = Seq::empty();
    while items.len() > 0
        invariant
            items.len() <= full.len(),
            items@ == full.take(items.len() as int),
            sorted_suffix(full, items.len() as int, out@, perm),
            keys.len() == out.len(),
            forall|k: int| 0 <= k < keys.len() ==> (#[trigger] keys[k])@ == sort_key(out[k]),
        decreases items.len(),
    {
        let ghost start = items.len() as int;
        let e = items.pop().unwrap();
        assert(e == full[start - 1]);
        assert(items@ =~= full.take(items.len() as int));
        let low = lowercase(e.name.as_str());
        let key = chars_of(low.as_str());
        let mut p: usize = 0;
        while p < out.len() && !key_le(&key, &keys[p])
            invariant
                p <= out.len() == keys.len(),
                forall|q: int| 0 <= q < p ==> !lex_le(key@, (#[trigger] keys[q])@),
            decreases out.len() - p,
        {
            p = p + 1;
        }
        proof {
            assert forall|q: int| 0 <= q < p implies !lex_le(
                sort_key(full[start - 1]),
                sort_key(#[trigger] out@[q]),
            ) by {
                assert(keys[q]@ == sort_key(out[q]));
            }
            if p < out.len() {
                assert(keys[p as int]@ == sort_key(out[p as int]));
            }
            lemma_insert_sorted(full, start, out@, perm, p as int);
        }
        let ghost old_keys = keys@;
        let ghost old_out = out@;
        out.insert(p, e);
        keys.insert(p, key);
        proof {
            perm = perm.insert(p as int, start - 1);
            assert forall|k: int| 0 <= k < keys.len() implies (#[trigger] keys[k])@ == sort_key(
                out[k],
            ) by {
                if k < p {
                    assert(keys[k] == old_keys[k] && out[k] == old_out[k]);
                } else if k > p {
                    assert(keys[k] == old_keys[k - 1] && out[k] == old_out[k - 1]);
                }
            }
        }
    }
    assert(sorted_suffix(full, 0, out@, perm));
    out
}

/// The directories among the listed items, in listing order, as entries.
pub open spec fn dir_entries(ls: Seq<Listed>) -> Seq<Entry>
    decreases ls.len(),
{
    if ls.len() == 0 {
        Seq::empty()
    } else {
        let l = ls[0];
        (if l.is_dir {
            seq![Entry { name: l.name, path: l.path, kind: EntryKind::Dir }]
        } else {
            Seq::empty()
        }) + dir_entries(ls.drop_first())
    }
}

/// The PE files among the listed items (items that are no directory and
/// whose name ends in `.dll` or `.exe`), in listing order, as entries.
pub open spec fn pe_entries(ls: Seq<Listed>) -> Seq<Entry>
    decreases ls.len(),
{
    if ls.len() == 0 {
        Seq::empty()
    } else {
        let l = ls[0];
        (if !l.is_dir && spec_is_pe(l.name@) {
            seq![Entry { name: l.name, path: l.path, kind: EntryKind::PeFile }]
        } else {
            Seq::empty()
        }) + pe_entries(ls.drop_first())
    }
}

/// The `..` entry where there is a parent directory.
pub open spec fn is_parent_entry(e: Entry, parent: PathBuf) -> bool {
    e.name@ == ".."@ && e.path == parent && e.kind == EntryKind::Parent
}

/// Builds the browser's listing of a directory from its items: `..` first
/// where the directory has a parent, then the directories, then the PE files,
/// each group ordered by name ignoring case; other files are left out.
pub fn arrange_entries(parent: Option<PathBuf>, listed: Vec<Listed>) -> (r: Vec<Entry>)
    ensures
        ({
            let off: int = if parent is Some {
                1
            } else {
                0
            };
            &&& off <= r@.len()
            &&& (parent matches Some(p) ==> is_parent_entry(r@[0], p))
            &&& exists|ds: Seq<Entry>, fs: Seq<Entry>|
                {
                    &&& stably_sorted(dir_entries(listed@), ds)
                    &&& stably_sorted(pe_entries(listed@), fs)
                    &&& #[trigger] r@.skip(off) == ds + fs
                }
        }),
{
    let ghost orig = listed@;
    let mut listed = listed;
    let mut dirs: Vec<Entry> = Vec::new();
    let mut files: Vec<Entry> = Vec::new();
    assert(orig.skip(orig.len() as int) =~= Seq::<Listed>::empty());
    while listed.len() > 0
        invariant
            listed.len() <= orig.len(),
            listed@ == orig.take(listed.len() as int),
            dirs@ == dir_entries(orig.skip(listed.len() as int)),
            files@ == pe_entries(orig.skip(listed.len() as int)),
        decreases listed.len(),
    {
        let ghost i = listed.len() as int;
        let l = listed.pop().unwrap();
        assert(l == orig[i - 1]);
        assert(listed@ =~= orig.take(i - 1));
        assert(orig.skip(i - 1).drop_first() =~= orig.skip(i));
        assert(orig.skip(i - 1)[0] == l);
        let pe = is_pe(l.name.as_str());
        if l.is_dir {
            dirs.insert(0, Entry { name: l.name, path: l.path, kind: EntryKind::Dir });
        } else if pe {
            files.insert(0, Entry { name: l.name, path: l.path, kind: EntryKind::PeFile });
        }
        assert(dirs@ =~= dir_entries(orig.skip(i - 1)));
        assert(files@ =~= pe_entries(orig.skip(i - 1)));
    }
    assert(orig.skip(0) =~= orig);
    let mut dirs = sort_entries(dirs);
    let mut files = sort_entries(files);
    let ghost ds = dirs@;
    let ghost fs = files@;
    let mut r: Vec<Entry> = Vec::new();
    let has_parent = parent.is_some();
    match parent {
        Some(p) => {
            r.push(Entry { name: String::from_str(".."), path: p, kind: EntryKind::Parent });
        },
        None => {},
    }
    let ghost head = r@;
    r.append(&mut dirs);
    r.append(&mut files);
    assert(r@ =~= head + ds + fs);
    assert(r@.skip(head.len() as int) =~= ds + fs);
    r
}

/// What the order is: `a` comes before or equals `b` exactly when `a` is a
/// prefix of `b`, or at the first position where they differ the character
/// of `a` has the smaller code point.
pub proof fn lemma_lex_meaning(a: Seq<char>, b: Seq<char>)
    ensures
        lex_le(a, b) <==> (a.len() <= b.len() && b.take(a.len() as int) == a) || exists|k: int|
            0 <= k < a.len() && k < b.len() && a.take(k) == b.take(k) && (#[trigger] a[k] as u32)
                < (b[k] as u32),
    decreases a.len(),
{
    if a.len() == 0 {
        assert(b.take(0) =~= a);
    } else if b.len() == 0 {
        assert forall|k: int| 0 <= k < a.len() && k < b.len() implies !(a.take(k) == b.take(k) && (
        #[trigger] a[k] as u32) < (b[k] as u32)) by {}
    } else if a[0] != b[0] {
        vstd::utf8::char_u32_cast(a[0], a[0] as u32);
        vstd::utf8::char_u32_cast(b[0], b[0] as u32);
        if (a[0] as u32) < (b[0] as u32) {
            assert(a.take(0) =~= b.take(0));
        } else {
            if a.len() <= b.len() && b.take(a.len() as int) == a {
                assert(b.take(a.len() as int)[0] == b[0]);
            }
            assert forall|k: int| 0 <= k < a.len() && k < b.len() implies !(a.take(k) == b.take(k)
                && (#[trigger] a[k] as u32) < (b[k] as u32)) by {
                if k > 0 && a.take(k) == b.take(k) {
                    assert(a.take(k)[0] == b.take(k)[0]);
                }
            }
        }
    } else {
        let a1 = a.drop_first();
        let b1 = b.drop_first();
        lemma_lex_meaning(a1, b1);
        if a1.len() <= b1.len() && b1.take(a1.len() as int) == a1 {
            assert(b.take(a.len() as int) =~= seq![a[0]] + a1);
            assert(a =~= seq![a[0]] + a1);
        }
        if a.len() <= b.len() && b.take(a.len() as int) == a {
            assert(b1.take(a1.len() as int) =~= a1) by {
                assert forall|i: int| 0 <= i < a1.len() implies b1.take(a1.len() as int)[i] == a1[i] by {
                    assert(b.take(a.len() as int)[i + 1] == a[i + 1]);
                }
            }
        }
        if exists|k: int|
            0 <= k < a1.len() && k < b1.len() && a1.take(k) == b1.take(k) && (#[trigger] a1[k] as u32)
                < (b1[k] as u32) {
            let k = choose|k: int|
                0 <= k < a1.len() && k < b1.len() && a1.take(k) == b1.take(k) && (#[trigger] a1[k]
                    as u32) < (b1[k] as u32);
            assert(a.take(k + 1) =~= seq![a[0]] + a1.take(k));
            assert(b.take(k + 1) =~= seq![b[0]] + b1.take(k));
            assert(a[k + 1] == a1[k]);
        }
        if exists|k: int|
            0 <= k < a.len() && k < b.len() && a.take(k) == b.take(k) && (#[trigger] a[k] as u32) < (
            b[k] as u32) {
            let k = choose|k: int|
                0 <= k < a.len() && k < b.len() && a.take(k) == b.take(k) && (#[trigger] a[k] as u32)
                    < (b[k] as u32);
            assert(k > 0);
            assert(a1.take(k - 1) =~= a.take(k).drop_first());
            assert(b1.take(k - 1) =~= b.take(k).drop_first());
            assert(a1[k - 1] == a[k]);
        }
    }
}

} // verus!
