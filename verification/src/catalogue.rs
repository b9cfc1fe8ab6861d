//! The catalogue of downloaded Whisper models: which directory entries are
//! model files, and in which order they are listed.

use vstd::prelude::*;
use std::path::PathBuf;
use crate::paths::{
    is_absolute, joined_path, model_file, models_dir_spec, path_is_absolute, path_text,
    path_to_string,
};

verus! {

broadcast use vstd::seq_lib::group_to_multiset_ensures;

/// `ext` is the extension of the file name `name`, as `Path::extension`
/// defines it: the part after the last `.`, where that `.` is not the first
/// character, and `..` has none.
pub open spec fn extension_is(name: Seq<char>, ext: Seq<char>) -> bool {
    &&& name != seq!['.', '.']
    &&& exists|i: int|
        #![trigger name.subrange(i + 1, name.len() as int)]
        0 < i < name.len() && name[i] == '.' && (forall|j: int| i < j < name.len() ==> name[j]
            != '.') && name.subrange(i + 1, name.len() as int) == ext
}

/// The extension that model files carry.
pub open spec fn model_extension() -> Seq<char> {
    seq!['b', 'i', 'n']
}

/// Whether the file name `name` has the extension `bin`.
pub fn has_model_extension(name: &str) -> (r: bool)
    ensures
        r == extension_is(name@, model_extension()),
{
    let n = name.unicode_len();
    if n < 5 {
        proof {
            if extension_is(name@, model_extension()) {
                let i = choose|i: int|
                    #![trigger name@.subrange(i + 1, name@.len() as int)]
                    0 < i < name@.len() && name@[i] == '.' && (forall|j: int|
                        i < j < name@.len() ==> name@[j] != '.') && name@.subrange(
                        i + 1,
                        name@.len() as int,
                    ) == model_extension();
                assert(name@.subrange(i + 1, name@.len() as int).len() == 3);
            }
        }
        return false;
    }
    let r = name.get_char(n - 4) == '.' && name.get_char(n - 3) == 'b' && name.get_char(n - 2)
        == 'i' && name.get_char(n - 1) == 'n';
    proof {
        let s = name@;
        let len = s.len() as int;
        if r {
            assert(s.subrange(len - 3, len) =~= model_extension());
            assert(s.subrange((len - 4) + 1, len) == model_extension());
            assert(s != seq!['.', '.']) by {
                assert(s.len() != 2);
            }
        } else if extension_is(s, model_extension()) {
            let i = choose|i: int|
                #![trigger s.subrange(i + 1, len)]
                0 < i < len && s[i] == '.' && (forall|j: int| i < j < len ==> s[j] != '.')
                    && s.subrange(i + 1, len) == model_extension();
            let t = s.subrange(i + 1, len);
            assert(t.len() == 3);
            assert(i == len - 4);
            assert(s[len - 3] == t[0]);
            assert(s[len - 2] == t[1]);
            assert(s[len - 1] == t[2]);
        }
    }
    r
}

/// Lexicographic order of character sequences by code point, which is the
/// order of `String`'s `Ord` (byte order of UTF-8 agrees with code point
/// order).
pub open spec fn lex_le(a: Seq<char>, b: Seq<char>) -> bool
    decreases a.len(),
{
    if a.len() == 0 {
        true
    } else if b.len() == 0 {
        false
    } else if a[0] != b[0] {
        (a[0] as int) < (b[0] as int)
    } else {
        lex_le(a.drop_first(), b.drop_first())
    }
}

/// Every element is at most every later one.
pub open spec fn sorted_lex(s: Seq<Seq<char>>) -> bool {
    forall|i: int, j: int| 0 <= i < j < s.len() ==> lex_le(#[trigger] s[i], #[trigger] s[j])
}

/// Every sequence is at most itself.
pub proof fn lemma_lex_reflexive(a: Seq<char>)
    ensures
        lex_le(a, a),
    decreases a.len(),
{
    if a.len() > 0 {
        lemma_lex_reflexive(a.drop_first());
    }
}

/// Any two sequences are ordered one way or the other.
pub proof fn lemma_lex_total(a: Seq<char>, b: Seq<char>)
    ensures
        lex_le(a, b) || lex_le(b, a),
    decreases a.len(),
{
    if a.len() > 0 && b.len() > 0 {
        if a[0] == b[0] {
            lemma_lex_total(a.drop_first(), b.drop_first());
        } else {
            assert((a[0] as int) != (b[0] as int));
        }
    }
}

/// The order is transitive.
pub proof fn lemma_lex_transitive(a: Seq<char>, b: Seq<char>, c: Seq<char>)
    requires
        lex_le(a, b),
        lex_le(b, c),
    ensures
        lex_le(a, c),
    decreases a.len(),
{
    if a.len() > 0 && b.len() > 0 && c.len() > 0 && a[0] == b[0] && b[0] == c[0] {
        lemma_lex_transitive(a.drop_first(), b.drop_first(), c.drop_first());
    }
}

/// The order is antisymmetric: two sequences ordered both ways are equal.
pub proof fn lemma_lex_antisymmetric(a: Seq<char>, b: Seq<char>)
    requires
        lex_le(a, b),
        lex_le(b, a),
    ensures
        a == b,
    decreases a.len(),
{
    if a.len() > 0 && b.len() > 0 {
        lemma_lex_antisymmetric(a.drop_first(), b.drop_first());
        assert(a =~= seq![a[0]] + a.drop_first());
        assert(b =~= seq![b[0]] + b.drop_first());
    }
}

/// Whether `a <= b` in the order of `String`.
pub fn str_lex_le(a: &str, b: &str) -> (r: bool)
    ensures
        r == lex_le(a@, b@),
{
    let la = a.unicode_len();
    let lb = b.unicode_len();
    let mut k: usize = 0;
    assert(a@.skip(0) =~= a@);
    assert(b@.skip(0) =~= b@);
    while k < la && k < lb && a.get_char(k) == b.get_char(k)
        invariant
            la == a@.len(),
            lb == b@.len(),
            k <= la,
            k <= lb,
            lex_le(a@, b@) == lex_le(a@.skip(k as int), b@.skip(k as int)),
        decreases la - k,
    {
        proof {
            let sa = a@.skip(k as int);
            let sb = b@.skip(k as int);
            assert(sa[0] == sb[0]);
            assert(sa.drop_first() =~= a@.skip(k + 1));
            assert(sb.drop_first() =~= b@.skip(k + 1));
        }
        k = k + 1;
    }
    if k == la {
        true
    } else if k == lb {
        false
    } else {
        proof {
            assert(a@.skip(k as int)[0] == a@[k as int]);
            assert(b@.skip(k as int)[0] == b@[k as int]);
        }
        (a.get_char(k) as u32) < (b.get_char(k) as u32)
    }
}

/// A sorted listing is determined by its elements: two sorted sequences
/// with the same elements are equal.
pub proof fn law_sorted_listing_unique(a: Seq<Seq<char>>, b: Seq<Seq<char>>)
    requires
        sorted_lex(a),
        sorted_lex(b),
        a.to_multiset() == b.to_multiset(),
    ensures
        a == b,
    decreases a.len(),
{
    broadcast use vstd::seq_lib::group_to_multiset_ensures;
    if a.len() == 0 {
        assert(b.to_multiset().len() == 0);
        assert(b =~= a);
    } else {
        vstd::seq_lib::to_multiset_len(a);
        vstd::seq_lib::to_multiset_len(b);
        assert(b.len() == a.len());
        let x = a.last();
        let y = b.last();
        assert(a.contains(x));
        assert(b.to_multiset().count(x) > 0);
        assert(b.contains(x));
        let j = choose|j: int| 0 <= j < b.len() && b[j] == x;
        assert(a.to_multiset().count(y) > 0);
        assert(a.contains(y));
        let i = choose|i: int| 0 <= i < a.len() && a[i] == y;
        if j < b.len() - 1 {
            assert(lex_le(b[j], y));
        } else {
            lemma_lex_reflexive(x);
        }
        if i < a.len() - 1 {
            assert(lex_le(a[i], x));
        } else {
            lemma_lex_reflexive(x);
        }
        lemma_lex_antisymmetric(x, y);
        let a2 = a.drop_last();
        let b2 = b.drop_last();
        vstd::seq_lib::to_multiset_build(a2, x);
        vstd::seq_lib::to_multiset_build(b2, x);
        assert(a2.push(x) =~= a);
        assert(b2.push(x) =~= b);
        assert(a2.to_multiset() =~= b2.to_multiset()) by {
            assert(a2.to_multiset().insert(x) == b2.to_multiset().insert(x));
            assert forall|e: Seq<char>| a2.to_multiset().count(e) == b2.to_multiset().count(e) by {
                assert(a2.to_multiset().insert(x).count(e) == b2.to_multiset().insert(x).count(e));
            }
        }
        assert(sorted_lex(a2));
        assert(sorted_lex(b2));
        law_sorted_listing_unique(a2, b2);
    }
}

/// The views of optional names.
pub open spec fn entry_views(entries: Seq<Option<String>>) -> Seq<Option<Seq<char>>> {
    entries.map_values(
        |e: Option<String>|
            match e {
                Some(s) => Some(s@),
                None => None,
            },
    )
}

/// The views of strings.
pub open spec fn string_views(v: Seq<String>) -> Seq<Seq<char>> {
    v.map_values(|s: String| s@)
}

/// The names among `entries` that have the model extension, in order.
pub open spec fn model_names_spec(entries: Seq<Option<Seq<char>>>) -> Seq<Seq<char>>
    decreases entries.len(),
{
    if entries.len() == 0 {
        seq![]
    } else {
        let rest = model_names_spec(entries.drop_last());
        match entries.last() {
            Some(n) => if extension_is(n, model_extension()) {
                rest.push(n)
            } else {
                rest
            },
            None => rest,
        }
    }
}

/// Every name listed comes in order, and the entries of two runs give the
/// two listings one after the other.
pub proof fn law_model_names_append(first: Seq<Option<Seq<char>>>, rest: Seq<Option<Seq<char>>>)
    ensures
        model_names_spec(first + rest) == model_names_spec(first) + model_names_spec(rest),
    decreases rest.len(),
{
    if rest.len() == 0 {
        assert(first + rest =~= first);
        assert(model_names_spec(first) + model_names_spec(rest) =~= model_names_spec(first));
    } else {
        let shorter = rest.drop_last();
        law_model_names_append(first, shorter);
        assert((first + rest).drop_last() =~= first + shorter);
        assert((first + rest).last() == rest.last());
        match rest.last() {
            Some(n) => {
                if extension_is(n, model_extension()) {
                    assert(model_names_spec(first + rest) =~= model_names_spec(first)
                        + model_names_spec(shorter).push(n));
                }
            },
            None => {},
        }
    }
}

/// A single entry is listed exactly when it names a file with the `bin`
/// extension; an entry without a name is never listed.
pub proof fn law_model_names_single(name: Seq<char>)
    ensures
        model_names_spec(seq![Some(name)]) == if extension_is(name, model_extension()) {
            seq![name]
        } else {
            Seq::<Seq<char>>::empty()
        },
        model_names_spec(seq![None::<Seq<char>>]) == Seq::<Seq<char>>::empty(),
{
    let one = seq![Some(name)];
    let none = seq![None::<Seq<char>>];
    assert(one.len() == 1 && one.last() == Some(name));
    assert(none.len() == 1 && none.last() == None::<Seq<char>>);
    assert(one.drop_last() =~= Seq::<Option<Seq<char>>>::empty());
    assert(none.drop_last() =~= Seq::<Option<Seq<char>>>::empty());
    assert(model_names_spec(Seq::<Option<Seq<char>>>::empty()) == Seq::<Seq<char>>::empty());
    assert(Seq::<Seq<char>>::empty().push(name) =~= seq![name]);
}

/// Any non-empty name followed by `.bin` has the extension `bin`, whatever
/// dots the name holds before it.
pub proof fn law_bin_suffix_is_model_extension(stem: Seq<char>)
    requires
        stem.len() > 0,
    ensures
        extension_is(stem + seq!['.', 'b', 'i', 'n'], model_extension()),
{
    let name = stem + seq!['.', 'b', 'i', 'n'];
    let i = stem.len() as int;
    assert(name[i] == '.');
    assert(name[i + 1] == 'b' && name[i + 2] == 'i' && name[i + 3] == 'n');
    assert(name.subrange(i + 1, name.len() as int) =~= model_extension());
    assert(name.len() != 2);
}

/// A name with the extension `bin` is a non-empty stem followed by `.bin`.
pub proof fn law_model_extension_is_bin_suffix(name: Seq<char>)
    requires
        extension_is(name, model_extension()),
    ensures
        name.len() > 4,
        name.subrange(name.len() - 4, name.len() as int) == seq!['.', 'b', 'i', 'n'],
{
    let len = name.len() as int;
    let i = choose|i: int|
        #![trigger name.subrange(i + 1, len)]
        0 < i < len && name[i] == '.' && (forall|j: int| i < j < len ==> name[j] != '.')
            && name.subrange(i + 1, len) == model_extension();
    let t = name.subrange(i + 1, len);
    assert(t.len() == 3);
    assert(name[len - 3] == t[0] && name[len - 2] == t[1] && name[len - 1] == t[2]);
    assert(name.subrange(len - 4, len) =~= seq!['.', 'b', 'i', 'n']);
}

proof fn lemma_insert_sorted(s: Seq<Seq<char>>, p: int, x: Seq<char>)
    requires
        sorted_lex(s),
        0 <= p <= s.len(),
        forall|k: int| 0 <= k < p ==> lex_le(#[trigger] s[k], x),
        p < s.len() ==> !lex_le(s[p], x),
    ensures
        sorted_lex(s.insert(p, x)),
{
    let t = s.insert(p, x);
    if p < s.len() {
        lemma_lex_total(s[p], x);
    }
    assert forall|k: int| p <= k < s.len() implies lex_le(x, #[trigger] s[k]) by {
        if k > p {
            lemma_lex_transitive(x, s[p], s[k]);
        }
    }
    assert forall|i: int, j: int| 0 <= i < j < t.len() implies lex_le(
        #[trigger] t[i],
        #[trigger] t[j],
    ) by {
        if j < p {
            assert(t[i] == s[i] && t[j] == s[j]);
        } else if j == p {
            assert(t[i] == s[i]);
        } else if i < p {
            assert(t[i] == s[i] && t[j] == s[j - 1]);
            lemma_lex_transitive(s[i], x, s[j - 1]);
        } else if i == p {
            assert(t[j] == s[j - 1]);
        } else {
            assert(t[i] == s[i - 1] && t[j] == s[j - 1]);
        }
    }
}

/// The file names among the directory entries that are model files (their
/// extension is `bin`), sorted in `String` order. An entry is `None` where
/// the file has no name that is valid UTF-8; such entries are skipped.
pub fn select_model_files(entries: &Vec<Option<String>>) -> (r: Vec<String>)
    ensures
        sorted_lex(string_views(r@)),
        string_views(r@).to_multiset() == model_names_spec(entry_views(entries@)).to_multiset(),
{
    let mut out: Vec<String> = Vec::new();
    let mut i: usize = 0;
    while i < entries.len()
        invariant
            i <= entries.len(),
            sorted_lex(string_views(out@)),
            string_views(out@).to_multiset() == model_names_spec(
                entry_views(entries@).take(i as int),
            ).to_multiset(),
        decreases entries.len() - i,
    {
        proof {
            let ev = entry_views(entries@);
            assert(ev.take(i + 1).drop_last() =~= ev.take(i as int));
            assert(ev.take(i + 1).last() == ev[i as int]);
        }
        match &entries[i] {
            Some(name) => {
                if has_model_extension(name.as_str()) {
                    let mut p: usize = 0;
                    while p < out.len() && str_lex_le(out[p].as_str(), name.as_str())
                        invariant
                            p <= out.len(),
                            forall|k: int| 0 <= k < p ==> lex_le(#[trigger] out@[k]@, name@),
                        decreases out.len() - p,
                    {
                        p = p + 1;
                    }
                    let ghost before = out@;
                    out.insert(p, name.clone());
                    proof {
                        let sv = string_views(before);
                        assert(string_views(out@) =~= sv.insert(p as int, name@));
                        assert forall|k: int| 0 <= k < p implies lex_le(#[trigger] sv[k], name@) by {
                            assert(sv[k] == before[k]@);
                        }
                        if p < before.len() {
                            assert(sv[p as int] == before[p as int]@);
                        }
                        lemma_insert_sorted(sv, p as int, name@);
                        vstd::seq_lib::to_multiset_insert(sv, p as int, name@);
                    }
                }
            },
            None => {},
        }
        i = i + 1;
    }
    proof {
        assert(entry_views(entries@).take(entries.len() as int) =~= entry_views(entries@));
    }
    out
}

/// The model file to use for the model setting `path_str`: nothing when
/// no model is chosen, the path itself when it is absolute, and otherwise
/// the path under the models directory of the data directory, or the path
/// itself when the data directory is unknown.
pub fn resolve_model_path(path_str: &str, app_data_dir: Option<PathBuf>) -> (r: String)
    ensures
        path_str@.len() == 0 <==> r@.len() == 0,
        path_str@.len() != 0 && path_is_absolute(path_str@) ==> r@ == path_str@,
        path_str@.len() != 0 && !path_is_absolute(path_str@) ==> r@ == match app_data_dir {
            Some(d) => path_text(joined_path(models_dir_spec(d), path_str@)),
            None => path_str@,
        },
{
    if path_str.is_empty() {
        return String::new();
    }
    if is_absolute(path_str) {
        String::from_str(path_str)
    } else {
        match app_data_dir {
            Some(d) => {
                let file = model_file(&d, path_str);
                path_to_string(&file)
            },
            None => String::from_str(path_str),
        }
    }
}

/// The message when transcription is asked for before a model is chosen.
pub open spec fn no_model_message() -> Seq<char> {
    "No Whisper model is selected. Please select a model in settings first."@
}

/// The model file, or the no-model error when none is chosen.
pub fn require_model(model_path: String) -> (r: Result<String, String>)
    ensures
        model_path@.len() == 0 <==> r is Err,
        r matches Ok(p) ==> p@ == model_path@,
        r matches Err(m) ==> m@ == no_model_message(),
{
    if model_path.as_str().is_empty() {
        Err(String::from_str("No Whisper model is selected. Please select a model in settings first."))
    } else {
        Ok(model_path)
    }
}

} // verus!
