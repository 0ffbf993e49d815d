//! The font faces offered in the face selector: which enumerated faces are kept, in what order,
//! and which one is selected first.
use vstd::prelude::*;

use crate::domain::DEFAULT_FONT_FACE_NAME;
use crate::receipt::{normalize_font_name, normalized_font_name, unicode_lowercase};
use crate::text::trim;
use crate::text::{chars_equal, chars_of};

verus! {

/// Lexicographic order of texts by character (code point). It is also the order of their UTF-8
/// bytes, which is how `String`s compare.
pub open spec fn text_less(a: Seq<char>, b: Seq<char>) -> bool
    decreases a.len(),
{
    if a.len() == 0 {
        b.len() > 0
    } else if b.len() == 0 {
        false
    } else if a[0] != b[0] {
        a[0] < b[0]
    } else {
        text_less(a.drop_first(), b.drop_first())
    }
}

/// No text comes before itself.
pub proof fn lemma_text_less_irreflexive(a: Seq<char>)
    ensures
        !text_less(a, a),
    decreases a.len(),
{
    if a.len() > 0 {
        lemma_text_less_irreflexive(a.drop_first());
    }
}

/// Of two different texts, one comes first.
pub proof fn lemma_text_less_total(a: Seq<char>, b: Seq<char>)
    requires
        a != b,
    ensures
        text_less(a, b) || text_less(b, a),
    decreases a.len(),
{
    if a.len() > 0 && b.len() > 0 && a[0] == b[0] {
        if a.drop_first() == b.drop_first() {
            assert(a.drop_first().len() == a.len() - 1);
            assert(b.drop_first().len() == b.len() - 1);
            assert(a =~= b) by {
                assert forall|i: int| 0 <= i < a.len() implies a[i] == b[i] by {
                    if i > 0 {
                        assert(a[i] == a.drop_first()[i - 1]);
                        assert(b[i] == b.drop_first()[i - 1]);
                    }
                }
            }
        }
        lemma_text_less_total(a.drop_first(), b.drop_first());
    } else if a.len() == 0 && b.len() == 0 {
        assert(a =~= b);
    }
}

/// The order of texts is transitive.
pub proof fn lemma_text_less_transitive(a: Seq<char>, b: Seq<char>, c: Seq<char>)
    requires
        text_less(a, b),
        text_less(b, c),
    ensures
        text_less(a, c),
    decreases a.len(),
{
    if a.len() > 0 && a[0] == b[0] && b[0] == c[0] {
        lemma_text_less_transitive(a.drop_first(), b.drop_first(), c.drop_first());
    }
}

/// Whether `a` comes before `b` in code-point order.
pub fn chars_less(a: &Vec<char>, b: &Vec<char>) -> (r: bool)
    ensures
        r == text_less(a@, b@),
{
    let mut i: usize = 0;
    assert(a@.skip(0) =~= a@);
    assert(b@.skip(0) =~= b@);
    while i < a.len() && i < b.len() && a[i] == b[i]
        invariant
            i <= a.len(),
            i <= b.len(),
            text_less(a@, b@) == text_less(a@.skip(i as int), b@.skip(i as int)),
        decreases a.len() - i,
    {
        assert(a@.skip(i as int).drop_first() =~= a@.skip(i + 1));
        assert(b@.skip(i as int).drop_first() =~= b@.skip(i + 1));
        i += 1;
    }
    if i == a.len() {
        i < b.len()
    } else if i == b.len() {
        false
    } else {
        a[i] < b[i]
    }
}

/// The texts of `faces`.
pub open spec fn face_texts(faces: Seq<String>) -> Seq<Seq<char>> {
    faces.map_values(|face: String| face@)
}

/// Whether an enumerated face is offered: its name is not empty and is not that of a
/// vertical-writing face, which starts with `@`.
pub open spec fn is_offered_face_name(name: Seq<char>) -> bool {
    name.len() > 0 && name[0] != '@'
}

/// Whether `faces` holds a face whose name compares equal to `name` (trimmed, in lower case).
pub open spec fn lists_face(faces: Seq<Seq<char>>, name: Seq<char>) -> bool {
    exists|i: int|
        0 <= i < faces.len() && normalized_font_name(#[trigger] faces[i]) == normalized_font_name(
            name,
        )
}

/// The list `faces` becomes when enumeration reports `face_name`: an offered face is added at the
/// end unless a face of the same compared name is already there.
pub open spec fn enumerated_faces(faces: Seq<Seq<char>>, face_name: Seq<char>) -> Seq<Seq<char>> {
    if is_offered_face_name(face_name) && !lists_face(faces, face_name) {
        faces.push(face_name)
    } else {
        faces
    }
}

/// What enumeration does to the list: a reported name that is not empty and does not start with
/// `@` is added, exactly as reported, at the end, unless a listed face's trimmed, lower-cased
/// full name equals its own, in which case (as for an empty or `@` name) nothing changes.
pub proof fn lemma_enumerated_face_is_listed(faces: Seq<Seq<char>>, name: Seq<char>)
    ensures
        name.len() > 0 && name[0] != '@' && (forall|i: int|
            0 <= i < faces.len() ==> unicode_lowercase(trim(#[trigger] faces[i]))
                != unicode_lowercase(trim(name))) ==> enumerated_faces(faces, name) == faces.push(
            name,
        ),
        (exists|i: int|
            0 <= i < faces.len() && unicode_lowercase(trim(#[trigger] faces[i]))
                == unicode_lowercase(trim(name))) ==> enumerated_faces(faces, name) == faces,
        name.len() == 0 || name[0] == '@' ==> enumerated_faces(faces, name) == faces,
{
}

/// Takes the face `face_name` that font enumeration reported into `faces`: an offered face is
/// added at the end unless a face of the same compared name is already there.
pub fn add_enumerated_font_face(faces: &mut Vec<String>, face_name: String)
    ensures
        face_texts(final(faces)@) == enumerated_faces(face_texts(old(faces)@), face_name@),
{
    let chars = chars_of(face_name.as_str());
    if chars.len() == 0 || chars[0] == '@' {
        return;
    }
    let key = chars_of(normalize_font_name(face_name.as_str()).as_str());
    let mut i: usize = 0;
    while i < faces.len()
        invariant
            i <= faces.len(),
            faces@ == old(faces)@,
            key@ == normalized_font_name(face_name@),
            forall|j: int| 0 <= j < i ==> normalized_font_name(#[trigger] faces@[j]@) != key@,
        decreases faces.len() - i,
    {
        let other = chars_of(normalize_font_name(faces[i].as_str()).as_str());
        if chars_equal(other.as_slice(), key.as_slice()) {
            assert(face_texts(faces@)[i as int] == faces@[i as int]@);
            return;
        }
        i += 1;
    }
    proof {
        assert forall|j: int| 0 <= j < face_texts(old(faces)@).len() implies normalized_font_name(
            #[trigger] face_texts(old(faces)@)[j],
        ) != normalized_font_name(face_name@) by {
            assert(face_texts(old(faces)@)[j] == old(faces)@[j]@);
        }
    }
    faces.push(face_name);
    assert(face_texts(faces@) =~= face_texts(old(faces)@).push(face_name@));
}

/// Whether no two of `faces` have names that compare equal.
pub open spec fn distinct_face_names(faces: Seq<Seq<char>>) -> bool {
    forall|i: int, j: int|
        0 <= i < j < faces.len() ==> normalized_font_name(#[trigger] faces[i])
            != normalized_font_name(#[trigger] faces[j])
}

/// What enumeration adds to a list of faces whose names are distinct leaves them distinct.
pub proof fn lemma_enumerated_faces_stay_distinct(faces: Seq<Seq<char>>, face_name: Seq<char>)
    requires
        distinct_face_names(faces),
    ensures
        distinct_face_names(
            if is_offered_face_name(face_name) && !lists_face(faces, face_name) {
                faces.push(face_name)
            } else {
                faces
            },
        ),
{
    if is_offered_face_name(face_name) && !lists_face(faces, face_name) {
        let pushed = faces.push(face_name);
        assert forall|i: int, j: int| 0 <= i < j < pushed.len() implies normalized_font_name(
            #[trigger] pushed[i],
        ) != normalized_font_name(#[trigger] pushed[j]) by {
            assert(pushed[i] == faces[i]);
            if j < faces.len() {
                assert(pushed[j] == faces[j]);
            }
        }
    }
}

/// Whether face `k` of `faces` is the first whose name compares equal to its own.
pub open spec fn first_of_its_name(faces: Seq<Seq<char>>, k: int) -> bool {
    forall|j: int|
        0 <= j < k ==> normalized_font_name(#[trigger] faces[j]) != normalized_font_name(faces[k])
}

/// Whether `face` is face `k` of `faces`, the first of its compared name.
pub open spec fn is_first_face_of_name(faces: Seq<Seq<char>>, k: int, face: Seq<char>) -> bool {
    0 <= k < faces.len() && faces[k] == face && first_of_its_name(faces, k)
}

/// Whether `face` is in `faces` as the first face of its compared name.
pub open spec fn is_first_of_name_in(faces: Seq<Seq<char>>, face: Seq<char>) -> bool {
    exists|k: int| is_first_face_of_name(faces, k, face)
}

/// Whether `listed` is what the selector offers of `faces`: one face for each compared name
/// (trimmed, in lower case), the first face of that name in `faces`, in the order of the
/// compared names.
pub open spec fn is_face_listing(listed: Seq<Seq<char>>, faces: Seq<Seq<char>>) -> bool {
    &&& forall|i: int, j: int|
        0 <= i < j < listed.len() ==> text_less(
            normalized_font_name(#[trigger] listed[i]),
            normalized_font_name(#[trigger] listed[j]),
        )
    &&& forall|i: int| 0 <= i < listed.len() ==> is_first_of_name_in(faces, #[trigger] listed[i])
    &&& forall|k: int| 0 <= k < faces.len() ==> lists_face(listed, #[trigger] faces[k])
}

/// The selector offers no two faces whose names compare equal.
pub proof fn lemma_face_listing_distinct(listed: Seq<Seq<char>>, faces: Seq<Seq<char>>)
    requires
        is_face_listing(listed, faces),
    ensures
        distinct_face_names(listed),
{
    assert forall|i: int, j: int| 0 <= i < j < listed.len() implies normalized_font_name(
        #[trigger] listed[i],
    ) != normalized_font_name(#[trigger] listed[j]) by {
        lemma_text_less_irreflexive(normalized_font_name(listed[i]));
    }
}

/// The faces that the selector offers of the enumerated `faces`: sorted by compared name, and of
/// faces whose names compare equal only the first.
pub fn sorted_font_face_names(faces: Vec<String>) -> (r: Vec<String>)
    ensures
        is_face_listing(face_texts(r@), face_texts(faces@)),
{
    let ghost texts = face_texts(faces@);
    let mut listed: Vec<String> = Vec::new();
    let mut keys: Vec<Vec<char>> = Vec::new();
    let ghost mut origin: Seq<int> = Seq::empty();
    let mut k: usize = 0;
    while k < faces.len()
        invariant
            k <= faces.len(),
            texts == face_texts(faces@),
            keys@.len() == listed@.len(),
            origin.len() == listed@.len(),
            forall|i: int|
                0 <= i < keys@.len() ==> #[trigger] keys@[i]@ == normalized_font_name(
                    listed@[i]@,
                ),
            forall|i: int, j: int|
                0 <= i < j < keys@.len() ==> text_less(#[trigger] keys@[i]@, #[trigger] keys@[j]@),
            forall|i: int|
                0 <= i < origin.len() ==> 0 <= #[trigger] origin[i] < k && listed@[i]@
                    == texts[origin[i]] && first_of_its_name(texts, origin[i]),
            forall|m: int|
                0 <= m < k ==> exists|i: int|
                    0 <= i < keys@.len() && #[trigger] keys@[i]@ == normalized_font_name(
                        #[trigger] texts[m],
                    ),
        decreases faces.len() - k,
    {
        let key = chars_of(normalize_font_name(faces[k].as_str()).as_str());
        assert(texts[k as int] == faces@[k as int]@);
        let mut p: usize = 0;
        while p < keys.len() && chars_less(&keys[p], &key)
            invariant
                p <= keys@.len(),
                forall|q: int| 0 <= q < p ==> text_less(#[trigger] keys@[q]@, key@),
            decreases keys@.len() - p,
        {
            p += 1;
        }
        if p < keys.len() && chars_equal(keys[p].as_slice(), key.as_slice()) {
            assert(keys@[p as int]@ == normalized_font_name(texts[k as int]));
        } else {
            proof {
                lemma_text_less_irreflexive(key@);
                assert forall|q: int| p <= q < keys@.len() implies text_less(
                    key@,
                    #[trigger] keys@[q]@,
                ) by {
                    lemma_text_less_total(keys@[p as int]@, key@);
                    if q > p {
                        lemma_text_less_transitive(key@, keys@[p as int]@, keys@[q]@);
                    }
                }
                assert forall|q: int| 0 <= q < keys@.len() implies #[trigger] keys@[q]@
                    != key@ by {
                    if q >= p {
                        lemma_text_less_irreflexive(keys@[q]@);
                    }
                }
                assert(first_of_its_name(texts, k as int));
            }
            let face = faces[k].clone();
            let ghost old_keys = keys@;
            let ghost old_listed = listed@;
            let ghost old_origin = origin;
            listed.insert(p, face);
            keys.insert(p, key);
            proof {
                origin = origin.insert(p as int, k as int);
                assert forall|i: int, j: int| 0 <= i < j < keys@.len() implies text_less(
                    #[trigger] keys@[i]@,
                    #[trigger] keys@[j]@,
                ) by {
                    if j < p {
                        assert(keys@[i] == old_keys[i] && keys@[j] == old_keys[j]);
                    } else if j == p {
                        assert(keys@[i] == old_keys[i]);
                    } else if i < p {
                        assert(keys@[i] == old_keys[i] && keys@[j] == old_keys[j - 1]);
                    } else if i == p {
                        assert(keys@[j] == old_keys[j - 1]);
                    } else {
                        assert(keys@[i] == old_keys[i - 1] && keys@[j] == old_keys[j - 1]);
                    }
                }
                assert forall|i: int| 0 <= i < keys@.len() implies #[trigger] keys@[i]@
                    == normalized_font_name(listed@[i]@) by {
                    if i < p {
                        assert(keys@[i] == old_keys[i] && listed@[i] == old_listed[i]);
                    } else if i > p {
                        assert(keys@[i] == old_keys[i - 1] && listed@[i] == old_listed[i - 1]);
                    }
                }
                assert forall|i: int| 0 <= i < origin.len() implies 0 <= #[trigger] origin[i] < k
                    + 1 && listed@[i]@ == texts[origin[i]] && first_of_its_name(
                    texts,
                    origin[i],
                ) by {
                    if i < p {
                        assert(origin[i] == old_origin[i] && listed@[i] == old_listed[i]);
                    } else if i > p {
                        assert(origin[i] == old_origin[i - 1] && listed@[i] == old_listed[i - 1]);
                    }
                }
                assert forall|m: int| 0 <= m < k + 1 implies exists|i: int|
                    0 <= i < keys@.len() && #[trigger] keys@[i]@ == normalized_font_name(
                        #[trigger] texts[m],
                    ) by {
                    if m == k {
                        assert(keys@[p as int]@ == normalized_font_name(texts[m]));
                    } else {
                        let i = choose|i: int|
                            0 <= i < old_keys.len() && #[trigger] old_keys[i]@
                                == normalized_font_name(texts[m]);
                        if i < p {
                            assert(keys@[i] == old_keys[i]);
                        } else {
                            assert(keys@[i + 1] == old_keys[i]);
                        }
                    }
                }
            }
        }
        k += 1;
    }
    proof {
        let listed_texts = face_texts(listed@);
        assert(texts.len() == k);
        assert(listed_texts.len() == listed@.len());
        assert forall|i: int| 0 <= i < listed_texts.len() implies #[trigger] listed_texts[i]
            == listed@[i]@ by {}
        assert forall|i: int| 0 <= i < listed_texts.len() implies is_first_of_name_in(
            texts,
            #[trigger] listed_texts[i],
        ) by {
            assert(is_first_face_of_name(texts, origin[i], listed_texts[i]));
        }
        assert forall|m: int| 0 <= m < texts.len() implies lists_face(
            listed_texts,
            #[trigger] texts[m],
        ) by {
            let i = choose|i: int|
                0 <= i < keys@.len() && #[trigger] keys@[i]@ == normalized_font_name(texts[m]);
            assert(listed_texts[i] == listed@[i]@);
        }
        assert forall|i: int, j: int| 0 <= i < j < listed_texts.len() implies text_less(
            normalized_font_name(#[trigger] listed_texts[i]),
            normalized_font_name(#[trigger] listed_texts[j]),
        ) by {
            assert(keys@[i]@ == normalized_font_name(listed@[i]@));
            assert(keys@[j]@ == normalized_font_name(listed@[j]@));
        }
        assert(is_face_listing(listed_texts, texts));
    }
    listed
}

/// The faces the selector tries to select, in order: the one the settings name, the default face,
/// then common Windows faces.
pub fn font_face_candidates<'a>(preferred: &'a str) -> (r: Vec<&'a str>)
    ensures
        r@ == seq![preferred, DEFAULT_FONT_FACE_NAME, "Segoe UI", "Arial", "Consolas"],
{
    let mut r: Vec<&'a str> = Vec::new();
    r.push(preferred);
    r.push(DEFAULT_FONT_FACE_NAME);
    r.push("Segoe UI");
    r.push("Arial");
    r.push("Consolas");
    r
}

} // verus!
