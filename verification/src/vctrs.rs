//! Vectors of geometry handles: the class of a vector, and the checks on it.
//!
//! A vector of handles carries the class stack `rs_KIND`, `rsgeo`,
//! `vctrs_vctr`, `list`, where `KIND` is the upper-case form of the name of its
//! kind. The kind of a vector is the one name that its handles carry, or
//! `geometrycollection` where they carry several; missing handles do not
//! count. A vector without any named handle is of the kind `unknown`.
use crate::error::Error;
use crate::handle::{handles_view, GeomVector, Handle, HandleView};
use crate::node::class_view;
use crate::text::{has_prefix, lowercase_of, str_eq, to_lowercase, to_uppercase, uppercase_of};
use vstd::prelude::*;
use vstd::string::*;

verus! {

/// Whether no element carries a tag.
pub open spec fn all_absent(tags: Seq<Option<Seq<char>>>) -> bool {
    forall|i: int| 0 <= i < tags.len() ==> #[trigger] tags[i] is None
}

/// Whether the tags that the elements carry are all `t`, and at least one
/// element carries it: the set of the tags is `{t}`.
pub open spec fn uniform(tags: Seq<Option<Seq<char>>>, t: Seq<char>) -> bool {
    &&& exists|i: int| 0 <= i < tags.len() && #[trigger] tags[i] == Some(t)
    &&& forall|i: int| 0 <= i < tags.len() && #[trigger] tags[i] is Some ==> tags[i] == Some(t)
}

/// The tag of a vector whose elements carry `tags`: `empty` where none carries
/// a tag, the one tag where all that carry one carry the same, and `mixed`
/// where two differ.
pub open spec fn spec_classify(
    tags: Seq<Option<Seq<char>>>,
    empty: Seq<char>,
    mixed: Seq<char>,
) -> Seq<char> {
    if all_absent(tags) {
        empty
    } else if exists|t: Seq<char>| uniform(tags, t) {
        choose|t: Seq<char>| uniform(tags, t)
    } else {
        mixed
    }
}

/// The tags as plain sequences.
pub open spec fn tags_view(tags: Seq<Option<&str>>) -> Seq<Option<Seq<char>>> {
    tags.map_values(
        |t: Option<&str>|
            match t {
                Some(s) => Some(s@),
                None => None,
            },
    )
}

/// The tag that a handle carries: its first class. A missing handle carries
/// none, and neither does a handle without a class.
pub open spec fn spec_handle_tag<T>(h: Option<HandleView<T>>) -> Option<Seq<char>> {
    match h {
        Some(h) => if h.class.len() > 0 {
            Some(h.class[0])
        } else {
            None
        },
        None => None,
    }
}

/// The kind of a vector of handles.
pub open spec fn spec_vector_tag<T>(items: Seq<Option<HandleView<T>>>) -> Seq<char> {
    spec_classify(
        items.map_values(|h: Option<HandleView<T>>| spec_handle_tag(h)),
        "unknown"@,
        "geometrycollection"@,
    )
}

/// The class stack of a vector whose kind, in upper case, is `upper`.
pub open spec fn spec_vctrs_class(upper: Seq<char>) -> Seq<Seq<char>> {
    seq!["rs_"@ + upper, "rsgeo"@, "vctrs_vctr"@, "list"@]
}

/// The first class of a stack, if it has one.
pub open spec fn spec_first_class(class: Seq<Seq<char>>) -> Option<Seq<char>> {
    if class.len() > 0 {
        Some(class[0])
    } else {
        None
    }
}

/// Whether a class stack marks a vector of geometry handles: its first class
/// begins with `rs_`.
pub open spec fn spec_is_rsgeo(class: Seq<Seq<char>>) -> bool {
    class.len() > 0 && has_prefix(class[0], "rs_"@)
}

/// The characters of an optional string.
pub open spec fn option_view(s: Option<String>) -> Option<Seq<char>> {
    match s {
        Some(s) => Some(s@),
        None => None,
    }
}

/// At most one tag is the tag of all.
pub proof fn lemma_uniform_unique(tags: Seq<Option<Seq<char>>>, s: Seq<char>, t: Seq<char>)
    requires
        uniform(tags, s),
        uniform(tags, t),
    ensures
        s == t,
{
    let i = choose|i: int| 0 <= i < tags.len() && #[trigger] tags[i] == Some(s);
    assert(tags[i] is Some);
}

/// The tag of a vector whose elements carry `tags`.
pub fn classify(tags: &Vec<Option<&str>>, empty: &str, mixed: &str) -> (tag: String)
    ensures
        tag@ == spec_classify(tags_view(tags@), empty@, mixed@),
{
    let ghost all = tags_view(tags@);
    let mut first: Option<&str> = None;
    let mut i: usize = 0;
    while i < tags.len()
        invariant
            all == tags_view(tags@),
            0 <= i <= tags@.len(),
            first is None ==> forall|k: int| 0 <= k < i ==> #[trigger] all[k] is None,
            first matches Some(f) ==> {
                &&& exists|k: int| 0 <= k < i && #[trigger] all[k] == Some(f@)
                &&& forall|k: int| 0 <= k < i && #[trigger] all[k] is Some ==> all[k] == Some(f@)
            },
        decreases tags@.len() - i,
    {
        if let Some(t) = tags[i] {
            assert(all[i as int] == Some(t@));
            match first {
                None => {
                    first = Some(t);
                },
                Some(f) => {
                    if !str_eq(f, t) {
                        proof {
                            let a = choose|k: int| 0 <= k < i && #[trigger] all[k] == Some(f@);
                            assert forall|s: Seq<char>| !uniform(all, s) by {
                                if uniform(all, s) {
                                    assert(all[a] is Some);
                                    assert(all[i as int] is Some);
                                }
                            }
                            assert(all[a] is Some);
                        }
                        return mixed.to_owned();
                    }
                },
            }
        } else {
            assert(all[i as int] is None);
        }
        i += 1;
    }
    match first {
        None => empty.to_owned(),
        Some(f) => {
            proof {
                assert(uniform(all, f@));
                let a = choose|k: int| 0 <= k < i && #[trigger] all[k] == Some(f@);
                assert(all[a] is Some);
                let t = choose|t: Seq<char>| uniform(all, t);
                lemma_uniform_unique(all, t, f@);
            }
            f.to_owned()
        },
    }
}

/// The kind of a vector of handles: the one name that its handles carry as
/// their first class, `geometrycollection` where they carry several, and
/// `unknown` where no handle carries one. Missing handles do not count.
pub fn vector_tag<T>(x: &Vec<Option<Handle<T>>>) -> (tag: String)
    ensures
        tag@ == spec_vector_tag(handles_view(x@)),
{
    let ghost want = handles_view(x@).map_values(|h: Option<HandleView<T>>| spec_handle_tag(h));
    let mut tags: Vec<Option<&str>> = Vec::with_capacity(x.len());
    let mut i: usize = 0;
    while i < x.len()
        invariant
            want == handles_view(x@).map_values(|h: Option<HandleView<T>>| spec_handle_tag(h)),
            0 <= i <= x@.len(),
            tags@.len() == i,
            forall|k: int| 0 <= k < i ==> #[trigger] tags_view(tags@)[k] == want[k],
        decreases x@.len() - i,
    {
        let tag: Option<&str> = match &x[i] {
            Some(h) => if h.class.len() > 0 {
                Some(h.class[0].as_str())
            } else {
                None
            },
            None => None,
        };
        let ghost before = tags@;
        tags.push(tag);
        proof {
            assert(handles_view(x@)[i as int] == match x@[i as int] {
                Some(h) => Some(h@),
                None => None,
            });
            assert(tags_view(tags@)[i as int] == want[i as int]);
            assert forall|k: int| 0 <= k < i implies #[trigger] tags_view(tags@)[k] == want[k] by {
                assert(tags@[k] == before[k]);
                assert(tags_view(before)[k] == want[k]);
            }
        }
        i += 1;
    }
    assert(tags_view(tags@) =~= want);
    classify(&tags, "unknown", "geometrycollection")
}

/// The class stack of a vector whose kind, in upper case, is `upper`.
pub fn vctrs_class(upper: &str) -> (class: [String; 4])
    ensures
        class@.map_values(|s: String| s@) == spec_vctrs_class(upper@),
{
    let class = [
        "rs_".to_owned().concat(upper),
        "rsgeo".to_owned(),
        "vctrs_vctr".to_owned(),
        "list".to_owned(),
    ];
    assert(class@.map_values(|s: String| s@) =~= spec_vctrs_class(upper@));
    class
}

/// The class stack of a vector of the kind `cls`: the kind goes into upper
/// case and behind `rs_`.
pub fn geom_class(cls: &str) -> (class: [String; 4])
    ensures
        class@.map_values(|s: String| s@) == spec_vctrs_class(uppercase_of(cls@)),
{
    let upper = to_uppercase(cls);
    vctrs_class(upper.as_str())
}

/// The class stack as a vector of strings.
fn class_vec(class: &[String; 4]) -> (v: Vec<String>)
    ensures
        class_view(v) == class@.map_values(|s: String| s@),
{
    let mut v: Vec<String> = Vec::with_capacity(4);
    v.push(class[0].clone());
    v.push(class[1].clone());
    v.push(class[2].clone());
    v.push(class[3].clone());
    assert(class_view(v) =~= class@.map_values(|s: String| s@));
    v
}

/// The handles as a vector of the kind `class`. The vector is made anew, with
/// its class; the handles are as they were, in their order.
pub fn as_rsgeo_vctr<T>(x: Vec<Option<Handle<T>>>, class: &str) -> (v: GeomVector<T>)
    ensures
        v.items == x,
        v@.class == spec_vctrs_class(uppercase_of(class@)),
{
    let stack = geom_class(class);
    GeomVector { class: class_vec(&stack), items: x }
}

/// The class stack of a vector of these handles, by the kind that
/// `vector_tag` finds.
pub fn determine_geoms_class<T>(x: &Vec<Option<Handle<T>>>) -> (class: [String; 4])
    ensures
        class@.map_values(|s: String| s@) == spec_vctrs_class(
            uppercase_of(spec_vector_tag(handles_view(x@))),
        ),
{
    let tag = vector_tag(x);
    geom_class(tag.as_str())
}

/// Whether `s` begins with `rs_`.
fn starts_with_rs(s: &str) -> (r: bool)
    ensures
        r == has_prefix(s@, "rs_"@),
{
    proof {
        reveal_strlit("rs_");
    }
    if s.unicode_len() < 3 {
        return false;
    }
    let r = s.get_char(0) == 'r' && s.get_char(1) == 's' && s.get_char(2) == '_';
    proof {
        if r {
            assert(s@.subrange(0, 3) =~= "rs_"@);
        } else {
            assert(s@.subrange(0, 3)[0] == s@[0]);
            assert(s@.subrange(0, 3)[1] == s@[1]);
            assert(s@.subrange(0, 3)[2] == s@[2]);
        }
    }
    r
}

/// The first class of a stack, if it has one.
fn first_class(class: &Vec<String>) -> (r: Option<String>)
    ensures
        option_view(r) == spec_first_class(class_view(*class)),
{
    if class.len() > 0 {
        Some(class[0].clone())
    } else {
        None
    }
}

/// Whether `x` carries the class of a vector of geometry handles.
pub fn is_rsgeo<T>(x: &GeomVector<T>) -> (r: bool)
    ensures
        r == spec_is_rsgeo(x@.class),
{
    x.class.len() > 0 && starts_with_rs(x.class[0].as_str())
}

/// `Ok` where `x` carries the class of a vector of geometry handles; else the
/// error, with the first class that it carries instead, if it carries any.
pub fn verify_rsgeo<T>(x: &GeomVector<T>) -> (r: Result<(), Error>)
    ensures
        spec_is_rsgeo(x@.class) ==> r is Ok,
        !spec_is_rsgeo(x@.class) ==> (r matches Err(Error::NotAGeometryVector(t)) && option_view(t)
            == spec_first_class(x@.class)),
{
    if is_rsgeo(x) {
        Ok(())
    } else {
        Err(Error::NotAGeometryVector(first_class(&x.class)))
    }
}

/// The name of the kind of a vector of geometry handles, such as `point` or
/// `linestring`: what follows `rs_` in its first class, in lower case. Where
/// `x` does not carry the class of such a vector, the error, as `verify_rsgeo`
/// gives it.
pub fn rsgeo_type<T>(x: &GeomVector<T>) -> (r: Result<String, Error>)
    ensures
        spec_is_rsgeo(x@.class) ==> (r matches Ok(s) && s@ == lowercase_of(
            x@.class[0].subrange(3, x@.class[0].len() as int),
        )),
        !spec_is_rsgeo(x@.class) ==> (r matches Err(Error::NotAGeometryVector(t)) && option_view(t)
            == spec_first_class(x@.class)),
{
    if !is_rsgeo(x) {
        return Err(Error::NotAGeometryVector(first_class(&x.class)));
    }
    proof {
        reveal_strlit("rs_");
    }
    let cls = x.class[0].as_str();
    let kind = cls.substring_char(3, cls.unicode_len());
    Ok(to_lowercase(kind))
}

} // verus!
